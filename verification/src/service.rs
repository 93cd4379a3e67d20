use vstd::prelude::*;

verus! {

/// One endpoint of the engine's boundary layer: the operation a caller can
/// reach over the wire. The boundary layer itself — argument plumbing, HTTP
/// or command-line — stays outside the engine; it exchanges lineage tokens
/// as plain records and hands each request to the operation named here.
#[derive(Clone, Copy, Debug, PartialEq, Eq)]
pub enum ServiceRoute {
    /// Hand out a fresh token for a newly tracked object.
    Start,
    /// Advance a token after a revision of its object.
    DefineNewState,
    /// Decide whether one token may supersede another.
    AllowUpdate,
    /// Combine the histories of two tokens into a new token.
    Merge,
}

/// The complete route table of the assembled service: every operation of the
/// engine, each mounted exactly once, in this order.
pub open spec fn mounted_routes() -> Seq<ServiceRoute> {
    seq![
        ServiceRoute::Start,
        ServiceRoute::DefineNewState,
        ServiceRoute::AllowUpdate,
        ServiceRoute::Merge,
    ]
}

/// Assembles the route table that the boundary layer mounts.
pub fn rocket() -> (routes: Vec<ServiceRoute>)
    ensures
        routes@ == mounted_routes(),
{
    let mut routes: Vec<ServiceRoute> = Vec::new();
    routes.push(ServiceRoute::Start);
    routes.push(ServiceRoute::DefineNewState);
    routes.push(ServiceRoute::AllowUpdate);
    routes.push(ServiceRoute::Merge);
    proof {
        assert(routes@ =~= mounted_routes());
    }
    routes
}

} // verus!
