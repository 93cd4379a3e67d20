use vstd::prelude::*;

use crate::classify::{classify, lemma_matching_prefix_count_full, matching_prefix_count,
    MogulidError};
use crate::id_source::fresh_id;
use crate::merge::merge_histories;

verus! {

/// The mathematical content of a [`Mogulid`]: the three identifiers it
/// carries, with the history as a sequence.
pub ghost struct MogulidView {
    /// Identifies the tracked object across all of its revisions.
    pub ulid: u128,
    /// Identifies the one revision this token is attached to.
    pub state: u128,
    /// The chain of earlier current states, oldest first.
    pub history: Seq<u128>,
}

impl MogulidView {
    /// A lineage as the lifecycle operations produce it: the history repeats
    /// no entry and never holds the current state itself.
    pub open spec fn wf(self) -> bool {
        &&& self.history.no_duplicates()
        &&& !self.history.contains(self.state)
    }
}

/// One advance step on a lineage: the current state is archived at the end
/// of the history and a new current state takes its place.
pub open spec fn advance(lineage: MogulidView, new_state: u128) -> MogulidView {
    MogulidView {
        ulid: lineage.ulid,
        state: new_state,
        history: lineage.history.push(lineage.state),
    }
}

/// Law: advancing keeps a lineage well-formed, provided the freshly
/// generated state is new to the whole token — neither the current state nor
/// an entry of the history.
pub proof fn lemma_advance_preserves_wf(lineage: MogulidView, new_state: u128)
    requires
        lineage.wf(),
        new_state != lineage.state,
        !lineage.history.contains(new_state),
    ensures
        advance(lineage, new_state).wf(),
{
    broadcast use vstd::seq_lib::lemma_seq_contains_after_push;

    let grown = lineage.history.push(lineage.state);
    assert forall|i: int, j: int|
        0 <= i < grown.len() && 0 <= j < grown.len() && i != j implies grown[i] != grown[j] by {
        if i < lineage.history.len() && j == lineage.history.len() {
            if grown[i] == lineage.state {
                assert(lineage.history.contains(lineage.state));
            }
        } else if j < lineage.history.len() && i == lineage.history.len() {
            if grown[j] == lineage.state {
                assert(lineage.history.contains(lineage.state));
            }
        }
    }
}

/// The versioning token attached to one revision of a tracked object.
#[derive(Debug, PartialEq, Eq)]
pub struct Mogulid {
    ulid: u128,
    state: u128,
    history: Vec<u128>,
}

impl View for Mogulid {
    type V = MogulidView;

    closed spec fn view(&self) -> MogulidView {
        MogulidView { ulid: self.ulid, state: self.state, history: self.history@ }
    }
}

impl Mogulid {
    /// Assembles a token from its three parts, exactly as given.
    pub fn new(ulid: u128, state: u128, history: Vec<u128>) -> (lineage: Mogulid)
        ensures
            lineage@.ulid == ulid,
            lineage@.state == state,
            lineage@.history == history@,
    {
        Mogulid { ulid, state, history }
    }

    /// Begins tracking a new object: a fresh object identifier, a fresh
    /// current state, and an empty history.
    pub fn new_start() -> (lineage: Mogulid)
        ensures
            lineage@.history == Seq::<u128>::empty(),
            lineage@.wf(),
    {
        Mogulid { ulid: fresh_id(), state: fresh_id(), history: Vec::new() }
    }

    /// Records that the tracked object was revised: the token advances, with
    /// a freshly generated identifier as its new current state.
    pub fn define_new_state(&mut self)
        ensures
            final(self)@ == advance(old(self)@, final(self)@.state),
    {
        self.history.push(self.state);
        self.state = fresh_id();
    }

    /// The identifier of the tracked object.
    pub fn get_ulid(&self) -> (id: u128)
        ensures
            id == self@.ulid,
    {
        self.ulid
    }

    /// The identifier of the revision this token is attached to.
    pub fn get_state(&self) -> (id: u128)
        ensures
            id == self@.state,
    {
        self.state
    }

    /// A snapshot of the history; the token itself is left untouched.
    pub fn get_history(&self) -> (history: Vec<u128>)
        ensures
            history@ == self@.history,
    {
        let mut snapshot: Vec<u128> = Vec::new();
        let mut i: usize = 0;
        while i < self.history.len()
            invariant
                i <= self.history@.len(),
                snapshot@ == self.history@.take(i as int),
            decreases self.history@.len() - i,
        {
            let entry: u128 = self.history[i];
            snapshot.push(entry);
            proof {
                assert(self.history@.take(i + 1) =~= self.history@.take(i as int).push(entry));
            }
            i += 1;
        }
        proof {
            assert(self.history@.take(self.history@.len() as int) =~= self.history@);
        }
        snapshot
    }
}

fn history_contains(history: &Vec<u128>, id: u128) -> (found: bool)
    ensures
        found == history@.contains(id),
{
    let mut i: usize = 0;
    while i < history.len()
        invariant
            i <= history@.len(),
            forall|j: int| 0 <= j < i ==> history@[j] != id,
        decreases history@.len() - i,
    {
        if history[i] == id {
            return true;
        }
        i += 1;
    }
    false
}

fn matching_prefix_len(original: &Vec<u128>, challenger: &Vec<u128>) -> (matched: usize)
    requires
        original@.len() <= challenger@.len(),
    ensures
        matched == matching_prefix_count(original@, challenger@),
{
    let mut matched: usize = 0;
    let mut i: usize = 0;
    while i < original.len()
        invariant
            i <= original@.len() <= challenger@.len(),
            matched <= i,
            matched == matching_prefix_count(original@.take(i as int), challenger@),
        decreases original@.len() - i,
    {
        proof {
            assert(original@.take(i + 1).drop_last() =~= original@.take(i as int));
        }
        if original[i] == challenger[i] {
            matched += 1;
        }
        i += 1;
    }
    proof {
        assert(original@.take(original@.len() as int) =~= original@);
    }
    matched
}

/// Decides whether `challenger` may supersede `original`, per [`classify`]:
/// `Ok` accepts the challenger as a valid successor, and each error says why
/// the update must not happen.
pub fn mogulid_allow_update(original: &Mogulid, challenger: &Mogulid) -> (outcome: Result<
    (),
    MogulidError,
>)
    ensures
        outcome == classify(original@, challenger@),
{
    if original.ulid != challenger.ulid {
        return Err(MogulidError::NotVersionsOfTheSameObject);
    }
    if history_contains(&original.history, challenger.state) {
        return Err(MogulidError::ChallengerOlderThanOriginal);
    }
    if original.history.len() > challenger.history.len() {
        return Err(MogulidError::Conflict);
    }
    let matched: usize = matching_prefix_len(&original.history, &challenger.history);
    if matched != original.history.len() {
        return Err(MogulidError::Conflict);
    }
    if original.state == challenger.state && original.history.len() == challenger.history.len() {
        proof {
            lemma_matching_prefix_count_full(original@.history, challenger@.history);
            assert(original@.history =~= challenger@.history);
        }
        return Err(MogulidError::IdenticalVersions);
    }
    Ok(())
}

/// Combines the two histories into a brand-new token, per
/// [`merge_histories`]. The merged token receives a freshly generated object
/// identifier as well as a freshly generated current state — it does not
/// keep the object identifier the two inputs may share.
pub fn mogulid_merge(original: &Mogulid, challenger: &Mogulid) -> (merged: Mogulid)
    ensures
        merged@.history == merge_histories(original@.history, challenger@.history),
{
    let mut history: Vec<u128> = original.get_history();
    let mut i: usize = 0;
    while i < challenger.history.len()
        invariant
            i <= challenger@.history.len(),
            history@ == merge_histories(original@.history, challenger@.history.take(i as int)),
        decreases challenger@.history.len() - i,
    {
        proof {
            assert(challenger@.history.take(i + 1).drop_last() =~= challenger@.history.take(
                i as int,
            ));
        }
        let entry: u128 = challenger.history[i];
        if !history_contains(&history, entry) {
            history.push(entry);
        }
        i += 1;
    }
    proof {
        assert(challenger@.history.take(challenger@.history.len() as int) =~= challenger@.history);
    }
    Mogulid { ulid: fresh_id(), state: fresh_id(), history }
}

} // verus!
