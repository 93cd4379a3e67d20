use mogulid::{rocket, ServiceRoute};

#[test]
fn the_service_mounts_every_operation_once() {
    assert_eq!(
        rocket(),
        vec![
            ServiceRoute::Start,
            ServiceRoute::DefineNewState,
            ServiceRoute::AllowUpdate,
            ServiceRoute::Merge,
        ]
    );
}
