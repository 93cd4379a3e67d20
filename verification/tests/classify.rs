use mogulid::{mogulid_allow_update, Mogulid, MogulidError};
use ulid::Ulid;

#[test]
fn it_works() {
    let original = Mogulid::new(
        Ulid::generate().0,
        Ulid::generate().0,
        vec![Ulid::generate().0, Ulid::generate().0],
    );
    let challenger_not_same = Mogulid::new(
        Ulid::generate().0,
        Ulid::generate().0,
        vec![Ulid::generate().0, Ulid::generate().0],
    );
    assert_eq!(
        mogulid_allow_update(&original, &challenger_not_same),
        Err(MogulidError::NotVersionsOfTheSameObject)
    );
}

#[test]
fn allowed_update_after_one_advance() {
    let original = Mogulid::new(1, 10, vec![]);
    let mut challenger = Mogulid::new(
        original.get_ulid(),
        original.get_state(),
        original.get_history(),
    );
    challenger.define_new_state();
    assert_eq!(mogulid_allow_update(&original, &challenger), Ok(()));
    assert_eq!(challenger.get_ulid(), 1);
    assert_eq!(challenger.get_history(), vec![10]);
}

#[test]
fn different_objects_are_unrelated() {
    let original = Mogulid::new(1, 10, vec![]);
    let challenger = Mogulid::new(2, 20, vec![]);
    assert_eq!(
        mogulid_allow_update(&original, &challenger),
        Err(MogulidError::NotVersionsOfTheSameObject)
    );
}

#[test]
fn stale_challenger_is_rejected() {
    let original = Mogulid::new(1, 30, vec![10, 20]);
    let challenger = Mogulid::new(1, 10, vec![]);
    assert_eq!(
        mogulid_allow_update(&original, &challenger),
        Err(MogulidError::ChallengerOlderThanOriginal)
    );
}

#[test]
fn shorter_diverged_history_is_a_conflict() {
    let original = Mogulid::new(1, 30, vec![10, 20]);
    let challenger = Mogulid::new(1, 99, vec![10]);
    assert_eq!(
        mogulid_allow_update(&original, &challenger),
        Err(MogulidError::Conflict)
    );
}

#[test]
fn disagreeing_prefix_is_a_conflict() {
    let original = Mogulid::new(1, 30, vec![10, 20]);
    let challenger = Mogulid::new(1, 40, vec![10, 99]);
    assert_eq!(
        mogulid_allow_update(&original, &challenger),
        Err(MogulidError::Conflict)
    );
}

#[test]
fn identical_fields_are_identical_versions() {
    let original = Mogulid::new(1, 30, vec![10, 20]);
    let challenger = Mogulid::new(1, 30, vec![10, 20]);
    assert_eq!(
        mogulid_allow_update(&original, &challenger),
        Err(MogulidError::IdenticalVersions)
    );
}

#[test]
fn token_is_identical_to_itself() {
    let original = Mogulid::new(1, 30, vec![10, 20]);
    assert_eq!(
        mogulid_allow_update(&original, &original),
        Err(MogulidError::IdenticalVersions)
    );
    let fresh = Mogulid::new(1, 10, vec![]);
    assert_eq!(
        mogulid_allow_update(&fresh, &fresh),
        Err(MogulidError::IdenticalVersions)
    );
}

#[test]
fn classification_is_not_symmetric() {
    // One advance ahead: accepted one way, a regression the other way.
    let original = Mogulid::new(1, 10, vec![]);
    let challenger = Mogulid::new(1, 20, vec![10]);
    assert_eq!(mogulid_allow_update(&original, &challenger), Ok(()));
    assert_eq!(
        mogulid_allow_update(&challenger, &original),
        Err(MogulidError::ChallengerOlderThanOriginal)
    );

    // Diverged with a shorter history: a conflict one way, accepted the
    // other way, because the shorter history is a matching prefix.
    let original = Mogulid::new(1, 30, vec![10, 20]);
    let challenger = Mogulid::new(1, 99, vec![10]);
    assert_eq!(
        mogulid_allow_update(&original, &challenger),
        Err(MogulidError::Conflict)
    );
    assert_eq!(mogulid_allow_update(&challenger, &original), Ok(()));
}

#[test]
fn prefix_check_does_not_require_contiguous_descent() {
    // The challenger's chain extends the original's history but skips the
    // original's current state. The prefix-only check of rule 4 accepts it;
    // this pins that documented leniency.
    let original = Mogulid::new(1, 30, vec![10, 20]);
    let challenger = Mogulid::new(1, 50, vec![10, 20, 77, 88]);
    assert_eq!(mogulid_allow_update(&original, &challenger), Ok(()));
}

#[test]
fn equal_empty_histories_same_state_are_identical() {
    let original = Mogulid::new(1, 10, vec![]);
    let challenger = Mogulid::new(1, 10, vec![]);
    assert_eq!(
        mogulid_allow_update(&original, &challenger),
        Err(MogulidError::IdenticalVersions)
    );
}
