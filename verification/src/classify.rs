use vstd::prelude::*;

use crate::lineage::{advance, MogulidView};

verus! {

/// Why a challenger token may not supersede an original one. These four
/// outcomes, together with plain acceptance, are the classifier's entire
/// vocabulary; none of them is a fault of the engine itself.
#[derive(Debug, PartialEq, Eq)]
pub enum MogulidError {
    /// The two tokens carry different object identifiers: they describe
    /// unrelated objects, and no relationship can be established.
    NotVersionsOfTheSameObject,
    /// The challenger's current state is a revision the original has already
    /// moved past; installing it would be a regression.
    ChallengerOlderThanOriginal,
    /// The two tokens denote the exact same revision; no update is needed.
    IdenticalVersions,
    /// The two revision chains have diverged in a way the engine cannot
    /// reconcile on its own.
    Conflict,
}

/// How many of the first `original.len()` positions hold the same identifier
/// in both histories. Meaningful when `original` is no longer than
/// `challenger`, which is the only situation in which [`classify`] reads it.
pub open spec fn matching_prefix_count(original: Seq<u128>, challenger: Seq<u128>) -> nat
    decreases original.len(),
{
    if original.len() == 0 {
        0
    } else {
        matching_prefix_count(original.drop_last(), challenger) + if original.last()
            == challenger[original.len() - 1] {
            1nat
        } else {
            0nat
        }
    }
}

proof fn lemma_matching_prefix_count_le(original: Seq<u128>, challenger: Seq<u128>)
    ensures
        matching_prefix_count(original, challenger) <= original.len(),
    decreases original.len(),
{
    if original.len() > 0 {
        lemma_matching_prefix_count_le(original.drop_last(), challenger);
    }
}

/// The position count reaches the original's full length exactly when the
/// two histories agree at every position within that length.
pub proof fn lemma_matching_prefix_count_full(original: Seq<u128>, challenger: Seq<u128>)
    ensures
        matching_prefix_count(original, challenger) == original.len() <==> (forall|i: int|
            0 <= i < original.len() ==> original[i] == challenger[i]),
    decreases original.len(),
{
    if original.len() > 0 {
        let shorter = original.drop_last();
        lemma_matching_prefix_count_le(shorter, challenger);
        lemma_matching_prefix_count_full(shorter, challenger);
        if matching_prefix_count(original, challenger) == original.len() {
            assert forall|i: int| 0 <= i < original.len() implies original[i] == challenger[i] by {
                if i < original.len() - 1 {
                    assert(shorter[i] == original[i]);
                }
            }
        }
        if forall|i: int| 0 <= i < original.len() ==> original[i] == challenger[i] {
            assert forall|i: int| 0 <= i < shorter.len() implies shorter[i] == challenger[i] by {
                assert(original[i] == challenger[i]);
            }
        }
    }
}

/// The decision procedure: may `challenger` supersede `original`? The rules
/// are tried in this exact order and the first that applies wins:
///
/// 1. different object identifiers: `NotVersionsOfTheSameObject`;
/// 2. the challenger's current state already occurs in the original's
///    history: `ChallengerOlderThanOriginal`;
/// 3. the original's history is strictly longer than the challenger's:
///    `Conflict`;
/// 4. the two histories disagree at some position within the original's
///    length: `Conflict`;
/// 5. same current state and equal histories: `IdenticalVersions`;
/// 6. otherwise the challenger is accepted as a valid successor: `Ok`.
///
/// Rule 4 deliberately checks only that the overlapping prefix of the two
/// histories matches; it does not also ask that the original's current state
/// appear in the challenger's history right after that prefix, so a
/// challenger whose chain skips revisions can still be accepted. That
/// leniency is part of the documented contract and is kept as it stands.
pub open spec fn classify(original: MogulidView, challenger: MogulidView) -> Result<
    (),
    MogulidError,
> {
    if original.ulid != challenger.ulid {
        Err(MogulidError::NotVersionsOfTheSameObject)
    } else if original.history.contains(challenger.state) {
        Err(MogulidError::ChallengerOlderThanOriginal)
    } else if original.history.len() > challenger.history.len() {
        Err(MogulidError::Conflict)
    } else if matching_prefix_count(original.history, challenger.history)
        != original.history.len() {
        Err(MogulidError::Conflict)
    } else if original.state == challenger.state && original.history == challenger.history {
        Err(MogulidError::IdenticalVersions)
    } else {
        Ok(())
    }
}

/// Law: comparing any well-formed lineage against itself reports that the
/// two tokens denote the exact same revision.
pub proof fn lemma_classify_self_identical(lineage: MogulidView)
    requires
        lineage.wf(),
    ensures
        classify(lineage, lineage) == Err::<(), MogulidError>(MogulidError::IdenticalVersions),
{
    lemma_matching_prefix_count_full(lineage.history, lineage.history);
}

/// Law: a single advance of a copy of a well-formed lineage yields a
/// challenger that the classifier accepts as a valid successor, provided the
/// freshly generated state is indeed new to the lineage.
pub proof fn lemma_classify_advance_allowed(lineage: MogulidView, new_state: u128)
    requires
        lineage.wf(),
        !lineage.history.contains(new_state),
    ensures
        classify(lineage, advance(lineage, new_state)) == Ok::<(), MogulidError>(()),
{
    let challenger = advance(lineage, new_state);
    lemma_matching_prefix_count_full(lineage.history, challenger.history);
    assert(forall|i: int|
        0 <= i < lineage.history.len() ==> lineage.history[i] == challenger.history[i]);
    assert(lineage.history.len() != challenger.history.len());
}

} // verus!
