use vstd::prelude::*;

verus! {

/// The combined history of two tokens: the original history, followed — in
/// their original relative order — by every challenger entry that is not
/// already present in the sequence accumulated so far.
pub open spec fn merge_histories(original: Seq<u128>, challenger: Seq<u128>) -> Seq<u128>
    decreases challenger.len(),
{
    if challenger.len() == 0 {
        original
    } else {
        let merged = merge_histories(original, challenger.drop_last());
        if merged.contains(challenger.last()) {
            merged
        } else {
            merged.push(challenger.last())
        }
    }
}

/// How many positions of `challenger` hold an identifier that does not occur
/// in `original`.
pub open spec fn new_entry_count(original: Seq<u128>, challenger: Seq<u128>) -> nat
    decreases challenger.len(),
{
    if challenger.len() == 0 {
        0
    } else {
        new_entry_count(original, challenger.drop_last()) + if original.contains(
            challenger.last(),
        ) {
            0nat
        } else {
            1nat
        }
    }
}

proof fn lemma_merge_histories_contains(original: Seq<u128>, challenger: Seq<u128>, id: u128)
    ensures
        merge_histories(original, challenger).contains(id) <==> original.contains(id)
            || challenger.contains(id),
    decreases challenger.len(),
{
    broadcast use vstd::seq_lib::lemma_seq_contains_after_push;

    if challenger.len() > 0 {
        lemma_merge_histories_contains(original, challenger.drop_last(), id);
        assert(challenger =~= challenger.drop_last().push(challenger.last()));
    }
}

proof fn lemma_merge_histories_no_duplicates(original: Seq<u128>, challenger: Seq<u128>)
    requires
        original.no_duplicates(),
    ensures
        merge_histories(original, challenger).no_duplicates(),
    decreases challenger.len(),
{
    if challenger.len() > 0 {
        lemma_merge_histories_no_duplicates(original, challenger.drop_last());
        let merged = merge_histories(original, challenger.drop_last());
        let last = challenger.last();
        if !merged.contains(last) {
            let grown = merged.push(last);
            assert forall|i: int, j: int|
                0 <= i < grown.len() && 0 <= j < grown.len() && i != j implies grown[i]
                != grown[j] by {
                if i < merged.len() && j < merged.len() {
                    assert(merged[i] != merged[j]);
                } else if j == merged.len() && i < merged.len() {
                    assert(merged[i] != last) by {
                        if merged[i] == last {
                            assert(merged.contains(last));
                        }
                    }
                } else if i == merged.len() && j < merged.len() {
                    assert(merged[j] != last) by {
                        if merged[j] == last {
                            assert(merged.contains(last));
                        }
                    }
                }
            }
        }
    }
}

proof fn lemma_merge_histories_len(original: Seq<u128>, challenger: Seq<u128>)
    requires
        challenger.no_duplicates(),
    ensures
        merge_histories(original, challenger).len() == original.len() + new_entry_count(
            original,
            challenger,
        ),
    decreases challenger.len(),
{
    if challenger.len() > 0 {
        let shorter = challenger.drop_last();
        let last = challenger.last();
        assert(shorter.no_duplicates()) by {
            assert forall|i: int, j: int|
                0 <= i < shorter.len() && 0 <= j < shorter.len() && i != j implies shorter[i]
                != shorter[j] by {
                assert(challenger[i] != challenger[j]);
            }
        }
        lemma_merge_histories_len(original, shorter);
        lemma_merge_histories_contains(original, shorter, last);
        if shorter.contains(last) {
            let i: int = choose|i: int| 0 <= i < shorter.len() && shorter[i] == last;
            assert(challenger[i] == challenger[challenger.len() - 1]);
        }
    }
}

/// Law: merging two duplicate-free histories loses nothing, invents nothing
/// and repeats nothing. The merged history holds exactly the identifiers
/// that occur in at least one of the two inputs, holds no identifier twice,
/// and its length is the original's length plus the number of challenger
/// entries the original did not already hold.
pub proof fn lemma_merge_histories_complete(original: Seq<u128>, challenger: Seq<u128>)
    requires
        original.no_duplicates(),
        challenger.no_duplicates(),
    ensures
        forall|id: u128|
            merge_histories(original, challenger).contains(id) <==> original.contains(id)
                || challenger.contains(id),
        merge_histories(original, challenger).no_duplicates(),
        merge_histories(original, challenger).len() == original.len() + new_entry_count(
            original,
            challenger,
        ),
{
    assert forall|id: u128|
        merge_histories(original, challenger).contains(id) <==> original.contains(id)
            || challenger.contains(id) by {
        lemma_merge_histories_contains(original, challenger, id);
    }
    lemma_merge_histories_no_duplicates(original, challenger);
    lemma_merge_histories_len(original, challenger);
}

} // verus!
