use vstd::prelude::*;

verus! {

/// Relies on `ulid::Ulid::generate`: a freshly generated ULID (the current
/// time joined with random bits), returned as its 128-bit value. Distinctness
/// of independently generated identifiers is only probabilistic, so nothing
/// is promised of the result.
#[verifier::external_body]
pub(crate) fn fresh_id() -> u128 {
    ulid::Ulid::generate().0
}

} // verus!
