//! The two draws that the game takes from the `rand` crate.

use rand::Rng;
use vstd::prelude::*;

verus! {

/// An index below `len`, drawn by `rand::thread_rng().gen_range(0..len)`.
/// `gen_range` samples the half-open range that it is given and panics on an
/// empty one, so `len` must not be 0; which index comes back is left open.
#[verifier::external_body]
pub(crate) fn random_index(len: usize) -> (index: usize)
    requires
        len > 0,
    ensures
        index < len,
{
    rand::thread_rng().gen_range(0..len)
}

/// A coin flip, drawn by `rand::random::<bool>()`. Nothing is claimed of the
/// outcome.
#[verifier::external_body]
pub(crate) fn random_bool() -> bool {
    rand::random::<bool>()
}

} // verus!
