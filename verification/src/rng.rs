//! The library's only source of randomness: uniform integer draws from the
//! process-wide generator of the `rand` crate.

use vstd::prelude::*;

verus! {

/// Relies on `rand::random_range`: a uniform sample from the half-open range
/// `lo..hi` lies in `[lo, hi)`; it panics only when the range is empty, which
/// the precondition rules out.
#[verifier::external_body]
pub(crate) fn random_u32_in(lo: u32, hi: u32) -> (r: u32)
    requires
        lo < hi,
    ensures
        lo <= r < hi,
{
    rand::random_range(lo..hi)
}

/// Draws a fresh seed for a noise field, uniformly below `u32::MAX`.
pub fn random_seed() -> (s: u32)
    ensures
        s < u32::MAX,
{
    random_u32_in(0, u32::MAX)
}

} // verus!
