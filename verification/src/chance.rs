//! Random numbers, drawn by the `rand` crate.

use rand::Rng;
use vstd::prelude::*;

verus! {

/// Calls `gen_range` on `rand::thread_rng()` with the range from zero up to,
/// not including, `bound`. Trusted: whatever is drawn lies in that range. An
/// empty range would panic, so `bound` is positive.
#[verifier::external_body]
pub(crate) fn random_below(bound: u32) -> (n: u32)
    requires
        bound > 0,
    ensures
        n < bound,
{
    rand::thread_rng().gen_range(0..bound)
}

} // verus!
