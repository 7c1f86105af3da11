//! Trusted access to the process random number generator.

use vstd::prelude::*;

verus! {

use rand::Rng;

/// Relies on rand's `Rng::gen` with the `Standard` distribution on `bool`:
/// it returns an arbitrary draw, of which nothing more can be promised.
#[verifier::external_body]
pub(crate) fn coin_flip() -> bool {
    rand::thread_rng().gen::<bool>()
}

/// Relies on rand's `Rng::gen_range` on `lo..hi`: it panics only on an
/// empty range, and returns a value of that half-open range.
#[verifier::external_body]
pub(crate) fn pick_in_range(lo: i64, hi: i64) -> (r: i64)
    requires
        lo < hi,
    ensures
        lo <= r < hi,
{
    rand::thread_rng().gen_range(lo..hi)
}

} // verus!
