//! The core's one source of randomness: uniform integer draws, used by the
//! wave spawner for its next-spawn interval and for a fresh enemy's
//! heading.

use vstd::prelude::*;

verus! {

/// Relies on rand's thread-local generator and `rand::Rng::gen_range` on a
/// half-open integer range: it panics only on an empty range (ruled out
/// here) and returns a value drawn uniformly from `[lo, hi)`.  Nothing more
/// is assumed of the draw: every verified caller must hold for every value
/// in the range.
#[verifier::external_body]
pub(crate) fn gen_range_u64(lo: u64, hi: u64) -> (r: u64)
    requires
        lo < hi,
    ensures
        lo <= r < hi,
{
    rand::Rng::gen_range(&mut rand::thread_rng(), lo..hi)
}

} // verus!
