//! The single source of randomness: a uniform integer draw.

use vstd::prelude::*;
use rand::Rng;

verus! {

/// Relies on rand's `thread_rng` and `Rng::gen_range` over the half-open
/// range `0..n`: the draw is uniform in `[0, n)`. `gen_range` panics only
/// on an empty range, which the precondition excludes.
#[verifier::external_body]
pub(crate) fn random_below(n: u64) -> (r: u64)
    requires
        1 <= n,
    ensures
        r < n,
{
    rand::thread_rng().gen_range(0..n)
}

} // verus!
