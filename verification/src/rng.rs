//! The randomness the simulation draws: exploding durations, knockback
//! perturbation angles, visual jitter and spawn placement.
//!
//! Nothing is assumed of a sampled value beyond its bounds, so every rule
//! downstream is verified for every possible outcome.

use rand::Rng;
use vstd::prelude::*;

verus! {

/// Relies on `rand::Rng::gen_range` over the inclusive range `lo..=hi`
/// (on the rng returned by `rand::thread_rng`): with `lo <= hi` the range
/// is non-empty, the call does not panic, and the sampled value lies
/// within the bounds.
#[verifier::external_body]
pub(crate) fn sample_inclusive(lo: i64, hi: i64) -> (r: i64)
    requires
        lo <= hi,
    ensures
        lo <= r <= hi,
{
    rand::thread_rng().gen_range(lo..=hi)
}

} // verus!
