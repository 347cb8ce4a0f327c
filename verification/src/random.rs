//! Random numbers for the first placement of the agents.

use vstd::prelude::*;

verus! {

/// Largest magnitude of a bound that `between` accepts: two to the power 52.
pub const RANDOM_LIMIT: i64 = 0x10_0000_0000_0000;

/// Draws a number from `macroquad::rand::gen_range`. That function scales a
/// fraction in `[0, 1)` taken from its generator to the span between the two
/// bounds, in double precision, adds the lower bound and cuts the fraction
/// off. With bounds that double precision holds exactly the result is
/// neither below `low` nor above `high`; which number it is depends on the
/// state of the generator, so nothing more is claimed.
#[verifier::external_body]
pub(crate) fn between(low: i64, high: i64) -> (r: i64)
    requires
        low <= high,
        -RANDOM_LIMIT <= low,
        high <= RANDOM_LIMIT,
    ensures
        low <= r <= high,
{
    macroquad::rand::gen_range(low, high)
}

} // verus!
