//! The shared pseudo-random stream, explicitly passed as a generator handle
//! so a session (or a test) can fix the seed and reproduce a run.
//!
//! The generator itself comes from the `rand` crate and is opaque here; all
//! that is promised of a draw is its range, and all simulation logic is
//! verified for every value the draw may take.

use vstd::prelude::*;

use crate::state::{AIM_TIME_MAX, AIM_TIME_MIN, DEVIATION_SINE_LIMIT};

verus! {

#[verifier::external_type_specification]
#[verifier::external_body]
pub struct ExStdRng(rand::rngs::StdRng);

/// Relies on `rand::RngExt::random_range`: a draw from `0..n` lies below
/// `n`; the bound is all the callers build on.
#[verifier::external_body]
pub(crate) fn rng_below(rng: &mut rand::rngs::StdRng, n: u64) -> (r: u64)
    requires
        n >= 1,
    ensures
        r < n,
{
    rand::RngExt::random_range(rng, 0..n)
}

/// Draw an aim duration, fixed-point seconds within the configured bounds.
pub fn sample_aim_time(rng: &mut rand::rngs::StdRng) -> (t: i64)
    ensures
        AIM_TIME_MIN <= t <= AIM_TIME_MAX,
{
    let r = rng_below(rng, (AIM_TIME_MAX - AIM_TIME_MIN + 1) as u64);
    AIM_TIME_MIN + (r as i64)
}

/// Draw the sine of the angular deviation of a shot, fixed-point, zero-mean
/// and symmetric within the configured accuracy bound.
pub fn sample_deviation_sine(rng: &mut rand::rngs::StdRng) -> (s: i64)
    ensures
        -DEVIATION_SINE_LIMIT <= s <= DEVIATION_SINE_LIMIT,
{
    let r = rng_below(rng, (2 * DEVIATION_SINE_LIMIT + 1) as u64);
    (r as i64) - DEVIATION_SINE_LIMIT
}

} // verus!
