//! Small numeric helpers and the source of random numbers.

use rand::Rng;
use vstd::prelude::*;
use crate::fixed::{Fixed, ONE_RAW, saturate, saturate_i128, trunc_div, trunc_div_i128, wide_mul};

verus! {

/// The raw value of pi, rounded to the nearest raw unit.
pub const PI_RAW: i64 = 13493037705;

/// The raw value of 180.
pub const HALF_TURN_RAW: i64 = 0xb4_0000_0000;

/// Draws an integer from `low..high` with `gen_range` of the rand crate, on
/// the generator that `thread_rng` hands to the calling thread. Trusted: the
/// draw lies in the half-open range. `gen_range` panics on an empty range,
/// which the precondition leaves out.
#[verifier::external_body]
fn uniform_raw(low: i64, high: i64) -> (r: i64)
    requires
        low < high,
    ensures
        low <= r < high,
{
    rand::thread_rng().gen_range(low..high)
}

/// An angle in degrees, turned into radians: `degrees * pi / 180`.
pub fn degrees_to_radians(degrees: Fixed) -> (r: Fixed)
    ensures
        r@ == saturate(trunc_div(degrees@ * PI_RAW, HALF_TURN_RAW as int)),
{
    let p = wide_mul(degrees.raw, PI_RAW);
    Fixed { raw: saturate_i128(trunc_div_i128(p, HALF_TURN_RAW as i128)) }
}

/// A random number in `[0, 1)`.
pub fn random_f64() -> (r: Fixed)
    ensures
        0 <= r@ < ONE_RAW,
{
    Fixed { raw: uniform_raw(0, ONE_RAW) }
}

/// A random number in `[min, max)`.
pub fn random_range(min: Fixed, max: Fixed) -> (r: Fixed)
    requires
        min@ < max@,
    ensures
        min@ <= r@ < max@,
{
    Fixed { raw: uniform_raw(min.raw, max.raw) }
}

pub open spec fn spec_clamp(x: Fixed, min: Fixed, max: Fixed) -> Fixed {
    if x@ < min@ {
        min
    } else if x@ > max@ {
        max
    } else {
        x
    }
}

/// `x` held between `min` and `max`.
pub fn clamp(x: Fixed, min: Fixed, max: Fixed) -> (r: Fixed)
    ensures
        r == spec_clamp(x, min, max),
{
    if x.lt(min) {
        return min;
    }
    if x.gt(max) {
        return max;
    }
    x
}

} // verus!
