//! Fixed-point opacity arithmetic.
//!
//! A fade speed is a signed number of speed units, [`SPEED_SCALE`] of them
//! making one alpha per second; its sign is the fade direction.  Tick
//! durations are given in microseconds.  An opacity value is an integer
//! number of speed-unit-microseconds, `0` meaning fully clear and
//! [`OPACITY_FULL`] (= `SPEED_SCALE` speed units times the microseconds of
//! one second) meaning fully opaque.  With that unit one tick's progress is
//! exactly `speed * dt`: no fraction is ever rounded away, so however small
//! the ticks, a fade accumulates every microsecond of elapsed time and
//! completes once the cumulative time suffices.

use vstd::arithmetic::mul::{lemma_mul_unary_negation, lemma_mul_upper_bound};
use vstd::prelude::*;

verus! {

/// Number of speed units in one alpha per second.
pub const SPEED_SCALE: i64 = 1_000_000;

/// Number of microseconds in one second.
pub const MICROS_PER_SEC: u64 = 1_000_000;

/// Opacity value of full alpha: `SPEED_SCALE * MICROS_PER_SEC`
/// speed-unit-microseconds.
pub const OPACITY_FULL: i64 = 1_000_000_000_000;

/// Magnitude of a fade speed.
pub open spec fn magnitude(speed: int) -> int {
    if speed < 0 {
        -speed
    } else {
        speed
    }
}

/// Clamp a raw opacity value into `[0, OPACITY_FULL]`.
pub open spec fn clamp_alpha(x: int) -> int {
    if x < 0 {
        0
    } else if x > OPACITY_FULL as int {
        OPACITY_FULL as int
    } else {
        x
    }
}

/// Opacity after one tick: advance by exactly `speed * dt` and clamp to
/// `[0, OPACITY_FULL]`.
pub open spec fn step_opacity(opacity: int, speed: int, dt: int) -> int {
    clamp_alpha(opacity + speed * dt)
}

/// The opacity left by a tick lies in `[0, 1]` (in opacity units,
/// `[0, OPACITY_FULL]`), whatever the starting opacity, the speed and the
/// tick duration — even an arbitrarily large `dt`.
pub proof fn lemma_opacity_clamped(opacity: int, speed: int, dt: int)
    ensures
        0 <= step_opacity(opacity, speed, dt) <= OPACITY_FULL as int,
{
}

/// Advance an opacity by one tick of `dt` microseconds at the given speed.
pub fn advance_opacity(opacity: i64, speed: i64, dt: u64) -> (r: i64)
    requires
        0 <= opacity <= OPACITY_FULL,
    ensures
        r as int == step_opacity(opacity as int, speed as int, dt as int),
{
    let mag: u128 = if speed >= 0 {
        speed as u128
    } else {
        (-(speed as i128)) as u128
    };
    proof {
        lemma_mul_upper_bound(mag as int, u64::MAX as int, dt as int, u64::MAX as int);
        lemma_mul_unary_negation(speed as int, dt as int);
    }
    let delta: u128 = mag * (dt as u128);
    if speed >= 0 {
        if delta >= (OPACITY_FULL - opacity) as u128 {
            OPACITY_FULL
        } else {
            opacity + (delta as i64)
        }
    } else {
        if delta >= opacity as u128 {
            0
        } else {
            opacity - (delta as i64)
        }
    }
}

} // verus!
