//! Fixed-point units and the saturating arithmetic that the rest of the crate
//! is built on.
//!
//! Positions, sizes and speeds count sub-units, [`SUBUNITS`] of which make one
//! screen unit.  Speeds are sub-units per second and time steps are
//! microseconds.  Positions are `i32` and saturate at the ends of that range.

use vstd::prelude::*;

verus! {

/// Sub-units in one screen unit.
pub const SUBUNITS: u32 = 1000;

/// Microseconds in one second.
pub const MICROS_PER_SECOND: u32 = 1_000_000;

/// `v` brought into the range of a position.
pub open spec fn saturated(v: int) -> int {
    if v < i32::MIN {
        i32::MIN as int
    } else if v > i32::MAX {
        i32::MAX as int
    } else {
        v
    }
}

/// Brings a wide intermediate result back into the range of a position.
pub fn saturate(v: i64) -> (r: i32)
    ensures
        r == saturated(v as int),
{
    if v < i32::MIN as i64 {
        i32::MIN
    } else if v > i32::MAX as i64 {
        i32::MAX
    } else {
        v as i32
    }
}

/// The distance covered at `speed` sub-units per second in `dt` microseconds,
/// rounded down to whole sub-units.
pub open spec fn distance(speed: u32, dt: u32) -> int {
    (speed as int * dt as int) / (MICROS_PER_SECOND as int)
}

/// Computes [`distance`].  The product of two `u32` always fits in a `u64`.
pub fn travel(speed: u32, dt: u32) -> (d: u64)
    ensures
        d == distance(speed, dt),
        d <= 0x1_0000_0000_0000,
{
    assert(speed as int * dt as int <= 0xffff_ffff * 0xffff_ffff && speed as int * dt as int >= 0)
        by (nonlinear_arith);
    let product: u64 = speed as u64 * dt as u64;
    product / MICROS_PER_SECOND as u64
}

/// A size in whole screen units, rounded to the nearest, halves upward.
pub open spec fn rounded_units(size: u32) -> int {
    (size + SUBUNITS / 2) / (SUBUNITS as int)
}

/// Computes [`rounded_units`]: what a hit on a body of this size is worth.
pub fn points_for(size: u32) -> (points: u32)
    ensures
        points == rounded_units(size),
{
    let widened: u64 = size as u64 + (SUBUNITS / 2) as u64;
    (widened / SUBUNITS as u64) as u32
}

} // verus!
