//! Fixed-point world scalars and the 2-d vector used throughout the crate.

use vstd::prelude::*;

verus! {

/// One world unit expressed in fixed-point sub-units (2^16).
pub const FP_ONE: i64 = 65536;

/// Largest accepted grid cell edge length (fixed-point), 2^30.
pub const GRID_MAX: i64 = 0x40000000;

/// Largest accepted magnitude for a world position component (fixed-point), 2^44.
pub const POS_LIMIT: i64 = 0x100000000000;

/// Largest accepted magnitude for a ray direction component (fixed-point), 2^40.
pub const DIR_LIMIT: i64 = 0x10000000000;

/// Largest magnitude the camera direction scale is clamped to (fixed-point), 2^38.
pub const CAM_LEN_MAX: i64 = 0x4000000000;

/// Fixed-point component of a unit vector along a 45-degree diagonal,
/// the nearest integer to `FP_ONE / sqrt(2)`.
pub const DIAG_ONE: i64 = 46341;

/// The angle pi in fixed-point radians, rounded down; a field of view at or
/// above this value cannot be projected onto a camera plane.
pub const FP_PI: i64 = 205887;

/// Absolute value over mathematical integers.
pub open spec fn abs_i(a: int) -> int {
    if a < 0 {
        -a
    } else {
        a
    }
}

/// Clamp `v` into `[lo, hi]`.
pub open spec fn clamp_i(v: int, lo: int, hi: int) -> int {
    if v < lo {
        lo
    } else if v > hi {
        hi
    } else {
        v
    }
}

/// Saturate a non-negative integer to the `i64` range.
pub open spec fn sat_i64(v: int) -> int {
    if v > i64::MAX {
        i64::MAX as int
    } else {
        v
    }
}

/// A 2-d world-space vector; both components are fixed-point scalars.
#[derive(Clone, Copy, Debug, PartialEq, Eq, Structural)]
pub struct Vec2 {
    pub x: i64,
    pub y: i64,
}

impl Vec2 {
    pub fn new(x: i64, y: i64) -> (r: Vec2)
        ensures
            r == (Vec2 { x, y }),
    {
        Vec2 { x, y }
    }

    pub fn zero() -> (r: Vec2)
        ensures
            r == (Vec2 { x: 0i64, y: 0i64 }),
    {
        Vec2 { x: 0, y: 0 }
    }
}

} // verus!
