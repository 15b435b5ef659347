//! Fixed-point arithmetic shared by the simulation.
//!
//! Phases, easing values, cosines and unit-vector components are integers
//! scaled by [`ONE`]. Times are integer milliseconds; lengths are integer
//! length units.
use vstd::prelude::*;

verus! {

/// The fixed-point value that stands for `1.0`.
pub const ONE: i64 = 1000;

/// Largest magnitude accepted for a coordinate or a length.
pub const COORD_LIMIT: i64 = 1_000_000_000;

/// Largest magnitude accepted for a timestamp or a duration, in milliseconds.
pub const TIME_LIMIT: i64 = 1_000_000_000_000_000;

/// A point or a direction in three dimensions.
#[derive(Clone, Copy, Debug, PartialEq, Eq, Structural)]
pub struct Vec3 {
    pub x: i64,
    pub y: i64,
    pub z: i64,
}

impl Vec3 {
    pub open spec fn in_range(self) -> bool {
        -COORD_LIMIT <= self.x <= COORD_LIMIT && -COORD_LIMIT <= self.y <= COORD_LIMIT
            && -COORD_LIMIT <= self.z <= COORD_LIMIT
    }

    /// Within twice the coordinate limit: a sum of two points in range.
    pub open spec fn in_range_wide(self) -> bool {
        -2 * COORD_LIMIT <= self.x <= 2 * COORD_LIMIT && -2 * COORD_LIMIT <= self.y <= 2
            * COORD_LIMIT && -2 * COORD_LIMIT <= self.z <= 2 * COORD_LIMIT
    }

    pub fn is_in_range(&self) -> (r: bool)
        ensures
            r == self.in_range(),
    {
        -COORD_LIMIT <= self.x && self.x <= COORD_LIMIT && -COORD_LIMIT <= self.y && self.y
            <= COORD_LIMIT && -COORD_LIMIT <= self.z && self.z <= COORD_LIMIT
    }

    pub fn new(x: i64, y: i64, z: i64) -> (r: Vec3)
        ensures
            r == (Vec3 { x, y, z }),
    {
        Vec3 { x, y, z }
    }
}

/// Floor of `a / d` for a positive divisor.
pub open spec fn floor_div(a: int, d: int) -> int {
    a / d
}

/// Floor division of 128-bit integers by a positive divisor.
pub fn div_floor(a: i128, d: i128) -> (r: i128)
    requires
        d > 0,
    ensures
        r == floor_div(a as int, d as int),
{
    if a >= 0 {
        a / d
    } else {
        let n: i128 = -(a + 1);
        let q: i128 = n / d;
        proof {
            let ai = a as int;
            let di = d as int;
            let qi = q as int;
            let ri = n as int - qi * di;
            vstd::arithmetic::div_mod::lemma_fundamental_div_mod(n as int, di);
            vstd::arithmetic::div_mod::lemma_mod_pos_bound(n as int, di);
            assert(qi == (n as int) / di);
            assert(qi * di == di * qi) by (nonlinear_arith);
            assert(0 <= ri < di);
            assert(ai == (-qi - 1) * di + (di - 1 - ri)) by (nonlinear_arith)
                requires
                    n as int == -(ai + 1),
                    ri == n as int - qi * di,
            ;
            vstd::arithmetic::div_mod::lemma_fundamental_div_mod_converse(
                ai,
                di,
                -qi - 1,
                di - 1 - ri,
            );
        }
        -q - 1
    }
}

/// Euclidean remainder of 128-bit integers by a positive divisor.
pub fn mod_floor(a: i128, d: i128) -> (r: i128)
    requires
        d > 0,
        -1_000_000_000_000_000_000 <= a <= 1_000_000_000_000_000_000,
        d <= 1_000_000_000_000_000_000,
    ensures
        r == (a as int) % (d as int),
        0 <= r < d,
{
    let q = div_floor(a, d);
    proof {
        vstd::arithmetic::div_mod::lemma_fundamental_div_mod(a as int, d as int);
        vstd::arithmetic::div_mod::lemma_mod_bound(a as int, d as int);
        assert(q * d == d * q) by (nonlinear_arith);
    }
    a - q * d
}

/// Division by a positive divisor moves a value towards zero.
pub proof fn lemma_div_within(x: int, d: int)
    requires
        d >= 1,
    ensures
        x >= 0 ==> 0 <= floor_div(x, d) <= x,
        x <= 0 ==> x <= floor_div(x, d) <= 0,
{
    let q = x / d;
    let r = x % d;
    vstd::arithmetic::div_mod::lemma_fundamental_div_mod(x, d);
    vstd::arithmetic::div_mod::lemma_mod_bound(x, d);
    if x >= 0 {
        assert(0 <= q <= x) by (nonlinear_arith)
            requires
                x == d * q + r,
                0 <= r < d,
                d >= 1,
                x >= 0,
        ;
    } else {
        assert(x <= q <= 0) by (nonlinear_arith)
            requires
                x == d * q + r,
                0 <= r < d,
                d >= 1,
                x <= 0,
        ;
    }
}

/// The value in `[lo, hi]` nearest to `x`.
pub open spec fn clamp_spec(x: int, lo: int, hi: int) -> int {
    if x < lo {
        lo
    } else if x > hi {
        hi
    } else {
        x
    }
}

} // verus!
