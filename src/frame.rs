//! Vector algebra in fixed point, and the bat's coordinate frame.
use crate::fixed::{div_floor, floor_div, Vec3, COORD_LIMIT, ONE};
use vstd::prelude::*;

verus! {

/// Largest magnitude of a component of a frame axis: axes are near unit
/// length, which is `ONE`.
pub const AXIS_LIMIT: i64 = 8000;

pub open spec fn axis_ok(v: Vec3) -> bool {
    -AXIS_LIMIT <= v.x <= AXIS_LIMIT && -AXIS_LIMIT <= v.y <= AXIS_LIMIT && -AXIS_LIMIT <= v.z
        <= AXIS_LIMIT
}

/// The dot product, without rescaling.
pub open spec fn dot(a: Vec3, b: Vec3) -> int {
    a.x * b.x + a.y * b.y + a.z * b.z
}

/// The squared length, without rescaling.
pub open spec fn norm2(a: Vec3) -> int {
    dot(a, a)
}

/// The orientation and position of the bat's face at one swing phase.
#[derive(Clone, Copy, Debug, PartialEq, Eq, Structural)]
pub struct BatCoord {
    pub origin: Vec3,
    pub x_axis: Vec3,
    pub y_axis: Vec3,
    pub z_axis: Vec3,
}

impl BatCoord {
    pub open spec fn wf(self) -> bool {
        self.origin.in_range() && axis_ok(self.x_axis) && axis_ok(self.y_axis) && axis_ok(
            self.z_axis,
        )
    }
}

/// The bat's frame at contact, and where on the face the ball met it.
#[derive(Clone, Copy, Debug)]
pub struct HitInfo {
    pub x_axis: Vec3,
    pub y_axis: Vec3,
    pub z_axis: Vec3,
    pub origin: Vec3,
    pub meet_position: (i64, i64),
}

impl HitInfo {
    pub open spec fn wf(self) -> bool {
        self.origin.in_range() && axis_ok(self.x_axis) && axis_ok(self.y_axis) && axis_ok(
            self.z_axis,
        )
    }
}

/// `a * s / ONE`, rounded down, for an axis `a`.
pub open spec fn scale_axis(a: Vec3, s: int) -> Vec3 {
    Vec3 {
        x: floor_div(a.x * s, ONE as int) as i64,
        y: floor_div(a.y * s, ONE as int) as i64,
        z: floor_div(a.z * s, ONE as int) as i64,
    }
}

pub(crate) proof fn lemma_scaled_component(a: int, s: int, k: int)
    requires
        -AXIS_LIMIT <= a <= AXIS_LIMIT,
        -k <= s <= k,
        k >= 0,
    ensures
        -AXIS_LIMIT * k <= a * s <= AXIS_LIMIT * k,
        -8 * k <= floor_div(a * s, ONE as int) <= 8 * k,
{
    assert(-AXIS_LIMIT * k <= a * s <= AXIS_LIMIT * k) by (nonlinear_arith)
        requires
            -AXIS_LIMIT <= a <= AXIS_LIMIT,
            -k <= s <= k,
            k >= 0,
    ;
    vstd::arithmetic::div_mod::lemma_div_is_ordered(a * s, AXIS_LIMIT * k, ONE as int);
    vstd::arithmetic::div_mod::lemma_div_is_ordered(-AXIS_LIMIT * k, a * s, ONE as int);
    assert(AXIS_LIMIT * k == ONE * (8 * k));
    assert(-AXIS_LIMIT * k == ONE * (-8 * k)) by (nonlinear_arith);
    vstd::arithmetic::div_mod::lemma_div_multiples_vanish(8 * k, ONE as int);
    vstd::arithmetic::div_mod::lemma_div_multiples_vanish(-8 * k, ONE as int);
}

/// An axis scaled by `s / ONE`, for `|s| <= k`.
pub(crate) fn scale_axis_exec(a: &Vec3, s: i64, Ghost(k): Ghost<int>) -> (r: Vec3)
    requires
        axis_ok(*a),
        -k <= s <= k,
        k <= COORD_LIMIT / 8,
    ensures
        r == scale_axis(*a, s as int),
        bounded(r, 8 * k),
{
    proof {
        lemma_scaled_component(a.x as int, s as int, k);
        lemma_scaled_component(a.y as int, s as int, k);
        lemma_scaled_component(a.z as int, s as int, k);
    }
    Vec3 {
        x: div_floor(a.x as i128 * s as i128, 1000) as i64,
        y: div_floor(a.y as i128 * s as i128, 1000) as i64,
        z: div_floor(a.z as i128 * s as i128, 1000) as i64,
    }
}

/// Every component lies within `[-k, k]`.
pub open spec fn bounded(v: Vec3, k: int) -> bool {
    -k <= v.x <= k && -k <= v.y <= k && -k <= v.z <= k
}

pub open spec fn vsub(a: Vec3, b: Vec3) -> Vec3 {
    Vec3 { x: (a.x - b.x) as i64, y: (a.y - b.y) as i64, z: (a.z - b.z) as i64 }
}

pub open spec fn vadd(a: Vec3, b: Vec3) -> Vec3 {
    Vec3 { x: (a.x + b.x) as i64, y: (a.y + b.y) as i64, z: (a.z + b.z) as i64 }
}

/// `dot(a, b) / ONE`, rounded down: the component of `b` along a unit axis `a`.
pub open spec fn along(a: Vec3, b: Vec3) -> int {
    floor_div(dot(a, b), ONE as int)
}

/// The cross product, rescaled by `ONE`.
pub open spec fn cross(a: Vec3, b: Vec3) -> Vec3 {
    Vec3 {
        x: floor_div(a.y * b.z - a.z * b.y, ONE as int) as i64,
        y: floor_div(a.z * b.x - a.x * b.z, ONE as int) as i64,
        z: floor_div(a.x * b.y - a.y * b.x, ONE as int) as i64,
    }
}

/// The greatest integer whose square is at most `n`.
pub open spec fn is_isqrt(n: int, r: int) -> bool {
    0 <= r && r * r <= n < (r + 1) * (r + 1)
}

/// The direction of `v` at length `ONE` (rounded down), with `m` the integer
/// square root of its squared length; the zero vector stays zero.
pub open spec fn unit_with(v: Vec3, m: int) -> Vec3 {
    if m == 0 {
        Vec3 { x: 0, y: 0, z: 0 }
    } else {
        Vec3 {
            x: floor_div(v.x * ONE, m) as i64,
            y: floor_div(v.y * ONE, m) as i64,
            z: floor_div(v.z * ONE, m) as i64,
        }
    }
}

pub open spec fn normalize(v: Vec3) -> Vec3 {
    unit_with(v, choose|m: int| is_isqrt(norm2(v), m))
}

/// A rotation, as three rows with components scaled by `ONE`.
#[derive(Clone, Copy, Debug, PartialEq, Eq, Structural)]
pub struct Rotation {
    pub row_0: Vec3,
    pub row_1: Vec3,
    pub row_2: Vec3,
}

impl Rotation {
    /// Entries of a rotation matrix lie within `[-1, 1]`.
    pub open spec fn wf(self) -> bool {
        bounded(self.row_0, ONE as int) && bounded(self.row_1, ONE as int) && bounded(
            self.row_2,
            ONE as int,
        )
    }

    pub open spec fn apply(self, v: Vec3) -> Vec3 {
        Vec3 {
            x: along(self.row_0, v) as i64,
            y: along(self.row_1, v) as i64,
            z: along(self.row_2, v) as i64,
        }
    }
}

pub(crate) fn sub_exec(a: &Vec3, b: &Vec3, Ghost(k): Ghost<int>) -> (r: Vec3)
    requires
        bounded(*a, k),
        bounded(*b, k),
        k <= 1_000_000_000_000_000,
    ensures
        r == vsub(*a, *b),
        bounded(r, 2 * k),
{
    Vec3 { x: a.x - b.x, y: a.y - b.y, z: a.z - b.z }
}

pub(crate) fn add_exec(a: &Vec3, b: &Vec3, Ghost(k): Ghost<int>) -> (r: Vec3)
    requires
        bounded(*a, k),
        bounded(*b, k),
        k <= 1_000_000_000_000_000,
    ensures
        r == vadd(*a, *b),
        bounded(r, 2 * k),
{
    Vec3 { x: a.x + b.x, y: a.y + b.y, z: a.z + b.z }
}

proof fn lemma_product_bound(a: int, b: int, ka: int, kb: int)
    requires
        -ka <= a <= ka,
        -kb <= b <= kb,
    ensures
        -(ka * kb) <= a * b <= ka * kb,
{
    assert(-(ka * kb) <= a * b <= ka * kb) by (nonlinear_arith)
        requires
            -ka <= a <= ka,
            -kb <= b <= kb,
    ;
}

proof fn lemma_div_one_bound(x: int, k: int)
    requires
        -(k * ONE) <= x <= k * ONE,
    ensures
        -k <= floor_div(x, ONE as int) <= k,
{
    vstd::arithmetic::div_mod::lemma_div_is_ordered(x, k * ONE, ONE as int);
    vstd::arithmetic::div_mod::lemma_div_is_ordered(-(k * ONE), x, ONE as int);
    assert(k * ONE == ONE * k) by (nonlinear_arith);
    assert(-(k * ONE) == ONE * (-k)) by (nonlinear_arith);
    vstd::arithmetic::div_mod::lemma_div_multiples_vanish(k, ONE as int);
    vstd::arithmetic::div_mod::lemma_div_multiples_vanish(-k, ONE as int);
}

/// The component of `v` along `a`, where `a`'s components are at most `ka`.
pub(crate) fn along_exec(a: &Vec3, v: &Vec3, Ghost(ka): Ghost<int>, Ghost(k): Ghost<int>) -> (r: i64)
    requires
        bounded(*a, ka),
        bounded(*v, k),
        0 <= ka <= AXIS_LIMIT,
        0 <= k <= 1_000_000_000_000,
    ensures
        r == along(*a, *v),
        -((3 * ka * k) / 1000 + 1) <= r <= (3 * ka * k) / 1000 + 1,
{
    proof {
        lemma_product_bound(a.x as int, v.x as int, ka, k);
        lemma_product_bound(a.y as int, v.y as int, ka, k);
        lemma_product_bound(a.z as int, v.z as int, ka, k);
        assert(ka * k <= 8_000_000_000_000_000) by (nonlinear_arith)
            requires
                0 <= ka <= 8000,
                0 <= k <= 1_000_000_000_000,
        ;
    }
    let d: i128 = a.x as i128 * v.x as i128 + a.y as i128 * v.y as i128 + a.z as i128 * v.z as i128;
    let r = div_floor(d, 1000);
    proof {
        let m = 3 * ka * k;
        assert(m == 3 * (ka * k)) by (nonlinear_arith)
            requires
                m == 3 * ka * k,
        ;
        vstd::arithmetic::div_mod::lemma_div_is_ordered(d as int, m, 1000);
        vstd::arithmetic::div_mod::lemma_div_is_ordered(-m, d as int, 1000);
        vstd::arithmetic::div_mod::lemma_fundamental_div_mod(m, 1000);
        vstd::arithmetic::div_mod::lemma_mod_bound(m, 1000);
        vstd::arithmetic::div_mod::lemma_fundamental_div_mod(-m, 1000);
        vstd::arithmetic::div_mod::lemma_mod_bound(-m, 1000);
        assert(m / 1000 <= 24_000_000_000_000);
    }
    r as i64
}

pub(crate) fn apply_exec(rot: &Rotation, v: &Vec3, Ghost(k): Ghost<int>) -> (r: Vec3)
    requires
        rot.wf(),
        bounded(*v, k),
        0 <= k <= 1_000_000_000_000,
    ensures
        r == rot.apply(*v),
        bounded(r, 3 * k + 1),
{
    let x = along_exec(&rot.row_0, v, Ghost(ONE as int), Ghost(k));
    let y = along_exec(&rot.row_1, v, Ghost(ONE as int), Ghost(k));
    let z = along_exec(&rot.row_2, v, Ghost(ONE as int), Ghost(k));
    proof {
        assert(3 * 1000 * k / 1000 == 3 * k) by {
            vstd::arithmetic::div_mod::lemma_div_multiples_vanish(3 * k, 1000);
        }
    }
    Vec3 { x, y, z }
}

/// The cross product of an axis with components at most `4 * ONE` and one with
/// components at most `ONE`.
pub(crate) fn cross_exec(a: &Vec3, b: &Vec3) -> (r: Vec3)
    requires
        bounded(*a, 4 * ONE),
        bounded(*b, ONE as int),
    ensures
        r == cross(*a, *b),
        bounded(r, AXIS_LIMIT as int),
{
    proof {
        lemma_product_bound(a.y as int, b.z as int, 4000, 1000);
        lemma_product_bound(a.z as int, b.y as int, 4000, 1000);
        lemma_product_bound(a.z as int, b.x as int, 4000, 1000);
        lemma_product_bound(a.x as int, b.z as int, 4000, 1000);
        lemma_product_bound(a.x as int, b.y as int, 4000, 1000);
        lemma_product_bound(a.y as int, b.x as int, 4000, 1000);
    }
    let cx = a.y as i128 * b.z as i128 - a.z as i128 * b.y as i128;
    let cy = a.z as i128 * b.x as i128 - a.x as i128 * b.z as i128;
    let cz = a.x as i128 * b.y as i128 - a.y as i128 * b.x as i128;
    proof {
        lemma_div_one_bound(cx as int, 8000);
        lemma_div_one_bound(cy as int, 8000);
        lemma_div_one_bound(cz as int, 8000);
    }
    Vec3 { x: div_floor(cx, 1000) as i64, y: div_floor(cy, 1000) as i64, z: div_floor(cz, 1000) as i64 }
}

/// The integer square root, by bisection.
pub fn isqrt(n: u128) -> (r: u128)
    requires
        n <= 1_000_000_000_000_000_000_000_000_000_000,
    ensures
        is_isqrt(n as int, r as int),
        r <= 1_000_000_000_000_000,
{
    let mut lo: u128 = 0;
    let mut hi: u128 = 1_000_000_000_000_001;
    assert(n < hi * hi) by (nonlinear_arith)
        requires
            n <= 1_000_000_000_000_000_000_000_000_000_000,
            hi == 1_000_000_000_000_001,
    ;
    while lo + 1 < hi
        invariant
            lo < hi <= 1_000_000_000_000_001,
            lo * lo <= n < hi * hi,
        decreases hi - lo,
    {
        let mid: u128 = lo + (hi - lo) / 2;
        assert(mid * mid <= 1_000_000_000_000_002_000_000_000_000_001) by (nonlinear_arith)
            requires
                mid <= 1_000_000_000_000_001,
        ;
        if mid * mid <= n {
            lo = mid;
        } else {
            hi = mid;
        }
    }
    assert(hi == lo + 1);
    lo
}

proof fn lemma_component_within_root(c: int, s: int, m: int)
    requires
        c * c <= s,
        is_isqrt(s, m),
    ensures
        -m <= c <= m,
{
    if c > m {
        assert(c * c >= (m + 1) * (m + 1)) by (nonlinear_arith)
            requires
                c >= m + 1,
                m >= 0,
        ;
    }
    if c < -m {
        assert(c * c >= (m + 1) * (m + 1)) by (nonlinear_arith)
            requires
                -c >= m + 1,
                m >= 0,
        ;
    }
}

proof fn lemma_isqrt_unique(n: int, a: int, b: int)
    requires
        is_isqrt(n, a),
        is_isqrt(n, b),
    ensures
        a == b,
{
    if a < b {
        assert((a + 1) * (a + 1) <= b * b) by (nonlinear_arith)
            requires
                0 <= a + 1 <= b,
        ;
    }
    if b < a {
        assert((b + 1) * (b + 1) <= a * a) by (nonlinear_arith)
            requires
                0 <= b + 1 <= a,
        ;
    }
}

/// `v` at length `ONE`.
pub(crate) fn normalize_exec(v: &Vec3, Ghost(k): Ghost<int>) -> (r: Vec3)
    requires
        bounded(*v, k),
        0 <= k <= 500_000_000_000_000,
    ensures
        r == normalize(*v),
        bounded(r, ONE as int),
{
    proof {
        lemma_product_bound(v.x as int, v.x as int, k, k);
        lemma_product_bound(v.y as int, v.y as int, k, k);
        lemma_product_bound(v.z as int, v.z as int, k, k);
        assert(k * k <= 250_000_000_000_000_000_000_000_000_000) by (nonlinear_arith)
            requires
                0 <= k <= 500_000_000_000_000,
        ;
        assert(0 <= v.x * v.x && 0 <= v.y * v.y && 0 <= v.z * v.z) by (nonlinear_arith);
    }
    let s: i128 = v.x as i128 * v.x as i128 + v.y as i128 * v.y as i128 + v.z as i128 * v.z as i128;
    assert(s <= 1_000_000_000_000_000_000_000_000_000_000);
    let m = isqrt(s as u128);
    proof {
        let mi = m as int;
        assert(is_isqrt(norm2(*v), mi));
        let c = choose|x: int| is_isqrt(norm2(*v), x);
        lemma_isqrt_unique(norm2(*v), c, mi);
        assert(0 <= v.y * v.y && 0 <= v.z * v.z && 0 <= v.x * v.x) by (nonlinear_arith);
        lemma_component_within_root(v.x as int, s as int, mi);
        lemma_component_within_root(v.y as int, s as int, mi);
        lemma_component_within_root(v.z as int, s as int, mi);
    }
    if m == 0 {
        return Vec3 { x: 0, y: 0, z: 0 };
    }
    let m = m as i128;
    proof {
        lemma_unit_component(v.x as int, m as int);
        lemma_unit_component(v.y as int, m as int);
        lemma_unit_component(v.z as int, m as int);
    }
    Vec3 {
        x: div_floor(v.x as i128 * 1000, m) as i64,
        y: div_floor(v.y as i128 * 1000, m) as i64,
        z: div_floor(v.z as i128 * 1000, m) as i64,
    }
}

proof fn lemma_unit_component(c: int, m: int)
    requires
        -m <= c <= m,
        m > 0,
    ensures
        -ONE <= floor_div(c * ONE, m) <= ONE,
{
    assert(-(m * 1000) <= c * 1000 <= m * 1000) by (nonlinear_arith)
        requires
            -m <= c <= m,
    ;
    vstd::arithmetic::div_mod::lemma_div_is_ordered(c * 1000, m * 1000, m);
    vstd::arithmetic::div_mod::lemma_div_is_ordered(-(m * 1000), c * 1000, m);
    assert(m * 1000 == 1000 * m && -(m * 1000) == (-1000) * m) by (nonlinear_arith);
    vstd::arithmetic::div_mod::lemma_div_multiples_vanish(1000, m);
    vstd::arithmetic::div_mod::lemma_div_multiples_vanish(-1000, m);
}

} // verus!
