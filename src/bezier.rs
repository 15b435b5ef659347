//! Cubic Bézier evaluation and piecewise curve sequences.
//!
//! A curve parameter `t` is a fixed-point value in `[0, ONE]`.
use crate::fixed::{div_floor, floor_div, Vec3, COORD_LIMIT, ONE, TIME_LIMIT};
use vstd::prelude::*;

verus! {

/// `ONE` cubed: the sum of the four Bernstein weights.
pub open spec fn one_cubed() -> int {
    ONE as int * ONE as int * ONE as int
}

/// Bernstein weights `(1-t)^3, 3t(1-t)^2, 3t^2(1-t), t^3`, scaled by `ONE^3`.
pub open spec fn weights(t: int) -> (int, int, int, int) {
    let u = ONE as int - t;
    (u * u * u, 3 * t * u * u, 3 * t * t * u, t * t * t)
}

/// The weighted sum of four control values, scaled by `ONE^3`.
pub open spec fn bernstein_sum(t: int, p0: int, p1: int, p2: int, p3: int) -> int {
    let w = weights(t);
    w.0 * p0 + w.1 * p1 + w.2 * p2 + w.3 * p3
}

/// The cubic Bézier value at `t`, rounded down to an integer.
pub open spec fn bezier_value(t: int, p0: int, p1: int, p2: int, p3: int) -> int {
    floor_div(bernstein_sum(t, p0, p1, p2, p3), one_cubed())
}

pub open spec fn coord_ok(p: int) -> bool {
    -COORD_LIMIT <= p <= COORD_LIMIT
}

proof fn lemma_weights(t: int)
    requires
        0 <= t <= ONE,
    ensures
        weights(t).0 >= 0,
        weights(t).1 >= 0,
        weights(t).2 >= 0,
        weights(t).3 >= 0,
        weights(t).0 + weights(t).1 + weights(t).2 + weights(t).3 == one_cubed(),
{
    let u = ONE as int - t;
    assert(u * u * u >= 0 && 3 * t * u * u >= 0 && 3 * t * t * u >= 0 && t * t * t >= 0)
        by (nonlinear_arith)
        requires
            0 <= t,
            0 <= u,
    ;
    assert(u * u * u + 3 * t * u * u + 3 * t * t * u + t * t * t == (t + u) * (t + u) * (t + u))
        by (nonlinear_arith);
}

/// A Bézier value lies between the least and the greatest control value.
proof fn lemma_bezier_between(t: int, p0: int, p1: int, p2: int, p3: int, lo: int, hi: int)
    requires
        0 <= t <= ONE,
        lo <= p0 <= hi,
        lo <= p1 <= hi,
        lo <= p2 <= hi,
        lo <= p3 <= hi,
    ensures
        lo * one_cubed() <= bernstein_sum(t, p0, p1, p2, p3) <= hi * one_cubed(),
        lo <= bezier_value(t, p0, p1, p2, p3) <= hi,
{
    lemma_weights(t);
    let w = weights(t);
    assert(lo * w.0 <= w.0 * p0 <= hi * w.0) by (nonlinear_arith)
        requires
            w.0 >= 0,
            lo <= p0 <= hi,
    ;
    assert(lo * w.1 <= w.1 * p1 <= hi * w.1) by (nonlinear_arith)
        requires
            w.1 >= 0,
            lo <= p1 <= hi,
    ;
    assert(lo * w.2 <= w.2 * p2 <= hi * w.2) by (nonlinear_arith)
        requires
            w.2 >= 0,
            lo <= p2 <= hi,
    ;
    assert(lo * w.3 <= w.3 * p3 <= hi * w.3) by (nonlinear_arith)
        requires
            w.3 >= 0,
            lo <= p3 <= hi,
    ;
    assert(hi * w.0 + hi * w.1 + hi * w.2 + hi * w.3 == hi * (w.0 + w.1 + w.2 + w.3))
        by (nonlinear_arith);
    assert(lo * w.0 + lo * w.1 + lo * w.2 + lo * w.3 == lo * (w.0 + w.1 + w.2 + w.3))
        by (nonlinear_arith);
    let s = bernstein_sum(t, p0, p1, p2, p3);
    let c = one_cubed();
    vstd::arithmetic::div_mod::lemma_div_is_ordered(s, hi * c, c);
    vstd::arithmetic::div_mod::lemma_div_is_ordered(lo * c, s, c);
    assert(hi * c == c * hi && lo * c == c * lo) by (nonlinear_arith);
    vstd::arithmetic::div_mod::lemma_div_multiples_vanish(hi, c);
    vstd::arithmetic::div_mod::lemma_div_multiples_vanish(lo, c);
}

/// The four Bernstein weights at `t`.
fn prepare_t(t: i64) -> (r: (i128, i128, i128, i128))
    requires
        0 <= t <= ONE,
    ensures
        r.0 == weights(t as int).0,
        r.1 == weights(t as int).1,
        r.2 == weights(t as int).2,
        r.3 == weights(t as int).3,
{
    proof {
        lemma_weights(t as int);
    }
    let t: i128 = t as i128;
    let u: i128 = ONE as i128 - t;
    assert(0 <= t * t <= 1_000_000 && 0 <= u * u <= 1_000_000) by (nonlinear_arith)
        requires
            0 <= t <= 1000,
            0 <= u <= 1000,
    ;
    let t2: i128 = t * t;
    let u2: i128 = u * u;
    assert(0 <= u * u2 <= 1_000_000_000 && 0 <= t * u2 <= 1_000_000_000 && 0 <= u * t2
        <= 1_000_000_000 && 0 <= t * t2 <= 1_000_000_000) by (nonlinear_arith)
        requires
            0 <= t <= 1000,
            0 <= u <= 1000,
            0 <= t2 <= 1_000_000,
            0 <= u2 <= 1_000_000,
    ;
    assert(u * u2 == u * u * u && 3 * (t * u2) == 3 * t * u * u && 3 * (u * t2) == 3 * t * t * u
        && t * t2 == t * t * t) by (nonlinear_arith)
        requires
            t2 == t * t,
            u2 == u * u,
    ;
    (u * u2, 3 * (t * u2), 3 * (u * t2), t * t2)
}

/// Cubic Bézier of four scalar control values at `t`.
pub fn bezier_scalar(t: i64, p: (i64, i64, i64, i64)) -> (r: i64)
    requires
        0 <= t <= ONE,
        coord_ok(p.0 as int),
        coord_ok(p.1 as int),
        coord_ok(p.2 as int),
        coord_ok(p.3 as int),
    ensures
        r == bezier_value(t as int, p.0 as int, p.1 as int, p.2 as int, p.3 as int),
        coord_ok(r as int),
{
    let w = prepare_t(t);
    proof {
        lemma_weights(t as int);
        lemma_bezier_between(
            t as int,
            p.0 as int,
            p.1 as int,
            p.2 as int,
            p.3 as int,
            -COORD_LIMIT as int,
            COORD_LIMIT as int,
        );
        let l = COORD_LIMIT as int;
        assert(-l * w.0 <= w.0 * p.0 <= l * w.0) by (nonlinear_arith)
            requires
                w.0 >= 0,
                -l <= p.0 <= l,
        ;
        assert(-l * w.1 <= w.1 * p.1 <= l * w.1) by (nonlinear_arith)
            requires
                w.1 >= 0,
                -l <= p.1 <= l,
        ;
        assert(-l * w.2 <= w.2 * p.2 <= l * w.2) by (nonlinear_arith)
            requires
                w.2 >= 0,
                -l <= p.2 <= l,
        ;
        assert(-l * w.3 <= w.3 * p.3 <= l * w.3) by (nonlinear_arith)
            requires
                w.3 >= 0,
                -l <= p.3 <= l,
        ;
    }
    let s: i128 = w.0 * p.0 as i128 + w.1 * p.1 as i128 + w.2 * p.2 as i128 + w.3 * p.3 as i128;
    let q = div_floor(s, 1_000_000_000);
    q as i64
}

/// A Bézier curve starts at its first control value and ends at its last.
pub proof fn lemma_bezier_endpoints(p0: int, p1: int, p2: int, p3: int)
    ensures
        bezier_value(0, p0, p1, p2, p3) == p0,
        bezier_value(ONE as int, p0, p1, p2, p3) == p3,
{
    assert(weights(0) == (1_000_000_000int, 0int, 0int, 0int));
    assert(weights(ONE as int) == (0int, 0int, 0int, 1_000_000_000int));
    assert(bernstein_sum(0, p0, p1, p2, p3) == one_cubed() * p0);
    assert(bernstein_sum(ONE as int, p0, p1, p2, p3) == one_cubed() * p3);
    vstd::arithmetic::div_mod::lemma_div_multiples_vanish(p0, one_cubed());
    vstd::arithmetic::div_mod::lemma_div_multiples_vanish(p3, one_cubed());
}

proof fn lemma_easing_power_form(t: int, t_p1: int, t_p2: int)
    ensures
        bernstein_sum(t, 0, t_p1, t_p2, ONE as int) == (3 * ONE * ONE * t - 6 * ONE * (t * t) + 3 * (t
            * t * t)) * t_p1 + (3 * ONE * (t * t) - 3 * (t * t * t)) * t_p2 + ONE * (t * t * t),
{
    let n = ONE as int;
    let w = weights(t);
    assert(w.1 == 3 * n * n * t - 6 * n * (t * t) + 3 * (t * t * t)) by (nonlinear_arith)
        requires
            w.1 == 3 * t * (n - t) * (n - t),
    ;
    assert(w.2 == 3 * n * (t * t) - 3 * (t * t * t)) by (nonlinear_arith)
        requires
            w.2 == 3 * t * t * (n - t),
    ;
    assert(w.3 * n == n * (t * t * t)) by (nonlinear_arith)
        requires
            w.3 == t * t * t,
    ;
}

/// An easing curve with control values `0 <= t_p1 <= t_p2 <= ONE` never
/// decreases on `[0, ONE]`.
pub proof fn lemma_easing_monotone(a: int, b: int, t_p1: int, t_p2: int)
    requires
        0 <= a <= b <= ONE,
        0 <= t_p1 <= t_p2 <= ONE,
    ensures
        bezier_value(a, 0, t_p1, t_p2, ONE as int) <= bezier_value(b, 0, t_p1, t_p2, ONE as int),
{
    let n = ONE as int;
    lemma_easing_power_form(a, t_p1, t_p2);
    lemma_easing_power_form(b, t_p1, t_p2);
    let aa = a * a;
    let aaa = a * a * a;
    let bb = b * b;
    let bbb = b * b * b;
    let t1 = b - a;
    let t2 = bb - aa;
    let t3 = bbb - aaa;
    let diff = bernstein_sum(b, 0, t_p1, t_p2, n) - bernstein_sum(a, 0, t_p1, t_p2, n);
    assert(diff == (3 * n * n * t1 - 6 * n * t2 + 3 * t3) * t_p1 + (3 * n * t2 - 3 * t3) * t_p2 + n
        * t3) by (nonlinear_arith)
        requires
            n == 1000,
            diff == ((3 * n * n * b - 6 * n * bb + 3 * bbb) * t_p1 + (3 * n * bb - 3 * bbb) * t_p2 + n
                * bbb) - ((3 * n * n * a - 6 * n * aa + 3 * aaa) * t_p1 + (3 * n * aa - 3 * aaa)
                * t_p2 + n * aaa),
            t1 == b - a,
            t2 == bb - aa,
            t3 == bbb - aaa,
    ;
    let s2 = a + b;
    let s3 = aa + a * b + bb;
    assert(t2 == t1 * s2) by (nonlinear_arith)
        requires
            t1 == b - a,
            t2 == bb - aa,
            s2 == a + b,
            aa == a * a,
            bb == b * b,
    ;
    assert(t3 == t1 * s3) by (nonlinear_arith)
        requires
            t1 == b - a,
            t3 == bbb - aaa,
            s3 == aa + a * b + bb,
            aa == a * a,
            bb == b * b,
            aaa == a * a * a,
            bbb == b * b * b,
    ;
    let k1 = 3 * n * n - 6 * n * s2 + 3 * s3;
    let k2 = 3 * n * s2 - 3 * s3;
    let bracket = k1 * t_p1 + k2 * t_p2 + n * s3;
    let x1 = 3 * n * n * t1 - 6 * n * t2 + 3 * t3;
    let x2 = 3 * n * t2 - 3 * t3;
    assert(x1 == t1 * k1) by (nonlinear_arith)
        requires
            x1 == 3 * n * n * t1 - 6 * n * t2 + 3 * t3,
            t2 == t1 * s2,
            t3 == t1 * s3,
            k1 == 3 * n * n - 6 * n * s2 + 3 * s3,
    ;
    assert(x2 == t1 * k2) by (nonlinear_arith)
        requires
            x2 == 3 * n * t2 - 3 * t3,
            t2 == t1 * s2,
            t3 == t1 * s3,
            k2 == 3 * n * s2 - 3 * s3,
    ;
    assert(n * t3 == t1 * (n * s3)) by (nonlinear_arith)
        requires
            t3 == t1 * s3,
    ;
    assert((t1 * k1) * t_p1 + (t1 * k2) * t_p2 + t1 * (n * s3) == t1 * bracket) by (nonlinear_arith)
        requires
            bracket == k1 * t_p1 + k2 * t_p2 + n * s3,
    ;
    assert(diff == t1 * bracket);
    let c0 = t_p1;
    let c1 = t_p2 - t_p1;
    let c2 = n - t_p2;
    let a0 = (n - a) * (n - a) + (n - b) * (n - b) + (n - a) * (n - b);
    let a1 = 2 * a * (n - a) + 2 * b * (n - b) + (a * (n - b) + b * (n - a));
    assert(a0 == 3 * n * n - 3 * n * s2 + s3) by (nonlinear_arith)
        requires
            s2 == a + b,
            s3 == aa + a * b + bb,
            aa == a * a,
            bb == b * b,
            a0 == (n - a) * (n - a) + (n - b) * (n - b) + (n - a) * (n - b),
    ;
    assert(a1 == 3 * n * s2 - 2 * s3) by (nonlinear_arith)
        requires
            s2 == a + b,
            s3 == aa + a * b + bb,
            aa == a * a,
            bb == b * b,
            a1 == 2 * a * (n - a) + 2 * b * (n - b) + (a * (n - b) + b * (n - a)),
    ;
    assert(bracket == c0 * a0 + c1 * a1 + c2 * s3) by (nonlinear_arith)
        requires
            n == 1000,
            a0 == 3 * n * n - 3 * n * s2 + s3,
            a1 == 3 * n * s2 - 2 * s3,
            k1 == 3 * n * n - 6 * n * s2 + 3 * s3,
            k2 == 3 * n * s2 - 3 * s3,
            bracket == k1 * t_p1 + k2 * t_p2 + n * s3,
            c0 == t_p1,
            c1 == t_p2 - t_p1,
            c2 == n - t_p2,
    ;
    assert(a0 >= 0 && a1 >= 0 && s3 >= 0) by (nonlinear_arith)
        requires
            0 <= a <= n,
            0 <= b <= n,
            s3 == aa + a * b + bb,
            aa == a * a,
            bb == b * b,
            a0 == (n - a) * (n - a) + (n - b) * (n - b) + (n - a) * (n - b),
            a1 == 2 * a * (n - a) + 2 * b * (n - b) + (a * (n - b) + b * (n - a)),
    ;
    assert(t1 * bracket >= 0) by (nonlinear_arith)
        requires
            t1 >= 0,
            c0 >= 0,
            c1 >= 0,
            c2 >= 0,
            a0 >= 0,
            a1 >= 0,
            s3 >= 0,
            bracket == c0 * a0 + c1 * a1 + c2 * s3,
    ;
    vstd::arithmetic::div_mod::lemma_div_is_ordered(
        bernstein_sum(a, 0, t_p1, t_p2, n),
        bernstein_sum(b, 0, t_p1, t_p2, n),
        one_cubed(),
    );
}

/// Cubic Bézier applied component-wise: entry `i` of `out` becomes the Bézier
/// value of entry `i` of the four control slices, for every `i` that all five
/// sequences share; later entries of `out` are kept.
pub fn bezier_slice(t: i64, out: &mut Vec<i64>, p_0: &[i64], p_1: &[i64], p_2: &[i64], p_3: &[i64])
    requires
        0 <= t <= ONE,
        forall|i: int| 0 <= i < p_0@.len() ==> coord_ok(#[trigger] p_0@[i] as int),
        forall|i: int| 0 <= i < p_1@.len() ==> coord_ok(#[trigger] p_1@[i] as int),
        forall|i: int| 0 <= i < p_2@.len() ==> coord_ok(#[trigger] p_2@[i] as int),
        forall|i: int| 0 <= i < p_3@.len() ==> coord_ok(#[trigger] p_3@[i] as int),
    ensures
        final(out)@.len() == old(out)@.len(),
        forall|i: int|
            0 <= i < final(out)@.len() ==> #[trigger] final(out)@[i] == if i < p_0@.len() && i
                < p_1@.len() && i < p_2@.len() && i < p_3@.len() {
                bezier_value(
                    t as int,
                    p_0@[i] as int,
                    p_1@[i] as int,
                    p_2@[i] as int,
                    p_3@[i] as int,
                ) as i64
            } else {
                old(out)@[i]
            },
{
    let mut n: usize = out.len();
    if p_0.len() < n {
        n = p_0.len();
    }
    if p_1.len() < n {
        n = p_1.len();
    }
    if p_2.len() < n {
        n = p_2.len();
    }
    if p_3.len() < n {
        n = p_3.len();
    }
    let ghost start = out@;
    let mut i: usize = 0;
    while i < n
        invariant
            0 <= t <= ONE,
            n <= start.len(),
            n <= p_0@.len(),
            n <= p_1@.len(),
            n <= p_2@.len(),
            n <= p_3@.len(),
            n == start.len() || n == p_0@.len() || n == p_1@.len() || n == p_2@.len() || n
                == p_3@.len(),
            i <= n,
            out@.len() == start.len(),
            forall|k: int| 0 <= k < p_0@.len() ==> coord_ok(#[trigger] p_0@[k] as int),
            forall|k: int| 0 <= k < p_1@.len() ==> coord_ok(#[trigger] p_1@[k] as int),
            forall|k: int| 0 <= k < p_2@.len() ==> coord_ok(#[trigger] p_2@[k] as int),
            forall|k: int| 0 <= k < p_3@.len() ==> coord_ok(#[trigger] p_3@[k] as int),
            forall|k: int|
                0 <= k < i ==> #[trigger] out@[k] == bezier_value(
                    t as int,
                    p_0@[k] as int,
                    p_1@[k] as int,
                    p_2@[k] as int,
                    p_3@[k] as int,
                ) as i64,
            forall|k: int| i <= k < start.len() ==> #[trigger] out@[k] == start[k],
        decreases n - i,
    {
        let v = bezier_scalar(t, (p_0[i], p_1[i], p_2[i], p_3[i]));
        out.set(i, v);
        i = i + 1;
    }
}

/// One cubic segment of a path: its duration, an optional easing pair and
/// four control points.
#[derive(Clone, Copy, Debug)]
pub struct Curve {
    pub t_duration: i64,
    pub t_p: Option<(i64, i64)>,
    pub p_0: Vec3,
    pub p_1: Vec3,
    pub p_2: Vec3,
    pub p_3: Vec3,
}

impl Curve {
    /// Positive duration, easing values within `[0, ONE]`, control points in range.
    pub open spec fn wf(self) -> bool {
        0 < self.t_duration <= TIME_LIMIT && match self.t_p {
            Some(e) => 0 <= e.0 <= ONE && 0 <= e.1 <= ONE,
            None => true,
        } && self.p_0.in_range() && self.p_1.in_range() && self.p_2.in_range()
            && self.p_3.in_range()
    }
}

/// Progress through a segment after `local` milliseconds of it, in `[0, ONE]`.
pub open spec fn local_progress(c: Curve, local: int) -> int {
    floor_div(local * ONE, c.t_duration as int)
}

/// Progress after the segment's easing curve `(0, t_p1, t_p2, ONE)`, if any.
pub open spec fn eased(c: Curve, s: int) -> int {
    match c.t_p {
        Some(e) => bezier_value(s, 0, e.0 as int, e.1 as int, ONE as int),
        None => s,
    }
}

/// The point of a segment after `local` milliseconds of it.
pub open spec fn curve_point(c: Curve, local: int) -> Vec3 {
    let e = eased(c, local_progress(c, local));
    Vec3 {
        x: bezier_value(e, c.p_0.x as int, c.p_1.x as int, c.p_2.x as int, c.p_3.x as int) as i64,
        y: bezier_value(e, c.p_0.y as int, c.p_1.y as int, c.p_2.y as int, c.p_3.y as int) as i64,
        z: bezier_value(e, c.p_0.z as int, c.p_1.z as int, c.p_2.z as int, c.p_3.z as int) as i64,
    }
}

/// Sum of the segments' durations.
pub open spec fn total_duration(cs: Seq<Curve>) -> int
    decreases cs.len(),
{
    if cs.len() == 0 {
        0
    } else {
        total_duration(cs.drop_last()) + cs.last().t_duration
    }
}

/// Scan from segment `i`: the first segment whose end is at or after `t`
/// (measured from the start of segment `i`) gives the point.
pub open spec fn locate(cs: Seq<Curve>, i: int, t: int) -> Option<Vec3>
    decreases cs.len() - i,
{
    if i < 0 || i >= cs.len() {
        None
    } else if t <= cs[i].t_duration {
        Some(curve_point(cs[i], t))
    } else {
        locate(cs, i + 1, t - cs[i].t_duration)
    }
}

/// The point of a path at time `t`: `None` before its start, and after its
/// end unless looping, where `t` is taken modulo the total duration.
pub open spec fn sequence_point(cs: Seq<Curve>, t: int, loop_enabled: bool) -> Option<Vec3> {
    let total = total_duration(cs);
    if t < 0 {
        None
    } else if t <= total {
        locate(cs, 0, t)
    } else if loop_enabled && total > 0 {
        locate(cs, 0, t % total)
    } else {
        None
    }
}

pub open spec fn all_wf(cs: Seq<Curve>) -> bool {
    forall|i: int| 0 <= i < cs.len() ==> (#[trigger] cs[i]).wf()
}

proof fn lemma_prefix_total(cs: Seq<Curve>, i: int)
    requires
        all_wf(cs),
        0 <= i <= cs.len(),
    ensures
        0 <= total_duration(cs.take(i)) <= total_duration(cs),
    decreases cs.len(),
{
    if i == cs.len() {
        assert(cs.take(i) =~= cs);
        if cs.len() > 0 {
            lemma_prefix_total(cs.drop_last(), i - 1);
            assert(cs.drop_last().take(i - 1) =~= cs.drop_last());
        }
    } else {
        lemma_prefix_total(cs.drop_last(), i);
        assert(cs.drop_last().take(i) =~= cs.take(i));
    }
}

/// A piecewise path made of Bézier segments, played one after the other.
pub struct BezierSequence {
    curves: Vec<Curve>,
    t_duration: i64,
}

impl BezierSequence {
    pub closed spec fn segments(&self) -> Seq<Curve> {
        self.curves@
    }

    pub closed spec fn wf(&self) -> bool {
        all_wf(self.curves@) && self.t_duration == total_duration(self.curves@)
            && self.t_duration <= TIME_LIMIT
    }

    pub fn new(curves: Vec<Curve>) -> (r: BezierSequence)
        requires
            all_wf(curves@),
            total_duration(curves@) <= TIME_LIMIT,
        ensures
            r.wf(),
            r.segments() == curves@,
    {
        let mut t_duration: i64 = 0;
        let mut i: usize = 0;
        while i < curves.len()
            invariant
                all_wf(curves@),
                total_duration(curves@) <= TIME_LIMIT,
                i <= curves@.len(),
                t_duration == total_duration(curves@.take(i as int)),
            decreases curves@.len() - i,
        {
            proof {
                lemma_prefix_total(curves@, i + 1);
                assert(curves@.take(i + 1).drop_last() =~= curves@.take(i as int));
            }
            t_duration = t_duration + curves[i].t_duration;
            i = i + 1;
        }
        assert(curves@.take(i as int) =~= curves@);
        BezierSequence { curves, t_duration }
    }

    /// The total duration of the path.
    pub fn duration(&self) -> (r: i64)
        requires
            self.wf(),
        ensures
            r == total_duration(self.segments()),
            0 <= r <= TIME_LIMIT,
    {
        proof {
            lemma_prefix_total(self.curves@, 0);
        }
        self.t_duration
    }

    /// The point of the path at time `t` (see `sequence_point`).
    pub fn calc_point(&self, t: i64, loop_enabled: bool) -> (r: Option<Vec3>)
        requires
            self.wf(),
        ensures
            r == sequence_point(self.segments(), t as int, loop_enabled),
    {
        let total = self.t_duration;
        if t < 0 {
            return None;
        }
        let start: i64 = if t <= total {
            t
        } else if loop_enabled && total > 0 {
            t % total
        } else {
            return None;
        };
        let mut rem: i64 = start;
        let mut i: usize = 0;
        while i < self.curves.len()
            invariant
                self.wf(),
                0 <= rem <= start,
                i <= self.curves@.len(),
                0 <= start,
                sequence_point(self.segments(), t as int, loop_enabled) == locate(
                    self.curves@,
                    0,
                    start as int,
                ),
                locate(self.curves@, 0, start as int) == locate(
                    self.curves@,
                    i as int,
                    rem as int,
                ),
            decreases self.curves@.len() - i,
        {
            let c = &self.curves[i];
            if rem <= c.t_duration {
                return Some(segment_point(c, rem));
            }
            rem = rem - c.t_duration;
            i = i + 1;
        }
        None
    }
}

/// The point of one segment after `local` milliseconds of it.
fn segment_point(c: &Curve, local: i64) -> (r: Vec3)
    requires
        c.wf(),
        0 <= local <= c.t_duration,
    ensures
        r == curve_point(*c, local as int),
{
    let d = c.t_duration;
    assert(0 <= local * ONE <= d * ONE) by (nonlinear_arith)
        requires
            0 <= local <= d,
            ONE == 1000,
    ;
    let s = div_floor(local as i128 * ONE as i128, d as i128);
    proof {
        vstd::arithmetic::div_mod::lemma_div_is_ordered(0, local * ONE, d as int);
        vstd::arithmetic::div_mod::lemma_div_is_ordered(local * ONE, d * ONE, d as int);
        assert(d * ONE == ONE * d) by (nonlinear_arith);
        vstd::arithmetic::div_mod::lemma_div_multiples_vanish(ONE as int, d as int);
    }
    let s = s as i64;
    let e: i64 = match c.t_p {
        Some(tp) => {
            proof {
                lemma_bezier_between(s as int, 0, tp.0 as int, tp.1 as int, ONE as int, 0, ONE as int);
            }
            bezier_scalar(s, (0, tp.0, tp.1, ONE))
        },
        None => s,
    };
    Vec3 {
        x: bezier_scalar(e, (c.p_0.x, c.p_1.x, c.p_2.x, c.p_3.x)),
        y: bezier_scalar(e, (c.p_0.y, c.p_1.y, c.p_2.y, c.p_3.y)),
        z: bezier_scalar(e, (c.p_0.z, c.p_1.z, c.p_2.z, c.p_3.z)),
    }
}

/// A looping path repeats with its total duration as period: past the end it
/// continues as it began, and without looping it has ended. The one time
/// within the first period that this does not hold of is `eps == total`:
/// the end of the path is reached there, while `2 * total` wraps to its start.
pub proof fn lemma_loop_period(cs: Seq<Curve>, eps: int)
    requires
        total_duration(cs) > 0,
        eps > 0,
        eps != total_duration(cs),
    ensures
        sequence_point(cs, total_duration(cs) + eps, false) is None,
        sequence_point(cs, total_duration(cs) + eps, true) == sequence_point(cs, eps, true),
{
    let total = total_duration(cs);
    vstd::arithmetic::div_mod::lemma_mod_add_multiples_vanish(eps, total);
    if eps < total {
        vstd::arithmetic::div_mod::lemma_small_mod(eps as nat, total as nat);
    }
}

} // verus!
