//! The batter: the batting area, the swing, the bat's frame and contact.
use crate::bezier::{bezier_scalar, bezier_value, coord_ok};
use crate::fixed::{clamp_spec, lemma_div_within, div_floor, floor_div, Vec3, COORD_LIMIT, ONE, TIME_LIMIT};
use crate::frame::{
    add_exec, along, along_exec, apply_exec, bounded, cross, cross_exec, normalize,
    normalize_exec, scale_axis, scale_axis_exec, sub_exec, vadd, vsub, BatCoord, HitInfo,
    Rotation,
};
use vstd::prelude::*;

verus! {

/// Largest magnitude of a coordinate of the scene: the batter, the ball and
/// the bat's geometry.
pub const SCENE_LIMIT: i64 = 1_000_000;

pub open spec fn in_scene(v: Vec3) -> bool {
    bounded(v, SCENE_LIMIT as int)
}

/// Geometry and timing of the swing. Axes are unit vectors scaled by `ONE`
/// once `init` has run; angles are radians scaled by `ONE`.
#[derive(Clone, Copy, Debug)]
pub struct BattingConfigImpl {
    pub swing_duration: i64,
    pub swing_active: (i64, i64),
    pub batting_area_center: Vec3,
    pub batting_area_u_axis: Vec3,
    pub batting_area_v_axis: Vec3,
    pub batting_area_rect: (i64, i64),
    pub arm_rot_pivot: Vec3,
    pub arm_rot_axis: Vec3,
    pub arm_angle_range: (i64, i64, i64, i64),
    pub bat_rot_pivot: Vec3,
    pub bat_rot_axis: Vec3,
    pub bat_angle_range: (i64, i64, i64, i64),
    pub bat_center: Vec3,
    pub bat_length: i64,
    pub bat_width: i64,
}

pub open spec fn angles_ok(a: (i64, i64, i64, i64)) -> bool {
    coord_ok(a.0 as int) && coord_ok(a.1 as int) && coord_ok(a.2 as int) && coord_ok(a.3 as int)
}

/// `p` with its rotation by `rot` about `origin`.
pub open spec fn rotate_around(p: Vec3, origin: Vec3, rot: Rotation) -> Vec3 {
    vadd(rot.apply(vsub(p, origin)), origin)
}

impl BattingConfigImpl {
    /// Everything in range, before the axes are normalized.
    pub open spec fn raw_ok(self) -> bool {
        &&& 0 < self.swing_duration <= TIME_LIMIT
        &&& in_scene(self.batting_area_center)
        &&& in_scene(self.batting_area_u_axis)
        &&& in_scene(self.batting_area_v_axis)
        &&& 0 <= self.batting_area_rect.0 <= SCENE_LIMIT
        &&& 0 <= self.batting_area_rect.1 <= SCENE_LIMIT
        &&& in_scene(self.arm_rot_pivot)
        &&& in_scene(self.arm_rot_axis)
        &&& angles_ok(self.arm_angle_range)
        &&& in_scene(self.bat_rot_pivot)
        &&& in_scene(self.bat_rot_axis)
        &&& angles_ok(self.bat_angle_range)
        &&& in_scene(self.bat_center)
        &&& 0 <= self.bat_length <= COORD_LIMIT
        &&& 0 <= self.bat_width <= COORD_LIMIT
    }

    /// In range, with unit axes.
    pub open spec fn wf(self) -> bool {
        &&& self.raw_ok()
        &&& bounded(self.batting_area_u_axis, ONE as int)
        &&& bounded(self.batting_area_v_axis, ONE as int)
        &&& bounded(self.arm_rot_axis, ONE as int)
        &&& bounded(self.bat_rot_axis, ONE as int)
    }

    /// The batter's position moved into the batting area: its components
    /// along the area's axes are clamped to the area's half-extents, and its
    /// height above the area is kept.
    pub open spec fn constrained(self, p: Vec3) -> Vec3 {
        let b = vsub(p, self.batting_area_center);
        let u = self.batting_area_u_axis;
        let v = self.batting_area_v_axis;
        let w = normalize(cross(u, v));
        let uc = clamp_spec(along(u, b), -self.batting_area_rect.0, self.batting_area_rect.0 as int);
        let vc = clamp_spec(along(v, b), -self.batting_area_rect.1, self.batting_area_rect.1 as int);
        let wc = along(w, b);
        vadd(
            vadd(vadd(self.batting_area_center, scale_axis(w, wc)), scale_axis(u, uc)),
            scale_axis(v, vc),
        )
    }

    /// The bat's frame, given the arm's and the bat's rotations at the
    /// current swing phase.
    pub open spec fn frame(self, arm: Rotation, bat: Rotation) -> BatCoord {
        let hand = rotate_around(self.bat_rot_pivot, self.arm_rot_pivot, arm);
        let origin = rotate_around(
            rotate_around(self.bat_center, self.bat_rot_pivot, bat),
            self.arm_rot_pivot,
            arm,
        );
        let y_axis = arm.apply(self.bat_rot_axis);
        let x_axis = normalize(vsub(origin, hand));
        BatCoord { origin, x_axis, y_axis, z_axis: cross(y_axis, x_axis) }
    }

    /// Whether a point of the face's plane lies on the bat.
    pub open spec fn valid_meet(self, x: int, y: int) -> bool {
        -self.bat_length <= 2 * x <= self.bat_length && -self.bat_width <= 2 * y
            <= self.bat_width
    }

    /// The game's batter, in millimetres and milliradians, with unit axes.
    pub fn default() -> (r: BattingConfigImpl)
        ensures
            r.wf(),
            r == (BattingConfigImpl {
                swing_duration: 400,
                batting_area_center: Vec3 { x: 0, y: 0, z: 800 },
                batting_area_rect: (300, 500),
                batting_area_u_axis: Vec3 { x: 1000, y: 0, z: 0 },
                batting_area_v_axis: Vec3 { x: 0, y: 0, z: 1000 },
                swing_active: (300, 800),
                arm_rot_pivot: Vec3 { x: 0, y: 1000, z: 0 },
                arm_rot_axis: Vec3 { x: 0, y: 707, z: 707 },
                arm_angle_range: (0, 1046, 2092, 3141),
                bat_rot_pivot: Vec3 { x: 0, y: 1000, z: -200i64 },
                bat_rot_axis: Vec3 { x: 1000, y: 0, z: 0 },
                bat_angle_range: (0, 628, 1256, 1884),
                bat_center: Vec3 { x: 0, y: 1500, z: -200i64 },
                bat_length: 500,
                bat_width: 200,
            }),
    {
        BattingConfigImpl {
            swing_duration: 400,
            batting_area_center: Vec3 { x: 0, y: 0, z: 800 },
            batting_area_rect: (300, 500),
            batting_area_u_axis: Vec3 { x: 1000, y: 0, z: 0 },
            batting_area_v_axis: Vec3 { x: 0, y: 0, z: 1000 },
            swing_active: (300, 800),
            arm_rot_pivot: Vec3 { x: 0, y: 1000, z: 0 },
            arm_rot_axis: Vec3 { x: 0, y: 707, z: 707 },
            arm_angle_range: (0, 1046, 2092, 3141),
            bat_rot_pivot: Vec3 { x: 0, y: 1000, z: -200i64 },
            bat_rot_axis: Vec3 { x: 1000, y: 0, z: 0 },
            bat_angle_range: (0, 628, 1256, 1884),
            bat_center: Vec3 { x: 0, y: 1500, z: -200i64 },
            bat_length: 500,
            bat_width: 200,
        }
    }

    /// Normalizes the configured axes.
    pub fn init(&mut self)
        requires
            old(self).raw_ok(),
        ensures
            final(self).wf(),
            final(self).arm_rot_axis == normalize(old(self).arm_rot_axis),
            final(self).bat_rot_axis == normalize(old(self).bat_rot_axis),
            final(self).batting_area_u_axis == normalize(old(self).batting_area_u_axis),
            final(self).batting_area_v_axis == normalize(old(self).batting_area_v_axis),
            final(self).swing_duration == old(self).swing_duration,
            final(self).swing_active == old(self).swing_active,
            final(self).batting_area_center == old(self).batting_area_center,
            final(self).batting_area_rect == old(self).batting_area_rect,
            final(self).arm_rot_pivot == old(self).arm_rot_pivot,
            final(self).arm_angle_range == old(self).arm_angle_range,
            final(self).bat_rot_pivot == old(self).bat_rot_pivot,
            final(self).bat_angle_range == old(self).bat_angle_range,
            final(self).bat_center == old(self).bat_center,
            final(self).bat_length == old(self).bat_length,
            final(self).bat_width == old(self).bat_width,
    {
        let k = Ghost(SCENE_LIMIT as int);
        self.arm_rot_axis = normalize_exec(&self.arm_rot_axis, k);
        self.bat_rot_axis = normalize_exec(&self.bat_rot_axis, k);
        self.batting_area_u_axis = normalize_exec(&self.batting_area_u_axis, k);
        self.batting_area_v_axis = normalize_exec(&self.batting_area_v_axis, k);
    }

    /// Swing phase `time` after the swing began: within `[0, ONE]` exactly
    /// while the swing lasts.
    pub fn normalized_time(&self, time: i64) -> (r: i64)
        requires
            self.wf(),
            -2 * TIME_LIMIT <= time <= 2 * TIME_LIMIT,
        ensures
            r == floor_div(time * ONE, self.swing_duration as int),
            0 <= time <= self.swing_duration ==> 0 <= r <= ONE,
    {
        let d = self.swing_duration as i128;
        let r = div_floor(time as i128 * 1000, d);
        proof {
            lemma_div_within(time * 1000, d as int);
            if 0 <= time <= d {
                assert(0 <= time * 1000 <= d * 1000) by (nonlinear_arith)
                    requires
                        0 <= time <= d,
                ;
                vstd::arithmetic::div_mod::lemma_div_is_ordered(0, time * 1000, d as int);
                vstd::arithmetic::div_mod::lemma_div_is_ordered(time * 1000, d * 1000, d as int);
                assert(d * 1000 == 1000 * d) by (nonlinear_arith);
                vstd::arithmetic::div_mod::lemma_div_multiples_vanish(1000, d as int);
            }
        }
        r as i64
    }

    /// See `constrained`.
    pub fn constrain_batting_area(&self, batter_position: &Vec3) -> (r: Vec3)
        requires
            self.wf(),
            in_scene(*batter_position),
        ensures
            r == self.constrained(*batter_position),
            bounded(r, 200 * SCENE_LIMIT),
    {
        let s = Ghost(SCENE_LIMIT as int);
        let b = sub_exec(batter_position, &self.batting_area_center, s);
        let u = self.batting_area_u_axis;
        let v = self.batting_area_v_axis;
        let c = cross_exec(&u, &v);
        let w = normalize_exec(&c, Ghost(8000));
        let one = Ghost(ONE as int);
        let k = Ghost(2 * SCENE_LIMIT as int);
        let ua = along_exec(&u, &b, one, k);
        let va = along_exec(&v, &b, one, k);
        let wc = along_exec(&w, &b, one, k);
        let r0 = self.batting_area_rect.0;
        let r1 = self.batting_area_rect.1;
        let uc = if ua < -r0 {
            -r0
        } else if ua > r0 {
            r0
        } else {
            ua
        };
        let vc = if va < -r1 {
            -r1
        } else if va > r1 {
            r1
        } else {
            va
        };
        let lim = Ghost(6 * SCENE_LIMIT as int + 1);
        let sw = scale_axis_exec(&w, wc, lim);
        let su = scale_axis_exec(&u, uc, lim);
        let sv = scale_axis_exec(&v, vc, lim);
        let big = Ghost(48 * SCENE_LIMIT as int + 8);
        let p1 = add_exec(&self.batting_area_center, &sw, big);
        let p2 = add_exec(&p1, &su, Ghost(96 * SCENE_LIMIT as int + 16));
        add_exec(&p2, &sv, Ghost(192 * SCENE_LIMIT as int + 32))
    }

    /// Whether contact is possible at swing phase `t`.
    pub fn is_active_swing_time(&self, t: i64) -> (r: bool)
        ensures
            r == (self.swing_active.0 < t && t < self.swing_active.1),
    {
        self.swing_active.0 < t && t < self.swing_active.1
    }

    /// Angle of the arm at swing phase `t`, from its easing curve.
    pub fn arm_angle(&self, t: i64) -> (r: i64)
        requires
            self.wf(),
            0 <= t <= ONE,
        ensures
            r == bezier_value(
                t as int,
                self.arm_angle_range.0 as int,
                self.arm_angle_range.1 as int,
                self.arm_angle_range.2 as int,
                self.arm_angle_range.3 as int,
            ),
    {
        bezier_scalar(t, self.arm_angle_range)
    }

    /// Angle of the bat about the wrist at swing phase `t`, from its easing curve.
    pub fn bat_angle(&self, t: i64) -> (r: i64)
        requires
            self.wf(),
            0 <= t <= ONE,
        ensures
            r == bezier_value(
                t as int,
                self.bat_angle_range.0 as int,
                self.bat_angle_range.1 as int,
                self.bat_angle_range.2 as int,
                self.bat_angle_range.3 as int,
            ),
    {
        bezier_scalar(t, self.bat_angle_range)
    }

    /// See `frame`.
    pub fn bat_coord(&self, arm: &Rotation, bat: &Rotation) -> (r: BatCoord)
        requires
            self.wf(),
            arm.wf(),
            bat.wf(),
        ensures
            r == self.frame(*arm, *bat),
            r.wf(),
            bounded(r.origin, 160 * SCENE_LIMIT),
            bounded(r.x_axis, ONE as int),
            bounded(r.y_axis, 4 * ONE),
    {
        let ghost s = SCENE_LIMIT as int;
        let hand = rotate_around_exec(&self.bat_rot_pivot, &self.arm_rot_pivot, arm, Ghost(s));
        let inner = rotate_around_exec(&self.bat_center, &self.bat_rot_pivot, bat, Ghost(s));
        let origin = rotate_around_exec(&inner, &self.arm_rot_pivot, arm, Ghost(13 * s));
        let y_axis = apply_exec(arm, &self.bat_rot_axis, Ghost(ONE as int));
        let d = sub_exec(&origin, &hand, Ghost(160 * s));
        let x_axis = normalize_exec(&d, Ghost(320 * s));
        let z_axis = cross_exec(&y_axis, &x_axis);
        BatCoord { origin, x_axis, y_axis, z_axis }
    }

    /// Whether a point of the face's plane lies on the bat.
    pub fn is_valid_meet(&self, x: i64, y: i64) -> (r: bool)
        requires
            self.wf(),
            -COORD_LIMIT * 100 <= x <= COORD_LIMIT * 100,
            -COORD_LIMIT * 100 <= y <= COORD_LIMIT * 100,
        ensures
            r == self.valid_meet(x as int, y as int),
    {
        -self.bat_length <= 2 * x && 2 * x <= self.bat_length && -self.bat_width <= 2 * y && 2 * y
            <= self.bat_width
    }
}

fn rotate_around_exec(p: &Vec3, origin: &Vec3, rot: &Rotation, Ghost(k): Ghost<int>) -> (r: Vec3)
    requires
        bounded(*p, k),
        bounded(*origin, SCENE_LIMIT as int),
        SCENE_LIMIT <= k <= 13 * SCENE_LIMIT,
        rot.wf(),
    ensures
        r == rotate_around(*p, *origin, *rot),
        bounded(r, 12 * k + 2),
{
    let d = sub_exec(p, origin, Ghost(k));
    let q = apply_exec(rot, &d, Ghost(2 * k));
    add_exec(&q, origin, Ghost(6 * k + 1))
}

/// What the batter is doing at one instant.
#[derive(Clone, Copy, Debug)]
pub enum BattingState {
    Idle { batter: Vec3 },
    Swinging { batter: Vec3, swing_degree: i64 },
    Hit(HitInfo),
}

/// Largest magnitude of a coordinate of the ball in the bat's frame.
pub open spec fn local_limit() -> int {
    20000 * SCENE_LIMIT
}

/// The ball's position in the bat's frame, for a batter at `batter`.
pub open spec fn local_position(frame: BatCoord, ball: Vec3, batter: Vec3) -> Vec3 {
    let p = vsub(vsub(ball, batter), frame.origin);
    Vec3 {
        x: along(frame.x_axis, p) as i64,
        y: along(frame.y_axis, p) as i64,
        z: along(frame.z_axis, p) as i64,
    }
}

/// Where the segment from `last` (in front of the face) to `cur` (at or
/// behind it) crosses the face's plane, by linear interpolation.
pub open spec fn crossing(last: Vec3, cur: Vec3) -> (i64, i64) {
    let dz = last.z - cur.z;
    if dz == 0 {
        (cur.x, cur.y)
    } else {
        (
            (cur.x + floor_div(-cur.z * (last.x - cur.x), dz)) as i64,
            (cur.y + floor_div(-cur.z * (last.y - cur.y), dz)) as i64,
        )
    }
}

/// The abstract state of a `BattingImpl`.
pub struct BattingView {
    pub config: BattingConfigImpl,
    pub is_swinging: bool,
    pub swang_at: Option<i64>,
    pub batter_position: Vec3,
    pub last_ball_position_local: Vec3,
    pub has_hit: bool,
}

impl BattingView {
    pub open spec fn wf(self) -> bool {
        &&& self.config.wf()
        &&& in_scene(self.batter_position)
        &&& match self.swang_at {
            Some(a) => -TIME_LIMIT <= a <= TIME_LIMIT,
            None => true,
        }
        &&& bounded(self.last_ball_position_local, local_limit())
        &&& self.last_ball_position_local.z >= 0
    }

    /// The swing phase at `time`, while within the swing.
    pub open spec fn phase(self, time: int) -> Option<int> {
        match self.swang_at {
            Some(a) => if 0 <= time - a <= self.config.swing_duration {
                Some(floor_div((time - a) * ONE, self.config.swing_duration as int))
            } else {
                None
            },
            None => None,
        }
    }

    /// After a swing is asked for at `timestamp`.
    pub open spec fn swung(self, timestamp: i64) -> BattingView {
        if self.is_swinging {
            self
        } else {
            BattingView { is_swinging: true, swang_at: Some(timestamp), has_hit: false, ..self }
        }
    }

    /// One query at `time`, with the ball's position if there is a ball and
    /// the arm's and bat's rotations at the current swing phase: the state
    /// after it, and what it reports.
    pub open spec fn step(
        self,
        time: int,
        ball: Option<Vec3>,
        arm: Rotation,
        bat: Rotation,
    ) -> (BattingView, BattingState) {
        let batter = self.config.constrained(self.batter_position);
        if self.phase(time) is None || ball is None {
            (BattingView { is_swinging: false, ..self }, BattingState::Idle { batter })
        } else {
            let t = self.phase(time).unwrap();
            let swinging = BattingState::Swinging { batter, swing_degree: t as i64 };
            if !(self.config.swing_active.0 < t < self.config.swing_active.1) {
                (self, swinging)
            } else {
                let frame = self.config.frame(arm, bat);
                let l = local_position(frame, ball.unwrap(), batter);
                if l.z > 0 {
                    (BattingView { last_ball_position_local: l, ..self }, swinging)
                } else if self.has_hit || !self.config.valid_meet(l.x as int, l.y as int) {
                    (self, swinging)
                } else {
                    (
                        BattingView { has_hit: true, ..self },
                        BattingState::Hit(
                            HitInfo {
                                x_axis: frame.x_axis,
                                y_axis: frame.y_axis,
                                z_axis: frame.z_axis,
                                origin: frame.origin,
                                meet_position: crossing(self.last_ball_position_local, l),
                            },
                        ),
                    )
                }
            }
        }
    }
}

/// The batting state machine. Everything it reports is recomputed from the
/// time the swing began, but for the ball's last position in front of the
/// bat, kept to reconstruct the instant of contact.
pub struct BattingImpl {
    is_swinging: bool,
    swang_at: Option<i64>,
    batter_position: Vec3,
    last_ball_position_local: Vec3,
    has_hit: bool,
    config: BattingConfigImpl,
}

proof fn lemma_interpolation_bound(a: int, b: int, d: int, k: int)
    requires
        0 <= a <= d,
        d > 0,
        -k <= b <= k,
    ensures
        -k <= floor_div(a * b, d) <= k,
{
    assert(-(d * k) <= a * b <= d * k) by (nonlinear_arith)
        requires
            0 <= a <= d,
            -k <= b <= k,
    ;
    vstd::arithmetic::div_mod::lemma_div_is_ordered(a * b, d * k, d);
    vstd::arithmetic::div_mod::lemma_div_is_ordered(-(d * k), a * b, d);
    assert(-(d * k) == d * (-k)) by (nonlinear_arith);
    vstd::arithmetic::div_mod::lemma_div_multiples_vanish(k, d);
    vstd::arithmetic::div_mod::lemma_div_multiples_vanish(-k, d);
}

/// See `crossing`.
fn crossing_exec(last: &Vec3, cur: &Vec3) -> (r: (i64, i64))
    requires
        bounded(*last, local_limit()),
        bounded(*cur, local_limit()),
        last.z >= 0,
        cur.z <= 0,
    ensures
        r == crossing(*last, *cur),
{
    let dz = last.z as i128 - cur.z as i128;
    if dz == 0 {
        return (cur.x, cur.y);
    }
    let a = -(cur.z as i128);
    let bx = last.x as i128 - cur.x as i128;
    let by = last.y as i128 - cur.y as i128;
    proof {
        let k = 2 * local_limit();
        lemma_interpolation_bound(a as int, bx as int, dz as int, k);
        lemma_interpolation_bound(a as int, by as int, dz as int, k);
        assert(a * bx <= dz * k && a * by <= dz * k && a * bx >= -(dz * k) && a * by >= -(dz
            * k)) by (nonlinear_arith)
            requires
                0 <= a <= dz,
                -k <= bx <= k,
                -k <= by <= k,
        ;
        assert(dz * k <= 2 * local_limit() * (2 * local_limit())) by (nonlinear_arith)
            requires
                0 <= dz <= 2 * local_limit(),
                k == 2 * local_limit(),
        ;
    }
    let mx = cur.x as i128 + div_floor(a * bx, dz);
    let my = cur.y as i128 + div_floor(a * by, dz);
    (mx as i64, my as i64)
}

impl BattingImpl {
    pub closed spec fn view(&self) -> BattingView {
        BattingView {
            config: self.config,
            is_swinging: self.is_swinging,
            swang_at: self.swang_at,
            batter_position: self.batter_position,
            last_ball_position_local: self.last_ball_position_local,
            has_hit: self.has_hit,
        }
    }

    pub fn new(config: BattingConfigImpl) -> (r: BattingImpl)
        requires
            config.wf(),
        ensures
            r.view().wf(),
            r.view() == (BattingView {
                config,
                is_swinging: false,
                swang_at: None,
                batter_position: Vec3 { x: 0, y: 0, z: 0 },
                last_ball_position_local: Vec3 { x: 0, y: 0, z: 0 },
                has_hit: false,
            }),
    {
        BattingImpl {
            is_swinging: false,
            swang_at: None,
            batter_position: Vec3 { x: 0, y: 0, z: 0 },
            last_ball_position_local: Vec3 { x: 0, y: 0, z: 0 },
            has_hit: false,
            config,
        }
    }

    /// Moves the batter, unless a swing is under way.
    pub fn set_batter_position(&mut self, position: Vec3)
        requires
            old(self).view().wf(),
            in_scene(position),
        ensures
            final(self).view().wf(),
            final(self).view() == if old(self).view().is_swinging {
                old(self).view()
            } else {
                BattingView { batter_position: position, ..old(self).view() }
            },
    {
        if !self.is_swinging {
            self.batter_position = position;
        }
    }

    /// Starts a swing at `swang_at`, unless one is under way.
    pub fn swing(&mut self, swang_at: i64)
        requires
            old(self).view().wf(),
            -TIME_LIMIT <= swang_at <= TIME_LIMIT,
        ensures
            final(self).view().wf(),
            final(self).view() == old(self).view().swung(swang_at),
    {
        if !self.is_swinging {
            self.swang_at = Some(swang_at);
            self.is_swinging = true;
            self.has_hit = false;
        }
    }

    /// The swing phase at `time`, while within the swing: the phase at which
    /// the caller rotates the arm and the bat for `update`.
    pub fn swing_phase(&self, time: i64) -> (r: Option<i64>)
        requires
            self.view().wf(),
            -TIME_LIMIT <= time <= TIME_LIMIT,
        ensures
            r == match self.view().phase(time as int) {
                Some(t) => Some(t as i64),
                None => None,
            },
            match r {
                Some(t) => 0 <= t <= ONE,
                None => true,
            },
    {
        match self.swang_at {
            Some(a) => {
                let elapsed = time as i128 - a as i128;
                if elapsed < 0 || elapsed > self.config.swing_duration as i128 {
                    None
                } else {
                    Some(self.config.normalized_time(elapsed as i64))
                }
            },
            None => None,
        }
    }

    /// The configuration.
    pub fn config(&self) -> (r: &BattingConfigImpl)
        ensures
            *r == self.view().config,
    {
        &self.config
    }

    /// The batter at `time` (see `BattingView::step`). `arm` and `bat` are the
    /// rotations by `arm_angle` and `bat_angle` at the current swing phase.
    pub fn update(&mut self, time: i64, ball_position: Option<Vec3>, arm: &Rotation, bat: &Rotation) -> (r:
        BattingState)
        requires
            old(self).view().wf(),
            -TIME_LIMIT <= time <= TIME_LIMIT,
            match ball_position {
                Some(b) => in_scene(b),
                None => true,
            },
            arm.wf(),
            bat.wf(),
        ensures
            final(self).view().wf(),
            (final(self).view(), r) == old(self).view().step(
                time as int,
                ball_position,
                *arm,
                *bat,
            ),
    {
        let batter = self.config.constrain_batting_area(&self.batter_position);
        let idle = BattingState::Idle { batter };
        let a = match self.swang_at {
            Some(a) => a,
            None => {
                self.is_swinging = false;
                return idle;
            },
        };
        let elapsed = time as i128 - a as i128;
        if elapsed < 0 || elapsed > self.config.swing_duration as i128 || ball_position.is_none() {
            self.is_swinging = false;
            return idle;
        }
        let ball = ball_position.unwrap();
        let t = self.config.normalized_time(elapsed as i64);
        let swinging = BattingState::Swinging { batter, swing_degree: t };
        if !self.config.is_active_swing_time(t) {
            return swinging;
        }
        let frame = self.config.bat_coord(arm, bat);
        let p1 = sub_exec(&ball, &batter, Ghost(200 * SCENE_LIMIT as int));
        let p = sub_exec(&p1, &frame.origin, Ghost(400 * SCENE_LIMIT as int));
        let k = Ghost(800 * SCENE_LIMIT as int);
        let x = along_exec(&frame.x_axis, &p, Ghost(ONE as int), k);
        let y = along_exec(&frame.y_axis, &p, Ghost(4 * ONE as int), k);
        let z = along_exec(&frame.z_axis, &p, Ghost(8000), k);
        let l = Vec3 { x, y, z };
        if z > 0 {
            self.last_ball_position_local = l;
            return swinging;
        }
        if self.has_hit || !self.config.is_valid_meet(x, y) {
            return swinging;
        }
        let meet = crossing_exec(&self.last_ball_position_local, &l);
        self.has_hit = true;
        BattingState::Hit(
            HitInfo {
                x_axis: frame.x_axis,
                y_axis: frame.y_axis,
                z_axis: frame.z_axis,
                origin: frame.origin,
                meet_position: meet,
            },
        )
    }
}

/// A second swing asked for while one is under way leaves its start time alone.
pub proof fn lemma_swing_keeps_start(s: BattingView, first: i64, second: i64)
    ensures
        s.swung(first).swung(second).swang_at == s.swung(first).swang_at,
        !s.is_swinging ==> s.swung(first).swang_at == Some(first),
{
}

/// A ball seen in front of the face (`z > 0`) and then, one query later, at
/// or behind it (`z <= 0`) within the bat's rectangle, during the active part
/// of a swing that has not hit yet, gives a hit whose meeting point is the
/// interpolated crossing of the two local positions.
pub proof fn lemma_contact(
    s: BattingView,
    t1: int,
    ball1: Vec3,
    arm1: Rotation,
    bat1: Rotation,
    t2: int,
    ball2: Vec3,
    arm2: Rotation,
    bat2: Rotation,
)
    requires
        s.wf(),
        !s.has_hit,
        s.phase(t1) is Some,
        s.phase(t2) is Some,
        s.config.swing_active.0 < s.phase(t1).unwrap() < s.config.swing_active.1,
        s.config.swing_active.0 < s.phase(t2).unwrap() < s.config.swing_active.1,
        local_position(
            s.config.frame(arm1, bat1),
            ball1,
            s.config.constrained(s.batter_position),
        ).z > 0,
        local_position(
            s.config.frame(arm2, bat2),
            ball2,
            s.config.constrained(s.batter_position),
        ).z <= 0,
        s.config.valid_meet(
            local_position(
                s.config.frame(arm2, bat2),
                ball2,
                s.config.constrained(s.batter_position),
            ).x as int,
            local_position(
                s.config.frame(arm2, bat2),
                ball2,
                s.config.constrained(s.batter_position),
            ).y as int,
        ),
    ensures
        ({
            let batter = s.config.constrained(s.batter_position);
            let l1 = local_position(s.config.frame(arm1, bat1), ball1, batter);
            let l2 = local_position(s.config.frame(arm2, bat2), ball2, batter);
            let s1 = s.step(t1, Some(ball1), arm1, bat1).0;
            let r2 = s1.step(t2, Some(ball2), arm2, bat2).1;
            &&& s.step(t1, Some(ball1), arm1, bat1).1 is Swinging
            &&& r2 is Hit
            &&& r2->Hit_0.meet_position == crossing(l1, l2)
        }),
{
}

/// One call of `update`, as the state machine sees it.
pub struct Query {
    pub time: i64,
    pub ball: Option<Vec3>,
    pub arm: Rotation,
    pub bat: Rotation,
}

impl BattingView {
    pub open spec fn step_query(self, q: Query) -> (BattingView, BattingState) {
        self.step(q.time as int, q.ball, q.arm, q.bat)
    }

    /// The state after the queries `qs`, in order, with no new swing between.
    pub open spec fn run(self, qs: Seq<Query>) -> BattingView
        decreases qs.len(),
    {
        if qs.len() == 0 {
            self
        } else {
            self.run(qs.drop_last()).step_query(qs.last()).0
        }
    }
}

/// Once a swing has hit, no query reports a hit until a new swing starts.
pub proof fn lemma_hit_is_final(s: BattingView, qs: Seq<Query>)
    requires
        s.has_hit,
    ensures
        s.run(qs).has_hit,
        forall|i: int| 0 <= i < qs.len() ==> !(s.run(qs.take(i)).step_query(#[trigger] qs[i]).1 is Hit),
    decreases qs.len(),
{
    if qs.len() > 0 {
        let dl = qs.drop_last();
        lemma_hit_is_final(s, dl);
        assert forall|i: int| 0 <= i < qs.len() implies !(s.run(qs.take(i)).step_query(
            #[trigger] qs[i],
        ).1 is Hit) by {
            if i < qs.len() - 1 {
                assert(qs.take(i) =~= dl.take(i));
                assert(qs[i] == dl[i]);
            } else {
                assert(qs.take(i) =~= dl);
            }
        }
    }
}

/// A swing hits at most once: after a query that reports a hit, no query
/// reports another until a new swing starts.
pub proof fn lemma_single_hit(s: BattingView, first: Query, later: Seq<Query>)
    requires
        s.step_query(first).1 is Hit,
    ensures
        forall|i: int|
            0 <= i < later.len() ==> !(s.step_query(first).0.run(later.take(i)).step_query(
                #[trigger] later[i],
            ).1 is Hit),
{
    lemma_hit_is_final(s.step_query(first).0, later);
}

/// Starting a new swing is the only way to clear a hit.
pub proof fn lemma_new_swing_clears_hit(s: BattingView, timestamp: i64)
    requires
        !s.is_swinging,
    ensures
        !s.swung(timestamp).has_hit,
{
}

} // verus!
