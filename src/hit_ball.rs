//! The batted ball: its parabola and the judgement foul, safe hit or home run.
use crate::fixed::{div_floor, floor_div, Vec3, COORD_LIMIT, ONE, TIME_LIMIT};
use crate::frame::{axis_ok, dot, norm2, scale_axis, scale_axis_exec, HitInfo};
use vstd::prelude::*;

verus! {

#[derive(Clone, Copy, Debug, PartialEq, Eq, Structural)]
pub enum HitResult {
    Foul,
    HomeRun,
    SafeHit,
}

/// What the batted ball is doing at one instant.
#[derive(Clone, Copy, Debug, PartialEq, Eq, Structural)]
pub enum HitBallState {
    Idle {},
    Frying { position: Vec3 },
    Result { position: Vec3, result: HitResult, judged_at: i64 },
}

/// Field geometry seen from `position`: fair territory is the cone around
/// `direction` whose half-angle has the cosine `angle_cos`. A ball outside it
/// is foul, and a fair ball landing `radius` or farther away, horizontally,
/// clears the fence.
#[derive(Clone, Copy, Debug, PartialEq, Eq, Structural)]
pub struct Sector {
    pub position: Vec3,
    /// Unit direction, components scaled by `ONE`.
    pub direction: Vec3,
    /// Cosine of the cone's half-angle, scaled by `ONE`.
    pub angle_cos: i64,
    pub radius: i64,
}

#[derive(Clone, Copy, Debug, PartialEq, Eq, Structural)]
pub struct Config {
    /// Length of the hit window, in milliseconds.
    pub duration: i64,
    pub ground_height: i64,
    /// Vertical acceleration: the height gained over a whole window is `gravity / 2`.
    pub gravity: i64,
    /// Distance the ball travels along the bat face's normal over a whole window.
    pub launch_speed: i64,
    pub sector: Sector,
}

impl Config {
    pub open spec fn wf(self) -> bool {
        &&& 0 < self.duration <= TIME_LIMIT
        &&& -COORD_LIMIT <= self.ground_height <= COORD_LIMIT
        &&& -COORD_LIMIT <= self.gravity <= COORD_LIMIT
        &&& 0 <= self.launch_speed <= COORD_LIMIT / 8
        &&& self.sector.position.in_range()
        &&& axis_ok(self.sector.direction)
        &&& -ONE <= self.sector.angle_cos <= ONE
        &&& 0 <= self.sector.radius <= COORD_LIMIT
    }
}

impl Config {
    /// Whether the configuration is usable (see `wf`).
    pub fn is_valid(&self) -> (r: bool)
        ensures
            r == self.wf(),
    {
        let l = COORD_LIMIT;
        let d = self.sector.direction;
        let a = crate::frame::AXIS_LIMIT;
        0 < self.duration && self.duration <= TIME_LIMIT && -l <= self.ground_height
            && self.ground_height <= l && -l <= self.gravity && self.gravity <= l && 0
            <= self.launch_speed && self.launch_speed <= l / 8 && self.sector.position.is_in_range()
            && -a <= d.x && d.x <= a && -a <= d.y && d.y <= a && -a <= d.z && d.z <= a && -ONE
            <= self.sector.angle_cos && self.sector.angle_cos <= ONE && 0 <= self.sector.radius
            && self.sector.radius <= l
    }
}

/// The ballistic descriptor of a batted ball.
#[derive(Clone, Copy, Debug, PartialEq, Eq, Structural)]
pub struct Parabola {
    pub start: Vec3,
    pub initial_velocity: Vec3,
}

/// Position at window phase `t` (scaled by `ONE`): `v * t + (0, g * t^2 / 2, 0)`.
pub open spec fn ballistic(v: Vec3, gravity: int, t: int) -> Vec3 {
    Vec3 {
        x: floor_div(v.x * t, ONE as int) as i64,
        y: (floor_div(v.y * t, ONE as int) + floor_div(gravity * t * t, 2 * ONE * ONE)) as i64,
        z: floor_div(v.z * t, ONE as int) as i64,
    }
}

/// `a < c * sqrt(s)` for `s > 0`: with `a` the dot product of the unit
/// direction and an offset whose squared length is `s`, and `c` a cosine,
/// the offset's angle to the direction has a cosine below `c`. A zero offset
/// has no angle and never falls below.
pub open spec fn cos_below(a: int, c: int, s: int) -> bool {
    s > 0 && if c > 0 {
        a < 0 || a * a < c * c * s
    } else {
        a < 0 && a * a > c * c * s
    }
}

pub open spec fn offset(p: Vec3, o: Vec3) -> Vec3 {
    Vec3 { x: (p.x - o.x) as i64, y: (p.y - o.y) as i64, z: (p.z - o.z) as i64 }
}

/// The judgement on a ball at `p`: `Some(Foul)` outside the fair cone, where
/// the cosine of its offset's angle to the sector's direction is below the
/// sector's threshold,
/// `None` while it is above the ground, else a safe hit within the radius and
/// a home run beyond it.
pub open spec fn judge(config: Config, p: Vec3) -> Option<HitResult> {
    let q = offset(p, config.sector.position);
    if cos_below(
        dot(config.sector.direction, q),
        config.sector.angle_cos as int,
        dot(q, q),
    ) {
        Some(HitResult::Foul)
    } else if q.y > config.ground_height {
        None
    } else if q.x * q.x + q.z * q.z < config.sector.radius * config.sector.radius {
        Some(HitResult::SafeHit)
    } else {
        Some(HitResult::HomeRun)
    }
}

pub open spec fn launch(config: Config, info: HitInfo) -> Parabola {
    Parabola {
        start: info.origin,
        initial_velocity: scale_axis(info.z_axis, config.launch_speed as int),
    }
}

/// The outcome state machine of a batted ball.
pub struct HitBallImpl {
    config: Config,
    hit_at: Option<i64>,
    parabola: Option<Parabola>,
    curr_result: Option<(i64, HitResult)>,
}

/// The abstract state of a `HitBallImpl`.
pub struct HitBallView {
    pub config: Config,
    pub hit_at: Option<i64>,
    pub parabola: Option<Parabola>,
    pub curr_result: Option<(i64, HitResult)>,
}

impl HitBallView {
    pub open spec fn wf(self) -> bool {
        &&& self.config.wf()
        &&& self.hit_at is Some <==> self.parabola is Some
        &&& match self.hit_at {
            Some(h) => -TIME_LIMIT <= h <= TIME_LIMIT,
            None => true,
        }
        &&& match self.parabola {
            Some(p) => p.initial_velocity.in_range(),
            None => true,
        }
        &&& match self.curr_result {
            Some(m) => match self.hit_at {
                Some(h) => h <= m.0 <= h + self.config.duration,
                None => false,
            },
            None => true,
        }
    }

    /// Window phase at `time`, when `time` lies within the hit window.
    pub open spec fn phase(self, time: int) -> Option<int> {
        match self.hit_at {
            Some(h) => if 0 <= time - h <= self.config.duration {
                Some(floor_div((time - h) * ONE, self.config.duration as int))
            } else {
                None
            },
            None => None,
        }
    }

    /// One query at `time`: the state after it, and what it reports.
    pub open spec fn step(self, time: int) -> (HitBallView, HitBallState) {
        match self.phase(time) {
            None => (HitBallView { curr_result: None, ..self }, HitBallState::Idle {  }),
            Some(t) => {
                let position = ballistic(
                    self.parabola.unwrap().initial_velocity,
                    self.config.gravity as int,
                    t,
                );
                match self.curr_result {
                    Some(m) => (
                        self,
                        HitBallState::Result { position, result: m.1, judged_at: m.0 },
                    ),
                    None => match judge(self.config, position) {
                        None => (self, HitBallState::Frying { position }),
                        Some(result) => (
                            HitBallView { curr_result: Some((time as i64, result)), ..self },
                            HitBallState::Result { position, result, judged_at: time as i64 },
                        ),
                    },
                }
            },
        }
    }
}

impl HitBallImpl {
    pub closed spec fn view(&self) -> HitBallView {
        HitBallView {
            config: self.config,
            hit_at: self.hit_at,
            parabola: self.parabola,
            curr_result: self.curr_result,
        }
    }

    pub fn new(config: Config) -> (r: HitBallImpl)
        requires
            config.wf(),
        ensures
            r.view().wf(),
            r.view() == (HitBallView { config, hit_at: None, parabola: None, curr_result: None }),
    {
        HitBallImpl { config, hit_at: None, parabola: None, curr_result: None }
    }

    /// Starts the flight of a ball hit at `timestamp`: it leaves along the
    /// bat face's normal, and any earlier judgement is dropped.
    pub fn hit(&mut self, timestamp: i64, info: HitInfo)
        requires
            old(self).view().wf(),
            -TIME_LIMIT <= timestamp <= TIME_LIMIT,
            info.wf(),
        ensures
            final(self).view().wf(),
            final(self).view() == (HitBallView {
                hit_at: Some(timestamp),
                parabola: Some(launch(old(self).view().config, info)),
                curr_result: None,
                ..old(self).view()
            }),
    {
        let v = scale_axis_exec(&info.z_axis, self.config.launch_speed, Ghost(COORD_LIMIT / 8));
        self.hit_at = Some(timestamp);
        self.parabola = Some(Parabola { start: info.origin, initial_velocity: v });
        self.curr_result = None;
    }

    /// The ball at `time`; the first judgement within a hit window is kept
    /// for the rest of it.
    pub fn update(&mut self, time: i64) -> (r: HitBallState)
        requires
            old(self).view().wf(),
            -TIME_LIMIT <= time <= TIME_LIMIT,
        ensures
            final(self).view().wf(),
            (final(self).view(), r) == old(self).view().step(time as int),
    {
        let h = match self.hit_at {
            Some(h) => h,
            None => {
                self.curr_result = None;
                return HitBallState::Idle {  };
            },
        };
        let elapsed = time as i128 - h as i128;
        if elapsed < 0 || elapsed > self.config.duration as i128 {
            self.curr_result = None;
            return HitBallState::Idle {  };
        }
        let d = self.config.duration as i128;
        let t = div_floor(elapsed * 1000, d);
        proof {
            assert(0 <= elapsed * 1000 <= d * 1000) by (nonlinear_arith)
                requires
                    0 <= elapsed <= d,
            ;
            vstd::arithmetic::div_mod::lemma_div_is_ordered(0, elapsed * 1000, d as int);
            vstd::arithmetic::div_mod::lemma_div_is_ordered(elapsed * 1000, d * 1000, d as int);
            assert(d * 1000 == 1000 * d) by (nonlinear_arith);
            vstd::arithmetic::div_mod::lemma_div_multiples_vanish(1000, d as int);
        }
        let v = match self.parabola {
            Some(p) => p.initial_velocity,
            None => Vec3 { x: 0, y: 0, z: 0 },
        };
        let position = ballistic_exec(&v, self.config.gravity, t as i64);
        if let Some(m) = self.curr_result {
            return HitBallState::Result { position, result: m.1, judged_at: m.0 };
        }
        match judge_exec(&self.config, &position) {
            None => HitBallState::Frying { position },
            Some(result) => {
                self.curr_result = Some((time, result));
                HitBallState::Result { position, result, judged_at: time }
            },
        }
    }
}

fn ballistic_exec(v: &Vec3, gravity: i64, t: i64) -> (r: Vec3)
    requires
        v.in_range(),
        -COORD_LIMIT <= gravity <= COORD_LIMIT,
        0 <= t <= ONE,
    ensures
        r == ballistic(*v, gravity as int, t as int),
        r.in_range_wide(),
{
    proof {
        lemma_scale_phase(v.x as int, t as int);
        lemma_scale_phase(v.y as int, t as int);
        lemma_scale_phase(v.z as int, t as int);
        lemma_fall(gravity as int, t as int);
    }
    let t2 = t as i128;
    assert(-COORD_LIMIT * 1000 <= gravity * t2 <= COORD_LIMIT * 1000) by (nonlinear_arith)
        requires
            -COORD_LIMIT <= gravity <= COORD_LIMIT,
            0 <= t2 <= 1000,
    ;
    assert(gravity * t2 * t2 == (gravity * t2) * t2);
    Vec3 {
        x: div_floor(v.x as i128 * t2, 1000) as i64,
        y: (div_floor(v.y as i128 * t2, 1000) + div_floor(gravity as i128 * t2 * t2, 2_000_000))
            as i64,
        z: div_floor(v.z as i128 * t2, 1000) as i64,
    }
}

proof fn lemma_scale_phase(a: int, t: int)
    requires
        -COORD_LIMIT <= a <= COORD_LIMIT,
        0 <= t <= ONE,
    ensures
        -COORD_LIMIT <= floor_div(a * t, ONE as int) <= COORD_LIMIT,
{
    assert(-COORD_LIMIT * 1000 <= a * t <= COORD_LIMIT * 1000) by (nonlinear_arith)
        requires
            -COORD_LIMIT <= a <= COORD_LIMIT,
            0 <= t <= 1000,
    ;
    vstd::arithmetic::div_mod::lemma_div_is_ordered(a * t, COORD_LIMIT * 1000, 1000);
    vstd::arithmetic::div_mod::lemma_div_is_ordered(-COORD_LIMIT * 1000, a * t, 1000);
}

proof fn lemma_fall(g: int, t: int)
    requires
        -COORD_LIMIT <= g <= COORD_LIMIT,
        0 <= t <= ONE,
    ensures
        -COORD_LIMIT <= floor_div(g * t * t, 2 * ONE * ONE) <= COORD_LIMIT,
{
    assert(-COORD_LIMIT * 1_000_000 <= g * t * t <= COORD_LIMIT * 1_000_000) by (nonlinear_arith)
        requires
            -COORD_LIMIT <= g <= COORD_LIMIT,
            0 <= t <= 1000,
    ;
    vstd::arithmetic::div_mod::lemma_div_is_ordered(g * t * t, COORD_LIMIT * 1_000_000, 2_000_000);
    vstd::arithmetic::div_mod::lemma_div_is_ordered(-COORD_LIMIT * 1_000_000, g * t * t, 2_000_000);
}

fn judge_exec(config: &Config, p: &Vec3) -> (r: Option<HitResult>)
    requires
        config.wf(),
        p.in_range_wide(),
    ensures
        r == judge(*config, *p),
{
    let o = config.sector.position;
    let qx = p.x as i128 - o.x as i128;
    let qy = p.y as i128 - o.y as i128;
    let qz = p.z as i128 - o.z as i128;
    let q = Vec3 { x: qx as i64, y: qy as i64, z: qz as i64 };
    let dir = config.sector.direction;
    proof {
        lemma_square_bound(qx as int);
        lemma_square_bound(qy as int);
        lemma_square_bound(qz as int);
        lemma_axis_product(dir.x as int, qx as int);
        lemma_axis_product(dir.y as int, qy as int);
        lemma_axis_product(dir.z as int, qz as int);
    }
    let a = dir.x as i128 * qx + dir.y as i128 * qy + dir.z as i128 * qz;
    let s = qx * qx + qy * qy + qz * qz;
    let c = config.sector.angle_cos as i128;
    proof {
        assert(0 <= c * c <= 1_000_000) by (nonlinear_arith)
            requires
                -1000 <= c <= 1000,
        ;
        assert(0 <= a * a <= 1_000_000_000_000_000_000_000_000_000_000) by (nonlinear_arith)
            requires
                -100_000_000_000_000 <= a <= 100_000_000_000_000,
        ;
        assert(0 <= (c * c) * s <= 100_000_000_000_000_000_000_000_000) by (nonlinear_arith)
            requires
                0 <= c * c <= 1_000_000,
                0 <= s <= 100_000_000_000_000_000_000,
        ;
        assert(c * c * s == (c * c) * s) by (nonlinear_arith);
    }
    let outside = s > 0 && if c > 0 {
        a < 0 || a * a < (c * c) * s
    } else {
        a < 0 && a * a > (c * c) * s
    };
    if outside {
        return Some(HitResult::Foul);
    }
    if qy > config.ground_height as i128 {
        return None;
    }
    let r = config.sector.radius as i128;
    assert(0 <= r * r <= 1_000_000_000_000_000_000) by (nonlinear_arith)
        requires
            0 <= r <= 1_000_000_000,
    ;
    if qx * qx + qz * qz < r * r {
        Some(HitResult::SafeHit)
    } else {
        Some(HitResult::HomeRun)
    }
}

proof fn lemma_square_bound(x: int)
    requires
        -4 * COORD_LIMIT <= x <= 4 * COORD_LIMIT,
    ensures
        0 <= x * x <= 16_000_000_000_000_000_000,
{
    assert(0 <= x * x <= 16_000_000_000_000_000_000) by (nonlinear_arith)
        requires
            -4_000_000_000 <= x <= 4_000_000_000,
    ;
}

proof fn lemma_axis_product(d: int, x: int)
    requires
        -8000 <= d <= 8000,
        -4 * COORD_LIMIT <= x <= 4 * COORD_LIMIT,
    ensures
        -32_000_000_000_000 <= d * x <= 32_000_000_000_000,
{
    assert(-32_000_000_000_000 <= d * x <= 32_000_000_000_000) by (nonlinear_arith)
        requires
            -8000 <= d <= 8000,
            -4_000_000_000 <= x <= 4_000_000_000,
    ;
}

/// A fair ball at or below the ground is a safe hit when it lands closer to
/// the sector's position than the radius, horizontally, and a home run
/// otherwise.
pub proof fn lemma_landing(config: Config, p: Vec3)
    requires
        !cos_below(
            dot(config.sector.direction, offset(p, config.sector.position)),
            config.sector.angle_cos as int,
            dot(offset(p, config.sector.position), offset(p, config.sector.position)),
        ),
        offset(p, config.sector.position).y <= config.ground_height,
        0 <= config.sector.radius,
    ensures
        ({
            let q = offset(p, config.sector.position);
            let near = q.x * q.x + q.z * q.z < config.sector.radius * config.sector.radius;
            judge(config, p) == Some(if near { HitResult::SafeHit } else { HitResult::HomeRun })
        }),
{
}

/// A ball whose offset points straight down a unit sector direction is never
/// foul while the threshold is a cosine below one.
pub proof fn lemma_aligned_is_fair(config: Config, p: Vec3)
    requires
        norm2(config.sector.direction) == ONE * ONE,
        -ONE < config.sector.angle_cos < ONE,
        dot(config.sector.direction, offset(p, config.sector.position)) >= 0,
        dot(config.sector.direction, offset(p, config.sector.position)) * dot(
            config.sector.direction,
            offset(p, config.sector.position),
        ) == ONE * ONE * norm2(offset(p, config.sector.position)),
    ensures
        judge(config, p) != Some(HitResult::Foul),
{
    let q = offset(p, config.sector.position);
    let a = dot(config.sector.direction, q);
    let c = config.sector.angle_cos as int;
    let s = norm2(q);
    assert(s >= 0) by (nonlinear_arith)
        requires
            s == q.x * q.x + q.y * q.y + q.z * q.z,
    ;
    if s > 0 {
        assert(c * c * s < a * a) by (nonlinear_arith)
            requires
                -1000 < c < 1000,
                s > 0,
                a * a == 1000 * 1000 * s,
        ;
    }
}

/// A ball whose offset is at right angles to the sector direction is foul
/// whenever the fair cone is narrower than a half-space.
pub proof fn lemma_perpendicular_is_foul(config: Config, p: Vec3)
    requires
        config.sector.angle_cos > 0,
        dot(config.sector.direction, offset(p, config.sector.position)) == 0,
        norm2(offset(p, config.sector.position)) > 0,
    ensures
        judge(config, p) == Some(HitResult::Foul),
{
    let s = norm2(offset(p, config.sector.position));
    let c = config.sector.angle_cos as int;
    assert(0 < c * c * s) by (nonlinear_arith)
        requires
            c > 0,
            s > 0,
    ;
}

/// Once a judgement is given, every later query within the same hit window
/// reports the same result and the same judgement time.
pub proof fn lemma_result_frozen(s: HitBallView, t1: int, t2: int)
    requires
        s.wf(),
        s.step(t1).1 is Result,
        s.phase(t2) is Some,
    ensures
        ({
            let (s1, r1) = s.step(t1);
            let r2 = s1.step(t2).1;
            r2 is Result && r2->Result_result == r1->Result_result && r2->Result_judged_at
                == r1->Result_judged_at && s1.step(t2).0 == s1
        }),
{
}

} // verus!
