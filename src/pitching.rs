//! The pitcher: idle cycling, the pitch motion and the thrown ball.
use crate::bezier::{sequence_point, total_duration, BezierSequence, Curve};
use crate::fixed::{div_floor, floor_div, lemma_div_within, mod_floor, Vec3, ONE, TIME_LIMIT};
use vstd::prelude::*;

verus! {

/// Phase of the pitcher, in `[0, ONE)`.
#[derive(Clone, Copy, Debug, PartialEq, Eq, Structural)]
pub enum PitcherState {
    Idle(i64),
    Pitching(i64),
}

/// What the pitcher shows at one instant, and where the ball is, if thrown.
#[derive(Clone, Copy, Debug, PartialEq, Eq, Structural)]
pub struct PitchingState {
    pub pitcher: PitcherState,
    pub ball_position: Option<Vec3>,
}

/// Phase within a repeating cycle of length `d`, `x` milliseconds after its origin.
pub open spec fn cycle_phase(x: int, d: int) -> int {
    floor_div((x % d) * ONE, d)
}

/// The first multiple of `d` after `offset` that is at or after `timestamp`.
pub open spec fn next_break(offset: int, timestamp: int, d: int) -> int {
    floor_div(timestamp - offset + d - 1, d) * d + offset
}

pub open spec fn time_ok(t: int) -> bool {
    -TIME_LIMIT <= t <= TIME_LIMIT
}

/// Timing of the pitcher and the path of the ball.
pub struct PitchingConfigImpl {
    curve: BezierSequence,
    idle_duration: i64,
    pitching_duration: i64,
    throws_at: i64,
    ball_duration: i64,
    pitcher_position: Vec3,
}

impl PitchingConfigImpl {
    pub closed spec fn curve_spec(&self) -> BezierSequence {
        self.curve
    }

    pub closed spec fn idle_spec(&self) -> int {
        self.idle_duration as int
    }

    pub closed spec fn pitching_spec(&self) -> int {
        self.pitching_duration as int
    }

    pub closed spec fn throws_at_spec(&self) -> int {
        self.throws_at as int
    }

    pub closed spec fn ball_duration_spec(&self) -> int {
        self.ball_duration as int
    }

    pub open spec fn wf(&self) -> bool {
        &&& self.curve_spec().wf()
        &&& 0 < self.idle_spec() <= TIME_LIMIT
        &&& 0 < self.pitching_spec() <= TIME_LIMIT
        &&& 0 <= self.throws_at_spec() <= TIME_LIMIT
        &&& 0 < self.ball_duration_spec() <= TIME_LIMIT
    }

    /// Position of the ball at ball phase `t` in `[0, ONE]`.
    pub open spec fn ball_position_spec(&self, t: int) -> Option<Vec3> {
        let c = self.curve_spec().segments();
        sequence_point(c, floor_div(total_duration(c) * t, ONE as int), false)
    }

    /// Pitcher and ball, `time` after the pitch began (`delta >= 0`).
    pub open spec fn pitched_state(&self, delta: int) -> PitchingState {
        let b = delta - self.throws_at_spec();
        PitchingState {
            pitcher: if delta < self.pitching_spec() {
                PitcherState::Pitching(floor_div(delta * ONE, self.pitching_spec()) as i64)
            } else {
                PitcherState::Idle(
                    cycle_phase(delta - self.pitching_spec(), self.idle_spec()) as i64,
                )
            },
            ball_position: if 0 <= b <= self.ball_duration_spec() {
                self.ball_position_spec(floor_div(b * ONE, self.ball_duration_spec()))
            } else {
                None
            },
        }
    }

    pub fn new(
        curve: BezierSequence,
        idle_duration: i64,
        pitching_duration: i64,
        throws_at: i64,
        ball_duration: i64,
        pitcher_position: Vec3,
    ) -> (r: PitchingConfigImpl)
        requires
            curve.wf(),
            0 < idle_duration <= TIME_LIMIT,
            0 < pitching_duration <= TIME_LIMIT,
            0 <= throws_at <= TIME_LIMIT,
            0 < ball_duration <= TIME_LIMIT,
        ensures
            r.wf(),
            r.curve_spec() == curve,
            r.idle_spec() == idle_duration,
            r.pitching_spec() == pitching_duration,
            r.throws_at_spec() == throws_at,
            r.ball_duration_spec() == ball_duration,
    {
        PitchingConfigImpl {
            curve,
            idle_duration,
            pitching_duration,
            throws_at,
            ball_duration,
            pitcher_position,
        }
    }

    /// The next idle-cycle boundary at or after `timestamp`.
    pub fn next_idle_break(&self, offset: i64, timestamp: i64) -> (r: i64)
        requires
            self.wf(),
            time_ok(offset as int),
            time_ok(timestamp as int),
        ensures
            r == next_break(offset as int, timestamp as int, self.idle_spec()),
            timestamp <= r < timestamp + self.idle_spec(),
    {
        let d = self.idle_duration as i128;
        let x = timestamp as i128 - offset as i128;
        let k = div_floor(x + d - 1, d);
        proof {
            let xi = x as int;
            let di = d as int;
            vstd::arithmetic::div_mod::lemma_fundamental_div_mod(xi + di - 1, di);
            vstd::arithmetic::div_mod::lemma_mod_bound(xi + di - 1, di);
            assert(k * di == di * k) by (nonlinear_arith);
            assert(xi <= k * di < xi + di);
        }
        (k * d + offset as i128) as i64
    }

    /// Idle phase before a pitch: `time` is measured from the cycle origin `offset`.
    pub fn pre_idle_parameter(&self, offset: i64, time: i64) -> (r: i64)
        requires
            self.wf(),
            time_ok(offset as int),
            time_ok(time as int),
        ensures
            r == cycle_phase(time - offset, self.idle_spec()),
            0 <= r < ONE,
    {
        self.cycle(time as i128 - offset as i128)
    }

    /// Idle phase after the pitch motion, `time` after the pitch began.
    pub fn post_idle_parameter(&self, time: i64) -> (r: i64)
        requires
            self.wf(),
            -3 * TIME_LIMIT <= time <= 3 * TIME_LIMIT,
        ensures
            r == if time < self.pitching_spec() {
                0
            } else {
                cycle_phase(time - self.pitching_spec(), self.idle_spec())
            },
            0 <= r < ONE,
    {
        let t = time as i128 - self.pitching_duration as i128;
        if t < 0 {
            0
        } else {
            self.cycle(t)
        }
    }

    fn cycle(&self, x: i128) -> (r: i64)
        requires
            self.wf(),
            -4 * TIME_LIMIT <= x <= 4 * TIME_LIMIT,
        ensures
            r == cycle_phase(x as int, self.idle_spec()),
            0 <= r < ONE,
    {
        let d = self.idle_duration as i128;
        let m = mod_floor(x, d);
        assert(0 <= m * 1000 < d * 1000) by (nonlinear_arith)
            requires
                0 <= m < d,
        ;
        let r = div_floor(m * 1000, d);
        proof {
            vstd::arithmetic::div_mod::lemma_div_is_ordered(0, m * 1000, d as int);
            vstd::arithmetic::div_mod::lemma_div_by_multiple_is_strongly_ordered(
                m * 1000,
                d * 1000,
                1000,
                d as int,
            );
            assert(d * 1000 == 1000 * d) by (nonlinear_arith);
            vstd::arithmetic::div_mod::lemma_div_multiples_vanish(1000, d as int);
        }
        r as i64
    }

    /// Phase of the pitch motion, `time` after the pitch began: it is below
    /// `ONE` exactly while the motion lasts.
    pub fn pitching_parameter(&self, time: i64) -> (r: i64)
        requires
            self.wf(),
            0 <= time <= 3 * TIME_LIMIT,
        ensures
            r == floor_div(time * ONE, self.pitching_spec()),
            0 <= r,
            time < self.pitching_spec() ==> r < ONE,
    {
        let d = self.pitching_duration as i128;
        let r = div_floor(time as i128 * 1000, d);
        proof {
            lemma_div_within(time * 1000, d as int);
            if time < d {
                lemma_phase_bounds(time as int, d as int);
            }
        }
        r as i64
    }

    /// Phase of the ball's flight, `time` after the pitch began: the ball
    /// flies while it lies within `[0, ONE]`.
    pub fn ball_parameter(&self, time: i64) -> (r: i64)
        requires
            self.wf(),
            0 <= time <= 3 * TIME_LIMIT,
        ensures
            r == floor_div((time - self.throws_at_spec()) * ONE, self.ball_duration_spec()),
            self.throws_at_spec() <= time <= self.throws_at_spec() + self.ball_duration_spec()
                ==> 0 <= r <= ONE,
    {
        let d = self.ball_duration as i128;
        let b = time as i128 - self.throws_at as i128;
        let r = div_floor(b * 1000, d);
        proof {
            lemma_div_within(b * 1000, d as int);
            if 0 <= b <= d {
                lemma_phase_bounds(b as int, d as int);
            }
        }
        r as i64
    }

    /// Position of the ball at ball phase `t`.
    pub fn ball_position(&self, t: i64) -> (r: Option<Vec3>)
        requires
            self.wf(),
            0 <= t <= ONE,
        ensures
            r == self.ball_position_spec(t as int),
    {
        let total = self.curve.duration();
        proof {
            assert(0 <= total * t <= TIME_LIMIT * 1000) by (nonlinear_arith)
                requires
                    0 <= total <= TIME_LIMIT,
                    0 <= t <= 1000,
            ;
        }
        let at = div_floor(total as i128 * t as i128, 1000);
        proof {
            vstd::arithmetic::div_mod::lemma_div_is_ordered(0, total * t, 1000);
            vstd::arithmetic::div_mod::lemma_div_is_ordered(total * t, TIME_LIMIT * 1000, 1000);
        }
        self.curve.calc_point(at as i64, false)
    }
}

proof fn lemma_phase_bounds(x: int, d: int)
    requires
        0 <= x <= d,
        d > 0,
    ensures
        0 <= floor_div(x * ONE, d) <= ONE,
        x < d ==> floor_div(x * ONE, d) < ONE,
{
    assert(0 <= x * 1000 <= d * 1000) by (nonlinear_arith)
        requires
            0 <= x <= d,
    ;
    vstd::arithmetic::div_mod::lemma_div_is_ordered(0, x * 1000, d);
    vstd::arithmetic::div_mod::lemma_div_is_ordered(x * 1000, d * 1000, d);
    assert(d * 1000 == 1000 * d) by (nonlinear_arith);
    vstd::arithmetic::div_mod::lemma_div_multiples_vanish(1000, d);
    if x < d {
        assert(x * 1000 < d * 1000) by (nonlinear_arith)
            requires
                x < d,
        ;
        vstd::arithmetic::div_mod::lemma_div_by_multiple_is_strongly_ordered(
            x * 1000,
            d * 1000,
            1000,
            d,
        );
    }
}

impl PitchingConfigImpl {
    /// The game's pitcher: a 300 ms idle cycle, a 500 ms pitch motion that
    /// releases the ball after 200 ms, and one second of flight along a
    /// straight 333 ms path towards the batter (lengths in millimetres).
    pub fn default() -> (r: PitchingConfigImpl)
        ensures
            r.wf(),
            r.idle_spec() == 300,
            r.pitching_spec() == 500,
            r.throws_at_spec() == 200,
            r.ball_duration_spec() == 1000,
            r.curve_spec().segments() == seq![
                Curve {
                    t_duration: 333,
                    t_p: None,
                    p_0: Vec3 { x: 0, y: -600i64, z: 2000 },
                    p_1: Vec3 { x: 0, y: -600i64, z: 3000 },
                    p_2: Vec3 { x: 0, y: -600i64, z: 4000 },
                    p_3: Vec3 { x: 0, y: -600i64, z: 5000 },
                },
            ],
    {
        let mut curves: Vec<Curve> = Vec::new();
        curves.push(
            Curve {
                t_duration: 333,
                t_p: None,
                p_0: Vec3 { x: 0, y: -600i64, z: 2000 },
                p_1: Vec3 { x: 0, y: -600i64, z: 3000 },
                p_2: Vec3 { x: 0, y: -600i64, z: 4000 },
                p_3: Vec3 { x: 0, y: -600i64, z: 5000 },
            },
        );
        proof {
            let cs = curves@;
            assert(cs.drop_last() =~= Seq::<Curve>::empty());
            assert(total_duration(cs.drop_last()) == 0);
            assert(cs.last().t_duration == 333);
            assert(total_duration(cs) == 333);
            assert(cs =~= seq![
                Curve {
                    t_duration: 333,
                    t_p: None,
                    p_0: Vec3 { x: 0, y: -600i64, z: 2000 },
                    p_1: Vec3 { x: 0, y: -600i64, z: 3000 },
                    p_2: Vec3 { x: 0, y: -600i64, z: 4000 },
                    p_3: Vec3 { x: 0, y: -600i64, z: 5000 },
                },
            ]);
        }
        let curve = BezierSequence::new(curves);
        PitchingConfigImpl::new(curve, 300, 500, 200, 1000, Vec3 { x: 0, y: 0, z: 2000 })
    }
}

/// The pitcher state machine. Everything it reports is recomputed from the
/// idle-cycle origin and the time the active pitch began.
pub struct PitchingImpl {
    config: PitchingConfigImpl,
    idle_offset: i64,
    pitched_at: Option<i64>,
    is_pitching: bool,
}

impl PitchingImpl {
    pub closed spec fn config_spec(&self) -> PitchingConfigImpl {
        self.config
    }

    pub closed spec fn idle_offset_spec(&self) -> int {
        self.idle_offset as int
    }

    /// Start of the active pitch, if any.
    pub closed spec fn pitched_at_spec(&self) -> Option<int> {
        match self.pitched_at {
            Some(p) => Some(p as int),
            None => None,
        }
    }

    /// Whether a pitch is under way, so that a new one is not accepted.
    pub closed spec fn is_pitching_spec(&self) -> bool {
        self.is_pitching
    }

    pub open spec fn wf(&self) -> bool {
        &&& self.config_spec().wf()
        &&& time_ok(self.idle_offset_spec())
        &&& match self.pitched_at_spec() {
            Some(p) => -TIME_LIMIT <= p <= 2 * TIME_LIMIT,
            None => true,
        }
    }

    /// What the pitcher shows at `time`.
    pub open spec fn state_at(&self, time: int) -> PitchingState {
        let c = self.config_spec();
        let idle = PitchingState {
            pitcher: PitcherState::Idle(
                cycle_phase(time - self.idle_offset_spec(), c.idle_spec()) as i64,
            ),
            ball_position: None,
        };
        match self.pitched_at_spec() {
            Some(p) => if time >= p {
                c.pitched_state(time - p)
            } else {
                idle
            },
            None => idle,
        }
    }

    /// Whether a report lets a new pitch begin: no ball and an idle pitcher.
    pub open spec fn releases(s: PitchingState) -> bool {
        s.ball_position is None && s.pitcher is Idle
    }

    pub fn new(config: PitchingConfigImpl) -> (r: PitchingImpl)
        requires
            config.wf(),
        ensures
            r.wf(),
            r.config_spec() == config,
            r.idle_offset_spec() == 0,
            r.pitched_at_spec() is None,
            !r.is_pitching_spec(),
    {
        PitchingImpl { config, idle_offset: 0, pitched_at: None, is_pitching: false }
    }

    /// Sets the origin of the idle cycle.
    pub fn reset_idle(&mut self, timestamp: i64)
        requires
            old(self).wf(),
            time_ok(timestamp as int),
        ensures
            final(self).wf(),
            final(self).idle_offset_spec() == timestamp,
            final(self).config_spec() == old(self).config_spec(),
            final(self).pitched_at_spec() == old(self).pitched_at_spec(),
            final(self).is_pitching_spec() == old(self).is_pitching_spec(),
    {
        self.idle_offset = timestamp;
    }

    /// Schedules a pitch at the next idle-cycle boundary at or after
    /// `timestamp`; does nothing while a pitch is under way.
    pub fn pitch(&mut self, timestamp: i64)
        requires
            old(self).wf(),
            time_ok(timestamp as int),
        ensures
            final(self).wf(),
            final(self).config_spec() == old(self).config_spec(),
            final(self).idle_offset_spec() == old(self).idle_offset_spec(),
            final(self).is_pitching_spec(),
            final(self).pitched_at_spec() == if old(self).is_pitching_spec() {
                old(self).pitched_at_spec()
            } else {
                Some(
                    next_break(
                        old(self).idle_offset_spec(),
                        timestamp as int,
                        old(self).config_spec().idle_spec(),
                    ),
                )
            },
    {
        if !self.is_pitching {
            let p = self.config.next_idle_break(self.idle_offset, timestamp);
            self.pitched_at = Some(p);
            self.is_pitching = true;
        }
    }

    /// Cancels the active pitch at once; the next `pitch` is accepted.
    pub fn end(&mut self)
        requires
            old(self).wf(),
        ensures
            final(self).wf(),
            final(self).config_spec() == old(self).config_spec(),
            final(self).idle_offset_spec() == old(self).idle_offset_spec(),
            !final(self).is_pitching_spec(),
            final(self).pitched_at_spec() is None,
    {
        self.pitched_at = None;
        self.is_pitching = false;
    }

    /// The pitcher and ball at `time`; a pitch under way ends once the report
    /// shows no ball and an idle pitcher.
    pub fn update(&mut self, time: i64) -> (r: PitchingState)
        requires
            old(self).wf(),
            time_ok(time as int),
        ensures
            final(self).wf(),
            r == old(self).state_at(time as int),
            final(self).config_spec() == old(self).config_spec(),
            final(self).idle_offset_spec() == old(self).idle_offset_spec(),
            final(self).pitched_at_spec() == old(self).pitched_at_spec(),
            final(self).is_pitching_spec() == (old(self).is_pitching_spec() && !Self::releases(r)),
    {
        let idle = PitchingState {
            pitcher: PitcherState::Idle(self.config.pre_idle_parameter(self.idle_offset, time)),
            ball_position: None,
        };
        let r = match self.pitched_at {
            Some(p) => if time >= p {
                let delta = time - p;
                let b = delta - self.config.throws_at;
                let ball_position = if 0 <= b && b <= self.config.ball_duration {
                    let t = self.config.ball_parameter(delta);
                    self.config.ball_position(t)
                } else {
                    None
                };
                let pitcher = if delta < self.config.pitching_duration {
                    PitcherState::Pitching(self.config.pitching_parameter(delta))
                } else {
                    PitcherState::Idle(self.config.post_idle_parameter(delta))
                };
                PitchingState { pitcher, ball_position }
            } else {
                idle
            },
            None => idle,
        };
        if r.ball_position.is_none() && matches!(r.pitcher, PitcherState::Idle(_)) {
            self.is_pitching = false;
        }
        r
    }
}

} // verus!
