use batting_sim::fixed::Vec3;
use batting_sim::pitching::{PitcherState, PitchingConfigImpl, PitchingImpl};

fn pitcher() -> PitchingImpl {
    PitchingImpl::new(PitchingConfigImpl::default())
}

#[test]
fn pitch_follows_reference_timing() {
    let mut p = pitcher();
    p.pitch(600);
    let s = p.update(600);
    assert_eq!(s.pitcher, PitcherState::Pitching(0));
    assert_eq!(s.ball_position, None);
    assert_eq!(p.update(1099).pitcher, PitcherState::Pitching(998));
    assert_eq!(p.update(1100).pitcher, PitcherState::Idle(0));
}

#[test]
fn ball_flies_only_within_its_window() {
    let mut p = pitcher();
    p.pitch(600);
    assert_eq!(p.update(799).ball_position, None);
    assert_eq!(p.update(800).ball_position, Some(Vec3::new(0, -600, 2000)));
    assert_eq!(p.update(1800).ball_position, Some(Vec3::new(0, -600, 5000)));
    assert_eq!(p.update(1801).ball_position, None);
}

#[test]
fn pitch_waits_for_next_idle_boundary() {
    let mut p = pitcher();
    p.pitch(601);
    assert_eq!(p.update(899).pitcher, PitcherState::Idle(996));
    assert_eq!(p.update(900).pitcher, PitcherState::Pitching(0));
}

#[test]
fn next_idle_break_rounds_up_to_cycle() {
    let c = PitchingConfigImpl::default();
    assert_eq!(c.next_idle_break(0, 600), 600);
    assert_eq!(c.next_idle_break(0, 601), 900);
    assert_eq!(c.next_idle_break(50, 0), 50);
    assert_eq!(c.next_idle_break(100, -450), -200);
}

#[test]
fn idle_phase_cycles_from_offset() {
    let mut p = pitcher();
    assert_eq!(p.update(450).pitcher, PitcherState::Idle(500));
    p.reset_idle(100);
    assert_eq!(p.update(175).pitcher, PitcherState::Idle(250));
    assert_eq!(p.update(25).pitcher, PitcherState::Idle(750));
}

#[test]
fn second_pitch_while_pitching_is_ignored() {
    let mut p = pitcher();
    p.pitch(600);
    assert_eq!(p.update(700).pitcher, PitcherState::Pitching(200));
    p.pitch(900);
    assert_eq!(p.update(700).pitcher, PitcherState::Pitching(200));
}

#[test]
fn new_pitch_accepted_after_release() {
    let mut p = pitcher();
    p.pitch(600);
    p.update(1000);
    p.update(1801);
    p.pitch(2000);
    assert_eq!(p.update(2100).pitcher, PitcherState::Pitching(0));
}

#[test]
fn end_cancels_pitch() {
    let mut p = pitcher();
    p.pitch(600);
    p.end();
    let s = p.update(900);
    assert_eq!(s.pitcher, PitcherState::Idle(0));
    assert_eq!(s.ball_position, None);
}

#[test]
fn post_idle_phase_after_motion() {
    let c = PitchingConfigImpl::default();
    assert_eq!(c.post_idle_parameter(400), 0);
    assert_eq!(c.post_idle_parameter(650), 500);
    assert_eq!(c.pitching_parameter(250), 500);
    assert_eq!(c.ball_parameter(700), 500);
    assert_eq!(c.ball_position(1000), Some(Vec3::new(0, -600, 5000)));
}

#[test]
fn end_lets_next_pitch_start() {
    let mut p = pitcher();
    p.pitch(600);
    assert_eq!(p.update(700).pitcher, PitcherState::Pitching(200));
    p.end();
    p.pitch(900);
    assert_eq!(p.update(900).pitcher, PitcherState::Pitching(0));
}

#[test]
fn phases_outside_their_windows() {
    let c = PitchingConfigImpl::default();
    assert_eq!(c.pitching_parameter(750), 1500);
    assert_eq!(c.ball_parameter(100), -100);
    assert_eq!(c.ball_parameter(1500), 1300);
}
