use batting_sim::fixed::Vec3;
use batting_sim::frame::HitInfo;
use batting_sim::hit_ball::{Config, HitBallImpl, HitBallState, HitResult, Sector};

fn config(radius: i64) -> Config {
    Config {
        duration: 1000,
        ground_height: 0,
        gravity: -2000,
        launch_speed: 100_000,
        sector: Sector {
            position: Vec3::new(0, 0, 0),
            direction: Vec3::new(0, 0, 1000),
            angle_cos: 866,
            radius,
        },
    }
}

fn info(normal: Vec3) -> HitInfo {
    HitInfo {
        x_axis: Vec3::new(1000, 0, 0),
        y_axis: Vec3::new(0, 1000, 0),
        z_axis: normal,
        origin: Vec3::new(0, 0, 0),
        meet_position: (0, 0),
    }
}

fn result(s: &HitBallState) -> Option<(HitResult, i64)> {
    match s {
        HitBallState::Result { result, judged_at, .. } => Some((*result, *judged_at)),
        _ => None,
    }
}

#[test]
fn idle_before_any_hit() {
    let mut h = HitBallImpl::new(config(1000));
    assert_eq!(h.update(0), HitBallState::Idle {});
}

#[test]
fn config_validity() {
    assert!(config(1000).is_valid());
    let mut c = config(1000);
    c.duration = 0;
    assert!(!c.is_valid());
}

#[test]
fn ball_down_the_direction_is_fair_and_safe_within_radius() {
    let mut h = HitBallImpl::new(config(1000));
    h.hit(0, info(Vec3::new(0, 0, 1000)));
    match h.update(1) {
        HitBallState::Result { position, result, judged_at } => {
            assert_eq!(position, Vec3::new(0, -1, 100));
            assert_eq!(result, HitResult::SafeHit);
            assert_eq!(judged_at, 1);
        }
        other => panic!("unexpected {:?}", other),
    }
}

#[test]
fn ball_at_right_angle_is_foul() {
    let mut h = HitBallImpl::new(config(1000));
    h.hit(0, info(Vec3::new(1000, 0, 0)));
    assert_eq!(result(&h.update(1)), Some((HitResult::Foul, 1)));
}

#[test]
fn ball_landing_beyond_radius_is_home_run() {
    let mut h = HitBallImpl::new(config(50));
    h.hit(0, info(Vec3::new(0, 0, 1000)));
    assert_eq!(result(&h.update(1)), Some((HitResult::HomeRun, 1)));
}

#[test]
fn ball_above_ground_is_flying() {
    let mut h = HitBallImpl::new(config(1000));
    h.hit(0, info(Vec3::new(0, 300, 1000)));
    assert_eq!(h.update(1), HitBallState::Frying { position: Vec3::new(0, 29, 100) });
    assert_eq!(h.update(500), HitBallState::Frying { position: Vec3::new(0, 14_750, 50_000) });
}

#[test]
fn judgement_is_frozen_within_window() {
    let mut h = HitBallImpl::new(config(1000));
    h.hit(0, info(Vec3::new(0, 0, 1000)));
    assert_eq!(result(&h.update(1)), Some((HitResult::SafeHit, 1)));
    match h.update(500) {
        HitBallState::Result { position, result, judged_at } => {
            assert_eq!(position, Vec3::new(0, -250, 50_000));
            assert_eq!(result, HitResult::SafeHit);
            assert_eq!(judged_at, 1);
        }
        other => panic!("unexpected {:?}", other),
    }
}

#[test]
fn window_end_clears_judgement() {
    let mut h = HitBallImpl::new(config(1000));
    h.hit(0, info(Vec3::new(0, 0, 1000)));
    h.update(1);
    assert_eq!(h.update(1001), HitBallState::Idle {});
    assert_eq!(result(&h.update(1)), Some((HitResult::SafeHit, 1)));
}
