use batting_sim::batting::{BattingConfigImpl, BattingImpl, BattingState};
use batting_sim::fixed::Vec3;
use batting_sim::frame::{isqrt, Rotation};

fn identity() -> Rotation {
    Rotation {
        row_0: Vec3::new(1000, 0, 0),
        row_1: Vec3::new(0, 1000, 0),
        row_2: Vec3::new(0, 0, 1000),
    }
}

fn config() -> BattingConfigImpl {
    let mut c = BattingConfigImpl {
        swing_duration: 400,
        swing_active: (300, 800),
        batting_area_center: Vec3::new(0, 0, 0),
        batting_area_u_axis: Vec3::new(2, 0, 0),
        batting_area_v_axis: Vec3::new(0, 0, 5),
        batting_area_rect: (300, 500),
        arm_rot_pivot: Vec3::new(0, 1000, 0),
        arm_rot_axis: Vec3::new(0, 1000, 1000),
        arm_angle_range: (0, 1046, 2092, 3141),
        bat_rot_pivot: Vec3::new(-500, 0, 0),
        bat_rot_axis: Vec3::new(0, 7, 0),
        bat_angle_range: (0, 628, 1256, 1884),
        bat_center: Vec3::new(0, 0, 0),
        bat_length: 500,
        bat_width: 200,
    };
    c.init();
    c
}

fn batter() -> BattingImpl {
    BattingImpl::new(config())
}

fn meet(s: &BattingState) -> Option<(i64, i64)> {
    match s {
        BattingState::Hit(info) => Some(info.meet_position),
        _ => None,
    }
}

fn degree(s: &BattingState) -> Option<i64> {
    match s {
        BattingState::Swinging { swing_degree, .. } => Some(*swing_degree),
        _ => None,
    }
}

#[test]
fn init_normalizes_axes() {
    let c = config();
    assert_eq!(c.batting_area_u_axis, Vec3::new(1000, 0, 0));
    assert_eq!(c.bat_rot_axis, Vec3::new(0, 1000, 0));
    assert_eq!(c.arm_rot_axis, Vec3::new(0, 707, 707));
}

#[test]
fn integer_square_root() {
    assert_eq!(isqrt(0), 0);
    assert_eq!(isqrt(24), 4);
    assert_eq!(isqrt(25), 5);
    assert_eq!(isqrt(1_000_000_000_000), 1_000_000);
}

#[test]
fn batter_is_clamped_into_area() {
    let c = config();
    assert_eq!(c.constrain_batting_area(&Vec3::new(100, 40, -200)), Vec3::new(100, 40, -200));
    assert_eq!(c.constrain_batting_area(&Vec3::new(900, 40, -900)), Vec3::new(300, 40, -500));
}

#[test]
fn frame_with_identity_rotations() {
    let c = config();
    let f = c.bat_coord(&identity(), &identity());
    assert_eq!(f.origin, Vec3::new(0, 0, 0));
    assert_eq!(f.x_axis, Vec3::new(1000, 0, 0));
    assert_eq!(f.y_axis, Vec3::new(0, 1000, 0));
    assert_eq!(f.z_axis, Vec3::new(0, 0, -1000));
}

#[test]
fn swing_angles_follow_easing() {
    let c = config();
    assert_eq!(c.arm_angle(0), 0);
    assert_eq!(c.arm_angle(1000), 3141);
    assert_eq!(c.bat_angle(1000), 1884);
    assert!(c.is_active_swing_time(500));
    assert!(!c.is_active_swing_time(300));
    assert!(c.is_valid_meet(250, -100));
    assert!(!c.is_valid_meet(251, 0));
}

#[test]
fn idle_without_swing_or_ball() {
    let mut b = batter();
    b.set_batter_position(Vec3::new(900, 0, 0));
    match b.update(0, Some(Vec3::new(0, 0, 0)), &identity(), &identity()) {
        BattingState::Idle { batter } => assert_eq!(batter, Vec3::new(300, 0, 0)),
        _ => panic!("expected idle"),
    }
    b.swing(0);
    assert!(matches!(b.update(100, None, &identity(), &identity()), BattingState::Idle { .. }));
}

#[test]
fn second_swing_keeps_start() {
    let mut b = batter();
    b.swing(0);
    b.swing(100);
    let s = b.update(200, Some(Vec3::new(0, 0, -900)), &identity(), &identity());
    assert_eq!(degree(&s), Some(500));
}

#[test]
fn batter_frozen_during_swing() {
    let mut b = batter();
    b.swing(0);
    b.set_batter_position(Vec3::new(100, 0, 0));
    match b.update(50, Some(Vec3::new(0, 0, -900)), &identity(), &identity()) {
        BattingState::Swinging { batter, .. } => assert_eq!(batter, Vec3::new(0, 0, 0)),
        _ => panic!("expected swinging"),
    }
}

#[test]
fn crossing_gives_one_hit_at_interpolated_point() {
    let mut b = batter();
    b.swing(0);
    let first = b.update(200, Some(Vec3::new(10, 20, -100)), &identity(), &identity());
    assert_eq!(degree(&first), Some(500));
    let second = b.update(210, Some(Vec3::new(40, -10, 50)), &identity(), &identity());
    assert_eq!(meet(&second), Some((30, 0)));
    let third = b.update(220, Some(Vec3::new(40, -10, 80)), &identity(), &identity());
    assert_eq!(meet(&third), None);
    assert_eq!(degree(&third), Some(550));
}

#[test]
fn miss_outside_bat_face() {
    let mut b = batter();
    b.swing(0);
    b.update(200, Some(Vec3::new(10, 20, -100)), &identity(), &identity());
    let s = b.update(210, Some(Vec3::new(400, -10, 50)), &identity(), &identity());
    assert_eq!(meet(&s), None);
    assert_eq!(degree(&s), Some(525));
}

#[test]
fn no_contact_outside_active_window() {
    let mut b = batter();
    b.swing(0);
    let s = b.update(40, Some(Vec3::new(0, 0, 50)), &identity(), &identity());
    assert_eq!(degree(&s), Some(100));
    assert!(matches!(b.update(401, Some(Vec3::new(0, 0, 0)), &identity(), &identity()), BattingState::Idle { .. }));
}

#[test]
fn swing_phase_within_swing() {
    let mut b = batter();
    assert_eq!(b.swing_phase(0), None);
    b.swing(100);
    assert_eq!(b.swing_phase(99), None);
    assert_eq!(b.swing_phase(300), Some(500));
    assert_eq!(b.swing_phase(500), Some(1000));
    assert_eq!(b.swing_phase(501), None);
    assert_eq!(b.config().swing_duration, 400);
}

#[test]
fn default_config_frame_at_rest() {
    let c = BattingConfigImpl::default();
    assert_eq!(c.arm_rot_axis, Vec3::new(0, 707, 707));
    assert_eq!(c.bat_rot_axis, Vec3::new(1000, 0, 0));
    let f = c.bat_coord(&identity(), &identity());
    assert_eq!(f.origin, Vec3::new(0, 1500, -200));
    assert_eq!(f.x_axis, Vec3::new(0, 1000, 0));
    assert_eq!(f.y_axis, Vec3::new(1000, 0, 0));
    assert_eq!(f.z_axis, Vec3::new(0, 0, 1000));
    assert_eq!(c.constrain_batting_area(&Vec3::new(0, 0, 0)), Vec3::new(0, 0, 300));
}

#[test]
fn hit_stays_final_after_ball_is_lost() {
    let mut b = batter();
    b.swing(0);
    b.update(200, Some(Vec3::new(10, 20, -100)), &identity(), &identity());
    let hit = b.update(210, Some(Vec3::new(40, -10, 50)), &identity(), &identity());
    assert_eq!(meet(&hit), Some((30, 0)));
    assert!(matches!(b.update(215, None, &identity(), &identity()), BattingState::Idle { .. }));
    b.update(218, Some(Vec3::new(10, 20, -100)), &identity(), &identity());
    let again = b.update(220, Some(Vec3::new(40, -10, 50)), &identity(), &identity());
    assert_eq!(meet(&again), None);
    assert_eq!(degree(&again), Some(550));
}

#[test]
fn new_swing_can_hit_again() {
    let mut b = batter();
    b.swing(0);
    b.update(200, Some(Vec3::new(10, 20, -100)), &identity(), &identity());
    b.update(210, Some(Vec3::new(40, -10, 50)), &identity(), &identity());
    assert!(matches!(b.update(500, Some(Vec3::new(0, 0, 0)), &identity(), &identity()), BattingState::Idle { .. }));
    b.swing(1000);
    b.update(1200, Some(Vec3::new(10, 20, -100)), &identity(), &identity());
    let hit = b.update(1210, Some(Vec3::new(40, -10, 50)), &identity(), &identity());
    assert_eq!(meet(&hit), Some((30, 0)));
}

#[test]
fn swing_phase_formula_outside_swing() {
    let c = config();
    assert_eq!(c.normalized_time(-100), -250);
    assert_eq!(c.normalized_time(500), 1250);
}
