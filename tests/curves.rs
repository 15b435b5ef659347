use batting_sim::bezier::{bezier_scalar, bezier_slice, BezierSequence, Curve};
use batting_sim::fixed::Vec3;

fn v(x: i64) -> Vec3 {
    Vec3::new(x, 0, 0)
}

fn two_segments() -> BezierSequence {
    BezierSequence::new(vec![
        Curve { t_duration: 100, t_p: None, p_0: v(0), p_1: v(100), p_2: v(200), p_3: v(300) },
        Curve { t_duration: 200, t_p: None, p_0: v(300), p_1: v(500), p_2: v(700), p_3: v(900) },
    ])
}

#[test]
fn bezier_starts_and_ends_at_end_points() {
    assert_eq!(bezier_scalar(0, (1, 2, 3, 4)), 1);
    assert_eq!(bezier_scalar(1000, (1, 2, 3, 4)), 4);
    assert_eq!(bezier_scalar(0, (-7, 50, -50, 9)), -7);
    assert_eq!(bezier_scalar(1000, (-7, 50, -50, 9)), 9);
}

#[test]
fn bezier_midpoint_of_symmetric_easing() {
    assert_eq!(bezier_scalar(500, (0, 0, 1000, 1000)), 500);
    assert_eq!(bezier_scalar(250, (0, 0, 1000, 1000)), 156);
}

#[test]
fn bezier_rounds_down_for_negative_values() {
    assert_eq!(bezier_scalar(500, (-1, -1, -1, -2)), -2);
}

#[test]
fn easing_never_decreases() {
    let mut last = bezier_scalar(0, (0, 200, 900, 1000));
    let mut t = 10;
    while t <= 1000 {
        let e = bezier_scalar(t, (0, 200, 900, 1000));
        assert!(e >= last);
        last = e;
        t += 10;
    }
    assert_eq!(last, 1000);
}

#[test]
fn bezier_slice_fills_shared_prefix() {
    let mut out = vec![9, 9, 9, 9];
    bezier_slice(500, &mut out, &[0, 10], &[0, 10], &[0, 10], &[1000, 10, 5]);
    assert_eq!(out, vec![125, 10, 9, 9]);
}

#[test]
fn sequence_duration_is_sum_of_segments() {
    assert_eq!(two_segments().duration(), 300);
}

#[test]
fn sequence_points_on_segments() {
    let s = two_segments();
    assert_eq!(s.calc_point(0, false), Some(v(0)));
    assert_eq!(s.calc_point(100, false), Some(v(300)));
    assert_eq!(s.calc_point(150, false), Some(v(450)));
    assert_eq!(s.calc_point(300, false), Some(v(900)));
}

#[test]
fn sequence_ends_without_looping() {
    let s = two_segments();
    assert_eq!(s.calc_point(301, false), None);
    assert_eq!(s.calc_point(-1, false), None);
}

#[test]
fn sequence_repeats_when_looping() {
    let s = two_segments();
    assert_eq!(s.calc_point(301, true), s.calc_point(1, true));
    assert_eq!(s.calc_point(450, true), s.calc_point(150, true));
    assert_eq!(s.calc_point(450, true), Some(v(450)));
    assert_eq!(s.calc_point(900, true), Some(v(0)));
}

#[test]
fn empty_sequence_has_no_points() {
    let s = BezierSequence::new(vec![]);
    assert_eq!(s.duration(), 0);
    assert_eq!(s.calc_point(0, false), None);
    assert_eq!(s.calc_point(10, true), None);
}

#[test]
fn segment_easing_remaps_progress() {
    let s = BezierSequence::new(vec![Curve {
        t_duration: 100,
        t_p: Some((0, 1000)),
        p_0: v(0),
        p_1: v(100),
        p_2: v(200),
        p_3: v(300),
    }]);
    assert_eq!(s.calc_point(25, false), Some(v(46)));
    assert_eq!(s.calc_point(50, false), Some(v(150)));
}
