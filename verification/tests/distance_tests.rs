use adaptive_ode::distance::{is_no_farther, midpoint_side};
use adaptive_ode::trajectory::Trajectory;

fn b(x: f64) -> u64 {
    x.to_bits()
}

fn near(t: f64, a: f64, c: f64) -> bool {
    is_no_farther(b(t), b(a), b(c))
}

fn next_up(x: f64) -> f64 {
    f64::from_bits(x.to_bits() + 1)
}

fn next_down(x: f64) -> f64 {
    f64::from_bits(x.to_bits() - 1)
}

#[test]
fn midpoint_side_is_the_sign_of_twice_t_less_both() {
    assert_eq!(midpoint_side(b(1.0), b(0.0), b(2.0)), 0);
    assert_eq!(midpoint_side(b(1.5), b(0.0), b(2.0)), 1);
    assert_eq!(midpoint_side(b(0.5), b(0.0), b(2.0)), -1);
    assert_eq!(midpoint_side(b(0.0), b(-3.0), b(3.0)), 0);
    assert_eq!(midpoint_side(b(-0.0), b(-3.0), b(3.0)), 0);
    assert_eq!(midpoint_side(b(0.0), b(0.0), b(0.0)), 0);
    assert_eq!(midpoint_side(b(-1.0), b(-4.0), b(1.0)), 1);
    assert_eq!(midpoint_side(b(-2.0), b(-4.0), b(1.0)), -1);
    assert_eq!(midpoint_side(b(5e-324), b(0.0), b(1e-323)), 0);
    assert_eq!(midpoint_side(b(5e-324), b(0.0), b(1.5e-323)), -1);
}

#[test]
fn midpoint_side_sees_what_rounding_would_lose() {
    // 2 * 1 - 2 - (-1e-300) is positive, though 1 + 1e-300 rounds to 1.
    assert_eq!(midpoint_side(b(1.0), b(-1e-300), b(2.0)), 1);
    assert_eq!(midpoint_side(b(1.0), b(1e-300), b(2.0)), -1);
    assert_eq!(midpoint_side(b(1.0), b(5e-324), b(2.0)), -1);
    assert_eq!(midpoint_side(b(1.0), b(-5e-324), b(2.0)), 1);
    assert_eq!(midpoint_side(b(1.0), b(0.0), b(next_up(2.0))), -1);
    assert_eq!(midpoint_side(b(1.0), b(0.0), b(next_down(2.0))), 1);
    assert_eq!(midpoint_side(b(1e300), b(1.0), b(2e300)), -1);
    assert_eq!(midpoint_side(b(1e300), b(-1.0), b(2e300)), 1);
    assert_eq!(midpoint_side(b(1e300), b(0.0), b(2e300)), 0);
    assert_eq!(midpoint_side(b(f64::MAX), b(-f64::MAX), b(f64::MAX)), 1);
    assert_eq!(midpoint_side(b(1.0), b(-f64::MAX), b(f64::MAX)), 1);
    assert_eq!(midpoint_side(b(-1e-200), b(-f64::MAX), b(f64::MAX)), -1);
    assert_eq!(midpoint_side(b(1e-200), b(-1e100), b(1e100)), 1);
    assert_eq!(midpoint_side(b(3.0), b(1e-100), b(6.0)), -1);
    assert_eq!(midpoint_side(b(3.0), b(-1e-100), b(6.0)), 1);
}

#[test]
fn midpoint_side_agrees_with_integer_arithmetic() {
    // Numbers of the form k * 2^s with small k and s are exact integers
    // after scaling by 2^40.
    let mut values: Vec<(f64, i128)> = Vec::new();
    for k in [-9007199254740991i64, -12345, -3, -1, 0, 1, 2, 7, 4097, 9007199254740991] {
        for s in [-40i32, -17, -1, 0, 3, 20] {
            let x = (k as f64) * 2f64.powi(s);
            let scaled = (k as i128) << (s + 40);
            values.push((x, scaled));
        }
    }
    for (t, st) in &values {
        for (a, sa) in &values {
            for (c, sc) in &values {
                let expected = (2 * st - sa - sc).signum() as i8;
                assert_eq!(midpoint_side(b(*t), b(*a), b(*c)), expected);
                let da = (st - sa).abs();
                let dc = (st - sc).abs();
                assert_eq!(near(*t, *a, *c), da <= dc);
            }
        }
    }
}

#[test]
fn nearer_of_two_on_the_same_side() {
    assert!(near(5.0, 4.0, 3.0));
    assert!(!near(5.0, 3.0, 4.0));
    assert!(near(5.0, 6.0, 7.0));
    assert!(!near(5.0, 7.0, 6.0));
    assert!(near(5.0, 5.0, 5.0));
    assert!(near(5.0, 4.0, 4.0));
    assert!(near(0.0, -0.0, 0.0));
    assert!(near(1.0, f64::MAX, f64::INFINITY));
    assert!(!near(1.0, f64::INFINITY, f64::MAX));
}

#[test]
fn nearer_of_two_on_either_side() {
    assert!(near(1.0, 0.0, 2.0));
    assert!(near(1.0, 2.0, 0.0));
    assert!(near(1.0, 0.5, 2.0));
    assert!(!near(1.0, 0.0, 1.5));
    assert!(!near(1.0, -1e-300, 2.0));
    assert!(near(1.0, 2.0, -1e-300));
    assert!(near(1.0, 1e-300, 2.0));
    assert!(!near(1.0, 2.0, 1e-300));
    assert!(near(next_down(1.0), 0.0, 2.0));
    assert!(!near(next_up(1.0), 0.0, 2.0));
}

#[test]
fn nothing_is_near_a_nan() {
    assert!(!near(f64::NAN, 1.0, 2.0));
    assert!(!near(1.0, f64::NAN, 2.0));
    assert!(!near(1.0, 1.0, f64::NAN));
}

fn trajectory(forward: bool, times: &[f64]) -> Trajectory {
    let mut t = Trajectory::new(forward);
    for x in times {
        assert!(t.push(b(*x), vec![]));
    }
    t
}

#[test]
fn nearest_sample_in_a_forward_trajectory() {
    let t = trajectory(true, &[-2.0, 0.0, 1.0, 4.0, 9.0]);
    assert_eq!(t.nearest(b(-100.0)), Some(0));
    assert_eq!(t.nearest(b(-2.0)), Some(0));
    assert_eq!(t.nearest(b(-1.5)), Some(0));
    assert_eq!(t.nearest(b(-0.9)), Some(1));
    assert_eq!(t.nearest(b(0.4)), Some(1));
    assert_eq!(t.nearest(b(0.6)), Some(2));
    assert_eq!(t.nearest(b(2.4)), Some(2));
    assert_eq!(t.nearest(b(2.6)), Some(3));
    assert_eq!(t.nearest(b(6.4)), Some(3));
    assert_eq!(t.nearest(b(6.6)), Some(4));
    assert_eq!(t.nearest(b(9.0)), Some(4));
    assert_eq!(t.nearest(b(1e300)), Some(4));
    assert_eq!(t.nearest(b(f64::INFINITY)), Some(4));
    assert_eq!(t.nearest(b(f64::NEG_INFINITY)), Some(0));
}

#[test]
fn nearest_prefers_the_sample_taken_first_on_a_tie() {
    let t = trajectory(true, &[-2.0, 0.0, 1.0, 4.0, 9.0]);
    assert_eq!(t.nearest(b(-1.0)), Some(0));
    assert_eq!(t.nearest(b(0.5)), Some(1));
    assert_eq!(t.nearest(b(2.5)), Some(2));
    assert_eq!(t.nearest(b(6.5)), Some(3));
    assert_eq!(t.nearest(next_up(2.5).to_bits()), Some(3));
    assert_eq!(t.nearest(next_down(2.5).to_bits()), Some(2));
    let back = trajectory(false, &[9.0, 4.0, 1.0]);
    assert_eq!(back.nearest(b(6.5)), Some(0));
    assert_eq!(back.nearest(b(2.5)), Some(1));
}

#[test]
fn nearest_sample_in_a_backward_trajectory() {
    let t = trajectory(false, &[5.0, 3.0, 0.0, -1.0]);
    assert_eq!(t.nearest(b(100.0)), Some(0));
    assert_eq!(t.nearest(b(4.5)), Some(0));
    assert_eq!(t.nearest(b(3.9)), Some(1));
    assert_eq!(t.nearest(b(1.6)), Some(1));
    assert_eq!(t.nearest(b(1.4)), Some(2));
    assert_eq!(t.nearest(b(-0.4)), Some(2));
    assert_eq!(t.nearest(b(-0.6)), Some(3));
    assert_eq!(t.nearest(b(-50.0)), Some(3));
}

#[test]
fn nearest_of_nothing_and_of_a_nan() {
    assert_eq!(Trajectory::new(true).nearest(b(0.0)), None);
    let t = trajectory(true, &[1.0, 2.0]);
    assert_eq!(t.nearest(b(f64::NAN)), None);
    let one = trajectory(true, &[1.0]);
    assert_eq!(one.nearest(b(-7.0)), Some(0));
    assert_eq!(one.nearest(b(1.0)), Some(0));
    assert_eq!(one.nearest(b(7.0)), Some(0));
}

#[test]
fn nearest_is_decided_without_rounding() {
    let t = trajectory(true, &[-1e-300, 2.0]);
    assert_eq!(t.nearest(b(1.0)), Some(1));
    let t = trajectory(true, &[1e-300, 2.0]);
    assert_eq!(t.nearest(b(1.0)), Some(0));
    let t = trajectory(true, &[0.0, 2.0]);
    assert_eq!(t.nearest(b(1.0)), Some(0));
}

#[test]
fn nearest_agrees_with_a_linear_scan() {
    let times: Vec<f64> = (0..100).map(|i| (i as f64) * 0.75 - 30.0).collect();
    let t = trajectory(true, &times);
    for q in (0..400).map(|i| (i as f64) * 0.25 - 40.0) {
        let mut best = 0;
        for (j, x) in times.iter().enumerate() {
            if (q - x).abs() < (q - times[best]).abs() {
                best = j;
            }
        }
        assert_eq!(t.nearest(b(q)), Some(best));
    }
}
