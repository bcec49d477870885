use adaptive_ode::controller::{
    accepts, limit_factor, limit_step, underflows, GROW_MAX, ORDER, SAFETY, SHRINK_MIN,
};

fn b(x: f64) -> u64 {
    x.to_bits()
}

#[test]
fn controller_constants_are_the_numbers_they_name() {
    assert_eq!(SAFETY, b(0.9));
    assert_eq!(SHRINK_MIN, b(0.2));
    assert_eq!(GROW_MAX, b(10.0));
    assert_eq!(ORDER, 8);
}

#[test]
fn a_norm_of_one_is_accepted_and_the_next_number_is_not() {
    assert!(accepts(b(1.0)));
    assert!(accepts(b(0.0)));
    assert!(accepts(b(0.999_999_999)));
    assert!(!accepts(b(1.0000000000000002)));
    assert!(!accepts(b(2.0)));
    assert!(!accepts(b(f64::INFINITY)));
    assert!(!accepts(b(f64::NAN)));
}

#[test]
fn factor_is_clamped_between_a_fifth_and_ten() {
    assert_eq!(limit_factor(b(0.1)), b(0.2));
    assert_eq!(limit_factor(b(0.2)), b(0.2));
    assert_eq!(limit_factor(b(0.5)), b(0.5));
    assert_eq!(limit_factor(b(5.0)), b(5.0));
    assert_eq!(limit_factor(b(10.0)), b(10.0));
    assert_eq!(limit_factor(b(100.0)), b(10.0));
    assert_eq!(limit_factor(b(f64::INFINITY)), b(10.0));
    assert_eq!(limit_factor(b(0.0)), b(0.2));
    assert_eq!(limit_factor(b(-3.0)), b(0.2));
    assert!(f64::from_bits(limit_factor(b(f64::NAN))).is_nan());
}

#[test]
fn step_is_clamped_into_the_limits() {
    let (lo, hi) = (b(1e-3), b(2.0));
    assert_eq!(limit_step(b(0.5), lo, hi, true), b(0.5));
    assert_eq!(limit_step(b(1e-6), lo, hi, true), b(1e-3));
    assert_eq!(limit_step(b(7.0), lo, hi, true), b(2.0));
    assert_eq!(limit_step(b(1e-3), lo, hi, true), b(1e-3));
    assert_eq!(limit_step(b(2.0), lo, hi, true), b(2.0));
    assert_eq!(limit_step(b(0.0), lo, hi, true), b(1e-3));
    assert_eq!(limit_step(b(f64::INFINITY), lo, hi, true), b(2.0));
    assert_eq!(limit_step(b(f64::INFINITY), b(0.0), b(f64::INFINITY), true), b(f64::INFINITY));
}

#[test]
fn step_takes_the_sign_of_the_direction() {
    let (lo, hi) = (b(1e-3), b(2.0));
    assert_eq!(limit_step(b(0.5), lo, hi, false), b(-0.5));
    assert_eq!(limit_step(b(-0.5), lo, hi, false), b(-0.5));
    assert_eq!(limit_step(b(-0.5), lo, hi, true), b(0.5));
    assert_eq!(limit_step(b(-7.0), lo, hi, false), b(-2.0));
    assert_eq!(limit_step(b(1e-9), lo, hi, false), b(-1e-3));
}

#[test]
fn underflow_is_a_proposal_below_the_smallest_step() {
    assert!(underflows(b(1e-7), b(1e-6)));
    assert!(underflows(b(-1e-7), b(1e-6)));
    assert!(!underflows(b(1e-6), b(1e-6)));
    assert!(!underflows(b(1e-5), b(1e-6)));
    assert!(!underflows(b(0.0), b(0.0)));
    assert!(!underflows(b(1e-300), b(0.0)));
}
