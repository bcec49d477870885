use adaptive_ode::binary64::{
    abs, eq, is_finite, is_infinite, is_nan, is_negative, le, lt, order_key, ulps_apart, INFINITY,
    ONE, SIGN_BIT, ZERO,
};

fn bits(x: f64) -> u64 {
    x.to_bits()
}

#[test]
fn constants_are_the_patterns_they_name() {
    assert_eq!(ONE, bits(1.0));
    assert_eq!(ZERO, bits(0.0));
    assert_eq!(SIGN_BIT, bits(-0.0));
    assert_eq!(INFINITY, bits(f64::INFINITY));
}

#[test]
fn classification_agrees_with_the_hardware() {
    let samples = [
        0.0,
        -0.0,
        1.0,
        -1.0,
        f64::MIN_POSITIVE,
        5e-324,
        -5e-324,
        f64::MAX,
        f64::MIN,
        f64::INFINITY,
        f64::NEG_INFINITY,
        f64::NAN,
        -f64::NAN,
        1e-300,
        3.5,
    ];
    for x in samples {
        assert_eq!(is_nan(bits(x)), x.is_nan());
        assert_eq!(is_infinite(bits(x)), x.is_infinite());
        assert_eq!(is_finite(bits(x)), x.is_finite());
        assert_eq!(is_negative(bits(x)), x.is_sign_negative());
        assert_eq!(abs(bits(x)), bits(x.abs()));
    }
}

#[test]
fn comparisons_agree_with_the_hardware() {
    let samples = [
        0.0,
        -0.0,
        1.0,
        -1.0,
        0.2,
        10.0,
        f64::MIN_POSITIVE,
        5e-324,
        -5e-324,
        f64::MAX,
        f64::MIN,
        f64::INFINITY,
        f64::NEG_INFINITY,
        f64::NAN,
        1.0000000000000002,
        -2.5e10,
    ];
    for a in samples {
        for b in samples {
            assert_eq!(lt(bits(a), bits(b)), a < b);
            assert_eq!(le(bits(a), bits(b)), a <= b);
            assert_eq!(eq(bits(a), bits(b)), a == b);
            if !a.is_nan() && !b.is_nan() {
                assert_eq!(order_key(bits(a)) < order_key(bits(b)), a < b);
            }
        }
    }
}

#[test]
fn ulps_apart_counts_representable_numbers() {
    assert_eq!(ulps_apart(bits(1.0), bits(1.0)), 0);
    assert_eq!(ulps_apart(bits(1.0), bits(1.0000000000000002)), 1);
    assert_eq!(ulps_apart(bits(1.0000000000000002), bits(1.0)), 1);
    assert_eq!(ulps_apart(bits(0.0), bits(-0.0)), 0);
    assert_eq!(ulps_apart(bits(5e-324), bits(-5e-324)), 2);
    assert_eq!(ulps_apart(bits(f64::MAX), bits(f64::INFINITY)), 1);
}
