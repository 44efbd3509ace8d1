//! Exact comparisons of binary64 values read from their bit patterns.
use amphion::ieee::{decode_f64, is_finite, is_nan, is_negative, is_positive, is_zero, le, lt, negate, value_eq};

fn b(x: f64) -> u64 {
    x.to_bits()
}

const SAMPLES: [f64; 14] = [
    f64::MIN,
    -1.0e300,
    -2.5,
    -1.0,
    -1.0e-310,
    -0.0,
    0.0,
    5.0e-324,
    1.0e-300,
    0.1,
    1.0,
    1.5,
    1.0e200,
    f64::MAX,
];

#[test]
fn comparisons_agree_with_native_float_order() {
    for x in SAMPLES {
        for y in SAMPLES {
            assert_eq!(lt(b(x), b(y)), x < y, "{x} < {y}");
            assert_eq!(le(b(x), b(y)), x <= y, "{x} <= {y}");
            assert_eq!(value_eq(b(x), b(y)), x == y, "{x} == {y}");
        }
    }
}

#[test]
fn classification_agrees_with_native_float() {
    for x in SAMPLES {
        assert!(is_finite(b(x)));
        assert!(!is_nan(b(x)));
        assert_eq!(is_zero(b(x)), x == 0.0);
        assert_eq!(is_positive(b(x)), x > 0.0);
        assert_eq!(is_negative(b(x)), x < 0.0);
    }
    for x in [f64::NAN, f64::INFINITY, f64::NEG_INFINITY] {
        assert!(!is_finite(b(x)));
    }
    assert!(is_nan(b(f64::NAN)));
    assert!(!is_nan(b(f64::INFINITY)));
}

#[test]
fn negation_flips_only_the_sign() {
    for x in SAMPLES {
        assert_eq!(negate(b(x)), b(-x));
        assert_eq!(negate(negate(b(x))), b(x));
    }
}

#[test]
fn decoding_is_exact() {
    assert_eq!(decode_f64(b(0.0)), (0, 0));
    assert_eq!(decode_f64(b(-0.0)), (0, 0));
    assert_eq!(decode_f64(b(1.0)), (1 << 52, -52));
    assert_eq!(decode_f64(b(-3.0)), (-(3 << 51), -51));
    assert_eq!(decode_f64(5.0e-324_f64.to_bits()), (1, -1074));
    assert_eq!(decode_f64(b(f64::MAX)), ((1 << 53) - 1, 971));
    for x in SAMPLES {
        let (m, e) = decode_f64(b(x));
        if e > -1000 {
            assert_eq!(m as f64 * 2.0_f64.powi(e), x);
        }
    }
}
