//! Curve and surface parameter domains.
use amphion::geometry::domain::{ParameterInterval, ParameterRange, ParameterRangeError, SurfaceDomain};

fn b(x: f64) -> u64 {
    x.to_bits()
}

fn range(lower: Option<f64>, upper: Option<f64>, period: Option<f64>) -> Result<ParameterRange, ParameterRangeError> {
    ParameterRange::try_new(lower.map(b), upper.map(b), period.map(b))
}

#[test]
fn unbounded_and_half_bounded_ranges_are_accepted() {
    assert!(range(None, None, None).is_ok());
    assert!(range(Some(0.0), None, None).is_ok());
    assert!(range(None, Some(-3.0), None).is_ok());
}

#[test]
fn range_rejects_non_finite_and_inverted_bounds() {
    assert_eq!(range(Some(f64::NAN), None, None).unwrap_err(), ParameterRangeError);
    assert!(range(None, Some(f64::INFINITY), None).is_err());
    assert!(range(Some(1.0), Some(1.0), None).is_err());
    assert!(range(Some(2.0), Some(1.0), None).is_err());
    assert!(range(Some(-0.0), Some(0.0), None).is_err());
}

#[test]
fn period_must_be_positive_finite_and_bounded() {
    let tau = std::f64::consts::TAU;
    assert!(range(Some(0.0), Some(tau), Some(tau)).is_ok());
    assert!(range(Some(0.0), Some(tau), Some(0.0)).is_err());
    assert!(range(Some(0.0), Some(tau), Some(-tau)).is_err());
    assert!(range(Some(0.0), Some(tau), Some(f64::NAN)).is_err());
    assert!(range(Some(0.0), None, Some(tau)).is_err());
    assert!(range(None, Some(tau), Some(tau)).is_err());
}

#[test]
fn span_above_period_is_rejected() {
    assert!(range(Some(0.0), Some(2.0), Some(1.0)).is_err());
    assert!(range(Some(-1.0), Some(1.0), Some(2.0)).is_ok());
    assert!(range(Some(0.0), Some(1.0), Some(2.0)).is_ok());
}

#[test]
fn span_is_compared_after_rounding() {
    // 1 + 1e-17 rounds to 1.0, which does not exceed the period.
    assert!(range(Some(-1.0e-17), Some(1.0), Some(1.0)).is_ok());
    // 1 + 2^-53 is a tie between 1.0 and its successor; ties go to the even 1.0.
    let half_ulp = 2.0_f64.powi(-53);
    assert_eq!(1.0 - (-half_ulp), 1.0);
    assert!(range(Some(-half_ulp), Some(1.0), Some(1.0)).is_ok());
    // 1 + 2^-52 is representable and exceeds the period.
    let ulp = 2.0_f64.powi(-52);
    assert!(range(Some(-ulp), Some(1.0), Some(1.0)).is_err());
    // Slightly more than half an ulp rounds up.
    let above_half = half_ulp * (1.0 + 2.0_f64.powi(-10));
    assert!(1.0 - (-above_half) > 1.0);
    assert!(range(Some(-above_half), Some(1.0), Some(1.0)).is_err());
}

#[test]
fn overflowing_span_exceeds_any_period() {
    assert!(f64::MAX - (-f64::MAX) > f64::MAX);
    assert!(range(Some(-f64::MAX), Some(f64::MAX), Some(f64::MAX)).is_err());
    assert!(range(Some(0.0), Some(f64::MAX), Some(f64::MAX)).is_ok());
}

#[test]
fn range_getters_return_components() {
    let r = range(Some(-1.5), Some(2.5), Some(4.0)).unwrap();
    assert_eq!(r.lower(), Some(b(-1.5)));
    assert_eq!(r.upper(), Some(b(2.5)));
    assert_eq!(r.period(), Some(b(4.0)));
    let open = range(None, None, None).unwrap();
    let domain = SurfaceDomain::new(r, open);
    assert_eq!(domain.u().period(), Some(b(4.0)));
    assert_eq!(domain.v().lower(), None);
}

#[test]
fn parameter_interval_is_finite_and_increasing() {
    let interval = ParameterInterval::try_new(b(0.0), b(1.0)).unwrap();
    assert_eq!((interval.start(), interval.end()), (b(0.0), b(1.0)));
    assert!(ParameterInterval::try_new(b(1.0), b(1.0)).is_err());
    assert!(ParameterInterval::try_new(b(0.0), b(f64::INFINITY)).is_err());
    assert!(ParameterInterval::try_new(b(2.0), b(-2.0)).is_err());
    assert!(!ParameterRangeError.message().is_empty());
}
