//! The parameter admission and derivative-limit decisions of evaluation.
use amphion::geometry::analytic::admission::{
    check_curve_limits, check_derivative_limit, check_surface_limits, curve_admission,
    surface_admission, LimitExceeded,
};
use amphion::geometry::domain::{ParameterRange, SurfaceDomain};
use amphion::geometry::error::GeometryError;
use amphion::geometry::evaluation::{
    CurveDerivativeLimits, CurveFirstDerivativeLimit, CurveSecondDerivativeLimit,
    DerivativeOrder, SurfaceDerivativeLimits, SurfaceDuLimit, SurfaceDuuLimit, SurfaceDuvLimit,
    SurfaceDvLimit, SurfaceDvvLimit,
};

const TAU: f64 = std::f64::consts::TAU;

fn angular() -> ParameterRange {
    ParameterRange::try_new(Some(0.0_f64.to_bits()), Some(TAU.to_bits()), Some(TAU.to_bits())).unwrap()
}

fn unbounded() -> ParameterRange {
    ParameterRange::try_new(None, None, None).unwrap()
}

fn cone_domain() -> SurfaceDomain {
    SurfaceDomain::new(angular(), unbounded())
}

fn b(x: f64) -> u64 {
    x.to_bits()
}

#[test]
fn curve_admission_refuses_non_finite_then_outside() {
    assert_eq!(curve_admission(b(f64::NAN), angular()), Err(GeometryError::NonFiniteParameter));
    assert_eq!(curve_admission(b(7.0), angular()), Err(GeometryError::OutsideDomain));
    assert_eq!(curve_admission(b(-0.5), angular()), Err(GeometryError::OutsideDomain));
    assert_eq!(curve_admission(b(1.0), angular()), Ok(b(1.0)));
}

#[test]
fn curve_admission_aliases_the_seam() {
    assert_eq!(curve_admission(b(TAU), angular()), Ok(b(0.0)));
    assert_eq!(curve_admission(b(1e300), unbounded()), Ok(b(1e300)));
}

#[test]
fn surface_admission_checks_in_order() {
    let d = cone_domain();
    let o = DerivativeOrder::First;
    assert_eq!(surface_admission(b(1.0), b(f64::INFINITY), o, d, true), Err(GeometryError::NonFiniteParameter));
    assert_eq!(surface_admission(b(-1.0), b(1.0), o, d, true), Err(GeometryError::OutsideDomain));
    assert_eq!(surface_admission(b(TAU), b(2.0), o, d, true), Ok(b(0.0)));
}

#[test]
fn surface_admission_is_singular_at_the_apex_for_derivatives_only() {
    let d = cone_domain();
    assert_eq!(surface_admission(b(1.0), b(0.0), DerivativeOrder::First, d, true), Err(GeometryError::Singular));
    assert_eq!(surface_admission(b(1.0), b(-0.0), DerivativeOrder::Second, d, true), Err(GeometryError::Singular));
    assert_eq!(surface_admission(b(1.0), b(0.0), DerivativeOrder::Position, d, true), Ok(b(1.0)));
    assert_eq!(surface_admission(b(1.0), b(0.0), DerivativeOrder::Second, d, false), Ok(b(1.0)));
}

#[test]
fn check_derivative_limit_reports_the_pair() {
    assert_eq!(check_derivative_limit(b(1.0), b(2.0)), Ok(()));
    assert_eq!(check_derivative_limit(b(2.0), b(2.0)), Ok(()));
    assert_eq!(
        check_derivative_limit(b(3.0), b(2.0)),
        Err(LimitExceeded { bound: b(3.0), limit: b(2.0) })
    );
}

fn surface_limits(values: [f64; 5]) -> SurfaceDerivativeLimits {
    SurfaceDerivativeLimits::new(
        SurfaceDuLimit::try_new(b(values[0])).unwrap(),
        SurfaceDvLimit::try_new(b(values[1])).unwrap(),
        SurfaceDuuLimit::try_new(b(values[2])).unwrap(),
        SurfaceDuvLimit::try_new(b(values[3])).unwrap(),
        SurfaceDvvLimit::try_new(b(values[4])).unwrap(),
    )
}

#[test]
fn surface_limits_follow_the_order() {
    let limits = surface_limits([1.0, 1.0, 1.0, 1.0, 0.0]);
    let bounds = [b(0.5), b(0.5), b(2.0), b(0.0), b(0.0)];
    assert_eq!(check_surface_limits(DerivativeOrder::Position, bounds, limits), Ok(()));
    assert_eq!(check_surface_limits(DerivativeOrder::First, bounds, limits), Ok(()));
    assert_eq!(
        check_surface_limits(DerivativeOrder::Second, bounds, limits),
        Err(LimitExceeded { bound: b(2.0), limit: b(1.0) })
    );
    let first_fails = [b(0.5), b(3.0), b(2.0), b(0.0), b(0.0)];
    assert_eq!(
        check_surface_limits(DerivativeOrder::Second, first_fails, limits),
        Err(LimitExceeded { bound: b(3.0), limit: b(1.0) })
    );
}

#[test]
fn curve_limits_follow_the_order() {
    let limits = CurveDerivativeLimits::new(
        CurveFirstDerivativeLimit::try_new(b(1.0)).unwrap(),
        CurveSecondDerivativeLimit::try_new(b(1.0)).unwrap(),
    );
    assert_eq!(check_curve_limits(DerivativeOrder::First, b(0.5), b(5.0), limits), Ok(()));
    assert_eq!(
        check_curve_limits(DerivativeOrder::Second, b(0.5), b(5.0), limits),
        Err(LimitExceeded { bound: b(5.0), limit: b(1.0) })
    );
    assert_eq!(check_curve_limits(DerivativeOrder::Position, b(9.0), b(9.0), limits), Ok(()));
}
