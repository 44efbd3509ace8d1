//! Evaluation contexts, derivative limits, and certification budgets.
use amphion::geometry::evaluation::{
    CertificationBudget, CurveDerivativeLimits, CurveFirstDerivativeLimit,
    CurveSecondDerivativeLimit, DerivativeLimits, EvaluationContext, SurfaceDerivativeLimits,
    SurfaceDuLimit,
};
use amphion::tolerance::ToleranceContext;

fn tol() -> ToleranceContext {
    ToleranceContext::try_new(
        1e-9_f64.to_bits(),
        1e-12_f64.to_bits(),
        1e-9_f64.to_bits(),
        1e-9_f64.to_bits(),
    )
    .unwrap()
}

#[test]
fn derivative_limit_rejects_nan() {
    assert!(CurveFirstDerivativeLimit::try_new(f64::NAN.to_bits()).is_err());
}

#[test]
fn derivative_limit_rejects_negative() {
    assert!(CurveFirstDerivativeLimit::try_new((-1.0_f64).to_bits()).is_err());
}

#[test]
fn derivative_limit_rejects_inf() {
    assert!(CurveFirstDerivativeLimit::try_new(f64::INFINITY.to_bits()).is_err());
    assert!(SurfaceDuLimit::try_new(f64::INFINITY.to_bits()).is_err());
}

#[test]
fn derivative_limit_accepts_max() {
    let limit = CurveFirstDerivativeLimit::try_new(f64::MAX.to_bits()).expect("MAX accepted");
    assert_eq!(limit.get(), f64::MAX.to_bits());
}

#[test]
fn evaluation_context_unlimited_works() {
    let ctx = EvaluationContext::unlimited(tol());
    assert_eq!(ctx.derivative_limits().curve().first().get(), f64::MAX.to_bits());
    assert_eq!(ctx.budget(), CertificationBudget::default());
}

#[test]
fn evaluation_context_try_new_works() {
    let ctx = EvaluationContext::try_new(
        tol(),
        CertificationBudget::default(),
        DerivativeLimits::unlimited(),
    );
    assert!(ctx.is_ok());
}

#[test]
fn certification_budget_rejects_degenerate_limits() {
    assert!(CertificationBudget::try_new(0, 1).is_err());
    assert!(CertificationBudget::try_new(1, 0).is_err());
}

#[test]
fn evaluation_context_with_budget_overrides() {
    let budget = CertificationBudget::try_new(10, 1 << 10).unwrap();
    let ctx = EvaluationContext::unlimited(tol()).with_budget(budget);
    assert_eq!(ctx.budget(), budget);
}

#[test]
fn default_budget_values() {
    let budget = CertificationBudget::default();
    assert_eq!(budget.series_terms(), 200);
    assert_eq!(budget.rational_bits(), 1 << 20);
}

#[test]
fn derivative_limit_groups_keep_every_slot() {
    let first = CurveFirstDerivativeLimit::try_new(0.01_f64.to_bits()).unwrap();
    let second = CurveSecondDerivativeLimit::try_new(0.02_f64.to_bits()).unwrap();
    let curve = CurveDerivativeLimits::new(first, second);
    assert_eq!(curve.first().get(), 0.01_f64.to_bits());
    assert_eq!(curve.second().get(), 0.02_f64.to_bits());
    let surface = SurfaceDerivativeLimits::unlimited();
    for slot in [
        surface.du().get(),
        surface.dv().get(),
        surface.duu().get(),
        surface.duv().get(),
        surface.dvv().get(),
    ] {
        assert_eq!(slot, f64::MAX.to_bits());
    }
    let limits = DerivativeLimits::new(curve, surface);
    assert_eq!(limits.curve().second().get(), 0.02_f64.to_bits());
    assert_eq!(limits.surface().duv().get(), f64::MAX.to_bits());
    let ctx = EvaluationContext::try_new(tol(), CertificationBudget::default(), limits).unwrap();
    assert_eq!(ctx.derivative_limits().curve().first().get(), 0.01_f64.to_bits());
    assert_eq!(ctx.tolerance().absolute_length(), 1e-9_f64.to_bits());
}

#[test]
fn derivative_limit_accepts_signed_zero() {
    assert!(CurveSecondDerivativeLimit::try_new(0.0_f64.to_bits()).is_ok());
    assert!(CurveSecondDerivativeLimit::try_new((-0.0_f64).to_bits()).is_ok());
    assert!(CurveSecondDerivativeLimit::try_new((-1.0e-300_f64).to_bits()).is_err());
}

#[test]
fn derivative_limits_unlimited_matches_its_groups() {
    let limits = DerivativeLimits::unlimited();
    for slot in [
        limits.curve().first().get(),
        limits.curve().second().get(),
        limits.surface().du().get(),
        limits.surface().dv().get(),
        limits.surface().duu().get(),
        limits.surface().duv().get(),
        limits.surface().dvv().get(),
    ] {
        assert_eq!(slot, f64::MAX.to_bits());
        assert!(f64::from_bits(slot).is_finite());
    }
    assert_eq!(
        limits,
        DerivativeLimits::new(CurveDerivativeLimits::unlimited(), SurfaceDerivativeLimits::unlimited())
    );
}
