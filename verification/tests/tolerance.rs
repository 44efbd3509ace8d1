//! Explicit, validated tolerance contexts.
use amphion::tolerance::{LengthTolerance, ToleranceContext, ToleranceError};

fn tc(a: f64, r: f64, g: f64, p: f64) -> Result<ToleranceContext, ToleranceError> {
    ToleranceContext::try_new(a.to_bits(), r.to_bits(), g.to_bits(), p.to_bits())
}

#[test]
fn entity_tolerances_are_positive_and_finite() {
    assert!(LengthTolerance::try_new(1.0e-9_f64.to_bits()).is_ok());
    assert!(LengthTolerance::try_new(0.0_f64.to_bits()).is_err());
    assert!(LengthTolerance::try_new(f64::INFINITY.to_bits()).is_err());
}

#[test]
fn invalid_contexts_are_rejected_in_order() {
    assert_eq!(tc(0.0, 0.0, 1.0, 1.0).unwrap_err(), ToleranceError::NotPositive);
    assert_eq!(tc(1.0, -1.0, 1.0, 1.0).unwrap_err(), ToleranceError::NegativeRelative);
    assert_eq!(tc(f64::NAN, -1.0, 0.0, 1.0).unwrap_err(), ToleranceError::NonFinite);
    assert_eq!(tc(1.0, -1.0, 0.0, 1.0).unwrap_err(), ToleranceError::NotPositive);
    assert_eq!(tc(1.0, 0.0, 1.0, -0.0).unwrap_err(), ToleranceError::NotPositive);
    assert_eq!(tc(1.0, f64::INFINITY, 1.0, 1.0).unwrap_err(), ToleranceError::NonFinite);
}

#[test]
fn negative_zero_relative_tolerance_is_accepted() {
    assert!(tc(1.0, -0.0, 1.0, 1.0).is_ok());
}

#[test]
fn context_getters_return_components() {
    let context = tc(1.0e-9, 1.0e-8, 1.0e-10, 1.0e-12).unwrap();
    assert_eq!(context.absolute_length(), 1.0e-9_f64.to_bits());
    assert_eq!(context.relative_length(), 1.0e-8_f64.to_bits());
    assert_eq!(context.angular(), 1.0e-10_f64.to_bits());
    assert_eq!(context.parametric(), 1.0e-12_f64.to_bits());
    let length = LengthTolerance::try_new(2.5e-6_f64.to_bits()).unwrap();
    assert_eq!(length.get(), 2.5e-6_f64.to_bits());
}

#[test]
fn tolerance_error_messages_are_distinct() {
    let all = [
        ToleranceError::NonFinite,
        ToleranceError::NotPositive,
        ToleranceError::NegativeRelative,
        ToleranceError::InvalidScale,
        ToleranceError::Overflow,
    ];
    for (i, a) in all.iter().enumerate() {
        for b in &all[i + 1..] {
            assert_ne!(a.message(), b.message());
        }
    }
}
