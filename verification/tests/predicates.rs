//! Exact orientation predicates on points given by their binary64 values.
use amphion::math::{NonFiniteValue, Point2, Point3};
use amphion::predicates::{orient2d, orient3d, OrientationSign, PredicateError};
use amphion::tolerance::{ToleranceContext, ToleranceError};

fn p2(x: f64, y: f64) -> Result<Point2, NonFiniteValue> {
    Point2::try_new(x.to_bits(), y.to_bits())
}

fn p3(x: f64, y: f64, z: f64) -> Result<Point3, NonFiniteValue> {
    Point3::try_new(x.to_bits(), y.to_bits(), z.to_bits())
}

fn tc(
    absolute: f64,
    relative: f64,
    angular: f64,
    parametric: f64,
) -> Result<ToleranceContext, ToleranceError> {
    ToleranceContext::try_new(
        absolute.to_bits(),
        relative.to_bits(),
        angular.to_bits(),
        parametric.to_bits(),
    )
}

fn ctx() -> ToleranceContext {
    tc(1.0e-9, 1.0e-8, 1.0e-7, 1.0e-10).unwrap()
}

/// The effective length tolerance of `ctx()` at the given scale.
fn effective_length(scale: f64) -> f64 {
    1.0e-9_f64.max(1.0e-8 * scale)
}

#[test]
fn orient2d_ccw_is_positive() {
    let a = p2(0.0, 0.0).unwrap();
    let b = p2(1.0, 0.0).unwrap();
    let c = p2(0.0, 1.0).unwrap();
    assert_eq!(orient2d(a, b, c, ctx()).unwrap(), OrientationSign::Positive);
}

#[test]
fn orient2d_cw_is_negative() {
    let a = p2(0.0, 0.0).unwrap();
    let b = p2(0.0, 1.0).unwrap();
    let c = p2(1.0, 0.0).unwrap();
    assert_eq!(orient2d(a, b, c, ctx()).unwrap(), OrientationSign::Negative);
}

#[test]
fn orient2d_exact_collinear_is_degenerate() {
    let a = p2(0.0, 0.0).unwrap();
    let b = p2(1.0, 0.0).unwrap();
    let c = p2(2.0, 0.0).unwrap();
    assert_eq!(
        orient2d(a, b, c, ctx()).unwrap(),
        OrientationSign::Degenerate
    );
}

#[test]
fn orient2d_near_collinear_is_uncertain() {
    let a = p2(0.0, 0.0).unwrap();
    let b = p2(1.0, 0.0).unwrap();
    let c = p2(0.5, 1.0e-12).unwrap();
    assert_eq!(
        orient2d(a, b, c, ctx()).unwrap(),
        OrientationSign::Uncertain
    );
}

#[test]
fn orient3d_positive_tetrahedron() {
    let a = p3(0.0, 0.0, 0.0).unwrap();
    let b = p3(1.0, 0.0, 0.0).unwrap();
    let c = p3(0.0, 1.0, 0.0).unwrap();
    let d = p3(0.0, 0.0, 1.0).unwrap();
    assert_eq!(
        orient3d(a, b, c, d, ctx()).unwrap(),
        OrientationSign::Positive
    );
}

#[test]
fn orient3d_negative_tetrahedron() {
    let a = p3(0.0, 0.0, 0.0).unwrap();
    let b = p3(0.0, 1.0, 0.0).unwrap();
    let c = p3(1.0, 0.0, 0.0).unwrap();
    let d = p3(0.0, 0.0, 1.0).unwrap();
    assert_eq!(
        orient3d(a, b, c, d, ctx()).unwrap(),
        OrientationSign::Negative
    );
}

#[test]
fn orient3d_exact_coplanar_is_degenerate() {
    let a = p3(0.0, 0.0, 0.0).unwrap();
    let b = p3(1.0, 0.0, 0.0).unwrap();
    let c = p3(0.0, 1.0, 0.0).unwrap();
    let d = p3(1.0, 1.0, 0.0).unwrap();
    assert_eq!(
        orient3d(a, b, c, d, ctx()).unwrap(),
        OrientationSign::Degenerate
    );
}

#[test]
fn orient3d_near_coplanar_is_uncertain() {
    let a = p3(0.0, 0.0, 0.0).unwrap();
    let b = p3(1.0, 0.0, 0.0).unwrap();
    let c = p3(0.0, 1.0, 0.0).unwrap();
    let d = p3(0.0, 0.0, 1.0e-11).unwrap();
    assert_eq!(
        orient3d(a, b, c, d, ctx()).unwrap(),
        OrientationSign::Uncertain
    );
}

#[test]
fn orient2d_scale_change_preserves_sign() {
    let scale = 1000.0_f64;
    let a = p2(0.0, 0.0).unwrap();
    let b = p2(scale, 0.0).unwrap();
    let c = p2(0.0, scale).unwrap();
    assert_eq!(orient2d(a, b, c, ctx()).unwrap(), OrientationSign::Positive);
}

#[test]
fn orient2d_deterministic() {
    let a = p2(1.0, 2.0).unwrap();
    let b = p2(3.0, 4.0).unwrap();
    let c = p2(5.0, 7.0).unwrap();
    let first = orient2d(a, b, c, ctx()).unwrap();
    let second = orient2d(a, b, c, ctx()).unwrap();
    assert_eq!(first, second);
}

#[test]
fn orient2d_adversarial_cancellation_gives_correct_sign() {
    let a = p2(0.5, 0.5).unwrap();
    let b = p2(12.0, 12.0).unwrap();
    let c = p2(24.0, 24.0 - 1.0e-10).unwrap();
    let result = orient2d(a, b, c, ctx()).unwrap();
    assert!(
        result == OrientationSign::Negative || result == OrientationSign::Uncertain,
        "adversarial near-collinear must be negative or uncertain, got {result:?}"
    );
}

#[test]
fn orient2d_translated_preserves_sign() {
    let offset_x = 1_000_000.0_f64;
    let a = p2(offset_x, 0.0).unwrap();
    let b = p2(1.0 + offset_x, 0.0).unwrap();
    let c = p2(offset_x, 1.0).unwrap();
    assert_eq!(orient2d(a, b, c, ctx()).unwrap(), OrientationSign::Positive);
}

#[test]
fn orient2d_huge_coordinates_give_consistent_sign() {
    let huge = 1.0e150_f64;
    let a = p2(huge, huge).unwrap();
    let b = p2(huge * 2.0, huge).unwrap();
    let c = p2(huge, huge * 2.0).unwrap();
    assert_eq!(orient2d(a, b, c, ctx()).unwrap(), OrientationSign::Positive);
}

#[test]
fn orient3d_permutation_changes_sign() {
    let a = p3(0.0, 0.0, 0.0).unwrap();
    let b = p3(1.0, 0.0, 0.0).unwrap();
    let c = p3(0.0, 1.0, 0.0).unwrap();
    let d = p3(0.0, 0.0, 1.0).unwrap();
    let positive = orient3d(a, b, c, d, ctx()).unwrap();
    let negative = orient3d(a, c, b, d, ctx()).unwrap();
    assert_eq!(positive, OrientationSign::Positive);
    assert_eq!(negative, OrientationSign::Negative);
}

#[test]
fn orient2d_degenerate_not_from_nan_path() {
    let a = p2(1.0, 1.0).unwrap();
    assert_eq!(
        orient2d(a, a, a, ctx()).unwrap(),
        OrientationSign::Degenerate
    );
}

#[test]
fn orient2d_boundary_just_below_uncertain() {
    let tolerance = effective_length(1.0);
    let a = p2(0.0, 0.0).unwrap();
    let b = p2(1.0, 0.0).unwrap();
    let c = p2(1.0, tolerance - 1.0e-12).unwrap();
    assert_eq!(
        orient2d(a, b, c, ctx()).unwrap(),
        OrientationSign::Uncertain
    );
}

#[test]
fn orient2d_boundary_just_above_uncertain() {
    let tolerance = effective_length(1.0);
    let a = p2(0.0, 0.0).unwrap();
    let b = p2(1.0, 0.0).unwrap();
    let c = p2(1.0, tolerance + 1.0e-6).unwrap();
    assert_eq!(orient2d(a, b, c, ctx()).unwrap(), OrientationSign::Positive);
}

#[test]
fn orient2d_scale1000_preserves_sign() {
    let scale = 1000.0_f64;
    let a = p2(0.0, 0.0).unwrap();
    let b = p2(scale, 0.0).unwrap();
    let c = p2(scale, scale).unwrap();
    assert_eq!(orient2d(a, b, c, ctx()).unwrap(), OrientationSign::Positive);
}

#[test]
fn orient2d_skinny_base_triangle() {
    let a = p2(0.0, 0.0).unwrap();
    let b = p2(1.0e9, 0.0).unwrap();
    let c = p2(1.0e9, 100.0).unwrap();
    assert_eq!(orient2d(a, b, c, ctx()).unwrap(), OrientationSign::Positive);
}

#[test]
fn orient3d_deterministic() {
    let a = p3(0.0, 0.0, 0.0).unwrap();
    let b = p3(3.0, 0.0, 0.0).unwrap();
    let c = p3(0.0, 4.0, 0.0).unwrap();
    let d = p3(0.0, 0.0, 5.0).unwrap();
    let first = orient3d(a, b, c, d, ctx()).unwrap();
    let second = orient3d(a, b, c, d, ctx()).unwrap();
    assert_eq!(first, second);
}

#[test]
fn orient3d_scale_100_works() {
    let a = p3(0.0, 0.0, 0.0).unwrap();
    let b = p3(100.0, 0.0, 0.0).unwrap();
    let c = p3(0.0, 100.0, 0.0).unwrap();
    let d = p3(0.0, 0.0, 100.0).unwrap();
    assert_eq!(
        orient3d(a, b, c, d, ctx()).unwrap(),
        OrientationSign::Positive
    );
}

#[test]
fn orient3d_huge_scale_gives_valid_result() {
    let huge = f64::MAX * 0.75;
    let a = p3(0.0, 0.0, 0.0).unwrap();
    let b = p3(huge, huge, huge).unwrap();
    let c = p3(huge, 0.0, 0.0).unwrap();
    let d = p3(0.0, huge, 0.0).unwrap();
    let result = orient3d(a, b, c, d, ctx()).unwrap();
    assert!(result == OrientationSign::Positive || result == OrientationSign::Negative);
}

#[test]
fn orient2d_regression_huge_ccw() {
    let local_ctx = tc(1e-9, 1e-8, 1e-7, 1e-10).unwrap();
    let a = p2(0.0, 0.0).unwrap();
    let b = p2(1e200, 0.0).unwrap();
    let c = p2(0.0, 1e200).unwrap();
    assert_eq!(
        orient2d(a, b, c, local_ctx).unwrap(),
        OrientationSign::Positive
    );
}

#[test]
fn orient3d_regression_huge_positive() {
    let local_ctx = tc(1e-9, 1e-9, 1e-7, 1e-10).unwrap();
    let scale = 1e110_f64;
    let a = p3(0.0, 0.0, 0.0).unwrap();
    let b = p3(scale, 0.0, 0.0).unwrap();
    let c = p3(0.0, scale, 0.0).unwrap();
    let d = p3(0.0, 0.0, scale).unwrap();
    assert_eq!(
        orient3d(a, b, c, d, local_ctx).unwrap(),
        OrientationSign::Positive
    );
}

#[test]
fn orient2d_subnormal_geometry_is_uncertain_not_degenerate() {
    let epsilon = f64::from_bits(1);
    let local_ctx = tc(1e-9, 1e-8, 1e-7, 1e-10).unwrap();
    let a = p2(0.0, 0.0).unwrap();
    let b = p2(epsilon, 0.0).unwrap();
    let c = p2(0.0, epsilon).unwrap();
    let result = orient2d(a, b, c, local_ctx).unwrap();
    assert_ne!(
        result,
        OrientationSign::Degenerate,
        "subnormal geometry must not be classified as Degenerate"
    );
    assert_eq!(result, OrientationSign::Uncertain);
}

#[test]
fn orient2d_permutation_sign_consistency() {
    let a = p2(0.0, 0.0).unwrap();
    let b = p2(1.0, 0.0).unwrap();
    let c = p2(0.0, 1.0).unwrap();
    let local_ctx = tc(1e-9, 1e-8, 1e-7, 1e-10).unwrap();
    assert_eq!(
        orient2d(a, b, c, local_ctx).unwrap(),
        OrientationSign::Positive
    );
    assert_eq!(
        orient2d(a, c, b, local_ctx).unwrap(),
        OrientationSign::Negative
    );
    assert_eq!(
        orient2d(b, c, a, local_ctx).unwrap(),
        OrientationSign::Positive
    );
    assert_eq!(
        orient2d(c, a, b, local_ctx).unwrap(),
        OrientationSign::Positive
    );
}

#[test]
fn orient2d_uncertain_is_permutation_invariant() {
    let a = p2(0.0, 0.0).unwrap();
    let b = p2(1.0, 0.0).unwrap();
    let c = p2(0.5, 1e-12).unwrap();
    let local_ctx = tc(1e-9, 1e-8, 1e-7, 1e-10).unwrap();
    let first = orient2d(a, b, c, local_ctx).unwrap();
    let second = orient2d(b, c, a, local_ctx).unwrap();
    let third = orient2d(c, a, b, local_ctx).unwrap();
    assert_eq!(first, OrientationSign::Uncertain);
    assert_eq!(second, OrientationSign::Uncertain);
    assert_eq!(third, OrientationSign::Uncertain);
}

#[test]
fn orient3d_uncertain_is_permutation_invariant() {
    let a = p3(0.0, 0.0, 0.0).unwrap();
    let b = p3(1.0, 0.0, 0.0).unwrap();
    let c = p3(0.0, 1.0, 0.0).unwrap();
    let d = p3(0.0, 0.0, 1e-11).unwrap();
    let local_ctx = tc(1e-9, 1e-8, 1e-7, 1e-10).unwrap();
    let first = orient3d(a, b, c, d, local_ctx).unwrap();
    let second = orient3d(b, a, c, d, local_ctx).unwrap();
    assert_eq!(first, OrientationSign::Uncertain);
    assert_eq!(second, OrientationSign::Uncertain);
}

#[test]
fn orient2d_regression_cc1_sign_preserved_near_unity() {
    let eps = 2.0_f64.powi(-54);
    let local_ctx = tc(f64::from_bits(1), 0.0, 1e-7, 1e-10).unwrap();
    let a = p2(1.0, 1.0).unwrap();
    let b = p2(0.0, -eps).unwrap();
    let c = p2(-eps, 0.0).unwrap();
    assert_eq!(
        orient2d(a, b, c, local_ctx).unwrap(),
        OrientationSign::Negative,
        "det = 1-(1+2^-54)^2 < 0; scaled code would return Degenerate"
    );
}

#[test]
fn orient2d_regression_cc2_scaled_gives_wrong_positive() {
    let bx = 3.0_f64;
    let by = f64::from_bits(0x3FFF_D830_6FE2_69C6_u64);
    let cx = f64::from_bits(0x3FFF_D830_6FE2_69C6_u64);
    let cy = f64::from_bits(0x3FF5_2061_99F9_9F21_u64);
    let local_ctx = tc(f64::from_bits(1), 0.0, 1e-7, 1e-10).unwrap();
    let a = p2(0.0, 0.0).unwrap();
    let b = p2(bx, by).unwrap();
    let c = p2(cx, cy).unwrap();
    assert_eq!(
        orient2d(a, b, c, local_ctx).unwrap(),
        OrientationSign::Negative,
        "exact det of original f64 coords is negative; scaled code returned Positive"
    );
}

#[test]
fn orient2d_regression_cc3_subnormal_y_not_erased() {
    let subnormal = f64::from_bits(1);
    let local_ctx = tc(f64::from_bits(1), 0.0, 1e-7, 1e-10).unwrap();
    let a = p2(0.0, 0.0).unwrap();
    let b = p2(f64::MAX, 0.0).unwrap();
    let c = p2(0.0, subnormal).unwrap();
    let result = orient2d(a, b, c, local_ctx).unwrap();
    assert_ne!(
        result,
        OrientationSign::Degenerate,
        "det = MAX × subnormal ≠ 0; must not be Degenerate"
    );
    assert!(result == OrientationSign::Positive || result == OrientationSign::Uncertain);
}

#[test]
fn orient2d_tolerance_overflow_is_error() {
    let local_ctx = tc(1e-9, f64::MAX, 1e-7, 1e-10).unwrap();
    let a = p2(0.0, 0.0).unwrap();
    let b = p2(2.0, 0.0).unwrap();
    let c = p2(0.0, 1.0).unwrap();
    match orient2d(a, b, c, local_ctx) {
        Err(PredicateError::Tolerance(ToleranceError::Overflow)) => {}
        other => panic!("expected Tolerance(Overflow), got {other:?}"),
    }
}

#[test]
fn orient3d_tolerance_overflow_is_error() {
    let local_ctx = tc(1e-9, f64::MAX, 1e-7, 1e-10).unwrap();
    let a = p3(0.0, 0.0, 0.0).unwrap();
    let b = p3(2.0, 0.0, 0.0).unwrap();
    let c = p3(0.0, 2.0, 0.0).unwrap();
    let d = p3(0.0, 0.0, 2.0).unwrap();
    match orient3d(a, b, c, d, local_ctx) {
        Err(PredicateError::Tolerance(ToleranceError::Overflow)) => {}
        other => panic!("expected Tolerance(Overflow), got {other:?}"),
    }
}

#[test]
fn orient3d_regression_cc1_embedded() {
    let eps = 2.0_f64.powi(-54);
    let local_ctx = tc(f64::from_bits(1), 0.0, 1e-7, 1e-10).unwrap();
    let a = p3(1.0, 1.0, 0.0).unwrap();
    let b = p3(0.0, -eps, 0.0).unwrap();
    let c = p3(-eps, 0.0, 0.0).unwrap();
    let d = p3(0.0, 0.0, 1.0).unwrap();
    assert_eq!(
        orient3d(a, b, c, d, local_ctx).unwrap(),
        OrientationSign::Negative
    );
}

#[test]
fn orient2d_exact_threshold_just_below() {
    let h = 1.910_076_881_312_769_7e-5_f64;
    let abs_tol = h * (1.0 + f64::EPSILON);
    let local_ctx = tc(abs_tol, 0.0, 1e-7, 1e-10).unwrap();
    let a = p2(-0.5, 0.0).unwrap();
    let b = p2(0.5, 0.0).unwrap();
    let c = p2(0.0, h).unwrap();
    assert_eq!(
        orient2d(a, b, c, local_ctx).unwrap(),
        OrientationSign::Uncertain
    );
}

#[test]
fn orient2d_exact_threshold_just_above() {
    let h = 1.910_076_881_312_769_7e-5_f64;
    let abs_tol = h * (1.0 - f64::EPSILON);
    let local_ctx = tc(abs_tol, 0.0, 1e-7, 1e-10).unwrap();
    let a = p2(-0.5, 0.0).unwrap();
    let b = p2(0.5, 0.0).unwrap();
    let c = p2(0.0, h).unwrap();
    assert_eq!(
        orient2d(a, b, c, local_ctx).unwrap(),
        OrientationSign::Positive
    );
}

/// Regression: with h = 2^-27 the largest exact edge-squared is
/// 1 + 2^-54 (edge BC).  `rel_tol² × (1 + 2^-54) > MAX²` so overflow
/// must be returned.  An uncertified fast path would compute
/// `fast_max_edge ≈ 1.0` (the subnormal correction rounds away), call
/// `effective_length(1.0) = MAX` (no f64 overflow), and incorrectly
/// short-circuit to `Uncertain`, bypassing the overflow error.
#[test]
fn orient2d_overflow_not_bypassed_by_fast_path() {
    let h = 2.0_f64.powi(-27);
    // abs_tol=1 (> h, so altitude is within absolute band), rel_tol=MAX
    let local_ctx = tc(1.0, f64::MAX, 1e-7, 1e-10).unwrap();
    let a = p2(0.0, 0.0).unwrap();
    let b = p2(1.0, 0.0).unwrap();
    let c = p2(0.0, h).unwrap();
    // Exact max_edge_sq = |BC|² = 1 + h² = 1 + 2^-54.
    // MAX² × (1 + 2^-54) > MAX² → overflow.
    match orient2d(a, b, c, local_ctx) {
        Err(PredicateError::Tolerance(ToleranceError::Overflow)) => {}
        other => panic!("expected Tolerance(Overflow), got {other:?}"),
    }
}

/// 3-D analogue of `orient2d_overflow_not_bypassed_by_fast_path`.
/// h = 2^-27; max exact edge-squared is |BC|² = 2 so MAX² × 2 > MAX².
#[test]
fn orient3d_overflow_not_bypassed_by_fast_path() {
    let height = 2.0_f64.powi(-27);
    let local_ctx = tc(1.0, f64::MAX, 1e-7, 1e-10).unwrap();
    let a = p3(0.0, 0.0, 0.0).unwrap();
    let b = p3(1.0, 0.0, 0.0).unwrap();
    let c = p3(0.0, 1.0, 0.0).unwrap();
    let d = p3(0.0, 0.0, height).unwrap();
    // max exact edge-squared = 2 (edge BC); MAX² × 2 > MAX² → overflow.
    match orient3d(a, b, c, d, local_ctx) {
        Err(PredicateError::Tolerance(ToleranceError::Overflow)) => {}
        other => panic!("expected Tolerance(Overflow), got {other:?}"),
    }
}
