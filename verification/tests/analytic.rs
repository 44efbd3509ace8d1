//! Resource caps and failure reporting of the certified exact backends.
use amphion::geometry::analytic::helpers::{
    canonicalize_periodic_endpoint, check_angular_tolerance, check_parametric_tolerance,
    check_rational_budget, in_range,
    normalization_to_construction, rational_budget_exhausted, trig_err_to_uncertified,
    RationalCap,
};
use amphion::exact::ExactRational;
use amphion::geometry::analytic::trig::TrigCap;
use amphion::geometry::error::{ConstructionError, GeometryError, TrigError};
use amphion::geometry::evaluation::CertificationBudget;
use amphion::geometry::analytic::exact::f64_to_rat;
use amphion::geometry::domain::ParameterRange;
use num_traits::ToPrimitive;
use amphion::unit::NormalizationError;
use amphion::tolerance::ToleranceContext;

fn budget(series_terms: u32, rational_bits: u32) -> CertificationBudget {
    CertificationBudget::try_new(series_terms, rational_bits).unwrap()
}

fn reason(error: GeometryError) -> String {
    match error {
        GeometryError::Uncertified { reason } => reason,
        other => panic!("expected an uncertified failure, got {other:?}"),
    }
}

#[test]
fn trig_budget_zero_terms_is_unrepresentable() {
    assert!(CertificationBudget::try_new(0, 4096).is_err());
}

#[test]
fn normalization_to_construction_maps_zero_magnitude_to_degenerate_axis() {
    assert_eq!(
        normalization_to_construction(NormalizationError::ZeroMagnitude),
        ConstructionError::DegenerateAxis
    );
}

#[test]
fn normalization_to_construction_maps_non_finite_to_non_finite_input() {
    assert_eq!(
        normalization_to_construction(NormalizationError::NonFinite),
        ConstructionError::NonFiniteInput
    );
}

#[test]
fn normalization_to_construction_maps_not_normalized_to_non_finite_input() {
    assert_eq!(
        normalization_to_construction(NormalizationError::NotNormalized),
        ConstructionError::NonFiniteInput
    );
}

#[test]
fn trig_cap_takes_budget_limits() {
    let cap = TrigCap::new(budget(17, 300));
    assert_eq!(cap.bits(), 300);
    assert_eq!(cap.series_terms(), 17);
}

#[test]
fn trig_cap_threshold_bits_stays_below_cap() {
    let cap = TrigCap::new(budget(1, 64));
    assert_eq!(cap.threshold_bits(1000), 63);
    assert_eq!(cap.threshold_bits(10), 10);
    assert_eq!(TrigCap::new(budget(1, 1)).threshold_bits(5), 0);
}

#[test]
fn trig_cap_within_is_inclusive() {
    let cap = TrigCap::new(budget(1, 8));
    assert_eq!(cap.within(8), Ok(()));
    assert_eq!(cap.within(0), Ok(()));
    assert_eq!(cap.within(9), Err(TrigError::BudgetExhausted));
    assert_eq!(cap.within(u64::MAX), Err(TrigError::BudgetExhausted));
}

#[test]
fn unsigned_integers_are_preflighted() {
    let cap = TrigCap::new(budget(200, 1));
    assert!(cap.unsigned_int(1).is_ok());
    assert!(cap.unsigned_int(0).is_ok());
    assert!(matches!(cap.unsigned_int(2), Err(TrigError::BudgetExhausted)));
    let wider = TrigCap::new(budget(200, 8));
    assert!(wider.unsigned_int(239).is_ok());
    assert!(matches!(wider.unsigned_int(256), Err(TrigError::BudgetExhausted)));
}

#[test]
fn trig_cap_integer_arithmetic_preflights_bit_widths() {
    let cap = TrigCap::new(budget(1, 16));
    let big = cap.unsigned_int(255).unwrap();
    let small = cap.unsigned_int(3).unwrap();
    // 8 + 2 bits fit, 8 + 8 bits fit exactly, 9 + 8 do not.
    assert!(cap.mul_int(&big, &small).is_ok());
    assert!(cap.mul_int(&big, &big).is_ok());
    let bigger = cap.unsigned_int(256).unwrap();
    assert!(matches!(cap.mul_int(&bigger, &big), Err(TrigError::BudgetExhausted)));
    assert!(cap.sub_int(&small, &big).is_ok());
    let tight = TrigCap::new(budget(1, 8));
    let eight_bits = tight.unsigned_int(200).unwrap();
    assert!(matches!(tight.sub_int(&eight_bits, &eight_bits), Err(TrigError::BudgetExhausted)));
    assert!(tight.admit_int(&eight_bits).is_ok());
    assert!(tight.pow2(7).is_ok());
    assert!(matches!(tight.pow2(8), Err(TrigError::BudgetExhausted)));
}

#[test]
fn trig_cap_integer_results_are_exact() {
    let cap = TrigCap::new(budget(1, 64));
    let a = cap.unsigned_int(1000).unwrap();
    let b = cap.unsigned_int(24).unwrap();
    let product = cap.mul_int(&a, &b).unwrap();
    let difference = cap.sub_int(&b, &a).unwrap();
    // The results are observable through their bit widths.
    let p = cap.pow2(14).unwrap();
    assert!(cap.within(15).is_ok());
    let tight = TrigCap::new(budget(1, 15));
    assert!(tight.admit_int(&product).is_ok());
    let tighter = TrigCap::new(budget(1, 14));
    assert!(tighter.admit_int(&product).is_err());
    assert!(TrigCap::new(budget(1, 10)).admit_int(&difference).is_ok());
    assert!(TrigCap::new(budget(1, 9)).admit_int(&difference).is_err());
    assert!(tight.admit_int(&p).is_ok());
    assert!(tighter.admit_int(&p).is_err());
}

#[test]
fn rational_cap_reports_budget_exhaustion() {
    let cap = RationalCap::new(budget(1, 32));
    assert!(cap.within(32).is_ok());
    let error = cap.within(33).unwrap_err();
    assert_eq!(
        reason(error),
        "intermediate exact-rational value exceeded the certification bit-width budget"
    );
    assert_eq!(reason(rational_budget_exhausted()), reason(cap.within(1000).unwrap_err()));
}

#[test]
fn rational_cap_preflights_f64_decoding() {
    let small = RationalCap::new(budget(1, 64));
    assert!(small.guard_f64_decode(0.0_f64.to_bits()).is_ok());
    assert!(small.guard_f64_decode((-0.0_f64).to_bits()).is_ok());
    assert!(small.guard_f64_decode(1.0_f64.to_bits()).is_ok());
    assert!(small.guard_f64_decode(3.0_f64.to_bits()).is_ok());
    // 0.5 = 2^52 × 2^-53 needs a 54-bit denominator.
    assert!(small.guard_f64_decode(0.5_f64.to_bits()).is_ok());
    // 2^-20 needs a 74-bit denominator.
    assert!(small.guard_f64_decode(2.0_f64.powi(-20).to_bits()).is_err());
    // 2^20 = 2^52 × 2^-32 fits.
    assert!(small.guard_f64_decode(2.0_f64.powi(20).to_bits()).is_ok());
    // 2^40 = 2^52 × 2^-12 fits; 2^80 = 2^52 × 2^28 needs 53 + 28 = 81 bits.
    assert!(small.guard_f64_decode(2.0_f64.powi(80).to_bits()).is_err());
    let wide = RationalCap::new(budget(1, 2048));
    assert!(wide.guard_f64_decode(f64::MAX.to_bits()).is_ok());
    // The smallest subnormal is 1 × 2^-1074: a 1075-bit denominator.
    assert!(wide.guard_f64_decode(1).is_ok());
    assert!(RationalCap::new(budget(1, 1075)).guard_f64_decode(1).is_ok());
    assert!(RationalCap::new(budget(1, 1074)).guard_f64_decode(1).is_err());
}

#[test]
fn trig_errors_map_to_uncertified_reasons() {
    assert_eq!(
        reason(trig_err_to_uncertified(TrigError::BudgetExhausted)),
        "certified trigonometric computation exceeded its series or bit-width budget"
    );
    assert_eq!(
        reason(trig_err_to_uncertified(TrigError::Pole)),
        "certified atan2 is undefined at the origin (zero in-plane displacement)"
    );
    assert_eq!(
        reason(trig_err_to_uncertified(TrigError::DivisionByZero)),
        "certified trigonometric computation attempted division by an interval containing zero"
    );
}

#[test]
fn normalization_error_messages_are_stable() {
    assert_eq!(NormalizationError::ZeroMagnitude.message(), "cannot normalize a zero-length vector");
    assert_eq!(NormalizationError::NonFinite.message(), "unit-vector components must be finite");
}

fn is_budget_failure(error: GeometryError) -> bool {
    reason(error) == "intermediate exact-rational value exceeded the certification bit-width budget"
}

#[test]
fn rational_cap_arithmetic_is_exact_within_budget() {
    let cap = RationalCap::new(budget(1, 64));
    let a = ExactRational::from_ratio(3, 4);
    let b = ExactRational::from_ratio(-5, 6);
    assert!(cap.add(&a, &b).ok().unwrap() == ExactRational::from_ratio(-1, 12));
    assert!(cap.sub(&a, &b).ok().unwrap() == ExactRational::from_ratio(19, 12));
    assert!(cap.mul(&a, &b).ok().unwrap() == ExactRational::from_ratio(-5, 8));
    assert!(cap.div(&a, &b).ok().unwrap() == ExactRational::from_ratio(-9, 10));
    assert!(cap.neg(&a).ok().unwrap() == ExactRational::from_ratio(-3, 4));
    assert!(cap.integer(-7).ok().unwrap() == ExactRational::from_int(-7));
    assert!(cap.integer(i64::MIN).is_ok());
    assert!(cap.admit_rational(&a).is_ok());
    assert!(cap.admitted(a.clone()).ok().unwrap() == a);
}

#[test]
fn rational_cap_rejects_oversized_work() {
    let cap = RationalCap::new(budget(1, 8));
    let a = ExactRational::from_ratio(200, 3);
    let b = ExactRational::from_ratio(1, 255);
    // 8 + 8 numerator bits exceed the cap before multiplying.
    assert!(is_budget_failure(cap.mul(&a, &ExactRational::from_int(200)).err().unwrap()));
    // The combined numerator bound max(8 + 8, 2 + 1) + 1 exceeds the cap.
    assert!(is_budget_failure(cap.add(&a, &b).err().unwrap()));
    assert!(cap.guard_mul(&ExactRational::from_int(15), &ExactRational::from_int(15)).is_ok());
    assert!(cap.guard_mul(&ExactRational::from_int(16), &ExactRational::from_int(16)).is_err());
    assert!(cap.guard_addsub(&ExactRational::from_int(3), &ExactRational::from_int(50)).is_ok());
    assert!(cap.guard_addsub(&ExactRational::from_int(3), &ExactRational::from_int(100)).is_err());
    assert!(is_budget_failure(cap.integer(256).err().unwrap()));
    assert!(cap.integer(255).is_ok());
    assert!(is_budget_failure(cap.admit_rational(&ExactRational::from_ratio(1, 256)).err().unwrap()));
}

#[test]
fn rational_cap_rejects_division_by_zero() {
    let cap = RationalCap::new(budget(1, 64));
    let zero = ExactRational::from_int(0);
    let one = ExactRational::from_int(1);
    assert_eq!(reason(cap.div(&one, &zero).err().unwrap()), "exact-rational division by zero");
    assert_eq!(
        reason(cap.guard_div(&one, &zero).err().unwrap()),
        "exact-rational division by zero"
    );
    assert!(cap.guard_div(&zero, &one).is_ok());
}

#[test]
fn rational_cap_decodes_and_preflights_conversions() {
    let cap = RationalCap::new(budget(1, 64));
    assert!(cap.decode_f64(0.75_f64.to_bits()).ok().unwrap() == ExactRational::from_ratio(3, 4));
    assert!(cap.decode_f64(2.0_f64.powi(-20).to_bits()).is_err());
    // 8 bits plus the 56-bit conversion shift fit exactly; 9 do not.
    assert!(cap.guard_to_f64(&ExactRational::from_int(255)).is_ok());
    assert!(cap.guard_to_f64(&ExactRational::from_int(256)).is_err());
    assert!(check_rational_budget(budget(1, 4), &ExactRational::from_ratio(15, 16)).is_err());
    assert!(check_rational_budget(budget(1, 5), &ExactRational::from_ratio(15, 16)).is_ok());
}

#[test]
fn in_range_accepts_finite_parameters_inside_the_bounds() {
    let tau = std::f64::consts::TAU;
    let full = ParameterRange::try_new(Some(0.0_f64.to_bits()), Some(tau.to_bits()), Some(tau.to_bits()))
        .unwrap();
    assert!(in_range(std::f64::consts::PI.to_bits(), full));
    assert!(in_range(tau.to_bits(), full));
    assert!(in_range((-0.0_f64).to_bits(), full));
    assert!(!in_range((-1.0_f64).to_bits(), full));
    assert!(!in_range(f64::NAN.to_bits(), full));
    let unbounded = ParameterRange::try_new(None, None, None).unwrap();
    assert!(in_range(1.0e300_f64.to_bits(), unbounded));
    assert!(!in_range(f64::INFINITY.to_bits(), unbounded));
}

#[test]
fn f64_to_rat_round_trip() {
    let xs = [
        0.0_f64,
        1.0,
        -1.0,
        2.0_f64.powi(-52),
        f64::MAX,
        f64::MIN_POSITIVE * 0.5,
    ];
    for x in xs {
        let r = f64_to_rat(x.to_bits());
        let back = r.as_ratio().to_f64().unwrap();
        assert_eq!(back, x, "round trip failed for {x}");
    }
}

#[test]
fn full_period_upper_endpoint_maps_to_the_seam() {
    let tau = std::f64::consts::TAU;
    let full = ParameterRange::try_new(Some(0.0_f64.to_bits()), Some(tau.to_bits()), Some(tau.to_bits()))
        .unwrap();
    assert_eq!(canonicalize_periodic_endpoint(tau.to_bits(), full), 0.0_f64.to_bits());
    let pi = std::f64::consts::PI.to_bits();
    assert_eq!(canonicalize_periodic_endpoint(pi, full), pi);
    // A shifted full period maps its upper end exactly when the binary64
    // span equals the period.
    let (lower, upper) = (1.0_f64, 1.0_f64 + tau);
    let shifted = ParameterRange::try_new(Some(lower.to_bits()), Some(upper.to_bits()), Some(tau.to_bits()))
        .unwrap();
    let expected = if (upper - lower).to_bits() == tau.to_bits() { lower } else { upper };
    assert_eq!(canonicalize_periodic_endpoint(upper.to_bits(), shifted), expected.to_bits());
    // A range shorter than its period keeps its upper end.
    let partial = ParameterRange::try_new(Some(0.0_f64.to_bits()), Some(3.0_f64.to_bits()), Some(tau.to_bits()))
        .unwrap();
    assert_eq!(canonicalize_periodic_endpoint(3.0_f64.to_bits(), partial), 3.0_f64.to_bits());
    // Without a period nothing is remapped.
    let open = ParameterRange::try_new(Some(0.0_f64.to_bits()), Some(tau.to_bits()), None).unwrap();
    assert_eq!(canonicalize_periodic_endpoint(tau.to_bits(), open), tau.to_bits());
}

fn tol() -> ToleranceContext {
    ToleranceContext::try_new(1e-9f64.to_bits(), 1e-8f64.to_bits(), 1e-10f64.to_bits(), 1e-12f64.to_bits())
        .unwrap()
}

#[test]
fn check_angular_tolerance_uses_unit_scale() {
    assert!(check_angular_tolerance(&tol(), 1.0f64.to_bits()).is_err());
    assert!(check_angular_tolerance(&tol(), 1e-15f64.to_bits()).is_ok());
}

#[test]
fn check_angular_tolerance_reports_its_reason() {
    let e = check_angular_tolerance(&tol(), 1e-9f64.to_bits()).unwrap_err();
    assert_eq!(reason(e), "certified angular parameter error bound exceeds angular tolerance");
    assert!(check_angular_tolerance(&tol(), 1e-10f64.to_bits()).is_ok());
}

#[test]
fn check_parametric_tolerance_compares_with_the_parametric_tolerance() {
    assert!(check_parametric_tolerance(&tol(), 1e-12f64.to_bits()).is_ok());
    let e = check_parametric_tolerance(&tol(), 2e-12f64.to_bits()).unwrap_err();
    assert_eq!(reason(e), "certified parameter-space error bound exceeds parametric tolerance");
}

#[test]
fn tolerance_checks_follow_binary64_comparison_for_special_bounds() {
    assert!(check_parametric_tolerance(&tol(), f64::NAN.to_bits()).is_ok());
    assert!(check_parametric_tolerance(&tol(), f64::INFINITY.to_bits()).is_err());
    assert!(check_angular_tolerance(&tol(), f64::NEG_INFINITY.to_bits()).is_ok());
    assert!(check_angular_tolerance(&tol(), (-1.0f64).to_bits()).is_ok());
}
