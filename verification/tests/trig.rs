//! Certified rational enclosures of π, atan2, sin, and cos.
use amphion::exact::ExactRational;
use amphion::geometry::analytic::exact::f64_to_rat;
use amphion::geometry::analytic::transcendental::{
    atan2_interval, pi_interval, sin_cos_interval, tau_interval,
};
use amphion::geometry::analytic::trig::{RatInterval, TrigCap};
use amphion::geometry::error::TrigError;
use amphion::geometry::evaluation::CertificationBudget;

fn rat(x: f64) -> ExactRational {
    f64_to_rat(x.to_bits())
}

fn half(r: &ExactRational) -> ExactRational {
    RatInterval::point(r.clone()).scale(&ExactRational::from_ratio(1, 2)).lo
}

fn sum(a: &ExactRational, b: &ExactRational) -> ExactRational {
    RatInterval::point(a.clone()).add(&RatInterval::point(b.clone())).lo
}

fn product(a: &ExactRational, b: &ExactRational) -> ExactRational {
    RatInterval::point(a.clone()).scale(b).lo
}

fn neighbours(v: f64) -> (f64, f64) {
    let bits = v.to_bits();
    if v > 0.0 {
        (f64::from_bits(bits - 1), f64::from_bits(bits + 1))
    } else {
        (f64::from_bits(bits + 1), f64::from_bits(bits - 1))
    }
}

/// Both ends lie within half a unit in the last place of `v`, so the
/// interval's midpoint rounds to `v`.
fn assert_rounds_to(interval: &RatInterval, v: f64) {
    let (below, above) = neighbours(v);
    let low_edge = half(&sum(&rat(below), &rat(v)));
    let high_edge = half(&sum(&rat(v), &rat(above)));
    assert!(low_edge.at_most(&interval.lo), "lower end too far below {v}");
    assert!(interval.hi.at_most(&high_edge), "upper end too far above {v}");
}

fn assert_within(interval: &RatInterval, v: f64, tolerance: f64) {
    assert!(rat(v - tolerance).at_most(&interval.lo));
    assert!(interval.hi.at_most(&rat(v + tolerance)));
}

fn holds(interval: &RatInterval, v: &ExactRational) -> bool {
    interval.lo.at_most(v) && v.at_most(&interval.hi)
}

#[test]
fn pi_interval_contains_pi() {
    let budget = CertificationBudget::default();
    let pi_int = pi_interval(budget).unwrap();
    assert_rounds_to(&pi_int, std::f64::consts::PI);
    let width = pi_int.sub(&pi_int).hi;
    assert!(width.at_most(&rat(1e-50)), "pi interval too wide");
}

#[test]
fn tau_interval_is_twice_pi() {
    let budget = CertificationBudget::default();
    let pi_int = pi_interval(budget).unwrap();
    let tau_int = tau_interval(budget).unwrap();
    let two = ExactRational::from_int(2);
    assert!(tau_int.lo == product(&pi_int.lo, &two));
    assert!(tau_int.hi == product(&pi_int.hi, &two));
}

#[test]
fn atan2_interval_contains_known_angles() {
    let budget = CertificationBudget::default();
    let a = atan2_interval(&rat(1.0), &rat(1.0), budget).unwrap();
    assert_rounds_to(&a, std::f64::consts::FRAC_PI_4);

    let zero = ExactRational::from_int(0);
    let a0 = atan2_interval(&zero, &rat(1.0), budget).unwrap();
    assert!(holds(&a0, &zero));

    let a_half = atan2_interval(&rat(1.0), &zero, budget).unwrap();
    assert_rounds_to(&a_half, std::f64::consts::FRAC_PI_2);

    let a_neg_half = atan2_interval(&rat(-1.0), &zero, budget).unwrap();
    assert_rounds_to(&a_neg_half, -std::f64::consts::FRAC_PI_2);

    let a_pi = atan2_interval(&zero, &rat(-1.0), budget).unwrap();
    assert_rounds_to(&a_pi, std::f64::consts::PI);

    let a_neg3pi4 = atan2_interval(&rat(-1.0), &rat(-1.0), budget).unwrap();
    assert_rounds_to(&a_neg3pi4, -3.0 * std::f64::consts::FRAC_PI_4);

    assert!(matches!(atan2_interval(&zero, &ExactRational::from_int(0), budget), Err(TrigError::Pole)));
}

#[test]
fn sin_cos_interval_contains_known_values() {
    let budget = CertificationBudget::default();
    let zero = ExactRational::from_int(0);
    let one = ExactRational::from_int(1);
    let (s, c) = sin_cos_interval(&zero, budget).unwrap();
    assert!(holds(&s, &zero));
    assert!(holds(&c, &one));

    let pi = pi_interval(budget).unwrap();
    let pi_mid = half(&sum(&pi.lo, &pi.hi));
    let half_pi = half(&pi_mid);
    let (s2, c2) = sin_cos_interval(&half_pi, budget).unwrap();
    assert_within(&s2, 1.0, 1e-6);
    assert_within(&c2, 0.0, 1e-6);

    let (s3, c3) = sin_cos_interval(&pi_mid, budget).unwrap();
    assert_within(&s3, 0.0, 1e-6);
    assert_within(&c3, -1.0, 1e-6);
}

#[test]
fn sin_cos_pi_midpoint_not_zero_interval() {
    let budget = CertificationBudget::default();
    let pi = pi_interval(budget).unwrap();
    let pi_mid = half(&sum(&pi.lo, &pi.hi));
    let (s, _) = sin_cos_interval(&pi_mid, budget).unwrap();
    assert!(!s.hi.at_most(&s.lo), "sin(pi_mid) interval must have positive width");
    assert!(holds(&s, &ExactRational::from_int(0)));
}

#[test]
fn sin_cos_huge_argument_terminates() {
    let budget = CertificationBudget::default();
    let x = rat(f64::MAX);
    match sin_cos_interval(&x, budget) {
        Ok(_) | Err(TrigError::BudgetExhausted) => {}
        Err(e) => panic!("unexpected error: {e:?}"),
    }
}

#[test]
fn trig_budget_exhaustion_returns_error() {
    let budget = CertificationBudget::try_new(1, 64).unwrap();
    match pi_interval(budget) {
        Ok(_) | Err(TrigError::BudgetExhausted) => {}
        Err(e) => panic!("unexpected: {e:?}"),
    }
}

#[test]
fn converged_atan_interval_still_obeys_bit_budget() {
    let budget = CertificationBudget::try_new(1, 3).unwrap();
    let y = ExactRational::from_int(1);
    let x = ExactRational::from_int(5);
    assert!(matches!(atan2_interval(&y, &x, budget), Err(TrigError::BudgetExhausted)));
}

#[test]
fn fixed_trig_constants_are_preflighted_before_allocation() {
    let budget = CertificationBudget::try_new(200, 1).unwrap();
    let cap = TrigCap::new(budget);
    assert!(matches!(cap.unsigned_int(239), Err(TrigError::BudgetExhausted)));
    assert!(matches!(pi_interval(budget), Err(TrigError::BudgetExhausted)));
}

#[test]
fn atan2_rejects_huge_inputs_before_quotient() {
    let budget = CertificationBudget::try_new(8, 64).unwrap();
    let one = ExactRational::from_int(1);
    let mut huge = ExactRational::from_int(2);
    for _ in 0..12 {
        huge = product(&huge, &huge);
    }
    assert!(matches!(atan2_interval(&one, &huge, budget), Err(TrigError::BudgetExhausted)));
    assert!(matches!(atan2_interval(&huge, &one, budget), Err(TrigError::BudgetExhausted)));
}

#[test]
fn sin_cos_interval_zero_under_tiny_budget_is_exhausted() {
    let budget = CertificationBudget::try_new(1, 3).unwrap();
    assert!(matches!(
        sin_cos_interval(&ExactRational::from_int(0), budget),
        Err(TrigError::BudgetExhausted)
    ));
}

#[test]
fn rat_interval_div_matches_scalar_quotient() {
    let two = RatInterval::point(ExactRational::from_int(2));
    let four = RatInterval::point(ExactRational::from_int(4));
    let q = four.div(&two).ok().unwrap();
    assert!(q.lo == ExactRational::from_int(2));
    assert!(q.hi == ExactRational::from_int(2));
}

#[test]
fn rat_interval_div_rejects_divisor_containing_zero() {
    let one = RatInterval::point(ExactRational::from_int(1));
    let straddling = RatInterval { lo: ExactRational::from_int(-1), hi: ExactRational::from_int(1) };
    assert!(matches!(one.div(&straddling), Err(TrigError::DivisionByZero)));
}

#[test]
fn rat_interval_contains_zero_detects_straddling_and_point_intervals() {
    let straddling = RatInterval { lo: ExactRational::from_int(-1), hi: ExactRational::from_int(1) };
    assert!(straddling.contains_zero());
    let zero_point = RatInterval::point(ExactRational::from_int(0));
    assert!(zero_point.contains_zero());
    let positive = RatInterval::point(ExactRational::from_int(1));
    assert!(!positive.contains_zero());
}

#[test]
fn trig_series_u32_max_terms_no_panic() {
    let budget = CertificationBudget::try_new(u32::MAX, 256).unwrap();
    let x = rat(1.0);
    let result = sin_cos_interval(&x, budget);
    assert!(result.is_ok() || matches!(result, Err(TrigError::BudgetExhausted)));
}

#[test]
fn atan_series_u32_max_terms_no_panic() {
    let budget = CertificationBudget::try_new(u32::MAX, 256).unwrap();
    let one = ExactRational::from_int(1);
    let result = atan2_interval(&one, &one, budget);
    assert!(result.is_ok() || matches!(result, Err(TrigError::BudgetExhausted)));
}

#[test]
fn rat_interval_arithmetic_is_exact() {
    let a = RatInterval { lo: ExactRational::from_ratio(1, 3), hi: ExactRational::from_ratio(1, 2) };
    let b = RatInterval { lo: ExactRational::from_ratio(-1, 4), hi: ExactRational::from_int(2) };
    let s = a.add(&b);
    assert!(s.lo == ExactRational::from_ratio(1, 12));
    assert!(s.hi == ExactRational::from_ratio(5, 2));
    let d = a.sub(&b);
    assert!(d.lo == ExactRational::from_ratio(-5, 3));
    assert!(d.hi == ExactRational::from_ratio(3, 4));
    let n = a.neg();
    assert!(n.lo == ExactRational::from_ratio(-1, 2));
    assert!(n.hi == ExactRational::from_ratio(-1, 3));
    let scaled = a.scale(&ExactRational::from_int(-6));
    assert!(scaled.lo == ExactRational::from_int(-3));
    assert!(scaled.hi == ExactRational::from_int(-2));
    let w = a.widen(&ExactRational::from_ratio(1, 6));
    assert!(w.lo == ExactRational::from_ratio(1, 6));
    assert!(w.hi == ExactRational::from_ratio(2, 3));
    let divisor = RatInterval { lo: ExactRational::from_int(-4), hi: ExactRational::from_int(-2) };
    let q = a.div(&divisor).ok().unwrap();
    assert!(q.lo == ExactRational::from_ratio(-1, 4));
    assert!(q.hi == ExactRational::from_ratio(-1, 12));
}

#[test]
fn f64_to_rat_is_exact() {
    assert!(rat(0.5) == ExactRational::from_ratio(1, 2));
    assert!(rat(-3.0) == ExactRational::from_int(-3));
    assert!(rat(-0.0) == ExactRational::from_int(0));
    assert!(rat(0.1) == ExactRational::from_ratio(3602879701896397, 36028797018963968));
    assert!(rat(1.0e300).at_most(&rat(f64::MAX)));
    assert!(rat(5.0e-324).at_most(&rat(1.0e-323)));
    assert!(!rat(1.0e-323).at_most(&rat(5.0e-324)));
}

#[test]
fn pi_interval_brackets_machin_bounds() {
    let pi = pi_interval(CertificationBudget::default()).unwrap();
    assert!(ExactRational::from_int(3).at_most(&pi.lo));
    assert!(pi.hi.at_most(&ExactRational::from_int(4)));
    assert!(pi.lo.at_most(&pi.hi));
}

#[test]
fn pi_interval_needs_room_for_its_constants() {
    let narrow = CertificationBudget::try_new(200, 3).unwrap();
    assert!(matches!(pi_interval(narrow), Err(TrigError::BudgetExhausted)));
    assert!(tau_interval(narrow).is_err());
    assert!(pi_interval(CertificationBudget::default()).is_ok());
}
