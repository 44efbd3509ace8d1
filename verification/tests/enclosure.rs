//! Budgeted interval arithmetic and the exact core of cone projection.
use amphion::exact::ExactRational;
use amphion::geometry::analytic::cone_projection::{
    cone_ray_candidates, make_apex_candidate, make_cone_ray_candidate, select_cone_candidate, ConeCandidate,
    ConeCandidateKind,
};
use amphion::geometry::analytic::enclosure::{
    admissible_ray_parameter, check_interval_budget, checked_rat, circle_component_intervals,
    cone_component_intervals, interval_add, interval_cross3, interval_div, interval_hull,
    interval_mul, interval_neg, interval_point, interval_scale, interval_square,
    interval_strictly_less, interval_sub, norm_squared, normalized_components, ratio_by_bracket,
    raw_add_scaled3, raw_cross3, raw_dot3, raw_sub_scaled3, ray_parameter, squared_distance2,
    squared_distance3,
};
use amphion::geometry::analytic::trig::RatInterval;
use amphion::geometry::error::GeometryError;
use amphion::geometry::evaluation::CertificationBudget;

const BUDGET_EXHAUSTED: &str =
    "intermediate exact-rational value exceeded the certification bit-width budget";

fn budget(rational_bits: u32) -> CertificationBudget {
    CertificationBudget::try_new(64, rational_bits).unwrap()
}

fn wide() -> CertificationBudget {
    budget(4096)
}

fn q(n: i64, d: i64) -> ExactRational {
    ExactRational::from_ratio(n, d)
}

fn whole(n: i64) -> ExactRational {
    ExactRational::from_int(n)
}

fn iv(lo: i64, hi: i64) -> RatInterval {
    RatInterval { lo: whole(lo), hi: whole(hi) }
}

fn is(interval: &RatInterval, lo: ExactRational, hi: ExactRational) -> bool {
    interval.lo == lo && interval.hi == hi
}

fn reason(error: GeometryError) -> String {
    match error {
        GeometryError::Uncertified { reason } => reason,
        other => panic!("expected an uncertified failure, got {other:?}"),
    }
}

fn failure<T>(result: Result<T, GeometryError>) -> GeometryError {
    match result {
        Err(e) => e,
        Ok(_) => panic!("expected a failure"),
    }
}

fn holds(interval: &RatInterval, x: &ExactRational) -> bool {
    interval.lo.at_most(x) && x.at_most(&interval.hi)
}

#[test]
fn interval_add_sums_matching_endpoints() {
    let sum = interval_add(wide(), &iv(1, 2), &iv(3, 5)).unwrap();
    assert!(is(&sum, whole(4), whole(7)));
}

#[test]
fn interval_sub_pairs_opposite_endpoints() {
    let difference = interval_sub(wide(), &iv(1, 2), &iv(3, 5)).unwrap();
    assert!(is(&difference, whole(-4), whole(-1)));
}

#[test]
fn interval_mul_takes_the_extreme_products() {
    let product = interval_mul(wide(), &iv(-1, 2), &iv(3, 4)).unwrap();
    assert!(is(&product, whole(-4), whole(8)));
    for (x, y) in [(-1, 3), (0, 4), (2, 4), (1, 3)] {
        assert!(holds(&product, &whole(x * y)));
    }
}

#[test]
fn interval_scale_swaps_endpoints_for_a_negative_scalar() {
    let scaled = interval_scale(wide(), &iv(1, 2), &whole(-3)).unwrap();
    assert!(is(&scaled, whole(-6), whole(-3)));
    let scaled = interval_scale(wide(), &iv(1, 2), &q(1, 2)).unwrap();
    assert!(is(&scaled, q(1, 2), whole(1)));
}

#[test]
fn interval_neg_mirrors_the_interval() {
    let negated = interval_neg(wide(), &iv(1, 2)).unwrap();
    assert!(is(&negated, whole(-2), whole(-1)));
}

#[test]
fn interval_div_refuses_a_divisor_holding_zero() {
    let err = failure(interval_div(wide(), &iv(1, 2), &iv(-1, 1)));
    assert_eq!(reason(err), "certified interval division contains zero in the denominator");
}

#[test]
fn interval_div_takes_the_extreme_quotients() {
    let quotient = interval_div(wide(), &iv(1, 2), &iv(2, 4)).unwrap();
    assert!(is(&quotient, q(1, 4), whole(1)));
    let quotient = interval_div(wide(), &iv(1, 2), &iv(-4, -2)).unwrap();
    assert!(is(&quotient, whole(-1), q(-1, 4)));
}

#[test]
fn interval_hull_covers_both_intervals() {
    let hull = interval_hull(wide(), &iv(1, 3), &iv(2, 5)).unwrap();
    assert!(is(&hull, whole(1), whole(5)));
}

#[test]
fn interval_square_is_non_negative() {
    assert!(is(&interval_square(wide(), &iv(-2, 1)).unwrap(), whole(0), whole(4)));
    assert!(is(&interval_square(wide(), &iv(2, 3)).unwrap(), whole(4), whole(9)));
    assert!(is(&interval_square(wide(), &iv(-3, -2)).unwrap(), whole(4), whole(9)));
}

#[test]
fn interval_arithmetic_reports_budget_exhaustion() {
    let err = failure(interval_add(budget(2), &iv(1, 1), &iv(3, 3)));
    assert_eq!(reason(err), BUDGET_EXHAUSTED);
    let err = failure(interval_mul(budget(3), &iv(1, 4), &iv(1, 4)));
    assert_eq!(reason(err), BUDGET_EXHAUSTED);
    assert!(interval_mul(budget(6), &iv(1, 4), &iv(1, 4)).is_ok());
}

#[test]
fn budget_checks_admit_exactly_what_fits() {
    assert!(check_interval_budget(budget(4), &iv(1, 15)).is_ok());
    assert!(check_interval_budget(budget(4), &iv(1, 16)).is_err());
    assert!(checked_rat(budget(4), q(15, 16)).is_err());
    assert!(checked_rat(budget(5), q(15, 16)).unwrap() == q(15, 16));
    let point = interval_point(wide(), q(-3, 7)).unwrap();
    assert!(is(&point, q(-3, 7), q(-3, 7)));
}

#[test]
fn raw_vector_products_are_exact() {
    let a = [whole(1), whole(2), whole(3)];
    let b = [whole(4), whole(5), whole(6)];
    assert!(raw_dot3(wide(), &a, &b).unwrap() == whole(32));
    let cross = raw_cross3(wide(), &a, &b).unwrap();
    assert!(cross[0] == whole(-3) && cross[1] == whole(6) && cross[2] == whole(-3));
    let moved = raw_sub_scaled3(wide(), &a, &b, &q(1, 2)).unwrap();
    assert!(moved[0] == whole(-1) && moved[1] == q(-1, 2) && moved[2] == whole(0));
    let moved = raw_add_scaled3(wide(), &a, &b, &whole(2)).unwrap();
    assert!(moved[0] == whole(9) && moved[1] == whole(12) && moved[2] == whole(15));
}

#[test]
fn interval_cross3_of_point_intervals_is_the_cross_product() {
    let x = [iv(1, 1), iv(0, 0), iv(0, 0)];
    let y = [iv(0, 0), iv(1, 1), iv(0, 0)];
    let cross = interval_cross3(wide(), &x, &y).unwrap();
    assert!(is(&cross[0], whole(0), whole(0)));
    assert!(is(&cross[1], whole(0), whole(0)));
    assert!(is(&cross[2], whole(1), whole(1)));
}

#[test]
fn squared_distances_enclose_the_offsets() {
    let d2 = squared_distance2(wide(), &[whole(3), whole(4)], &[iv(0, 0), iv(0, 0)]).unwrap();
    assert!(is(&d2, whole(25), whole(25)));
    let d3 = squared_distance3(wide(), &[whole(1), whole(2), whole(2)], &[iv(0, 0), iv(0, 0), iv(0, 1)])
        .unwrap();
    assert!(is(&d3, whole(6), whole(9)));
}

#[test]
fn circle_components_evaluate_position_and_derivatives() {
    // base 1, frame x = 1, y = 0, r cos t = 2, r sin t = 3.
    let (position, first, second) =
        circle_component_intervals(wide(), &whole(1), &iv(1, 1), &iv(0, 0), &iv(2, 2), &iv(3, 3))
            .unwrap();
    assert!(is(&position, whole(3), whole(3)));
    assert!(is(&first, whole(-3), whole(-3)));
    assert!(is(&second, whole(-2), whole(-2)));
}

#[test]
fn cone_components_evaluate_position_and_derivatives() {
    // apex 1, z = 1, x = 1, y = 0, v = 2, tan = 1, sin u = 0, cos u = 1.
    let (position, du, dv, duu, duv) = cone_component_intervals(
        wide(),
        &whole(1),
        &iv(1, 1),
        &iv(1, 1),
        &iv(0, 0),
        &whole(2),
        &iv(1, 1),
        &iv(0, 0),
        &iv(1, 1),
    )
    .unwrap();
    assert!(is(&position, whole(5), whole(5)));
    assert!(is(&du, whole(0), whole(0)));
    assert!(is(&dv, whole(2), whole(2)));
    assert!(is(&duu, whole(-2), whole(-2)));
    assert!(is(&duv, whole(0), whole(0)));
}

#[test]
fn ratio_by_bracket_uses_the_bracket_ends() {
    assert!(is(&ratio_by_bracket(wide(), &whole(3), &whole(1), &whole(2)).unwrap(), q(3, 2), whole(3)));
    assert!(is(&ratio_by_bracket(wide(), &whole(-3), &whole(1), &whole(2)).unwrap(), whole(-3), q(-3, 2)));
    assert!(is(&ratio_by_bracket(wide(), &whole(0), &whole(1), &whole(2)).unwrap(), whole(0), whole(0)));
}

#[test]
fn ray_parameter_solves_the_nearest_generator_point() {
    let positive = ray_parameter(wide(), &iv(1, 1), &iv(1, 1), &iv(1, 1), true).unwrap();
    assert!(is(&positive, whole(1), whole(1)));
    let negative = ray_parameter(wide(), &iv(1, 1), &iv(1, 1), &iv(1, 1), false).unwrap();
    assert!(is(&negative, whole(0), whole(0)));
}

#[test]
fn admissibility_needs_a_sign_certificate() {
    assert_eq!(admissible_ray_parameter(&iv(1, 2)).unwrap(), true);
    assert_eq!(admissible_ray_parameter(&iv(-2, 0)).unwrap(), false);
    let err = failure(admissible_ray_parameter(&iv(-1, 1)));
    assert_eq!(
        reason(err),
        "cone ray admissibility cannot be proved from its certified parameter interval"
    );
}

#[test]
fn strictly_less_compares_whole_intervals() {
    assert!(interval_strictly_less(&iv(1, 2), &iv(3, 4)));
    assert!(!interval_strictly_less(&iv(1, 3), &iv(3, 4)));
}

#[test]
fn norm_squared_sums_squares_and_refuses_zero() {
    let norm = norm_squared(wide(), &[whole(3), whole(4)], "zero").unwrap();
    assert!(norm == whole(25));
    let err = failure(norm_squared(wide(), &[whole(0), whole(0), whole(0)], "zero vector"));
    assert_eq!(reason(err), "zero vector");
    let err = failure(norm_squared(budget(4), &[whole(3), whole(4)], "zero"));
    assert_eq!(reason(err), BUDGET_EXHAUSTED);
}

#[test]
fn normalized_components_divide_by_the_bracket() {
    let five = 5.0_f64.to_bits();
    let (unit, norm) =
        normalized_components(wide(), &[whole(3), whole(4)], five, five, "underflow").unwrap();
    assert!(is(&norm, whole(5), whole(5)));
    assert!(is(&unit[0], q(3, 5), q(3, 5)));
    assert!(is(&unit[1], q(4, 5), q(4, 5)));
    let err = failure(normalized_components(wide(), &[whole(3)], 0.0_f64.to_bits(), five, "underflow"));
    assert_eq!(reason(err), "underflow");
    let err = failure(normalized_components(wide(), &[whole(3)], five, f64::INFINITY.to_bits(), "underflow"));
    assert_eq!(reason(err), "underflow");
}

fn candidate(kind: ConeCandidateKind, lo: i64, hi: i64) -> ConeCandidate {
    ConeCandidate {
        kind,
        v: iv(0, 0),
        point: [iv(0, 0), iv(0, 0), iv(0, 0)],
        squared_distance: iv(lo, hi),
    }
}

#[test]
fn apex_candidate_measures_the_apex_distance() {
    let apex = [whole(0), whole(0), whole(0)];
    let query = [whole(1), whole(2), whole(2)];
    let c = make_apex_candidate(wide(), &apex, &query).unwrap();
    assert_eq!(c.kind, ConeCandidateKind::Apex);
    assert!(is(&c.squared_distance, whole(9), whole(9)));
    assert!(is(&c.v, whole(0), whole(0)));
}

#[test]
fn ray_candidate_places_the_point_on_its_nappe() {
    // Axis z, radial unit x, tan = 1: the positive ray at v = 1 is (1, 0, 1).
    let apex = [whole(0), whole(0), whole(0)];
    let axis = [iv(0, 0), iv(0, 0), iv(1, 1)];
    let unit = [iv(1, 1), iv(0, 0), iv(0, 0)];
    let query = [whole(1), whole(0), whole(1)];
    let c = make_cone_ray_candidate(
        wide(),
        ConeCandidateKind::Positive,
        &apex,
        &axis,
        &unit,
        &iv(1, 1),
        iv(1, 1),
        &query,
    )
    .unwrap();
    assert!(is(&c.point[0], whole(1), whole(1)) && is(&c.point[2], whole(1), whole(1)));
    assert!(is(&c.squared_distance, whole(0), whole(0)));
    // The negative ray at parameter 1 sits at v = -1: (1, 0, -1).
    let c = make_cone_ray_candidate(
        wide(),
        ConeCandidateKind::Negative,
        &apex,
        &axis,
        &unit,
        &iv(1, 1),
        iv(1, 1),
        &query,
    )
    .unwrap();
    assert!(is(&c.v, whole(-1), whole(-1)));
    assert!(is(&c.point[0], whole(1), whole(1)) && is(&c.point[2], whole(-1), whole(-1)));
    assert!(is(&c.squared_distance, whole(4), whole(4)));
}

#[test]
fn selection_reports_the_certainly_closest_candidate() {
    let apex = candidate(ConeCandidateKind::Apex, 5, 6);
    let near = Some(candidate(ConeCandidateKind::Positive, 1, 2));
    let far = Some(candidate(ConeCandidateKind::Negative, 8, 9));
    assert_eq!(
        select_cone_candidate(false, &apex, &near, &far).unwrap(),
        (ConeCandidateKind::Positive, None)
    );
    assert_eq!(
        select_cone_candidate(false, &apex, &None, &None).unwrap(),
        (ConeCandidateKind::Apex, None)
    );
    let overlapping = Some(candidate(ConeCandidateKind::Positive, 5, 7));
    let err = failure(select_cone_candidate(false, &apex, &overlapping, &None));
    assert_eq!(reason(err), "cone candidate ordering cannot be certified");
}

#[test]
fn level_queries_report_both_mirror_rays_or_the_apex() {
    let apex = candidate(ConeCandidateKind::Apex, 5, 6);
    let positive = Some(candidate(ConeCandidateKind::Positive, 1, 2));
    let negative = Some(candidate(ConeCandidateKind::Negative, 1, 2));
    assert_eq!(
        select_cone_candidate(true, &apex, &positive, &negative).unwrap(),
        (ConeCandidateKind::Positive, Some(ConeCandidateKind::Negative))
    );
    let apex_near = candidate(ConeCandidateKind::Apex, 0, 0);
    assert_eq!(
        select_cone_candidate(true, &apex_near, &positive, &negative).unwrap(),
        (ConeCandidateKind::Apex, None)
    );
    let apex_mid = candidate(ConeCandidateKind::Apex, 1, 2);
    let err = failure(select_cone_candidate(true, &apex_mid, &positive, &negative));
    assert_eq!(reason(err), "cone apex/ray ordering cannot be certified");
}

#[test]
fn cone_ray_candidates_keep_only_the_certainly_positive_ray() {
    let apex = [whole(0), whole(0), whole(0)];
    let axis = [iv(0, 0), iv(0, 0), iv(1, 1)];
    let unit = [iv(1, 1), iv(0, 0), iv(0, 0)];
    let query = [whole(1), whole(0), whole(1)];
    let (positive, negative) =
        cone_ray_candidates(wide(), &apex, &axis, &unit, &iv(1, 1), &iv(1, 1), &iv(1, 1), &query).unwrap();
    let p = positive.expect("the positive ray parameter is one");
    assert_eq!(p.kind, ConeCandidateKind::Positive);
    assert!(is(&p.v, whole(1), whole(1)));
    assert!(negative.is_none());
}

#[test]
fn cone_ray_candidates_refuse_an_uncertain_sign() {
    let apex = [whole(0), whole(0), whole(0)];
    let axis = [iv(0, 0), iv(0, 0), iv(1, 1)];
    let unit = [iv(1, 1), iv(0, 0), iv(0, 0)];
    let query = [whole(1), whole(0), whole(1)];
    let e = failure(cone_ray_candidates(wide(), &apex, &axis, &unit, &iv(1, 1), &iv(0, 2), &iv(1, 1), &query));
    assert_eq!(reason(e), "cone ray admissibility cannot be proved from its certified parameter interval");
}
