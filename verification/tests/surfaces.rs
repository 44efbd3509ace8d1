//! The exact cores of circle, cylinder and cone evaluation and of the
//! radial steps of their projections.
use amphion::exact::ExactRational;
use amphion::geometry::analytic::angles::IdealFrame3;
use amphion::geometry::analytic::surfaces::{
    axial_split3, certified_sin_cos, circle_enclosure2, circle_enclosure3, circle_radial2,
    cone_enclosure, cone_tangent, cylinder_enclosure, offset_point2, offset_point3,
    quarter_turn2, radius_terms, same_point3,
};
use amphion::geometry::analytic::trig::RatInterval;
use amphion::geometry::error::GeometryError;
use amphion::geometry::evaluation::CertificationBudget;

const BUDGET_EXHAUSTED: &str =
    "intermediate exact-rational value exceeded the certification bit-width budget";

fn budget(rational_bits: u32) -> CertificationBudget {
    CertificationBudget::try_new(64, rational_bits).unwrap()
}

fn wide() -> CertificationBudget {
    budget(4096)
}

fn whole(n: i64) -> ExactRational {
    ExactRational::from_int(n)
}

fn q(n: i64, d: i64) -> ExactRational {
    ExactRational::from_ratio(n, d)
}

fn iv(lo: i64, hi: i64) -> RatInterval {
    RatInterval { lo: whole(lo), hi: whole(hi) }
}

fn point(v: i64) -> RatInterval {
    iv(v, v)
}

fn is_point(interval: &RatInterval, v: i64) -> bool {
    interval.lo == whole(v) && interval.hi == whole(v)
}

fn are_points<const N: usize>(intervals: &[RatInterval; N], values: [i64; N]) -> bool {
    intervals.iter().zip(values.iter()).all(|(i, v)| is_point(i, *v))
}

fn reason(error: GeometryError) -> String {
    match error {
        GeometryError::Uncertified { reason } => reason,
        other => panic!("expected an uncertified failure, got {other:?}"),
    }
}

fn failure<T>(result: Result<T, GeometryError>) -> GeometryError {
    match result {
        Err(e) => e,
        Ok(_) => panic!("expected a failure"),
    }
}

/// The frame with `z`, `x`, `y` along the coordinate axes.
fn standard_frame() -> IdealFrame3 {
    IdealFrame3 {
        z: [point(0), point(0), point(1)],
        x: [point(1), point(0), point(0)],
        y: [point(0), point(1), point(0)],
        z_seed: [whole(0), whole(0), whole(1)],
        x_perp: [whole(1), whole(0), whole(0)],
        z_norm: point(1),
    }
}

#[test]
fn certified_sin_cos_encloses_zero_and_one_at_zero() {
    let (sin, cos) = certified_sin_cos(wide(), &whole(0)).unwrap();
    assert!(sin.lo.at_most(&whole(0)) && whole(0).at_most(&sin.hi));
    assert!(cos.lo.at_most(&whole(1)) && whole(1).at_most(&cos.hi));
}

#[test]
fn radius_terms_scale_cosine_and_sine() {
    let (rc, rs) = radius_terms(wide(), &whole(3), &iv(-1, 2), &iv(1, 2)).unwrap();
    assert!(rc.lo == whole(3) && rc.hi == whole(6));
    assert!(rs.lo == whole(-3) && rs.hi == whole(6));
}

#[test]
fn circle_enclosure2_places_the_point_and_its_derivatives() {
    let e = circle_enclosure2(
        wide(),
        &[whole(1), whole(2)],
        &[point(1), point(0)],
        &[point(0), point(1)],
        &whole(3),
        &point(0),
        &point(1),
    )
    .unwrap();
    assert!(are_points(&e.point, [4, 2]));
    assert!(are_points(&e.first, [0, 3]));
    assert!(are_points(&e.second, [-3, 0]));
}

#[test]
fn circle_enclosure3_at_a_quarter_turn() {
    let e = circle_enclosure3(
        wide(),
        &[whole(0), whole(0), whole(5)],
        &standard_frame(),
        &whole(2),
        &point(1),
        &point(0),
    )
    .unwrap();
    assert!(are_points(&e.point, [0, 2, 5]));
    assert!(are_points(&e.first, [-2, 0, 0]));
    assert!(are_points(&e.second, [0, -2, 0]));
}

#[test]
fn circle_enclosure_reports_the_budget_failure() {
    let e = failure(circle_enclosure2(
        budget(16),
        &[whole(0), whole(0)],
        &[point(1), point(0)],
        &[point(0), point(1)],
        &whole(1 << 20),
        &point(0),
        &point(1),
    ));
    assert_eq!(reason(e), BUDGET_EXHAUSTED);
}

#[test]
fn cylinder_enclosure_adds_the_axial_offset() {
    let e = cylinder_enclosure(
        wide(),
        &[whole(0), whole(0), whole(0)],
        &standard_frame(),
        &whole(1),
        &point(0),
        &point(1),
        &whole(3),
    )
    .unwrap();
    assert!(are_points(&e.point, [1, 0, 3]));
    assert!(are_points(&e.du, [0, 1, 0]));
    assert!(are_points(&e.duu, [-1, 0, 0]));
}

#[test]
fn cone_tangent_divides_sine_by_cosine() {
    let t = cone_tangent(wide(), &iv(1, 2), &iv(1, 1)).unwrap();
    assert!(t.lo == whole(1) && t.hi == whole(2));
}

#[test]
fn cone_tangent_refuses_a_tangent_that_is_not_certainly_positive() {
    let e = failure(cone_tangent(wide(), &iv(-1, 1), &iv(1, 1)));
    assert_eq!(reason(e), "cone tangent interval is not provably positive");
}

#[test]
fn cone_tangent_refuses_a_cosine_that_may_vanish() {
    let e = failure(cone_tangent(wide(), &iv(1, 1), &iv(-1, 1)));
    assert_eq!(reason(e), "certified interval division contains zero in the denominator");
}

#[test]
fn cone_enclosure_places_the_point_and_its_derivatives() {
    let e = cone_enclosure(
        wide(),
        &[whole(0), whole(0), whole(0)],
        &standard_frame(),
        &point(1),
        &point(0),
        &point(1),
        &whole(2),
    )
    .unwrap();
    assert!(are_points(&e.point, [2, 0, 2]));
    assert!(are_points(&e.du, [0, 2, 0]));
    assert!(are_points(&e.dv, [1, 0, 1]));
    assert!(are_points(&e.duu, [-2, 0, 0]));
    assert!(are_points(&e.duv, [0, 1, 0]));
}

#[test]
fn offset_points_step_the_radius_along_the_unit() {
    let p = offset_point2(wide(), &[whole(1), whole(1)], &[point(1), point(0)], &whole(2)).unwrap();
    assert!(are_points(&p, [3, 1]));
    let p = offset_point3(
        wide(),
        &[whole(1), whole(1), whole(1)],
        &[point(0), iv(-1, 1), point(0)],
        &whole(2),
    )
    .unwrap();
    assert!(is_point(&p[0], 1) && is_point(&p[2], 1));
    assert!(p[1].lo == whole(-1) && p[1].hi == whole(3));
}

#[test]
fn circle_radial2_is_the_offset_from_the_center() {
    let r = circle_radial2(wide(), &[whole(3), whole(4)], &[whole(1), whole(1)]).unwrap();
    assert!(r[0] == whole(2) && r[1] == whole(3));
}

#[test]
fn circle_radial2_refuses_the_center() {
    let e = failure(circle_radial2(wide(), &[whole(1), whole(1)], &[whole(1), whole(1)]));
    assert_eq!(e, GeometryError::Singular);
}

#[test]
fn axial_split3_separates_axial_and_radial_parts() {
    let (t, radial) = axial_split3(
        wide(),
        &[whole(3), whole(4), whole(5)],
        &[whole(0), whole(0), whole(0)],
        &[whole(0), whole(0), whole(2)],
    )
    .unwrap();
    assert!(t == q(5, 2));
    assert!(radial[0] == whole(3) && radial[1] == whole(4) && radial[2] == whole(0));
}

#[test]
fn axial_split3_refuses_a_query_on_the_axis() {
    let e = failure(axial_split3(
        wide(),
        &[whole(1), whole(1), whole(7)],
        &[whole(1), whole(1), whole(0)],
        &[whole(0), whole(0), whole(3)],
    ));
    assert_eq!(e, GeometryError::Singular);
}

#[test]
fn axial_split3_refuses_a_zero_axis() {
    let e = failure(axial_split3(
        wide(),
        &[whole(1), whole(1), whole(7)],
        &[whole(0), whole(0), whole(0)],
        &[whole(0), whole(0), whole(0)],
    ));
    assert_eq!(reason(e), "axis seed has exact zero magnitude");
}

#[test]
fn quarter_turn2_rotates_the_x_axis() {
    let y = quarter_turn2(wide(), &[point(0), point(1)]).unwrap();
    assert!(are_points(&y, [-1, 0]));
}

#[test]
fn same_point3_compares_values() {
    assert!(same_point3(&[q(1, 2), whole(0), whole(3)], &[q(2, 4), whole(0), whole(3)]));
    assert!(!same_point3(&[whole(1), whole(0), whole(3)], &[whole(1), whole(0), whole(4)]));
}
