//! Exact evaluation and nearest-point projection for lines and planes.
use amphion::exact::ExactRational;
use amphion::geometry::analytic::affine::{
    exact_affine_eval2, exact_affine_eval3, exact_line_project2, exact_line_project3,
    exact_plane_eval3, exact_plane_project3, to_rat2, to_rat3,
};
use amphion::geometry::analytic::helpers::RationalCap;
use amphion::geometry::error::GeometryError;
use amphion::geometry::evaluation::CertificationBudget;

fn budget() -> CertificationBudget {
    CertificationBudget::default()
}

fn b2(v: [f64; 2]) -> [u64; 2] {
    [v[0].to_bits(), v[1].to_bits()]
}

fn b3(v: [f64; 3]) -> [u64; 3] {
    [v[0].to_bits(), v[1].to_bits(), v[2].to_bits()]
}

fn whole(n: i64) -> ExactRational {
    ExactRational::from_int(n)
}

fn q(n: i64, d: i64) -> ExactRational {
    ExactRational::from_ratio(n, d)
}

fn reason(result: Result<impl Sized, GeometryError>) -> String {
    match result {
        Err(GeometryError::Uncertified { reason }) => reason,
        Err(other) => panic!("expected an uncertified failure, got {other:?}"),
        Ok(_) => panic!("expected a failure"),
    }
}

#[test]
fn exact_affine_eval2_reproduces_exact_arithmetic() {
    let point = exact_affine_eval2(budget(), b2([1.0, 2.0]), b2([0.0, 1.0]), 3.0_f64.to_bits())
        .unwrap();
    assert!(point[0] == whole(1) && point[1] == whole(5));
}

#[test]
fn exact_affine_eval3_reproduces_exact_arithmetic() {
    let point =
        exact_affine_eval3(budget(), b3([1.0, 2.0, 3.0]), b3([1.0, 0.0, 0.0]), 2.0_f64.to_bits())
            .unwrap();
    assert!(point[0] == whole(3) && point[1] == whole(2) && point[2] == whole(3));
}

#[test]
fn exact_affine_rejects_oversized_input_before_cancellation() {
    let tiny = f64::MIN_POSITIVE;
    let capped = CertificationBudget::try_new(200, 64).unwrap();
    assert!(
        exact_affine_eval2(capped, b2([tiny, 0.0]), b2([1.0, 0.0]), (-tiny).to_bits()).is_err(),
        "the 1023-bit input denominator must be rejected before it cancels to zero"
    );
}

#[test]
fn projection_rejects_values_wider_than_the_rational_cap() {
    let capped = CertificationBudget::try_new(200, 2).unwrap();
    assert!(exact_line_project2(capped, b2([6.0, 0.0]), b2([3.0, 0.0]), b2([1.0, 0.0])).is_err());
    assert!(exact_plane_project3(
        capped,
        b3([6.0, 0.0, 0.0]),
        b3([3.0, 0.0, 0.0]),
        b3([1.0, 0.0, 0.0]),
        b3([0.0, 1.0, 0.0]),
    )
    .is_err());
}

#[test]
fn exact_line_project2_certifies_zero_residual() {
    let p = exact_line_project2(budget(), b2([1.0, 0.0]), b2([0.0, 0.0]), b2([1.0, 0.0])).unwrap();
    assert!(p.squared_distance == whole(0));
    assert!(p.parameter == whole(1));
}

#[test]
fn exact_line_project3_certifies_zero_residual() {
    let p = exact_line_project3(
        budget(),
        b3([1.0, 0.0, 0.0]),
        b3([0.0, 0.0, 0.0]),
        b3([1.0, 0.0, 0.0]),
    )
    .unwrap();
    assert!(p.squared_distance == whole(0));
}

#[test]
fn exact_line_project2_rejects_zero_direction() {
    assert_eq!(
        reason(exact_line_project2(budget(), b2([1.0, 2.0]), b2([0.0, 0.0]), b2([0.0, 0.0]))),
        "line direction has exact zero magnitude"
    );
}

#[test]
fn exact_plane_project3_certifies_zero_residual() {
    let p = exact_plane_project3(
        budget(),
        b3([1.0, 2.0, 0.0]),
        b3([0.0, 0.0, 0.0]),
        b3([1.0, 0.0, 0.0]),
        b3([0.0, 1.0, 0.0]),
    )
    .unwrap();
    assert!(p.u == whole(1) && p.v == whole(2));
    assert!(p.squared_distance == whole(0));
}

#[test]
fn exact_plane_project3_rejects_degenerate_axes() {
    assert_eq!(
        reason(exact_plane_project3(
            budget(),
            b3([1.0, 2.0, 0.0]),
            b3([0.0, 0.0, 0.0]),
            b3([1.0, 0.0, 0.0]),
            b3([2.0, 0.0, 0.0]),
        )),
        "plane axes are exactly degenerate (zero Gram determinant)"
    );
}

#[test]
fn line_projection_uses_the_true_parameter_for_a_non_unit_direction() {
    // Direction (2, 0): the nearest point to (1, 2) is at t = 1/2, distance^2 4.
    let p = exact_line_project2(budget(), b2([1.0, 2.0]), b2([0.0, 0.0]), b2([2.0, 0.0])).unwrap();
    assert!(p.parameter == q(1, 2));
    assert!(p.point[0] == whole(1) && p.point[1] == whole(0));
    assert!(p.squared_distance == whole(4));
}

#[test]
fn plane_projection_handles_non_orthogonal_axes() {
    // Axes (1, 0, 0) and (1, 1, 0): the query (2, 3, 5) projects to
    // (2, 3, 0) = -1 * u_axis + 3 * v_axis, at squared distance 25.
    let p = exact_plane_project3(
        budget(),
        b3([2.0, 3.0, 5.0]),
        b3([0.0, 0.0, 0.0]),
        b3([1.0, 0.0, 0.0]),
        b3([1.0, 1.0, 0.0]),
    )
    .unwrap();
    assert!(p.u == whole(-1) && p.v == whole(3));
    assert!(p.point[0] == whole(2) && p.point[1] == whole(3) && p.point[2] == whole(0));
    assert!(p.squared_distance == whole(25));
}

#[test]
fn plane_eval_is_origin_plus_scaled_axes() {
    let point = exact_plane_eval3(
        budget(),
        b3([1.0, 1.0, 1.0]),
        b3([1.0, 0.0, 0.0]),
        b3([0.0, 0.0, 2.0]),
        3.0_f64.to_bits(),
        0.5_f64.to_bits(),
    )
    .unwrap();
    assert!(point[0] == whole(4) && point[1] == whole(1) && point[2] == whole(2));
}

#[test]
fn decoding_is_exact_and_capped() {
    let cap = RationalCap::new(budget());
    let pair = to_rat2(cap, b2([0.5, -3.0])).unwrap();
    assert!(pair[0] == q(1, 2) && pair[1] == whole(-3));
    let triple = to_rat3(cap, b3([0.25, 0.0, 8.0])).unwrap();
    assert!(triple[0] == q(1, 4) && triple[1] == whole(0) && triple[2] == whole(8));
    let narrow = RationalCap::new(CertificationBudget::try_new(8, 2).unwrap());
    assert!(to_rat2(narrow, b2([0.5, 8.0])).is_err());
}
