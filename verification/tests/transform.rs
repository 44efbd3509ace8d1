//! Exact application of affine transforms and exact similarity analysis.
use amphion::geometry::analytic::transform::{
    exact_scaled_length, exact_transform_point, exact_transform_vector, is_identity_transform,
    similarity_scale,
};
use amphion::geometry::error::TransformError;
use amphion::math::{Point3, Transform3, Vector3};

fn transform(entries: [f64; 12]) -> Transform3 {
    Transform3::try_from_row_major(entries.map(f64::to_bits)).unwrap()
}

fn vector(x: f64, y: f64, z: f64) -> Vector3 {
    Vector3::try_new(x.to_bits(), y.to_bits(), z.to_bits()).unwrap()
}

fn point(x: f64, y: f64, z: f64) -> Point3 {
    Point3::try_new(x.to_bits(), y.to_bits(), z.to_bits()).unwrap()
}

fn scale_of(t: &Transform3) -> Result<f64, TransformError> {
    similarity_scale(t).map(f64::from_bits)
}

#[test]
fn exact_similarity_accepts_identity() {
    assert_eq!(similarity_scale(&Transform3::identity()), Ok(1.0_f64.to_bits()));
    assert!(is_identity_transform(&Transform3::identity()));
}

#[test]
fn exact_vector_transform_recovers_cancelled_dyadic_component() {
    let transform = transform([
        3.0, -4.0, 0.0, 0.0, //
        4.0, 3.0, 0.0, 0.0, //
        0.0, 0.0, 5.0, 0.0,
    ]);
    let vector = vector(1.649_161_156_696_929, 1.236_870_867_522_697, 0.0);
    let transformed = exact_transform_vector(&transform, vector).unwrap().into_array();
    assert_eq!(transformed[0], (-2.0_f64.powi(-51)).to_bits());
}

#[test]
fn exact_vector_transform_rejects_rounded_component() {
    let transform = transform([
        0.1, 0.0, 0.0, 0.0, //
        0.0, 1.0, 0.0, 0.0, //
        0.0, 0.0, 1.0, 0.0,
    ]);
    let vector = vector(0.1, 0.0, 0.0);
    assert_eq!(
        exact_transform_vector(&transform, vector),
        Err(TransformError::UnrepresentableResult)
    );
}

#[test]
fn exact_similarity_accepts_large_scale_rotation() {
    let scale = 1.0e200;
    let transform = transform([
        0.0, -scale, 0.0, 0.0, //
        scale, 0.0, 0.0, 0.0, //
        0.0, 0.0, scale, 0.0,
    ]);
    assert_eq!(scale_of(&transform), Ok(scale));
}

#[test]
fn exact_similarity_rejects_shear_at_unit_scale() {
    let transform = transform([
        1.0, 1.0, 0.0, 0.0, //
        0.0, 1.0, 0.0, 0.0, //
        0.0, 0.0, 1.0, 0.0,
    ]);
    assert_eq!(scale_of(&transform), Err(TransformError::NotSimilarity));
}

#[test]
fn exact_similarity_rejects_near_uniform_anisotropic_scale() {
    let transform = transform([
        1.0,
        0.0,
        0.0,
        0.0, //
        0.0,
        1.0 + f64::EPSILON,
        0.0,
        0.0, //
        0.0,
        0.0,
        1.0,
        0.0,
    ]);
    assert_eq!(scale_of(&transform), Err(TransformError::NotSimilarity));
}

#[test]
fn exact_similarity_rejects_reflection() {
    let transform = transform([
        -1.0, 0.0, 0.0, 0.0, //
        0.0, 1.0, 0.0, 0.0, //
        0.0, 0.0, 1.0, 0.0,
    ]);
    assert_eq!(scale_of(&transform), Err(TransformError::NotSimilarity));
}

#[test]
fn exact_similarity_rejects_singular() {
    let transform = transform([
        0.0, 0.0, 0.0, 0.0, //
        0.0, 0.0, 0.0, 0.0, //
        0.0, 0.0, 0.0, 0.0,
    ]);
    assert_eq!(scale_of(&transform), Err(TransformError::NotSimilarity));
}

#[test]
fn exact_similarity_accepts_tiny_scale() {
    let scale = 1.0e-200_f64;
    let transform = transform([
        scale, 0.0, 0.0, 0.0, //
        0.0, scale, 0.0, 0.0, //
        0.0, 0.0, scale, 0.0,
    ]);
    assert_eq!(scale_of(&transform), Ok(scale), "scale should be exactly 1e-200");
}

#[test]
fn exact_similarity_accepts_representable_scale_with_rounded_squared_norm() {
    let scale = f64::from_bits(0x3ffe_0ede_166d_d683);
    let transform = transform([
        scale, 0.0, 0.0, 0.0, //
        0.0, scale, 0.0, 0.0, //
        0.0, 0.0, scale, 0.0,
    ]);
    assert_eq!(scale_of(&transform), Ok(scale));
}

#[test]
fn exact_similarity_rejects_unrepresentable_scale() {
    let q = 729_000_054_000_001.0;
    let transform = transform([
        -3.0 * q,
        4.0 * q,
        12.0 * q,
        0.0,
        12.0 * q,
        -3.0 * q,
        4.0 * q,
        0.0,
        4.0 * q,
        12.0 * q,
        -3.0 * q,
        0.0,
    ]);
    assert_eq!(scale_of(&transform), Err(TransformError::UnrepresentableScale));
}

#[test]
fn exact_scaled_length_rejects_rounded_product() {
    assert_eq!(
        exact_scaled_length(0.1_f64.to_bits(), 0.1_f64.to_bits()),
        Err(TransformError::UnrepresentableScale)
    );
    assert_eq!(exact_scaled_length(0.5_f64.to_bits(), 2.0_f64.to_bits()), Ok(1.0_f64.to_bits()));
}

#[test]
fn exact_scaled_length_rejects_non_positive_and_non_finite() {
    let one = 1.0_f64.to_bits();
    assert_eq!(
        exact_scaled_length(0.0_f64.to_bits(), one),
        Err(TransformError::UnrepresentableScale)
    );
    assert_eq!(
        exact_scaled_length((-2.0_f64).to_bits(), one),
        Err(TransformError::UnrepresentableScale)
    );
    assert_eq!(
        exact_scaled_length(f64::INFINITY.to_bits(), one),
        Err(TransformError::UnrepresentableScale)
    );
    assert_eq!(
        exact_scaled_length(f64::MAX.to_bits(), 2.0_f64.to_bits()),
        Err(TransformError::UnrepresentableScale)
    );
    // The product of two subnormal-scale values underflows below 2^-1074.
    assert_eq!(
        exact_scaled_length(1.0e-200_f64.to_bits(), 1.0e-200_f64.to_bits()),
        Err(TransformError::UnrepresentableScale)
    );
    assert_eq!(
        exact_scaled_length(3.0_f64.to_bits(), 0.25_f64.to_bits()),
        Ok(0.75_f64.to_bits())
    );
    assert_eq!(
        exact_scaled_length(f64::MAX.to_bits(), 0.5_f64.to_bits()),
        Ok((f64::MAX / 2.0).to_bits())
    );
}

#[test]
fn exact_point_transform_translates_and_rotates() {
    let t = transform([
        0.0, -1.0, 0.0, 10.0, //
        1.0, 0.0, 0.0, -2.5, //
        0.0, 0.0, 2.0, 0.125,
    ]);
    let image = exact_transform_point(&t, point(1.0, 2.0, 3.0)).unwrap();
    assert_eq!(image.into_array(), [8.0_f64.to_bits(), (-1.5_f64).to_bits(), 6.125_f64.to_bits()]);
    assert!(!is_identity_transform(&t));
}

#[test]
fn exact_point_transform_rejects_rounded_coordinate() {
    let t = transform([
        1.0, 0.0, 0.0, 0.1, //
        0.0, 1.0, 0.0, 0.0, //
        0.0, 0.0, 1.0, 0.0,
    ]);
    assert_eq!(
        exact_transform_point(&t, point(0.2, 0.0, 0.0)),
        Err(TransformError::UnrepresentableResult)
    );
    assert!(exact_transform_point(&t, point(0.5, 0.0, 0.0)).is_err());
    assert!(exact_transform_point(&t, point(0.0, 0.0, 0.0)).is_ok());
}

#[test]
fn exact_point_transform_rejects_overflow() {
    let t = transform([
        2.0, 0.0, 0.0, 0.0, //
        0.0, 1.0, 0.0, 0.0, //
        0.0, 0.0, 1.0, 0.0,
    ]);
    assert_eq!(
        exact_transform_point(&t, point(f64::MAX, 0.0, 0.0)),
        Err(TransformError::UnrepresentableResult)
    );
}

#[test]
fn identity_keeps_signed_zeros_and_results_keep_sign() {
    let identity = transform([
        1.0, -0.0, 0.0, -0.0, //
        0.0, 1.0, -0.0, 0.0, //
        -0.0, 0.0, 1.0, 0.0,
    ]);
    assert!(is_identity_transform(&identity));
    let p = point(-0.0, 5.0e-324, -7.5);
    let image = exact_transform_point(&identity, p).unwrap();
    assert_eq!(image.into_array(), p.into_array());
    let negate = transform([
        -1.0, 0.0, 0.0, 0.0, //
        0.0, -1.0, 0.0, 0.0, //
        0.0, 0.0, -1.0, 0.0,
    ]);
    let image = exact_transform_point(&negate, point(5.0e-324, -1.0e300, 0.0)).unwrap();
    assert_eq!(
        image.into_array(),
        [(-5.0e-324_f64).to_bits(), 1.0e300_f64.to_bits(), 0.0_f64.to_bits()]
    );
}

#[test]
fn subnormal_results_are_exact() {
    let t = transform([
        0.5, 0.0, 0.0, 0.0, //
        0.0, 1.0, 0.0, 0.0, //
        0.0, 0.0, 1.0, 0.0,
    ]);
    // Halving the smallest subnormal is not representable; halving 2^-1073 is.
    assert!(exact_transform_vector(&t, vector(5.0e-324, 0.0, 0.0)).is_err());
    let image = exact_transform_vector(&t, vector(1.0e-323, 0.0, 0.0)).unwrap();
    assert_eq!(image.into_array()[0], 5.0e-324_f64.to_bits());
}
