//! Finite points, vectors, and affine transforms.
use amphion::math::{ensure_finite, Point2, Point3, Transform3, Vector2, Vector3};

fn bits3(x: f64, y: f64, z: f64) -> (u64, u64, u64) {
    (x.to_bits(), y.to_bits(), z.to_bits())
}

#[test]
fn non_finite_values_are_rejected() {
    let (x, y, z) = bits3(f64::NAN, 0.0, 0.0);
    assert!(Point3::try_new(x, y, z).is_err());
    assert!(Transform3::try_from_row_major([f64::INFINITY.to_bits(); 12]).is_err());
}

#[test]
fn non_finite_error_names_the_first_bad_component() {
    let error = Point3::try_new(1.0_f64.to_bits(), f64::NAN.to_bits(), f64::INFINITY.to_bits())
        .unwrap_err();
    assert_eq!(error.component(), 1);
    let error = Vector2::try_new(0.0_f64.to_bits(), f64::NEG_INFINITY.to_bits()).unwrap_err();
    assert_eq!(error.component(), 1);
    let error = Vector3::try_new(f64::NAN.to_bits(), 0.0_f64.to_bits(), 0.0_f64.to_bits())
        .unwrap_err();
    assert_eq!(error.component(), 0);
    let mut entries = [0.0_f64.to_bits(); 12];
    entries[7] = f64::NAN.to_bits();
    entries[9] = f64::INFINITY.to_bits();
    assert_eq!(Transform3::try_from_row_major(entries).unwrap_err().component(), 7);
}

#[test]
fn ensure_finite_reports_first_offender() {
    let values = [1.0_f64.to_bits(), 2.0_f64.to_bits(), f64::NAN.to_bits()];
    assert_eq!(ensure_finite(&values).unwrap_err().component(), 2);
    assert!(ensure_finite(&values[..2]).is_ok());
    assert!(ensure_finite(&[]).is_ok());
}

#[test]
fn point_components_round_trip() {
    let (x, y, z) = bits3(1.5, -2.25, 1.0e300);
    let point = Point3::try_new(x, y, z).unwrap();
    assert_eq!((point.x(), point.y(), point.z()), (x, y, z));
    assert_eq!(point.into_array(), [x, y, z]);
    let flat = Point2::try_new(x, y).unwrap();
    assert_eq!(flat.into_array(), [x, y]);
    let vector = Vector3::try_new(x, y, z).unwrap();
    assert_eq!(vector.into_array(), [x, y, z]);
    let planar = Vector2::try_new(y, x).unwrap();
    assert_eq!((planar.x(), planar.y()), (y, x));
}

#[test]
fn points_compare_by_value() {
    let positive = Point2::try_new(0.0_f64.to_bits(), 1.0_f64.to_bits()).unwrap();
    let negative = Point2::try_new((-0.0_f64).to_bits(), 1.0_f64.to_bits()).unwrap();
    assert!(positive == negative);
    let other = Point2::try_new(0.0_f64.to_bits(), 2.0_f64.to_bits()).unwrap();
    assert!(positive != other);
}

#[test]
fn identity_transform_entries() {
    let one = 1.0_f64.to_bits();
    let zero = 0.0_f64.to_bits();
    assert_eq!(
        Transform3::identity().into_row_major(),
        [one, zero, zero, zero, zero, one, zero, zero, zero, zero, one, zero]
    );
    let rebuilt = Transform3::try_from_row_major(Transform3::identity().into_row_major()).unwrap();
    assert!(rebuilt == Transform3::identity());
}
