//! Axis-aligned bounding boxes over finite points.
use amphion::bounds::{Bounds2, Bounds3, BoundsError};
use amphion::math::{Point2, Point3};

fn p2(x: f64, y: f64) -> Point2 {
    Point2::try_new(x.to_bits(), y.to_bits()).unwrap()
}

fn p3(x: f64, y: f64, z: f64) -> Point3 {
    Point3::try_new(x.to_bits(), y.to_bits(), z.to_bits()).unwrap()
}

#[test]
fn bounds2_construction_valid() {
    let bounds = Bounds2::try_new(p2(1.0, 2.0), p2(3.0, 4.0)).unwrap();
    assert_eq!(bounds.min(), p2(1.0, 2.0));
    assert_eq!(bounds.max(), p2(3.0, 4.0));
}

#[test]
fn bounds2_from_point_is_degenerate() {
    let point = p2(2.0, 5.0);
    let bounds = Bounds2::from_point(point);
    assert_eq!(bounds.min(), point);
    assert_eq!(bounds.max(), point);
}

#[test]
fn bounds2_construction_rejects_inverted() {
    assert_eq!(
        Bounds2::try_new(p2(2.0, 0.0), p2(1.0, 1.0)),
        Err(BoundsError::InvertedBounds)
    );
}

#[test]
fn bounds2_contains_corners_inclusive() {
    let bounds = Bounds2::try_new(p2(1.0, 2.0), p2(3.0, 4.0)).unwrap();
    assert!(bounds.contains(p2(1.0, 2.0)));
    assert!(bounds.contains(p2(3.0, 4.0)));
}

#[test]
fn bounds2_does_not_contain_exterior() {
    let bounds = Bounds2::try_new(p2(1.0, 2.0), p2(3.0, 4.0)).unwrap();
    assert!(!bounds.contains(p2(3.1, 4.0)));
}

#[test]
fn bounds2_union_spans_both() {
    let left = Bounds2::try_new(p2(0.0, 0.0), p2(1.0, 1.0)).unwrap();
    let right = Bounds2::try_new(p2(2.0, 3.0), p2(4.0, 5.0)).unwrap();
    let union = left.union(right);
    assert_eq!(union.min(), p2(0.0, 0.0));
    assert_eq!(union.max(), p2(4.0, 5.0));
}

#[test]
fn bounds2_intersection_overlapping() {
    let a = Bounds2::try_new(p2(0.0, 0.0), p2(4.0, 4.0)).unwrap();
    let b = Bounds2::try_new(p2(2.0, 1.0), p2(5.0, 3.0)).unwrap();
    let intersection = a.intersection(b).unwrap();
    assert_eq!(intersection.min(), p2(2.0, 1.0));
    assert_eq!(intersection.max(), p2(4.0, 3.0));
}

#[test]
fn bounds2_intersection_disjoint_is_none() {
    let a = Bounds2::try_new(p2(0.0, 0.0), p2(1.0, 1.0)).unwrap();
    let b = Bounds2::try_new(p2(2.0, 2.0), p2(3.0, 3.0)).unwrap();
    assert_eq!(a.intersection(b), None);
}

#[test]
fn bounds3_construction_valid() {
    let bounds = Bounds3::try_new(p3(0.0, 1.0, 2.0), p3(3.0, 4.0, 5.0)).unwrap();
    assert_eq!(bounds.min(), p3(0.0, 1.0, 2.0));
    assert_eq!(bounds.max(), p3(3.0, 4.0, 5.0));
}

#[test]
fn bounds3_contains_point() {
    let bounds = Bounds3::try_new(p3(0.0, 0.0, 0.0), p3(3.0, 4.0, 5.0)).unwrap();
    assert!(bounds.contains(p3(2.0, 3.0, 4.0)));
}

#[test]
fn bounds3_union_expands() {
    let a = Bounds3::try_new(p3(0.0, 0.0, 0.0), p3(1.0, 1.0, 1.0)).unwrap();
    let b = Bounds3::try_new(p3(-1.0, 2.0, 3.0), p3(4.0, 5.0, 6.0)).unwrap();
    let union = a.union(b);
    assert_eq!(union.min(), p3(-1.0, 0.0, 0.0));
    assert_eq!(union.max(), p3(4.0, 5.0, 6.0));
}

#[test]
fn bounds3_intersection_touching_edge() {
    let a = Bounds3::try_new(p3(0.0, 0.0, 0.0), p3(1.0, 1.0, 1.0)).unwrap();
    let b = Bounds3::try_new(p3(1.0, 0.25, 0.25), p3(2.0, 0.75, 0.75)).unwrap();
    let intersection = a.intersection(b).unwrap();
    assert_eq!(intersection.min(), p3(1.0, 0.25, 0.25));
    assert_eq!(intersection.max(), p3(1.0, 0.75, 0.75));
}

#[test]
fn bounds2_deterministic() {
    let bounds = Bounds2::try_new(p2(0.0, 0.0), p2(1.0, 1.0)).unwrap();
    let other = Bounds2::try_new(p2(2.0, 3.0), p2(4.0, 5.0)).unwrap();
    let first = bounds.union(other);
    let second = bounds.union(other);
    assert_eq!(first, second);
}
