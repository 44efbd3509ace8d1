//! Stable identities, handles, and schema versions.
use amphion::conventions::{
    AngleUnit, Handedness, LengthUnit, MODEL_ANGLE_UNIT, MODEL_HANDEDNESS, MODEL_LENGTH_UNIT,
};
use amphion::geometry::id::{Curve2Id, Curve3Id, GeometryHandle, SurfaceId};
use amphion::identity::{OperationId, SemanticId};
use amphion::version::SchemaVersion;

#[test]
fn semantic_and_operation_ids_round_trip_bytes() {
    let bytes: [u8; 16] = [0, 1, 2, 3, 4, 5, 6, 7, 8, 9, 10, 11, 12, 13, 14, 255];
    assert_eq!(SemanticId::from_bytes(bytes).into_bytes(), bytes);
    assert_eq!(OperationId::from_bytes(bytes).into_bytes(), bytes);
    assert_eq!(SemanticId::from_bytes(bytes), SemanticId::from_bytes(bytes));
    assert_ne!(SemanticId::from_bytes(bytes), SemanticId::from_bytes([0; 16]));
}

#[test]
fn geometry_handles_keep_slot_and_generation() {
    let handle = GeometryHandle::new(7, 3);
    assert_eq!((handle.slot(), handle.generation()), (7, 3));
    assert_eq!(Curve2Id::new(7, 3).handle(), handle);
    assert_eq!(Curve3Id::new(u32::MAX, 0).handle().slot(), u32::MAX);
    assert_eq!(SurfaceId::new(0, u32::MAX).handle().generation(), u32::MAX);
    assert_ne!(GeometryHandle::new(7, 4), handle);
}

#[test]
fn schema_version_components() {
    let version = SchemaVersion::new(2, 17);
    assert_eq!((version.major(), version.minor()), (2, 17));
    assert_eq!(version, SchemaVersion::new(2, 17));
    assert!(SchemaVersion::new(1, 9) < SchemaVersion::new(2, 0));
}

#[test]
fn model_conventions_are_fixed() {
    assert_eq!(MODEL_HANDEDNESS, Handedness::Right);
    assert_eq!(MODEL_LENGTH_UNIT, LengthUnit::Meter);
    assert_eq!(MODEL_ANGLE_UNIT, AngleUnit::Radian);
}
