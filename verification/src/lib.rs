//! Exact and tolerant B-Rep kernel foundations: finite model-space values,
//! validated containers, exact orientation predicates, and the geometry
//! evaluation contracts built on them.
pub mod bounds;
pub mod conventions;
pub mod diagnostic;
pub mod exact;
pub mod geometry;
pub mod identity;
pub mod interval;
pub mod ieee;
pub mod math;
pub mod predicates;
pub mod tolerance;
pub mod unit;
pub mod version;
