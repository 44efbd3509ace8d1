//! Resource accounting for the certified exact-arithmetic backends of the
//! analytic curves and surfaces.
pub mod admission;
pub mod affine;
pub mod angles;
pub mod cone_projection;
pub mod enclosure;
pub mod exact;
pub mod nearest;
pub mod perpendicular;
pub mod surfaces;
pub mod helpers;
pub mod transcendental;
pub mod transform;
pub mod trig;
