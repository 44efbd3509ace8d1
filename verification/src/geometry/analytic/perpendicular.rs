//! The orthogonality law of removing an axis component.
use crate::geometry::analytic::affine::{less_scaled3, moved3_value};
use crate::geometry::analytic::enclosure::dot_value;
use crate::geometry::analytic::nearest::lemma_dot_moved;
use vstd::prelude::*;

verus! {

/// `x - t z = x + (-t) z` coordinatewise.
proof fn lemma_less_scaled_moved(x: (real, real, real), z: (real, real, real), t: real)
    ensures
        less_scaled3(x, z, t) == moved3_value(x, z, -t),
{
    assert(x.0 - t * z.0 == x.0 + (-t) * z.0) by (nonlinear_arith);
    assert(x.1 - t * z.1 == x.1 + (-t) * z.1) by (nonlinear_arith);
    assert(x.2 - t * z.2 == x.2 + (-t) * z.2) by (nonlinear_arith);
}

/// Removing the component along an axis leaves a vector orthogonal to the
/// axis: the radial residual of a displacement and the perpendicular part of
/// a frame seed are both orthogonal to the axis seed.
pub proof fn perpendicular_part_is_orthogonal(x: (real, real, real), z: (real, real, real))
    requires
        dot_value(z, z) != 0 as real,
    ensures
        dot_value(less_scaled3(x, z, dot_value(x, z) / dot_value(z, z)), z) == 0 as real,
{
    let (xz, zz) = (dot_value(x, z), dot_value(z, z));
    let t = xz / zz;
    assert(t * zz == xz) by (nonlinear_arith)
        requires
            t == xz / zz,
            zz != 0 as real,
    ;
    lemma_less_scaled_moved(x, z, t);
    lemma_dot_moved(x, z, -t, z);
    assert((-t) * zz == -(t * zz)) by (nonlinear_arith);
}

} // verus!
