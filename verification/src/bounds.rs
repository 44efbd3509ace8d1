//! Validated finite axis-aligned bounding boxes.
//!
//! [`Bounds2`] and [`Bounds3`] represent axis-aligned bounding boxes with
//! finite, non-inverted coordinate bounds. Construction is checked.
use crate::ieee::{f64_units, is_finite_bits, le};
use crate::math::{Point2, Point3};
use vstd::prelude::*;

verus! {

/// Error from invalid bounds construction or operation.
#[derive(Clone, Copy, Debug, PartialEq, Eq, Structural)]
pub enum BoundsError {
    /// A coordinate is NaN or infinite.
    NonFinite,
    /// The minimum exceeds the maximum in at least one dimension.
    InvertedBounds,
    /// An expansion or arithmetic operation overflowed.
    Overflow,
}

impl BoundsError {
    /// The human-readable explanation of the error.
    pub fn message(&self) -> (message: &'static str)
        ensures
            message@ == match *self {
            BoundsError::NonFinite => "bounds coordinates must be finite"@,
            BoundsError::InvertedBounds => "bounds minimum must not exceed maximum in any dimension"@,
            BoundsError::Overflow => "bounds operation overflowed"@,
        },
    {
        match self {
            BoundsError::NonFinite => "bounds coordinates must be finite",
            BoundsError::InvertedBounds => "bounds minimum must not exceed maximum in any dimension",
            BoundsError::Overflow => "bounds operation overflowed",
        }
    }
}

/// The exact value of a finite pattern (abbreviation).
pub open spec fn val(bits: u64) -> int {
    f64_units(bits)
}

/// The smaller of two values.
pub open spec fn min_val(a: int, b: int) -> int {
    if a <= b {
        a
    } else {
        b
    }
}

/// The larger of two values.
pub open spec fn max_val(a: int, b: int) -> int {
    if a <= b {
        b
    } else {
        a
    }
}

/// Selects the pattern with the smaller value (either one on a tie).
fn min_bits(a: u64, b: u64) -> (m: u64)
    requires
        is_finite_bits(a),
        is_finite_bits(b),
    ensures
        is_finite_bits(m),
        val(m) == min_val(val(a), val(b)),
        m == a || m == b,
{
    if le(a, b) {
        a
    } else {
        b
    }
}

/// Selects the pattern with the larger value (either one on a tie).
fn max_bits(a: u64, b: u64) -> (m: u64)
    requires
        is_finite_bits(a),
        is_finite_bits(b),
    ensures
        is_finite_bits(m),
        val(m) == max_val(val(a), val(b)),
        m == a || m == b,
{
    if le(a, b) {
        b
    } else {
        a
    }
}

/// `min` does not exceed `max` on either axis.
pub open spec fn ordered2(min: Point2, max: Point2) -> bool {
    val(min.spec_x()) <= val(max.spec_x()) && val(min.spec_y()) <= val(max.spec_y())
}

/// `point` lies in the closed box `[min, max]`.
pub open spec fn inside2(min: Point2, max: Point2, point: Point2) -> bool {
    &&& val(min.spec_x()) <= val(point.spec_x()) <= val(max.spec_x())
    &&& val(min.spec_y()) <= val(point.spec_y()) <= val(max.spec_y())
}

/// `union` spans from the smaller to the larger corner of `a` and `b` on
/// every axis.
pub open spec fn is_union2(union: Bounds2, a: Bounds2, b: Bounds2) -> bool {
    &&& val(union.spec_min().spec_x()) == min_val(val(a.spec_min().spec_x()), val(b.spec_min().spec_x()))
    &&& val(union.spec_min().spec_y()) == min_val(val(a.spec_min().spec_y()), val(b.spec_min().spec_y()))
    &&& val(union.spec_max().spec_x()) == max_val(val(a.spec_max().spec_x()), val(b.spec_max().spec_x()))
    &&& val(union.spec_max().spec_y()) == max_val(val(a.spec_max().spec_y()), val(b.spec_max().spec_y()))
}

/// `meet` is the overlap of `a` and `b`: present exactly when the larger
/// minimum does not exceed the smaller maximum on every axis, and then
/// spanning between them.
pub open spec fn is_meet2(meet: Option<Bounds2>, a: Bounds2, b: Bounds2) -> bool {
    let lo_x = max_val(val(a.spec_min().spec_x()), val(b.spec_min().spec_x()));
    let lo_y = max_val(val(a.spec_min().spec_y()), val(b.spec_min().spec_y()));
    let hi_x = min_val(val(a.spec_max().spec_x()), val(b.spec_max().spec_x()));
    let hi_y = min_val(val(a.spec_max().spec_y()), val(b.spec_max().spec_y()));
    &&& (meet is Some <==> lo_x <= hi_x && lo_y <= hi_y)
    &&& (meet matches Some(m) ==> {
        &&& val(m.spec_min().spec_x()) == lo_x
        &&& val(m.spec_min().spec_y()) == lo_y
        &&& val(m.spec_max().spec_x()) == hi_x
        &&& val(m.spec_max().spec_y()) == hi_y
    })
}

/// A finite axis-aligned bounding box in 2-D.
///
/// Invariant: `min.x ≤ max.x` and `min.y ≤ max.y`.
#[derive(Clone, Copy, Debug, PartialEq)]
pub struct Bounds2 {
    min: Point2,
    max: Point2,
}

impl Bounds2 {
    /// The corners are ordered on every axis.
    #[verifier::type_invariant]
    pub open spec fn is_ordered(self) -> bool {
        ordered2(self.spec_min(), self.spec_max())
    }

    /// The minimum corner.
    pub closed spec fn spec_min(self) -> Point2 {
        self.min
    }

    /// The maximum corner.
    pub closed spec fn spec_max(self) -> Point2 {
        self.max
    }

    /// Constructs `[min, max]`.
    ///
    /// Returns [`BoundsError::InvertedBounds`] when `min.x > max.x` or
    /// `min.y > max.y`.
    pub fn try_new(min: Point2, max: Point2) -> (bounds: Result<Self, BoundsError>)
        ensures
            bounds is Ok <==> ordered2(min, max),
            bounds matches Ok(b) ==> b.spec_min() == min && b.spec_max() == max,
            bounds matches Err(e) ==> e == BoundsError::InvertedBounds,
    {
        proof {
            use_type_invariant(&min);
            use_type_invariant(&max);
        }
        if !le(min.x(), max.x()) || !le(min.y(), max.y()) {
            return Err(BoundsError::InvertedBounds);
        }
        Ok(Self { min, max })
    }

    /// Constructs a degenerate (point) bounding box `[p, p]`.
    pub fn from_point(point: Point2) -> (bounds: Self)
        ensures
            bounds.spec_min() == point,
            bounds.spec_max() == point,
    {
        Self { min: point, max: point }
    }

    /// Returns the minimum corner.
    pub fn min(self) -> (min: Point2)
        ensures
            min == self.spec_min(),
    {
        self.min
    }

    /// Returns the maximum corner.
    pub fn max(self) -> (max: Point2)
        ensures
            max == self.spec_max(),
    {
        self.max
    }

    /// Returns `true` when `point` lies within (inclusive) the bounding box.
    pub fn contains(self, point: Point2) -> (inside: bool)
        ensures
            inside == inside2(self.spec_min(), self.spec_max(), point),
    {
        proof {
            use_type_invariant(&self.min);
            use_type_invariant(&self.max);
            use_type_invariant(&point);
        }
        le(self.min.x(), point.x()) && le(point.x(), self.max.x()) && le(self.min.y(), point.y())
            && le(point.y(), self.max.y())
    }

    /// Returns the smallest bounding box that contains both `self` and `other`.
    pub fn union(self, other: Self) -> (union: Self)
        ensures
            is_union2(union, self, other),
    {
        proof {
            use_type_invariant(&self);
            use_type_invariant(&other);
            use_type_invariant(&self.min);
            use_type_invariant(&self.max);
            use_type_invariant(&other.min);
            use_type_invariant(&other.max);
        }
        let min = Point2::from_finite(
            min_bits(self.min.x(), other.min.x()),
            min_bits(self.min.y(), other.min.y()),
        );
        let max = Point2::from_finite(
            max_bits(self.max.x(), other.max.x()),
            max_bits(self.max.y(), other.max.y()),
        );
        Self { min, max }
    }

    /// Returns the intersection, or `None` when the boxes do not overlap.
    pub fn intersection(self, other: Self) -> (meet: Option<Self>)
        ensures
            is_meet2(meet, self, other),
    {
        proof {
            use_type_invariant(&self.min);
            use_type_invariant(&self.max);
            use_type_invariant(&other.min);
            use_type_invariant(&other.max);
        }
        let min_x = max_bits(self.min.x(), other.min.x());
        let min_y = max_bits(self.min.y(), other.min.y());
        let max_x = min_bits(self.max.x(), other.max.x());
        let max_y = min_bits(self.max.y(), other.max.y());
        if le(min_x, max_x) && le(min_y, max_y) {
            Some(
                Self {
                    min: Point2::from_finite(min_x, min_y),
                    max: Point2::from_finite(max_x, max_y),
                },
            )
        } else {
            None
        }
    }
}

/// `min` does not exceed `max` on any axis.
pub open spec fn ordered3(min: Point3, max: Point3) -> bool {
    &&& val(min.spec_x()) <= val(max.spec_x())
    &&& val(min.spec_y()) <= val(max.spec_y())
    &&& val(min.spec_z()) <= val(max.spec_z())
}

/// `point` lies in the closed box `[min, max]`.
pub open spec fn inside3(min: Point3, max: Point3, point: Point3) -> bool {
    &&& val(min.spec_x()) <= val(point.spec_x()) <= val(max.spec_x())
    &&& val(min.spec_y()) <= val(point.spec_y()) <= val(max.spec_y())
    &&& val(min.spec_z()) <= val(point.spec_z()) <= val(max.spec_z())
}

/// `union` spans from the smaller to the larger corner of `a` and `b` on
/// every axis.
pub open spec fn is_union3(union: Bounds3, a: Bounds3, b: Bounds3) -> bool {
    &&& val(union.spec_min().spec_x()) == min_val(val(a.spec_min().spec_x()), val(b.spec_min().spec_x()))
    &&& val(union.spec_min().spec_y()) == min_val(val(a.spec_min().spec_y()), val(b.spec_min().spec_y()))
    &&& val(union.spec_min().spec_z()) == min_val(val(a.spec_min().spec_z()), val(b.spec_min().spec_z()))
    &&& val(union.spec_max().spec_x()) == max_val(val(a.spec_max().spec_x()), val(b.spec_max().spec_x()))
    &&& val(union.spec_max().spec_y()) == max_val(val(a.spec_max().spec_y()), val(b.spec_max().spec_y()))
    &&& val(union.spec_max().spec_z()) == max_val(val(a.spec_max().spec_z()), val(b.spec_max().spec_z()))
}

/// `meet` is the overlap of `a` and `b`: present exactly when the larger
/// minimum does not exceed the smaller maximum on every axis, and then
/// spanning between them.
pub open spec fn is_meet3(meet: Option<Bounds3>, a: Bounds3, b: Bounds3) -> bool {
    let lo_x = max_val(val(a.spec_min().spec_x()), val(b.spec_min().spec_x()));
    let lo_y = max_val(val(a.spec_min().spec_y()), val(b.spec_min().spec_y()));
    let lo_z = max_val(val(a.spec_min().spec_z()), val(b.spec_min().spec_z()));
    let hi_x = min_val(val(a.spec_max().spec_x()), val(b.spec_max().spec_x()));
    let hi_y = min_val(val(a.spec_max().spec_y()), val(b.spec_max().spec_y()));
    let hi_z = min_val(val(a.spec_max().spec_z()), val(b.spec_max().spec_z()));
    &&& (meet is Some <==> lo_x <= hi_x && lo_y <= hi_y && lo_z <= hi_z)
    &&& (meet matches Some(m) ==> {
        &&& val(m.spec_min().spec_x()) == lo_x
        &&& val(m.spec_min().spec_y()) == lo_y
        &&& val(m.spec_min().spec_z()) == lo_z
        &&& val(m.spec_max().spec_x()) == hi_x
        &&& val(m.spec_max().spec_y()) == hi_y
        &&& val(m.spec_max().spec_z()) == hi_z
    })
}

/// A finite axis-aligned bounding box in 3-D model space.
///
/// Invariant: each `min` component ≤ the corresponding `max` component.
#[derive(Clone, Copy, Debug, PartialEq)]
pub struct Bounds3 {
    min: Point3,
    max: Point3,
}

impl Bounds3 {
    /// The corners are ordered on every axis.
    #[verifier::type_invariant]
    pub open spec fn is_ordered(self) -> bool {
        ordered3(self.spec_min(), self.spec_max())
    }

    /// The minimum corner.
    pub closed spec fn spec_min(self) -> Point3 {
        self.min
    }

    /// The maximum corner.
    pub closed spec fn spec_max(self) -> Point3 {
        self.max
    }

    /// Constructs `[min, max]`.
    ///
    /// Returns [`BoundsError::InvertedBounds`] when any minimum component
    /// exceeds its corresponding maximum component.
    pub fn try_new(min: Point3, max: Point3) -> (bounds: Result<Self, BoundsError>)
        ensures
            bounds is Ok <==> ordered3(min, max),
            bounds matches Ok(b) ==> b.spec_min() == min && b.spec_max() == max,
            bounds matches Err(e) ==> e == BoundsError::InvertedBounds,
    {
        proof {
            use_type_invariant(&min);
            use_type_invariant(&max);
        }
        if !le(min.x(), max.x()) || !le(min.y(), max.y()) || !le(min.z(), max.z()) {
            return Err(BoundsError::InvertedBounds);
        }
        Ok(Self { min, max })
    }

    /// Constructs a degenerate (point) bounding box `[p, p]`.
    pub fn from_point(point: Point3) -> (bounds: Self)
        ensures
            bounds.spec_min() == point,
            bounds.spec_max() == point,
    {
        Self { min: point, max: point }
    }

    /// Returns the minimum corner.
    pub fn min(self) -> (min: Point3)
        ensures
            min == self.spec_min(),
    {
        self.min
    }

    /// Returns the maximum corner.
    pub fn max(self) -> (max: Point3)
        ensures
            max == self.spec_max(),
    {
        self.max
    }

    /// Returns `true` when `point` lies within (inclusive) the bounding box.
    pub fn contains(self, point: Point3) -> (inside: bool)
        ensures
            inside == inside3(self.spec_min(), self.spec_max(), point),
    {
        proof {
            use_type_invariant(&self.min);
            use_type_invariant(&self.max);
            use_type_invariant(&point);
        }
        le(self.min.x(), point.x()) && le(point.x(), self.max.x()) && le(self.min.y(), point.y())
            && le(point.y(), self.max.y()) && le(self.min.z(), point.z()) && le(
            point.z(),
            self.max.z(),
        )
    }

    /// Returns the smallest bounding box that contains both `self` and `other`.
    pub fn union(self, other: Self) -> (union: Self)
        ensures
            is_union3(union, self, other),
    {
        proof {
            use_type_invariant(&self);
            use_type_invariant(&other);
            use_type_invariant(&self.min);
            use_type_invariant(&self.max);
            use_type_invariant(&other.min);
            use_type_invariant(&other.max);
        }
        let min = Point3::from_finite(
            min_bits(self.min.x(), other.min.x()),
            min_bits(self.min.y(), other.min.y()),
            min_bits(self.min.z(), other.min.z()),
        );
        let max = Point3::from_finite(
            max_bits(self.max.x(), other.max.x()),
            max_bits(self.max.y(), other.max.y()),
            max_bits(self.max.z(), other.max.z()),
        );
        Self { min, max }
    }

    /// Returns the intersection, or `None` when the boxes do not overlap.
    pub fn intersection(self, other: Self) -> (meet: Option<Self>)
        ensures
            is_meet3(meet, self, other),
    {
        proof {
            use_type_invariant(&self.min);
            use_type_invariant(&self.max);
            use_type_invariant(&other.min);
            use_type_invariant(&other.max);
        }
        let min_x = max_bits(self.min.x(), other.min.x());
        let min_y = max_bits(self.min.y(), other.min.y());
        let min_z = max_bits(self.min.z(), other.min.z());
        let max_x = min_bits(self.max.x(), other.max.x());
        let max_y = min_bits(self.max.y(), other.max.y());
        let max_z = min_bits(self.max.z(), other.max.z());
        if le(min_x, max_x) && le(min_y, max_y) && le(min_z, max_z) {
            Some(
                Self {
                    min: Point3::from_finite(min_x, min_y, min_z),
                    max: Point3::from_finite(max_x, max_y, max_z),
                },
            )
        } else {
            None
        }
    }
}

/// The union of two boxes contains every point of either, and lies inside
/// every box that contains both.
pub proof fn union2_is_least_enclosure(a: Bounds2, b: Bounds2, union: Bounds2, c: Bounds2, p: Point2)
    requires
        is_union2(union, a, b),
    ensures
        inside2(a.spec_min(), a.spec_max(), p) || inside2(b.spec_min(), b.spec_max(), p) ==> inside2(
            union.spec_min(),
            union.spec_max(),
            p,
        ),
        inside2(c.spec_min(), c.spec_max(), a.spec_min()) && inside2(c.spec_min(), c.spec_max(), a.spec_max())
            && inside2(c.spec_min(), c.spec_max(), b.spec_min()) && inside2(c.spec_min(), c.spec_max(), b.spec_max())
            ==> inside2(c.spec_min(), c.spec_max(), union.spec_min()) && inside2(
            c.spec_min(),
            c.spec_max(),
            union.spec_max(),
        ),
{
}

/// The intersection of two boxes holds exactly the points of both; when
/// there is none, no point lies in both.
pub proof fn intersection2_is_common_part(a: Bounds2, b: Bounds2, meet: Option<Bounds2>, p: Point2)
    requires
        is_meet2(meet, a, b),
    ensures
        meet matches Some(m) ==> (inside2(m.spec_min(), m.spec_max(), p) <==> inside2(
            a.spec_min(),
            a.spec_max(),
            p,
        ) && inside2(b.spec_min(), b.spec_max(), p)),
        meet is None ==> !(inside2(a.spec_min(), a.spec_max(), p) && inside2(
            b.spec_min(),
            b.spec_max(),
            p,
        )),
{
}

/// The union of two boxes contains every point of either, and lies inside
/// every box that contains both.
pub proof fn union3_is_least_enclosure(a: Bounds3, b: Bounds3, union: Bounds3, c: Bounds3, p: Point3)
    requires
        is_union3(union, a, b),
    ensures
        inside3(a.spec_min(), a.spec_max(), p) || inside3(b.spec_min(), b.spec_max(), p) ==> inside3(
            union.spec_min(),
            union.spec_max(),
            p,
        ),
        inside3(c.spec_min(), c.spec_max(), a.spec_min()) && inside3(c.spec_min(), c.spec_max(), a.spec_max())
            && inside3(c.spec_min(), c.spec_max(), b.spec_min()) && inside3(c.spec_min(), c.spec_max(), b.spec_max())
            ==> inside3(c.spec_min(), c.spec_max(), union.spec_min()) && inside3(
            c.spec_min(),
            c.spec_max(),
            union.spec_max(),
        ),
{
}

/// The intersection of two boxes holds exactly the points of both; when
/// there is none, no point lies in both.
pub proof fn intersection3_is_common_part(a: Bounds3, b: Bounds3, meet: Option<Bounds3>, p: Point3)
    requires
        is_meet3(meet, a, b),
    ensures
        meet matches Some(m) ==> (inside3(m.spec_min(), m.spec_max(), p) <==> inside3(
            a.spec_min(),
            a.spec_max(),
            p,
        ) && inside3(b.spec_min(), b.spec_max(), p)),
        meet is None ==> !(inside3(a.spec_min(), a.spec_max(), p) && inside3(
            b.spec_min(),
            b.spec_max(),
            p,
        )),
{
}

/// A box built from a single point holds that point and no other value.
pub proof fn point_box_holds_only_its_point(point: Point2, bounds: Bounds2, q: Point2)
    requires
        bounds.spec_min() == point,
        bounds.spec_max() == point,
    ensures
        inside2(bounds.spec_min(), bounds.spec_max(), q) <==> val(q.spec_x()) == val(point.spec_x())
            && val(q.spec_y()) == val(point.spec_y()),
{
}

} // verus!
