//! Finite model-space values and transform storage conventions.
//!
//! Coordinates are stored as binary64 bit patterns (see [`crate::ieee`]);
//! every stored pattern is finite.
use crate::ieee::{f64_units, is_finite, is_finite_bits, value_eq};
use vstd::prelude::*;

verus! {

/// Error returned when a model-space value contains NaN or infinity.
#[derive(Clone, Copy, Debug, PartialEq, Eq, Structural)]
pub struct NonFiniteValue {
    component: usize,
}

impl NonFiniteValue {
    /// The zero-based component containing the invalid value.
    pub closed spec fn spec_component(self) -> usize {
        self.component
    }

    fn new(component: usize) -> (error: Self)
        ensures
            error.spec_component() == component,
    {
        Self { component }
    }

    /// Returns the zero-based component containing the invalid value.
    pub fn component(self) -> (component: usize)
        ensures
            component == self.spec_component(),
    {
        self.component
    }
}

/// Every pattern of the sequence is finite.
pub open spec fn all_finite(values: Seq<u64>) -> bool {
    forall|i: int| 0 <= i < values.len() ==> is_finite_bits(#[trigger] values[i])
}

/// `index` is the first position of a non-finite pattern.
pub open spec fn first_non_finite_at(values: Seq<u64>, index: int) -> bool {
    &&& 0 <= index < values.len()
    &&& !is_finite_bits(values[index])
    &&& forall|k: int| 0 <= k < index ==> is_finite_bits(#[trigger] values[k])
}

/// Checks that every value is finite, reporting the first one that is not.
pub fn ensure_finite(values: &[u64]) -> (checked: Result<(), NonFiniteValue>)
    ensures
        checked is Ok <==> all_finite(values@),
        checked matches Err(e) ==> first_non_finite_at(values@, e.spec_component() as int),
{
    let mut index: usize = 0;
    while index < values.len()
        invariant
            0 <= index <= values@.len(),
            forall|k: int| 0 <= k < index ==> is_finite_bits(#[trigger] values@[k]),
        decreases values@.len() - index,
    {
        if !is_finite(values[index]) {
            return Err(NonFiniteValue::new(index));
        }
        index = index + 1;
    }
    Ok(())
}

/// A finite point in a two-dimensional coordinate frame.
///
/// Two values are equal when their coordinates are numerically equal.
#[derive(Clone, Copy, Debug)]
pub struct Point2 {
    x: u64,
    y: u64,
}

impl Point2 {
    /// Wraps coordinates already known to be finite.
    pub(crate) fn from_finite(x: u64, y: u64) -> (point: Self)
        requires
            is_finite_bits(x),
            is_finite_bits(y),
        ensures
            point.spec_x() == x,
            point.spec_y() == y,
    {
        Self { x, y }
    }

    /// Every stored pattern is finite; this holds of every value.
    #[verifier::type_invariant]
    pub open spec fn is_finite(self) -> bool {
        is_finite_bits(self.spec_x()) && is_finite_bits(self.spec_y())
    }

    /// The X coordinate pattern.
    pub closed spec fn spec_x(self) -> u64 {
        self.x
    }

    /// The Y coordinate pattern.
    pub closed spec fn spec_y(self) -> u64 {
        self.y
    }


    /// Creates a value if every coordinate is finite.
    pub fn try_new(x: u64, y: u64) -> (created: Result<Self, NonFiniteValue>)
        ensures
            created is Ok <==> is_finite_bits(x) && is_finite_bits(y),
            created matches Ok(p) ==> p.spec_x() == x && p.spec_y() == y,
            created matches Err(e) ==> e.spec_component() == if !is_finite_bits(x) {
                0usize
            } else {
                1usize
            },
    {
        let values = [x, y];
        match ensure_finite(&values) {
            Ok(()) => {
                assert(values@[0] == x && values@[1] == y);
                assert(is_finite_bits(x) && is_finite_bits(y));
                Ok(Self { x, y })
            },
            Err(e) => {
                assert(values@[0] == x && values@[1] == y);
                Err(e)
            },
        }
    }

    /// Returns the X coordinate.
    pub fn x(self) -> (x: u64)
        ensures
            x == self.spec_x(),
    {
        self.x
    }

    /// Returns the Y coordinate.
    pub fn y(self) -> (y: u64)
        ensures
            y == self.spec_y(),
    {
        self.y
    }

    /// Returns the coordinates in canonical order.
    pub fn into_array(self) -> (values: [u64; 2])
        ensures
            values[0] == self.spec_x(),
            values[1] == self.spec_y(),
    {
        [self.x, self.y]
    }
}

impl PartialEq for Point2 {
    fn eq(&self, other: &Self) -> (equal: bool) {
        proof {
            use_type_invariant(self);
            use_type_invariant(other);
        }
        value_eq(self.x, other.x) && value_eq(self.y, other.y)
    }
}

impl vstd::std_specs::cmp::PartialEqSpecImpl for Point2 {
    open spec fn obeys_eq_spec() -> bool {
        true
    }

    open spec fn eq_spec(&self, other: &Self) -> bool {
        f64_units(self.spec_x()) == f64_units(other.spec_x()) && f64_units(self.spec_y()) == f64_units(other.spec_y())
    }
}

/// A finite vector in a two-dimensional coordinate frame.
///
/// Two values are equal when their components are numerically equal.
#[derive(Clone, Copy, Debug)]
pub struct Vector2 {
    x: u64,
    y: u64,
}

impl Vector2 {
    /// Every stored pattern is finite; this holds of every value.
    #[verifier::type_invariant]
    pub open spec fn is_finite(self) -> bool {
        is_finite_bits(self.spec_x()) && is_finite_bits(self.spec_y())
    }

    /// The X component pattern.
    pub closed spec fn spec_x(self) -> u64 {
        self.x
    }

    /// The Y component pattern.
    pub closed spec fn spec_y(self) -> u64 {
        self.y
    }


    /// Creates a value if every component is finite.
    pub fn try_new(x: u64, y: u64) -> (created: Result<Self, NonFiniteValue>)
        ensures
            created is Ok <==> is_finite_bits(x) && is_finite_bits(y),
            created matches Ok(p) ==> p.spec_x() == x && p.spec_y() == y,
            created matches Err(e) ==> e.spec_component() == if !is_finite_bits(x) {
                0usize
            } else {
                1usize
            },
    {
        let values = [x, y];
        match ensure_finite(&values) {
            Ok(()) => {
                assert(values@[0] == x && values@[1] == y);
                assert(is_finite_bits(x) && is_finite_bits(y));
                Ok(Self { x, y })
            },
            Err(e) => {
                assert(values@[0] == x && values@[1] == y);
                Err(e)
            },
        }
    }

    /// Returns the X component.
    pub fn x(self) -> (x: u64)
        ensures
            x == self.spec_x(),
    {
        self.x
    }

    /// Returns the Y component.
    pub fn y(self) -> (y: u64)
        ensures
            y == self.spec_y(),
    {
        self.y
    }

    /// Returns the components in canonical order.
    pub fn into_array(self) -> (values: [u64; 2])
        ensures
            values[0] == self.spec_x(),
            values[1] == self.spec_y(),
    {
        [self.x, self.y]
    }
}

impl PartialEq for Vector2 {
    fn eq(&self, other: &Self) -> (equal: bool) {
        proof {
            use_type_invariant(self);
            use_type_invariant(other);
        }
        value_eq(self.x, other.x) && value_eq(self.y, other.y)
    }
}

impl vstd::std_specs::cmp::PartialEqSpecImpl for Vector2 {
    open spec fn obeys_eq_spec() -> bool {
        true
    }

    open spec fn eq_spec(&self, other: &Self) -> bool {
        f64_units(self.spec_x()) == f64_units(other.spec_x()) && f64_units(self.spec_y()) == f64_units(other.spec_y())
    }
}

/// A finite point in three-dimensional model space.
///
/// Two values are equal when their coordinates are numerically equal.
#[derive(Clone, Copy, Debug)]
pub struct Point3 {
    x: u64,
    y: u64,
    z: u64,
}

impl Point3 {
    /// Wraps coordinates already known to be finite.
    pub(crate) fn from_finite(x: u64, y: u64, z: u64) -> (point: Self)
        requires
            is_finite_bits(x),
            is_finite_bits(y),
            is_finite_bits(z),
        ensures
            point.spec_x() == x,
            point.spec_y() == y,
            point.spec_z() == z,
    {
        Self { x, y, z }
    }

    /// Every stored pattern is finite; this holds of every value.
    #[verifier::type_invariant]
    pub open spec fn is_finite(self) -> bool {
        is_finite_bits(self.spec_x()) && is_finite_bits(self.spec_y()) && is_finite_bits(self.spec_z())
    }

    /// The X coordinate pattern.
    pub closed spec fn spec_x(self) -> u64 {
        self.x
    }

    /// The Y coordinate pattern.
    pub closed spec fn spec_y(self) -> u64 {
        self.y
    }

    /// The Z coordinate pattern.
    pub closed spec fn spec_z(self) -> u64 {
        self.z
    }


    /// Creates a value if every coordinate is finite.
    pub fn try_new(x: u64, y: u64, z: u64) -> (created: Result<Self, NonFiniteValue>)
        ensures
            created is Ok <==> is_finite_bits(x) && is_finite_bits(y) && is_finite_bits(z),
            created matches Ok(p) ==> p.spec_x() == x && p.spec_y() == y && p.spec_z() == z,
            created matches Err(e) ==> e.spec_component() == if !is_finite_bits(x) {
                0usize
            } else if !is_finite_bits(y) {
                1usize
            } else {
                2usize
            },
    {
        let values = [x, y, z];
        match ensure_finite(&values) {
            Ok(()) => {
                assert(values@[0] == x && values@[1] == y && values@[2] == z);
                assert(is_finite_bits(x) && is_finite_bits(y) && is_finite_bits(z));
                Ok(Self { x, y, z })
            },
            Err(e) => {
                assert(values@[0] == x && values@[1] == y && values@[2] == z);
                Err(e)
            },
        }
    }

    /// Returns the X coordinate.
    pub fn x(self) -> (x: u64)
        ensures
            x == self.spec_x(),
    {
        self.x
    }

    /// Returns the Y coordinate.
    pub fn y(self) -> (y: u64)
        ensures
            y == self.spec_y(),
    {
        self.y
    }

    /// Returns the Z coordinate.
    pub fn z(self) -> (z: u64)
        ensures
            z == self.spec_z(),
    {
        self.z
    }

    /// Returns the coordinates in canonical order.
    pub fn into_array(self) -> (values: [u64; 3])
        ensures
            values[0] == self.spec_x(),
            values[1] == self.spec_y(),
            values[2] == self.spec_z(),
    {
        [self.x, self.y, self.z]
    }
}

impl PartialEq for Point3 {
    fn eq(&self, other: &Self) -> (equal: bool) {
        proof {
            use_type_invariant(self);
            use_type_invariant(other);
        }
        value_eq(self.x, other.x) && value_eq(self.y, other.y) && value_eq(self.z, other.z)
    }
}

impl vstd::std_specs::cmp::PartialEqSpecImpl for Point3 {
    open spec fn obeys_eq_spec() -> bool {
        true
    }

    open spec fn eq_spec(&self, other: &Self) -> bool {
        f64_units(self.spec_x()) == f64_units(other.spec_x()) && f64_units(self.spec_y()) == f64_units(other.spec_y()) && f64_units(self.spec_z()) == f64_units(other.spec_z())
    }
}

/// A finite vector in three-dimensional model space.
///
/// Two values are equal when their components are numerically equal.
#[derive(Clone, Copy, Debug)]
pub struct Vector3 {
    x: u64,
    y: u64,
    z: u64,
}

impl Vector3 {
    /// Every stored pattern is finite; this holds of every value.
    #[verifier::type_invariant]
    pub open spec fn is_finite(self) -> bool {
        is_finite_bits(self.spec_x()) && is_finite_bits(self.spec_y()) && is_finite_bits(self.spec_z())
    }

    /// The X component pattern.
    pub closed spec fn spec_x(self) -> u64 {
        self.x
    }

    /// The Y component pattern.
    pub closed spec fn spec_y(self) -> u64 {
        self.y
    }

    /// The Z component pattern.
    pub closed spec fn spec_z(self) -> u64 {
        self.z
    }


    /// Creates a value if every component is finite.
    pub fn try_new(x: u64, y: u64, z: u64) -> (created: Result<Self, NonFiniteValue>)
        ensures
            created is Ok <==> is_finite_bits(x) && is_finite_bits(y) && is_finite_bits(z),
            created matches Ok(p) ==> p.spec_x() == x && p.spec_y() == y && p.spec_z() == z,
            created matches Err(e) ==> e.spec_component() == if !is_finite_bits(x) {
                0usize
            } else if !is_finite_bits(y) {
                1usize
            } else {
                2usize
            },
    {
        let values = [x, y, z];
        match ensure_finite(&values) {
            Ok(()) => {
                assert(values@[0] == x && values@[1] == y && values@[2] == z);
                assert(is_finite_bits(x) && is_finite_bits(y) && is_finite_bits(z));
                Ok(Self { x, y, z })
            },
            Err(e) => {
                assert(values@[0] == x && values@[1] == y && values@[2] == z);
                Err(e)
            },
        }
    }

    /// Returns the X component.
    pub fn x(self) -> (x: u64)
        ensures
            x == self.spec_x(),
    {
        self.x
    }

    /// Returns the Y component.
    pub fn y(self) -> (y: u64)
        ensures
            y == self.spec_y(),
    {
        self.y
    }

    /// Returns the Z component.
    pub fn z(self) -> (z: u64)
        ensures
            z == self.spec_z(),
    {
        self.z
    }

    /// Returns the components in canonical order.
    pub fn into_array(self) -> (values: [u64; 3])
        ensures
            values[0] == self.spec_x(),
            values[1] == self.spec_y(),
            values[2] == self.spec_z(),
    {
        [self.x, self.y, self.z]
    }
}

impl PartialEq for Vector3 {
    fn eq(&self, other: &Self) -> (equal: bool) {
        proof {
            use_type_invariant(self);
            use_type_invariant(other);
        }
        value_eq(self.x, other.x) && value_eq(self.y, other.y) && value_eq(self.z, other.z)
    }
}

impl vstd::std_specs::cmp::PartialEqSpecImpl for Vector3 {
    open spec fn obeys_eq_spec() -> bool {
        true
    }

    open spec fn eq_spec(&self, other: &Self) -> bool {
        f64_units(self.spec_x()) == f64_units(other.spec_x()) && f64_units(self.spec_y()) == f64_units(other.spec_y()) && f64_units(self.spec_z()) == f64_units(other.spec_z())
    }
}

/// A finite affine transform stored as a row-major 3 by 4 matrix.
///
/// Points are column vectors.
#[derive(Clone, Copy, Debug)]
pub struct Transform3 {
    entries: [u64; 12],
}

impl Transform3 {
    /// Every stored entry is finite; this holds of every value.
    #[verifier::type_invariant]
    pub open spec fn is_finite(self) -> bool {
        self.spec_entries().len() == 12 && all_finite(self.spec_entries())
    }

    /// The row-major matrix entries.
    pub closed spec fn spec_entries(self) -> Seq<u64> {
        self.entries@
    }


    /// The identity transform.
    pub fn identity() -> (transform: Self)
        ensures
            transform.spec_entries() == seq![
                0x3ff0_0000_0000_0000u64, 0, 0, 0,
                0, 0x3ff0_0000_0000_0000u64, 0, 0,
                0, 0, 0x3ff0_0000_0000_0000u64, 0,
            ],
    {
        let one: u64 = 0x3ff0_0000_0000_0000;
        let entries = [one, 0, 0, 0, 0, one, 0, 0, 0, 0, one, 0];
        let transform = Self { entries };
        assert(transform.spec_entries() =~= seq![
            0x3ff0_0000_0000_0000u64, 0, 0, 0,
            0, 0x3ff0_0000_0000_0000u64, 0, 0,
            0, 0, 0x3ff0_0000_0000_0000u64, 0,
        ]);
        transform
    }

    /// Creates a transform from a finite row-major 3 by 4 affine matrix.
    pub fn try_from_row_major(values: [u64; 12]) -> (transform: Result<Self, NonFiniteValue>)
        ensures
            transform is Ok <==> all_finite(values@),
            transform matches Ok(t) ==> t.spec_entries() == values@,
            transform matches Err(e) ==> first_non_finite_at(values@, e.spec_component() as int),
    {
        match ensure_finite(&values) {
            Ok(()) => Ok(Self { entries: values }),
            Err(e) => Err(e),
        }
    }

    /// Returns the row-major 3 by 4 affine matrix.
    pub fn into_row_major(self) -> (values: [u64; 12])
        ensures
            values@ == self.spec_entries(),
    {
        self.entries
    }
}

impl PartialEq for Transform3 {
    fn eq(&self, other: &Self) -> (equal: bool) {
        proof {
            use_type_invariant(self);
            use_type_invariant(other);
        }
        let mut index: usize = 0;
        while index < 12
            invariant
                0 <= index <= 12,
                all_finite(self.entries@),
                all_finite(other.entries@),
                forall|k: int|
                    0 <= k < index ==> f64_units(#[trigger] self.entries@[k]) == f64_units(
                        other.entries@[k],
                    ),
            decreases 12 - index,
        {
            if !value_eq(self.entries[index], other.entries[index]) {
                assert(f64_units(self.spec_entries()[index as int]) != f64_units(
                    other.spec_entries()[index as int],
                ));
                return false;
            }
            index = index + 1;
        }
        true
    }
}

impl vstd::std_specs::cmp::PartialEqSpecImpl for Transform3 {
    open spec fn obeys_eq_spec() -> bool {
        true
    }

    open spec fn eq_spec(&self, other: &Self) -> bool {
        forall|k: int|
            0 <= k < 12 ==> f64_units(#[trigger] self.spec_entries()[k]) == f64_units(
                other.spec_entries()[k],
            )
    }
}

} // verus!
