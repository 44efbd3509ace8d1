//! Closed real intervals with finite endpoints.
//!
//! [`Interval`] represents a connected subset `[lo, hi]` of the real line.
//! Construction rejects non-finite endpoints and intervals where `lo > hi`.
use crate::bounds::{max_val, min_val, val};
use crate::ieee::{f64_units, flip_sign, is_finite, is_finite_bits, le, lemma_flip_sign, negate};
use vstd::prelude::*;

verus! {

/// Error from invalid interval construction or operation.
#[derive(Clone, Copy, Debug, PartialEq, Eq, Structural)]
pub enum IntervalError {
    /// An endpoint is NaN or infinite.
    NonFinite,
    /// The lower bound is greater than the upper bound.
    InvertedBounds,
    /// Division by an interval containing zero is undefined.
    DivisionByZeroInterval,
    /// A negative widen amount was supplied; widening must expand the interval.
    NegativeWiden,
    /// The arithmetic result overflowed to ±infinity.
    Overflow,
}

impl IntervalError {
    /// The human-readable explanation of the error.
    pub fn message(&self) -> (message: &'static str)
        ensures
            message@ == match *self {
            IntervalError::NonFinite => "interval endpoints must be finite"@,
            IntervalError::InvertedBounds => "interval lower bound must not exceed upper bound"@,
            IntervalError::DivisionByZeroInterval => "division by an interval containing zero is not defined"@,
            IntervalError::NegativeWiden => "widen amount must be non-negative"@,
            IntervalError::Overflow => "interval arithmetic result overflowed to infinity"@,
        },
    {
        match self {
            IntervalError::NonFinite => "interval endpoints must be finite",
            IntervalError::InvertedBounds => "interval lower bound must not exceed upper bound",
            IntervalError::DivisionByZeroInterval => {
                "division by an interval containing zero is not defined"
            },
            IntervalError::NegativeWiden => "widen amount must be non-negative",
            IntervalError::Overflow => "interval arithmetic result overflowed to infinity",
        }
    }
}

/// A closed real interval `[lo, hi]` with finite endpoints.
#[derive(Clone, Copy, Debug)]
pub struct Interval {
    lo: u64,
    hi: u64,
}

impl Interval {
    /// Both endpoints are finite and ordered.
    #[verifier::type_invariant]
    pub open spec fn is_valid(self) -> bool {
        &&& is_finite_bits(self.spec_lo())
        &&& is_finite_bits(self.spec_hi())
        &&& val(self.spec_lo()) <= val(self.spec_hi())
    }

    /// The lower bound pattern.
    pub closed spec fn spec_lo(self) -> u64 {
        self.lo
    }

    /// The upper bound pattern.
    pub closed spec fn spec_hi(self) -> u64 {
        self.hi
    }

    /// Constructs `[lo, hi]`.
    ///
    /// Returns [`IntervalError::NonFinite`] when either endpoint is
    /// non-finite, else [`IntervalError::InvertedBounds`] when `lo > hi`.
    pub fn try_new(lo: u64, hi: u64) -> (interval: Result<Self, IntervalError>)
        ensures
            !(is_finite_bits(lo) && is_finite_bits(hi)) ==> interval == Err::<Self, _>(
                IntervalError::NonFinite,
            ),
            is_finite_bits(lo) && is_finite_bits(hi) && val(lo) > val(hi) ==> interval == Err::<
                Self,
                _,
            >(IntervalError::InvertedBounds),
            interval is Ok <==> is_finite_bits(lo) && is_finite_bits(hi) && val(lo) <= val(hi),
            interval matches Ok(i) ==> i.spec_lo() == lo && i.spec_hi() == hi,
    {
        if !is_finite(lo) || !is_finite(hi) {
            return Err(IntervalError::NonFinite);
        }
        if !le(lo, hi) {
            return Err(IntervalError::InvertedBounds);
        }
        Ok(Self { lo, hi })
    }

    /// Constructs a degenerate interval `[v, v]` (a single point).
    ///
    /// Returns [`IntervalError::NonFinite`] when `v` is non-finite.
    pub fn point(v: u64) -> (interval: Result<Self, IntervalError>)
        ensures
            interval is Ok <==> is_finite_bits(v),
            interval matches Ok(i) ==> i.spec_lo() == v && i.spec_hi() == v,
            interval matches Err(e) ==> e == IntervalError::NonFinite,
    {
        Self::try_new(v, v)
    }

    /// Returns the lower bound.
    pub fn lo(self) -> (lo: u64)
        ensures
            lo == self.spec_lo(),
    {
        self.lo
    }

    /// Returns the upper bound.
    pub fn hi(self) -> (hi: u64)
        ensures
            hi == self.spec_hi(),
    {
        self.hi
    }

    /// Tests whether `v` lies in `[lo, hi]`.
    ///
    /// Returns [`IntervalError::NonFinite`] when `v` is NaN or infinite.
    pub fn contains(self, v: u64) -> (inside: Result<bool, IntervalError>)
        ensures
            !is_finite_bits(v) ==> inside == Err::<bool, _>(IntervalError::NonFinite),
            is_finite_bits(v) ==> inside == Ok::<bool, IntervalError>(self.holds(val(v))),
    {
        proof {
            use_type_invariant(&self);
        }
        if !is_finite(v) {
            return Err(IntervalError::NonFinite);
        }
        Ok(le(self.lo, v) && le(v, self.hi))
    }

    /// The exact value `x` lies in the interval.
    pub open spec fn holds(self, x: int) -> bool {
        val(self.spec_lo()) <= x <= val(self.spec_hi())
    }

    /// The two intervals overlap: each starts no later than the other ends.
    pub open spec fn overlaps(self, other: Self) -> bool {
        val(self.spec_lo()) <= val(other.spec_hi()) && val(other.spec_lo()) <= val(self.spec_hi())
    }

    /// `hull` spans exactly from the smaller lower bound to the larger upper
    /// bound of `self` and `other`.
    pub open spec fn is_hull_of(hull: Self, a: Self, b: Self) -> bool {
        &&& val(hull.spec_lo()) == min_val(val(a.spec_lo()), val(b.spec_lo()))
        &&& val(hull.spec_hi()) == max_val(val(a.spec_hi()), val(b.spec_hi()))
    }

    /// Returns `true` when this interval overlaps `other`.
    pub fn intersects(self, other: Self) -> (overlap: bool)
        ensures
            overlap == self.overlaps(other),
    {
        proof {
            use_type_invariant(&self);
            use_type_invariant(&other);
        }
        le(self.lo, other.hi) && le(other.lo, self.hi)
    }

    /// Returns the smallest interval that contains both `self` and `other`.
    pub fn hull(self, other: Self) -> (hull: Self)
        ensures
            Self::is_hull_of(hull, self, other),
    {
        proof {
            use_type_invariant(&self);
            use_type_invariant(&other);
        }
        let lo = if le(self.lo, other.lo) {
            self.lo
        } else {
            other.lo
        };
        let hi = if le(self.hi, other.hi) {
            other.hi
        } else {
            self.hi
        };
        Self { lo, hi }
    }

    /// The interval `[-hi, -lo]`, formed by flipping the endpoint signs.
    pub closed spec fn spec_negated(self) -> Self {
        Self { lo: flip_sign(self.hi), hi: flip_sign(self.lo) }
    }

    /// Exact negation: `[-hi, -lo]`.
    pub fn negated(self) -> (negated: Self)
        ensures
            negated == self.spec_negated(),
            val(negated.spec_lo()) == -val(self.spec_hi()),
            val(negated.spec_hi()) == -val(self.spec_lo()),
    {
        proof {
            use_type_invariant(&self);
        }
        Self { lo: negate(self.hi), hi: negate(self.lo) }
    }
}

impl core::ops::Neg for Interval {
    type Output = Self;

    /// Negation is exact: `[-hi, -lo]`.
    fn neg(self) -> (negated: Self)
        ensures
            negated == self.spec_negated(),
            val(negated.spec_lo()) == -val(self.spec_hi()),
            val(negated.spec_hi()) == -val(self.spec_lo()),
    {
        self.negated()
    }
}

impl vstd::std_specs::ops::NegSpecImpl for Interval {
    open spec fn obeys_neg_spec() -> bool {
        true
    }

    open spec fn neg_req(self) -> bool {
        true
    }

    open spec fn neg_spec(self) -> Self {
        self.spec_negated()
    }
}

impl PartialEq for Interval {
    fn eq(&self, other: &Self) -> (equal: bool) {
        proof {
            use_type_invariant(self);
            use_type_invariant(other);
        }
        crate::ieee::value_eq(self.lo, other.lo) && crate::ieee::value_eq(self.hi, other.hi)
    }
}

impl vstd::std_specs::cmp::PartialEqSpecImpl for Interval {
    open spec fn obeys_eq_spec() -> bool {
        true
    }

    open spec fn eq_spec(&self, other: &Self) -> bool {
        f64_units(self.spec_lo()) == f64_units(other.spec_lo()) && f64_units(self.spec_hi())
            == f64_units(other.spec_hi())
    }
}

/// The hull of two intervals contains every value of either, and lies inside
/// every interval that contains both.
pub proof fn hull_is_least_enclosure(a: Interval, b: Interval, hull: Interval, c: Interval, x: int)
    requires
        Interval::is_hull_of(hull, a, b),
    ensures
        a.holds(x) || b.holds(x) ==> hull.holds(x),
        c.holds(val(a.spec_lo())) && c.holds(val(a.spec_hi())) && c.holds(val(b.spec_lo()))
            && c.holds(val(b.spec_hi())) ==> c.holds(val(hull.spec_lo())) && c.holds(
            val(hull.spec_hi()),
        ),
{
}

/// Two intervals overlap exactly when some value lies in both; the larger of
/// the two lower bounds is such a value.
pub proof fn overlap_iff_common_value(a: Interval, b: Interval)
    requires
        a.is_valid(),
        b.is_valid(),
    ensures
        a.overlaps(b) <==> exists|x: int| a.holds(x) && b.holds(x),
        a.overlaps(b) ==> a.holds(max_val(val(a.spec_lo()), val(b.spec_lo()))) && b.holds(
            max_val(val(a.spec_lo()), val(b.spec_lo())),
        ),
        a.overlaps(b) == b.overlaps(a),
{
    if a.overlaps(b) {
        let x = max_val(val(a.spec_lo()), val(b.spec_lo()));
        assert(a.holds(x) && b.holds(x));
    }
}

/// Negation is exact and undoes itself: the negated interval holds exactly
/// the negated values.
pub proof fn negation_is_involution(i: Interval, x: int)
    ensures
        i.spec_negated().spec_negated() == i,
        i.spec_negated().holds(-x) == i.holds(x),
{
    lemma_flip_sign(i.spec_lo());
    lemma_flip_sign(i.spec_hi());
}

} // verus!
