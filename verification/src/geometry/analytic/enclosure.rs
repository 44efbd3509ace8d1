//! Budgeted interval arithmetic over exact rationals.
//!
//! Every operation admits each endpoint it produces through the rational cap
//! of a [`CertificationBudget`], so a chain of enclosures either stays within
//! the budget or stops with the budget failure. An interval is modelled by
//! its span, the pair of its endpoint values; each operation states the span
//! it returns exactly and, through the laws below, what that span encloses.
use crate::exact::ExactRational;
use crate::geometry::analytic::helpers::{
    budget_exhausted,
    check_rational_budget,
    lemma_bits_of_value,
    uncertified_because,
    RationalCap,
};
use crate::geometry::analytic::exact::f64_value;
use crate::geometry::analytic::trig::{max_real, min_real, RatInterval};
use crate::ieee::{f64_units, is_finite, is_finite_bits, is_positive};
use crate::geometry::error::GeometryError;
use crate::geometry::evaluation::CertificationBudget;
use vstd::prelude::*;

verus! {

/// The rational cap of a budget.
pub open spec fn budget_cap(budget: CertificationBudget) -> RationalCap {
    RationalCap::spec_new(budget)
}

/// The endpoint values `(lo, hi)` of an interval.
pub open spec fn span(i: RatInterval) -> (real, real) {
    (i.lo.value(), i.hi.value())
}

/// The real `x` lies in the span.
pub open spec fn span_holds(a: (real, real), x: real) -> bool {
    a.0 <= x && x <= a.1
}

/// The smallest of four reals.
pub open spec fn min4(a: real, b: real, c: real, d: real) -> real {
    min_real(min_real(a, b), min_real(c, d))
}

/// The largest of four reals.
pub open spec fn max4(a: real, b: real, c: real, d: real) -> real {
    max_real(max_real(a, b), max_real(c, d))
}

/// `[a + c, b + d]` for `[a, b] + [c, d]`.
pub open spec fn span_sum(a: (real, real), b: (real, real)) -> (real, real) {
    (a.0 + b.0, a.1 + b.1)
}

/// `[a - d, b - c]` for `[a, b] - [c, d]`.
pub open spec fn span_difference(a: (real, real), b: (real, real)) -> (real, real) {
    (a.0 - b.1, a.1 - b.0)
}

/// `[-b, -a]` for `-[a, b]`.
pub open spec fn span_negation(a: (real, real)) -> (real, real) {
    (-a.1, -a.0)
}

/// `[a, b]` scaled by `s`, the endpoints exchanged when `s` is negative.
pub open spec fn span_scaled(a: (real, real), s: real) -> (real, real) {
    if s < 0 as real {
        (a.1 * s, a.0 * s)
    } else {
        (a.0 * s, a.1 * s)
    }
}

/// The smallest and largest of the four endpoint products.
pub open spec fn span_product(a: (real, real), b: (real, real)) -> (real, real) {
    (
        min4(a.0 * b.0, a.0 * b.1, a.1 * b.0, a.1 * b.1),
        max4(a.0 * b.0, a.0 * b.1, a.1 * b.0, a.1 * b.1),
    )
}

/// The smallest and largest of the four endpoint quotients.
pub open spec fn span_quotient(a: (real, real), b: (real, real)) -> (real, real) {
    (
        min4(a.0 / b.0, a.0 / b.1, a.1 / b.0, a.1 / b.1),
        max4(a.0 / b.0, a.0 / b.1, a.1 / b.0, a.1 / b.1),
    )
}

/// The square of `[a, b]`: the larger endpoint square above, and below
/// zero when the interval holds zero, else the smaller endpoint square.
pub open spec fn span_square(a: (real, real)) -> (real, real) {
    (
        if span_holds(a, 0 as real) {
            0 as real
        } else {
            min_real(a.0 * a.0, a.1 * a.1)
        },
        max_real(a.0 * a.0, a.1 * a.1),
    )
}

/// The least span covering the endpoints of both.
pub open spec fn span_hull(a: (real, real), b: (real, real)) -> (real, real) {
    (min_real(a.0, b.0), max_real(a.1, b.1))
}

impl RationalCap {
    /// Both endpoint sums fit.
    pub open spec fn span_sum_ok(self, a: (real, real), b: (real, real)) -> bool {
        self.sum_ok(a.0, b.0) && self.sum_ok(a.1, b.1)
    }

    /// Both endpoint differences fit.
    pub open spec fn span_difference_ok(self, a: (real, real), b: (real, real)) -> bool {
        self.difference_ok(a.0, b.1) && self.difference_ok(a.1, b.0)
    }

    /// Both endpoints fit, so that they can be negated.
    pub open spec fn span_negation_ok(self, a: (real, real)) -> bool {
        self.holds_value(a.1) && self.holds_value(a.0)
    }

    /// Both endpoint products with the scalar fit.
    pub open spec fn span_scaled_ok(self, a: (real, real), s: real) -> bool {
        self.product_ok(a.0, s) && self.product_ok(a.1, s)
    }

    /// All four endpoint products fit.
    pub open spec fn span_product_ok(self, a: (real, real), b: (real, real)) -> bool {
        &&& self.product_ok(a.0, b.0)
        &&& self.product_ok(a.0, b.1)
        &&& self.product_ok(a.1, b.0)
        &&& self.product_ok(a.1, b.1)
    }

    /// The divisor span excludes zero and all four endpoint quotients fit.
    pub open spec fn span_quotient_ok(self, a: (real, real), b: (real, real)) -> bool {
        &&& !span_holds(b, 0 as real)
        &&& self.quotient_ok(a.0, b.0)
        &&& self.quotient_ok(a.0, b.1)
        &&& self.quotient_ok(a.1, b.0)
        &&& self.quotient_ok(a.1, b.1)
    }

    /// Both endpoint squares fit.
    pub open spec fn span_square_ok(self, a: (real, real)) -> bool {
        self.product_ok(a.0, a.0) && self.product_ok(a.1, a.1)
    }

    /// Both endpoints of the hull fit.
    pub open spec fn span_hull_ok(self, a: (real, real), b: (real, real)) -> bool {
        self.holds_value(min_real(a.0, b.0)) && self.holds_value(max_real(a.1, b.1))
    }
}

/// The failure reported when an interval divisor may be zero.
pub open spec fn zero_denominator(error: GeometryError) -> bool {
    uncertified_because(
        error,
        "certified interval division contains zero in the denominator"@,
    )
}

/// The smaller of two rationals.
fn smaller(a: ExactRational, b: ExactRational) -> (m: ExactRational)
    requires
        a.wf(),
        b.wf(),
    ensures
        m.wf(),
        m.value() == min_real(a.value(), b.value()),
{
    if a.le(&b) {
        a
    } else {
        b
    }
}

/// The larger of two rationals.
fn greater(a: ExactRational, b: ExactRational) -> (m: ExactRational)
    requires
        a.wf(),
        b.wf(),
    ensures
        m.wf(),
        m.value() == max_real(a.value(), b.value()),
{
    if a.le(&b) {
        b
    } else {
        a
    }
}

/// Rejects an interval whose endpoints exceed the certification bit budget.
pub fn check_interval_budget(budget: CertificationBudget, interval: &RatInterval) -> (admitted:
    Result<(), GeometryError>)
    ensures
        admitted is Ok <==> budget_cap(budget).fits(interval.lo) && budget_cap(budget).fits(
            interval.hi,
        ),
        admitted matches Err(e) ==> budget_exhausted(e),
{
    match check_rational_budget(budget, &interval.lo) {
        Ok(()) => check_rational_budget(budget, &interval.hi),
        Err(e) => Err(e),
    }
}

/// Admits a rational against the budget and hands it back.
pub fn checked_rat(budget: CertificationBudget, value: ExactRational) -> (admitted: Result<
    ExactRational,
    GeometryError,
>)
    ensures
        admitted is Ok <==> budget_cap(budget).fits(value),
        admitted matches Ok(r) ==> r == value,
        admitted matches Err(e) ==> budget_exhausted(e),
{
    RationalCap::new(budget).admitted(value)
}

/// The point interval `[value, value]`, admitted against the budget.
pub fn interval_point(budget: CertificationBudget, value: ExactRational) -> (interval: Result<
    RatInterval,
    GeometryError,
>)
    requires
        value.wf(),
    ensures
        interval is Ok <==> budget_cap(budget).holds_value(value.value()),
        interval matches Ok(i) ==> i.wf() && span(i) == (value.value(), value.value()),
        interval matches Err(e) ==> budget_exhausted(e),
{
    proof {
        lemma_bits_of_value(value);
    }
    match checked_rat(budget, value) {
        Ok(v) => Ok(RatInterval::point(v)),
        Err(e) => Err(e),
    }
}

/// Certified interval sum.
pub fn interval_add(budget: CertificationBudget, lhs: &RatInterval, rhs: &RatInterval) -> (sum:
    Result<RatInterval, GeometryError>)
    requires
        lhs.wf(),
        rhs.wf(),
    ensures
        sum is Ok <==> budget_cap(budget).span_sum_ok(span(*lhs), span(*rhs)),
        sum matches Ok(s) ==> s.wf() && span(s) == span_sum(span(*lhs), span(*rhs)),
        sum matches Err(e) ==> budget_exhausted(e),
{
    let cap = RationalCap::new(budget);
    let lo = match cap.add(&lhs.lo, &rhs.lo) {
        Ok(v) => v,
        Err(e) => return Err(e),
    };
    let hi = match cap.add(&lhs.hi, &rhs.hi) {
        Ok(v) => v,
        Err(e) => return Err(e),
    };
    Ok(RatInterval { lo, hi })
}

/// Certified interval difference.
pub fn interval_sub(budget: CertificationBudget, lhs: &RatInterval, rhs: &RatInterval) -> (difference: Result<RatInterval, GeometryError>)
    requires
        lhs.wf(),
        rhs.wf(),
    ensures
        difference is Ok <==> budget_cap(budget).span_difference_ok(span(*lhs), span(*rhs)),
        difference matches Ok(d) ==> d.wf() && span(d) == span_difference(span(*lhs), span(*rhs)),
        difference matches Err(e) ==> budget_exhausted(e),
{
    let cap = RationalCap::new(budget);
    let lo = match cap.sub(&lhs.lo, &rhs.hi) {
        Ok(v) => v,
        Err(e) => return Err(e),
    };
    let hi = match cap.sub(&lhs.hi, &rhs.lo) {
        Ok(v) => v,
        Err(e) => return Err(e),
    };
    Ok(RatInterval { lo, hi })
}

/// Certified interval product: the extremes of the four endpoint products.
pub fn interval_mul(budget: CertificationBudget, lhs: &RatInterval, rhs: &RatInterval) -> (product: Result<RatInterval, GeometryError>)
    requires
        lhs.wf(),
        rhs.wf(),
    ensures
        product is Ok <==> budget_cap(budget).span_product_ok(span(*lhs), span(*rhs)),
        product matches Ok(p) ==> p.wf() && span(p) == span_product(span(*lhs), span(*rhs)),
        product matches Err(e) ==> budget_exhausted(e),
{
    let cap = RationalCap::new(budget);
    let p0 = match cap.mul(&lhs.lo, &rhs.lo) {
        Ok(v) => v,
        Err(e) => return Err(e),
    };
    let p1 = match cap.mul(&lhs.lo, &rhs.hi) {
        Ok(v) => v,
        Err(e) => return Err(e),
    };
    let p2 = match cap.mul(&lhs.hi, &rhs.lo) {
        Ok(v) => v,
        Err(e) => return Err(e),
    };
    let p3 = match cap.mul(&lhs.hi, &rhs.hi) {
        Ok(v) => v,
        Err(e) => return Err(e),
    };
    let lo = smaller(smaller(p0.copy(), p1.copy()), smaller(p2.copy(), p3.copy()));
    let hi = greater(greater(p0, p1), greater(p2, p3));
    Ok(RatInterval { lo, hi })
}

/// Certified scaling by a rational; the endpoints swap for a negative scalar.
pub fn interval_scale(budget: CertificationBudget, interval: &RatInterval, scalar: &ExactRational)
    -> (scaled: Result<RatInterval, GeometryError>)
    requires
        interval.wf(),
        scalar.wf(),
    ensures
        scaled is Ok <==> budget_cap(budget).span_scaled_ok(span(*interval), scalar.value()),
        scaled matches Ok(s) ==> s.wf() && span(s) == span_scaled(span(*interval), scalar.value()),
        scaled matches Err(e) ==> budget_exhausted(e),
{
    let cap = RationalCap::new(budget);
    let zero = ExactRational::from_int(0);
    if !zero.le(scalar) {
        let lo = match cap.mul(&interval.hi, scalar) {
            Ok(v) => v,
            Err(e) => return Err(e),
        };
        let hi = match cap.mul(&interval.lo, scalar) {
            Ok(v) => v,
            Err(e) => return Err(e),
        };
        Ok(RatInterval { lo, hi })
    } else {
        let lo = match cap.mul(&interval.lo, scalar) {
            Ok(v) => v,
            Err(e) => return Err(e),
        };
        let hi = match cap.mul(&interval.hi, scalar) {
            Ok(v) => v,
            Err(e) => return Err(e),
        };
        Ok(RatInterval { lo, hi })
    }
}

/// Certified interval negation.
pub fn interval_neg(budget: CertificationBudget, interval: &RatInterval) -> (negated: Result<
    RatInterval,
    GeometryError,
>)
    requires
        interval.wf(),
    ensures
        negated is Ok <==> budget_cap(budget).span_negation_ok(span(*interval)),
        negated matches Ok(n) ==> n.wf() && span(n) == span_negation(span(*interval)),
        negated matches Err(e) ==> budget_exhausted(e),
{
    proof {
        lemma_bits_of_value(interval.lo);
        lemma_bits_of_value(interval.hi);
    }
    let cap = RationalCap::new(budget);
    let lo = match cap.neg(&interval.hi) {
        Ok(v) => v,
        Err(e) => return Err(e),
    };
    let hi = match cap.neg(&interval.lo) {
        Ok(v) => v,
        Err(e) => return Err(e),
    };
    Ok(RatInterval { lo, hi })
}

/// Certified interval quotient; a divisor interval that holds zero is
/// refused.
pub fn interval_div(budget: CertificationBudget, lhs: &RatInterval, rhs: &RatInterval) -> (quotient: Result<RatInterval, GeometryError>)
    requires
        lhs.wf(),
        rhs.wf(),
    ensures
        span_holds(span(*rhs), 0 as real) ==> (quotient matches Err(e) && zero_denominator(e)),
        quotient is Ok <==> budget_cap(budget).span_quotient_ok(span(*lhs), span(*rhs)),
        quotient matches Ok(q) ==> q.wf() && span(q) == span_quotient(span(*lhs), span(*rhs)),
        quotient matches Err(e) ==> zero_denominator(e) || budget_exhausted(e) || uncertified_because(
            e,
            "exact-rational division by zero"@,
        ),
        rhs.lo.value() != 0 as real && rhs.hi.value() != 0 as real ==> (quotient matches Err(e)
            ==> zero_denominator(e) || budget_exhausted(e)),
{
    if rhs.contains_zero() {
        return Err(
            GeometryError::Uncertified {
                reason: "certified interval division contains zero in the denominator".to_owned(),
            },
        );
    }
    let cap = RationalCap::new(budget);
    let q0 = match cap.div(&lhs.lo, &rhs.lo) {
        Ok(v) => v,
        Err(e) => return Err(e),
    };
    let q1 = match cap.div(&lhs.lo, &rhs.hi) {
        Ok(v) => v,
        Err(e) => return Err(e),
    };
    let q2 = match cap.div(&lhs.hi, &rhs.lo) {
        Ok(v) => v,
        Err(e) => return Err(e),
    };
    let q3 = match cap.div(&lhs.hi, &rhs.hi) {
        Ok(v) => v,
        Err(e) => return Err(e),
    };
    let lo = smaller(smaller(q0.copy(), q1.copy()), smaller(q2.copy(), q3.copy()));
    let hi = greater(greater(q0, q1), greater(q2, q3));
    Ok(RatInterval { lo, hi })
}

/// The hull of two intervals, admitted against the budget.
pub fn interval_hull(budget: CertificationBudget, lhs: &RatInterval, rhs: &RatInterval) -> (hull:
    Result<RatInterval, GeometryError>)
    requires
        lhs.wf(),
        rhs.wf(),
    ensures
        hull is Ok <==> budget_cap(budget).span_hull_ok(span(*lhs), span(*rhs)),
        hull matches Ok(h) ==> h.wf() && span(h) == span_hull(span(*lhs), span(*rhs)),
        hull matches Err(e) ==> budget_exhausted(e),
{
    let value = RatInterval {
        lo: smaller(lhs.lo.copy(), rhs.lo.copy()),
        hi: greater(lhs.hi.copy(), rhs.hi.copy()),
    };
    proof {
        lemma_bits_of_value(value.lo);
        lemma_bits_of_value(value.hi);
    }
    match check_interval_budget(budget, &value) {
        Ok(()) => Ok(value),
        Err(e) => Err(e),
    }
}

/// Certified interval square, which is non-negative.
pub fn interval_square(budget: CertificationBudget, interval: &RatInterval) -> (square: Result<
    RatInterval,
    GeometryError,
>)
    requires
        interval.wf(),
    ensures
        square is Ok <==> budget_cap(budget).span_square_ok(span(*interval)),
        square matches Ok(q) ==> q.wf() && span(q) == span_square(span(*interval)),
        square matches Err(e) ==> budget_exhausted(e),
{
    let cap = RationalCap::new(budget);
    let lo_square = match cap.mul(&interval.lo, &interval.lo) {
        Ok(v) => v,
        Err(e) => return Err(e),
    };
    let hi_square = match cap.mul(&interval.hi, &interval.hi) {
        Ok(v) => v,
        Err(e) => return Err(e),
    };
    let hi = greater(lo_square.copy(), hi_square.copy());
    let lo = if interval.contains_zero() {
        ExactRational::from_int(0)
    } else {
        smaller(lo_square, hi_square)
    };
    Ok(RatInterval { lo, hi })
}

/// All three coordinates are rationals in lowest terms.
pub open spec fn wf3(a: [ExactRational; 3]) -> bool {
    a[0].wf() && a[1].wf() && a[2].wf()
}

/// The coordinate values of an exact vector.
pub open spec fn values3(a: [ExactRational; 3]) -> (real, real, real) {
    (a[0].value(), a[1].value(), a[2].value())
}

/// The dot product of two real vectors.
#[verifier::opaque]
pub open spec fn dot_value(x: (real, real, real), y: (real, real, real)) -> real {
    x.0 * y.0 + x.1 * y.1 + x.2 * y.2
}

/// The cross product of two real vectors.
pub open spec fn cross_value(x: (real, real, real), y: (real, real, real)) -> (real, real, real) {
    (x.1 * y.2 - x.2 * y.1, x.2 * y.0 - x.0 * y.2, x.0 * y.1 - x.1 * y.0)
}

impl RationalCap {
    /// Every product and partial sum of a certified dot product fits.
    pub open spec fn dot_ok(self, x: (real, real, real), y: (real, real, real)) -> bool {
        &&& self.product_ok(x.0, y.0)
        &&& self.product_ok(x.1, y.1)
        &&& self.product_ok(x.2, y.2)
        &&& self.sum_ok(x.0 * y.0, x.1 * y.1)
        &&& self.sum_ok(x.0 * y.0 + x.1 * y.1, x.2 * y.2)
    }

    /// Both products of `a * d - b * c` and their difference fit.
    pub open spec fn minor_ok(self, a: real, d: real, b: real, c: real) -> bool {
        self.product_ok(a, d) && self.product_ok(b, c) && self.difference_ok(a * d, b * c)
    }

    /// Every product and difference of a certified cross product fits.
    pub open spec fn cross_ok(self, x: (real, real, real), y: (real, real, real)) -> bool {
        &&& self.minor_ok(x.1, y.2, x.2, y.1)
        &&& self.minor_ok(x.2, y.0, x.0, y.2)
        &&& self.minor_ok(x.0, y.1, x.1, y.0)
    }

    /// Every step of `base - scale * direction` fits.
    pub open spec fn sub_scaled_ok(self, base: (real, real, real), direction: (real, real, real), scale: real) -> bool {
        &&& self.product_ok(scale, direction.0) && self.difference_ok(base.0, scale * direction.0)
        &&& self.product_ok(scale, direction.1) && self.difference_ok(base.1, scale * direction.1)
        &&& self.product_ok(scale, direction.2) && self.difference_ok(base.2, scale * direction.2)
    }

    /// Every step of `base + scale * direction` fits.
    pub open spec fn add_scaled_ok(self, base: (real, real, real), direction: (real, real, real), scale: real) -> bool {
        &&& self.product_ok(scale, direction.0) && self.sum_ok(base.0, scale * direction.0)
        &&& self.product_ok(scale, direction.1) && self.sum_ok(base.1, scale * direction.1)
        &&& self.product_ok(scale, direction.2) && self.sum_ok(base.2, scale * direction.2)
    }
}

/// Certified exact dot product of two rational vectors.
pub fn raw_dot3(budget: CertificationBudget, lhs: &[ExactRational; 3], rhs: &[ExactRational; 3])
    -> (dot: Result<ExactRational, GeometryError>)
    requires
        wf3(*lhs),
        wf3(*rhs),
    ensures
        dot is Ok <==> budget_cap(budget).dot_ok(values3(*lhs), values3(*rhs)),
        dot matches Ok(d) ==> d.wf() && d.value() == dot_value(values3(*lhs), values3(*rhs)),
        dot matches Err(e) ==> budget_exhausted(e),
{
    proof {
        reveal(dot_value);
    }
    let cap = RationalCap::new(budget);
    let first = match cap.mul(&lhs[0], &rhs[0]) {
        Ok(v) => v,
        Err(e) => return Err(e),
    };
    let second = match cap.mul(&lhs[1], &rhs[1]) {
        Ok(v) => v,
        Err(e) => return Err(e),
    };
    let third = match cap.mul(&lhs[2], &rhs[2]) {
        Ok(v) => v,
        Err(e) => return Err(e),
    };
    let partial = match cap.add(&first, &second) {
        Ok(v) => v,
        Err(e) => return Err(e),
    };
    cap.add(&partial, &third)
}

/// Certified `a * d - b * c`.
pub fn minor(cap: RationalCap, a: &ExactRational, d: &ExactRational, b: &ExactRational, c: &ExactRational) -> (m: Result<ExactRational, GeometryError>)
    requires
        a.wf(),
        b.wf(),
        c.wf(),
        d.wf(),
    ensures
        m is Ok <==> cap.minor_ok(a.value(), d.value(), b.value(), c.value()),
        m matches Ok(v) ==> v.wf() && v.value() == a.value() * d.value() - b.value() * c.value(),
        m matches Err(e) ==> budget_exhausted(e),
{
    let left = match cap.mul(a, d) {
        Ok(v) => v,
        Err(e) => return Err(e),
    };
    let right = match cap.mul(b, c) {
        Ok(v) => v,
        Err(e) => return Err(e),
    };
    cap.sub(&left, &right)
}

/// Certified exact cross product of two rational vectors.
pub fn raw_cross3(budget: CertificationBudget, lhs: &[ExactRational; 3], rhs: &[ExactRational; 3])
    -> (cross: Result<[ExactRational; 3], GeometryError>)
    requires
        wf3(*lhs),
        wf3(*rhs),
    ensures
        cross is Ok <==> budget_cap(budget).cross_ok(values3(*lhs), values3(*rhs)),
        cross matches Ok(c) ==> wf3(c) && values3(c) == cross_value(values3(*lhs), values3(*rhs)),
        cross matches Err(e) ==> budget_exhausted(e),
{
    let cap = RationalCap::new(budget);
    let x = match minor(cap, &lhs[1], &rhs[2], &lhs[2], &rhs[1]) {
        Ok(v) => v,
        Err(e) => return Err(e),
    };
    let y = match minor(cap, &lhs[2], &rhs[0], &lhs[0], &rhs[2]) {
        Ok(v) => v,
        Err(e) => return Err(e),
    };
    let z = match minor(cap, &lhs[0], &rhs[1], &lhs[1], &rhs[0]) {
        Ok(v) => v,
        Err(e) => return Err(e),
    };
    Ok([x, y, z])
}

/// Certified `base - scale * direction`.
pub fn raw_sub_scaled3(
    budget: CertificationBudget,
    base: &[ExactRational; 3],
    direction: &[ExactRational; 3],
    scale: &ExactRational,
) -> (moved: Result<[ExactRational; 3], GeometryError>)
    requires
        wf3(*base),
        wf3(*direction),
        scale.wf(),
    ensures
        moved is Ok <==> budget_cap(budget).sub_scaled_ok(values3(*base), values3(*direction), scale.value()),
        moved matches Ok(m) ==> wf3(m) && values3(m) == (
            base[0].value() - scale.value() * direction[0].value(),
            base[1].value() - scale.value() * direction[1].value(),
            base[2].value() - scale.value() * direction[2].value(),
        ),
        moved matches Err(e) ==> budget_exhausted(e),
{
    let cap = RationalCap::new(budget);
    let step0 = match cap.mul(scale, &direction[0]) {
        Ok(v) => v,
        Err(e) => return Err(e),
    };
    let x = match cap.sub(&base[0], &step0) {
        Ok(v) => v,
        Err(e) => return Err(e),
    };
    let step1 = match cap.mul(scale, &direction[1]) {
        Ok(v) => v,
        Err(e) => return Err(e),
    };
    let y = match cap.sub(&base[1], &step1) {
        Ok(v) => v,
        Err(e) => return Err(e),
    };
    let step2 = match cap.mul(scale, &direction[2]) {
        Ok(v) => v,
        Err(e) => return Err(e),
    };
    let z = match cap.sub(&base[2], &step2) {
        Ok(v) => v,
        Err(e) => return Err(e),
    };
    Ok([x, y, z])
}

/// Certified `base + scale * direction`.
pub fn raw_add_scaled3(
    budget: CertificationBudget,
    base: &[ExactRational; 3],
    direction: &[ExactRational; 3],
    scale: &ExactRational,
) -> (moved: Result<[ExactRational; 3], GeometryError>)
    requires
        wf3(*base),
        wf3(*direction),
        scale.wf(),
    ensures
        moved is Ok <==> budget_cap(budget).add_scaled_ok(values3(*base), values3(*direction), scale.value()),
        moved matches Ok(m) ==> wf3(m) && values3(m) == (
            base[0].value() + scale.value() * direction[0].value(),
            base[1].value() + scale.value() * direction[1].value(),
            base[2].value() + scale.value() * direction[2].value(),
        ),
        moved matches Err(e) ==> budget_exhausted(e),
{
    let cap = RationalCap::new(budget);
    let step0 = match cap.mul(scale, &direction[0]) {
        Ok(v) => v,
        Err(e) => return Err(e),
    };
    let x = match cap.add(&base[0], &step0) {
        Ok(v) => v,
        Err(e) => return Err(e),
    };
    let step1 = match cap.mul(scale, &direction[1]) {
        Ok(v) => v,
        Err(e) => return Err(e),
    };
    let y = match cap.add(&base[1], &step1) {
        Ok(v) => v,
        Err(e) => return Err(e),
    };
    let step2 = match cap.mul(scale, &direction[2]) {
        Ok(v) => v,
        Err(e) => return Err(e),
    };
    let z = match cap.add(&base[2], &step2) {
        Ok(v) => v,
        Err(e) => return Err(e),
    };
    Ok([x, y, z])
}

/// Span of `a * d - b * c` from interval products.
pub open spec fn span_minor(a: (real, real), d: (real, real), b: (real, real), c: (real, real)) -> (real, real) {
    span_difference(span_product(a, d), span_product(b, c))
}

/// Span of the squared offset `(q - p)^2` of a coordinate `q` from a span.
pub open spec fn span_offset_square(q: real, p: (real, real)) -> (real, real) {
    span_square(span_difference((q, q), p))
}

/// Span of `cos * x + sin * y` from interval products.
pub open spec fn span_rotated(c: (real, real), x: (real, real), s: (real, real), y: (real, real)) -> (real, real) {
    span_sum(span_product(c, x), span_product(s, y))
}

impl RationalCap {
    /// Every step of an interval `a * d - b * c` fits.
    pub open spec fn span_minor_ok(self, a: (real, real), d: (real, real), b: (real, real), c: (real, real)) -> bool {
        &&& self.span_product_ok(a, d)
        &&& self.span_product_ok(b, c)
        &&& self.span_difference_ok(span_product(a, d), span_product(b, c))
    }

    /// Every step of a squared coordinate offset fits.
    pub open spec fn offset_square_ok(self, q: real, p: (real, real)) -> bool {
        &&& self.holds_value(q)
        &&& self.span_difference_ok((q, q), p)
        &&& self.span_square_ok(span_difference((q, q), p))
    }

    /// Every step of `cos * x + sin * y` fits.
    pub open spec fn span_rotated_ok(self, c: (real, real), x: (real, real), s: (real, real), y: (real, real)) -> bool {
        &&& self.span_product_ok(c, x)
        &&& self.span_product_ok(s, y)
        &&& self.span_sum_ok(span_product(c, x), span_product(s, y))
    }
}

/// Certified `a * d - b * c` over intervals.
fn interval_minor(
    budget: CertificationBudget,
    a: &RatInterval,
    d: &RatInterval,
    b: &RatInterval,
    c: &RatInterval,
) -> (m: Result<RatInterval, GeometryError>)
    requires
        a.wf(),
        b.wf(),
        c.wf(),
        d.wf(),
    ensures
        m is Ok <==> budget_cap(budget).span_minor_ok(span(*a), span(*d), span(*b), span(*c)),
        m matches Ok(v) ==> v.wf() && span(v) == span_minor(span(*a), span(*d), span(*b), span(*c)),
        m matches Err(e) ==> budget_exhausted(e),
{
    let left = match interval_mul(budget, a, d) {
        Ok(v) => v,
        Err(e) => return Err(e),
    };
    let right = match interval_mul(budget, b, c) {
        Ok(v) => v,
        Err(e) => return Err(e),
    };
    interval_sub(budget, &left, &right)
}

/// Certified cross product of two interval vectors.
#[verifier::spinoff_prover]
#[verifier::rlimit(30)]
pub fn interval_cross3(budget: CertificationBudget, lhs: &[RatInterval; 3], rhs: &[RatInterval; 3]) -> (cross: Result<[RatInterval; 3], GeometryError>)
    requires
        lhs[0].wf() && lhs[1].wf() && lhs[2].wf(),
        rhs[0].wf() && rhs[1].wf() && rhs[2].wf(),
    ensures
        cross is Ok <==> {
            let c = budget_cap(budget);
            &&& c.span_minor_ok(span(lhs[1]), span(rhs[2]), span(lhs[2]), span(rhs[1]))
            &&& c.span_minor_ok(span(lhs[2]), span(rhs[0]), span(lhs[0]), span(rhs[2]))
            &&& c.span_minor_ok(span(lhs[0]), span(rhs[1]), span(lhs[1]), span(rhs[0]))
        },
        cross matches Ok(v) ==> {
            &&& v[0].wf() && v[1].wf() && v[2].wf()
            &&& span(v[0]) == span_minor(span(lhs[1]), span(rhs[2]), span(lhs[2]), span(rhs[1]))
            &&& span(v[1]) == span_minor(span(lhs[2]), span(rhs[0]), span(lhs[0]), span(rhs[2]))
            &&& span(v[2]) == span_minor(span(lhs[0]), span(rhs[1]), span(lhs[1]), span(rhs[0]))
        },
        cross matches Err(e) ==> budget_exhausted(e),
{
    let x = match interval_minor(budget, &lhs[1], &rhs[2], &lhs[2], &rhs[1]) {
        Ok(v) => v,
        Err(e) => return Err(e),
    };
    let y = match interval_minor(budget, &lhs[2], &rhs[0], &lhs[0], &rhs[2]) {
        Ok(v) => v,
        Err(e) => return Err(e),
    };
    let z = match interval_minor(budget, &lhs[0], &rhs[1], &lhs[1], &rhs[0]) {
        Ok(v) => v,
        Err(e) => return Err(e),
    };
    Ok([x, y, z])
}

/// Certified `(q - p)^2` for an exact coordinate and an interval.
fn offset_square(budget: CertificationBudget, q: &ExactRational, p: &RatInterval) -> (square: Result<RatInterval, GeometryError>)
    requires
        q.wf(),
        p.wf(),
    ensures
        square is Ok <==> budget_cap(budget).offset_square_ok(q.value(), span(*p)),
        square matches Ok(v) ==> v.wf() && span(v) == span_offset_square(q.value(), span(*p)),
        square matches Err(e) ==> budget_exhausted(e),
{
    let point = match interval_point(budget, q.copy()) {
        Ok(v) => v,
        Err(e) => return Err(e),
    };
    let offset = match interval_sub(budget, &point, p) {
        Ok(v) => v,
        Err(e) => return Err(e),
    };
    interval_square(budget, &offset)
}

/// Certified squared distance from an exact planar query to an interval
/// point.
pub fn squared_distance2(budget: CertificationBudget, query: &[ExactRational; 2], point: &[RatInterval; 2]) -> (distance: Result<RatInterval, GeometryError>)
    requires
        query[0].wf() && query[1].wf(),
        point[0].wf() && point[1].wf(),
    ensures
        distance is Ok <==> {
            let c = budget_cap(budget);
            &&& c.offset_square_ok(query[0].value(), span(point[0]))
            &&& c.offset_square_ok(query[1].value(), span(point[1]))
            &&& c.span_sum_ok(
                span_offset_square(query[0].value(), span(point[0])),
                span_offset_square(query[1].value(), span(point[1])),
            )
        },
        distance matches Ok(d) ==> d.wf() && span(d) == span_sum(
            span_offset_square(query[0].value(), span(point[0])),
            span_offset_square(query[1].value(), span(point[1])),
        ),
        distance matches Err(e) ==> budget_exhausted(e),
{
    let dx = match offset_square(budget, &query[0], &point[0]) {
        Ok(v) => v,
        Err(e) => return Err(e),
    };
    let dy = match offset_square(budget, &query[1], &point[1]) {
        Ok(v) => v,
        Err(e) => return Err(e),
    };
    interval_add(budget, &dx, &dy)
}

/// Certified squared distance from an exact spatial query to an interval
/// point.
#[verifier::spinoff_prover]
#[verifier::rlimit(30)]
pub fn squared_distance3(budget: CertificationBudget, query: &[ExactRational; 3], point: &[RatInterval; 3]) -> (distance: Result<RatInterval, GeometryError>)
    requires
        wf3(*query),
        point[0].wf() && point[1].wf() && point[2].wf(),
    ensures
        distance is Ok <==> {
            let c = budget_cap(budget);
            let (s0, s1, s2) = (
                span_offset_square(query[0].value(), span(point[0])),
                span_offset_square(query[1].value(), span(point[1])),
                span_offset_square(query[2].value(), span(point[2])),
            );
            &&& c.offset_square_ok(query[0].value(), span(point[0]))
            &&& c.offset_square_ok(query[1].value(), span(point[1]))
            &&& c.offset_square_ok(query[2].value(), span(point[2]))
            &&& c.span_sum_ok(s0, s1)
            &&& c.span_sum_ok(span_sum(s0, s1), s2)
        },
        distance matches Ok(d) ==> d.wf() && span(d) == span_sum(
            span_sum(
                span_offset_square(query[0].value(), span(point[0])),
                span_offset_square(query[1].value(), span(point[1])),
            ),
            span_offset_square(query[2].value(), span(point[2])),
        ),
        distance matches Err(e) ==> budget_exhausted(e),
{
    let dx = match offset_square(budget, &query[0], &point[0]) {
        Ok(v) => v,
        Err(e) => return Err(e),
    };
    let dy = match offset_square(budget, &query[1], &point[1]) {
        Ok(v) => v,
        Err(e) => return Err(e),
    };
    let dz = match offset_square(budget, &query[2], &point[2]) {
        Ok(v) => v,
        Err(e) => return Err(e),
    };
    let xy = match interval_add(budget, &dx, &dy) {
        Ok(v) => v,
        Err(e) => return Err(e),
    };
    interval_add(budget, &xy, &dz)
}

/// Certified `cos * x + sin * y` over intervals.
fn interval_rotated(
    budget: CertificationBudget,
    c: &RatInterval,
    x: &RatInterval,
    s: &RatInterval,
    y: &RatInterval,
) -> (rotated: Result<RatInterval, GeometryError>)
    requires
        c.wf(),
        x.wf(),
        s.wf(),
        y.wf(),
    ensures
        rotated is Ok <==> budget_cap(budget).span_rotated_ok(span(*c), span(*x), span(*s), span(*y)),
        rotated matches Ok(v) ==> v.wf() && span(v) == span_rotated(span(*c), span(*x), span(*s), span(*y)),
        rotated matches Err(e) ==> budget_exhausted(e),
{
    let first = match interval_mul(budget, c, x) {
        Ok(v) => v,
        Err(e) => return Err(e),
    };
    let second = match interval_mul(budget, s, y) {
        Ok(v) => v,
        Err(e) => return Err(e),
    };
    interval_add(budget, &first, &second)
}

impl RationalCap {
    /// Every step of a circle component evaluation fits.
    pub open spec fn circle_components_ok(self, base: real, x: (real, real), y: (real, real), radius_cos: (real, real), radius_sin: (real, real)) -> bool {
        let offset = span_rotated(radius_cos, x, radius_sin, y);
        &&& self.span_rotated_ok(radius_cos, x, radius_sin, y)
        &&& self.holds_value(base)
        &&& self.span_sum_ok((base, base), offset)
        &&& self.span_minor_ok(radius_cos, y, radius_sin, x)
        &&& self.span_negation_ok(offset)
    }
}

/// Certified position, first and second derivative of one coordinate of
/// `base + r cos(t) x + r sin(t) y`, given enclosures of the frame
/// coordinates `x`, `y` and of `r cos(t)`, `r sin(t)`.
#[verifier::spinoff_prover]
#[verifier::rlimit(30)]
pub fn circle_component_intervals(
    budget: CertificationBudget,
    base: &ExactRational,
    x: &RatInterval,
    y: &RatInterval,
    radius_cos: &RatInterval,
    radius_sin: &RatInterval,
) -> (components: Result<(RatInterval, RatInterval, RatInterval), GeometryError>)
    requires
        base.wf(),
        x.wf(),
        y.wf(),
        radius_cos.wf(),
        radius_sin.wf(),
    ensures
        components is Ok <==> budget_cap(budget).circle_components_ok(base.value(), span(*x), span(*y), span(*radius_cos), span(*radius_sin)),
        components matches Ok((position, first, second)) ==> {
            let offset = span_rotated(span(*radius_cos), span(*x), span(*radius_sin), span(*y));
            &&& position.wf() && first.wf() && second.wf()
            &&& span(position) == span_sum((base.value(), base.value()), offset)
            &&& span(first) == span_minor(span(*radius_cos), span(*y), span(*radius_sin), span(*x))
            &&& span(second) == span_negation(offset)
        },
        components matches Err(e) ==> budget_exhausted(e),
{
    let offset = match interval_rotated(budget, radius_cos, x, radius_sin, y) {
        Ok(v) => v,
        Err(e) => return Err(e),
    };
    let start = match interval_point(budget, base.copy()) {
        Ok(v) => v,
        Err(e) => return Err(e),
    };
    let position = match interval_add(budget, &start, &offset) {
        Ok(v) => v,
        Err(e) => return Err(e),
    };
    let first = match interval_minor(budget, radius_cos, y, radius_sin, x) {
        Ok(v) => v,
        Err(e) => return Err(e),
    };
    let second = match interval_neg(budget, &offset) {
        Ok(v) => v,
        Err(e) => return Err(e),
    };
    Ok((position, first, second))
}

/// The spans of a cone's position and derivatives at one coordinate, in the
/// order position, `d/du`, `d/dv`, `d2/du2`, `d2/dudv`.
pub open spec fn cone_spans(
    apex: real,
    z: (real, real),
    x: (real, real),
    y: (real, real),
    v: real,
    tangent: (real, real),
    sin_u: (real, real),
    cos_u: (real, real),
) -> ((real, real), (real, real), (real, real), (real, real), (real, real)) {
    let direction = span_rotated(cos_u, x, sin_u, y);
    let perpendicular = span_minor(cos_u, y, sin_u, x);
    let v_tangent = span_scaled(tangent, v);
    let radial_offset = span_product(v_tangent, direction);
    (
        span_sum(span_sum((apex, apex), span_scaled(z, v)), radial_offset),
        span_product(v_tangent, perpendicular),
        span_sum(z, span_product(tangent, direction)),
        span_negation(radial_offset),
        span_product(tangent, perpendicular),
    )
}

impl RationalCap {
    /// Every step of a cone component evaluation fits.
    pub open spec fn cone_components_ok(
        self,
        apex: real,
        z: (real, real),
        x: (real, real),
        y: (real, real),
        v: real,
        tangent: (real, real),
        sin_u: (real, real),
        cos_u: (real, real),
    ) -> bool {
        let direction = span_rotated(cos_u, x, sin_u, y);
        let perpendicular = span_minor(cos_u, y, sin_u, x);
        let v_tangent = span_scaled(tangent, v);
        let radial_offset = span_product(v_tangent, direction);
        &&& self.span_rotated_ok(cos_u, x, sin_u, y)
        &&& self.span_minor_ok(cos_u, y, sin_u, x)
        &&& self.span_scaled_ok(tangent, v)
        &&& self.span_product_ok(v_tangent, direction)
        &&& self.holds_value(apex)
        &&& self.span_scaled_ok(z, v)
        &&& self.span_sum_ok((apex, apex), span_scaled(z, v))
        &&& self.span_sum_ok(span_sum((apex, apex), span_scaled(z, v)), radial_offset)
        &&& self.span_product_ok(v_tangent, perpendicular)
        &&& self.span_product_ok(tangent, direction)
        &&& self.span_sum_ok(z, span_product(tangent, direction))
        &&& self.span_negation_ok(radial_offset)
        &&& self.span_product_ok(tangent, perpendicular)
    }
}

/// Certified position and derivatives of one coordinate of the cone
/// `apex + v z + v tan(a) (cos(u) x + sin(u) y)`, given enclosures of the
/// frame coordinates, of `tan(a)` and of `sin(u)`, `cos(u)`.
#[verifier::spinoff_prover]
#[verifier::rlimit(30)]
pub fn cone_component_intervals(
    budget: CertificationBudget,
    apex: &ExactRational,
    z: &RatInterval,
    x: &RatInterval,
    y: &RatInterval,
    v: &ExactRational,
    tangent: &RatInterval,
    sin_u: &RatInterval,
    cos_u: &RatInterval,
) -> (components: Result<(RatInterval, RatInterval, RatInterval, RatInterval, RatInterval), GeometryError>)
    requires
        apex.wf(),
        z.wf(),
        x.wf(),
        y.wf(),
        v.wf(),
        tangent.wf(),
        sin_u.wf(),
        cos_u.wf(),
    ensures
        components is Ok <==> budget_cap(budget).cone_components_ok(
            apex.value(),
            span(*z),
            span(*x),
            span(*y),
            v.value(),
            span(*tangent),
            span(*sin_u),
            span(*cos_u),
        ),
        components matches Ok((position, du, dv, duu, duv)) ==> {
            &&& position.wf() && du.wf() && dv.wf() && duu.wf() && duv.wf()
            &&& (span(position), span(du), span(dv), span(duu), span(duv)) == cone_spans(
                apex.value(),
                span(*z),
                span(*x),
                span(*y),
                v.value(),
                span(*tangent),
                span(*sin_u),
                span(*cos_u),
            )
        },
        components matches Err(e) ==> budget_exhausted(e),
{
    let direction = match interval_rotated(budget, cos_u, x, sin_u, y) {
        Ok(w) => w,
        Err(e) => return Err(e),
    };
    let perpendicular = match interval_minor(budget, cos_u, y, sin_u, x) {
        Ok(w) => w,
        Err(e) => return Err(e),
    };
    let v_tangent = match interval_scale(budget, tangent, v) {
        Ok(w) => w,
        Err(e) => return Err(e),
    };
    let radial_offset = match interval_mul(budget, &v_tangent, &direction) {
        Ok(w) => w,
        Err(e) => return Err(e),
    };
    let start = match interval_point(budget, apex.copy()) {
        Ok(w) => w,
        Err(e) => return Err(e),
    };
    let along = match interval_scale(budget, z, v) {
        Ok(w) => w,
        Err(e) => return Err(e),
    };
    let axial = match interval_add(budget, &start, &along) {
        Ok(w) => w,
        Err(e) => return Err(e),
    };
    let position = match interval_add(budget, &axial, &radial_offset) {
        Ok(w) => w,
        Err(e) => return Err(e),
    };
    let du = match interval_mul(budget, &v_tangent, &perpendicular) {
        Ok(w) => w,
        Err(e) => return Err(e),
    };
    let slope = match interval_mul(budget, tangent, &direction) {
        Ok(w) => w,
        Err(e) => return Err(e),
    };
    let dv = match interval_add(budget, z, &slope) {
        Ok(w) => w,
        Err(e) => return Err(e),
    };
    let duu = match interval_neg(budget, &radial_offset) {
        Ok(w) => w,
        Err(e) => return Err(e),
    };
    let duv = match interval_mul(budget, tangent, &perpendicular) {
        Ok(w) => w,
        Err(e) => return Err(e),
    };
    Ok((position, du, dv, duu, duv))
}

/// The span of `numer / m` for `m` bracketed by `[mag_down, mag_up]`.
pub open spec fn span_ratio(numer: real, mag_down: real, mag_up: real) -> (real, real) {
    if numer == 0 as real {
        (0 as real, 0 as real)
    } else if numer > 0 as real {
        (numer / mag_up, numer / mag_down)
    } else {
        (numer / mag_down, numer / mag_up)
    }
}

impl RationalCap {
    /// Both bracket quotients of `numer` fit (or, for zero, the zero point).
    pub open spec fn ratio_ok(self, numer: real, mag_down: real, mag_up: real) -> bool {
        if numer == 0 as real {
            self.holds_value(0 as real)
        } else {
            self.quotient_ok(numer, mag_up) && self.quotient_ok(numer, mag_down)
        }
    }
}

/// Certified enclosure of `numer / m` for a magnitude `m` known only by a
/// bracket `0 < mag_down <= m <= mag_up`: the extremes sit at the bracket
/// ends, since `numer / m` is monotone in `m`.
pub fn ratio_by_bracket(
    budget: CertificationBudget,
    numer: &ExactRational,
    mag_down: &ExactRational,
    mag_up: &ExactRational,
) -> (ratio: Result<RatInterval, GeometryError>)
    requires
        numer.wf(),
        mag_down.wf(),
        mag_up.wf(),
    ensures
        ratio is Ok <==> budget_cap(budget).ratio_ok(numer.value(), mag_down.value(), mag_up.value()),
        ratio matches Ok(r) ==> r.wf() && span(r) == span_ratio(numer.value(), mag_down.value(), mag_up.value()),
        ratio matches Err(e) ==> budget_exhausted(e) || uncertified_because(e, "exact-rational division by zero"@),
{
    let cap = RationalCap::new(budget);
    let zero = ExactRational::from_int(0);
    if numer.le(&zero) && zero.le(numer) {
        interval_point(budget, zero)
    } else if zero.le(numer) {
        let lo = match cap.div(numer, mag_up) {
            Ok(w) => w,
            Err(e) => return Err(e),
        };
        let hi = match cap.div(numer, mag_down) {
            Ok(w) => w,
            Err(e) => return Err(e),
        };
        Ok(RatInterval { lo, hi })
    } else {
        let lo = match cap.div(numer, mag_down) {
            Ok(w) => w,
            Err(e) => return Err(e),
        };
        let hi = match cap.div(numer, mag_up) {
            Ok(w) => w,
            Err(e) => return Err(e),
        };
        Ok(RatInterval { lo, hi })
    }
}

/// The span of the nearest-point parameter on one cone ray,
/// `(r tan(a) ± h) / (1 + tan(a)^2)`, with `+` on the positive nappe.
pub open spec fn span_ray_parameter(
    radial_magnitude: (real, real),
    axial_coordinate: (real, real),
    tangent: (real, real),
    positive_nappe: bool,
) -> (real, real) {
    let axial_term = if positive_nappe {
        axial_coordinate
    } else {
        span_negation(axial_coordinate)
    };
    span_quotient(
        span_sum(span_product(radial_magnitude, tangent), axial_term),
        span_sum((1 as real, 1 as real), span_product(tangent, tangent)),
    )
}

impl RationalCap {
    /// Every step of a certified ray parameter fits.
    pub open spec fn ray_parameter_ok(
        self,
        radial_magnitude: (real, real),
        axial_coordinate: (real, real),
        tangent: (real, real),
        positive_nappe: bool,
    ) -> bool {
        let axial_term = if positive_nappe {
            axial_coordinate
        } else {
            span_negation(axial_coordinate)
        };
        let numerator = span_sum(span_product(radial_magnitude, tangent), axial_term);
        let denominator = span_sum((1 as real, 1 as real), span_product(tangent, tangent));
        &&& self.span_product_ok(radial_magnitude, tangent)
        &&& (positive_nappe || self.span_negation_ok(axial_coordinate))
        &&& self.span_sum_ok(span_product(radial_magnitude, tangent), axial_term)
        &&& self.span_product_ok(tangent, tangent)
        &&& self.holds_value(1 as real)
        &&& self.span_sum_ok((1 as real, 1 as real), span_product(tangent, tangent))
        &&& self.span_quotient_ok(numerator, denominator)
    }
}

/// Certified nearest-point parameter along one generator ray of a cone.
#[verifier::spinoff_prover]
#[verifier::rlimit(30)]
pub fn ray_parameter(
    budget: CertificationBudget,
    radial_magnitude: &RatInterval,
    axial_coordinate: &RatInterval,
    tangent: &RatInterval,
    positive_nappe: bool,
) -> (parameter: Result<RatInterval, GeometryError>)
    requires
        radial_magnitude.wf(),
        axial_coordinate.wf(),
        tangent.wf(),
    ensures
        parameter is Ok <==> budget_cap(budget).ray_parameter_ok(
            span(*radial_magnitude),
            span(*axial_coordinate),
            span(*tangent),
            positive_nappe,
        ),
        parameter matches Ok(p) ==> p.wf() && span(p) == span_ray_parameter(
            span(*radial_magnitude),
            span(*axial_coordinate),
            span(*tangent),
            positive_nappe,
        ),
        parameter matches Err(e) ==> budget_exhausted(e) || zero_denominator(e) || uncertified_because(
            e,
            "exact-rational division by zero"@,
        ),
{
    let radial_term = match interval_mul(budget, radial_magnitude, tangent) {
        Ok(w) => w,
        Err(e) => return Err(e),
    };
    let axial_term = if positive_nappe {
        axial_coordinate.copy()
    } else {
        match interval_neg(budget, axial_coordinate) {
            Ok(w) => w,
            Err(e) => return Err(e),
        }
    };
    let numerator = match interval_add(budget, &radial_term, &axial_term) {
        Ok(w) => w,
        Err(e) => return Err(e),
    };
    let tangent_squared = match interval_mul(budget, tangent, tangent) {
        Ok(w) => w,
        Err(e) => return Err(e),
    };
    let one = match interval_point(budget, ExactRational::from_int(1)) {
        Ok(w) => w,
        Err(e) => return Err(e),
    };
    let denominator = match interval_add(budget, &one, &tangent_squared) {
        Ok(w) => w,
        Err(e) => return Err(e),
    };
    interval_div(budget, &numerator, &denominator)
}

/// Whether a certified ray parameter is admissible: `Ok(true)` when it is
/// provably positive, `Ok(false)` when provably not positive, and an
/// uncertified failure when the interval straddles zero.
pub fn admissible_ray_parameter(parameter: &RatInterval) -> (admissible: Result<bool, GeometryError>)
    requires
        parameter.wf(),
    ensures
        parameter.lo.value() > 0 as real ==> admissible == Ok::<bool, GeometryError>(true),
        parameter.lo.value() <= 0 as real && parameter.hi.value() <= 0 as real ==> admissible
            == Ok::<bool, GeometryError>(false),
        parameter.lo.value() <= 0 as real && parameter.hi.value() > 0 as real ==> (admissible matches Err(e)
            && uncertified_because(
            e,
            "cone ray admissibility cannot be proved from its certified parameter interval"@,
        )),
{
    let zero = ExactRational::from_int(0);
    if !parameter.lo.le(&zero) {
        Ok(true)
    } else if parameter.hi.le(&zero) {
        Ok(false)
    } else {
        Err(
            GeometryError::Uncertified {
                reason: "cone ray admissibility cannot be proved from its certified parameter interval".to_owned(),
            },
        )
    }
}

/// Every value of `lhs` is certainly below every value of `rhs`.
pub fn interval_strictly_less(lhs: &RatInterval, rhs: &RatInterval) -> (less: bool)
    requires
        lhs.wf(),
        rhs.wf(),
    ensures
        less == (lhs.hi.value() < rhs.lo.value()),
{
    !rhs.lo.le(&lhs.hi)
}

/// The sum of the squares of the values of a sequence of rationals.
pub open spec fn squares_sum(s: Seq<ExactRational>) -> real
    decreases s.len(),
{
    if s.len() == 0 {
        0 as real
    } else {
        squares_sum(s.drop_last()) + s.last().value() * s.last().value()
    }
}

impl RationalCap {
    /// Every admission, square and partial sum of a squared norm fits.
    pub open spec fn squares_ok(self, s: Seq<ExactRational>) -> bool
        decreases s.len(),
    {
        if s.len() == 0 {
            true
        } else {
            &&& self.squares_ok(s.drop_last())
            &&& self.holds_value(s.last().value())
            &&& self.product_ok(s.last().value(), s.last().value())
            &&& self.sum_ok(squares_sum(s.drop_last()), s.last().value() * s.last().value())
        }
    }
}

/// A squared norm that fits also fits on every prefix.
proof fn lemma_squares_ok_prefix(cap: RationalCap, s: Seq<ExactRational>, k: int)
    requires
        0 <= k <= s.len(),
        cap.squares_ok(s),
    ensures
        cap.squares_ok(s.subrange(0, k)),
    decreases s.len(),
{
    if k < s.len() {
        assert(s.drop_last() =~= s.subrange(0, s.len() - 1));
        lemma_squares_ok_prefix(cap, s.drop_last(), k);
        assert(s.drop_last().subrange(0, k) =~= s.subrange(0, k));
    } else {
        assert(s.subrange(0, k) =~= s);
    }
}

/// The certified squared norm of a vector of rationals, refused with
/// `zero_reason` when it is not positive.
pub fn norm_squared(budget: CertificationBudget, components: &[ExactRational], zero_reason: &str) -> (norm: Result<ExactRational, GeometryError>)
    requires
        forall|j: int| 0 <= j < components@.len() ==> (#[trigger] components@[j]).wf(),
    ensures
        norm is Ok <==> budget_cap(budget).squares_ok(components@) && squares_sum(components@) > 0 as real,
        norm matches Ok(n) ==> n.wf() && n.value() == squares_sum(components@),
        norm matches Err(e) ==> budget_exhausted(e) || (budget_cap(budget).squares_ok(components@)
            && squares_sum(components@) <= 0 as real && uncertified_because(e, zero_reason@)),
{
    let cap = RationalCap::new(budget);
    let mut norm_sq = ExactRational::from_int(0);
    let mut i: usize = 0;
    proof {
        assert(components@.subrange(0, 0) =~= Seq::<ExactRational>::empty());
    }
    while i < components.len()
        invariant
            0 <= i <= components@.len(),
            cap == budget_cap(budget),
            forall|j: int| 0 <= j < components@.len() ==> (#[trigger] components@[j]).wf(),
            norm_sq.wf(),
            norm_sq.value() == squares_sum(components@.subrange(0, i as int)),
            cap.squares_ok(components@.subrange(0, i as int)),
        decreases components@.len() - i,
    {
        let ghost prefix = components@.subrange(0, i as int + 1);
        proof {
            assert(prefix.drop_last() =~= components@.subrange(0, i as int));
            assert(prefix.last() == components@[i as int]);
            lemma_bits_of_value(components@[i as int]);
        }
        let component = &components[i];
        match cap.admit_rational(component) {
            Ok(()) => {},
            Err(e) => {
                proof {
                    if cap.squares_ok(components@) {
                        lemma_squares_ok_prefix(cap, components@, i as int + 1);
                    }
                }
                return Err(e);
            },
        }
        let square = match cap.mul(component, component) {
            Ok(v) => v,
            Err(e) => {
                proof {
                    if cap.squares_ok(components@) {
                        lemma_squares_ok_prefix(cap, components@, i as int + 1);
                    }
                }
                return Err(e);
            },
        };
        norm_sq = match cap.add(&norm_sq, &square) {
            Ok(v) => v,
            Err(e) => {
                proof {
                    if cap.squares_ok(components@) {
                        lemma_squares_ok_prefix(cap, components@, i as int + 1);
                    }
                }
                return Err(e);
            },
        };
        i = i + 1;
    }
    proof {
        assert(components@.subrange(0, components@.len() as int) =~= components@);
    }
    let zero = ExactRational::from_int(0);
    if norm_sq.le(&zero) {
        return Err(GeometryError::Uncertified { reason: zero_reason.to_owned() });
    }
    Ok(norm_sq)
}

/// A bracket end is a positive finite value.
pub open spec fn positive_finite(bits: u64) -> bool {
    is_finite_bits(bits) && f64_units(bits) > 0
}

/// Unit-vector enclosures from a certified bracket `[lower, upper]` of a
/// norm: each component is divided by the bracket with
/// [`ratio_by_bracket`], and the bracket itself is the norm interval. A
/// bracket end that is not a positive finite value is refused with
/// `underflow_reason`.
pub fn normalized_components(
    budget: CertificationBudget,
    components: &[ExactRational],
    lower: u64,
    upper: u64,
    underflow_reason: &str,
) -> (normalized: Result<(Vec<RatInterval>, RatInterval), GeometryError>)
    requires
        forall|j: int| 0 <= j < components@.len() ==> (#[trigger] components@[j]).wf(),
    ensures
        !(positive_finite(lower) && positive_finite(upper)) ==> (normalized matches Err(e)
            && uncertified_because(e, underflow_reason@)),
        normalized is Ok <==> {
            let c = budget_cap(budget);
            &&& positive_finite(lower) && positive_finite(upper)
            &&& c.decodes(lower) && c.decodes(upper)
            &&& forall|j: int| 0 <= j < components@.len() ==> c.ratio_ok(
                #[trigger] components@[j].value(),
                f64_value(lower),
                f64_value(upper),
            )
        },
        normalized matches Ok((unit, norm)) ==> {
            &&& norm.wf()
            &&& span(norm) == (f64_value(lower), f64_value(upper))
            &&& unit@.len() == components@.len()
            &&& forall|j: int| 0 <= j < unit@.len() ==> (#[trigger] unit@[j]).wf() && span(unit@[j])
                == span_ratio(components@[j].value(), f64_value(lower), f64_value(upper))
        },
        normalized matches Err(e) ==> uncertified_because(e, underflow_reason@) || budget_exhausted(e)
            || uncertified_because(e, "exact-rational division by zero"@),
{
    if !is_finite(lower) || !is_finite(upper) || !is_positive(lower) || !is_positive(upper) {
        return Err(GeometryError::Uncertified { reason: underflow_reason.to_owned() });
    }
    let cap = RationalCap::new(budget);
    let lo = match cap.decode_f64(lower) {
        Ok(v) => v,
        Err(e) => return Err(e),
    };
    let hi = match cap.decode_f64(upper) {
        Ok(v) => v,
        Err(e) => return Err(e),
    };
    let norm = RatInterval { lo, hi };
    let mut unit: Vec<RatInterval> = Vec::new();
    let mut i: usize = 0;
    while i < components.len()
        invariant
            0 <= i <= components@.len(),
            forall|j: int| 0 <= j < components@.len() ==> (#[trigger] components@[j]).wf(),
            norm.wf(),
            span(norm) == (f64_value(lower), f64_value(upper)),
            positive_finite(lower) && positive_finite(upper),
            budget_cap(budget).decodes(lower) && budget_cap(budget).decodes(upper),
            unit@.len() == i,
            forall|j: int| 0 <= j < i ==> budget_cap(budget).ratio_ok(
                #[trigger] components@[j].value(),
                f64_value(lower),
                f64_value(upper),
            ),
            forall|j: int| 0 <= j < i ==> (#[trigger] unit@[j]).wf() && span(unit@[j]) == span_ratio(
                components@[j].value(),
                f64_value(lower),
                f64_value(upper),
            ),
        decreases components@.len() - i,
    {
        match ratio_by_bracket(budget, &components[i], &norm.lo, &norm.hi) {
            Ok(r) => unit.push(r),
            Err(e) => return Err(e),
        }
        i = i + 1;
    }
    Ok((unit, norm))
}

/// A sum span holds the sum of any member of each operand span.
pub proof fn span_sum_encloses(a: (real, real), b: (real, real), x: real, y: real)
    requires
        span_holds(a, x),
        span_holds(b, y),
    ensures
        span_holds(span_sum(a, b), x + y),
{
}

/// A difference span holds the difference of any members.
pub proof fn span_difference_encloses(a: (real, real), b: (real, real), x: real, y: real)
    requires
        span_holds(a, x),
        span_holds(b, y),
    ensures
        span_holds(span_difference(a, b), x - y),
{
}

/// A negated span holds the negation of any member.
pub proof fn span_negation_encloses(a: (real, real), x: real)
    requires
        span_holds(a, x),
    ensures
        span_holds(span_negation(a), -x),
{
}

/// A scaled span holds any member times the scalar.
pub proof fn span_scaled_encloses(a: (real, real), s: real, x: real)
    requires
        span_holds(a, x),
    ensures
        span_holds(span_scaled(a, s), x * s),
{
    if s < 0 as real {
        assert(a.1 * s <= x * s && x * s <= a.0 * s) by (nonlinear_arith)
            requires
                a.0 <= x,
                x <= a.1,
                s < 0 as real,
        ;
    } else {
        assert(a.0 * s <= x * s && x * s <= a.1 * s) by (nonlinear_arith)
            requires
                a.0 <= x,
                x <= a.1,
                s >= 0 as real,
        ;
    }
}

/// `x * y` lies between the products of `x` with the ends of `[lo, hi]`.
proof fn lemma_product_between(x: real, y: real, lo: real, hi: real)
    requires
        lo <= y,
        y <= hi,
    ensures
        min_real(x * lo, x * hi) <= x * y,
        x * y <= max_real(x * lo, x * hi),
{
    if x >= 0 as real {
        assert(x * lo <= x * y && x * y <= x * hi) by (nonlinear_arith)
            requires
                lo <= y,
                y <= hi,
                x >= 0 as real,
        ;
    } else {
        assert(x * hi <= x * y && x * y <= x * lo) by (nonlinear_arith)
            requires
                lo <= y,
                y <= hi,
                x < 0 as real,
        ;
    }
}

/// A product span holds the product of any member of each operand span.
pub proof fn span_product_encloses(a: (real, real), b: (real, real), x: real, y: real)
    requires
        span_holds(a, x),
        span_holds(b, y),
    ensures
        span_holds(span_product(a, b), x * y),
{
    lemma_product_between(x, y, b.0, b.1);
    lemma_product_between(b.0, x, a.0, a.1);
    lemma_product_between(b.1, x, a.0, a.1);
    assert(b.0 * x == x * b.0 && b.1 * x == x * b.1 && b.0 * a.0 == a.0 * b.0 && b.0 * a.1
        == a.1 * b.0 && b.1 * a.0 == a.0 * b.1 && b.1 * a.1 == a.1 * b.1) by (nonlinear_arith);
}

/// A quotient span holds the quotient of any members when the divisor span
/// excludes zero.
pub proof fn span_quotient_encloses(a: (real, real), b: (real, real), x: real, y: real)
    requires
        span_holds(a, x),
        span_holds(b, y),
        !span_holds(b, 0 as real),
    ensures
        span_holds(span_quotient(a, b), x / y),
{
    let (r, r0, r1) = (1 as real / y, 1 as real / b.0, 1 as real / b.1);
    if b.0 > 0 as real {
        assert(r1 <= r && r <= r0) by (nonlinear_arith)
            requires
                (0 as real) < b.0,
                b.0 <= y,
                y <= b.1,
                r == 1 as real / y,
                r0 == 1 as real / b.0,
                r1 == 1 as real / b.1,
        ;
    } else {
        assert(r1 <= r && r <= r0) by (nonlinear_arith)
            requires
                b.0 <= y,
                y <= b.1,
                b.1 < 0 as real,
                r == 1 as real / y,
                r0 == 1 as real / b.0,
                r1 == 1 as real / b.1,
        ;
    }
    span_product_encloses(a, (r1, r0), x, r);
    assert(x * r == x / y && a.0 * r1 == a.0 / b.1 && a.0 * r0 == a.0 / b.0 && a.1 * r1 == a.1
        / b.1 && a.1 * r0 == a.1 / b.0) by (nonlinear_arith)
        requires
            r == 1 as real / y,
            r0 == 1 as real / b.0,
            r1 == 1 as real / b.1,
            y != 0 as real,
            b.0 != 0 as real,
            b.1 != 0 as real,
    ;
}

/// A square span holds the square of any member.
pub proof fn span_square_encloses(a: (real, real), x: real)
    requires
        span_holds(a, x),
    ensures
        span_holds(span_square(a), x * x),
{
    if x >= 0 as real {
        assert(x * x <= a.1 * a.1) by (nonlinear_arith)
            requires
                (0 as real) <= x,
                x <= a.1,
        ;
    } else {
        assert(x * x <= a.0 * a.0) by (nonlinear_arith)
            requires
                a.0 <= x,
                x < 0 as real,
        ;
    }
    if span_holds(a, 0 as real) {
        assert((0 as real) <= x * x) by (nonlinear_arith);
    } else if a.0 > 0 as real {
        assert(a.0 * a.0 <= x * x) by (nonlinear_arith)
            requires
                (0 as real) < a.0,
                a.0 <= x,
        ;
    } else {
        assert(a.1 * a.1 <= x * x) by (nonlinear_arith)
            requires
                x <= a.1,
                a.1 < 0 as real,
        ;
    }
}

/// The hull holds every member of either span.
pub proof fn span_hull_encloses(a: (real, real), b: (real, real), x: real)
    requires
        span_holds(a, x) || span_holds(b, x),
    ensures
        span_holds(span_hull(a, b), x),
{
}

/// An interval minor holds `a * d - b * c` for any members.
pub proof fn span_minor_encloses(
    a: (real, real),
    d: (real, real),
    b: (real, real),
    c: (real, real),
    xa: real,
    xd: real,
    xb: real,
    xc: real,
)
    requires
        span_holds(a, xa),
        span_holds(d, xd),
        span_holds(b, xb),
        span_holds(c, xc),
    ensures
        span_holds(span_minor(a, d, b, c), xa * xd - xb * xc),
{
    span_product_encloses(a, d, xa, xd);
    span_product_encloses(b, c, xb, xc);
    span_difference_encloses(span_product(a, d), span_product(b, c), xa * xd, xb * xc);
}

/// The interval cross product holds the cross product of any members.
pub proof fn span_cross_encloses(
    l: ((real, real), (real, real), (real, real)),
    r: ((real, real), (real, real), (real, real)),
    x: (real, real, real),
    y: (real, real, real),
)
    requires
        span_holds(l.0, x.0) && span_holds(l.1, x.1) && span_holds(l.2, x.2),
        span_holds(r.0, y.0) && span_holds(r.1, y.1) && span_holds(r.2, y.2),
    ensures
        span_holds(span_minor(l.1, r.2, l.2, r.1), cross_value(x, y).0),
        span_holds(span_minor(l.2, r.0, l.0, r.2), cross_value(x, y).1),
        span_holds(span_minor(l.0, r.1, l.1, r.0), cross_value(x, y).2),
{
    span_minor_encloses(l.1, r.2, l.2, r.1, x.1, y.2, x.2, y.1);
    span_minor_encloses(l.2, r.0, l.0, r.2, x.2, y.0, x.0, y.2);
    span_minor_encloses(l.0, r.1, l.1, r.0, x.0, y.1, x.1, y.0);
}

/// A squared offset span holds `(q - x)^2` for any member `x`.
pub proof fn span_offset_square_encloses(q: real, p: (real, real), x: real)
    requires
        span_holds(p, x),
    ensures
        span_holds(span_offset_square(q, p), (q - x) * (q - x)),
{
    span_difference_encloses((q, q), p, q, x);
    span_square_encloses(span_difference((q, q), p), q - x);
}

/// The planar squared-distance span holds the squared distance from the
/// query to any member point.
pub proof fn squared_distance2_encloses(q: (real, real), p0: (real, real), p1: (real, real), x: (real, real))
    requires
        span_holds(p0, x.0),
        span_holds(p1, x.1),
    ensures
        span_holds(
            span_sum(span_offset_square(q.0, p0), span_offset_square(q.1, p1)),
            (q.0 - x.0) * (q.0 - x.0) + (q.1 - x.1) * (q.1 - x.1),
        ),
{
    span_offset_square_encloses(q.0, p0, x.0);
    span_offset_square_encloses(q.1, p1, x.1);
}

/// The spatial squared-distance span holds the squared distance from the
/// query to any member point.
pub proof fn squared_distance3_encloses(
    q: (real, real, real),
    p0: (real, real),
    p1: (real, real),
    p2: (real, real),
    x: (real, real, real),
)
    requires
        span_holds(p0, x.0),
        span_holds(p1, x.1),
        span_holds(p2, x.2),
    ensures
        span_holds(
            span_sum(
                span_sum(span_offset_square(q.0, p0), span_offset_square(q.1, p1)),
                span_offset_square(q.2, p2),
            ),
            (q.0 - x.0) * (q.0 - x.0) + (q.1 - x.1) * (q.1 - x.1) + (q.2 - x.2) * (q.2 - x.2),
        ),
{
    span_offset_square_encloses(q.0, p0, x.0);
    span_offset_square_encloses(q.1, p1, x.1);
    span_offset_square_encloses(q.2, p2, x.2);
}

/// The circle component spans hold the position `base + c x + s y`, its
/// derivative `c y - s x` and second derivative `-(c x + s y)` for any
/// members `x`, `y`, `c = r cos(t)`, `s = r sin(t)`.
pub proof fn circle_components_enclose(
    base: real,
    x: (real, real),
    y: (real, real),
    radius_cos: (real, real),
    radius_sin: (real, real),
    xv: real,
    yv: real,
    c: real,
    s: real,
)
    requires
        span_holds(x, xv),
        span_holds(y, yv),
        span_holds(radius_cos, c),
        span_holds(radius_sin, s),
    ensures
        span_holds(span_sum((base, base), span_rotated(radius_cos, x, radius_sin, y)), base + (c * xv + s * yv)),
        span_holds(span_minor(radius_cos, y, radius_sin, x), c * yv - s * xv),
        span_holds(span_negation(span_rotated(radius_cos, x, radius_sin, y)), -(c * xv + s * yv)),
{
    span_product_encloses(radius_cos, x, c, xv);
    span_product_encloses(radius_sin, y, s, yv);
    span_sum_encloses(span_product(radius_cos, x), span_product(radius_sin, y), c * xv, s * yv);
    span_sum_encloses((base, base), span_rotated(radius_cos, x, radius_sin, y), base, c * xv + s * yv);
    span_minor_encloses(radius_cos, y, radius_sin, x, c, yv, s, xv);
    span_negation_encloses(span_rotated(radius_cos, x, radius_sin, y), c * xv + s * yv);
}

/// The cone component spans hold the position
/// `apex + v z + (t v)(cu x + su y)` and its derivatives for any members
/// `z`, `x`, `y`, `t = tan(a)`, `su = sin(u)`, `cu = cos(u)`.
pub proof fn cone_components_enclose(
    apex: real,
    z: (real, real),
    x: (real, real),
    y: (real, real),
    v: real,
    tangent: (real, real),
    sin_u: (real, real),
    cos_u: (real, real),
    zv: real,
    xv: real,
    yv: real,
    t: real,
    su: real,
    cu: real,
)
    requires
        span_holds(z, zv),
        span_holds(x, xv),
        span_holds(y, yv),
        span_holds(tangent, t),
        span_holds(sin_u, su),
        span_holds(cos_u, cu),
    ensures
        ({
            let spans = cone_spans(apex, z, x, y, v, tangent, sin_u, cos_u);
            let direction = cu * xv + su * yv;
            let perpendicular = cu * yv - su * xv;
            &&& span_holds(spans.0, apex + zv * v + (t * v) * direction)
            &&& span_holds(spans.1, (t * v) * perpendicular)
            &&& span_holds(spans.2, zv + t * direction)
            &&& span_holds(spans.3, -((t * v) * direction))
            &&& span_holds(spans.4, t * perpendicular)
        }),
{
    let direction_span = span_rotated(cos_u, x, sin_u, y);
    let perpendicular_span = span_minor(cos_u, y, sin_u, x);
    let v_tangent = span_scaled(tangent, v);
    let direction = cu * xv + su * yv;
    let perpendicular = cu * yv - su * xv;
    span_product_encloses(cos_u, x, cu, xv);
    span_product_encloses(sin_u, y, su, yv);
    span_sum_encloses(span_product(cos_u, x), span_product(sin_u, y), cu * xv, su * yv);
    span_minor_encloses(cos_u, y, sin_u, x, cu, yv, su, xv);
    span_scaled_encloses(tangent, v, t);
    span_product_encloses(v_tangent, direction_span, t * v, direction);
    span_scaled_encloses(z, v, zv);
    span_sum_encloses((apex, apex), span_scaled(z, v), apex, zv * v);
    span_sum_encloses(
        span_sum((apex, apex), span_scaled(z, v)),
        span_product(v_tangent, direction_span),
        apex + zv * v,
        (t * v) * direction,
    );
    span_product_encloses(v_tangent, perpendicular_span, t * v, perpendicular);
    span_product_encloses(tangent, direction_span, t, direction);
    span_sum_encloses(z, span_product(tangent, direction_span), zv, t * direction);
    span_negation_encloses(span_product(v_tangent, direction_span), (t * v) * direction);
    span_product_encloses(tangent, perpendicular_span, t, perpendicular);
}

/// For a magnitude inside a positive bracket, the bracket ratio span holds
/// `numer / m`.
pub proof fn ratio_by_bracket_encloses(numer: real, mag_down: real, mag_up: real, m: real)
    requires
        (0 as real) < mag_down,
        mag_down <= m,
        m <= mag_up,
    ensures
        span_holds(span_ratio(numer, mag_down, mag_up), numer / m),
{
    if numer == 0 as real {
        assert(numer / m == 0 as real) by (nonlinear_arith)
            requires
                numer == 0 as real,
                m > 0 as real,
        ;
    } else if numer > 0 as real {
        assert(numer / mag_up <= numer / m && numer / m <= numer / mag_down) by (nonlinear_arith)
            requires
                numer > 0 as real,
                (0 as real) < mag_down,
                mag_down <= m,
                m <= mag_up,
        ;
    } else {
        assert(numer / mag_down <= numer / m && numer / m <= numer / mag_up) by (nonlinear_arith)
            requires
                numer < 0 as real,
                (0 as real) < mag_down,
                mag_down <= m,
                m <= mag_up,
        ;
    }
}

/// The ray-parameter span holds `(r t ± h) / (1 + t^2)` for any members,
/// whenever its denominator span excludes zero (as it does whenever the
/// certified computation succeeds).
pub proof fn ray_parameter_encloses(
    radial_magnitude: (real, real),
    axial_coordinate: (real, real),
    tangent: (real, real),
    positive_nappe: bool,
    r: real,
    h: real,
    t: real,
)
    requires
        span_holds(radial_magnitude, r),
        span_holds(axial_coordinate, h),
        span_holds(tangent, t),
        !span_holds(span_sum((1 as real, 1 as real), span_product(tangent, tangent)), 0 as real),
    ensures
        span_holds(
            span_ray_parameter(radial_magnitude, axial_coordinate, tangent, positive_nappe),
            (r * t + (if positive_nappe { h } else { -h })) / (1 as real + t * t),
        ),
{
    let axial_term = if positive_nappe {
        axial_coordinate
    } else {
        span_negation(axial_coordinate)
    };
    let signed = if positive_nappe {
        h
    } else {
        -h
    };
    span_product_encloses(radial_magnitude, tangent, r, t);
    if !positive_nappe {
        span_negation_encloses(axial_coordinate, h);
    }
    span_sum_encloses(span_product(radial_magnitude, tangent), axial_term, r * t, signed);
    span_product_encloses(tangent, tangent, t, t);
    span_sum_encloses((1 as real, 1 as real), span_product(tangent, tangent), 1 as real, t * t);
    span_quotient_encloses(
        span_sum(span_product(radial_magnitude, tangent), axial_term),
        span_sum((1 as real, 1 as real), span_product(tangent, tangent)),
        r * t + signed,
        1 as real + t * t,
    );
}

} // verus!
