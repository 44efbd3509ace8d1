//! Deterministic bit-width and series-length caps for the certified
//! rational-interval transcendental backend.
//!
//! Every arithmetic step is preceded by a preflight that bounds the bit width
//! of its result from the bit widths of its operands and reports
//! [`TrigError::BudgetExhausted`] before anything wider than the cap is
//! allocated.
use crate::exact::{
    abs_int, bit_len, bit_length, lemma_negation_lowest_terms, ExactInt, ExactRational,
};
use crate::geometry::error::TrigError;
use crate::geometry::evaluation::CertificationBudget;
use vstd::prelude::*;

verus! {

/// `a + b`, saturating at `u64::MAX`.
pub open spec fn saturating_sum(a: int, b: int) -> int {
    if a + b > u64::MAX {
        u64::MAX as int
    } else {
        a + b
    }
}

/// The larger of two integers.
pub open spec fn larger(a: int, b: int) -> int {
    if a >= b {
        a
    } else {
        b
    }
}

/// Bit-width and series-length cap derived from a [`CertificationBudget`].
#[derive(Clone, Copy)]
pub struct TrigCap {
    rational_bits: u32,
    series_terms: u32,
}

impl TrigCap {
    /// The largest admitted bit width of any intermediate integer.
    pub closed spec fn spec_bits(self) -> u64 {
        self.rational_bits as u64
    }

    /// The largest admitted number of series terms.
    pub closed spec fn spec_series_terms(self) -> u32 {
        self.series_terms
    }

    /// The outcome of admitting a bit-width bound.
    pub open spec fn admits(self, bound: int) -> Result<(), TrigError> {
        if bound > self.spec_bits() {
            Err(TrigError::BudgetExhausted)
        } else {
            Ok(())
        }
    }

    /// The cap with both limits taken from the budget.
    pub closed spec fn spec_new(budget: CertificationBudget) -> Self {
        Self { rational_bits: budget.spec_rational_bits(), series_terms: budget.spec_series_terms() }
    }

    /// Takes both limits from the budget.
    pub fn new(budget: CertificationBudget) -> (cap: Self)
        ensures
            cap == Self::spec_new(budget),
            cap.spec_bits() == budget.spec_rational_bits() as u64,
            cap.spec_series_terms() == budget.spec_series_terms(),
    {
        Self { rational_bits: budget.rational_bits(), series_terms: budget.series_terms() }
    }

    /// The bit-width cap.
    pub fn bits(self) -> (bits: u64)
        ensures
            bits == self.spec_bits(),
    {
        self.rational_bits as u64
    }

    /// The series-length cap.
    pub fn series_terms(self) -> (terms: u32)
        ensures
            terms == self.spec_series_terms(),
    {
        self.series_terms
    }

    /// Largest exponent `e` with `2^e` still within the cap (`e + 1 <= bits`),
    /// never above `maximum`.
    pub fn threshold_bits(self, maximum: u32) -> (exponent: u32)
        ensures
            exponent as int == if self.spec_bits() == 0 {
                0
            } else if self.spec_bits() - 1 <= maximum {
                self.spec_bits() - 1
            } else {
                maximum as int
            },
    {
        let below = self.rational_bits.saturating_sub(1);
        if below <= maximum {
            below
        } else {
            maximum
        }
    }

    /// Rejects a bit-width bound that exceeds the cap.
    pub fn within(self, bound: u64) -> (admitted: Result<(), TrigError>)
        ensures
            admitted == self.admits(bound as int),
    {
        if bound > self.bits() {
            Err(TrigError::BudgetExhausted)
        } else {
            Ok(())
        }
    }

    /// Admits an existing integer whose bit width must not exceed the cap.
    pub fn admit_int(self, value: &ExactInt) -> (admitted: Result<(), TrigError>)
        ensures
            admitted == self.admits(bit_len(abs_int(value@)) as int),
    {
        self.within(value.bits())
    }

    /// Certified product; the product of an `m`-bit and an `n`-bit integer
    /// has at most `m + n` bits.
    pub fn mul_int(self, a: &ExactInt, b: &ExactInt) -> (product: Result<ExactInt, TrigError>)
        ensures
            product is Ok <==> self.admits(
                saturating_sum(bit_len(abs_int(a@)) as int, bit_len(abs_int(b@)) as int),
            ) is Ok,
            product matches Ok(p) ==> p@ == a@ * b@,
            product matches Err(e) ==> e == TrigError::BudgetExhausted,
    {
        match self.within(a.bits().saturating_add(b.bits())) {
            Ok(()) => Ok(a.mul(b)),
            Err(e) => Err(e),
        }
    }

    /// Certified difference; it has at most one bit more than the wider
    /// operand.
    pub fn sub_int(self, a: &ExactInt, b: &ExactInt) -> (difference: Result<ExactInt, TrigError>)
        ensures
            difference is Ok <==> self.admits(
                saturating_sum(
                    larger(bit_len(abs_int(a@)) as int, bit_len(abs_int(b@)) as int),
                    1,
                ),
            ) is Ok,
            difference matches Ok(d) ==> d@ == a@ - b@,
            difference matches Err(e) ==> e == TrigError::BudgetExhausted,
    {
        let a_bits = a.bits();
        let b_bits = b.bits();
        let wider = if a_bits >= b_bits {
            a_bits
        } else {
            b_bits
        };
        match self.within(wider.saturating_add(1)) {
            Ok(()) => Ok(a.sub(b)),
            Err(e) => Err(e),
        }
    }

    /// Certified conversion of a machine integer.
    pub fn unsigned_int(self, value: u64) -> (exact: Result<ExactInt, TrigError>)
        ensures
            exact is Ok <==> bit_len(value as nat) <= self.spec_bits(),
            exact matches Ok(x) ==> x@ == value as int,
            exact matches Err(e) ==> e == TrigError::BudgetExhausted,
    {
        match self.within(bit_length(value)) {
            Ok(()) => Ok(ExactInt::from_u64(value)),
            Err(e) => Err(e),
        }
    }

    /// Certified `2^exponent`, which has `exponent + 1` bits.
    pub fn pow2(self, exponent: u32) -> (power: Result<ExactInt, TrigError>)
        ensures
            power is Ok <==> exponent as int + 1 <= self.spec_bits(),
            power matches Ok(p) ==> p@ == vstd::arithmetic::power2::pow2(exponent as nat),
            power matches Err(e) ==> e == TrigError::BudgetExhausted,
    {
        match self.within(exponent as u64 + 1) {
            Ok(()) => Ok(ExactInt::from_i64(1).shl(exponent as usize)),
            Err(e) => Err(e),
        }
    }
}

/// The real `x` lies in the closed interval `[lo, hi]`.
pub open spec fn between(lo: real, x: real, hi: real) -> bool {
    lo <= x && x <= hi
}

/// The smaller of two reals.
pub open spec fn min_real(a: real, b: real) -> real {
    if a <= b {
        a
    } else {
        b
    }
}

/// The larger of two reals.
pub open spec fn max_real(a: real, b: real) -> real {
    if a <= b {
        b
    } else {
        a
    }
}

/// `sum` is `[a.lo + b.lo, a.hi + b.hi]`.
pub open spec fn is_sum(sum: RatInterval, a: RatInterval, b: RatInterval) -> bool {
    sum.lo.value() == a.lo.value() + b.lo.value() && sum.hi.value() == a.hi.value() + b.hi.value()
}

/// `difference` is `[a.lo - b.hi, a.hi - b.lo]`.
pub open spec fn is_difference(difference: RatInterval, a: RatInterval, b: RatInterval) -> bool {
    difference.lo.value() == a.lo.value() - b.hi.value() && difference.hi.value() == a.hi.value()
        - b.lo.value()
}

/// `negated` is `[-a.hi, -a.lo]`.
pub open spec fn is_negation(negated: RatInterval, a: RatInterval) -> bool {
    negated.lo.value() == -a.hi.value() && negated.hi.value() == -a.lo.value()
}

/// `scaled` is `a` multiplied endpoint-wise by `s`, with the endpoints
/// exchanged when `s` is negative.
pub open spec fn is_scaled(scaled: RatInterval, a: RatInterval, s: real) -> bool {
    if s < (0 as real) {
        scaled.lo.value() == a.hi.value() * s && scaled.hi.value() == a.lo.value() * s
    } else {
        scaled.lo.value() == a.lo.value() * s && scaled.hi.value() == a.hi.value() * s
    }
}

/// `widened` is `[a.lo - amount, a.hi + amount]`.
pub open spec fn is_widened(widened: RatInterval, a: RatInterval, amount: real) -> bool {
    widened.lo.value() == a.lo.value() - amount && widened.hi.value() == a.hi.value() + amount
}

/// `quotient` spans the smallest to the largest of the four endpoint
/// quotients of `a` by `b`.
pub open spec fn is_quotient(quotient: RatInterval, a: RatInterval, b: RatInterval) -> bool {
    let q0 = a.lo.value() / b.lo.value();
    let q1 = a.lo.value() / b.hi.value();
    let q2 = a.hi.value() / b.lo.value();
    let q3 = a.hi.value() / b.hi.value();
    &&& quotient.lo.value() == min_real(min_real(q0, q1), min_real(q2, q3))
    &&& quotient.hi.value() == max_real(max_real(q0, q1), max_real(q2, q3))
}

/// A closed rational interval `[lo, hi]` with exact endpoints.
///
/// Arithmetic operations produce certified enclosures: the true
/// mathematical result lies in the returned interval.
#[derive(Clone)]
pub struct RatInterval {
    pub lo: ExactRational,
    pub hi: ExactRational,
}

impl RatInterval {
    /// Both endpoints are rationals in lowest terms.
    pub open spec fn wf(self) -> bool {
        self.lo.wf() && self.hi.wf()
    }

    /// The real `x` lies in the interval.
    pub open spec fn holds(self, x: real) -> bool {
        between(self.lo.value(), x, self.hi.value())
    }

    /// Point interval `[v, v]`.
    pub fn point(v: ExactRational) -> (interval: Self)
        ensures
            interval.lo.same(v),
            interval.hi.same(v),
    {
        Self { lo: v.copy(), hi: v }
    }

    /// Copies both endpoints.
    pub fn copy(&self) -> (copy: Self)
        ensures
            copy.lo.same(self.lo),
            copy.hi.same(self.hi),
    {
        Self { lo: self.lo.copy(), hi: self.hi.copy() }
    }

    /// `[a, b] + [c, d] = [a + c, b + d]`.
    pub fn add(&self, rhs: &RatInterval) -> (sum: RatInterval)
        requires
            self.wf(),
            rhs.wf(),
        ensures
            sum.wf(),
            is_sum(sum, *self, *rhs),
    {
        RatInterval { lo: self.lo.add(&rhs.lo), hi: self.hi.add(&rhs.hi) }
    }

    /// `[a, b] - [c, d] = [a - d, b - c]`.
    pub fn sub(&self, rhs: &RatInterval) -> (difference: RatInterval)
        requires
            self.wf(),
            rhs.wf(),
        ensures
            difference.wf(),
            is_difference(difference, *self, *rhs),
    {
        RatInterval { lo: self.lo.sub(&rhs.hi), hi: self.hi.sub(&rhs.lo) }
    }

    /// `-[a, b] = [-b, -a]`.
    pub fn neg(&self) -> (negated: RatInterval)
        requires
            self.wf(),
        ensures
            negated.wf(),
            is_negation(negated, *self),
    {
        let lo = self.hi.neg();
        let hi = self.lo.neg();
        proof {
            lemma_negation_lowest_terms(self.hi);
            lemma_negation_lowest_terms(self.lo);
        }
        RatInterval { lo, hi }
    }

    /// Scales by a rational: the endpoints swap when the scalar is negative.
    pub fn scale(&self, s: &ExactRational) -> (scaled: RatInterval)
        requires
            self.wf(),
            s.wf(),
        ensures
            scaled.wf(),
            is_scaled(scaled, *self, s.value()),
    {
        let zero = ExactRational::from_int(0);
        if !zero.le(s) {
            RatInterval { lo: self.hi.mul(s), hi: self.lo.mul(s) }
        } else {
            RatInterval { lo: self.lo.mul(s), hi: self.hi.mul(s) }
        }
    }

    /// True iff the interval contains zero (`lo <= 0 <= hi`).
    pub fn contains_zero(&self) -> (contains: bool)
        requires
            self.wf(),
        ensures
            contains == self.holds(0 as real),
    {
        let zero = ExactRational::from_int(0);
        self.lo.le(&zero) && zero.le(&self.hi)
    }

    /// `[a, b] / [c, d]`: a certified enclosure of the quotient.
    ///
    /// Returns [`TrigError::DivisionByZero`] when `rhs` contains zero.
    pub fn div(&self, rhs: &RatInterval) -> (quotient: Result<RatInterval, TrigError>)
        requires
            self.wf(),
            rhs.wf(),
            rhs.lo.value() <= rhs.hi.value(),
        ensures
            rhs.holds(0 as real) ==> quotient == Err::<RatInterval, TrigError>(
                TrigError::DivisionByZero,
            ),
            !rhs.holds(0 as real) ==> (quotient matches Ok(q) && q.wf() && is_quotient(
                q,
                *self,
                *rhs,
            )),
    {
        if rhs.contains_zero() {
            return Err(TrigError::DivisionByZero);
        }
        proof {
            lemma_nonzero_endpoints(*rhs);
        }
        let q0 = self.lo.div(&rhs.lo);
        let q1 = self.lo.div(&rhs.hi);
        let q2 = self.hi.div(&rhs.lo);
        let q3 = self.hi.div(&rhs.hi);
        let mut lo = q0.copy();
        let mut hi = q0;
        if q1.le(&lo) && !lo.le(&q1) {
            lo = q1.copy();
        }
        if hi.le(&q1) && !q1.le(&hi) {
            hi = q1;
        }
        if q2.le(&lo) && !lo.le(&q2) {
            lo = q2.copy();
        }
        if hi.le(&q2) && !q2.le(&hi) {
            hi = q2;
        }
        if q3.le(&lo) && !lo.le(&q3) {
            lo = q3.copy();
        }
        if hi.le(&q3) && !q3.le(&hi) {
            hi = q3;
        }
        Ok(RatInterval { lo, hi })
    }

    /// Widens by an exact non-negative amount on each side.
    pub fn widen(&self, amount: &ExactRational) -> (widened: RatInterval)
        requires
            self.wf(),
            amount.wf(),
            amount.value() >= 0 as real,
        ensures
            widened.wf(),
            is_widened(widened, *self, amount.value()),
    {
        RatInterval { lo: self.lo.sub(amount), hi: self.hi.add(amount) }
    }
}


/// An ordered interval without zero has nonzero endpoints.
proof fn lemma_nonzero_endpoints(b: RatInterval)
    requires
        b.wf(),
        b.lo.value() <= b.hi.value(),
        !b.holds(0 as real),
    ensures
        b.lo.spec_numer() != 0,
        b.hi.spec_numer() != 0,
        b.lo.value() > 0 as real || b.hi.value() < (0 as real),
{
    let d_lo = b.lo.spec_denom() as real;
    let d_hi = b.hi.spec_denom() as real;
    if b.lo.spec_numer() == 0 {
        assert((0 as real) / d_lo == 0 as real) by (nonlinear_arith)
            requires
                d_lo > 0 as real,
        ;
    }
    if b.hi.spec_numer() == 0 {
        assert((0 as real) / d_hi == 0 as real) by (nonlinear_arith)
            requires
                d_hi > 0 as real,
        ;
    }
}

/// Interval addition encloses the sum of any two members.
pub proof fn sum_encloses(a: RatInterval, b: RatInterval, sum: RatInterval, x: real, y: real)
    requires
        is_sum(sum, a, b),
        a.holds(x),
        b.holds(y),
    ensures
        sum.holds(x + y),
{
}

/// Interval subtraction encloses the difference of any two members.
pub proof fn difference_encloses(
    a: RatInterval,
    b: RatInterval,
    difference: RatInterval,
    x: real,
    y: real,
)
    requires
        is_difference(difference, a, b),
        a.holds(x),
        b.holds(y),
    ensures
        difference.holds(x - y),
{
}

/// Interval negation holds exactly the negated members.
pub proof fn negation_encloses(a: RatInterval, negated: RatInterval, x: real)
    requires
        is_negation(negated, a),
    ensures
        negated.holds(-x) == a.holds(x),
{
}

/// Scaling encloses every scaled member.
pub proof fn scaling_encloses(a: RatInterval, scaled: RatInterval, s: real, x: real)
    requires
        is_scaled(scaled, a, s),
        a.holds(x),
    ensures
        scaled.holds(x * s),
{
    let lo = a.lo.value();
    let hi = a.hi.value();
    if s < (0 as real) {
        assert(hi * s <= x * s <= lo * s) by (nonlinear_arith)
            requires
                lo <= x <= hi,
                s < (0 as real),
        ;
    } else {
        assert(lo * s <= x * s <= hi * s) by (nonlinear_arith)
            requires
                lo <= x <= hi,
                s >= 0 as real,
        ;
    }
}

/// Widening by `amount` encloses every value within `amount` of a member.
pub proof fn widening_encloses(a: RatInterval, widened: RatInterval, amount: real, x: real, z: real)
    requires
        is_widened(widened, a, amount),
        a.holds(x),
        x - amount <= z <= x + amount,
    ensures
        widened.holds(z),
{
}

proof fn lemma_quotient_bounds(x: real, y: real, a: real, b: real, c: real, d: real)
    requires
        a <= x <= b,
        c <= y <= d,
        c > 0 as real || d < (0 as real),
    ensures
        min_real(min_real(a / c, a / d), min_real(b / c, b / d)) <= x / y,
        x / y <= max_real(max_real(a / c, a / d), max_real(b / c, b / d)),
{
    if c > 0 as real {
        assert(a / y <= x / y <= b / y) by (nonlinear_arith)
            requires
                a <= x <= b,
                y > 0 as real,
        ;
        assert(min_real(a / c, a / d) <= a / y <= max_real(a / c, a / d)) by (nonlinear_arith)
            requires
                (0 as real) < c,
                c <= y <= d,
        ;
        assert(min_real(b / c, b / d) <= b / y <= max_real(b / c, b / d)) by (nonlinear_arith)
            requires
                (0 as real) < c,
                c <= y <= d,
        ;
    } else {
        assert(b / y <= x / y <= a / y) by (nonlinear_arith)
            requires
                a <= x <= b,
                y < (0 as real),
        ;
        assert(min_real(a / c, a / d) <= a / y <= max_real(a / c, a / d)) by (nonlinear_arith)
            requires
                c <= y <= d,
                d < (0 as real),
        ;
        assert(min_real(b / c, b / d) <= b / y <= max_real(b / c, b / d)) by (nonlinear_arith)
            requires
                c <= y <= d,
                d < (0 as real),
        ;
    }
}

/// Interval division by an ordered interval without zero encloses the
/// quotient of any two members.
pub proof fn quotient_encloses(
    a: RatInterval,
    b: RatInterval,
    quotient: RatInterval,
    x: real,
    y: real,
)
    requires
        a.wf(),
        b.wf(),
        b.lo.value() <= b.hi.value(),
        !b.holds(0 as real),
        is_quotient(quotient, a, b),
        a.holds(x),
        b.holds(y),
    ensures
        quotient.holds(x / y),
{
    lemma_nonzero_endpoints(b);
    lemma_quotient_bounds(x, y, a.lo.value(), a.hi.value(), b.lo.value(), b.hi.value());
}

/// Bit width of the lowest-terms numerator's magnitude.
pub open spec fn numer_bits(r: ExactRational) -> int {
    bit_len(abs_int(r.spec_numer())) as int
}

/// Bit width of the lowest-terms denominator.
pub open spec fn denom_bits(r: ExactRational) -> int {
    bit_len(abs_int(r.spec_denom())) as int
}

fn rational_bits(r: &ExactRational) -> (bits: (u64, u64))
    ensures
        bits.0 == numer_bits(*r),
        bits.1 == denom_bits(*r),
{
    (r.numer().bits(), r.denom().bits())
}

impl TrigCap {
    /// Both parts of `r` fit the cap.
    pub open spec fn fits(self, r: ExactRational) -> bool {
        numer_bits(r) <= self.spec_bits() && denom_bits(r) <= self.spec_bits()
    }

    /// Both endpoints of `i` fit the cap.
    pub open spec fn fits_interval(self, i: RatInterval) -> bool {
        self.fits(i.lo) && self.fits(i.hi)
    }

    /// The preflight bounds of a product fit the cap.
    pub open spec fn mul_fits(self, a: ExactRational, b: ExactRational) -> bool {
        &&& saturating_sum(numer_bits(a), numer_bits(b)) <= self.spec_bits()
        &&& saturating_sum(denom_bits(a), denom_bits(b)) <= self.spec_bits()
    }

    /// The preflight bounds of a sum or difference fit the cap: the common
    /// denominator has at most `ad + bd` bits and the combined numerator at
    /// most `max(an + bd, ad + bn) + 1`.
    pub open spec fn addsub_fits(self, a: ExactRational, b: ExactRational) -> bool {
        &&& saturating_sum(
            larger(
                saturating_sum(numer_bits(a), denom_bits(b)),
                saturating_sum(denom_bits(a), numer_bits(b)),
            ),
            1,
        ) <= self.spec_bits()
        &&& saturating_sum(denom_bits(a), denom_bits(b)) <= self.spec_bits()
    }

    /// The preflight bounds of a quotient fit the cap.
    pub open spec fn div_fits(self, a: ExactRational, b: ExactRational) -> bool {
        &&& saturating_sum(numer_bits(a), denom_bits(b)) <= self.spec_bits()
        &&& saturating_sum(denom_bits(a), numer_bits(b)) <= self.spec_bits()
    }

    /// The outcome of a preflight: `Ok` exactly when the bound holds.
    pub open spec fn checked(fits: bool) -> Result<(), TrigError> {
        if fits {
            Ok(())
        } else {
            Err(TrigError::BudgetExhausted)
        }
    }

    /// Admits an existing rational whose numerator and denominator must both
    /// fit the cap.
    pub fn admit_rat(self, value: &ExactRational) -> (admitted: Result<(), TrigError>)
        ensures
            admitted == Self::checked(self.fits(*value)),
    {
        let (n, d) = rational_bits(value);
        match self.within(n) {
            Ok(()) => self.within(d),
            Err(e) => Err(e),
        }
    }

    /// Admits both endpoints of an interval.
    pub fn admit_interval(self, interval: &RatInterval) -> (admitted: Result<(), TrigError>)
        ensures
            admitted == Self::checked(self.fits_interval(*interval)),
    {
        match self.admit_rat(&interval.lo) {
            Ok(()) => self.admit_rat(&interval.hi),
            Err(e) => Err(e),
        }
    }

    /// Admits an interval and returns it.
    pub fn admitted_interval(self, interval: RatInterval) -> (admitted: Result<
        RatInterval,
        TrigError,
    >)
        ensures
            admitted is Ok <==> self.fits_interval(interval),
            admitted matches Ok(i) ==> i == interval,
            admitted matches Err(e) ==> e == TrigError::BudgetExhausted,
    {
        match self.admit_interval(&interval) {
            Ok(()) => Ok(interval),
            Err(e) => Err(e),
        }
    }

    /// Admits both intervals of a pair and returns it.
    pub fn admitted_pair(self, pair: (RatInterval, RatInterval)) -> (admitted: Result<
        (RatInterval, RatInterval),
        TrigError,
    >)
        ensures
            admitted is Ok <==> self.fits_interval(pair.0) && self.fits_interval(pair.1),
            admitted matches Ok(p) ==> p == pair,
            admitted matches Err(e) ==> e == TrigError::BudgetExhausted,
    {
        match self.admit_interval(&pair.0) {
            Ok(()) => {},
            Err(e) => return Err(e),
        }
        match self.admit_interval(&pair.1) {
            Ok(()) => Ok(pair),
            Err(e) => Err(e),
        }
    }

    /// Preflights `a * b`.
    pub fn guard_mul_rat(self, a: &ExactRational, b: &ExactRational) -> (admitted: Result<
        (),
        TrigError,
    >)
        ensures
            admitted == Self::checked(self.mul_fits(*a, *b)),
    {
        let (an, ad) = rational_bits(a);
        let (bn, bd) = rational_bits(b);
        match self.within(an.saturating_add(bn)) {
            Ok(()) => self.within(ad.saturating_add(bd)),
            Err(e) => Err(e),
        }
    }

    /// Preflights `a ± b`.
    pub fn guard_addsub_rat(self, a: &ExactRational, b: &ExactRational) -> (admitted: Result<
        (),
        TrigError,
    >)
        ensures
            admitted == Self::checked(self.addsub_fits(*a, *b)),
    {
        let (an, ad) = rational_bits(a);
        let (bn, bd) = rational_bits(b);
        let first = an.saturating_add(bd);
        let second = ad.saturating_add(bn);
        let wider = if first >= second {
            first
        } else {
            second
        };
        match self.within(wider.saturating_add(1)) {
            Ok(()) => self.within(ad.saturating_add(bd)),
            Err(e) => Err(e),
        }
    }

    /// Preflights `a / b`, rejecting a zero divisor.
    pub fn guard_div_rat(self, a: &ExactRational, b: &ExactRational) -> (admitted: Result<
        (),
        TrigError,
    >)
        ensures
            b.spec_numer() == 0 ==> admitted == Err::<(), TrigError>(TrigError::DivisionByZero),
            b.spec_numer() != 0 ==> admitted == Self::checked(self.div_fits(*a, *b)),
    {
        let zero = ExactInt::from_i64(0);
        let bn_value = b.numer();
        if bn_value.le(&zero) && zero.le(&bn_value) {
            return Err(TrigError::DivisionByZero);
        }
        let (an, ad) = rational_bits(a);
        let (bn, bd) = rational_bits(b);
        match self.within(an.saturating_add(bd)) {
            Ok(()) => self.within(ad.saturating_add(bn)),
            Err(e) => Err(e),
        }
    }

    /// Certified rational from an integer.
    pub fn unsigned_rat(self, value: u64) -> (exact: Result<ExactRational, TrigError>)
        ensures
            exact is Ok <==> bit_len(value as nat) <= self.spec_bits(),
            exact matches Ok(r) ==> r.wf() && r.spec_numer() == value as int && r.spec_denom() == 1,
            exact matches Err(e) ==> e == TrigError::BudgetExhausted,
    {
        match self.unsigned_int(value) {
            Ok(n) => Ok(ExactRational::from_integer(&n)),
            Err(e) => Err(e),
        }
    }

    /// Certified `numer / denom`, reduced; admitting the raw parts bounds the
    /// reduced result.
    pub fn ratio(self, numer: ExactInt, denom: ExactInt) -> (r: Result<ExactRational, TrigError>)
        requires
            denom@ != 0,
        ensures
            r is Ok <==> bit_len(abs_int(numer@)) <= self.spec_bits() && bit_len(abs_int(denom@))
                <= self.spec_bits(),
            r matches Ok(q) ==> q.wf() && q.value() == numer@ as real / denom@ as real,
            r matches Err(e) ==> e == TrigError::BudgetExhausted,
    {
        match self.admit_int(&numer) {
            Ok(()) => {},
            Err(e) => return Err(e),
        }
        match self.admit_int(&denom) {
            Ok(()) => Ok(ExactRational::new(&numer, &denom)),
            Err(e) => Err(e),
        }
    }

    /// Certified `1 / denominator`.
    pub fn unit_fraction(self, denominator: u64) -> (r: Result<ExactRational, TrigError>)
        requires
            denominator != 0,
        ensures
            r is Ok <==> bit_len(denominator as nat) <= self.spec_bits(),
            r matches Ok(q) ==> q.wf() && q.value() == 1 as real / denominator as real,
            r matches Err(e) ==> e == TrigError::BudgetExhausted,
    {
        let one = ExactInt::from_i64(1);
        match self.unsigned_int(denominator) {
            Ok(d) => {
                proof {
                    crate::exact::lemma_bit_len_bounds(1);
                    assert(bit_len(1) == 1 + bit_len(0));
                    assert(self.spec_bits() >= 1) by {
                        crate::exact::lemma_bit_len_bounds(denominator as nat);
                    }
                }
                self.ratio(one, d)
            },
            Err(e) => Err(e),
        }
    }

    /// Certified product.
    pub fn mul_rat(self, a: &ExactRational, b: &ExactRational) -> (product: Result<
        ExactRational,
        TrigError,
    >)
        requires
            a.wf(),
            b.wf(),
        ensures
            product is Ok <==> self.mul_fits(*a, *b),
            product matches Ok(p) ==> p.wf() && p.value() == a.value() * b.value(),
            product matches Err(e) ==> e == TrigError::BudgetExhausted,
    {
        match self.guard_mul_rat(a, b) {
            Ok(()) => Ok(a.mul(b)),
            Err(e) => Err(e),
        }
    }

    /// Certified sum.
    pub fn add_rat(self, a: &ExactRational, b: &ExactRational) -> (sum: Result<
        ExactRational,
        TrigError,
    >)
        requires
            a.wf(),
            b.wf(),
        ensures
            sum is Ok <==> self.addsub_fits(*a, *b),
            sum matches Ok(s) ==> s.wf() && s.value() == a.value() + b.value(),
            sum matches Err(e) ==> e == TrigError::BudgetExhausted,
    {
        match self.guard_addsub_rat(a, b) {
            Ok(()) => Ok(a.add(b)),
            Err(e) => Err(e),
        }
    }

    /// Certified difference.
    pub fn sub_rat(self, a: &ExactRational, b: &ExactRational) -> (difference: Result<
        ExactRational,
        TrigError,
    >)
        requires
            a.wf(),
            b.wf(),
        ensures
            difference is Ok <==> self.addsub_fits(*a, *b),
            difference matches Ok(d) ==> d.wf() && d.value() == a.value() - b.value(),
            difference matches Err(e) ==> e == TrigError::BudgetExhausted,
    {
        match self.guard_addsub_rat(a, b) {
            Ok(()) => Ok(a.sub(b)),
            Err(e) => Err(e),
        }
    }

    /// Certified quotient.
    pub fn div_rat(self, a: &ExactRational, b: &ExactRational) -> (quotient: Result<
        ExactRational,
        TrigError,
    >)
        requires
            a.wf(),
            b.wf(),
        ensures
            b.spec_numer() == 0 ==> quotient == Err::<ExactRational, TrigError>(
                TrigError::DivisionByZero,
            ),
            b.spec_numer() != 0 ==> (quotient is Ok <==> self.div_fits(*a, *b)),
            quotient matches Ok(q) ==> q.wf() && q.value() == a.value() / b.value(),
            b.spec_numer() != 0 ==> (quotient matches Err(e) ==> e == TrigError::BudgetExhausted),
    {
        match self.guard_div_rat(a, b) {
            Ok(()) => Ok(a.div(b)),
            Err(e) => Err(e),
        }
    }

    /// Certified interval sum, preflighting each endpoint.
    pub fn add_interval(self, a: &RatInterval, b: &RatInterval) -> (sum: Result<
        RatInterval,
        TrigError,
    >)
        requires
            a.wf(),
            b.wf(),
        ensures
            sum is Ok <==> self.addsub_fits(a.lo, b.lo) && self.addsub_fits(a.hi, b.hi),
            sum matches Ok(s) ==> s.wf() && is_sum(s, *a, *b),
            sum matches Err(e) ==> e == TrigError::BudgetExhausted,
    {
        match self.guard_addsub_rat(&a.lo, &b.lo) {
            Ok(()) => {},
            Err(e) => return Err(e),
        }
        match self.guard_addsub_rat(&a.hi, &b.hi) {
            Ok(()) => Ok(a.add(b)),
            Err(e) => Err(e),
        }
    }

    /// Certified interval difference, preflighting each endpoint.
    pub fn sub_interval(self, a: &RatInterval, b: &RatInterval) -> (difference: Result<
        RatInterval,
        TrigError,
    >)
        requires
            a.wf(),
            b.wf(),
        ensures
            difference is Ok <==> self.addsub_fits(a.lo, b.hi) && self.addsub_fits(a.hi, b.lo),
            difference matches Ok(d) ==> d.wf() && is_difference(d, *a, *b),
            difference matches Err(e) ==> e == TrigError::BudgetExhausted,
    {
        match self.guard_addsub_rat(&a.lo, &b.hi) {
            Ok(()) => {},
            Err(e) => return Err(e),
        }
        match self.guard_addsub_rat(&a.hi, &b.lo) {
            Ok(()) => Ok(a.sub(b)),
            Err(e) => Err(e),
        }
    }

    /// Certified interval scaling, preflighting each endpoint product.
    pub fn scale_interval(self, a: &RatInterval, scalar: &ExactRational) -> (scaled: Result<
        RatInterval,
        TrigError,
    >)
        requires
            a.wf(),
            scalar.wf(),
        ensures
            scaled is Ok <==> self.mul_fits(a.lo, *scalar) && self.mul_fits(a.hi, *scalar),
            scaled matches Ok(s) ==> s.wf() && is_scaled(s, *a, scalar.value()),
            scaled matches Err(e) ==> e == TrigError::BudgetExhausted,
    {
        match self.guard_mul_rat(&a.lo, scalar) {
            Ok(()) => {},
            Err(e) => return Err(e),
        }
        match self.guard_mul_rat(&a.hi, scalar) {
            Ok(()) => Ok(a.scale(scalar)),
            Err(e) => Err(e),
        }
    }

    /// Certified interval negation.
    pub fn neg_interval(self, a: &RatInterval) -> (negated: Result<RatInterval, TrigError>)
        requires
            a.wf(),
        ensures
            negated is Ok <==> self.fits_interval(*a),
            negated matches Ok(n) ==> n.wf() && is_negation(n, *a),
            negated matches Err(e) ==> e == TrigError::BudgetExhausted,
    {
        match self.admit_interval(a) {
            Ok(()) => Ok(a.neg()),
            Err(e) => Err(e),
        }
    }

    /// Certified widening by a non-negative amount, preflighting each
    /// endpoint.
    pub fn widen_interval(self, a: &RatInterval, amount: &ExactRational) -> (widened: Result<
        RatInterval,
        TrigError,
    >)
        requires
            a.wf(),
            amount.wf(),
            amount.value() >= 0 as real,
        ensures
            widened is Ok <==> self.addsub_fits(a.lo, *amount) && self.addsub_fits(a.hi, *amount),
            widened matches Ok(w) ==> w.wf() && is_widened(w, *a, amount.value()),
            widened matches Err(e) ==> e == TrigError::BudgetExhausted,
    {
        match self.guard_addsub_rat(&a.lo, amount) {
            Ok(()) => {},
            Err(e) => return Err(e),
        }
        match self.guard_addsub_rat(&a.hi, amount) {
            Ok(()) => Ok(a.widen(amount)),
            Err(e) => Err(e),
        }
    }
}

} // verus!
