//! Resource caps and failure reporting for the exact rational algebra that
//! certifies analytic evaluation and projection.
use crate::exact::bit_len;
use crate::exact::{abs_int, lemma_parts_of_value, lowest_denom, lowest_numer, ExactInt, ExactRational};
use crate::geometry::analytic::exact::{f64_to_rat, f64_value};
use crate::geometry::analytic::trig::{denom_bits, larger, numer_bits, saturating_sum};
use crate::geometry::error::{ConstructionError, GeometryError, TrigError};
use crate::geometry::evaluation::CertificationBudget;
use crate::bounds::val;
use crate::geometry::domain::{rounds_to, span_falls_short, ParameterRange};
use crate::ieee::{
    exp_field,
    f64_units,
    frac_field,
    is_finite,
    is_finite_bits,
    is_nan,
    is_nan_bits,
    le,
    lt,
    sign_negative,
    two_52,
};
use crate::tolerance::ToleranceContext;
use crate::exact::bit_length;
use crate::unit::NormalizationError;
use vstd::prelude::*;

verus! {

/// `error` is an uncertified-result failure with the given reason.
pub open spec fn uncertified_because(error: GeometryError, reason: Seq<char>) -> bool {
    error matches GeometryError::Uncertified { reason: r } && r@ == reason
}

/// The failure reported when an exact intermediate value would exceed the
/// certification bit-width budget.
pub fn rational_budget_exhausted() -> (error: GeometryError)
    ensures
        uncertified_because(
            error,
            "intermediate exact-rational value exceeded the certification bit-width budget"@,
        ),
{
    GeometryError::Uncertified {
        reason: "intermediate exact-rational value exceeded the certification bit-width budget".to_owned(),
    }
}

/// Translates a failure of the transcendental backend into the uncertified
/// geometry failure that evaluation reports.
pub fn trig_err_to_uncertified(err: TrigError) -> (error: GeometryError)
    ensures
        err == TrigError::BudgetExhausted ==> uncertified_because(
            error,
            "certified trigonometric computation exceeded its series or bit-width budget"@,
        ),
        err == TrigError::Pole ==> uncertified_because(
            error,
            "certified atan2 is undefined at the origin (zero in-plane displacement)"@,
        ),
        err == TrigError::DivisionByZero ==> uncertified_because(
            error,
            "certified trigonometric computation attempted division by an interval containing zero"@,
        ),
{
    let reason = match err {
        TrigError::BudgetExhausted => {
            "certified trigonometric computation exceeded its series or bit-width budget"
        },
        TrigError::Pole => {
            "certified atan2 is undefined at the origin (zero in-plane displacement)"
        },
        TrigError::DivisionByZero => {
            "certified trigonometric computation attempted division by an interval containing zero"
        },
    };
    GeometryError::Uncertified { reason: reason.to_owned() }
}

/// Converts a normalization failure into the construction failure of an
/// analytic primitive: a vector that cannot be trusted as given is a
/// non-finite input, and a zero vector is a degenerate axis.
pub fn normalization_to_construction(err: NormalizationError) -> (error: ConstructionError)
    ensures
        error == match err {
            NormalizationError::ZeroMagnitude => ConstructionError::DegenerateAxis,
            _ => ConstructionError::NonFiniteInput,
        },
{
    match err {
        NormalizationError::NonFinite | NormalizationError::NotNormalized => {
            ConstructionError::NonFiniteInput
        },
        NormalizationError::ZeroMagnitude => ConstructionError::DegenerateAxis,
    }
}

/// The significand of a finite pattern, as an integer.
pub open spec fn significand_of(bits: u64) -> int {
    if exp_field(bits) == 0 {
        frac_field(bits)
    } else {
        frac_field(bits) + two_52()
    }
}

/// The power of two that scales the significand of a finite pattern.
pub open spec fn power_of(bits: u64) -> int {
    if exp_field(bits) == 0 {
        -1074
    } else {
        exp_field(bits) - 1075
    }
}

/// Deterministic pre-allocation cap for the exact rational algebra.
#[derive(Clone, Copy)]
pub struct RationalCap {
    bits: u64,
}

impl RationalCap {
    /// The largest admitted bit width of a numerator or denominator.
    pub closed spec fn spec_bits(self) -> u64 {
        self.bits
    }

    /// Bit-width bounds of decoding a finite pattern as a rational all fit the
    /// cap: both zeros need one bit; otherwise the numerator and denominator
    /// of `significand × 2^power` must fit.
    pub open spec fn decodes(self, value: u64) -> bool {
        if exp_field(value) == 0 && frac_field(value) == 0 {
            1 <= self.spec_bits()
        } else if power_of(value) >= 0 {
            saturating_sum(bit_len(significand_of(value) as nat) as int, power_of(value))
                <= self.spec_bits() && 1 <= self.spec_bits()
        } else {
            bit_len(significand_of(value) as nat) <= self.spec_bits() && -power_of(value) + 1
                <= self.spec_bits()
        }
    }

    /// The cap that a budget gives.
    pub closed spec fn spec_new(budget: CertificationBudget) -> Self {
        RationalCap { bits: budget.spec_rational_bits() as u64 }
    }

    /// Takes the bit-width cap from the budget.
    pub fn new(budget: CertificationBudget) -> (cap: Self)
        ensures
            cap == RationalCap::spec_new(budget),
            cap.spec_bits() == budget.spec_rational_bits() as u64,
    {
        Self { bits: budget.rational_bits() as u64 }
    }

    /// Rejects a bit-width bound that exceeds the cap.
    pub fn within(self, bound: u64) -> (admitted: Result<(), GeometryError>)
        ensures
            admitted is Ok <==> bound <= self.spec_bits(),
            admitted matches Err(e) ==> uncertified_because(
                e,
                "intermediate exact-rational value exceeded the certification bit-width budget"@,
            ),
    {
        if bound > self.bits {
            Err(rational_budget_exhausted())
        } else {
            Ok(())
        }
    }

    /// Preflights decoding a finite pattern into an exact rational.
    pub fn guard_f64_decode(self, value: u64) -> (admitted: Result<(), GeometryError>)
        requires
            is_finite_bits(value),
        ensures
            admitted is Ok <==> self.decodes(value),
            admitted matches Err(e) ==> uncertified_because(
                e,
                "intermediate exact-rational value exceeded the certification bit-width budget"@,
            ),
    {
        let biased_exp = (value / 0x10_0000_0000_0000) % 0x800;
        let mantissa = value % 0x10_0000_0000_0000;
        if biased_exp == 0 && mantissa == 0 {
            return self.within(1);
        }
        let significand: u64 = if biased_exp == 0 {
            mantissa
        } else {
            0x10_0000_0000_0000 + mantissa
        };
        let significand_bits = bit_length(significand);
        if biased_exp >= 1075 {
            let power = biased_exp - 1075;
            match self.within(significand_bits.saturating_add(power)) {
                Ok(()) => {},
                Err(e) => return Err(e),
            }
            self.within(1)
        } else {
            let magnitude: u64 = if biased_exp == 0 {
                1074
            } else {
                1075 - biased_exp
            };
            match self.within(significand_bits) {
                Ok(()) => {},
                Err(e) => return Err(e),
            }
            self.within(magnitude + 1)
        }
    }
}

/// Extra bits a rational-to-binary64 conversion may shift a numerator or
/// denominator by.
pub const RATIONAL_TO_F64_SHIFT_BITS: u64 = 56;

/// `error` is the failure reported for a budget overrun.
pub open spec fn budget_exhausted(error: GeometryError) -> bool {
    uncertified_because(
        error,
        "intermediate exact-rational value exceeded the certification bit-width budget"@,
    )
}

/// The outcome of a preflight: `Ok` exactly when the bound holds, else the
/// budget failure.
pub open spec fn preflight(admitted: Result<(), GeometryError>, fits: bool) -> bool {
    &&& (admitted is Ok <==> fits)
    &&& (admitted matches Err(e) ==> budget_exhausted(e))
}

/// Bit width of the lowest-terms numerator of a rational value.
pub open spec fn value_numer_bits(v: real) -> int {
    bit_len(abs_int(lowest_numer(v))) as int
}

/// Bit width of the lowest-terms denominator of a rational value.
pub open spec fn value_denom_bits(v: real) -> int {
    bit_len(abs_int(lowest_denom(v))) as int
}

/// A well-formed rational's part widths are those of its value.
pub proof fn lemma_bits_of_value(r: ExactRational)
    requires
        r.wf(),
    ensures
        numer_bits(r) == value_numer_bits(r.value()),
        denom_bits(r) == value_denom_bits(r.value()),
{
    lemma_parts_of_value(r);
}

impl RationalCap {
    /// Both parts of `r` fit the cap.
    pub open spec fn fits(self, r: ExactRational) -> bool {
        numer_bits(r) <= self.spec_bits() && denom_bits(r) <= self.spec_bits()
    }

    /// The preflight bounds of a sum or difference fit the cap.
    pub open spec fn addsub_fits(self, a: ExactRational, b: ExactRational) -> bool {
        &&& saturating_sum(
            larger(
                saturating_sum(numer_bits(a), denom_bits(b)),
                saturating_sum(denom_bits(a), numer_bits(b)),
            ),
            1,
        ) <= self.spec_bits()
        &&& saturating_sum(denom_bits(a), denom_bits(b)) <= self.spec_bits()
    }

    /// The preflight bounds of a product fit the cap.
    pub open spec fn mul_fits(self, a: ExactRational, b: ExactRational) -> bool {
        &&& saturating_sum(numer_bits(a), numer_bits(b)) <= self.spec_bits()
        &&& saturating_sum(denom_bits(a), denom_bits(b)) <= self.spec_bits()
    }

    /// The preflight bounds of a quotient fit the cap.
    pub open spec fn div_fits(self, a: ExactRational, b: ExactRational) -> bool {
        &&& saturating_sum(numer_bits(a), denom_bits(b)) <= self.spec_bits()
        &&& saturating_sum(denom_bits(a), numer_bits(b)) <= self.spec_bits()
    }

    /// The lowest-terms parts of the value `v` fit the cap.
    pub open spec fn holds_value(self, v: real) -> bool {
        value_numer_bits(v) <= self.spec_bits() && value_denom_bits(v) <= self.spec_bits()
    }

    /// The preflight bounds of `x ± y` fit the cap.
    pub open spec fn addsub_bounds(self, x: real, y: real) -> bool {
        &&& saturating_sum(
            larger(
                saturating_sum(value_numer_bits(x), value_denom_bits(y)),
                saturating_sum(value_denom_bits(x), value_numer_bits(y)),
            ),
            1,
        ) <= self.spec_bits()
        &&& saturating_sum(value_denom_bits(x), value_denom_bits(y)) <= self.spec_bits()
    }

    /// A certified sum `x + y` succeeds: its preflight bounds and the
    /// reduced result fit the cap.
    pub open spec fn sum_ok(self, x: real, y: real) -> bool {
        self.addsub_bounds(x, y) && self.holds_value(x + y)
    }

    /// A certified difference `x - y` succeeds.
    pub open spec fn difference_ok(self, x: real, y: real) -> bool {
        self.addsub_bounds(x, y) && self.holds_value(x - y)
    }

    /// A certified product `x * y` succeeds.
    pub open spec fn product_ok(self, x: real, y: real) -> bool {
        &&& saturating_sum(value_numer_bits(x), value_numer_bits(y)) <= self.spec_bits()
        &&& saturating_sum(value_denom_bits(x), value_denom_bits(y)) <= self.spec_bits()
        &&& self.holds_value(x * y)
    }

    /// A certified quotient `x / y` succeeds: the divisor is nonzero and the
    /// preflight bounds and reduced result fit the cap.
    pub open spec fn quotient_ok(self, x: real, y: real) -> bool {
        &&& y != 0 as real
        &&& saturating_sum(value_numer_bits(x), value_denom_bits(y)) <= self.spec_bits()
        &&& saturating_sum(value_denom_bits(x), value_numer_bits(y)) <= self.spec_bits()
        &&& self.holds_value(x / y)
    }

    /// Admits an existing rational.
    pub fn admit_rational(self, value: &ExactRational) -> (admitted: Result<(), GeometryError>)
        ensures
            preflight(admitted, self.fits(*value)),
    {
        match self.within(value.numer().bits()) {
            Ok(()) => self.within(value.denom().bits()),
            Err(e) => Err(e),
        }
    }

    /// Admits a rational and returns it.
    pub fn admitted(self, value: ExactRational) -> (admitted: Result<ExactRational, GeometryError>)
        ensures
            admitted is Ok <==> self.fits(value),
            admitted matches Ok(r) ==> r == value,
            admitted matches Err(e) ==> budget_exhausted(e),
    {
        match self.admit_rational(&value) {
            Ok(()) => Ok(value),
            Err(e) => Err(e),
        }
    }

    /// Preflights `lhs ± rhs`.
    pub fn guard_addsub(self, lhs: &ExactRational, rhs: &ExactRational) -> (admitted: Result<
        (),
        GeometryError,
    >)
        ensures
            preflight(admitted, self.addsub_fits(*lhs, *rhs)),
    {
        let (ln, ld) = (lhs.numer().bits(), lhs.denom().bits());
        let (rn, rd) = (rhs.numer().bits(), rhs.denom().bits());
        let first = ln.saturating_add(rd);
        let second = ld.saturating_add(rn);
        let wider = if first >= second {
            first
        } else {
            second
        };
        match self.within(wider.saturating_add(1)) {
            Ok(()) => self.within(ld.saturating_add(rd)),
            Err(e) => Err(e),
        }
    }

    /// Preflights `lhs * rhs`.
    pub fn guard_mul(self, lhs: &ExactRational, rhs: &ExactRational) -> (admitted: Result<
        (),
        GeometryError,
    >)
        ensures
            preflight(admitted, self.mul_fits(*lhs, *rhs)),
    {
        match self.within(lhs.numer().bits().saturating_add(rhs.numer().bits())) {
            Ok(()) => self.within(lhs.denom().bits().saturating_add(rhs.denom().bits())),
            Err(e) => Err(e),
        }
    }

    /// Preflights `lhs / rhs`, rejecting a zero divisor.
    pub fn guard_div(self, lhs: &ExactRational, rhs: &ExactRational) -> (admitted: Result<
        (),
        GeometryError,
    >)
        ensures
            rhs.spec_numer() == 0 ==> (admitted matches Err(e) && uncertified_because(
                e,
                "exact-rational division by zero"@,
            )),
            rhs.spec_numer() != 0 ==> preflight(admitted, self.div_fits(*lhs, *rhs)),
    {
        let zero = ExactInt::from_i64(0);
        let rn = rhs.numer();
        if rn.le(&zero) && zero.le(&rn) {
            return Err(
                GeometryError::Uncertified { reason: "exact-rational division by zero".to_owned() },
            );
        }
        match self.within(lhs.numer().bits().saturating_add(rhs.denom().bits())) {
            Ok(()) => self.within(lhs.denom().bits().saturating_add(rn.bits())),
            Err(e) => Err(e),
        }
    }

    /// Certified sum; the reduced result must fit the cap as well.
    pub fn add(self, lhs: &ExactRational, rhs: &ExactRational) -> (sum: Result<
        ExactRational,
        GeometryError,
    >)
        requires
            lhs.wf(),
            rhs.wf(),
        ensures
            sum is Ok <==> self.sum_ok(lhs.value(), rhs.value()),
            sum matches Ok(s) ==> s.wf() && s.value() == lhs.value() + rhs.value() && self.fits(s),
            sum matches Err(e) ==> budget_exhausted(e),
    {
        proof {
            lemma_bits_of_value(*lhs);
            lemma_bits_of_value(*rhs);
        }
        match self.guard_addsub(lhs, rhs) {
            Ok(()) => {},
            Err(e) => return Err(e),
        }
        let s = lhs.add(rhs);
        proof {
            lemma_bits_of_value(*lhs);
            lemma_bits_of_value(*rhs);
            lemma_bits_of_value(s);
        }
        self.admitted(s)
    }

    /// Certified difference; the reduced result must fit the cap as well.
    pub fn sub(self, lhs: &ExactRational, rhs: &ExactRational) -> (difference: Result<
        ExactRational,
        GeometryError,
    >)
        requires
            lhs.wf(),
            rhs.wf(),
        ensures
            difference matches Ok(d) ==> d.wf() && d.value() == lhs.value() - rhs.value()
                && self.fits(d),
            difference is Ok <==> self.difference_ok(lhs.value(), rhs.value()),
            difference matches Err(e) ==> budget_exhausted(e),
    {
        proof {
            lemma_bits_of_value(*lhs);
            lemma_bits_of_value(*rhs);
        }
        match self.guard_addsub(lhs, rhs) {
            Ok(()) => {},
            Err(e) => return Err(e),
        }
        let d = lhs.sub(rhs);
        proof {
            lemma_bits_of_value(*lhs);
            lemma_bits_of_value(*rhs);
            lemma_bits_of_value(d);
        }
        self.admitted(d)
    }

    /// Certified product; the reduced result must fit the cap as well.
    pub fn mul(self, lhs: &ExactRational, rhs: &ExactRational) -> (product: Result<
        ExactRational,
        GeometryError,
    >)
        requires
            lhs.wf(),
            rhs.wf(),
        ensures
            product matches Ok(p) ==> p.wf() && p.value() == lhs.value() * rhs.value()
                && self.fits(p),
            product is Ok <==> self.product_ok(lhs.value(), rhs.value()),
            product matches Err(e) ==> budget_exhausted(e),
    {
        proof {
            lemma_bits_of_value(*lhs);
            lemma_bits_of_value(*rhs);
        }
        match self.guard_mul(lhs, rhs) {
            Ok(()) => {},
            Err(e) => return Err(e),
        }
        let p = lhs.mul(rhs);
        proof {
            lemma_bits_of_value(*lhs);
            lemma_bits_of_value(*rhs);
            lemma_bits_of_value(p);
        }
        self.admitted(p)
    }

    /// Certified quotient; the reduced result must fit the cap as well.
    pub fn div(self, lhs: &ExactRational, rhs: &ExactRational) -> (quotient: Result<
        ExactRational,
        GeometryError,
    >)
        requires
            lhs.wf(),
            rhs.wf(),
        ensures
            quotient matches Ok(q) ==> q.wf() && q.value() == lhs.value() / rhs.value()
                && self.fits(q),
            rhs.value() == 0 as real ==> (quotient matches Err(e) && uncertified_because(
                e,
                "exact-rational division by zero"@,
            )),
            quotient is Ok <==> self.quotient_ok(lhs.value(), rhs.value()),
            rhs.value() != 0 as real ==> (quotient matches Err(e) ==> budget_exhausted(e)),
    {
        proof {
            crate::exact::lemma_zero_value(*rhs);
            lemma_bits_of_value(*lhs);
            lemma_bits_of_value(*rhs);
        }
        match self.guard_div(lhs, rhs) {
            Ok(()) => {},
            Err(e) => return Err(e),
        }
        let q = lhs.div(rhs);
        proof {
            lemma_bits_of_value(*lhs);
            lemma_bits_of_value(*rhs);
            lemma_bits_of_value(q);
        }
        self.admitted(q)
    }

    /// Certified negation.
    pub fn neg(self, value: &ExactRational) -> (negated: Result<ExactRational, GeometryError>)
        requires
            value.wf(),
        ensures
            negated is Ok <==> self.fits(*value),
            negated matches Ok(n) ==> n.wf() && n.value() == -value.value(),
            negated matches Err(e) ==> budget_exhausted(e),
    {
        match self.admit_rational(value) {
            Ok(()) => {
                let n = value.neg();
                proof {
                    crate::exact::lemma_negation_lowest_terms(*value);
                }
                Ok(n)
            },
            Err(e) => Err(e),
        }
    }

    /// Certified rational from a machine integer.
    pub fn integer(self, value: i64) -> (exact: Result<ExactRational, GeometryError>)
        ensures
            exact is Ok <==> bit_len(abs_int(value as int)) <= self.spec_bits() && 1
                <= self.spec_bits(),
            exact matches Ok(r) ==> r.wf() && r.spec_numer() == value as int && r.spec_denom() == 1,
            exact matches Err(e) ==> budget_exhausted(e),
    {
        let magnitude: u64 = if value < 0 {
            if value == i64::MIN {
                0x8000_0000_0000_0000
            } else {
                (-value) as u64
            }
        } else {
            value as u64
        };
        match self.within(bit_length(magnitude)) {
            Ok(()) => {},
            Err(e) => return Err(e),
        }
        match self.within(1) {
            Ok(()) => Ok(ExactRational::from_integer(&ExactInt::from_i64(value))),
            Err(e) => Err(e),
        }
    }

    /// Decodes a finite pattern exactly after preflighting its size.
    pub fn decode_f64(self, value: u64) -> (exact: Result<ExactRational, GeometryError>)
        requires
            is_finite_bits(value),
        ensures
            exact is Ok <==> self.decodes(value),
            exact matches Ok(r) ==> r.wf() && r.value() == f64_value(value),
            exact matches Err(e) ==> budget_exhausted(e),
    {
        match self.guard_f64_decode(value) {
            Ok(()) => Ok(f64_to_rat(value)),
            Err(e) => Err(e),
        }
    }

    /// Preflights converting a rational to binary64, which may shift the
    /// wider of its parts by up to [`RATIONAL_TO_F64_SHIFT_BITS`] bits.
    pub fn guard_to_f64(self, value: &ExactRational) -> (admitted: Result<(), GeometryError>)
        ensures
            preflight(
                admitted,
                saturating_sum(larger(numer_bits(*value), denom_bits(*value)), 56)
                    <= self.spec_bits(),
            ),
    {
        let n = value.numer().bits();
        let d = value.denom().bits();
        let source_bits = if n >= d {
            n
        } else {
            d
        };
        self.within(source_bits.saturating_add(RATIONAL_TO_F64_SHIFT_BITS))
    }
}

/// Rejects a rational whose numerator or denominator exceeds the budget.
pub fn check_rational_budget(budget: CertificationBudget, r: &ExactRational) -> (admitted: Result<
    (),
    GeometryError,
>)
    ensures
        preflight(
            admitted,
            numer_bits(*r) <= budget.spec_rational_bits() && denom_bits(*r)
                <= budget.spec_rational_bits(),
        ),
        admitted is Ok <==> RationalCap::spec_new(budget).fits(*r),
{
    RationalCap::new(budget).admit_rational(r)
}

/// Whether `t` is finite and inside the range's declared bounds, both
/// inclusive. (A full-period upper endpoint is inside, as an alias of the
/// lower seam.)
pub fn in_range(t: u64, range: ParameterRange) -> (inside: bool)
    ensures
        inside == (is_finite_bits(t) && (range.spec_lower() matches Some(lo) ==> f64_units(lo)
            <= f64_units(t)) && (range.spec_upper() matches Some(hi) ==> f64_units(t) <= f64_units(
            hi,
        ))),
{
    proof {
        use_type_invariant(&range);
    }
    if !is_finite(t) {
        return false;
    }
    let lo_ok = match range.lower() {
        Some(lo) => le(lo, t),
        None => true,
    };
    let hi_ok = match range.upper() {
        Some(hi) => le(t, hi),
        None => true,
    };
    lo_ok && hi_ok
}

/// Maps the upper endpoint of a full-period range to its lower seam: when
/// `t` is the upper bound's pattern and the span `upper - lower`, rounded to
/// binary64, is the period, the lower bound; otherwise `t` itself.
pub fn canonicalize_periodic_endpoint(t: u64, range: ParameterRange) -> (canonical: u64)
    ensures
        canonical == match (range.spec_lower(), range.spec_upper(), range.spec_period()) {
            (Some(l), Some(u), Some(p)) => if t == u && rounds_to(val(u) - val(l), p) {
                l
            } else {
                t
            },
            _ => t,
        },
{
    proof {
        use_type_invariant(&range);
    }
    match (range.lower(), range.upper(), range.period()) {
        (Some(lower), Some(upper), Some(period)) => {
            if t == upper && !span_falls_short(lower, upper, period) {
                lower
            } else {
                t
            }
        },
        _ => t,
    }
}

/// The binary64 comparison `bound > limit` against a finite `limit`: false
/// for a NaN `bound`, true for `+inf` and false for `-inf`.
pub open spec fn exceeds(bound: u64, limit: u64) -> bool {
    if is_nan_bits(bound) {
        false
    } else if !is_finite_bits(bound) {
        !sign_negative(bound)
    } else {
        f64_units(bound) > f64_units(limit)
    }
}

/// `bound > limit` in binary64 for a finite `limit`.
pub(crate) fn exceeds_limit(bound: u64, limit: u64) -> (greater: bool)
    requires
        is_finite_bits(limit),
    ensures
        greater == exceeds(bound, limit),
{
    if is_nan(bound) {
        false
    } else if !is_finite(bound) {
        bound < 0x8000_0000_0000_0000
    } else {
        lt(limit, bound)
    }
}

/// Checks a certified angular error bound, in radians, against the angular
/// tolerance.
pub fn check_angular_tolerance(tolerance: &ToleranceContext, bound_radians: u64) -> (checked: Result<
    (),
    GeometryError,
>)
    ensures
        checked is Ok <==> !exceeds(bound_radians, tolerance.spec_angular()),
        checked matches Err(e) ==> uncertified_because(
            e,
            "certified angular parameter error bound exceeds angular tolerance"@,
        ),
{
    proof {
        use_type_invariant(tolerance);
    }
    if exceeds_limit(bound_radians, tolerance.angular()) {
        return Err(GeometryError::Uncertified {
            reason: "certified angular parameter error bound exceeds angular tolerance".to_owned(),
        });
    }
    Ok(())
}

/// Checks a certified parameter-space error bound against the parametric
/// tolerance.
pub fn check_parametric_tolerance(tolerance: &ToleranceContext, bound: u64) -> (checked: Result<
    (),
    GeometryError,
>)
    ensures
        checked is Ok <==> !exceeds(bound, tolerance.spec_parametric()),
        checked matches Err(e) ==> uncertified_because(
            e,
            "certified parameter-space error bound exceeds parametric tolerance"@,
        ),
{
    proof {
        use_type_invariant(tolerance);
    }
    if exceeds_limit(bound, tolerance.parametric()) {
        return Err(GeometryError::Uncertified {
            reason: "certified parameter-space error bound exceeds parametric tolerance".to_owned(),
        });
    }
    Ok(())
}

} // verus!
