//! Explicit curve and surface parameter domains.
use crate::bounds::val;
use crate::exact::{exact_units, ExactInt};
use crate::ieee::{
    exp_field, f64_units, frac_field, is_finite, is_finite_bits, is_positive, le, magnitude,
    sign_negative,
};
use vstd::arithmetic::power2::{lemma2_to64, lemma2_to64_rest, lemma_pow2_adds, pow2};
use vstd::prelude::*;

verus! {

/// Error returned for an invalid parameter range.
#[derive(Clone, Copy, Debug, PartialEq, Eq, Structural)]
pub struct ParameterRangeError;

impl ParameterRangeError {
    /// The human-readable explanation of the error.
    pub fn message(&self) -> (message: &'static str)
        ensures
            message@ == "parameter bounds must be finite and increasing, and periods must be positive"@,
    {
        "parameter bounds must be finite and increasing, and periods must be positive"
    }
}

/// A finite directed trimming interval on a canonical curve.
#[derive(Clone, Copy, Debug)]
pub struct ParameterInterval {
    start: u64,
    end: u64,
}

impl ParameterInterval {
    /// Both endpoints are finite and `start < end`.
    #[verifier::type_invariant]
    pub open spec fn is_valid(self) -> bool {
        &&& is_finite_bits(self.spec_start())
        &&& is_finite_bits(self.spec_end())
        &&& val(self.spec_start()) < val(self.spec_end())
    }

    /// The parameter of the start vertex.
    pub closed spec fn spec_start(self) -> u64 {
        self.start
    }

    /// The parameter of the end vertex.
    pub closed spec fn spec_end(self) -> u64 {
        self.end
    }

    /// Creates a finite, increasing trimming interval.
    ///
    /// Returns [`ParameterRangeError`] when either endpoint is non-finite or
    /// `start >= end`.
    pub fn try_new(start: u64, end: u64) -> (interval: Result<Self, ParameterRangeError>)
        ensures
            interval is Ok <==> is_finite_bits(start) && is_finite_bits(end) && val(start) < val(
                end,
            ),
            interval matches Ok(i) ==> i.spec_start() == start && i.spec_end() == end,
    {
        if !is_finite(start) || !is_finite(end) || le(end, start) {
            return Err(ParameterRangeError);
        }
        Ok(Self { start, end })
    }

    /// Returns the parameter mapped to the edge's start vertex.
    pub fn start(self) -> (start: u64)
        ensures
            start == self.spec_start(),
    {
        self.start
    }

    /// Returns the parameter mapped to the edge's end vertex.
    pub fn end(self) -> (end: u64)
        ensures
            end == self.spec_end(),
    {
        self.end
    }
}

/// Whether a non-negative exact value, in units of `2^-1074`, rounds to
/// nearest binary64 (ties to even) strictly above the positive finite
/// `period`: it lies above the midpoint between `period` and its binary64
/// successor, or on that midpoint when the successor's pattern is even.
pub open spec fn rounds_above(exact: int, period: u64) -> bool {
    let low = f64_units(period);
    let high = f64_units((period + 1) as u64);
    2 * exact > low + high || (2 * exact == low + high && (period + 1) % 2 == 0)
}

/// The components of a valid parameter range: finite bounds with
/// `lower < upper`, and a positive finite period only on a bounded range
/// whose span, rounded to binary64, does not exceed it.
pub open spec fn range_valid(lower: Option<u64>, upper: Option<u64>, period: Option<u64>) -> bool {
    &&& (lower matches Some(l) ==> is_finite_bits(l))
    &&& (upper matches Some(u) ==> is_finite_bits(u))
    &&& (period matches Some(p) ==> is_finite_bits(p) && val(p) > 0)
    &&& (period is Some ==> lower is Some && upper is Some)
    &&& (lower matches Some(l) ==> upper matches Some(u) ==> val(l) < val(u))
    &&& (lower matches Some(l) ==> upper matches Some(u) ==> period matches Some(p) ==> !rounds_above(
        val(u) - val(l),
        p,
    ))
}

/// The largest finite positive pattern lies below the positive infinity
/// pattern, whose magnitude formula gives `2^1024` in units of `2^-1074`.
proof fn lemma_successor_of_positive(period: u64)
    requires
        is_finite_bits(period),
        f64_units(period) > 0,
    ensures
        period + 1 <= 0x7ff0_0000_0000_0000,
        period + 1 < 0x7ff0_0000_0000_0000 ==> is_finite_bits((period + 1) as u64),
        period + 1 == 0x7ff0_0000_0000_0000 ==> f64_units((period + 1) as u64) == pow2(2098),
{
    lemma2_to64();
    assert(period < 0x8000_0000_0000_0000);
    assert(exp_field(period) == period as int / 0x10_0000_0000_0000);
    if period + 1 == 0x7ff0_0000_0000_0000 {
        let next = (period + 1) as u64;
        assert(exp_field(next) == 0x7ff);
        assert(frac_field(next) == 0);
        lemma_pow2_adds(52, 2046);
        lemma2_to64_rest();
        assert(pow2(52) == 0x10_0000_0000_0000);
        assert(magnitude(next) == pow2(52) * pow2(2046));
        assert(!sign_negative(next));
    }
}

/// Whether the binary64 difference `upper - lower` exceeds `period`.
fn span_exceeds(lower: u64, upper: u64, period: u64) -> (exceeds: bool)
    requires
        is_finite_bits(lower),
        is_finite_bits(upper),
        is_finite_bits(period),
        val(period) > 0,
    ensures
        exceeds == rounds_above(val(upper) - val(lower), period),
{
    proof {
        lemma_successor_of_positive(period);
    }
    let span = exact_units(upper).sub(&exact_units(lower));
    let twice = span.add(&span);
    let low = exact_units(period);
    let high = if period + 1 == 0x7ff0_0000_0000_0000 {
        ExactInt::from_i64(1).shl(2098)
    } else {
        exact_units(period + 1)
    };
    let midpoint = low.add(&high);
    if midpoint.le(&twice) {
        if twice.le(&midpoint) {
            (period + 1) % 2 == 0
        } else {
            true
        }
    } else {
        false
    }
}

/// Whether a non-negative exact value, in units of `2^-1074`, rounds to
/// nearest binary64 (ties to even) strictly below the positive finite
/// `period`: it lies below the midpoint between `period` and its binary64
/// predecessor, or on that midpoint when the predecessor's pattern is even.
/// A value that rounds neither above nor below `period` rounds to it.
pub open spec fn rounds_below(exact: int, period: u64) -> bool {
    let low = f64_units(period);
    let below = f64_units((period - 1) as u64);
    2 * exact < low + below || (2 * exact == low + below && (period - 1) % 2 == 0)
}

/// A non-negative exact value rounds to nearest binary64 exactly at the
/// positive finite `period`.
pub open spec fn rounds_to(exact: int, period: u64) -> bool {
    !rounds_above(exact, period) && !rounds_below(exact, period)
}

/// Whether the binary64 difference `upper - lower` falls below `period`.
pub(crate) fn span_falls_short(lower: u64, upper: u64, period: u64) -> (short: bool)
    requires
        is_finite_bits(lower),
        is_finite_bits(upper),
        is_finite_bits(period),
        val(period) > 0,
    ensures
        short == rounds_below(val(upper) - val(lower), period),
{
    proof {
        lemma_predecessor_of_positive(period);
    }
    let span = exact_units(upper).sub(&exact_units(lower));
    let twice = span.add(&span);
    let midpoint = exact_units(period).add(&exact_units(period - 1));
    if twice.le(&midpoint) {
        if midpoint.le(&twice) {
            (period - 1) % 2 == 0
        } else {
            true
        }
    } else {
        false
    }
}

/// The predecessor pattern of a positive finite pattern is finite.
proof fn lemma_predecessor_of_positive(period: u64)
    requires
        is_finite_bits(period),
        f64_units(period) > 0,
    ensures
        period >= 1,
        is_finite_bits((period - 1) as u64),
{
    lemma2_to64();
    assert(period != 0) by {
        if period == 0 {
            assert(exp_field(0) == 0 && frac_field(0) == 0);
        }
    }
    assert(period < 0x8000_0000_0000_0000);
    assert(exp_field((period - 1) as u64) <= exp_field(period));
}

/// Optional lower and upper parameter bounds, with an optional period for a
/// periodic parameter.
#[derive(Clone, Copy, Debug)]
pub struct ParameterRange {
    lower: Option<u64>,
    upper: Option<u64>,
    period: Option<u64>,
}

impl ParameterRange {
    /// Every stored range is valid.
    #[verifier::type_invariant]
    pub open spec fn is_valid(self) -> bool {
        range_valid(self.spec_lower(), self.spec_upper(), self.spec_period())
    }

    /// The lower bound, if any.
    pub closed spec fn spec_lower(self) -> Option<u64> {
        self.lower
    }

    /// The upper bound, if any.
    pub closed spec fn spec_upper(self) -> Option<u64> {
        self.upper
    }

    /// The period, if the parameter is periodic.
    pub closed spec fn spec_period(self) -> Option<u64> {
        self.period
    }

    /// Creates a validated parameter range.
    ///
    /// Returns [`ParameterRangeError`] for a non-finite bound, a non-finite
    /// or non-positive period, a period on an unbounded range, `lower >=
    /// upper`, or a span `upper - lower` (rounded to binary64) above the
    /// period.
    pub fn try_new(lower: Option<u64>, upper: Option<u64>, period: Option<u64>) -> (range: Result<
        Self,
        ParameterRangeError,
    >)
        ensures
            range is Ok <==> range_valid(lower, upper, period),
            range matches Ok(r) ==> r.spec_lower() == lower && r.spec_upper() == upper
                && r.spec_period() == period,
    {
        if let Some(l) = lower {
            if !is_finite(l) {
                return Err(ParameterRangeError);
            }
        }
        if let Some(u) = upper {
            if !is_finite(u) {
                return Err(ParameterRangeError);
            }
        }
        if let Some(p) = period {
            if !is_finite(p) || !is_positive(p) {
                return Err(ParameterRangeError);
            }
            if lower.is_none() || upper.is_none() {
                return Err(ParameterRangeError);
            }
        }
        if let Some(l) = lower {
            if let Some(u) = upper {
                if le(u, l) {
                    return Err(ParameterRangeError);
                }
                if let Some(p) = period {
                    if span_exceeds(l, u, p) {
                        return Err(ParameterRangeError);
                    }
                }
            }
        }
        Ok(Self { lower, upper, period })
    }

    /// Returns the optional lower parameter bound.
    pub fn lower(self) -> (lower: Option<u64>)
        ensures
            lower == self.spec_lower(),
    {
        self.lower
    }

    /// Returns the optional upper parameter bound.
    pub fn upper(self) -> (upper: Option<u64>)
        ensures
            upper == self.spec_upper(),
    {
        self.upper
    }

    /// Returns the period for a periodic parameter.
    pub fn period(self) -> (period: Option<u64>)
        ensures
            period == self.spec_period(),
    {
        self.period
    }
}

/// The independent `u` and `v` parameter ranges of a surface.
#[derive(Clone, Copy, Debug)]
pub struct SurfaceDomain {
    u: ParameterRange,
    v: ParameterRange,
}

impl SurfaceDomain {
    /// The `u` range.
    pub closed spec fn spec_u(self) -> ParameterRange {
        self.u
    }

    /// The `v` range.
    pub closed spec fn spec_v(self) -> ParameterRange {
        self.v
    }

    /// Creates a surface domain.
    pub fn new(u: ParameterRange, v: ParameterRange) -> (domain: Self)
        ensures
            domain.spec_u() == u,
            domain.spec_v() == v,
    {
        Self { u, v }
    }

    /// Returns the `u` range.
    pub fn u(self) -> (u: ParameterRange)
        ensures
            u == self.spec_u(),
    {
        self.u
    }

    /// Returns the `v` range.
    pub fn v(self) -> (v: ParameterRange)
        ensures
            v == self.spec_v(),
    {
        self.v
    }
}

} // verus!
