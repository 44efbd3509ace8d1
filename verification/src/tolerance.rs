//! Explicit, scale-aware comparison tolerances.
use crate::ieee::{f64_units, is_finite, is_finite_bits, is_negative, is_positive};
use vstd::prelude::*;

verus! {

/// Invalid tolerance input.
#[derive(Clone, Copy, Debug, PartialEq, Eq, Structural)]
pub enum ToleranceError {
    /// A tolerance component was NaN or infinite.
    NonFinite,
    /// An absolute, angular, or parametric tolerance was not positive.
    NotPositive,
    /// A relative tolerance was negative.
    NegativeRelative,
    /// A scale supplied for an effective tolerance was invalid.
    InvalidScale,
    /// A tolerance scaled by a comparison length is not representable.
    Overflow,
}

impl ToleranceError {
    /// The human-readable explanation of the error.
    pub fn message(&self) -> (message: &'static str)
        ensures
            message@ == match *self {
            ToleranceError::NonFinite => "tolerance components must be finite"@,
            ToleranceError::NotPositive => "absolute length, angular, and parametric tolerances must be positive"@,
            ToleranceError::NegativeRelative => "relative length tolerance must not be negative"@,
            ToleranceError::InvalidScale => "comparison scale must be finite and non-negative"@,
            ToleranceError::Overflow => "tolerance scaled by the comparison length overflowed"@,
        },
    {
        match self {
            ToleranceError::NonFinite => "tolerance components must be finite",
            ToleranceError::NotPositive => {
                "absolute length, angular, and parametric tolerances must be positive"
            },
            ToleranceError::NegativeRelative => "relative length tolerance must not be negative",
            ToleranceError::InvalidScale => "comparison scale must be finite and non-negative",
            ToleranceError::Overflow => "tolerance scaled by the comparison length overflowed",
        }
    }
}

/// A positive finite model-space tolerance in metres.
#[derive(Clone, Copy, Debug)]
pub struct LengthTolerance(u64);

impl LengthTolerance {
    /// The stored tolerance is finite and positive.
    #[verifier::type_invariant]
    pub open spec fn is_valid(self) -> bool {
        is_finite_bits(self.spec_get()) && f64_units(self.spec_get()) > 0
    }

    /// The tolerance pattern.
    pub closed spec fn spec_get(self) -> u64 {
        self.0
    }

    /// Creates a certified entity tolerance.
    ///
    /// Returns [`ToleranceError`] unless `value` is positive and finite.
    pub fn try_new(value: u64) -> (tolerance: Result<Self, ToleranceError>)
        ensures
            !is_finite_bits(value) ==> tolerance == Err::<Self, _>(ToleranceError::NonFinite),
            is_finite_bits(value) && f64_units(value) <= 0 ==> tolerance == Err::<Self, _>(
                ToleranceError::NotPositive,
            ),
            tolerance is Ok <==> is_finite_bits(value) && f64_units(value) > 0,
            tolerance matches Ok(t) ==> t.spec_get() == value,
    {
        if !is_finite(value) {
            return Err(ToleranceError::NonFinite);
        }
        if !is_positive(value) {
            return Err(ToleranceError::NotPositive);
        }
        Ok(Self(value))
    }

    /// Returns the tolerance in model-space metres.
    pub fn get(self) -> (value: u64)
        ensures
            value == self.spec_get(),
    {
        self.0
    }
}

/// The conditions under which four tolerance components form a context.
pub open spec fn tolerance_components_valid(
    absolute_length: u64,
    relative_length: u64,
    angular: u64,
    parametric: u64,
) -> bool {
    &&& is_finite_bits(absolute_length)
    &&& is_finite_bits(relative_length)
    &&& is_finite_bits(angular)
    &&& is_finite_bits(parametric)
    &&& f64_units(absolute_length) > 0
    &&& f64_units(angular) > 0
    &&& f64_units(parametric) > 0
    &&& f64_units(relative_length) >= 0
}

/// All tolerances required by a geometry operation.
///
/// There is deliberately no `Default` implementation. A document, import, or
/// caller must choose a context explicitly and pass it through every
/// comparison-based operation.
#[derive(Clone, Copy, Debug, PartialEq, Eq, Structural)]
pub struct ToleranceContext {
    absolute_length: u64,
    relative_length: u64,
    angular: u64,
    parametric: u64,
}

impl ToleranceContext {
    /// Every stored context is valid.
    #[verifier::type_invariant]
    pub open spec fn is_valid(self) -> bool {
        tolerance_components_valid(
            self.spec_absolute_length(),
            self.spec_relative_length(),
            self.spec_angular(),
            self.spec_parametric(),
        )
    }

    /// The absolute length tolerance pattern.
    pub closed spec fn spec_absolute_length(self) -> u64 {
        self.absolute_length
    }

    /// The relative length tolerance pattern.
    pub closed spec fn spec_relative_length(self) -> u64 {
        self.relative_length
    }

    /// The angular tolerance pattern.
    pub closed spec fn spec_angular(self) -> u64 {
        self.angular
    }

    /// The parametric tolerance pattern.
    pub closed spec fn spec_parametric(self) -> u64 {
        self.parametric
    }

    /// Creates a validated tolerance context.
    ///
    /// Returns [`ToleranceError`] for non-finite components, non-positive
    /// absolute/angular/parametric tolerances, or a negative relative
    /// tolerance, checked in that order.
    pub fn try_new(absolute_length: u64, relative_length: u64, angular: u64, parametric: u64) -> (context: Result<Self, ToleranceError>)
        ensures
            context is Ok <==> tolerance_components_valid(
                absolute_length,
                relative_length,
                angular,
                parametric,
            ),
            context matches Ok(c) ==> c.spec_absolute_length() == absolute_length
                && c.spec_relative_length() == relative_length && c.spec_angular() == angular
                && c.spec_parametric() == parametric,
            context matches Err(e) ==> e == if !(is_finite_bits(absolute_length) && is_finite_bits(
                relative_length,
            ) && is_finite_bits(angular) && is_finite_bits(parametric)) {
                ToleranceError::NonFinite
            } else if f64_units(absolute_length) <= 0 || f64_units(angular) <= 0 || f64_units(
                parametric,
            ) <= 0 {
                ToleranceError::NotPositive
            } else {
                ToleranceError::NegativeRelative
            },
    {
        if !is_finite(absolute_length) || !is_finite(relative_length) || !is_finite(angular)
            || !is_finite(parametric) {
            return Err(ToleranceError::NonFinite);
        }
        if !is_positive(absolute_length) || !is_positive(angular) || !is_positive(parametric) {
            return Err(ToleranceError::NotPositive);
        }
        if is_negative(relative_length) {
            return Err(ToleranceError::NegativeRelative);
        }
        Ok(Self { absolute_length, relative_length, angular, parametric })
    }

    /// Returns the absolute length tolerance in model-space metres.
    pub fn absolute_length(self) -> (value: u64)
        ensures
            value == self.spec_absolute_length(),
    {
        self.absolute_length
    }

    /// Returns the dimensionless relative length tolerance.
    pub fn relative_length(self) -> (value: u64)
        ensures
            value == self.spec_relative_length(),
    {
        self.relative_length
    }

    /// Returns the angular tolerance in radians.
    pub fn angular(self) -> (value: u64)
        ensures
            value == self.spec_angular(),
    {
        self.angular
    }

    /// Returns the tolerance used in curve and surface parameter spaces.
    pub fn parametric(self) -> (value: u64)
        ensures
            value == self.spec_parametric(),
    {
        self.parametric
    }
}

} // verus!
