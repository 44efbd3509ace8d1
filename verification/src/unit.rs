//! Failures of unit-vector normalization.
use vstd::prelude::*;

verus! {

/// Error returned when a vector cannot be normalized.
#[derive(Clone, Copy, Debug, PartialEq, Eq, Structural)]
pub enum NormalizationError {
    /// One or more components are not finite.
    NonFinite,
    /// The vector magnitude is exactly zero.
    ZeroMagnitude,
    /// The provided values do not form a unit vector: the magnitude deviated
    /// from 1.0 by more than four binary64 epsilons.
    NotNormalized,
}

impl NormalizationError {
    /// The human-readable explanation of the error.
    pub fn message(&self) -> (message: &'static str)
        ensures
            message@ == match *self {
            NormalizationError::NonFinite => "unit-vector components must be finite"@,
            NormalizationError::ZeroMagnitude => "cannot normalize a zero-length vector"@,
            NormalizationError::NotNormalized => "magnitude deviates from 1.0 by more than 4\u{00d7}f64::EPSILON; use try_normalize to normalize an arbitrary vector"@,
        },
    {
        match self {
            NormalizationError::NonFinite => "unit-vector components must be finite",
            NormalizationError::ZeroMagnitude => "cannot normalize a zero-length vector",
            NormalizationError::NotNormalized => {
                "magnitude deviates from 1.0 by more than 4\u{00d7}f64::EPSILON; use try_normalize to normalize an arbitrary vector"
            },
        }
    }
}

} // verus!
