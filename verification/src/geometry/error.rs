//! Structured analytic geometry failures.
use vstd::prelude::*;

verus! {

/// A recoverable geometry evaluation or projection failure.
#[derive(Clone, Debug, PartialEq, Eq)]
#[non_exhaustive]
pub enum GeometryError {
    /// An input parameter was NaN or infinite.
    NonFiniteParameter,
    /// A parameter was outside the declared domain.
    OutsideDomain,
    /// The requested derivative or inverse mapping is singular.
    Singular,
    /// The operation is not supported by this geometry family.
    Unsupported {
        /// Stable operation identifier.
        operation: String,
    },
    /// A numerical method could not certify a result.
    Uncertified {
        /// Stable reason suitable for diagnostics and tests.
        reason: String,
    },
}

/// A failure returned when constructing an analytic curve or surface.
#[derive(Clone, Copy, Debug, PartialEq, Eq, Structural)]
#[non_exhaustive]
pub enum ConstructionError {
    /// An input coordinate or parameter contained NaN or infinity.
    NonFiniteInput,
    /// A direction, axis, or normal vector has zero length and cannot be
    /// normalized.
    DegenerateAxis,
    /// A scalar parameter that must be strictly positive (radius, etc.) was
    /// zero or negative.
    NotPositive,
    /// A cone half-angle was outside the open interval `(0, π/2)`.
    InvalidHalfAngle,
    /// Two provided axes are linearly dependent and cannot form an independent
    /// frame.
    DependentAxes,
}

/// A failure from applying a `Transform3` to an analytic primitive.
#[derive(Clone, Copy, Debug, PartialEq, Eq, Structural)]
#[non_exhaustive]
pub enum TransformError {
    /// Applying the transform produced a NaN or infinite coordinate.
    NonFiniteResult,
    /// The transform's linear part is singular.
    SingularTransform,
    /// The primitive requires a similarity transform (uniform scale, no
    /// shear, no reflection), and the supplied transform is not one.
    NotSimilarity,
    /// The transform is an exact similarity, but its uniform scale or a
    /// resulting scaled metric parameter is not exactly representable.
    UnrepresentableScale,
    /// An exact transformed point, vector, or affine basis component is not
    /// representable.
    UnrepresentableResult,
    /// The transformed primitive is geometrically degenerate (e.g. its
    /// spanning vectors became dependent).
    DegenerateResult,
}

/// Error from the certified rational-interval transcendental backend.
#[derive(Clone, Copy, Debug, PartialEq, Eq, Structural)]
pub enum TrigError {
    /// Series or computation budget was exhausted before convergence.
    BudgetExhausted,
    /// The input contains a pole or undefined value (e.g., `atan2(0, 0)`).
    Pole,
    /// Division by an interval containing zero.
    DivisionByZero,
}

impl ConstructionError {
    /// The human-readable explanation of the error.
    pub fn message(&self) -> (message: &'static str)
        ensures
            message@ == match *self {
            ConstructionError::NonFiniteInput => "analytic geometry input contains NaN or infinity"@,
            ConstructionError::DegenerateAxis => "direction, axis, or normal vector has zero length and cannot be normalized"@,
            ConstructionError::NotPositive => "scalar geometry parameter (e.g. radius) must be strictly positive"@,
            ConstructionError::InvalidHalfAngle => "cone half-angle must be strictly between 0 and pi/2"@,
            ConstructionError::DependentAxes => "two provided axes are linearly dependent and cannot form an independent frame"@,
        },
    {
        match self {
            ConstructionError::NonFiniteInput => "analytic geometry input contains NaN or infinity",
            ConstructionError::DegenerateAxis => {
                "direction, axis, or normal vector has zero length and cannot be normalized"
            },
            ConstructionError::NotPositive => {
                "scalar geometry parameter (e.g. radius) must be strictly positive"
            },
            ConstructionError::InvalidHalfAngle => {
                "cone half-angle must be strictly between 0 and pi/2"
            },
            ConstructionError::DependentAxes => {
                "two provided axes are linearly dependent and cannot form an independent frame"
            },
        }
    }
}

} // verus!
