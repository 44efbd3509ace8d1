//! Evaluated points, derivatives, inverse mappings, and the contexts that
//! bound them.
//!
//! Scalars are binary64 bit patterns (see [`crate::ieee`]).
use crate::bounds::val;
use crate::ieee::{f64_units, is_finite, is_finite_bits, is_negative};
use crate::math::{Point2, Point3, Vector2, Vector3};
use crate::tolerance::ToleranceContext;
use vstd::prelude::*;

verus! {

/// The pattern of `f64::MAX`, the largest finite value.
pub const F64_MAX_BITS: u64 = 0x7fef_ffff_ffff_ffff;

/// Error returned for an invalid projection parameter or error bound.
#[derive(Clone, Copy, Debug, PartialEq, Eq, Structural)]
pub struct ProjectionValueError;

impl ProjectionValueError {
    /// The human-readable explanation of the error.
    pub fn message(&self) -> (message: &'static str)
        ensures
            message@ == "numeric value violates a required finiteness, sign, or nonzero rule"@,
    {
        "numeric value violates a required finiteness, sign, or nonzero rule"
    }
}

/// A finite value that is not negative.
pub open spec fn finite_non_negative(bits: u64) -> bool {
    is_finite_bits(bits) && val(bits) >= 0
}

/// Checks that a value is finite and not negative.
fn check_finite_non_negative(bits: u64) -> (accepted: bool)
    ensures
        accepted == finite_non_negative(bits),
{
    is_finite(bits) && !is_negative(bits)
}

/// A non-negative certified upper bound on a periodic (angular) parameter
/// error, in radians.
///
/// A bound of `δ` means the true nearest parameter is within `δ` radians
/// of the reported parameter in the periodic sense.
#[derive(Clone, Copy, Debug)]
pub struct AngularParameterBound(u64);

impl AngularParameterBound {
    /// Every stored value satisfies the constructor's rule.
    #[verifier::type_invariant]
    pub open spec fn is_valid(self) -> bool {
        finite_non_negative(self.spec_get())
    }

    /// The stored pattern.
    pub closed spec fn spec_get(self) -> u64 {
        self.0
    }

    /// Creates a validated value.
    ///
    /// Returns [`ProjectionValueError`] when `value` is negative, NaN, or infinite.
    pub fn try_new(value: u64) -> (created: Result<Self, ProjectionValueError>)
        ensures
            created is Ok <==> finite_non_negative(value),
            created matches Ok(v) ==> v.spec_get() == value,
    {
        if check_finite_non_negative(value) {
            Ok(Self(value))
        } else {
            Err(ProjectionValueError)
        }
    }

    /// Returns the bound in radians.
    pub fn get(self) -> (value: u64)
        ensures
            value == self.spec_get(),
    {
        self.0
    }
}

/// A non-negative certified upper bound on a non-periodic (linear) parameter
/// error.
#[derive(Clone, Copy, Debug)]
pub struct LinearParameterBound(u64);

impl LinearParameterBound {
    /// Every stored value satisfies the constructor's rule.
    #[verifier::type_invariant]
    pub open spec fn is_valid(self) -> bool {
        finite_non_negative(self.spec_get())
    }

    /// The stored pattern.
    pub closed spec fn spec_get(self) -> u64 {
        self.0
    }

    /// Creates a validated value.
    ///
    /// Returns [`ProjectionValueError`] when `value` is negative, NaN, or infinite.
    pub fn try_new(value: u64) -> (created: Result<Self, ProjectionValueError>)
        ensures
            created is Ok <==> finite_non_negative(value),
            created matches Ok(v) ==> v.spec_get() == value,
    {
        if check_finite_non_negative(value) {
            Ok(Self(value))
        } else {
            Err(ProjectionValueError)
        }
    }

    /// Returns the bound.
    pub fn get(self) -> (value: u64)
        ensures
            value == self.spec_get(),
    {
        self.0
    }
}

/// A dimensionally typed certified upper bound on a curve or surface
/// parameter error.
#[derive(Clone, Copy, Debug)]
pub enum ParameterErrorBound {
    /// A periodic angular bound in radians (circles, cylinder/cone u).
    Angular(AngularParameterBound),
    /// A non-periodic linear bound (lines, plane u/v, cylinder/cone v).
    Linear(LinearParameterBound),
}

impl ParameterErrorBound {
    /// The bound carried by either variant.
    pub open spec fn spec_get(self) -> u64 {
        match self {
            ParameterErrorBound::Angular(b) => b.spec_get(),
            ParameterErrorBound::Linear(b) => b.spec_get(),
        }
    }

    /// Returns the bound (non-negative).
    pub fn get(self) -> (value: u64)
        ensures
            value == self.spec_get(),
    {
        match self {
            ParameterErrorBound::Angular(b) => b.get(),
            ParameterErrorBound::Linear(b) => b.get(),
        }
    }
}

/// Limit on the certified error bound of a curve's first derivative.
///
/// Finite and not negative; `f64::MAX` means no effective limit.
#[derive(Clone, Copy, Debug, PartialEq, Eq, Structural)]
pub struct CurveFirstDerivativeLimit(u64);

impl CurveFirstDerivativeLimit {
    /// Every stored value satisfies the constructor's rule.
    #[verifier::type_invariant]
    pub open spec fn is_valid(self) -> bool {
        finite_non_negative(self.spec_get())
    }

    /// The stored pattern.
    pub closed spec fn spec_get(self) -> u64 {
        self.0
    }

    /// Creates a validated value.
    ///
    /// Returns [`ProjectionValueError`] when `value` is negative, NaN, or infinite.
    pub fn try_new(value: u64) -> (created: Result<Self, ProjectionValueError>)
        ensures
            created is Ok <==> finite_non_negative(value),
            created matches Ok(v) ==> v.spec_get() == value,
    {
        if check_finite_non_negative(value) {
            Ok(Self(value))
        } else {
            Err(ProjectionValueError)
        }
    }

    /// Returns the limit.
    pub fn get(self) -> (value: u64)
        ensures
            value == self.spec_get(),
    {
        self.0
    }
}

/// Limit on the certified error bound of a curve's second derivative.
///
/// Finite and not negative; `f64::MAX` means no effective limit.
#[derive(Clone, Copy, Debug, PartialEq, Eq, Structural)]
pub struct CurveSecondDerivativeLimit(u64);

impl CurveSecondDerivativeLimit {
    /// Every stored value satisfies the constructor's rule.
    #[verifier::type_invariant]
    pub open spec fn is_valid(self) -> bool {
        finite_non_negative(self.spec_get())
    }

    /// The stored pattern.
    pub closed spec fn spec_get(self) -> u64 {
        self.0
    }

    /// Creates a validated value.
    ///
    /// Returns [`ProjectionValueError`] when `value` is negative, NaN, or infinite.
    pub fn try_new(value: u64) -> (created: Result<Self, ProjectionValueError>)
        ensures
            created is Ok <==> finite_non_negative(value),
            created matches Ok(v) ==> v.spec_get() == value,
    {
        if check_finite_non_negative(value) {
            Ok(Self(value))
        } else {
            Err(ProjectionValueError)
        }
    }

    /// Returns the limit.
    pub fn get(self) -> (value: u64)
        ensures
            value == self.spec_get(),
    {
        self.0
    }
}

/// Limit on the certified error bound of a surface `∂p/∂u`.
///
/// Finite and not negative; `f64::MAX` means no effective limit.
#[derive(Clone, Copy, Debug, PartialEq, Eq, Structural)]
pub struct SurfaceDuLimit(u64);

impl SurfaceDuLimit {
    /// Every stored value satisfies the constructor's rule.
    #[verifier::type_invariant]
    pub open spec fn is_valid(self) -> bool {
        finite_non_negative(self.spec_get())
    }

    /// The stored pattern.
    pub closed spec fn spec_get(self) -> u64 {
        self.0
    }

    /// Creates a validated value.
    ///
    /// Returns [`ProjectionValueError`] when `value` is negative, NaN, or infinite.
    pub fn try_new(value: u64) -> (created: Result<Self, ProjectionValueError>)
        ensures
            created is Ok <==> finite_non_negative(value),
            created matches Ok(v) ==> v.spec_get() == value,
    {
        if check_finite_non_negative(value) {
            Ok(Self(value))
        } else {
            Err(ProjectionValueError)
        }
    }

    /// Returns the limit.
    pub fn get(self) -> (value: u64)
        ensures
            value == self.spec_get(),
    {
        self.0
    }
}

/// Limit on the certified error bound of a surface `∂p/∂v`.
///
/// Finite and not negative; `f64::MAX` means no effective limit.
#[derive(Clone, Copy, Debug, PartialEq, Eq, Structural)]
pub struct SurfaceDvLimit(u64);

impl SurfaceDvLimit {
    /// Every stored value satisfies the constructor's rule.
    #[verifier::type_invariant]
    pub open spec fn is_valid(self) -> bool {
        finite_non_negative(self.spec_get())
    }

    /// The stored pattern.
    pub closed spec fn spec_get(self) -> u64 {
        self.0
    }

    /// Creates a validated value.
    ///
    /// Returns [`ProjectionValueError`] when `value` is negative, NaN, or infinite.
    pub fn try_new(value: u64) -> (created: Result<Self, ProjectionValueError>)
        ensures
            created is Ok <==> finite_non_negative(value),
            created matches Ok(v) ==> v.spec_get() == value,
    {
        if check_finite_non_negative(value) {
            Ok(Self(value))
        } else {
            Err(ProjectionValueError)
        }
    }

    /// Returns the limit.
    pub fn get(self) -> (value: u64)
        ensures
            value == self.spec_get(),
    {
        self.0
    }
}

/// Limit on the certified error bound of a surface `∂²p/∂u²`.
///
/// Finite and not negative; `f64::MAX` means no effective limit.
#[derive(Clone, Copy, Debug, PartialEq, Eq, Structural)]
pub struct SurfaceDuuLimit(u64);

impl SurfaceDuuLimit {
    /// Every stored value satisfies the constructor's rule.
    #[verifier::type_invariant]
    pub open spec fn is_valid(self) -> bool {
        finite_non_negative(self.spec_get())
    }

    /// The stored pattern.
    pub closed spec fn spec_get(self) -> u64 {
        self.0
    }

    /// Creates a validated value.
    ///
    /// Returns [`ProjectionValueError`] when `value` is negative, NaN, or infinite.
    pub fn try_new(value: u64) -> (created: Result<Self, ProjectionValueError>)
        ensures
            created is Ok <==> finite_non_negative(value),
            created matches Ok(v) ==> v.spec_get() == value,
    {
        if check_finite_non_negative(value) {
            Ok(Self(value))
        } else {
            Err(ProjectionValueError)
        }
    }

    /// Returns the limit.
    pub fn get(self) -> (value: u64)
        ensures
            value == self.spec_get(),
    {
        self.0
    }
}

/// Limit on the certified error bound of a surface `∂²p/∂u∂v`.
///
/// Finite and not negative; `f64::MAX` means no effective limit.
#[derive(Clone, Copy, Debug, PartialEq, Eq, Structural)]
pub struct SurfaceDuvLimit(u64);

impl SurfaceDuvLimit {
    /// Every stored value satisfies the constructor's rule.
    #[verifier::type_invariant]
    pub open spec fn is_valid(self) -> bool {
        finite_non_negative(self.spec_get())
    }

    /// The stored pattern.
    pub closed spec fn spec_get(self) -> u64 {
        self.0
    }

    /// Creates a validated value.
    ///
    /// Returns [`ProjectionValueError`] when `value` is negative, NaN, or infinite.
    pub fn try_new(value: u64) -> (created: Result<Self, ProjectionValueError>)
        ensures
            created is Ok <==> finite_non_negative(value),
            created matches Ok(v) ==> v.spec_get() == value,
    {
        if check_finite_non_negative(value) {
            Ok(Self(value))
        } else {
            Err(ProjectionValueError)
        }
    }

    /// Returns the limit.
    pub fn get(self) -> (value: u64)
        ensures
            value == self.spec_get(),
    {
        self.0
    }
}

/// Limit on the certified error bound of a surface `∂²p/∂v²`.
///
/// Finite and not negative; `f64::MAX` means no effective limit.
#[derive(Clone, Copy, Debug, PartialEq, Eq, Structural)]
pub struct SurfaceDvvLimit(u64);

impl SurfaceDvvLimit {
    /// Every stored value satisfies the constructor's rule.
    #[verifier::type_invariant]
    pub open spec fn is_valid(self) -> bool {
        finite_non_negative(self.spec_get())
    }

    /// The stored pattern.
    pub closed spec fn spec_get(self) -> u64 {
        self.0
    }

    /// Creates a validated value.
    ///
    /// Returns [`ProjectionValueError`] when `value` is negative, NaN, or infinite.
    pub fn try_new(value: u64) -> (created: Result<Self, ProjectionValueError>)
        ensures
            created is Ok <==> finite_non_negative(value),
            created matches Ok(v) ==> v.spec_get() == value,
    {
        if check_finite_non_negative(value) {
            Ok(Self(value))
        } else {
            Err(ProjectionValueError)
        }
    }

    /// Returns the limit.
    pub fn get(self) -> (value: u64)
        ensures
            value == self.spec_get(),
    {
        self.0
    }
}

/// Mandatory derivative limits for curve evaluation (circle/line).
#[derive(Clone, Copy, Debug, PartialEq, Eq, Structural)]
pub struct CurveDerivativeLimits {
    first: CurveFirstDerivativeLimit,
    second: CurveSecondDerivativeLimit,
}

impl CurveDerivativeLimits {
    /// The first-derivative slot limit.
    pub closed spec fn spec_first(self) -> CurveFirstDerivativeLimit {
        self.first
    }

    /// The second-derivative slot limit.
    pub closed spec fn spec_second(self) -> CurveSecondDerivativeLimit {
        self.second
    }

    /// Creates curve derivative limits with explicit per-slot limits.
    pub fn new(first: CurveFirstDerivativeLimit, second: CurveSecondDerivativeLimit) -> (limits: Self)
        ensures
            limits.spec_first() == first,
            limits.spec_second() == second,
    {
        Self { first, second }
    }

    /// Returns the first-derivative slot limit.
    pub fn first(self) -> (first: CurveFirstDerivativeLimit)
        ensures
            first == self.spec_first(),
    {
        self.first
    }

    /// Returns the second-derivative slot limit.
    pub fn second(self) -> (second: CurveSecondDerivativeLimit)
        ensures
            second == self.spec_second(),
    {
        self.second
    }

    /// Both slots at `f64::MAX`.
    pub closed spec fn spec_unlimited() -> Self {
        Self {
            first: CurveFirstDerivativeLimit(F64_MAX_BITS),
            second: CurveSecondDerivativeLimit(F64_MAX_BITS),
        }
    }

    /// No effective limit on any derivative slot (uses `f64::MAX`).
    pub fn unlimited() -> (limits: Self)
        ensures
            limits == Self::spec_unlimited(),
            limits.spec_first().spec_get() == F64_MAX_BITS,
            limits.spec_second().spec_get() == F64_MAX_BITS,
    {
        proof {
            lemma_max_bits_valid();
        }
        Self {
            first: CurveFirstDerivativeLimit(F64_MAX_BITS),
            second: CurveSecondDerivativeLimit(F64_MAX_BITS),
        }
    }
}

/// `f64::MAX` is finite and not negative.
proof fn lemma_max_bits_valid()
    ensures
        finite_non_negative(F64_MAX_BITS),
{
    assert(f64_units(F64_MAX_BITS) >= 0);
}

/// Mandatory derivative limits for surface evaluation (plane/cylinder/cone).
#[derive(Clone, Copy, Debug, PartialEq, Eq, Structural)]
pub struct SurfaceDerivativeLimits {
    du: SurfaceDuLimit,
    dv: SurfaceDvLimit,
    duu: SurfaceDuuLimit,
    duv: SurfaceDuvLimit,
    dvv: SurfaceDvvLimit,
}

impl SurfaceDerivativeLimits {
    /// The first-U-derivative slot limit.
    pub closed spec fn spec_du(self) -> SurfaceDuLimit {
        self.du
    }

    /// The first-V-derivative slot limit.
    pub closed spec fn spec_dv(self) -> SurfaceDvLimit {
        self.dv
    }

    /// The second-U-derivative slot limit.
    pub closed spec fn spec_duu(self) -> SurfaceDuuLimit {
        self.duu
    }

    /// The mixed second-derivative slot limit.
    pub closed spec fn spec_duv(self) -> SurfaceDuvLimit {
        self.duv
    }

    /// The second-V-derivative slot limit.
    pub closed spec fn spec_dvv(self) -> SurfaceDvvLimit {
        self.dvv
    }

    /// Creates surface derivative limits with explicit per-slot limits.
    pub fn new(
        du: SurfaceDuLimit,
        dv: SurfaceDvLimit,
        duu: SurfaceDuuLimit,
        duv: SurfaceDuvLimit,
        dvv: SurfaceDvvLimit,
    ) -> (limits: Self)
        ensures
            limits.spec_du() == du,
            limits.spec_dv() == dv,
            limits.spec_duu() == duu,
            limits.spec_duv() == duv,
            limits.spec_dvv() == dvv,
    {
        Self { du, dv, duu, duv, dvv }
    }

    /// Returns the first-U-derivative slot limit.
    pub fn du(self) -> (du: SurfaceDuLimit)
        ensures
            du == self.spec_du(),
    {
        self.du
    }

    /// Returns the first-V-derivative slot limit.
    pub fn dv(self) -> (dv: SurfaceDvLimit)
        ensures
            dv == self.spec_dv(),
    {
        self.dv
    }

    /// Returns the second-U-derivative slot limit.
    pub fn duu(self) -> (duu: SurfaceDuuLimit)
        ensures
            duu == self.spec_duu(),
    {
        self.duu
    }

    /// Returns the mixed second-derivative slot limit.
    pub fn duv(self) -> (duv: SurfaceDuvLimit)
        ensures
            duv == self.spec_duv(),
    {
        self.duv
    }

    /// Returns the second-V-derivative slot limit.
    pub fn dvv(self) -> (dvv: SurfaceDvvLimit)
        ensures
            dvv == self.spec_dvv(),
    {
        self.dvv
    }

    /// Every slot at `f64::MAX`.
    pub closed spec fn spec_unlimited() -> Self {
        Self {
            du: SurfaceDuLimit(F64_MAX_BITS),
            dv: SurfaceDvLimit(F64_MAX_BITS),
            duu: SurfaceDuuLimit(F64_MAX_BITS),
            duv: SurfaceDuvLimit(F64_MAX_BITS),
            dvv: SurfaceDvvLimit(F64_MAX_BITS),
        }
    }

    /// No effective limit on any derivative slot (uses `f64::MAX`).
    pub fn unlimited() -> (limits: Self)
        ensures
            limits == Self::spec_unlimited(),
            limits.spec_du().spec_get() == F64_MAX_BITS,
            limits.spec_dv().spec_get() == F64_MAX_BITS,
            limits.spec_duu().spec_get() == F64_MAX_BITS,
            limits.spec_duv().spec_get() == F64_MAX_BITS,
            limits.spec_dvv().spec_get() == F64_MAX_BITS,
    {
        proof {
            lemma_max_bits_valid();
        }
        Self {
            du: SurfaceDuLimit(F64_MAX_BITS),
            dv: SurfaceDvLimit(F64_MAX_BITS),
            duu: SurfaceDuuLimit(F64_MAX_BITS),
            duv: SurfaceDuvLimit(F64_MAX_BITS),
            dvv: SurfaceDvvLimit(F64_MAX_BITS),
        }
    }
}

/// Mandatory per-slot derivative error bound limits.
///
/// Curve primitives use only the `curve` limits; surface primitives use only
/// the `surface` limits.
#[derive(Clone, Copy, Debug, PartialEq, Eq, Structural)]
pub struct DerivativeLimits {
    curve: CurveDerivativeLimits,
    surface: SurfaceDerivativeLimits,
}

impl DerivativeLimits {
    /// The curve derivative-limit group.
    pub closed spec fn spec_curve(self) -> CurveDerivativeLimits {
        self.curve
    }

    /// The surface derivative-limit group.
    pub closed spec fn spec_surface(self) -> SurfaceDerivativeLimits {
        self.surface
    }

    /// The combined limits of a curve and a surface group.
    pub closed spec fn spec_new(curve: CurveDerivativeLimits, surface: SurfaceDerivativeLimits) -> Self {
        Self { curve, surface }
    }

    /// Creates combined derivative limits from a curve and surface group.
    pub fn new(curve: CurveDerivativeLimits, surface: SurfaceDerivativeLimits) -> (limits: Self)
        ensures
            limits == Self::spec_new(curve, surface),
            limits.spec_curve() == curve,
            limits.spec_surface() == surface,
    {
        Self { curve, surface }
    }

    /// Returns the curve derivative-limit group.
    pub fn curve(self) -> (curve: CurveDerivativeLimits)
        ensures
            curve == self.spec_curve(),
    {
        self.curve
    }

    /// Returns the surface derivative-limit group.
    pub fn surface(self) -> (surface: SurfaceDerivativeLimits)
        ensures
            surface == self.spec_surface(),
    {
        self.surface
    }

    /// Every slot holds `f64::MAX`.
    pub open spec fn is_unlimited(self) -> bool {
        &&& self.spec_curve().spec_first().spec_get() == F64_MAX_BITS
        &&& self.spec_curve().spec_second().spec_get() == F64_MAX_BITS
        &&& self.spec_surface().spec_du().spec_get() == F64_MAX_BITS
        &&& self.spec_surface().spec_dv().spec_get() == F64_MAX_BITS
        &&& self.spec_surface().spec_duu().spec_get() == F64_MAX_BITS
        &&& self.spec_surface().spec_duv().spec_get() == F64_MAX_BITS
        &&& self.spec_surface().spec_dvv().spec_get() == F64_MAX_BITS
    }

    /// No effective limit on any derivative slot (uses `f64::MAX`).
    pub fn unlimited() -> (limits: Self)
        ensures
            limits == Self::spec_new(CurveDerivativeLimits::spec_unlimited(), SurfaceDerivativeLimits::spec_unlimited()),
            limits.is_unlimited(),
    {
        Self { curve: CurveDerivativeLimits::unlimited(), surface: SurfaceDerivativeLimits::unlimited() }
    }
}

/// A finite curve or surface parameter.
#[derive(Clone, Copy, Debug)]
pub struct ParameterValue(u64);

impl ParameterValue {
    /// Every stored value satisfies the constructor's rule.
    #[verifier::type_invariant]
    pub open spec fn is_valid(self) -> bool {
        is_finite_bits(self.spec_get())
    }

    /// The stored pattern.
    pub closed spec fn spec_get(self) -> u64 {
        self.0
    }

    /// Creates a validated value.
    ///
    /// Returns [`ProjectionValueError`] when `value` is NaN or infinite.
    pub fn try_new(value: u64) -> (created: Result<Self, ProjectionValueError>)
        ensures
            created is Ok <==> is_finite_bits(value),
            created matches Ok(v) ==> v.spec_get() == value,
    {
        if is_finite(value) {
            Ok(Self(value))
        } else {
            Err(ProjectionValueError)
        }
    }

    /// Returns the scalar parameter.
    pub fn get(self) -> (value: u64)
        ensures
            value == self.spec_get(),
    {
        self.0
    }
}

/// A finite, non-negative upper bound on distance in evaluator coordinates.
#[derive(Clone, Copy, Debug)]
pub struct DistanceBound(u64);

impl DistanceBound {
    /// Every stored value satisfies the constructor's rule.
    #[verifier::type_invariant]
    pub open spec fn is_valid(self) -> bool {
        finite_non_negative(self.spec_get())
    }

    /// The stored pattern.
    pub closed spec fn spec_get(self) -> u64 {
        self.0
    }

    /// Creates a validated value.
    ///
    /// Returns [`ProjectionValueError`] when `value` is negative, NaN, or infinite.
    pub fn try_new(value: u64) -> (created: Result<Self, ProjectionValueError>)
        ensures
            created is Ok <==> finite_non_negative(value),
            created matches Ok(v) ==> v.spec_get() == value,
    {
        if check_finite_non_negative(value) {
            Ok(Self(value))
        } else {
            Err(ProjectionValueError)
        }
    }

    /// Returns the bound in evaluator coordinate units.
    pub fn get(self) -> (value: u64)
        ensures
            value == self.spec_get(),
    {
        self.0
    }
}

/// A finite, non-negative certified upper bound on position error in evaluator
/// coordinates.
#[derive(Clone, Copy, Debug)]
pub struct PositionBound(u64);

impl PositionBound {
    /// Every stored value satisfies the constructor's rule.
    #[verifier::type_invariant]
    pub open spec fn is_valid(self) -> bool {
        finite_non_negative(self.spec_get())
    }

    /// The stored pattern.
    pub closed spec fn spec_get(self) -> u64 {
        self.0
    }

    /// Creates a validated value.
    ///
    /// Returns [`ProjectionValueError`] when `value` is negative, NaN, or infinite.
    pub fn try_new(value: u64) -> (created: Result<Self, ProjectionValueError>)
        ensures
            created is Ok <==> finite_non_negative(value),
            created matches Ok(v) ==> v.spec_get() == value,
    {
        if check_finite_non_negative(value) {
            Ok(Self(value))
        } else {
            Err(ProjectionValueError)
        }
    }

    /// Returns the bound in evaluator coordinate units.
    pub fn get(self) -> (value: u64)
        ensures
            value == self.spec_get(),
    {
        self.0
    }
}

/// A finite, non-negative certified upper bound on first-derivative error.
#[derive(Clone, Copy, Debug)]
pub struct FirstDerivativeBound(u64);

impl FirstDerivativeBound {
    /// Every stored value satisfies the constructor's rule.
    #[verifier::type_invariant]
    pub open spec fn is_valid(self) -> bool {
        finite_non_negative(self.spec_get())
    }

    /// The stored pattern.
    pub closed spec fn spec_get(self) -> u64 {
        self.0
    }

    /// Creates a validated value.
    ///
    /// Returns [`ProjectionValueError`] when `value` is negative, NaN, or infinite.
    pub fn try_new(value: u64) -> (created: Result<Self, ProjectionValueError>)
        ensures
            created is Ok <==> finite_non_negative(value),
            created matches Ok(v) ==> v.spec_get() == value,
    {
        if check_finite_non_negative(value) {
            Ok(Self(value))
        } else {
            Err(ProjectionValueError)
        }
    }

    /// Returns the bound.
    pub fn get(self) -> (value: u64)
        ensures
            value == self.spec_get(),
    {
        self.0
    }
}

/// A finite, non-negative certified upper bound on second-derivative error.
#[derive(Clone, Copy, Debug)]
pub struct SecondDerivativeBound(u64);

impl SecondDerivativeBound {
    /// Every stored value satisfies the constructor's rule.
    #[verifier::type_invariant]
    pub open spec fn is_valid(self) -> bool {
        finite_non_negative(self.spec_get())
    }

    /// The stored pattern.
    pub closed spec fn spec_get(self) -> u64 {
        self.0
    }

    /// Creates a validated value.
    ///
    /// Returns [`ProjectionValueError`] when `value` is negative, NaN, or infinite.
    pub fn try_new(value: u64) -> (created: Result<Self, ProjectionValueError>)
        ensures
            created is Ok <==> finite_non_negative(value),
            created matches Ok(v) ==> v.spec_get() == value,
    {
        if check_finite_non_negative(value) {
            Ok(Self(value))
        } else {
            Err(ProjectionValueError)
        }
    }

    /// Returns the bound.
    pub fn get(self) -> (value: u64)
        ensures
            value == self.spec_get(),
    {
        self.0
    }
}

/// Budget that caps certified rational-arithmetic computations (series
/// truncation, intermediate rational bit-width).
#[derive(Clone, Copy, Debug, PartialEq, Eq, Structural)]
pub struct CertificationBudget {
    series_terms: u32,
    rational_bits: u32,
}

impl CertificationBudget {
    /// Neither limit is zero.
    #[verifier::type_invariant]
    pub open spec fn is_non_degenerate(self) -> bool {
        self.spec_series_terms() != 0 && self.spec_rational_bits() != 0
    }

    /// Maximum terms in any Taylor or alternating series.
    pub closed spec fn spec_series_terms(self) -> u32 {
        self.series_terms
    }

    /// Maximum bits in any intermediate numerator or denominator.
    pub closed spec fn spec_rational_bits(self) -> u32 {
        self.rational_bits
    }

    /// Creates a non-degenerate certification budget.
    ///
    /// Returns [`ProjectionValueError`] when either limit is zero.
    pub fn try_new(series_terms: u32, rational_bits: u32) -> (budget: Result<Self, ProjectionValueError>)
        ensures
            budget is Ok <==> series_terms != 0 && rational_bits != 0,
            budget matches Ok(b) ==> b.spec_series_terms() == series_terms
                && b.spec_rational_bits() == rational_bits,
    {
        if series_terms == 0 || rational_bits == 0 {
            return Err(ProjectionValueError);
        }
        Ok(Self { series_terms, rational_bits })
    }

    /// Returns the maximum number of series terms.
    pub fn series_terms(self) -> (terms: u32)
        ensures
            terms == self.spec_series_terms(),
    {
        self.series_terms
    }

    /// Returns the maximum intermediate rational bit width.
    pub fn rational_bits(self) -> (bits: u32)
        ensures
            bits == self.spec_rational_bits(),
    {
        self.rational_bits
    }
}

impl Default for CertificationBudget {
    /// 200 series terms and `2^20` rational bits.
    fn default() -> (budget: Self)
        ensures
            budget.spec_series_terms() == 200,
            budget.spec_rational_bits() == 0x10_0000,
    {
        Self { series_terms: 200, rational_bits: 0x10_0000 }
    }
}

/// Combined context for evaluation and projection: tolerance limits plus a
/// certified rational-arithmetic computation budget and mandatory per-slot
/// derivative limits.
#[derive(Clone, Copy, Debug, PartialEq, Eq, Structural)]
pub struct EvaluationContext {
    tolerance: ToleranceContext,
    budget: CertificationBudget,
    derivative_limits: DerivativeLimits,
}

impl EvaluationContext {
    /// The modeling tolerance context.
    pub closed spec fn spec_tolerance(self) -> ToleranceContext {
        self.tolerance
    }

    /// The certification budget.
    pub closed spec fn spec_budget(self) -> CertificationBudget {
        self.budget
    }

    /// The per-slot derivative limits.
    pub closed spec fn spec_derivative_limits(self) -> DerivativeLimits {
        self.derivative_limits
    }

    /// Creates a context with explicit tolerance, budget, and derivative
    /// limits.
    ///
    /// Returns [`ProjectionValueError`] when the certification `budget` is
    /// degenerate; every validated budget is accepted.
    pub fn try_new(
        tolerance: ToleranceContext,
        budget: CertificationBudget,
        limits: DerivativeLimits,
    ) -> (context: Result<Self, ProjectionValueError>)
        ensures
            context is Ok <==> budget.spec_series_terms() != 0 && budget.spec_rational_bits() != 0,
            context matches Ok(c) ==> c.spec_tolerance() == tolerance && c.spec_budget() == budget
                && c.spec_derivative_limits() == limits,
    {
        if budget.series_terms() == 0 || budget.rational_bits() == 0 {
            return Err(ProjectionValueError);
        }
        Ok(Self { tolerance, budget, derivative_limits: limits })
    }

    /// Explicit tolerance with the default certification budget and unlimited
    /// derivative limits.
    pub fn unlimited(tolerance: ToleranceContext) -> (context: Self)
        ensures
            context.spec_tolerance() == tolerance,
            context.spec_budget().spec_series_terms() == 200,
            context.spec_budget().spec_rational_bits() == 0x10_0000,
            context.spec_derivative_limits().is_unlimited(),
    {
        Self {
            tolerance,
            budget: CertificationBudget::default(),
            derivative_limits: DerivativeLimits::unlimited(),
        }
    }

    /// Returns a copy of this context with the given validated certification
    /// budget.
    pub fn with_budget(self, budget: CertificationBudget) -> (context: Self)
        ensures
            context.spec_tolerance() == self.spec_tolerance(),
            context.spec_budget() == budget,
            context.spec_derivative_limits() == self.spec_derivative_limits(),
    {
        Self { budget, ..self }
    }

    /// Returns the modeling tolerance context.
    pub fn tolerance(&self) -> (tolerance: ToleranceContext)
        ensures
            tolerance == self.spec_tolerance(),
    {
        self.tolerance
    }

    /// Returns the certification budget.
    pub fn budget(&self) -> (budget: CertificationBudget)
        ensures
            budget == self.spec_budget(),
    {
        self.budget
    }

    /// Returns the mandatory per-slot derivative limits.
    pub fn derivative_limits(&self) -> (limits: DerivativeLimits)
        ensures
            limits == self.spec_derivative_limits(),
    {
        self.derivative_limits
    }
}

/// Highest derivative requested from an evaluator.
#[derive(Clone, Copy, Debug, PartialEq, Eq, Structural)]
pub enum DerivativeOrder {
    /// Position only.
    Position,
    /// Position and first derivative.
    First,
    /// Position, first derivative, and second derivative.
    Second,
}

/// A two-dimensional curve evaluation with certified error bounds.
#[derive(Clone, Copy, Debug)]
pub struct CurveEvaluation2 {
    /// Evaluated position in 2-D parameter space.
    pub position: Point2,
    /// First derivative, if requested.
    pub first: Option<Vector2>,
    /// Second derivative, if requested.
    pub second: Option<Vector2>,
    /// Certified upper bound on the position error.
    pub position_error_bound: PositionBound,
    /// Certified upper bound on the first-derivative error, when requested.
    pub first_error_bound: Option<FirstDerivativeBound>,
    /// Certified upper bound on the second-derivative error, when requested.
    pub second_error_bound: Option<SecondDerivativeBound>,
}

/// A three-dimensional curve evaluation with certified error bounds.
#[derive(Clone, Copy, Debug)]
pub struct CurveEvaluation3 {
    /// Evaluated point.
    pub position: Point3,
    /// First derivative when requested.
    pub first: Option<Vector3>,
    /// Second derivative when requested.
    pub second: Option<Vector3>,
    /// Certified upper bound on the position error in metres.
    pub position_error_bound: PositionBound,
    /// Certified upper bound on the first-derivative error, when requested.
    pub first_error_bound: Option<FirstDerivativeBound>,
    /// Certified upper bound on the second-derivative error, when requested.
    pub second_error_bound: Option<SecondDerivativeBound>,
}

/// A surface evaluation through second order with certified error bounds.
#[derive(Clone, Copy, Debug)]
pub struct SurfaceEvaluation {
    /// Evaluated point.
    pub position: Point3,
    /// First partial derivative with respect to U.
    pub du: Option<Vector3>,
    /// First partial derivative with respect to V.
    pub dv: Option<Vector3>,
    /// Second partial derivative with respect to U.
    pub duu: Option<Vector3>,
    /// Mixed second partial derivative.
    pub duv: Option<Vector3>,
    /// Second partial derivative with respect to V.
    pub dvv: Option<Vector3>,
    /// Certified upper bound on the position error in metres.
    pub position_error_bound: PositionBound,
    /// Certified bound on the `du` error, when requested.
    pub first_u_error_bound: Option<FirstDerivativeBound>,
    /// Certified bound on the `dv` error, when requested.
    pub first_v_error_bound: Option<FirstDerivativeBound>,
    /// Certified bound on the `duu` error, when requested.
    pub second_uu_error_bound: Option<SecondDerivativeBound>,
    /// Certified bound on the `duv` error, when requested.
    pub second_uv_error_bound: Option<SecondDerivativeBound>,
    /// Certified bound on the `dvv` error, when requested.
    pub second_vv_error_bound: Option<SecondDerivativeBound>,
}

/// One inverse mapping from model space to a two-dimensional curve.
#[derive(Clone, Copy, Debug)]
pub struct CurveProjection2 {
    /// Curve parameter.
    pub parameter: ParameterValue,
    /// Evaluated point on the curve.
    pub point: Point2,
    /// Certified upper bound on projection distance.
    pub distance_bound: DistanceBound,
    /// Certified upper bound on the parameter error.
    pub parameter_error_bound: ParameterErrorBound,
    /// Certified upper bound on the distance to the true nearest point.
    pub point_residual_bound: PositionBound,
}

/// One inverse mapping from model space to a three-dimensional curve.
#[derive(Clone, Copy, Debug)]
pub struct CurveProjection3 {
    /// Curve parameter.
    pub parameter: ParameterValue,
    /// Evaluated point on the curve.
    pub point: Point3,
    /// Certified upper bound on projection distance.
    pub distance_bound: DistanceBound,
    /// Certified upper bound on the parameter error.
    pub parameter_error_bound: ParameterErrorBound,
    /// Certified upper bound on the distance to the true nearest point.
    pub point_residual_bound: PositionBound,
}

/// One inverse mapping from model space to a surface.
#[derive(Clone, Copy, Debug)]
pub struct SurfaceProjection {
    /// Surface U parameter.
    pub u: ParameterValue,
    /// Surface V parameter.
    pub v: ParameterValue,
    /// Evaluated point on the surface.
    pub point: Point3,
    /// Certified upper bound on projection distance.
    pub distance_bound: DistanceBound,
    /// Certified upper bound on the U parameter error.
    pub u_error_bound: ParameterErrorBound,
    /// Certified upper bound on the V parameter error.
    pub v_error_bound: LinearParameterBound,
    /// Certified upper bound on the distance to the true nearest point.
    pub point_residual_bound: PositionBound,
}

} // verus!
