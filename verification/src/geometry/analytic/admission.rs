//! The decisions of curve and surface evaluation that come before and after
//! the certified computation: which parameters are admitted, where the
//! periodic seam is aliased, where the apex is singular, and which
//! derivative error bounds the caller's limits refuse.
use crate::geometry::analytic::helpers::{
    canonicalize_periodic_endpoint,
    exceeds,
    exceeds_limit,
    in_range,
};
use crate::geometry::domain::{rounds_to, ParameterRange, SurfaceDomain};
use crate::bounds::val;
use crate::geometry::error::GeometryError;
use crate::geometry::evaluation::{CurveDerivativeLimits, DerivativeOrder, SurfaceDerivativeLimits};
use crate::ieee::{f64_units, is_finite, is_finite_bits, is_zero};
use vstd::prelude::*;

verus! {

/// The finite parameter `t` lies within the range's finite bounds.
pub open spec fn within_range(t: u64, range: ParameterRange) -> bool {
    &&& is_finite_bits(t)
    &&& (range.spec_lower() matches Some(lo) ==> f64_units(lo) <= f64_units(t))
    &&& (range.spec_upper() matches Some(hi) ==> f64_units(t) <= f64_units(hi))
}

/// The parameter evaluated for `t`: the upper end of a closed periodic
/// range whose width rounds to the period is aliased to the lower end.
pub open spec fn canonical_parameter(t: u64, range: ParameterRange) -> u64 {
    match (range.spec_lower(), range.spec_upper(), range.spec_period()) {
        (Some(l), Some(u), Some(p)) => if t == u && rounds_to(val(u) - val(l), p) {
            l
        } else {
            t
        },
        _ => t,
    }
}

/// Admits a curve parameter: a non-finite parameter and one outside the
/// domain are refused, in that order, and the periodic seam is aliased.
pub fn curve_admission(t: u64, domain: ParameterRange) -> (admitted: Result<u64, GeometryError>)
    ensures
        !is_finite_bits(t) ==> admitted matches Err(GeometryError::NonFiniteParameter),
        is_finite_bits(t) && !within_range(t, domain) ==> admitted matches Err(GeometryError::OutsideDomain),
        within_range(t, domain) ==> admitted == Ok::<u64, GeometryError>(canonical_parameter(t, domain)),
{
    if !is_finite(t) {
        return Err(GeometryError::NonFiniteParameter);
    }
    if !in_range(t, domain) {
        return Err(GeometryError::OutsideDomain);
    }
    Ok(canonicalize_periodic_endpoint(t, domain))
}

/// Admits a surface parameter pair: non-finite parameters, then a `u`
/// outside the domain's `u` range, are refused; the `u` seam is aliased;
/// at an apex (`apex_singular`, `v` zero) any derivative is singular. The
/// admitted `u` is returned.
pub fn surface_admission(
    u: u64,
    v: u64,
    order: DerivativeOrder,
    domain: SurfaceDomain,
    apex_singular: bool,
) -> (admitted: Result<u64, GeometryError>)
    ensures
        !(is_finite_bits(u) && is_finite_bits(v)) ==> admitted matches Err(GeometryError::NonFiniteParameter),
        is_finite_bits(u) && is_finite_bits(v) && !within_range(u, domain.spec_u()) ==> admitted matches Err(
            GeometryError::OutsideDomain,
        ),
        is_finite_bits(v) && within_range(u, domain.spec_u()) ==> {
            if apex_singular && f64_units(v) == 0 && order != DerivativeOrder::Position {
                admitted matches Err(GeometryError::Singular)
            } else {
                admitted == Ok::<u64, GeometryError>(canonical_parameter(u, domain.spec_u()))
            }
        },
{
    if !is_finite(u) || !is_finite(v) {
        return Err(GeometryError::NonFiniteParameter);
    }
    let range = domain.u();
    if !in_range(u, range) {
        return Err(GeometryError::OutsideDomain);
    }
    let canonical = canonicalize_periodic_endpoint(u, range);
    if apex_singular && is_zero(v) && order != DerivativeOrder::Position {
        return Err(GeometryError::Singular);
    }
    Ok(canonical)
}

/// A certified derivative error bound that exceeds the caller's limit.
#[derive(Clone, Copy, Debug, PartialEq, Eq, Structural)]
pub struct LimitExceeded {
    pub bound: u64,
    pub limit: u64,
}

/// The outcome of checking one bound against one limit.
pub open spec fn limit_outcome(bound: u64, limit: u64) -> Result<(), LimitExceeded> {
    if exceeds(bound, limit) {
        Err(LimitExceeded { bound, limit })
    } else {
        Ok(())
    }
}

/// The first failing check of a sequence of (bound, limit) checks.
pub open spec fn first_outcome(a: Result<(), LimitExceeded>, b: Result<(), LimitExceeded>) -> Result<
    (),
    LimitExceeded,
> {
    if a is Err {
        a
    } else {
        b
    }
}

/// Checks a certified derivative error bound against a finite limit.
pub fn check_derivative_limit(bound: u64, limit: u64) -> (checked: Result<(), LimitExceeded>)
    requires
        is_finite_bits(limit),
    ensures
        checked == limit_outcome(bound, limit),
{
    if exceeds_limit(bound, limit) {
        Err(LimitExceeded { bound, limit })
    } else {
        Ok(())
    }
}

/// The outcome of checking curve derivative bounds for an order: none for
/// position, the first for first order, both in order for second order.
pub open spec fn curve_limits_outcome(
    order: DerivativeOrder,
    first: u64,
    second: u64,
    limits: CurveDerivativeLimits,
) -> Result<(), LimitExceeded> {
    let f = limit_outcome(first, limits.spec_first().spec_get());
    let s = limit_outcome(second, limits.spec_second().spec_get());
    match order {
        DerivativeOrder::Position => Ok(()),
        DerivativeOrder::First => f,
        DerivativeOrder::Second => first_outcome(f, s),
    }
}

/// Checks the requested curve derivative error bounds against the limits.
pub fn check_curve_limits(
    order: DerivativeOrder,
    first: u64,
    second: u64,
    limits: CurveDerivativeLimits,
) -> (checked: Result<(), LimitExceeded>)
    ensures
        checked == curve_limits_outcome(order, first, second, limits),
{
    let first_limit = limits.first();
    let second_limit = limits.second();
    proof {
        use_type_invariant(&first_limit);
        use_type_invariant(&second_limit);
    }
    match order {
        DerivativeOrder::Position => Ok(()),
        DerivativeOrder::First => check_derivative_limit(first, first_limit.get()),
        DerivativeOrder::Second => {
            match check_derivative_limit(first, first_limit.get()) {
                Ok(()) => check_derivative_limit(second, second_limit.get()),
                Err(e) => Err(e),
            }
        },
    }
}

/// The outcome of checking surface derivative bounds for an order: none
/// for position, `du` then `dv` for first order, and then `duu`, `duv`,
/// `dvv` for second order.
pub open spec fn surface_limits_outcome(
    order: DerivativeOrder,
    bounds: [u64; 5],
    limits: SurfaceDerivativeLimits,
) -> Result<(), LimitExceeded> {
    let du = limit_outcome(bounds[0], limits.spec_du().spec_get());
    let dv = limit_outcome(bounds[1], limits.spec_dv().spec_get());
    let duu = limit_outcome(bounds[2], limits.spec_duu().spec_get());
    let duv = limit_outcome(bounds[3], limits.spec_duv().spec_get());
    let dvv = limit_outcome(bounds[4], limits.spec_dvv().spec_get());
    match order {
        DerivativeOrder::Position => Ok(()),
        DerivativeOrder::First => first_outcome(du, dv),
        DerivativeOrder::Second => first_outcome(du, first_outcome(dv, first_outcome(duu, first_outcome(duv, dvv)))),
    }
}

/// Checks the requested surface derivative error bounds (`du`, `dv`,
/// `duu`, `duv`, `dvv`) against the limits.
pub fn check_surface_limits(
    order: DerivativeOrder,
    bounds: [u64; 5],
    limits: SurfaceDerivativeLimits,
) -> (checked: Result<(), LimitExceeded>)
    ensures
        checked == surface_limits_outcome(order, bounds, limits),
{
    let du = limits.du();
    let dv = limits.dv();
    let duu = limits.duu();
    let duv = limits.duv();
    let dvv = limits.dvv();
    proof {
        use_type_invariant(&du);
        use_type_invariant(&dv);
        use_type_invariant(&duu);
        use_type_invariant(&duv);
        use_type_invariant(&dvv);
    }
    if order == DerivativeOrder::Position {
        return Ok(());
    }
    match check_derivative_limit(bounds[0], du.get()) {
        Ok(()) => {},
        Err(e) => return Err(e),
    }
    match check_derivative_limit(bounds[1], dv.get()) {
        Ok(()) => {},
        Err(e) => return Err(e),
    }
    if order == DerivativeOrder::First {
        return Ok(());
    }
    match check_derivative_limit(bounds[2], duu.get()) {
        Ok(()) => {},
        Err(e) => return Err(e),
    }
    match check_derivative_limit(bounds[3], duv.get()) {
        Ok(()) => {},
        Err(e) => return Err(e),
    }
    check_derivative_limit(bounds[4], dvv.get())
}

} // verus!
