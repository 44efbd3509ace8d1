//! Exact angular coordinates of radial vectors: certified `atan2`
//! enclosures, moved into `[0, tau)` when the angle is negative.
use crate::exact::ExactRational;
use crate::geometry::analytic::affine::{dot2, dot2_value};
use crate::geometry::analytic::enclosure::{
    budget_cap,
    check_interval_budget,
    interval_add,
    interval_hull,
    span_hull,
    minor,
    raw_dot3,
    raw_cross3,
    span,
    values3,
    wf3,
    cross_value,
    dot_value,
};
use crate::geometry::analytic::helpers::{
    budget_exhausted,
    lemma_bits_of_value,
    trig_err_to_uncertified,
    uncertified_because,
    RationalCap,
};
use crate::geometry::analytic::transcendental::{
    atan2_enclosure,
    atan2_fits,
    atan2_interval,
    machin_hi,
    machin_lo,
    pi_threshold,
    tau_interval,
    tau_interval_fits,
};
use crate::geometry::analytic::trig::{max_real, min_real, RatInterval, TrigCap};
use crate::geometry::error::GeometryError;
use crate::geometry::evaluation::CertificationBudget;
use vstd::prelude::*;

verus! {

/// The exact frame of a circle, cylinder or cone: certified unit axes
/// `z`, `x`, `y = z × x`, the exact axis seed, the exact component of the
/// `x` seed perpendicular to it, and a certified bracket of the axis seed's
/// length.
pub struct IdealFrame3 {
    pub z: [RatInterval; 3],
    pub x: [RatInterval; 3],
    pub y: [RatInterval; 3],
    pub z_seed: [ExactRational; 3],
    pub x_perp: [ExactRational; 3],
    pub z_norm: RatInterval,
}

impl IdealFrame3 {
    /// Every interval and rational of the frame is well formed.
    pub open spec fn wf(self) -> bool {
        &&& self.z[0].wf() && self.z[1].wf() && self.z[2].wf()
        &&& self.x[0].wf() && self.x[1].wf() && self.x[2].wf()
        &&& self.y[0].wf() && self.y[1].wf() && self.y[2].wf()
        &&& wf3(self.z_seed) && wf3(self.x_perp)
        &&& self.z_norm.wf()
    }
}

/// The failures that the certified trigonometric backend reports.
pub open spec fn trig_failure(error: GeometryError) -> bool {
    ||| uncertified_because(
        error,
        "certified trigonometric computation exceeded its series or bit-width budget"@,
    )
    ||| uncertified_because(
        error,
        "certified atan2 is undefined at the origin (zero in-plane displacement)"@,
    )
    ||| uncertified_because(
        error,
        "certified trigonometric computation attempted division by an interval containing zero"@,
    )
}

/// The span of the certified `tau` enclosure of a budget.
pub open spec fn tau_span(budget: CertificationBudget) -> (real, real) {
    let cap = TrigCap::spec_new(budget);
    (
        2 as real * machin_lo(pi_threshold(cap), cap.spec_series_terms() as nat),
        2 as real * machin_hi(pi_threshold(cap), cap.spec_series_terms() as nat),
    )
}

/// The canonical span of an angle: moved up by `tau` when the angle came
/// from a negative `atan2` branch.
pub open spec fn canonical_angle(angle: (real, real), negative: bool, budget: CertificationBudget) -> (real, real) {
    if negative {
        (angle.0 + tau_span(budget).0, angle.1 + tau_span(budget).1)
    } else {
        angle
    }
}

/// The canonical angle interval of an `atan2` enclosure: the enclosure
/// itself, or the enclosure plus the certified `tau` interval when `y` is
/// negative.
pub fn periodic_angle_interval(budget: CertificationBudget, angle: RatInterval, y_is_negative: bool) -> (canonical: Result<RatInterval, GeometryError>)
    requires
        angle.wf(),
    ensures
        !y_is_negative ==> canonical == Ok::<RatInterval, GeometryError>(angle),
        canonical matches Ok(i) ==> i.wf() && span(i) == canonical_angle(span(angle), y_is_negative, budget),
        canonical matches Err(e) ==> budget_exhausted(e) || trig_failure(e),
        y_is_negative ==> (canonical is Ok <==> tau_interval_fits(TrigCap::spec_new(budget)) && budget_cap(
            budget,
        ).span_sum_ok(span(angle), tau_span(budget))),
{
    if y_is_negative {
        let tau = match tau_interval(budget) {
            Ok(t) => t,
            Err(e) => return Err(trig_err_to_uncertified(e)),
        };
        interval_add(budget, &angle, &tau)
    } else {
        Ok(angle)
    }
}

/// The canonical angle of a planar radial vector in the frame whose first
/// axis is along `x_seed`: `atan2(x_seed x radial, x_seed . radial)`, in
/// which the normalization of both vectors cancels.
pub fn angle_from_radial2(budget: CertificationBudget, x_seed: &[ExactRational; 2], radial: &[ExactRational; 2]) -> (angle: Result<RatInterval, GeometryError>)
    requires
        x_seed[0].wf() && x_seed[1].wf(),
        radial[0].wf() && radial[1].wf(),
    ensures
        angle matches Ok(i) ==> {
            let (xs, r) = ((x_seed[0].value(), x_seed[1].value()), (radial[0].value(), radial[1].value()));
            let y = xs.0 * r.1 - xs.1 * r.0;
            let e = atan2_enclosure(y, dot2_value(xs, r), TrigCap::spec_new(budget));
            &&& i.wf()
            &&& e.0
            &&& span(i) == canonical_angle((e.1, e.2), y < 0 as real, budget)
        },
        angle matches Err(e) ==> budget_exhausted(e) || trig_failure(e),
        angle is Ok <==> {
            let c = budget_cap(budget);
            let (xs, r) = ((x_seed[0].value(), x_seed[1].value()), (radial[0].value(), radial[1].value()));
            let y = xs.0 * r.1 - xs.1 * r.0;
            let e = atan2_enclosure(y, dot2_value(xs, r), TrigCap::spec_new(budget));
            &&& c.minor_ok(xs.0, r.1, xs.1, r.0) && c.dot2_ok(xs, r)
            &&& atan2_fits(y, dot2_value(xs, r), TrigCap::spec_new(budget))
            &&& (y < 0 as real ==> tau_interval_fits(TrigCap::spec_new(budget)) && c.span_sum_ok((e.1, e.2), tau_span(budget)))
        },
{
    let cap = RationalCap::new(budget);
    let numerator = match minor(cap, &x_seed[0], &radial[1], &x_seed[1], &radial[0]) {
        Ok(v) => v,
        Err(e) => return Err(e),
    };
    let denominator = match dot2(cap, x_seed, radial) {
        Ok(v) => v,
        Err(e) => return Err(e),
    };
    let angle = match atan2_interval(&numerator, &denominator, budget) {
        Ok(a) => a,
        Err(e) => return Err(trig_err_to_uncertified(e)),
    };
    let zero = ExactRational::from_int(0);
    let negative = !zero.le(&numerator);
    periodic_angle_interval(budget, angle, negative)
}

/// The coordinates of `radial` in the frame, up to positive factors:
/// `(radial . x_perp, radial . (z_seed × x_perp))`, negated on the negative
/// nappe of a cone.
pub open spec fn frame_coordinates(frame: IdealFrame3, radial: (real, real, real), flip: bool) -> (real, real) {
    let a = dot_value(radial, values3(frame.x_perp));
    let b = dot_value(radial, cross_value(values3(frame.z_seed), values3(frame.x_perp)));
    if flip {
        (-a, -b)
    } else {
        (a, b)
    }
}

/// The certified angular coordinate of a spatial radial vector about the
/// frame's axis. With `x = x_perp / |x_perp|` and `y = z × x`, the radial
/// factors cancel and leave `atan2(b, a |z_seed|)`; the bracket of
/// `|z_seed|` keeps both ends in one branch, and the hull of the two
/// `atan2` enclosures is returned, made canonical.
#[verifier::spinoff_prover]
#[verifier::rlimit(30)]
pub fn angle_from_radial3(
    budget: CertificationBudget,
    frame: &IdealFrame3,
    radial: &[ExactRational; 3],
    flip_for_negative_nappe: bool,
) -> (angle: Result<RatInterval, GeometryError>)
    requires
        frame.wf(),
        wf3(*radial),
    ensures
        angle matches Ok(i) ==> {
            let (a, b) = frame_coordinates(*frame, values3(*radial), flip_for_negative_nappe);
            let (n_lo, n_hi) = span(frame.z_norm);
            let den_lo = if a * n_lo <= a * n_hi { a * n_lo } else { a * n_hi };
            let den_hi = if a * n_lo >= a * n_hi { a * n_lo } else { a * n_hi };
            let lower = atan2_enclosure(b, den_lo, TrigCap::spec_new(budget));
            let upper = atan2_enclosure(b, den_hi, TrigCap::spec_new(budget));
            &&& i.wf()
            &&& lower.0 && upper.0
            &&& span(i) == canonical_angle(
                span_hull((lower.1, lower.2), (upper.1, upper.2)),
                b < 0 as real,
                budget,
            )
        },
        angle matches Err(e) ==> budget_exhausted(e) || trig_failure(e),
        angle is Ok <==> {
            let c = budget_cap(budget);
            let tc = TrigCap::spec_new(budget);
            let rv = values3(*radial);
            let zx = cross_value(values3(frame.z_seed), values3(frame.x_perp));
            let (a0, b0) = (dot_value(rv, values3(frame.x_perp)), dot_value(rv, zx));
            let (a, b) = frame_coordinates(*frame, rv, flip_for_negative_nappe);
            let (n_lo, n_hi) = span(frame.z_norm);
            let den_lo = if a * n_lo <= a * n_hi { a * n_lo } else { a * n_hi };
            let den_hi = if a * n_lo >= a * n_hi { a * n_lo } else { a * n_hi };
            let lower = atan2_enclosure(b, den_lo, tc);
            let upper = atan2_enclosure(b, den_hi, tc);
            &&& c.dot_ok(rv, values3(frame.x_perp)) && c.cross_ok(values3(frame.z_seed), values3(frame.x_perp))
            &&& c.dot_ok(rv, zx)
            &&& (flip_for_negative_nappe ==> c.holds_value(a0) && c.holds_value(b0))
            &&& c.product_ok(a, n_lo) && c.product_ok(a, n_hi)
            &&& c.holds_value(den_lo) && c.holds_value(den_hi)
            &&& atan2_fits(b, den_lo, tc) && atan2_fits(b, den_hi, tc)
            &&& c.span_hull_ok((lower.1, lower.2), (upper.1, upper.2))
            &&& (b < 0 as real ==> tau_interval_fits(tc) && c.span_sum_ok(
                span_hull((lower.1, lower.2), (upper.1, upper.2)),
                tau_span(budget),
            ))
        },
{
    let cap = RationalCap::new(budget);
    let a0 = match raw_dot3(budget, radial, &frame.x_perp) {
        Ok(v) => v,
        Err(e) => return Err(e),
    };
    let z_cross_x = match raw_cross3(budget, &frame.z_seed, &frame.x_perp) {
        Ok(v) => v,
        Err(e) => return Err(e),
    };
    let b0 = match raw_dot3(budget, radial, &z_cross_x) {
        Ok(v) => v,
        Err(e) => return Err(e),
    };
    proof {
        lemma_bits_of_value(a0);
        lemma_bits_of_value(b0);
    }
    let (a, b) = if flip_for_negative_nappe {
        let na = match cap.neg(&a0) {
            Ok(v) => v,
            Err(e) => return Err(e),
        };
        let nb = match cap.neg(&b0) {
            Ok(v) => v,
            Err(e) => return Err(e),
        };
        (na, nb)
    } else {
        (a0, b0)
    };
    let endpoint_a = match cap.mul(&a, &frame.z_norm.lo) {
        Ok(v) => v,
        Err(e) => return Err(e),
    };
    let endpoint_b = match cap.mul(&a, &frame.z_norm.hi) {
        Ok(v) => v,
        Err(e) => return Err(e),
    };
    let denominator = RatInterval {
        lo: if endpoint_a.le(&endpoint_b) {
            endpoint_a.copy()
        } else {
            endpoint_b.copy()
        },
        hi: if endpoint_b.le(&endpoint_a) {
            endpoint_a
        } else {
            endpoint_b
        },
    };
    proof {
        lemma_bits_of_value(denominator.lo);
        lemma_bits_of_value(denominator.hi);
    }
    match check_interval_budget(budget, &denominator) {
        Ok(()) => {},
        Err(e) => return Err(e),
    }
    let lower_angle = match atan2_interval(&b, &denominator.lo, budget) {
        Ok(v) => v,
        Err(e) => return Err(trig_err_to_uncertified(e)),
    };
    let upper_angle = match atan2_interval(&b, &denominator.hi, budget) {
        Ok(v) => v,
        Err(e) => return Err(trig_err_to_uncertified(e)),
    };
    let angle = match interval_hull(budget, &lower_angle, &upper_angle) {
        Ok(v) => v,
        Err(e) => return Err(e),
    };
    let zero = ExactRational::from_int(0);
    let negative = !zero.le(&b);
    periodic_angle_interval(budget, angle, negative)
}

/// The magnitude of a real.
pub open spec fn abs_real(x: real) -> real {
    if x < 0 as real {
        -x
    } else {
        x
    }
}

/// The exact magnitude of a rational.
fn magnitude(r: &ExactRational) -> (m: ExactRational)
    requires
        r.wf(),
    ensures
        m.wf(),
        m.value() == abs_real(r.value()),
{
    let zero = ExactRational::from_int(0);
    if zero.le(r) {
        r.copy()
    } else {
        proof {
            crate::exact::lemma_negation_lowest_terms(*r);
        }
        r.neg()
    }
}

/// Where a certified angle interval stands relative to the `0 = tau` seam.
pub enum PeriodicRepresentative {
    /// The whole interval lies in `[0, tau)`: its own midpoint represents it.
    Interior,
    /// The interval touches or crosses the seam: `0` represents it, within
    /// the given circular distance.
    Seam(ExactRational),
}

/// The circular distance bound of a seam interval: the smaller of its
/// largest distance from `0` and its largest distance from the `tau`
/// enclosure.
pub open spec fn seam_bound(theta: (real, real), tau: (real, real)) -> real {
    min_real(
        max_real(abs_real(theta.0), abs_real(theta.1)),
        max_real(abs_real(theta.1 - tau.0), abs_real(tau.1 - theta.0)),
    )
}

/// Decides how a certified angle interval is represented in `[0, tau)`,
/// using only the rational `tau` enclosure: `Interior` when the interval is
/// provably inside `[0, tau)`, otherwise `Seam` with the exact circular
/// distance bound from `0`.
pub fn periodic_representative(budget: CertificationBudget, theta: &RatInterval) -> (representative: Result<PeriodicRepresentative, GeometryError>)
    requires
        theta.wf(),
    ensures
        representative matches Ok(r) ==> {
            let tau = tau_span(budget);
            let interior = theta.lo.value() >= 0 as real && theta.hi.value() < tau.0;
            &&& budget_cap(budget).fits(theta.lo) && budget_cap(budget).fits(theta.hi)
            &&& (interior <==> r is Interior)
            &&& (r matches PeriodicRepresentative::Seam(bound) ==> bound.wf() && bound.value()
                == seam_bound(span(*theta), tau))
        },
        representative matches Err(e) ==> budget_exhausted(e) || trig_failure(e),
        representative is Ok <==> {
            let c = budget_cap(budget);
            let tau = tau_span(budget);
            let th = span(*theta);
            let interior = th.0 >= 0 as real && th.1 < tau.0;
            &&& c.holds_value(th.0) && c.holds_value(th.1)
            &&& tau_interval_fits(TrigCap::spec_new(budget))
            &&& c.holds_value(tau.0) && c.holds_value(tau.1)
            &&& (!interior ==> c.difference_ok(th.1, tau.0) && c.difference_ok(tau.1, th.0))
        },
{
    let cap = RationalCap::new(budget);
    proof {
        lemma_bits_of_value(theta.lo);
        lemma_bits_of_value(theta.hi);
    }
    match check_interval_budget(budget, theta) {
        Ok(()) => {},
        Err(e) => return Err(e),
    }
    let tau = match tau_interval(budget) {
        Ok(t) => t,
        Err(e) => return Err(trig_err_to_uncertified(e)),
    };
    proof {
        lemma_bits_of_value(tau.lo);
        lemma_bits_of_value(tau.hi);
    }
    match check_interval_budget(budget, &tau) {
        Ok(()) => {},
        Err(e) => return Err(e),
    }
    let zero = ExactRational::from_int(0);
    if zero.le(&theta.lo) && !tau.lo.le(&theta.hi) {
        return Ok(PeriodicRepresentative::Interior);
    }
    let a = magnitude(&theta.lo);
    let b = magnitude(&theta.hi);
    let dist_zero = if b.le(&a) {
        a
    } else {
        b
    };
    let past = match cap.sub(&theta.hi, &tau.lo) {
        Ok(v) => v,
        Err(e) => return Err(e),
    };
    let before = match cap.sub(&tau.hi, &theta.lo) {
        Ok(v) => v,
        Err(e) => return Err(e),
    };
    let c = magnitude(&past);
    let d = magnitude(&before);
    let dist_tau = if d.le(&c) {
        c
    } else {
        d
    };
    let bound = if dist_zero.le(&dist_tau) {
        dist_zero
    } else {
        dist_tau
    };
    Ok(PeriodicRepresentative::Seam(bound))
}

/// The seam bound is a certified circular distance: every angle of the
/// interval is within it of `0`, or of every value of the `tau` enclosure.
pub proof fn seam_bound_covers_the_interval(theta: (real, real), tau: (real, real), x: real, t: real)
    requires
        theta.0 <= x && x <= theta.1,
        tau.0 <= t && t <= tau.1,
    ensures
        min_real(abs_real(x), abs_real(x - t)) <= seam_bound(theta, tau),
{
}

} // verus!
