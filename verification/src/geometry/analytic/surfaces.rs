//! The exact cores of circle, cylinder and cone evaluation: from exact
//! parameters and a certified frame to budgeted enclosures of the position
//! and its derivatives, one coordinate at a time.
use crate::exact::ExactRational;
use crate::geometry::analytic::affine::{
    exact_zero2,
    exact_zero3,
    less_scaled3,
    raw_plane_residual3,
    sub2_value,
    sub3_value,
    zero_axis,
};
use crate::geometry::analytic::angles::{trig_failure, IdealFrame3};
use crate::geometry::analytic::enclosure::{
    budget_cap,
    check_interval_budget,
    circle_component_intervals,
    circle_components_enclose,
    cone_component_intervals,
    cone_spans,
    dot_value,
    interval_add,
    interval_div,
    interval_neg,
    interval_point,
    interval_scale,
    span,
    span_holds,
    span_minor,
    span_negation,
    span_quotient,
    span_rotated,
    span_scaled,
    span_scaled_encloses,
    span_sum,
    span_sum_encloses,
    values3,
    wf3,
    zero_denominator,
};
use crate::geometry::analytic::helpers::{
    budget_exhausted,
    trig_err_to_uncertified,
    uncertified_because,
    RationalCap,
};
use crate::geometry::analytic::transcendental::{sin_cos_interval, sin_cos_interval_enclosure, sin_cos_interval_fits};
use crate::geometry::analytic::trig::{RatInterval, TrigCap};
use crate::geometry::error::GeometryError;
use crate::geometry::evaluation::CertificationBudget;
use vstd::prelude::*;

verus! {

/// The span of `sin(t)` that the certified trigonometry of a budget gives.
#[verifier::opaque]
pub open spec fn sine_span(t: real, budget: CertificationBudget) -> (real, real) {
    let e = sin_cos_interval_enclosure(t, TrigCap::spec_new(budget));
    (e.1, e.2)
}

/// The span of `cos(t)` that the certified trigonometry of a budget gives.
#[verifier::opaque]
pub open spec fn cosine_span(t: real, budget: CertificationBudget) -> (real, real) {
    let e = sin_cos_interval_enclosure(t, TrigCap::spec_new(budget));
    (e.3, e.4)
}

/// Certified `sin(t)` and `cos(t)`, with a trigonometric failure reported as
/// the geometry failure.
pub fn certified_sin_cos(budget: CertificationBudget, t: &ExactRational) -> (values: Result<
    (RatInterval, RatInterval),
    GeometryError,
>)
    requires
        t.wf(),
    ensures
        values matches Ok((s, c)) ==> s.wf() && c.wf() && span(s) == sine_span(t.value(), budget)
            && span(c) == cosine_span(t.value(), budget),
        values matches Err(e) ==> trig_failure(e),
        values is Ok <==> sin_cos_interval_fits(t.value(), TrigCap::spec_new(budget)),
{
    proof {
        reveal(sine_span);
        reveal(cosine_span);
    }
    match sin_cos_interval(t, budget) {
        Ok(pair) => Ok(pair),
        Err(e) => Err(trig_err_to_uncertified(e)),
    }
}

/// The position, first and second derivative spans of one coordinate of
/// `base + rc x + rs y`, where `rc`, `rs` enclose `r cos(t)`, `r sin(t)`.
#[verifier::opaque]
pub open spec fn circle_spans(
    base: real,
    x: (real, real),
    y: (real, real),
    rc: (real, real),
    rs: (real, real),
) -> ((real, real), (real, real), (real, real)) {
    let offset = span_rotated(rc, x, rs, y);
    (span_sum((base, base), offset), span_minor(rc, y, rs, x), span_negation(offset))
}

/// Every step of one circle coordinate fits the budget.
#[verifier::opaque]
pub open spec fn circle_fits(
    budget: CertificationBudget,
    base: real,
    x: (real, real),
    y: (real, real),
    rc: (real, real),
    rs: (real, real),
) -> bool {
    budget_cap(budget).circle_components_ok(base, x, y, rc, rs)
}

/// One coordinate of a circle point and its derivatives.
fn circle_coordinate(
    budget: CertificationBudget,
    base: &ExactRational,
    x: &RatInterval,
    y: &RatInterval,
    rc: &RatInterval,
    rs: &RatInterval,
) -> (components: Result<(RatInterval, RatInterval, RatInterval), GeometryError>)
    requires
        base.wf() && x.wf() && y.wf() && rc.wf() && rs.wf(),
    ensures
        components is Ok <==> circle_fits(budget, base.value(), span(*x), span(*y), span(*rc), span(*rs)),
        components matches Ok((p, f, s)) ==> holds_spans(p, f, s, circle_spans(base.value(), span(*x), span(*y), span(*rc), span(*rs))),
        components matches Err(e) ==> budget_exhausted(e),
{
    proof {
        reveal(circle_fits);
        reveal(circle_spans);
    }
    circle_component_intervals(budget, base, x, y, rc, rs)
}

/// The position and derivative enclosures of a curve point.
pub struct CurveEnclosure<const N: usize> {
    pub point: [RatInterval; N],
    pub first: [RatInterval; N],
    pub second: [RatInterval; N],
}

/// The three intervals hold exactly the given spans.
pub open spec fn holds_spans(
    p: RatInterval,
    f: RatInterval,
    s: RatInterval,
    spans: ((real, real), (real, real), (real, real)),
) -> bool {
    p.wf() && f.wf() && s.wf() && (span(p), span(f), span(s)) == spans
}

impl RationalCap {
    /// `r cos(t)` and `r sin(t)` fit.
    pub open spec fn radius_terms_ok(self, s: (real, real), c: (real, real), r: real) -> bool {
        self.span_scaled_ok(c, r) && self.span_scaled_ok(s, r)
    }
}

/// Certified enclosures of `r cos(t)` and `r sin(t)` from enclosures of
/// `sin(t)` and `cos(t)`.
pub fn radius_terms(
    budget: CertificationBudget,
    radius: &ExactRational,
    sin_t: &RatInterval,
    cos_t: &RatInterval,
) -> (terms: Result<(RatInterval, RatInterval), GeometryError>)
    requires
        radius.wf(),
        sin_t.wf(),
        cos_t.wf(),
    ensures
        ({
            let (s, c, r) = (span(*sin_t), span(*cos_t), radius.value());
            &&& (terms is Ok <==> budget_cap(budget).radius_terms_ok(s, c, r))
            &&& (terms matches Ok((rc, rs)) ==> rc.wf() && rs.wf() && (span(rc), span(rs)) == radius_spans(s, c, r))
            &&& (terms matches Err(e) ==> budget_exhausted(e))
        }),
{
    let radius_cos = match interval_scale(budget, cos_t, radius) {
        Ok(v) => v,
        Err(e) => return Err(e),
    };
    let radius_sin = match interval_scale(budget, sin_t, radius) {
        Ok(v) => v,
        Err(e) => return Err(e),
    };
    Ok((radius_cos, radius_sin))
}

/// The spans of `r cos(t)` and `r sin(t)` for the spans `s`, `c` of
/// `sin(t)`, `cos(t)`.
pub open spec fn radius_spans(s: (real, real), c: (real, real), r: real) -> ((real, real), (real, real)) {
    (span_scaled(c, r), span_scaled(s, r))
}

/// Certified position, first and second derivative of the planar circle
/// `center + r cos(t) x + r sin(t) y` at an exact angle, given the frame
/// axes' enclosures.
#[verifier::spinoff_prover]
pub fn circle_enclosure2(
    budget: CertificationBudget,
    center: &[ExactRational; 2],
    x: &[RatInterval; 2],
    y: &[RatInterval; 2],
    radius: &ExactRational,
    sin_t: &RatInterval,
    cos_t: &RatInterval,
) -> (enclosure: Result<CurveEnclosure<2>, GeometryError>)
    requires
        center[0].wf() && center[1].wf(),
        x[0].wf() && x[1].wf() && y[0].wf() && y[1].wf(),
        radius.wf(),
        sin_t.wf(),
        cos_t.wf(),
    ensures
        ({
            let (rc, rs) = radius_spans(span(*sin_t), span(*cos_t), radius.value());
            let ok = budget_cap(budget).radius_terms_ok(span(*sin_t), span(*cos_t), radius.value())
                && circle_fits(budget, center[0].value(), span(x[0]), span(y[0]), rc, rs)
                && circle_fits(budget, center[1].value(), span(x[1]), span(y[1]), rc, rs);
            &&& (enclosure matches Ok(e) ==> {
                &&& holds_spans(e.point[0], e.first[0], e.second[0], circle_spans(center[0].value(), span(x[0]), span(y[0]), rc, rs))
                &&& holds_spans(e.point[1], e.first[1], e.second[1], circle_spans(center[1].value(), span(x[1]), span(y[1]), rc, rs))
            })
            &&& (enclosure is Ok <==> ok)
            &&& (enclosure matches Err(e) ==> budget_exhausted(e))
        }),
{
    let (radius_cos, radius_sin) = match radius_terms(budget, radius, sin_t, cos_t) {
        Ok(pair) => pair,
        Err(e) => return Err(e),
    };
    let (p0, f0, s0) = match circle_coordinate(budget, &center[0], &x[0], &y[0], &radius_cos, &radius_sin) {
        Ok(v) => v,
        Err(e) => return Err(e),
    };
    let (p1, f1, s1) = match circle_coordinate(budget, &center[1], &x[1], &y[1], &radius_cos, &radius_sin) {
        Ok(v) => v,
        Err(e) => return Err(e),
    };
    Ok(CurveEnclosure { point: [p0, p1], first: [f0, f1], second: [s0, s1] })
}

/// Certified position, first and second derivative of the spatial circle
/// `center + r cos(t) x + r sin(t) y` at an exact angle, in the axes `x`,
/// `y` of a certified frame.
#[verifier::spinoff_prover]
pub fn circle_enclosure3(
    budget: CertificationBudget,
    center: &[ExactRational; 3],
    frame: &IdealFrame3,
    radius: &ExactRational,
    sin_t: &RatInterval,
    cos_t: &RatInterval,
) -> (enclosure: Result<CurveEnclosure<3>, GeometryError>)
    requires
        wf3(*center),
        frame.wf(),
        radius.wf(),
        sin_t.wf(),
        cos_t.wf(),
    ensures
        ({
            let (rc, rs) = radius_spans(span(*sin_t), span(*cos_t), radius.value());
            let ok = budget_cap(budget).radius_terms_ok(span(*sin_t), span(*cos_t), radius.value())
                && circle_fits(budget, center[0].value(), span(frame.x[0]), span(frame.y[0]), rc, rs)
                && circle_fits(budget, center[1].value(), span(frame.x[1]), span(frame.y[1]), rc, rs)
                && circle_fits(budget, center[2].value(), span(frame.x[2]), span(frame.y[2]), rc, rs);
            &&& (enclosure matches Ok(e) ==> {
                &&& holds_spans(e.point[0], e.first[0], e.second[0], circle_spans(center[0].value(), span(frame.x[0]), span(frame.y[0]), rc, rs))
                &&& holds_spans(e.point[1], e.first[1], e.second[1], circle_spans(center[1].value(), span(frame.x[1]), span(frame.y[1]), rc, rs))
                &&& holds_spans(e.point[2], e.first[2], e.second[2], circle_spans(center[2].value(), span(frame.x[2]), span(frame.y[2]), rc, rs))
            })
            &&& (enclosure is Ok <==> ok)
            &&& (enclosure matches Err(e) ==> budget_exhausted(e))
        }),
{
    let (radius_cos, radius_sin) = match radius_terms(budget, radius, sin_t, cos_t) {
        Ok(pair) => pair,
        Err(e) => return Err(e),
    };
    let (p0, f0, s0) = match circle_coordinate(budget, &center[0], &frame.x[0], &frame.y[0], &radius_cos, &radius_sin) {
        Ok(v) => v,
        Err(e) => return Err(e),
    };
    let (p1, f1, s1) = match circle_coordinate(budget, &center[1], &frame.x[1], &frame.y[1], &radius_cos, &radius_sin) {
        Ok(v) => v,
        Err(e) => return Err(e),
    };
    let (p2, f2, s2) = match circle_coordinate(budget, &center[2], &frame.x[2], &frame.y[2], &radius_cos, &radius_sin) {
        Ok(v) => v,
        Err(e) => return Err(e),
    };
    Ok(CurveEnclosure { point: [p0, p1, p2], first: [f0, f1, f2], second: [s0, s1, s2] })
}

/// The position, `d/du` and `d2/du2` spans of one coordinate of the
/// cylinder `base + r cos(u) x + r sin(u) y + v z`.
#[verifier::opaque]
pub open spec fn cylinder_spans(
    base: real,
    z: (real, real),
    x: (real, real),
    y: (real, real),
    v: real,
    rc: (real, real),
    rs: (real, real),
) -> ((real, real), (real, real), (real, real)) {
    let around = circle_spans(base, x, y, rc, rs);
    (span_sum(around.0, span_scaled(z, v)), around.1, around.2)
}

/// Every step of one cylinder coordinate fits the budget.
#[verifier::opaque]
pub open spec fn cylinder_fits(
    budget: CertificationBudget,
    base: real,
    z: (real, real),
    x: (real, real),
    y: (real, real),
    v: real,
    rc: (real, real),
    rs: (real, real),
) -> bool {
    let cap = budget_cap(budget);
    &&& circle_fits(budget, base, x, y, rc, rs)
    &&& cap.span_scaled_ok(z, v)
    &&& cap.span_sum_ok(circle_spans(base, x, y, rc, rs).0, span_scaled(z, v))
}

/// One coordinate of a cylinder point and its `u` derivatives.
fn cylinder_coordinate(
    budget: CertificationBudget,
    base: &ExactRational,
    z: &RatInterval,
    x: &RatInterval,
    y: &RatInterval,
    v: &ExactRational,
    rc: &RatInterval,
    rs: &RatInterval,
) -> (components: Result<(RatInterval, RatInterval, RatInterval), GeometryError>)
    requires
        base.wf() && z.wf() && x.wf() && y.wf() && v.wf() && rc.wf() && rs.wf(),
    ensures
        components is Ok <==> cylinder_fits(budget, base.value(), span(*z), span(*x), span(*y), v.value(), span(*rc), span(*rs)),
        components matches Ok((p, du, duu)) ==> holds_spans(
            p,
            du,
            duu,
            cylinder_spans(base.value(), span(*z), span(*x), span(*y), v.value(), span(*rc), span(*rs)),
        ),
        components matches Err(e) ==> budget_exhausted(e),
{
    proof {
        reveal(cylinder_fits);
        reveal(cylinder_spans);
    }
    let (around, du, duu) = match circle_coordinate(budget, base, x, y, rc, rs) {
        Ok(c) => c,
        Err(e) => return Err(e),
    };
    let along = match interval_scale(budget, z, v) {
        Ok(w) => w,
        Err(e) => return Err(e),
    };
    let point = match interval_add(budget, &around, &along) {
        Ok(w) => w,
        Err(e) => return Err(e),
    };
    Ok((point, du, duu))
}

/// The position and `u` derivative enclosures of a cylinder point; the
/// `v` derivative is the frame's axis `z` itself.
pub struct CylinderEnclosure {
    pub point: [RatInterval; 3],
    pub du: [RatInterval; 3],
    pub duu: [RatInterval; 3],
}

/// Certified position and `u` derivatives of the cylinder
/// `origin + r cos(u) x + r sin(u) y + v z` at exact `(u, v)`, in a
/// certified frame.
#[verifier::spinoff_prover]
pub fn cylinder_enclosure(
    budget: CertificationBudget,
    origin: &[ExactRational; 3],
    frame: &IdealFrame3,
    radius: &ExactRational,
    sin_u: &RatInterval,
    cos_u: &RatInterval,
    v: &ExactRational,
) -> (enclosure: Result<CylinderEnclosure, GeometryError>)
    requires
        wf3(*origin),
        frame.wf(),
        radius.wf(),
        sin_u.wf(),
        cos_u.wf(),
        v.wf(),
    ensures
        ({
            let (rc, rs) = radius_spans(span(*sin_u), span(*cos_u), radius.value());
            let ok = budget_cap(budget).radius_terms_ok(span(*sin_u), span(*cos_u), radius.value())
                && cylinder_fits(budget, origin[0].value(), span(frame.z[0]), span(frame.x[0]), span(frame.y[0]), v.value(), rc, rs)
                && cylinder_fits(budget, origin[1].value(), span(frame.z[1]), span(frame.x[1]), span(frame.y[1]), v.value(), rc, rs)
                && cylinder_fits(budget, origin[2].value(), span(frame.z[2]), span(frame.x[2]), span(frame.y[2]), v.value(), rc, rs);
            &&& (enclosure matches Ok(e) ==> {
                &&& holds_spans(e.point[0], e.du[0], e.duu[0], cylinder_spans(origin[0].value(), span(frame.z[0]), span(frame.x[0]), span(frame.y[0]), v.value(), rc, rs))
                &&& holds_spans(e.point[1], e.du[1], e.duu[1], cylinder_spans(origin[1].value(), span(frame.z[1]), span(frame.x[1]), span(frame.y[1]), v.value(), rc, rs))
                &&& holds_spans(e.point[2], e.du[2], e.duu[2], cylinder_spans(origin[2].value(), span(frame.z[2]), span(frame.x[2]), span(frame.y[2]), v.value(), rc, rs))
            })
            &&& (enclosure is Ok <==> ok)
            &&& (enclosure matches Err(e) ==> budget_exhausted(e))
        }),
{
    let (radius_cos, radius_sin) = match radius_terms(budget, radius, sin_u, cos_u) {
        Ok(pair) => pair,
        Err(e) => return Err(e),
    };
    let (p0, d0, s0) = match cylinder_coordinate(budget, &origin[0], &frame.z[0], &frame.x[0], &frame.y[0], v, &radius_cos, &radius_sin) {
        Ok(w) => w,
        Err(e) => return Err(e),
    };
    let (p1, d1, s1) = match cylinder_coordinate(budget, &origin[1], &frame.z[1], &frame.x[1], &frame.y[1], v, &radius_cos, &radius_sin) {
        Ok(w) => w,
        Err(e) => return Err(e),
    };
    let (p2, d2, s2) = match cylinder_coordinate(budget, &origin[2], &frame.z[2], &frame.x[2], &frame.y[2], v, &radius_cos, &radius_sin) {
        Ok(w) => w,
        Err(e) => return Err(e),
    };
    Ok(CylinderEnclosure { point: [p0, p1, p2], du: [d0, d1, d2], duu: [s0, s1, s2] })
}

/// The failure for a cone whose tangent enclosure is not certainly positive.
pub open spec fn tangent_not_positive(error: GeometryError) -> bool {
    uncertified_because(error, "cone tangent interval is not provably positive"@)
}

/// The failures of a certified quotient whose steps do not fit or whose
/// divisor may vanish.
pub open spec fn quotient_failure(error: GeometryError) -> bool {
    ||| zero_denominator(error)
    ||| budget_exhausted(error)
    ||| uncertified_because(error, "exact-rational division by zero"@)
}

/// The certified tangent of a cone's half angle `a`, `sin(a) / cos(a)`
/// from enclosures of `sin(a)` and `cos(a)`; it must be certainly positive.
pub fn cone_tangent(budget: CertificationBudget, sin_a: &RatInterval, cos_a: &RatInterval) -> (tangent: Result<
    RatInterval,
    GeometryError,
>)
    requires
        sin_a.wf(),
        cos_a.wf(),
    ensures
        ({
            let quotient_ok = budget_cap(budget).span_quotient_ok(span(*sin_a), span(*cos_a));
            let t = span_quotient(span(*sin_a), span(*cos_a));
            &&& (tangent is Ok <==> quotient_ok && t.0 > 0 as real)
            &&& (tangent matches Ok(w) ==> w.wf() && span(w) == t)
            &&& (tangent matches Err(e) ==> (quotient_failure(e) && !quotient_ok) || (tangent_not_positive(e)
                && quotient_ok && t.0 <= 0 as real))
        }),
{
    let tangent = match interval_div(budget, sin_a, cos_a) {
        Ok(t) => t,
        Err(e) => return Err(e),
    };
    let zero = ExactRational::from_int(0);
    if tangent.lo.le(&zero) {
        return Err(GeometryError::Uncertified { reason: "cone tangent interval is not provably positive".to_owned() });
    }
    Ok(tangent)
}

/// The position and derivative spans of one coordinate of a cone, in the
/// order position, `d/du`, `d/dv`, `d2/du2`, `d2/dudv`.
#[verifier::opaque]
pub open spec fn cone_coordinate_spans(
    apex: real,
    z: (real, real),
    x: (real, real),
    y: (real, real),
    v: real,
    tangent: (real, real),
    sin_u: (real, real),
    cos_u: (real, real),
) -> ((real, real), (real, real), (real, real), (real, real), (real, real)) {
    cone_spans(apex, z, x, y, v, tangent, sin_u, cos_u)
}

/// Every step of one cone coordinate fits the budget.
#[verifier::opaque]
pub open spec fn cone_fits(
    budget: CertificationBudget,
    apex: real,
    z: (real, real),
    x: (real, real),
    y: (real, real),
    v: real,
    tangent: (real, real),
    sin_u: (real, real),
    cos_u: (real, real),
) -> bool {
    budget_cap(budget).cone_components_ok(apex, z, x, y, v, tangent, sin_u, cos_u)
}

/// The five intervals hold exactly the given spans.
pub open spec fn holds_cone_spans(
    p: RatInterval,
    du: RatInterval,
    dv: RatInterval,
    duu: RatInterval,
    duv: RatInterval,
    spans: ((real, real), (real, real), (real, real), (real, real), (real, real)),
) -> bool {
    &&& p.wf() && du.wf() && dv.wf() && duu.wf() && duv.wf()
    &&& (span(p), span(du), span(dv), span(duu), span(duv)) == spans
}

/// One coordinate of a cone point and its derivatives.
fn cone_coordinate(
    budget: CertificationBudget,
    apex: &ExactRational,
    z: &RatInterval,
    x: &RatInterval,
    y: &RatInterval,
    v: &ExactRational,
    tangent: &RatInterval,
    sin_u: &RatInterval,
    cos_u: &RatInterval,
) -> (components: Result<(RatInterval, RatInterval, RatInterval, RatInterval, RatInterval), GeometryError>)
    requires
        apex.wf() && z.wf() && x.wf() && y.wf() && v.wf() && tangent.wf() && sin_u.wf() && cos_u.wf(),
    ensures
        components is Ok <==> cone_fits(
            budget,
            apex.value(),
            span(*z),
            span(*x),
            span(*y),
            v.value(),
            span(*tangent),
            span(*sin_u),
            span(*cos_u),
        ),
        components matches Ok((p, du, dv, duu, duv)) ==> holds_cone_spans(
            p,
            du,
            dv,
            duu,
            duv,
            cone_coordinate_spans(
                apex.value(),
                span(*z),
                span(*x),
                span(*y),
                v.value(),
                span(*tangent),
                span(*sin_u),
                span(*cos_u),
            ),
        ),
        components matches Err(e) ==> budget_exhausted(e),
{
    proof {
        reveal(cone_fits);
        reveal(cone_coordinate_spans);
    }
    cone_component_intervals(budget, apex, z, x, y, v, tangent, sin_u, cos_u)
}

/// The position and derivative enclosures of a cone point; `d2/dv2` is
/// exactly zero.
pub struct ConeEnclosure {
    pub point: [RatInterval; 3],
    pub du: [RatInterval; 3],
    pub dv: [RatInterval; 3],
    pub duu: [RatInterval; 3],
    pub duv: [RatInterval; 3],
}

/// Certified position and derivatives of the cone
/// `apex + v z + v tan(a) (cos(u) x + sin(u) y)` at exact `v`, from
/// enclosures of `tan(a)`, `sin(u)`, `cos(u)`, in a certified frame.
#[verifier::spinoff_prover]
pub fn cone_enclosure(
    budget: CertificationBudget,
    apex: &[ExactRational; 3],
    frame: &IdealFrame3,
    tangent: &RatInterval,
    sin_u: &RatInterval,
    cos_u: &RatInterval,
    v: &ExactRational,
) -> (enclosure: Result<ConeEnclosure, GeometryError>)
    requires
        wf3(*apex),
        frame.wf(),
        tangent.wf(),
        sin_u.wf(),
        cos_u.wf(),
        v.wf(),
    ensures
        ({
            let (t, s, c) = (span(*tangent), span(*sin_u), span(*cos_u));
            let fits = cone_fits(budget, apex[0].value(), span(frame.z[0]), span(frame.x[0]), span(frame.y[0]), v.value(), t, s, c)
                && cone_fits(budget, apex[1].value(), span(frame.z[1]), span(frame.x[1]), span(frame.y[1]), v.value(), t, s, c)
                && cone_fits(budget, apex[2].value(), span(frame.z[2]), span(frame.x[2]), span(frame.y[2]), v.value(), t, s, c);
            &&& (enclosure is Ok <==> fits)
            &&& (enclosure matches Ok(e) ==> {
                &&& holds_cone_spans(e.point[0], e.du[0], e.dv[0], e.duu[0], e.duv[0], cone_coordinate_spans(apex[0].value(), span(frame.z[0]), span(frame.x[0]), span(frame.y[0]), v.value(), t, s, c))
                &&& holds_cone_spans(e.point[1], e.du[1], e.dv[1], e.duu[1], e.duv[1], cone_coordinate_spans(apex[1].value(), span(frame.z[1]), span(frame.x[1]), span(frame.y[1]), v.value(), t, s, c))
                &&& holds_cone_spans(e.point[2], e.du[2], e.dv[2], e.duu[2], e.duv[2], cone_coordinate_spans(apex[2].value(), span(frame.z[2]), span(frame.x[2]), span(frame.y[2]), v.value(), t, s, c))
            })
            &&& (enclosure matches Err(e) ==> budget_exhausted(e))
        }),
{
    let (p0, du0, dv0, duu0, duv0) = match cone_coordinate(budget, &apex[0], &frame.z[0], &frame.x[0], &frame.y[0], v, tangent, sin_u, cos_u) {
        Ok(w) => w,
        Err(e) => return Err(e),
    };
    let (p1, du1, dv1, duu1, duv1) = match cone_coordinate(budget, &apex[1], &frame.z[1], &frame.x[1], &frame.y[1], v, tangent, sin_u, cos_u) {
        Ok(w) => w,
        Err(e) => return Err(e),
    };
    let (p2, du2, dv2, duu2, duv2) = match cone_coordinate(budget, &apex[2], &frame.z[2], &frame.x[2], &frame.y[2], v, tangent, sin_u, cos_u) {
        Ok(w) => w,
        Err(e) => return Err(e),
    };
    Ok(ConeEnclosure {
        point: [p0, p1, p2],
        du: [du0, du1, du2],
        dv: [dv0, dv1, dv2],
        duu: [duu0, duu1, duu2],
        duv: [duv0, duv1, duv2],
    })
}

/// The planar frame's `y` axis, the quarter turn `(-x1, x0)` of its unit
/// `x` axis.
pub fn quarter_turn2(budget: CertificationBudget, x: &[RatInterval; 2]) -> (y: Result<[RatInterval; 2], GeometryError>)
    requires
        x[0].wf() && x[1].wf(),
    ensures
        ({
            let cap = budget_cap(budget);
            &&& (y is Ok <==> cap.span_negation_ok(span(x[1])) && cap.fits(x[0].lo) && cap.fits(x[0].hi))
            &&& (y matches Ok(w) ==> w[0].wf() && w[1].wf() && span(w[0]) == span_negation(span(x[1]))
                && span(w[1]) == span(x[0]))
            &&& (y matches Err(e) ==> budget_exhausted(e))
        }),
{
    let first = match interval_neg(budget, &x[1]) {
        Ok(w) => w,
        Err(e) => return Err(e),
    };
    let second = x[0].copy();
    match check_interval_budget(budget, &second) {
        Ok(()) => {},
        Err(e) => return Err(e),
    }
    Ok([first, second])
}

/// The span of `base + r unit` in one coordinate.
pub open spec fn offset_span(base: real, unit: (real, real), r: real) -> (real, real) {
    span_sum((base, base), span_scaled(unit, r))
}

impl RationalCap {
    /// Every step of `base + r unit` in one coordinate fits.
    pub open spec fn offset_ok(self, base: real, unit: (real, real), r: real) -> bool {
        &&& self.holds_value(base)
        &&& self.span_scaled_ok(unit, r)
        &&& self.span_sum_ok((base, base), span_scaled(unit, r))
    }
}

/// One coordinate of `base + r unit`.
fn offset_coordinate(
    budget: CertificationBudget,
    base: &ExactRational,
    unit: &RatInterval,
    radius: &ExactRational,
) -> (offset: Result<RatInterval, GeometryError>)
    requires
        base.wf() && unit.wf() && radius.wf(),
    ensures
        offset is Ok <==> budget_cap(budget).offset_ok(base.value(), span(*unit), radius.value()),
        offset matches Ok(o) ==> o.wf() && span(o) == offset_span(base.value(), span(*unit), radius.value()),
        offset matches Err(e) ==> budget_exhausted(e),
{
    let start = match interval_point(budget, base.copy()) {
        Ok(w) => w,
        Err(e) => return Err(e),
    };
    let step = match interval_scale(budget, unit, radius) {
        Ok(w) => w,
        Err(e) => return Err(e),
    };
    interval_add(budget, &start, &step)
}

/// Certified `base + r unit` in the plane: the point at distance `r` from
/// `base` along an enclosed unit direction.
pub fn offset_point2(
    budget: CertificationBudget,
    base: &[ExactRational; 2],
    unit: &[RatInterval; 2],
    radius: &ExactRational,
) -> (point: Result<[RatInterval; 2], GeometryError>)
    requires
        base[0].wf() && base[1].wf(),
        unit[0].wf() && unit[1].wf(),
        radius.wf(),
    ensures
        ({
            let cap = budget_cap(budget);
            let r = radius.value();
            let ok = cap.offset_ok(base[0].value(), span(unit[0]), r) && cap.offset_ok(base[1].value(), span(unit[1]), r);
            &&& (point is Ok <==> ok)
            &&& (point matches Ok(p) ==> p[0].wf() && p[1].wf()
                && span(p[0]) == offset_span(base[0].value(), span(unit[0]), r)
                && span(p[1]) == offset_span(base[1].value(), span(unit[1]), r))
            &&& (point matches Err(e) ==> budget_exhausted(e))
        }),
{
    let p0 = match offset_coordinate(budget, &base[0], &unit[0], radius) {
        Ok(w) => w,
        Err(e) => return Err(e),
    };
    let p1 = match offset_coordinate(budget, &base[1], &unit[1], radius) {
        Ok(w) => w,
        Err(e) => return Err(e),
    };
    Ok([p0, p1])
}

/// Certified `base + r unit` in space.
pub fn offset_point3(
    budget: CertificationBudget,
    base: &[ExactRational; 3],
    unit: &[RatInterval; 3],
    radius: &ExactRational,
) -> (point: Result<[RatInterval; 3], GeometryError>)
    requires
        wf3(*base),
        unit[0].wf() && unit[1].wf() && unit[2].wf(),
        radius.wf(),
    ensures
        ({
            let cap = budget_cap(budget);
            let r = radius.value();
            let ok = cap.offset_ok(base[0].value(), span(unit[0]), r) && cap.offset_ok(base[1].value(), span(unit[1]), r)
                && cap.offset_ok(base[2].value(), span(unit[2]), r);
            &&& (point is Ok <==> ok)
            &&& (point matches Ok(p) ==> p[0].wf() && p[1].wf() && p[2].wf()
                && span(p[0]) == offset_span(base[0].value(), span(unit[0]), r)
                && span(p[1]) == offset_span(base[1].value(), span(unit[1]), r)
                && span(p[2]) == offset_span(base[2].value(), span(unit[2]), r))
            &&& (point matches Err(e) ==> budget_exhausted(e))
        }),
{
    let p0 = match offset_coordinate(budget, &base[0], &unit[0], radius) {
        Ok(w) => w,
        Err(e) => return Err(e),
    };
    let p1 = match offset_coordinate(budget, &base[1], &unit[1], radius) {
        Ok(w) => w,
        Err(e) => return Err(e),
    };
    let p2 = match offset_coordinate(budget, &base[2], &unit[2], radius) {
        Ok(w) => w,
        Err(e) => return Err(e),
    };
    Ok([p0, p1, p2])
}

/// The exact radial vector `query - center` of a planar circle projection;
/// a query at the center, where every point of the circle is nearest, is
/// refused as singular.
pub fn circle_radial2(
    budget: CertificationBudget,
    query: &[ExactRational; 2],
    center: &[ExactRational; 2],
) -> (radial: Result<[ExactRational; 2], GeometryError>)
    requires
        query[0].wf() && query[1].wf(),
        center[0].wf() && center[1].wf(),
    ensures
        ({
            let (q, c) = ((query[0].value(), query[1].value()), (center[0].value(), center[1].value()));
            let ok = budget_cap(budget).difference2_ok(q, c);
            &&& (radial is Ok <==> ok && sub2_value(q, c) != (0 as real, 0 as real))
            &&& (radial matches Ok(r) ==> r[0].wf() && r[1].wf() && (r[0].value(), r[1].value()) == sub2_value(q, c))
            &&& (radial matches Err(e) ==> (budget_exhausted(e) && !ok) || (e is Singular && ok))
        }),
{
    let cap = RationalCap::new(budget);
    let r0 = match cap.sub(&query[0], &center[0]) {
        Ok(w) => w,
        Err(e) => return Err(e),
    };
    let r1 = match cap.sub(&query[1], &center[1]) {
        Ok(w) => w,
        Err(e) => return Err(e),
    };
    let radial = [r0, r1];
    if exact_zero2(&radial) {
        return Err(GeometryError::Singular);
    }
    Ok(radial)
}

/// The two exact points coincide.
pub fn same_point3(a: &[ExactRational; 3], b: &[ExactRational; 3]) -> (same: bool)
    requires
        wf3(*a),
        wf3(*b),
    ensures
        same == (values3(*a) == values3(*b)),
{
    a[0].le(&b[0]) && b[0].le(&a[0]) && a[1].le(&b[1]) && b[1].le(&a[1]) && a[2].le(&b[2]) && b[2].le(&a[2])
}

/// Splits `query - origin` along an exact axis seed into the axial
/// parameter and the radial residual; a query on the axis, where the
/// nearest point of a circle or cylinder is not unique, is refused as
/// singular.
#[verifier::spinoff_prover]
pub fn axial_split3(
    budget: CertificationBudget,
    query: &[ExactRational; 3],
    origin: &[ExactRational; 3],
    z_seed: &[ExactRational; 3],
) -> (split: Result<(ExactRational, [ExactRational; 3]), GeometryError>)
    requires
        wf3(*query),
        wf3(*origin),
        wf3(*z_seed),
    ensures
        ({
            let c = budget_cap(budget);
            let (q, o, z) = (values3(*query), values3(*origin), values3(*z_seed));
            let d = sub3_value(q, o);
            let t = dot_value(d, z) / dot_value(z, z);
            let ok = c.difference3_ok(q, o) && c.dot_ok(z, z) && dot_value(z, z) > 0 as real && c.split_ok(d, z);
            &&& (split is Ok <==> ok && less_scaled3(d, z, t) != (0 as real, 0 as real, 0 as real))
            &&& (split matches Ok((p, radial)) ==> p.wf() && wf3(radial) && p.value() == t
                && values3(radial) == less_scaled3(d, z, t))
            &&& (split matches Err(e) ==> budget_exhausted(e) || zero_axis(e) || (e is Singular && ok))
        }),
{
    let cap = RationalCap::new(budget);
    let d0 = match cap.sub(&query[0], &origin[0]) {
        Ok(w) => w,
        Err(e) => return Err(e),
    };
    let d1 = match cap.sub(&query[1], &origin[1]) {
        Ok(w) => w,
        Err(e) => return Err(e),
    };
    let d2 = match cap.sub(&query[2], &origin[2]) {
        Ok(w) => w,
        Err(e) => return Err(e),
    };
    let displacement = [d0, d1, d2];
    let (parameter, radial) = match raw_plane_residual3(budget, &displacement, z_seed) {
        Ok(w) => w,
        Err(e) => return Err(e),
    };
    if exact_zero3(&radial) {
        return Err(GeometryError::Singular);
    }
    Ok((parameter, radial))
}

/// A cylinder coordinate's spans hold its position
/// `base + r cos(u) x + r sin(u) y + v z` and its `u` derivatives whenever
/// the frame, sine and cosine spans hold the true values.
pub proof fn cylinder_spans_enclose(
    base: real,
    z: (real, real),
    x: (real, real),
    y: (real, real),
    v: real,
    r: real,
    sin_span: (real, real),
    cos_span: (real, real),
    zv: real,
    xv: real,
    yv: real,
    su: real,
    cu: real,
)
    requires
        span_holds(z, zv),
        span_holds(x, xv),
        span_holds(y, yv),
        span_holds(sin_span, su),
        span_holds(cos_span, cu),
    ensures
        ({
            let (rc, rs) = radius_spans(sin_span, cos_span, r);
            let spans = cylinder_spans(base, z, x, y, v, rc, rs);
            &&& span_holds(spans.0, base + ((cu * r) * xv + (su * r) * yv) + zv * v)
            &&& span_holds(spans.1, (cu * r) * yv - (su * r) * xv)
            &&& span_holds(spans.2, -((cu * r) * xv + (su * r) * yv))
        }),
{
    reveal(cylinder_spans);
    reveal(circle_spans);
    let (rc, rs) = radius_spans(sin_span, cos_span, r);
    span_scaled_encloses(cos_span, r, cu);
    span_scaled_encloses(sin_span, r, su);
    circle_components_enclose(base, x, y, rc, rs, xv, yv, cu * r, su * r);
    span_scaled_encloses(z, v, zv);
    span_sum_encloses(
        span_sum((base, base), span_rotated(rc, x, rs, y)),
        span_scaled(z, v),
        base + ((cu * r) * xv + (su * r) * yv),
        zv * v,
    );
}

/// An offset span holds `base + r u` whenever the unit span holds `u`.
pub proof fn offset_span_encloses(base: real, unit: (real, real), r: real, uv: real)
    requires
        span_holds(unit, uv),
    ensures
        span_holds(offset_span(base, unit, r), base + uv * r),
{
    span_scaled_encloses(unit, r, uv);
    span_sum_encloses((base, base), span_scaled(unit, r), base, uv * r);
}

} // verus!
