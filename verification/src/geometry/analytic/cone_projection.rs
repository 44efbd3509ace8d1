//! The exact core of cone projection: the apex and generator-ray candidates
//! of a nearest point and the certified choice among them.
use crate::exact::ExactRational;
use crate::geometry::analytic::enclosure::{
    admissible_ray_parameter,
    budget_cap,
    interval_strictly_less,
    interval_add,
    interval_mul,
    interval_neg,
    interval_point,
    ray_parameter,
    span,
    span_negation,
    span_offset_square,
    span_product,
    span_ray_parameter,
    span_sum,
    squared_distance3,
    wf3,
};
use crate::geometry::analytic::helpers::{budget_exhausted, uncertified_because, RationalCap};
use crate::geometry::analytic::trig::RatInterval;
use crate::geometry::error::GeometryError;
use crate::geometry::evaluation::CertificationBudget;
use vstd::prelude::*;

verus! {

/// Which candidate of a cone projection a point comes from.
#[derive(Clone, Copy, PartialEq, Eq, Structural, Debug)]
pub enum ConeCandidateKind {
    Apex,
    Positive,
    Negative,
}

/// A nearest-point candidate: its kind, certified axial parameter, point
/// and squared distance to the query.
pub struct ConeCandidate {
    pub kind: ConeCandidateKind,
    pub v: RatInterval,
    pub point: [RatInterval; 3],
    pub squared_distance: RatInterval,
}

impl ConeCandidate {
    /// Every interval of the candidate is well formed.
    pub open spec fn wf(self) -> bool {
        &&& self.v.wf()
        &&& self.point[0].wf() && self.point[1].wf() && self.point[2].wf()
        &&& self.squared_distance.wf()
    }
}

/// The span of the squared distance from an exact query to an interval point.
pub open spec fn span_distance3(query: (real, real, real), point: [RatInterval; 3]) -> (real, real) {
    span_sum(
        span_sum(
            span_offset_square(query.0, span(point[0])),
            span_offset_square(query.1, span(point[1])),
        ),
        span_offset_square(query.2, span(point[2])),
    )
}

/// The coordinate values of an exact vector.
pub open spec fn coords(a: [ExactRational; 3]) -> (real, real, real) {
    (a[0].value(), a[1].value(), a[2].value())
}

/// The span of one coordinate of a ray point
/// `apex + v axis + scale unit`.
pub open spec fn span_ray_coordinate(
    apex: real,
    v: (real, real),
    axis: (real, real),
    scale: (real, real),
    unit: (real, real),
) -> (real, real) {
    span_sum(span_sum((apex, apex), span_product(v, axis)), span_product(scale, unit))
}

impl RationalCap {
    /// Every step of a certified squared distance from `query` fits.
    pub open spec fn distance3_ok(
        self,
        query: (real, real, real),
        p0: (real, real),
        p1: (real, real),
        p2: (real, real),
    ) -> bool {
        let (s0, s1, s2) = (
            span_offset_square(query.0, p0),
            span_offset_square(query.1, p1),
            span_offset_square(query.2, p2),
        );
        &&& self.offset_square_ok(query.0, p0)
        &&& self.offset_square_ok(query.1, p1)
        &&& self.offset_square_ok(query.2, p2)
        &&& self.span_sum_ok(s0, s1)
        &&& self.span_sum_ok(span_sum(s0, s1), s2)
    }

    /// Every step of one ray-point coordinate fits.
    pub open spec fn ray_coordinate_ok(
        self,
        apex: real,
        v: (real, real),
        axis: (real, real),
        scale: (real, real),
        unit: (real, real),
    ) -> bool {
        &&& self.holds_value(apex)
        &&& self.span_product_ok(v, axis)
        &&& self.span_sum_ok((apex, apex), span_product(v, axis))
        &&& self.span_product_ok(scale, unit)
        &&& self.span_sum_ok(span_sum((apex, apex), span_product(v, axis)), span_product(scale, unit))
    }
}

/// Certified `apex + v axis + scale unit` for one coordinate.
fn ray_coordinate(
    budget: CertificationBudget,
    apex: &ExactRational,
    v: &RatInterval,
    axis: &RatInterval,
    scale: &RatInterval,
    unit: &RatInterval,
) -> (coordinate: Result<RatInterval, GeometryError>)
    requires
        apex.wf(),
        v.wf(),
        axis.wf(),
        scale.wf(),
        unit.wf(),
    ensures
        coordinate is Ok <==> budget_cap(budget).ray_coordinate_ok(
            apex.value(),
            span(*v),
            span(*axis),
            span(*scale),
            span(*unit),
        ),
        coordinate matches Ok(c) ==> c.wf() && span(c) == span_ray_coordinate(
            apex.value(),
            span(*v),
            span(*axis),
            span(*scale),
            span(*unit),
        ),
        coordinate matches Err(e) ==> budget_exhausted(e),
{
    let start = match interval_point(budget, apex.copy()) {
        Ok(w) => w,
        Err(e) => return Err(e),
    };
    let along = match interval_mul(budget, v, axis) {
        Ok(w) => w,
        Err(e) => return Err(e),
    };
    let axial = match interval_add(budget, &start, &along) {
        Ok(w) => w,
        Err(e) => return Err(e),
    };
    let radial = match interval_mul(budget, scale, unit) {
        Ok(w) => w,
        Err(e) => return Err(e),
    };
    interval_add(budget, &axial, &radial)
}

/// The apex candidate: the apex itself at parameter zero.
pub fn make_apex_candidate(
    budget: CertificationBudget,
    apex: &[ExactRational; 3],
    query: &[ExactRational; 3],
) -> (candidate: Result<ConeCandidate, GeometryError>)
    requires
        wf3(*apex),
        wf3(*query),
    ensures
        candidate is Ok <==> {
            let c = budget_cap(budget);
            &&& c.holds_value(apex[0].value()) && c.holds_value(apex[1].value()) && c.holds_value(
                apex[2].value(),
            )
            &&& c.distance3_ok(
                coords(*query),
                (apex[0].value(), apex[0].value()),
                (apex[1].value(), apex[1].value()),
                (apex[2].value(), apex[2].value()),
            )
            &&& c.holds_value(0 as real)
        },
        candidate matches Ok(k) ==> {
            &&& k.wf()
            &&& k.kind == ConeCandidateKind::Apex
            &&& span(k.v) == (0 as real, 0 as real)
            &&& span(k.point[0]) == (apex[0].value(), apex[0].value())
            &&& span(k.point[1]) == (apex[1].value(), apex[1].value())
            &&& span(k.point[2]) == (apex[2].value(), apex[2].value())
            &&& span(k.squared_distance) == span_distance3(coords(*query), k.point)
        },
        candidate matches Err(e) ==> budget_exhausted(e),
{
    let p0 = match interval_point(budget, apex[0].copy()) {
        Ok(w) => w,
        Err(e) => return Err(e),
    };
    let p1 = match interval_point(budget, apex[1].copy()) {
        Ok(w) => w,
        Err(e) => return Err(e),
    };
    let p2 = match interval_point(budget, apex[2].copy()) {
        Ok(w) => w,
        Err(e) => return Err(e),
    };
    let point = [p0, p1, p2];
    let squared_distance = match squared_distance3(budget, query, &point) {
        Ok(w) => w,
        Err(e) => return Err(e),
    };
    let v = match interval_point(budget, ExactRational::from_int(0)) {
        Ok(w) => w,
        Err(e) => return Err(e),
    };
    Ok(ConeCandidate { kind: ConeCandidateKind::Apex, v, point, squared_distance })
}

/// The span of a ray candidate's axial parameter: the ray parameter,
/// negated on the negative nappe.
pub open spec fn candidate_v(kind: ConeCandidateKind, parameter: (real, real)) -> (real, real) {
    if kind == ConeCandidateKind::Negative {
        span_negation(parameter)
    } else {
        parameter
    }
}

/// The span of a ray candidate's radial scale `|v| tan(a)`.
pub open spec fn candidate_scale(kind: ConeCandidateKind, v: (real, real), tangent: (real, real)) -> (real, real) {
    if kind == ConeCandidateKind::Negative {
        span_product(span_negation(v), tangent)
    } else {
        span_product(v, tangent)
    }
}

impl RationalCap {
    /// Every step of building a ray candidate fits.
    pub open spec fn ray_candidate_ok(
        self,
        kind: ConeCandidateKind,
        apex: (real, real, real),
        axis: ((real, real), (real, real), (real, real)),
        unit: ((real, real), (real, real), (real, real)),
        tangent: (real, real),
        parameter: (real, real),
        query: (real, real, real),
    ) -> bool {
        let v = candidate_v(kind, parameter);
        let scale = candidate_scale(kind, v, tangent);
        &&& (kind == ConeCandidateKind::Negative ==> self.span_negation_ok(parameter))
        &&& (kind == ConeCandidateKind::Negative ==> self.span_negation_ok(v))
        &&& (kind == ConeCandidateKind::Negative ==> self.span_product_ok(span_negation(v), tangent))
        &&& (kind != ConeCandidateKind::Negative ==> self.span_product_ok(v, tangent))
        &&& self.ray_coordinate_ok(apex.0, v, axis.0, scale, unit.0)
        &&& self.ray_coordinate_ok(apex.1, v, axis.1, scale, unit.1)
        &&& self.ray_coordinate_ok(apex.2, v, axis.2, scale, unit.2)
        &&& self.distance3_ok(
            query,
            span_ray_coordinate(apex.0, v, axis.0, scale, unit.0),
            span_ray_coordinate(apex.1, v, axis.1, scale, unit.1),
            span_ray_coordinate(apex.2, v, axis.2, scale, unit.2),
        )
    }
}

/// The candidate's axial parameter and radial scale.
fn ray_scale(budget: CertificationBudget, kind: ConeCandidateKind, ray_parameter: RatInterval, tangent: &RatInterval) -> (scaled: Result<(RatInterval, RatInterval), GeometryError>)
    requires
        tangent.wf(),
        ray_parameter.wf(),
    ensures
        scaled is Ok <==> {
            let c = budget_cap(budget);
            let v = candidate_v(kind, span(ray_parameter));
            &&& (kind == ConeCandidateKind::Negative ==> c.span_negation_ok(span(ray_parameter)))
            &&& (kind == ConeCandidateKind::Negative ==> c.span_negation_ok(v))
            &&& (kind == ConeCandidateKind::Negative ==> c.span_product_ok(span_negation(v), span(*tangent)))
            &&& (kind != ConeCandidateKind::Negative ==> c.span_product_ok(v, span(*tangent)))
        },
        scaled matches Ok((v, scale)) ==> {
            &&& v.wf() && scale.wf()
            &&& span(v) == candidate_v(kind, span(ray_parameter))
            &&& span(scale) == candidate_scale(kind, span(v), span(*tangent))
        },
        scaled matches Err(e) ==> budget_exhausted(e),
{
    if kind == ConeCandidateKind::Negative {
        let v = match interval_neg(budget, &ray_parameter) {
            Ok(w) => w,
            Err(e) => return Err(e),
        };
        let back = match interval_neg(budget, &v) {
            Ok(w) => w,
            Err(e) => return Err(e),
        };
        match interval_mul(budget, &back, tangent) {
            Ok(w) => Ok((v, w)),
            Err(e) => Err(e),
        }
    } else {
        match interval_mul(budget, &ray_parameter, tangent) {
            Ok(w) => Ok((ray_parameter, w)),
            Err(e) => Err(e),
        }
    }
}

/// The three coordinates of `apex + v axis + scale unit`.
#[verifier::spinoff_prover]
#[verifier::rlimit(40)]
fn ray_point(
    budget: CertificationBudget,
    apex: &[ExactRational; 3],
    v: &RatInterval,
    axis: &[RatInterval; 3],
    scale: &RatInterval,
    unit: &[RatInterval; 3],
) -> (point: Result<[RatInterval; 3], GeometryError>)
    requires
        wf3(*apex),
        v.wf(),
        scale.wf(),
        axis[0].wf() && axis[1].wf() && axis[2].wf(),
        unit[0].wf() && unit[1].wf() && unit[2].wf(),
    ensures
        point is Ok <==> {
            let c = budget_cap(budget);
            &&& c.ray_coordinate_ok(apex[0].value(), span(*v), span(axis[0]), span(*scale), span(unit[0]))
            &&& c.ray_coordinate_ok(apex[1].value(), span(*v), span(axis[1]), span(*scale), span(unit[1]))
            &&& c.ray_coordinate_ok(apex[2].value(), span(*v), span(axis[2]), span(*scale), span(unit[2]))
        },
        point matches Ok(p) ==> {
            &&& p[0].wf() && p[1].wf() && p[2].wf()
            &&& span(p[0]) == span_ray_coordinate(apex[0].value(), span(*v), span(axis[0]), span(*scale), span(unit[0]))
            &&& span(p[1]) == span_ray_coordinate(apex[1].value(), span(*v), span(axis[1]), span(*scale), span(unit[1]))
            &&& span(p[2]) == span_ray_coordinate(apex[2].value(), span(*v), span(axis[2]), span(*scale), span(unit[2]))
        },
        point matches Err(e) ==> budget_exhausted(e),
{
    let p0 = match ray_coordinate(budget, &apex[0], v, &axis[0], scale, &unit[0]) {
        Ok(w) => w,
        Err(e) => return Err(e),
    };
    let p1 = match ray_coordinate(budget, &apex[1], v, &axis[1], scale, &unit[1]) {
        Ok(w) => w,
        Err(e) => return Err(e),
    };
    let p2 = match ray_coordinate(budget, &apex[2], v, &axis[2], scale, &unit[2]) {
        Ok(w) => w,
        Err(e) => return Err(e),
    };
    Ok([p0, p1, p2])
}

/// A generator-ray candidate: the point `apex + v axis + |v| tan(a) unit`
/// at the certified ray parameter, on the nappe that `kind` names.
#[verifier::spinoff_prover]
#[verifier::rlimit(40)]
pub fn make_cone_ray_candidate(
    budget: CertificationBudget,
    kind: ConeCandidateKind,
    apex: &[ExactRational; 3],
    axis: &[RatInterval; 3],
    radial_unit: &[RatInterval; 3],
    tangent: &RatInterval,
    ray_parameter: RatInterval,
    query: &[ExactRational; 3],
) -> (candidate: Result<ConeCandidate, GeometryError>)
    requires
        wf3(*apex),
        wf3(*query),
        axis[0].wf() && axis[1].wf() && axis[2].wf(),
        radial_unit[0].wf() && radial_unit[1].wf() && radial_unit[2].wf(),
        tangent.wf(),
        ray_parameter.wf(),
    ensures
        candidate is Ok <==> budget_cap(budget).ray_candidate_ok(
            kind,
            coords(*apex),
            (span(axis[0]), span(axis[1]), span(axis[2])),
            (span(radial_unit[0]), span(radial_unit[1]), span(radial_unit[2])),
            span(*tangent),
            span(ray_parameter),
            coords(*query),
        ),
        candidate matches Ok(k) ==> {
            let v = candidate_v(kind, span(ray_parameter));
            let scale = candidate_scale(kind, v, span(*tangent));
            &&& k.wf()
            &&& k.kind == kind
            &&& span(k.v) == v
            &&& span(k.point[0]) == span_ray_coordinate(apex[0].value(), v, span(axis[0]), scale, span(radial_unit[0]))
            &&& span(k.point[1]) == span_ray_coordinate(apex[1].value(), v, span(axis[1]), scale, span(radial_unit[1]))
            &&& span(k.point[2]) == span_ray_coordinate(apex[2].value(), v, span(axis[2]), scale, span(radial_unit[2]))
            &&& span(k.squared_distance) == span_distance3(coords(*query), k.point)
        },
        candidate matches Err(e) ==> budget_exhausted(e),
{
    let (v, radial_scale) = match ray_scale(budget, kind, ray_parameter, tangent) {
        Ok(w) => w,
        Err(e) => return Err(e),
    };
    let point = match ray_point(budget, apex, &v, axis, &radial_scale, radial_unit) {
        Ok(w) => w,
        Err(e) => return Err(e),
    };
    let squared_distance = match squared_distance3(budget, query, &point) {
        Ok(w) => w,
        Err(e) => return Err(e),
    };
    Ok(ConeCandidate { kind, v, point, squared_distance })
}

/// Every squared distance of `a` is certainly below every one of `b`.
pub open spec fn certainly_closer(a: ConeCandidate, b: ConeCandidate) -> bool {
    a.squared_distance.hi.value() < b.squared_distance.lo.value()
}

/// `c` is certainly closer than every other candidate that is present.
pub open spec fn closest_of(c: ConeCandidate, others: Seq<Option<ConeCandidate>>) -> bool {
    forall|i: int| 0 <= i < others.len() ==> (#[trigger] others[i] matches Some(o) ==> certainly_closer(c, o))
}

/// Chooses the reported candidate of a cone projection by certified
/// squared distances. When the query lies exactly level with the apex
/// (`axial_zero`) and both rays are admissible, the rays are mirror images:
/// both are reported when both are certainly closer than the apex, the apex
/// alone when it is certainly closer than both, and otherwise the order is
/// uncertified. Otherwise the unique candidate certainly closer than every
/// other present one is reported, trying the apex, then the positive, then
/// the negative ray.
pub fn select_cone_candidate(
    axial_zero: bool,
    apex: &ConeCandidate,
    positive: &Option<ConeCandidate>,
    negative: &Option<ConeCandidate>,
) -> (selection: Result<(ConeCandidateKind, Option<ConeCandidateKind>), GeometryError>)
    requires
        apex.wf(),
        positive matches Some(p) ==> p.wf(),
        negative matches Some(n) ==> n.wf(),
    ensures
        axial_zero && positive is Some && negative is Some ==> {
            let (p, n) = (positive->0, negative->0);
            if certainly_closer(p, *apex) && certainly_closer(n, *apex) {
                selection == Ok::<_, GeometryError>((ConeCandidateKind::Positive, Some(ConeCandidateKind::Negative)))
            } else if certainly_closer(*apex, p) && certainly_closer(*apex, n) {
                selection == Ok::<_, GeometryError>((ConeCandidateKind::Apex, None::<ConeCandidateKind>))
            } else {
                selection matches Err(e) && uncertified_because(e, "cone apex/ray ordering cannot be certified"@)
            }
        },
        !(axial_zero && positive is Some && negative is Some) ==> {
            if closest_of(*apex, seq![*positive, *negative]) {
                selection == Ok::<_, GeometryError>((ConeCandidateKind::Apex, None::<ConeCandidateKind>))
            } else if positive matches Some(p) && closest_of(*p, seq![Some(*apex), *negative]) {
                selection == Ok::<_, GeometryError>((ConeCandidateKind::Positive, None::<ConeCandidateKind>))
            } else if negative matches Some(n) && closest_of(*n, seq![Some(*apex), *positive]) {
                selection == Ok::<_, GeometryError>((ConeCandidateKind::Negative, None::<ConeCandidateKind>))
            } else {
                selection matches Err(e) && uncertified_because(e, "cone candidate ordering cannot be certified"@)
            }
        },
{
    if axial_zero {
        if let (Some(p), Some(n)) = (positive, negative) {
            if interval_strictly_less(&p.squared_distance, &apex.squared_distance)
                && interval_strictly_less(&n.squared_distance, &apex.squared_distance) {
                return Ok((ConeCandidateKind::Positive, Some(ConeCandidateKind::Negative)));
            }
            if interval_strictly_less(&apex.squared_distance, &p.squared_distance)
                && interval_strictly_less(&apex.squared_distance, &n.squared_distance) {
                return Ok((ConeCandidateKind::Apex, None));
            }
            return Err(
                GeometryError::Uncertified {
                    reason: "cone apex/ray ordering cannot be certified".to_owned(),
                },
            );
        }
    }
    if closer_than_present(apex, positive) && closer_than_present(apex, negative) {
        return Ok((ConeCandidateKind::Apex, None));
    }
    if let Some(p) = positive {
        if interval_strictly_less(&p.squared_distance, &apex.squared_distance) && closer_than_present(p, negative) {
            return Ok((ConeCandidateKind::Positive, None));
        }
    }
    if let Some(n) = negative {
        if interval_strictly_less(&n.squared_distance, &apex.squared_distance) && closer_than_present(n, positive) {
            return Ok((ConeCandidateKind::Negative, None));
        }
    }
    Err(GeometryError::Uncertified { reason: "cone candidate ordering cannot be certified".to_owned() })
}

/// `c` is certainly closer than `other`, when `other` is present.
fn closer_than_present(c: &ConeCandidate, other: &Option<ConeCandidate>) -> (closer: bool)
    requires
        c.wf(),
        other matches Some(o) ==> o.wf(),
    ensures
        closer == (other matches Some(o) ==> certainly_closer(*c, *o)),
{
    match other {
        Some(o) => interval_strictly_less(&c.squared_distance, &o.squared_distance),
        None => true,
    }
}

/// `k` is the ray candidate of the given kind that
/// [`make_cone_ray_candidate`] builds from these spans.
pub open spec fn is_ray_candidate(
    k: ConeCandidate,
    kind: ConeCandidateKind,
    apex: [ExactRational; 3],
    axis: [RatInterval; 3],
    radial_unit: [RatInterval; 3],
    tangent: (real, real),
    parameter: (real, real),
    query: [ExactRational; 3],
) -> bool {
    let v = candidate_v(kind, parameter);
    let scale = candidate_scale(kind, v, tangent);
    &&& k.wf()
    &&& k.kind == kind
    &&& span(k.v) == v
    &&& span(k.point[0]) == span_ray_coordinate(apex[0].value(), v, span(axis[0]), scale, span(radial_unit[0]))
    &&& span(k.point[1]) == span_ray_coordinate(apex[1].value(), v, span(axis[1]), scale, span(radial_unit[1]))
    &&& span(k.point[2]) == span_ray_coordinate(apex[2].value(), v, span(axis[2]), scale, span(radial_unit[2]))
    &&& span(k.squared_distance) == span_distance3(coords(query), k.point)
}

/// A nappe's candidate can be built: a ray parameter that is certainly
/// positive gives a candidate that fits, and the parameter's sign is
/// certain.
pub open spec fn nappe_ok(
    budget: CertificationBudget,
    kind: ConeCandidateKind,
    apex: [ExactRational; 3],
    axis: [RatInterval; 3],
    radial_unit: [RatInterval; 3],
    tangent: (real, real),
    parameter: (real, real),
    query: [ExactRational; 3],
) -> bool {
    &&& !(parameter.0 <= 0 as real && parameter.1 > 0 as real)
    &&& (parameter.0 > 0 as real ==> budget_cap(budget).ray_candidate_ok(
        kind,
        coords(apex),
        (span(axis[0]), span(axis[1]), span(axis[2])),
        (span(radial_unit[0]), span(radial_unit[1]), span(radial_unit[2])),
        tangent,
        parameter,
        coords(query),
    ))
}

/// A nappe's outcome: a candidate exactly when its ray parameter is
/// certainly positive.
pub open spec fn nappe_holds(
    candidate: Option<ConeCandidate>,
    kind: ConeCandidateKind,
    apex: [ExactRational; 3],
    axis: [RatInterval; 3],
    radial_unit: [RatInterval; 3],
    tangent: (real, real),
    parameter: (real, real),
    query: [ExactRational; 3],
) -> bool {
    &&& (candidate is Some <==> parameter.0 > 0 as real)
    &&& (candidate matches Some(k) ==> is_ray_candidate(k, kind, apex, axis, radial_unit, tangent, parameter, query))
}

/// The candidate of one nappe from its certified ray parameter.
fn nappe_candidate(
    budget: CertificationBudget,
    kind: ConeCandidateKind,
    apex: &[ExactRational; 3],
    axis: &[RatInterval; 3],
    radial_unit: &[RatInterval; 3],
    tangent: &RatInterval,
    parameter: RatInterval,
    query: &[ExactRational; 3],
) -> (candidate: Result<Option<ConeCandidate>, GeometryError>)
    requires
        wf3(*apex),
        wf3(*query),
        axis[0].wf() && axis[1].wf() && axis[2].wf(),
        radial_unit[0].wf() && radial_unit[1].wf() && radial_unit[2].wf(),
        tangent.wf(),
        parameter.wf(),
    ensures
        candidate is Ok <==> nappe_ok(budget, kind, *apex, *axis, *radial_unit, span(*tangent), span(parameter), *query),
        candidate matches Ok(c) ==> nappe_holds(c, kind, *apex, *axis, *radial_unit, span(*tangent), span(parameter), *query),
{
    let admissible = match admissible_ray_parameter(&parameter) {
        Ok(a) => a,
        Err(e) => return Err(e),
    };
    if !admissible {
        return Ok(None);
    }
    match make_cone_ray_candidate(budget, kind, apex, axis, radial_unit, tangent, parameter, query) {
        Ok(k) => Ok(Some(k)),
        Err(e) => Err(e),
    }
}

/// The generator-ray candidates of a cone projection on both nappes, from
/// the certified radial direction and magnitude of the query about the
/// axis, its axial coordinate and the certified tangent of the half angle.
/// A nappe gives a candidate exactly when its ray parameter is certainly
/// positive; a parameter whose sign is uncertain is refused.
#[verifier::spinoff_prover]
pub fn cone_ray_candidates(
    budget: CertificationBudget,
    apex: &[ExactRational; 3],
    axis: &[RatInterval; 3],
    radial_unit: &[RatInterval; 3],
    radial_magnitude: &RatInterval,
    axial_coordinate: &RatInterval,
    tangent: &RatInterval,
    query: &[ExactRational; 3],
) -> (candidates: Result<(Option<ConeCandidate>, Option<ConeCandidate>), GeometryError>)
    requires
        wf3(*apex),
        wf3(*query),
        axis[0].wf() && axis[1].wf() && axis[2].wf(),
        radial_unit[0].wf() && radial_unit[1].wf() && radial_unit[2].wf(),
        radial_magnitude.wf(),
        axial_coordinate.wf(),
        tangent.wf(),
    ensures
        ({
            let (m, a, t) = (span(*radial_magnitude), span(*axial_coordinate), span(*tangent));
            let (pp, np) = (span_ray_parameter(m, a, t, true), span_ray_parameter(m, a, t, false));
            let ok = budget_cap(budget).ray_parameter_ok(m, a, t, true) && budget_cap(budget).ray_parameter_ok(m, a, t, false)
                && nappe_ok(budget, ConeCandidateKind::Positive, *apex, *axis, *radial_unit, t, pp, *query)
                && nappe_ok(budget, ConeCandidateKind::Negative, *apex, *axis, *radial_unit, t, np, *query);
            &&& (candidates is Ok <==> ok)
            &&& (candidates matches Ok((p, n)) ==> nappe_holds(p, ConeCandidateKind::Positive, *apex, *axis, *radial_unit, t, pp, *query)
                && nappe_holds(n, ConeCandidateKind::Negative, *apex, *axis, *radial_unit, t, np, *query))
        }),
{
    let positive_parameter = match ray_parameter(budget, radial_magnitude, axial_coordinate, tangent, true) {
        Ok(w) => w,
        Err(e) => return Err(e),
    };
    let negative_parameter = match ray_parameter(budget, radial_magnitude, axial_coordinate, tangent, false) {
        Ok(w) => w,
        Err(e) => return Err(e),
    };
    let positive = match nappe_candidate(
        budget,
        ConeCandidateKind::Positive,
        apex,
        axis,
        radial_unit,
        tangent,
        positive_parameter,
        query,
    ) {
        Ok(c) => c,
        Err(e) => return Err(e),
    };
    let negative = match nappe_candidate(
        budget,
        ConeCandidateKind::Negative,
        apex,
        axis,
        radial_unit,
        tangent,
        negative_parameter,
        query,
    ) {
        Ok(c) => c,
        Err(e) => return Err(e),
    };
    Ok((positive, negative))
}

} // verus!
