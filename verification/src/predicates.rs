//! Exact orientation predicates with explicit degenerate and uncertain
//! outcomes.
//!
//! Every finite coordinate is decoded exactly as a dyadic integer
//! `mantissa × 2^exp`; determinants and tolerance thresholds are computed with
//! arbitrary-precision integers. The result therefore certifies the
//! determinant of the original binary64 inputs without any rounding.
//!
//! All quantities are computed in units of `2^-1074`: a coordinate is the
//! integer [`f64_units`] of its pattern, so a polynomial of degree `k` in the
//! coordinates is scaled by `2^(1074 k)`. The thresholds below compare
//! quantities of equal scale.
use crate::exact::{exact_units, ExactInt};
use crate::ieee::{f64_units, is_finite_bits};
use crate::math::{Point2, Point3};
use crate::tolerance::{ToleranceContext, ToleranceError};
use vstd::arithmetic::power2::pow2;
use vstd::prelude::*;

verus! {

/// The signed orientation returned by a geometric predicate.
#[derive(Clone, Copy, Debug, PartialEq, Eq, Structural)]
pub enum OrientationSign {
    /// Determinant is positive and exceeds the modeling-tolerance threshold.
    Positive,
    /// Determinant is negative and its magnitude exceeds the threshold.
    Negative,
    /// The exact determinant is zero; the points are provably collinear or
    /// coplanar.
    Degenerate,
    /// The exact sign is nonzero, but the determinant magnitude is within the
    /// scale-aware modeling tolerance.
    Uncertain,
}

/// Error returned when a predicate cannot be evaluated safely.
#[derive(Clone, Copy, Debug, PartialEq, Eq, Structural)]
pub enum PredicateError {
    /// Tolerance evaluation failed (for example because the effective length
    /// scale overflowed).
    Tolerance(ToleranceError),
}

/// `2^2148`: the ratio between the scale of a degree-`k + 2` quantity and a
/// degree-`k` quantity.
pub open spec fn scale_sq() -> int {
    pow2(2148) as int
}

/// `f64::MAX²` in units of `2^-4296`, multiplied by `2^2148` to match the
/// scale of `rel² × edge²`.
pub open spec fn max_sq_bound() -> int {
    (0x1f_ffff_ffff_ffffint * 0x1f_ffff_ffff_ffffint) * (pow2(6238) as int)
}

/// The larger of two integers.
pub open spec fn max_int(a: int, b: int) -> int {
    if a <= b {
        b
    } else {
        a
    }
}

/// The orientation named by the sign of a nonzero determinant.
pub open spec fn sign_orientation(det: int) -> OrientationSign {
    if det > 0 {
        OrientationSign::Positive
    } else {
        OrientationSign::Negative
    }
}

/// Classification of a nonzero determinant against the tolerance
/// thresholds, shared by both predicates.
///
/// `det_sq` and `abs_threshold` have the same scale; `rel_threshold` has the
/// scale of `det_sq × 2^2148`; `rel_edge` is `rel² × max_edge²` at the scale
/// of [`max_sq_bound`].
pub open spec fn classify(
    det: int,
    rel: int,
    rel_edge: int,
    abs_threshold: int,
    rel_threshold: int,
) -> Result<OrientationSign, PredicateError> {
    if rel != 0 && rel_edge > max_sq_bound() {
        Err(PredicateError::Tolerance(ToleranceError::Overflow))
    } else if det * det <= abs_threshold {
        Ok(OrientationSign::Uncertain)
    } else if rel > 0 && det * det * scale_sq() <= rel_threshold {
        Ok(OrientationSign::Uncertain)
    } else {
        Ok(sign_orientation(det))
    }
}

/// Squared length of a planar edge.
pub open spec fn sq2(dx: int, dy: int) -> int {
    dx * dx + dy * dy
}

/// The exact 2-D orientation determinant `(b - a) × (c - a)`, in units of
/// `2^-2148`.
pub open spec fn det2_units(a: Point2, b: Point2, c: Point2) -> int {
    let (ax, ay) = (f64_units(a.spec_x()), f64_units(a.spec_y()));
    let (bx, by) = (f64_units(b.spec_x()), f64_units(b.spec_y()));
    let (cx, cy) = (f64_units(c.spec_x()), f64_units(c.spec_y()));
    (bx - ax) * (cy - ay) - (cx - ax) * (by - ay)
}

/// The largest squared edge length of the triangle, in units of `2^-2148`.
pub open spec fn max_edge_sq2(a: Point2, b: Point2, c: Point2) -> int {
    let (ax, ay) = (f64_units(a.spec_x()), f64_units(a.spec_y()));
    let (bx, by) = (f64_units(b.spec_x()), f64_units(b.spec_y()));
    let (cx, cy) = (f64_units(c.spec_x()), f64_units(c.spec_y()));
    max_int(max_int(sq2(bx - ax, by - ay), sq2(cx - ax, cy - ay)), sq2(cx - bx, cy - by))
}

/// What [`orient2d`] returns.
pub open spec fn orient2d_spec(
    a: Point2,
    b: Point2,
    c: Point2,
    ctx: ToleranceContext,
) -> Result<OrientationSign, PredicateError> {
    let det = det2_units(a, b, c);
    let m = max_edge_sq2(a, b, c);
    let abs = f64_units(ctx.spec_absolute_length());
    let rel = f64_units(ctx.spec_relative_length());
    if det == 0 {
        Ok(OrientationSign::Degenerate)
    } else {
        classify(det, rel, rel * rel * m, abs * abs * m, rel * rel * (m * m))
    }
}

/// A 3-D edge vector in units of `2^-1074`.
pub struct Edge3 {
    pub x: int,
    pub y: int,
    pub z: int,
}

/// The edge from `from` to `to`.
pub open spec fn edge3(from: Point3, to: Point3) -> Edge3 {
    Edge3 {
        x: f64_units(to.spec_x()) - f64_units(from.spec_x()),
        y: f64_units(to.spec_y()) - f64_units(from.spec_y()),
        z: f64_units(to.spec_z()) - f64_units(from.spec_z()),
    }
}

/// Squared length of a 3-D edge.
pub open spec fn sq3(e: Edge3) -> int {
    e.x * e.x + e.y * e.y + e.z * e.z
}

/// Cross product of two edges.
pub open spec fn cross3(l: Edge3, r: Edge3) -> Edge3 {
    Edge3 { x: l.y * r.z - l.z * r.y, y: l.z * r.x - l.x * r.z, z: l.x * r.y - l.y * r.x }
}

/// The exact scalar triple product `(b - a) · ((c - a) × (d - a))`, in
/// units of `2^-3222`.
pub open spec fn det3_units(a: Point3, b: Point3, c: Point3, d: Point3) -> int {
    let base = edge3(a, b);
    let k = cross3(edge3(a, c), edge3(a, d));
    base.x * k.x + base.y * k.y + base.z * k.z
}

/// The largest squared edge length of the tetrahedron, in units of `2^-2148`.
pub open spec fn max_edge_sq3(a: Point3, b: Point3, c: Point3, d: Point3) -> int {
    max_int(
        max_int(
            max_int(
                max_int(
                    max_int(sq3(edge3(a, b)), sq3(edge3(a, c))),
                    sq3(edge3(a, d)),
                ),
                sq3(edge3(b, c)),
            ),
            sq3(edge3(b, d)),
        ),
        sq3(edge3(c, d)),
    )
}

/// The largest squared face parallelogram area, in units of `2^-4296`.
pub open spec fn max_face_sq3(a: Point3, b: Point3, c: Point3, d: Point3) -> int {
    max_int(
        max_int(
            max_int(
                sq3(cross3(edge3(a, b), edge3(a, c))),
                sq3(cross3(edge3(a, b), edge3(a, d))),
            ),
            sq3(cross3(edge3(a, c), edge3(a, d))),
        ),
        sq3(cross3(edge3(b, c), edge3(b, d))),
    )
}

/// What [`orient3d`] returns.
pub open spec fn orient3d_spec(
    a: Point3,
    b: Point3,
    c: Point3,
    d: Point3,
    ctx: ToleranceContext,
) -> Result<OrientationSign, PredicateError> {
    let det = det3_units(a, b, c, d);
    let m = max_edge_sq3(a, b, c, d);
    let f = max_face_sq3(a, b, c, d);
    let abs = f64_units(ctx.spec_absolute_length());
    let rel = f64_units(ctx.spec_relative_length());
    if det == 0 {
        Ok(OrientationSign::Degenerate)
    } else {
        classify(det, rel, rel * rel * m, abs * abs * f, rel * rel * (m * f))
    }
}

/// Returns the orientation encoded by a nonzero sign.
pub fn orientation_from_sign(sign: i32) -> (orientation: OrientationSign)
    ensures
        orientation == sign_orientation(sign as int),
{
    if sign > 0 {
        OrientationSign::Positive
    } else {
        OrientationSign::Negative
    }
}

fn max_exact(a: ExactInt, b: ExactInt) -> (larger: ExactInt)
    ensures
        larger@ == max_int(a@, b@),
{
    if a.le(&b) {
        b
    } else {
        a
    }
}

fn square(v: &ExactInt) -> (sq: ExactInt)
    ensures
        sq@ == v@ * v@,
{
    v.mul(v)
}

fn sum_sq2(dx: &ExactInt, dy: &ExactInt) -> (sq: ExactInt)
    ensures
        sq@ == sq2(dx@, dy@),
{
    square(dx).add(&square(dy))
}

/// Decides between the threshold outcomes for a nonzero determinant.
fn classify_exact(
    det: &ExactInt,
    rel_bits: u64,
    rel: &ExactInt,
    rel_edge: &ExactInt,
    abs_threshold: &ExactInt,
    rel_threshold: &ExactInt,
) -> (result: Result<OrientationSign, PredicateError>)
    requires
        is_finite_bits(rel_bits),
        rel@ == f64_units(rel_bits),
        f64_units(rel_bits) >= 0,
        det@ != 0,
    ensures
        result == classify(det@, rel@, rel_edge@, abs_threshold@, rel_threshold@),
{
    let zero = ExactInt::from_i64(0);
    let rel_is_zero = rel.le(&zero);
    if !rel_is_zero {
        let max_sig = ExactInt::from_i64(0x1f_ffff_ffff_ffff);
        let bound = square(&max_sig).shl(6238);
        if !rel_edge.le(&bound) {
            return Err(PredicateError::Tolerance(ToleranceError::Overflow));
        }
    }
    let det_sq = square(det);
    if det_sq.le(abs_threshold) {
        return Ok(OrientationSign::Uncertain);
    }
    if !rel_is_zero {
        if det_sq.shl(2148).le(rel_threshold) {
            return Ok(OrientationSign::Uncertain);
        }
    }
    if zero.le(det) {
        Ok(orientation_from_sign(1))
    } else {
        Ok(orientation_from_sign(-1))
    }
}

/// 2-D orientation of three points using exact integer arithmetic.
///
/// Positive means that `a → b → c` is counter-clockwise in a right-handed
/// frame.
///
/// Returns [`PredicateError::Tolerance`] when the supplied relative tolerance
/// overflows its effective comparison scale.
pub fn orient2d(a: Point2, b: Point2, c: Point2, ctx: ToleranceContext) -> (orientation: Result<
    OrientationSign,
    PredicateError,
>)
    ensures
        orientation == orient2d_spec(a, b, c, ctx),
{
    proof {
        use_type_invariant(&a);
        use_type_invariant(&b);
        use_type_invariant(&c);
        use_type_invariant(&ctx);
    }
    let ax = exact_units(a.x());
    let ay = exact_units(a.y());
    let bx = exact_units(b.x());
    let by = exact_units(b.y());
    let cx = exact_units(c.x());
    let cy = exact_units(c.y());
    let abx = bx.sub(&ax);
    let aby = by.sub(&ay);
    let acx = cx.sub(&ax);
    let acy = cy.sub(&ay);
    let det = abx.mul(&acy).sub(&acx.mul(&aby));
    let zero = ExactInt::from_i64(0);
    if det.le(&zero) && zero.le(&det) {
        return Ok(OrientationSign::Degenerate);
    }
    let bcx = cx.sub(&bx);
    let bcy = cy.sub(&by);
    let max_edge = max_exact(
        max_exact(sum_sq2(&abx, &aby), sum_sq2(&acx, &acy)),
        sum_sq2(&bcx, &bcy),
    );
    let rel_bits = ctx.relative_length();
    let rel = exact_units(rel_bits);
    let abs = exact_units(ctx.absolute_length());
    let rel_sq = square(&rel);
    let rel_edge = rel_sq.mul(&max_edge);
    let abs_threshold = square(&abs).mul(&max_edge);
    let rel_threshold = rel_sq.mul(&square(&max_edge));
    classify_exact(&det, rel_bits, &rel, &rel_edge, &abs_threshold, &rel_threshold)
}

fn edge_exact(from: &[ExactInt; 3], to: &[ExactInt; 3]) -> (edge: [ExactInt; 3])
    ensures
        edge[0]@ == to[0]@ - from[0]@,
        edge[1]@ == to[1]@ - from[1]@,
        edge[2]@ == to[2]@ - from[2]@,
{
    [to[0].sub(&from[0]), to[1].sub(&from[1]), to[2].sub(&from[2])]
}

fn point3_exact(p: Point3) -> (coords: [ExactInt; 3])
    ensures
        coords[0]@ == f64_units(p.spec_x()),
        coords[1]@ == f64_units(p.spec_y()),
        coords[2]@ == f64_units(p.spec_z()),
{
    proof {
        use_type_invariant(&p);
    }
    [exact_units(p.x()), exact_units(p.y()), exact_units(p.z())]
}

/// The edge with the given exact components.
pub open spec fn edge_of(e: [ExactInt; 3]) -> Edge3 {
    Edge3 { x: e[0]@, y: e[1]@, z: e[2]@ }
}

fn cross_exact(l: &[ExactInt; 3], r: &[ExactInt; 3]) -> (k: [ExactInt; 3])
    ensures
        edge_of(k) == cross3(edge_of(*l), edge_of(*r)),
{
    [
        l[1].mul(&r[2]).sub(&l[2].mul(&r[1])),
        l[2].mul(&r[0]).sub(&l[0].mul(&r[2])),
        l[0].mul(&r[1]).sub(&l[1].mul(&r[0])),
    ]
}

fn sum_sq3(e: &[ExactInt; 3]) -> (sq: ExactInt)
    ensures
        sq@ == sq3(edge_of(*e)),
{
    square(&e[0]).add(&square(&e[1])).add(&square(&e[2]))
}

/// 3-D orientation of four points using exact integer arithmetic.
///
/// Returns [`OrientationSign::Positive`] when `d` lies on the positive side of
/// the plane through `a`, `b`, `c` in a right-handed frame (scalar triple
/// product `(b−a) · ((c−a) × (d−a)) > 0`).
///
/// Returns [`PredicateError::Tolerance`] when the supplied relative tolerance
/// overflows its effective comparison scale.
pub fn orient3d(a: Point3, b: Point3, c: Point3, d: Point3, ctx: ToleranceContext) -> (orientation:
    Result<OrientationSign, PredicateError>)
    ensures
        orientation == orient3d_spec(a, b, c, d, ctx),
{
    proof {
        use_type_invariant(&ctx);
    }
    let pa = point3_exact(a);
    let pb = point3_exact(b);
    let pc = point3_exact(c);
    let pd = point3_exact(d);
    let ab = edge_exact(&pa, &pb);
    let ac = edge_exact(&pa, &pc);
    let ad = edge_exact(&pa, &pd);
    assert(edge_of(ab) == edge3(a, b));
    assert(edge_of(ac) == edge3(a, c));
    assert(edge_of(ad) == edge3(a, d));
    let k = cross_exact(&ac, &ad);
    let det = ab[0].mul(&k[0]).add(&ab[1].mul(&k[1])).add(&ab[2].mul(&k[2]));
    assert(det@ == det3_units(a, b, c, d));
    let zero = ExactInt::from_i64(0);
    if det.le(&zero) && zero.le(&det) {
        return Ok(OrientationSign::Degenerate);
    }
    let bc = edge_exact(&pb, &pc);
    let bd = edge_exact(&pb, &pd);
    let cd = edge_exact(&pc, &pd);
    assert(edge_of(bc) == edge3(b, c));
    assert(edge_of(bd) == edge3(b, d));
    assert(edge_of(cd) == edge3(c, d));
    let max_edge = max_exact(
        max_exact(
            max_exact(
                max_exact(max_exact(sum_sq3(&ab), sum_sq3(&ac)), sum_sq3(&ad)),
                sum_sq3(&bc),
            ),
            sum_sq3(&bd),
        ),
        sum_sq3(&cd),
    );
    assert(max_edge@ == max_edge_sq3(a, b, c, d));
    let max_face = max_exact(
        max_exact(
            max_exact(sum_sq3(&cross_exact(&ab, &ac)), sum_sq3(&cross_exact(&ab, &ad))),
            sum_sq3(&cross_exact(&ac, &ad)),
        ),
        sum_sq3(&cross_exact(&bc, &bd)),
    );
    assert(max_face@ == max_face_sq3(a, b, c, d));
    let rel_bits = ctx.relative_length();
    let rel = exact_units(rel_bits);
    let abs = exact_units(ctx.absolute_length());
    let rel_sq = square(&rel);
    let rel_edge = rel_sq.mul(&max_edge);
    let abs_threshold = square(&abs).mul(&max_face);
    let rel_threshold = rel_sq.mul(&max_edge.mul(&max_face));
    classify_exact(&det, rel_bits, &rel, &rel_edge, &abs_threshold, &rel_threshold)
}

/// The orientation of the mirrored configuration: the two strict signs trade
/// places; degenerate, uncertain, and failed results are unchanged.
pub open spec fn mirrored(
    orientation: Result<OrientationSign, PredicateError>,
) -> Result<OrientationSign, PredicateError> {
    match orientation {
        Ok(OrientationSign::Positive) => Ok(OrientationSign::Negative),
        Ok(OrientationSign::Negative) => Ok(OrientationSign::Positive),
        other => other,
    }
}

/// The reversed edge.
pub open spec fn neg3(e: Edge3) -> Edge3 {
    Edge3 { x: -e.x, y: -e.y, z: -e.z }
}

/// The difference of two edges.
pub open spec fn sub3(l: Edge3, r: Edge3) -> Edge3 {
    Edge3 { x: l.x - r.x, y: l.y - r.y, z: l.z - r.z }
}

/// The dot product of two edges.
pub open spec fn dot3(l: Edge3, r: Edge3) -> int {
    l.x * r.x + l.y * r.y + l.z * r.z
}

proof fn lemma_square_of_negation(x: int)
    ensures
        (-x) * (-x) == x * x,
{
    assert((-x) * (-x) == x * x) by (nonlinear_arith);
}

proof fn lemma_sq2_negation(dx: int, dy: int)
    ensures
        sq2(-dx, -dy) == sq2(dx, dy),
{
    lemma_square_of_negation(dx);
    lemma_square_of_negation(dy);
}

proof fn lemma_sq3_negation(e: Edge3)
    ensures
        sq3(neg3(e)) == sq3(e),
{
    lemma_square_of_negation(e.x);
    lemma_square_of_negation(e.y);
    lemma_square_of_negation(e.z);
}

/// A nonzero determinant and its negation are classified alike, up to sign.
proof fn lemma_classify_negation(det: int, rel: int, rel_edge: int, abs_t: int, rel_t: int)
    requires
        det != 0,
    ensures
        classify(-det, rel, rel_edge, abs_t, rel_t) == mirrored(
            classify(det, rel, rel_edge, abs_t, rel_t),
        ),
{
    lemma_square_of_negation(det);
}

proof fn lemma_det2_cyclic(ax: int, ay: int, bx: int, by: int, cx: int, cy: int)
    ensures
        (cx - bx) * (ay - by) - (ax - bx) * (cy - by) == (bx - ax) * (cy - ay) - (cx - ax) * (
        by - ay),
{
    assert((cx - bx) * (ay - by) - (ax - bx) * (cy - by) == (bx - ax) * (cy - ay) - (cx - ax) * (
    by - ay)) by (nonlinear_arith);
}

/// Rotating the three points of [`orient2d`] cyclically does not change the
/// result: `a → b → c` and `b → c → a` describe the same oriented triangle.
pub proof fn orient2d_cyclic_invariant(a: Point2, b: Point2, c: Point2, ctx: ToleranceContext)
    ensures
        orient2d_spec(b, c, a, ctx) == orient2d_spec(a, b, c, ctx),
        orient2d_spec(c, a, b, ctx) == orient2d_spec(a, b, c, ctx),
{
    let (ax, ay) = (f64_units(a.spec_x()), f64_units(a.spec_y()));
    let (bx, by) = (f64_units(b.spec_x()), f64_units(b.spec_y()));
    let (cx, cy) = (f64_units(c.spec_x()), f64_units(c.spec_y()));
    lemma_det2_cyclic(ax, ay, bx, by, cx, cy);
    lemma_det2_cyclic(bx, by, cx, cy, ax, ay);
    lemma_sq2_negation(bx - ax, by - ay);
    lemma_sq2_negation(cx - ax, cy - ay);
    lemma_sq2_negation(cx - bx, cy - by);
    assert(det2_units(b, c, a) == det2_units(a, b, c));
    assert(det2_units(c, a, b) == det2_units(a, b, c));
    assert(max_edge_sq2(b, c, a) == max_edge_sq2(a, b, c));
    assert(max_edge_sq2(c, a, b) == max_edge_sq2(a, b, c));
}

/// Exchanging two points of [`orient2d`] mirrors the triangle: a strict sign
/// flips, while degenerate, uncertain, and failed results stay as they are.
pub proof fn orient2d_swap_mirrors(a: Point2, b: Point2, c: Point2, ctx: ToleranceContext)
    ensures
        orient2d_spec(a, c, b, ctx) == mirrored(orient2d_spec(a, b, c, ctx)),
        orient2d_spec(b, a, c, ctx) == mirrored(orient2d_spec(a, b, c, ctx)),
        orient2d_spec(c, b, a, ctx) == mirrored(orient2d_spec(a, b, c, ctx)),
{
    let (ax, ay) = (f64_units(a.spec_x()), f64_units(a.spec_y()));
    let (bx, by) = (f64_units(b.spec_x()), f64_units(b.spec_y()));
    let (cx, cy) = (f64_units(c.spec_x()), f64_units(c.spec_y()));
    orient2d_cyclic_invariant(a, c, b, ctx);
    lemma_sq2_negation(bx - ax, by - ay);
    lemma_sq2_negation(cx - ax, cy - ay);
    lemma_sq2_negation(cx - bx, cy - by);
    let det = det2_units(a, b, c);
    let m = max_edge_sq2(a, b, c);
    let abs = f64_units(ctx.spec_absolute_length());
    let rel = f64_units(ctx.spec_relative_length());
    assert(det2_units(a, c, b) == -det);
    assert(max_edge_sq2(a, c, b) == m);
    if det != 0 {
        lemma_classify_negation(det, rel, rel * rel * m, abs * abs * m, rel * rel * (m * m));
    }
}

proof fn lemma_cross_antisymmetric(u: Edge3, v: Edge3)
    ensures
        cross3(v, u) == neg3(cross3(u, v)),
{
    assert(v.y * u.z - v.z * u.y == -(u.y * v.z - u.z * v.y)) by (nonlinear_arith);
    assert(v.z * u.x - v.x * u.z == -(u.z * v.x - u.x * v.z)) by (nonlinear_arith);
    assert(v.x * u.y - v.y * u.x == -(u.x * v.y - u.y * v.x)) by (nonlinear_arith);
}

/// Re-basing a face at another of its corners only reverses its normal.
proof fn lemma_cross_rebased(u: Edge3, v: Edge3)
    ensures
        cross3(neg3(u), sub3(v, u)) == neg3(cross3(u, v)),
{
    assert((-u.y) * (v.z - u.z) - (-u.z) * (v.y - u.y) == -(u.y * v.z - u.z * v.y))
        by (nonlinear_arith);
    assert((-u.z) * (v.x - u.x) - (-u.x) * (v.z - u.z) == -(u.z * v.x - u.x * v.z))
        by (nonlinear_arith);
    assert((-u.x) * (v.y - u.y) - (-u.y) * (v.x - u.x) == -(u.x * v.y - u.y * v.x))
        by (nonlinear_arith);
}

/// `p · (q × r)`, written with the factors in the order `u`, `v`, `w`.
proof fn lemma_expand_product(p: int, q: int, r: int, s: int, t: int)
    ensures
        p * (q * r - s * t) == p * q * r - p * s * t,
{
    assert(p * (q * r - s * t) == p * q * r - p * s * t) by (nonlinear_arith);
}

proof fn lemma_reorder3(p: int, q: int, r: int)
    ensures
        q * p * r == p * q * r,
        p * r * q == p * q * r,
        r * p * q == p * q * r,
        q * r * p == p * q * r,
        r * q * p == p * q * r,
{
    assert(q * p * r == p * q * r) by (nonlinear_arith);
    assert(p * r * q == p * q * r) by (nonlinear_arith);
    assert(r * p * q == p * q * r) by (nonlinear_arith);
    assert(q * r * p == p * q * r) by (nonlinear_arith);
    assert(r * q * p == p * q * r) by (nonlinear_arith);
}

proof fn lemma_triple_swap_first(u: Edge3, v: Edge3, w: Edge3)
    ensures
        dot3(v, cross3(u, w)) == -dot3(u, cross3(v, w)),
{
    lemma_expand_product(v.x, u.y, w.z, u.z, w.y);
    lemma_expand_product(v.y, u.z, w.x, u.x, w.z);
    lemma_expand_product(v.z, u.x, w.y, u.y, w.x);
    lemma_expand_product(u.x, v.y, w.z, v.z, w.y);
    lemma_expand_product(u.y, v.z, w.x, v.x, w.z);
    lemma_expand_product(u.z, v.x, w.y, v.y, w.x);
    lemma_reorder3(u.y, v.x, w.z);
    lemma_reorder3(u.z, v.x, w.y);
    lemma_reorder3(u.z, v.y, w.x);
    lemma_reorder3(u.x, v.y, w.z);
    lemma_reorder3(u.x, v.z, w.y);
    lemma_reorder3(u.y, v.z, w.x);
}

proof fn lemma_dot_negation(u: Edge3, k: Edge3)
    ensures
        dot3(u, neg3(k)) == -dot3(u, k),
{
    assert(u.x * (-k.x) == -(u.x * k.x)) by (nonlinear_arith);
    assert(u.y * (-k.y) == -(u.y * k.y)) by (nonlinear_arith);
    assert(u.z * (-k.z) == -(u.z * k.z)) by (nonlinear_arith);
}

proof fn lemma_triple_swap_last(u: Edge3, v: Edge3, w: Edge3)
    ensures
        dot3(u, cross3(w, v)) == -dot3(u, cross3(v, w)),
{
    lemma_cross_antisymmetric(v, w);
    lemma_dot_negation(u, cross3(v, w));
}

proof fn lemma_cross_of_differences(u: Edge3, v: Edge3, w: Edge3)
    ensures
        cross3(sub3(v, u), sub3(w, u)) == sub3(
            Edge3 {
                x: cross3(v, w).x + cross3(u, v).x,
                y: cross3(v, w).y + cross3(u, v).y,
                z: cross3(v, w).z + cross3(u, v).z,
            },
            cross3(u, w),
        ),
{
    assert((v.y - u.y) * (w.z - u.z) - (v.z - u.z) * (w.y - u.y) == (v.y * w.z - v.z * w.y) + (
    u.y * v.z - u.z * v.y) - (u.y * w.z - u.z * w.y)) by (nonlinear_arith);
    assert((v.z - u.z) * (w.x - u.x) - (v.x - u.x) * (w.z - u.z) == (v.z * w.x - v.x * w.z) + (
    u.z * v.x - u.x * v.z) - (u.z * w.x - u.x * w.z)) by (nonlinear_arith);
    assert((v.x - u.x) * (w.y - u.y) - (v.y - u.y) * (w.x - u.x) == (v.x * w.y - v.y * w.x) + (
    u.x * v.y - u.y * v.x) - (u.x * w.y - u.y * w.x)) by (nonlinear_arith);
}

proof fn lemma_dot_own_cross(u: Edge3, v: Edge3)
    ensures
        dot3(u, cross3(u, v)) == 0,
{
    lemma_expand_product(u.x, u.y, v.z, u.z, v.y);
    lemma_expand_product(u.y, u.z, v.x, u.x, v.z);
    lemma_expand_product(u.z, u.x, v.y, u.y, v.x);
    lemma_reorder3(u.x, u.y, v.z);
    lemma_reorder3(u.x, u.z, v.y);
    lemma_reorder3(u.y, u.z, v.x);
}

proof fn lemma_dot_distributes(p: Edge3, q: Edge3, r: Edge3, t: Edge3)
    ensures
        dot3(neg3(p), sub3(Edge3 { x: q.x + r.x, y: q.y + r.y, z: q.z + r.z }, t)) == -dot3(p, q)
            - dot3(p, r) + dot3(p, t),
{
    assert((-p.x) * (q.x + r.x - t.x) == -(p.x * q.x) - p.x * r.x + p.x * t.x) by (nonlinear_arith);
    assert((-p.y) * (q.y + r.y - t.y) == -(p.y * q.y) - p.y * r.y + p.y * t.y) by (nonlinear_arith);
    assert((-p.z) * (q.z + r.z - t.z) == -(p.z * q.z) - p.z * r.z + p.z * t.z) by (nonlinear_arith);
}

proof fn lemma_triple_rebased(u: Edge3, v: Edge3, w: Edge3)
    ensures
        dot3(neg3(u), cross3(sub3(v, u), sub3(w, u))) == -dot3(u, cross3(v, w)),
{
    lemma_cross_of_differences(u, v, w);
    lemma_dot_own_cross(u, v);
    lemma_dot_own_cross(u, w);
    let vw = cross3(v, w);
    let uv = cross3(u, v);
    let uw = cross3(u, w);
    lemma_dot_distributes(u, vw, uv, uw);
}

/// Exchanging any two of the first three points of [`orient3d`], or its last
/// two points, mirrors the tetrahedron: a strict sign flips, while
/// degenerate, uncertain, and failed results stay as they are. Every
/// permutation is a product of these exchanges.
pub proof fn orient3d_swap_mirrors(a: Point3, b: Point3, c: Point3, d: Point3, ctx: ToleranceContext)
    ensures
        orient3d_spec(b, a, c, d, ctx) == mirrored(orient3d_spec(a, b, c, d, ctx)),
        orient3d_spec(a, c, b, d, ctx) == mirrored(orient3d_spec(a, b, c, d, ctx)),
        orient3d_spec(a, b, d, c, ctx) == mirrored(orient3d_spec(a, b, c, d, ctx)),
{
    let u = edge3(a, b);
    let v = edge3(a, c);
    let w = edge3(a, d);
    assert(edge3(b, a) == neg3(u));
    assert(edge3(b, c) == sub3(v, u));
    assert(edge3(b, d) == sub3(w, u));
    assert(edge3(c, a) == neg3(v));
    assert(edge3(c, b) == neg3(sub3(v, u)));
    assert(edge3(c, d) == sub3(w, v));
    assert(edge3(d, c) == neg3(sub3(w, v)));
    assert(edge3(d, a) == neg3(w));
    assert(edge3(d, b) == neg3(sub3(w, u)));
    lemma_triple_swap_first(u, v, w);
    lemma_triple_swap_last(u, v, w);
    lemma_triple_rebased(u, v, w);
    let det = det3_units(a, b, c, d);
    assert(det3_units(b, a, c, d) == -det);
    assert(det3_units(a, c, b, d) == -det);
    assert(det3_units(a, b, d, c) == -det);
    // Every edge keeps its squared length when reversed.
    lemma_sq3_negation(u);
    lemma_sq3_negation(v);
    lemma_sq3_negation(w);
    lemma_sq3_negation(sub3(v, u));
    lemma_sq3_negation(sub3(w, u));
    lemma_sq3_negation(sub3(w, v));
    let m = max_edge_sq3(a, b, c, d);
    assert(max_edge_sq3(b, a, c, d) == m);
    assert(max_edge_sq3(a, c, b, d) == m);
    assert(max_edge_sq3(a, b, d, c) == m);
    // Every face keeps its squared area when re-based or re-ordered.
    lemma_cross_antisymmetric(u, v);
    lemma_cross_antisymmetric(u, w);
    lemma_cross_antisymmetric(v, w);
    lemma_cross_antisymmetric(sub3(v, u), sub3(w, u));
    lemma_cross_rebased(u, v);
    lemma_cross_rebased(u, w);
    lemma_cross_rebased(sub3(v, u), sub3(w, u));
    assert(sub3(sub3(w, u), sub3(v, u)) == sub3(w, v));
    lemma_sq3_negation(cross3(u, v));
    lemma_sq3_negation(cross3(u, w));
    lemma_sq3_negation(cross3(v, w));
    lemma_sq3_negation(cross3(sub3(v, u), sub3(w, u)));
    let f = max_face_sq3(a, b, c, d);
    assert(max_face_sq3(b, a, c, d) == f);
    assert(max_face_sq3(a, c, b, d) == f);
    assert(max_face_sq3(a, b, d, c) == f);
    let abs = f64_units(ctx.spec_absolute_length());
    let rel = f64_units(ctx.spec_relative_length());
    if det != 0 {
        lemma_classify_negation(det, rel, rel * rel * m, abs * abs * f, rel * rel * (m * f));
    }
}

/// `moved` is `point` shifted by `(tx, ty)` exactly, in units of `2^-1074`.
pub open spec fn shifted2(point: Point2, moved: Point2, tx: int, ty: int) -> bool {
    f64_units(moved.spec_x()) == f64_units(point.spec_x()) + tx && f64_units(moved.spec_y())
        == f64_units(point.spec_y()) + ty
}

/// Translating all three points of [`orient2d`] by the same offset, where the
/// translated coordinates are exactly representable, does not change the
/// result: the determinant and the edge lengths depend only on differences.
pub proof fn orient2d_translation_invariant(
    a: Point2,
    b: Point2,
    c: Point2,
    a2: Point2,
    b2: Point2,
    c2: Point2,
    tx: int,
    ty: int,
    ctx: ToleranceContext,
)
    requires
        shifted2(a, a2, tx, ty),
        shifted2(b, b2, tx, ty),
        shifted2(c, c2, tx, ty),
    ensures
        orient2d_spec(a2, b2, c2, ctx) == orient2d_spec(a, b, c, ctx),
{
    assert(det2_units(a2, b2, c2) == det2_units(a, b, c));
    assert(max_edge_sq2(a2, b2, c2) == max_edge_sq2(a, b, c));
}

} // verus!
