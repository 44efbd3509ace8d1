//! Nearest-point laws of the exact line and plane projections.
use crate::geometry::analytic::affine::{
    dot2_value,
    gram_det,
    line_parameter2,
    line_parameter3,
    moved2_value,
    moved3_value,
    plane_parameters,
    plane_point,
    sub2_value,
    sub3_value,
};
use crate::geometry::analytic::enclosure::dot_value;
use vstd::prelude::*;

verus! {

/// `(x + k y) z = x z + k (y z)`.
proof fn lemma_moved_product(x: real, y: real, k: real, z: real)
    ensures
        (x + k * y) * z == x * z + k * (y * z),
{
    assert((x + k * y) * z == x * z + k * (y * z)) by (nonlinear_arith);
}

/// The dot product is linear in a moved first argument.
pub(crate) proof fn lemma_dot_moved(x: (real, real, real), y: (real, real, real), k: real, z: (real, real, real))
    ensures
        dot_value(moved3_value(x, y, k), z) == dot_value(x, z) + k * dot_value(y, z),
{
    reveal(dot_value);
    lemma_moved_product(x.0, y.0, k, z.0);
    lemma_moved_product(x.1, y.1, k, z.1);
    lemma_moved_product(x.2, y.2, k, z.2);
    assert(k * (y.0 * z.0) + k * (y.1 * z.1) + k * (y.2 * z.2) == k * (y.0 * z.0 + y.1 * z.1 + y.2
        * z.2)) by (nonlinear_arith);
}

/// The dot product is symmetric.
proof fn lemma_dot_symmetric(x: (real, real, real), y: (real, real, real))
    ensures
        dot_value(x, y) == dot_value(y, x),
{
    reveal(dot_value);
    assert(x.0 * y.0 == y.0 * x.0 && x.1 * y.1 == y.1 * x.1 && x.2 * y.2 == y.2 * x.2) by (nonlinear_arith);
}

/// A squared length is non-negative.
proof fn lemma_dot_self_nonneg(x: (real, real, real))
    ensures
        dot_value(x, x) >= 0 as real,
{
    reveal(dot_value);
    assert(x.0 * x.0 >= 0 as real && x.1 * x.1 >= 0 as real && x.2 * x.2 >= 0 as real) by (nonlinear_arith);
}

/// `|x + k y|^2 = |x|^2 + 2k (x . y) + k^2 |y|^2`.
proof fn lemma_square_expansion(x: (real, real, real), y: (real, real, real), k: real)
    ensures
        dot_value(moved3_value(x, y, k), moved3_value(x, y, k)) == dot_value(x, x) + 2 as real * k
            * dot_value(x, y) + k * k * dot_value(y, y),
{
    let m = moved3_value(x, y, k);
    lemma_dot_moved(x, y, k, m);
    lemma_dot_symmetric(x, m);
    lemma_dot_symmetric(y, m);
    lemma_dot_moved(x, y, k, x);
    lemma_dot_moved(x, y, k, y);
    lemma_dot_symmetric(x, y);
    let (a, b, c) = (dot_value(x, x), dot_value(x, y), dot_value(y, y));
    assert(a + k * b + k * (b + k * c) == a + 2 as real * k * b + k * k * c) by (nonlinear_arith);
}

/// `x - (y + k z) = (x - y) + (-k) z` coordinatewise.
proof fn lemma_sub_moved(x: (real, real, real), y: (real, real, real), z: (real, real, real), k: real)
    ensures
        sub3_value(x, moved3_value(y, z, k)) == moved3_value(sub3_value(x, y), z, -k),
{
    assert(x.0 - (y.0 + k * z.0) == (x.0 - y.0) + (-k) * z.0) by (nonlinear_arith);
    assert(x.1 - (y.1 + k * z.1) == (x.1 - y.1) + (-k) * z.1) by (nonlinear_arith);
    assert(x.2 - (y.2 + k * z.2) == (x.2 - y.2) + (-k) * z.2) by (nonlinear_arith);
}

/// Moving twice along one direction adds the steps.
proof fn lemma_moved_twice(x: (real, real, real), z: (real, real, real), a: real, b: real)
    ensures
        moved3_value(moved3_value(x, z, a), z, b) == moved3_value(x, z, a + b),
{
    assert(a * z.0 + b * z.0 == (a + b) * z.0) by (nonlinear_arith);
    assert(a * z.1 + b * z.1 == (a + b) * z.1) by (nonlinear_arith);
    assert(a * z.2 + b * z.2 == (a + b) * z.2) by (nonlinear_arith);
}

/// Projection onto a spatial line gives the nearest point: the residual is
/// orthogonal to the direction, and no point `origin + s direction` of the
/// line is closer to the query.
pub proof fn line_projection3_is_nearest(
    q: (real, real, real),
    o: (real, real, real),
    d: (real, real, real),
    s: real,
)
    requires
        dot_value(d, d) != 0 as real,
    ensures
        ({
            let proj = moved3_value(o, d, line_parameter3(q, o, d));
            let other = moved3_value(o, d, s);
            &&& dot_value(sub3_value(q, proj), d) == 0 as real
            &&& dot_value(sub3_value(q, proj), sub3_value(q, proj)) <= dot_value(
                sub3_value(q, other),
                sub3_value(q, other),
            )
        }),
{
    let t = line_parameter3(q, o, d);
    let diff = sub3_value(q, o);
    let dd = dot_value(d, d);
    let dp = dot_value(diff, d);
    assert(t * dd == dp) by (nonlinear_arith)
        requires
            t == dp / dd,
            dd != 0 as real,
    ;
    let e = sub3_value(q, moved3_value(o, d, t));
    lemma_sub_moved(q, o, d, t);
    lemma_dot_moved(diff, d, -t, d);
    assert((-t) * dd == -(t * dd)) by (nonlinear_arith);
    assert(dot_value(e, d) == 0 as real);
    lemma_sub_moved(q, o, d, s);
    lemma_moved_twice(diff, d, -t, t - s);
    assert(-t + (t - s) == -s);
    lemma_square_expansion(e, d, t - s);
    lemma_dot_self_nonneg(d);
    assert((t - s) * (t - s) * dd >= 0 as real) by (nonlinear_arith)
        requires
            dd >= 0 as real,
    ;
}

/// Projection onto a planar line gives the nearest point: the residual is
/// orthogonal to the direction, and no point of the line is closer.
pub proof fn line_projection2_is_nearest(q: (real, real), o: (real, real), d: (real, real), s: real)
    requires
        dot2_value(d, d) != 0 as real,
    ensures
        ({
            let proj = moved2_value(o, d, line_parameter2(q, o, d));
            let other = moved2_value(o, d, s);
            &&& dot2_value(sub2_value(q, proj), d) == 0 as real
            &&& dot2_value(sub2_value(q, proj), sub2_value(q, proj)) <= dot2_value(
                sub2_value(q, other),
                sub2_value(q, other),
            )
        }),
{
    reveal(dot_value);
    let (q3, o3, d3) = ((q.0, q.1, 0 as real), (o.0, o.1, 0 as real), (d.0, d.1, 0 as real));
    assert(0 as real * 0 as real == 0 as real);
    line_projection3_is_nearest(q3, o3, d3, s);
    let t = line_parameter2(q, o, d);
    assert(line_parameter3(q3, o3, d3) == t);
    assert(t * 0 as real == 0 as real && s * 0 as real == 0 as real) by (nonlinear_arith);
}

/// The Cramer solution satisfies both Gram equations.
proof fn lemma_cramer(guu: real, guv: real, gvv: real, ru: real, rv: real, u: real, v: real)
    requires
        guu * gvv - guv * guv != 0 as real,
        u == (ru * gvv - rv * guv) / (guu * gvv - guv * guv),
        v == (guu * rv - guv * ru) / (guu * gvv - guv * guv),
    ensures
        u * guu + v * guv == ru,
        u * guv + v * gvv == rv,
{
    let det = guu * gvv - guv * guv;
    let (a, b) = (ru * gvv - rv * guv, guu * rv - guv * ru);
    assert(u * det == a && v * det == b) by (nonlinear_arith)
        requires
            u == a / det,
            v == b / det,
            det != 0 as real,
    ;
    assert((u * guu + v * guv) * det == guu * (u * det) + guv * (v * det)) by (nonlinear_arith);
    assert((u * guv + v * gvv) * det == guv * (u * det) + gvv * (v * det)) by (nonlinear_arith);
    assert(guu * a + guv * b == ru * det) by (nonlinear_arith)
        requires
            a == ru * gvv - rv * guv,
            b == guu * rv - guv * ru,
            det == guu * gvv - guv * guv,
    ;
    assert(guv * a + gvv * b == rv * det) by (nonlinear_arith)
        requires
            a == ru * gvv - rv * guv,
            b == guu * rv - guv * ru,
            det == guu * gvv - guv * guv,
    ;
    let x = u * guu + v * guv;
    let y = u * guv + v * gvv;
    assert(x == ru) by (nonlinear_arith)
        requires
            x * det == ru * det,
            det != 0 as real,
    ;
    assert(y == rv) by (nonlinear_arith)
        requires
            y * det == rv * det,
            det != 0 as real,
    ;
}

/// The residual of the Cramer solution is orthogonal to both axes.
proof fn lemma_plane_residual_orthogonal(
    q: (real, real, real),
    o: (real, real, real),
    ua: (real, real, real),
    va: (real, real, real),
)
    requires
        gram_det(ua, va) != 0 as real,
    ensures
        ({
            let (u, v) = plane_parameters(q, o, ua, va);
            let e = sub3_value(q, plane_point(o, ua, va, u, v));
            &&& e == moved3_value(moved3_value(sub3_value(q, o), ua, -u), va, -v)
            &&& dot_value(e, ua) == 0 as real
            &&& dot_value(e, va) == 0 as real
        }),
{
    let (u, v) = plane_parameters(q, o, ua, va);
    let diff = sub3_value(q, o);
    let (guu, guv, gvv) = (dot_value(ua, ua), dot_value(ua, va), dot_value(va, va));
    let (ru, rv) = (dot_value(diff, ua), dot_value(diff, va));
    lemma_cramer(guu, guv, gvv, ru, rv, u, v);
    let half = moved3_value(diff, ua, -u);
    let e = moved3_value(half, va, -v);
    lemma_sub_moved(q, moved3_value(o, ua, u), va, v);
    lemma_sub_moved(q, o, ua, u);
    lemma_dot_symmetric(va, ua);
    lemma_dot_moved(half, va, -v, ua);
    lemma_dot_moved(diff, ua, -u, ua);
    lemma_negated_pair(u, guu, v, guv);
    lemma_dot_moved(half, va, -v, va);
    lemma_dot_moved(diff, ua, -u, va);
    lemma_negated_pair(u, guv, v, gvv);
}

/// `(-a) x + (-b) y = -(a x + b y)`.
proof fn lemma_negated_pair(a: real, x: real, b: real, y: real)
    ensures
        (-a) * x + (-b) * y == -(a * x + b * y),
{
    assert((-a) * x + (-b) * y == -(a * x + b * y)) by (nonlinear_arith);
}

/// `x + (-p) y + (p - s) y = x + (-s) y` in one coordinate.
proof fn lemma_step_shift(x: real, y: real, p: real, s: real)
    ensures
        x + (-p) * y + (p - s) * y == x + (-s) * y,
{
    assert((-p) * y + (p - s) * y == (-s) * y) by (nonlinear_arith);
}

/// Moving by `(u - s) ua + (v - w) va` turns the residual at `(u, v)` into
/// the residual at `(s, w)`.
proof fn lemma_plane_offset(
    diff: (real, real, real),
    ua: (real, real, real),
    va: (real, real, real),
    u: real,
    v: real,
    s: real,
    w: real,
)
    ensures
        moved3_value(
            moved3_value(moved3_value(diff, ua, -u), va, -v),
            moved3_value(moved3_value((0 as real, 0 as real, 0 as real), ua, u - s), va, v - w),
            1 as real,
        ) == moved3_value(moved3_value(diff, ua, -s), va, -w),
{
    let g = moved3_value(moved3_value((0 as real, 0 as real, 0 as real), ua, u - s), va, v - w);
    assert(1 as real * g.0 == g.0 && 1 as real * g.1 == g.1 && 1 as real * g.2 == g.2) by (nonlinear_arith);
    lemma_step_shift(diff.0, ua.0, u, s);
    lemma_step_shift(diff.1, ua.1, u, s);
    lemma_step_shift(diff.2, ua.2, u, s);
    assert((-v) * va.0 + (v - w) * va.0 == (-w) * va.0) by (nonlinear_arith);
    assert((-v) * va.1 + (v - w) * va.1 == (-w) * va.1) by (nonlinear_arith);
    assert((-v) * va.2 + (v - w) * va.2 == (-w) * va.2) by (nonlinear_arith);
}

/// An in-plane offset is orthogonal to a vector orthogonal to both axes.
proof fn lemma_offset_orthogonal(
    e: (real, real, real),
    ua: (real, real, real),
    va: (real, real, real),
    a: real,
    b: real,
)
    requires
        dot_value(e, ua) == 0 as real,
        dot_value(e, va) == 0 as real,
    ensures
        dot_value(e, moved3_value(moved3_value((0 as real, 0 as real, 0 as real), ua, a), va, b))
            == 0 as real,
{
    let zero = (0 as real, 0 as real, 0 as real);
    let g = moved3_value(moved3_value(zero, ua, a), va, b);
    lemma_dot_symmetric(e, g);
    lemma_dot_moved(moved3_value(zero, ua, a), va, b, e);
    lemma_dot_moved(zero, ua, a, e);
    lemma_dot_symmetric(ua, e);
    lemma_dot_symmetric(va, e);
    assert(dot_value(zero, e) == 0 as real) by {
        reveal(dot_value);
        assert(0 as real * e.0 == 0 as real && 0 as real * e.1 == 0 as real && 0 as real * e.2
            == 0 as real) by (nonlinear_arith);
    }
    assert(a * 0 as real == 0 as real && b * 0 as real == 0 as real) by (nonlinear_arith);
}

/// Projection onto a plane gives the nearest point: the residual is
/// orthogonal to both axes, and no point `origin + s u_axis + w v_axis` of
/// the plane is closer to the query.
pub proof fn plane_projection_is_nearest(
    q: (real, real, real),
    o: (real, real, real),
    ua: (real, real, real),
    va: (real, real, real),
    s: real,
    w: real,
)
    requires
        gram_det(ua, va) != 0 as real,
    ensures
        ({
            let (u, v) = plane_parameters(q, o, ua, va);
            let proj = plane_point(o, ua, va, u, v);
            let other = plane_point(o, ua, va, s, w);
            &&& dot_value(sub3_value(q, proj), ua) == 0 as real
            &&& dot_value(sub3_value(q, proj), va) == 0 as real
            &&& dot_value(sub3_value(q, proj), sub3_value(q, proj)) <= dot_value(
                sub3_value(q, other),
                sub3_value(q, other),
            )
        }),
{
    let (u, v) = plane_parameters(q, o, ua, va);
    let diff = sub3_value(q, o);
    lemma_plane_residual_orthogonal(q, o, ua, va);
    let e = sub3_value(q, plane_point(o, ua, va, u, v));
    let g = moved3_value(moved3_value((0 as real, 0 as real, 0 as real), ua, u - s), va, v - w);
    lemma_sub_moved(q, moved3_value(o, ua, s), va, w);
    lemma_sub_moved(q, o, ua, s);
    lemma_plane_offset(diff, ua, va, u, v, s, w);
    lemma_offset_orthogonal(e, ua, va, u - s, v - w);
    lemma_square_expansion(e, g, 1 as real);
    lemma_dot_self_nonneg(g);
    let (ee, eg, gg) = (dot_value(e, e), dot_value(e, g), dot_value(g, g));
    assert(ee + 2 as real * 1 as real * eg + 1 as real * 1 as real * gg >= ee) by (nonlinear_arith)
        requires
            eg == 0 as real,
            gg >= 0 as real,
    ;
}

} // verus!
