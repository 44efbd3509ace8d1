//! Exact evaluation and nearest-point projection for lines and planes.
//!
//! Inputs are binary64 patterns, decoded exactly; every intermediate value
//! is admitted by the rational cap of the budget. The results are the exact
//! rational point, parameters and squared distance; rounding them to
//! binary64 with certified error bounds is left to the caller.
use crate::exact::ExactRational;
use crate::geometry::analytic::enclosure::{
    budget_cap,
    dot_value,
    minor,
    raw_add_scaled3,
    raw_dot3,
    raw_sub_scaled3,
    values3,
    wf3,
};
use crate::geometry::analytic::exact::f64_value;
use crate::geometry::analytic::helpers::{budget_exhausted, uncertified_because, RationalCap};
use crate::geometry::error::GeometryError;
use crate::geometry::evaluation::CertificationBudget;
use crate::ieee::is_finite_bits;
use vstd::prelude::*;

verus! {

/// The real values of two patterns.
pub open spec fn pair_value(v: [u64; 2]) -> (real, real) {
    (f64_value(v[0]), f64_value(v[1]))
}

/// The real values of three patterns.
pub open spec fn triple_value(v: [u64; 3]) -> (real, real, real) {
    (f64_value(v[0]), f64_value(v[1]), f64_value(v[2]))
}

/// `x - y` coordinatewise.
pub open spec fn sub3_value(x: (real, real, real), y: (real, real, real)) -> (real, real, real) {
    (x.0 - y.0, x.1 - y.1, x.2 - y.2)
}

/// `base + s direction` coordinatewise.
pub open spec fn moved3_value(base: (real, real, real), direction: (real, real, real), s: real) -> (
    real,
    real,
    real,
) {
    (base.0 + s * direction.0, base.1 + s * direction.1, base.2 + s * direction.2)
}

/// `x - y` in the plane.
pub open spec fn sub2_value(x: (real, real), y: (real, real)) -> (real, real) {
    (x.0 - y.0, x.1 - y.1)
}

/// `base + s direction` in the plane.
pub open spec fn moved2_value(base: (real, real), direction: (real, real), s: real) -> (real, real) {
    (base.0 + s * direction.0, base.1 + s * direction.1)
}

/// The planar dot product.
pub open spec fn dot2_value(x: (real, real), y: (real, real)) -> real {
    x.0 * y.0 + x.1 * y.1
}

impl RationalCap {
    /// Both patterns decode within the cap.
    pub open spec fn decodes2(self, v: [u64; 2]) -> bool {
        self.decodes(v[0]) && self.decodes(v[1])
    }

    /// All three patterns decode within the cap.
    pub open spec fn decodes3(self, v: [u64; 3]) -> bool {
        self.decodes(v[0]) && self.decodes(v[1]) && self.decodes(v[2])
    }

    /// Every coordinate difference `x - y` fits.
    pub open spec fn difference3_ok(self, x: (real, real, real), y: (real, real, real)) -> bool {
        self.difference_ok(x.0, y.0) && self.difference_ok(x.1, y.1) && self.difference_ok(x.2, y.2)
    }

    /// Every coordinate difference `x - y` in the plane fits.
    pub open spec fn difference2_ok(self, x: (real, real), y: (real, real)) -> bool {
        self.difference_ok(x.0, y.0) && self.difference_ok(x.1, y.1)
    }

    /// Every step of a planar dot product fits.
    pub open spec fn dot2_ok(self, x: (real, real), y: (real, real)) -> bool {
        &&& self.product_ok(x.0, y.0)
        &&& self.product_ok(x.1, y.1)
        &&& self.sum_ok(x.0 * y.0, x.1 * y.1)
    }

    /// Every step of `base + s direction` in the plane fits.
    pub open spec fn moved2_ok(self, base: (real, real), direction: (real, real), s: real) -> bool {
        &&& self.product_ok(s, direction.0) && self.sum_ok(base.0, s * direction.0)
        &&& self.product_ok(s, direction.1) && self.sum_ok(base.1, s * direction.1)
    }
}

/// Decodes two finite patterns exactly.
pub fn to_rat2(cap: RationalCap, v: [u64; 2]) -> (exact: Result<[ExactRational; 2], GeometryError>)
    requires
        is_finite_bits(v[0]) && is_finite_bits(v[1]),
    ensures
        exact is Ok <==> cap.decodes2(v),
        exact matches Ok(r) ==> r[0].wf() && r[1].wf() && (r[0].value(), r[1].value()) == pair_value(v),
        exact matches Err(e) ==> budget_exhausted(e),
{
    let x = match cap.decode_f64(v[0]) {
        Ok(w) => w,
        Err(e) => return Err(e),
    };
    let y = match cap.decode_f64(v[1]) {
        Ok(w) => w,
        Err(e) => return Err(e),
    };
    Ok([x, y])
}

/// Decodes three finite patterns exactly.
pub fn to_rat3(cap: RationalCap, v: [u64; 3]) -> (exact: Result<[ExactRational; 3], GeometryError>)
    requires
        is_finite_bits(v[0]) && is_finite_bits(v[1]) && is_finite_bits(v[2]),
    ensures
        exact is Ok <==> cap.decodes3(v),
        exact matches Ok(r) ==> wf3(r) && values3(r) == triple_value(v),
        exact matches Err(e) ==> budget_exhausted(e),
{
    let x = match cap.decode_f64(v[0]) {
        Ok(w) => w,
        Err(e) => return Err(e),
    };
    let y = match cap.decode_f64(v[1]) {
        Ok(w) => w,
        Err(e) => return Err(e),
    };
    let z = match cap.decode_f64(v[2]) {
        Ok(w) => w,
        Err(e) => return Err(e),
    };
    Ok([x, y, z])
}

/// Certified coordinatewise difference `x - y`.
fn difference3(cap: RationalCap, x: &[ExactRational; 3], y: &[ExactRational; 3]) -> (d: Result<
    [ExactRational; 3],
    GeometryError,
>)
    requires
        wf3(*x),
        wf3(*y),
    ensures
        d is Ok <==> cap.difference3_ok(values3(*x), values3(*y)),
        d matches Ok(r) ==> wf3(r) && values3(r) == sub3_value(values3(*x), values3(*y)),
        d matches Err(e) ==> budget_exhausted(e),
{
    let a = match cap.sub(&x[0], &y[0]) {
        Ok(w) => w,
        Err(e) => return Err(e),
    };
    let b = match cap.sub(&x[1], &y[1]) {
        Ok(w) => w,
        Err(e) => return Err(e),
    };
    let c = match cap.sub(&x[2], &y[2]) {
        Ok(w) => w,
        Err(e) => return Err(e),
    };
    Ok([a, b, c])
}

/// Certified planar difference `x - y`.
fn difference2(cap: RationalCap, x: &[ExactRational; 2], y: &[ExactRational; 2]) -> (d: Result<
    [ExactRational; 2],
    GeometryError,
>)
    requires
        x[0].wf() && x[1].wf(),
        y[0].wf() && y[1].wf(),
    ensures
        d is Ok <==> cap.difference2_ok((x[0].value(), x[1].value()), (y[0].value(), y[1].value())),
        d matches Ok(r) ==> r[0].wf() && r[1].wf() && (r[0].value(), r[1].value()) == sub2_value(
            (x[0].value(), x[1].value()),
            (y[0].value(), y[1].value()),
        ),
        d matches Err(e) ==> budget_exhausted(e),
{
    let a = match cap.sub(&x[0], &y[0]) {
        Ok(w) => w,
        Err(e) => return Err(e),
    };
    let b = match cap.sub(&x[1], &y[1]) {
        Ok(w) => w,
        Err(e) => return Err(e),
    };
    Ok([a, b])
}

/// Certified planar dot product.
pub fn dot2(cap: RationalCap, x: &[ExactRational; 2], y: &[ExactRational; 2]) -> (d: Result<
    ExactRational,
    GeometryError,
>)
    requires
        x[0].wf() && x[1].wf(),
        y[0].wf() && y[1].wf(),
    ensures
        d is Ok <==> cap.dot2_ok((x[0].value(), x[1].value()), (y[0].value(), y[1].value())),
        d matches Ok(r) ==> r.wf() && r.value() == dot2_value(
            (x[0].value(), x[1].value()),
            (y[0].value(), y[1].value()),
        ),
        d matches Err(e) ==> budget_exhausted(e),
{
    let first = match cap.mul(&x[0], &y[0]) {
        Ok(w) => w,
        Err(e) => return Err(e),
    };
    let second = match cap.mul(&x[1], &y[1]) {
        Ok(w) => w,
        Err(e) => return Err(e),
    };
    cap.add(&first, &second)
}

/// Certified planar `base + s direction`.
fn moved2(cap: RationalCap, base: &[ExactRational; 2], direction: &[ExactRational; 2], s: &ExactRational) -> (m: Result<
    [ExactRational; 2],
    GeometryError,
>)
    requires
        base[0].wf() && base[1].wf(),
        direction[0].wf() && direction[1].wf(),
        s.wf(),
    ensures
        m is Ok <==> cap.moved2_ok(
            (base[0].value(), base[1].value()),
            (direction[0].value(), direction[1].value()),
            s.value(),
        ),
        m matches Ok(r) ==> r[0].wf() && r[1].wf() && (r[0].value(), r[1].value()) == moved2_value(
            (base[0].value(), base[1].value()),
            (direction[0].value(), direction[1].value()),
            s.value(),
        ),
        m matches Err(e) ==> budget_exhausted(e),
{
    let step0 = match cap.mul(s, &direction[0]) {
        Ok(w) => w,
        Err(e) => return Err(e),
    };
    let x = match cap.add(&base[0], &step0) {
        Ok(w) => w,
        Err(e) => return Err(e),
    };
    let step1 = match cap.mul(s, &direction[1]) {
        Ok(w) => w,
        Err(e) => return Err(e),
    };
    let y = match cap.add(&base[1], &step1) {
        Ok(w) => w,
        Err(e) => return Err(e),
    };
    Ok([x, y])
}

/// The exact point `origin + t direction` of a planar line.
pub fn exact_affine_eval2(budget: CertificationBudget, origin: [u64; 2], direction: [u64; 2], t: u64)
    -> (point: Result<[ExactRational; 2], GeometryError>)
    requires
        is_finite_bits(origin[0]) && is_finite_bits(origin[1]),
        is_finite_bits(direction[0]) && is_finite_bits(direction[1]),
        is_finite_bits(t),
    ensures
        point is Ok <==> {
            let c = budget_cap(budget);
            &&& c.decodes2(origin) && c.decodes2(direction) && c.decodes(t)
            &&& c.moved2_ok(pair_value(origin), pair_value(direction), f64_value(t))
        },
        point matches Ok(p) ==> p[0].wf() && p[1].wf() && (p[0].value(), p[1].value()) == moved2_value(
            pair_value(origin),
            pair_value(direction),
            f64_value(t),
        ),
        point matches Err(e) ==> budget_exhausted(e),
{
    let cap = RationalCap::new(budget);
    let o = match to_rat2(cap, origin) {
        Ok(w) => w,
        Err(e) => return Err(e),
    };
    let d = match to_rat2(cap, direction) {
        Ok(w) => w,
        Err(e) => return Err(e),
    };
    let t_r = match cap.decode_f64(t) {
        Ok(w) => w,
        Err(e) => return Err(e),
    };
    moved2(cap, &o, &d, &t_r)
}

/// The exact point `origin + t direction` of a spatial line.
pub fn exact_affine_eval3(budget: CertificationBudget, origin: [u64; 3], direction: [u64; 3], t: u64)
    -> (point: Result<[ExactRational; 3], GeometryError>)
    requires
        is_finite_bits(origin[0]) && is_finite_bits(origin[1]) && is_finite_bits(origin[2]),
        is_finite_bits(direction[0]) && is_finite_bits(direction[1]) && is_finite_bits(direction[2]),
        is_finite_bits(t),
    ensures
        point is Ok <==> {
            let c = budget_cap(budget);
            &&& c.decodes3(origin) && c.decodes3(direction) && c.decodes(t)
            &&& c.add_scaled_ok(triple_value(origin), triple_value(direction), f64_value(t))
        },
        point matches Ok(p) ==> wf3(p) && values3(p) == moved3_value(
            triple_value(origin),
            triple_value(direction),
            f64_value(t),
        ),
        point matches Err(e) ==> budget_exhausted(e),
{
    let cap = RationalCap::new(budget);
    let o = match to_rat3(cap, origin) {
        Ok(w) => w,
        Err(e) => return Err(e),
    };
    let d = match to_rat3(cap, direction) {
        Ok(w) => w,
        Err(e) => return Err(e),
    };
    let t_r = match cap.decode_f64(t) {
        Ok(w) => w,
        Err(e) => return Err(e),
    };
    raw_add_scaled3(budget, &o, &d, &t_r)
}

/// The exact point `origin + u u_axis + v v_axis` of a plane.
pub fn exact_plane_eval3(
    budget: CertificationBudget,
    origin: [u64; 3],
    u_axis: [u64; 3],
    v_axis: [u64; 3],
    u: u64,
    v: u64,
) -> (point: Result<[ExactRational; 3], GeometryError>)
    requires
        is_finite_bits(origin[0]) && is_finite_bits(origin[1]) && is_finite_bits(origin[2]),
        is_finite_bits(u_axis[0]) && is_finite_bits(u_axis[1]) && is_finite_bits(u_axis[2]),
        is_finite_bits(v_axis[0]) && is_finite_bits(v_axis[1]) && is_finite_bits(v_axis[2]),
        is_finite_bits(u),
        is_finite_bits(v),
    ensures
        point is Ok <==> {
            let c = budget_cap(budget);
            let along = moved3_value(triple_value(origin), triple_value(u_axis), f64_value(u));
            &&& c.decodes3(origin) && c.decodes3(u_axis) && c.decodes3(v_axis)
            &&& c.decodes(u) && c.decodes(v)
            &&& c.add_scaled_ok(triple_value(origin), triple_value(u_axis), f64_value(u))
            &&& c.add_scaled_ok(along, triple_value(v_axis), f64_value(v))
        },
        point matches Ok(p) ==> wf3(p) && values3(p) == moved3_value(
            moved3_value(triple_value(origin), triple_value(u_axis), f64_value(u)),
            triple_value(v_axis),
            f64_value(v),
        ),
        point matches Err(e) ==> budget_exhausted(e),
{
    let cap = RationalCap::new(budget);
    let o = match to_rat3(cap, origin) {
        Ok(w) => w,
        Err(e) => return Err(e),
    };
    let ua = match to_rat3(cap, u_axis) {
        Ok(w) => w,
        Err(e) => return Err(e),
    };
    let va = match to_rat3(cap, v_axis) {
        Ok(w) => w,
        Err(e) => return Err(e),
    };
    let u_r = match cap.decode_f64(u) {
        Ok(w) => w,
        Err(e) => return Err(e),
    };
    let v_r = match cap.decode_f64(v) {
        Ok(w) => w,
        Err(e) => return Err(e),
    };
    let along = match raw_add_scaled3(budget, &o, &ua, &u_r) {
        Ok(w) => w,
        Err(e) => return Err(e),
    };
    raw_add_scaled3(budget, &along, &va, &v_r)
}

/// An exact line projection: the parameter, the projected point and the
/// squared distance from the query to it.
pub struct ExactLineProjection<const N: usize> {
    pub parameter: ExactRational,
    pub point: [ExactRational; N],
    pub squared_distance: ExactRational,
}

/// An exact plane projection: both parameters, the projected point and the
/// squared distance from the query to it.
pub struct ExactPlaneProjection {
    pub u: ExactRational,
    pub v: ExactRational,
    pub point: [ExactRational; 3],
    pub squared_distance: ExactRational,
}

/// The failure for a line direction of exact zero length.
pub open spec fn zero_direction(error: GeometryError) -> bool {
    uncertified_because(error, "line direction has exact zero magnitude"@)
}

/// The failure for plane axes with a zero Gram determinant.
pub open spec fn degenerate_axes(error: GeometryError) -> bool {
    uncertified_because(error, "plane axes are exactly degenerate (zero Gram determinant)"@)
}

/// The parameter of the nearest point of the spatial line through `o` along
/// `d` to `q`.
pub open spec fn line_parameter3(q: (real, real, real), o: (real, real, real), d: (real, real, real)) -> real {
    dot_value(sub3_value(q, o), d) / dot_value(d, d)
}

/// The parameter of the nearest point of the planar line through `o` along
/// `d` to `q`.
pub open spec fn line_parameter2(q: (real, real), o: (real, real), d: (real, real)) -> real {
    dot2_value(sub2_value(q, o), d) / dot2_value(d, d)
}

impl RationalCap {
    /// Every step of a spatial line projection, after the direction's
    /// squared length, fits.
    pub open spec fn line_project3_ok(self, q: (real, real, real), o: (real, real, real), d: (real, real, real)) -> bool {
        let diff = sub3_value(q, o);
        let t = line_parameter3(q, o, d);
        let proj = moved3_value(o, d, t);
        let res = sub3_value(q, proj);
        &&& self.dot_ok(diff, d)
        &&& self.quotient_ok(dot_value(diff, d), dot_value(d, d))
        &&& self.add_scaled_ok(o, d, t)
        &&& self.difference3_ok(q, proj)
        &&& self.dot_ok(res, res)
    }

    /// Every step of a planar line projection, after the direction's
    /// squared length, fits.
    pub open spec fn line_project2_ok(self, q: (real, real), o: (real, real), d: (real, real)) -> bool {
        let diff = sub2_value(q, o);
        let t = line_parameter2(q, o, d);
        let proj = moved2_value(o, d, t);
        let res = sub2_value(q, proj);
        &&& self.dot2_ok(diff, d)
        &&& self.quotient_ok(dot2_value(diff, d), dot2_value(d, d))
        &&& self.moved2_ok(o, d, t)
        &&& self.difference2_ok(q, proj)
        &&& self.dot2_ok(res, res)
    }
}

/// Exact projection of `query` onto the spatial line `origin + t direction`:
/// `t = ((query - origin) . direction) / (direction . direction)`, which
/// needs only a nonzero direction, not a unit one.
#[verifier::spinoff_prover]
#[verifier::rlimit(30)]
pub fn exact_line_project3(budget: CertificationBudget, query: [u64; 3], origin: [u64; 3], direction: [u64; 3]) -> (projection: Result<ExactLineProjection<3>, GeometryError>)
    requires
        is_finite_bits(query[0]) && is_finite_bits(query[1]) && is_finite_bits(query[2]),
        is_finite_bits(origin[0]) && is_finite_bits(origin[1]) && is_finite_bits(origin[2]),
        is_finite_bits(direction[0]) && is_finite_bits(direction[1]) && is_finite_bits(direction[2]),
    ensures
        ({
            let c = budget_cap(budget);
            let (q, o, d) = (triple_value(query), triple_value(origin), triple_value(direction));
            let prefix = c.decodes3(query) && c.decodes3(origin) && c.decodes3(direction)
                && c.difference3_ok(q, o) && c.dot_ok(d, d);
            &&& (projection is Ok <==> prefix && dot_value(d, d) != 0 as real && c.line_project3_ok(q, o, d))
            &&& (prefix && dot_value(d, d) == 0 as real ==> (projection matches Err(e) && zero_direction(e)))
            &&& (projection matches Ok(p) ==> {
                let t = line_parameter3(q, o, d);
                let proj = moved3_value(o, d, t);
                &&& p.parameter.wf() && wf3(p.point) && p.squared_distance.wf()
                &&& p.parameter.value() == t
                &&& values3(p.point) == proj
                &&& p.squared_distance.value() == dot_value(sub3_value(q, proj), sub3_value(q, proj))
            })
            &&& (projection matches Err(e) ==> budget_exhausted(e) || zero_direction(e))
        }),
{
    let cap = RationalCap::new(budget);
    let q = match to_rat3(cap, query) {
        Ok(w) => w,
        Err(e) => return Err(e),
    };
    let o = match to_rat3(cap, origin) {
        Ok(w) => w,
        Err(e) => return Err(e),
    };
    let d = match to_rat3(cap, direction) {
        Ok(w) => w,
        Err(e) => return Err(e),
    };
    let diff = match difference3(cap, &q, &o) {
        Ok(w) => w,
        Err(e) => return Err(e),
    };
    let dot_dd = match raw_dot3(budget, &d, &d) {
        Ok(w) => w,
        Err(e) => return Err(e),
    };
    let zero = ExactRational::from_int(0);
    if dot_dd.le(&zero) && zero.le(&dot_dd) {
        return Err(GeometryError::Uncertified { reason: "line direction has exact zero magnitude".to_owned() });
    }
    let dot_diff_d = match raw_dot3(budget, &diff, &d) {
        Ok(w) => w,
        Err(e) => return Err(e),
    };
    let t_exact = match cap.div(&dot_diff_d, &dot_dd) {
        Ok(w) => w,
        Err(e) => return Err(e),
    };
    let proj = match raw_add_scaled3(budget, &o, &d, &t_exact) {
        Ok(w) => w,
        Err(e) => return Err(e),
    };
    let res = match difference3(cap, &q, &proj) {
        Ok(w) => w,
        Err(e) => return Err(e),
    };
    let sq_dist = match raw_dot3(budget, &res, &res) {
        Ok(w) => w,
        Err(e) => return Err(e),
    };
    Ok(ExactLineProjection { parameter: t_exact, point: proj, squared_distance: sq_dist })
}

/// Exact projection of `query` onto the planar line `origin + t direction`.
#[verifier::spinoff_prover]
#[verifier::rlimit(30)]
pub fn exact_line_project2(budget: CertificationBudget, query: [u64; 2], origin: [u64; 2], direction: [u64; 2]) -> (projection: Result<ExactLineProjection<2>, GeometryError>)
    requires
        is_finite_bits(query[0]) && is_finite_bits(query[1]),
        is_finite_bits(origin[0]) && is_finite_bits(origin[1]),
        is_finite_bits(direction[0]) && is_finite_bits(direction[1]),
    ensures
        ({
            let c = budget_cap(budget);
            let (q, o, d) = (pair_value(query), pair_value(origin), pair_value(direction));
            let prefix = c.decodes2(query) && c.decodes2(origin) && c.decodes2(direction)
                && c.difference2_ok(q, o) && c.dot2_ok(d, d);
            &&& (projection is Ok <==> prefix && dot2_value(d, d) != 0 as real && c.line_project2_ok(q, o, d))
            &&& (prefix && dot2_value(d, d) == 0 as real ==> (projection matches Err(e) && zero_direction(e)))
            &&& (projection matches Ok(p) ==> {
                let t = line_parameter2(q, o, d);
                let proj = moved2_value(o, d, t);
                &&& p.parameter.wf() && p.point[0].wf() && p.point[1].wf() && p.squared_distance.wf()
                &&& p.parameter.value() == t
                &&& (p.point[0].value(), p.point[1].value()) == proj
                &&& p.squared_distance.value() == dot2_value(sub2_value(q, proj), sub2_value(q, proj))
            })
            &&& (projection matches Err(e) ==> budget_exhausted(e) || zero_direction(e))
        }),
{
    let cap = RationalCap::new(budget);
    let q = match to_rat2(cap, query) {
        Ok(w) => w,
        Err(e) => return Err(e),
    };
    let o = match to_rat2(cap, origin) {
        Ok(w) => w,
        Err(e) => return Err(e),
    };
    let d = match to_rat2(cap, direction) {
        Ok(w) => w,
        Err(e) => return Err(e),
    };
    let diff = match difference2(cap, &q, &o) {
        Ok(w) => w,
        Err(e) => return Err(e),
    };
    let dot_dd = match dot2(cap, &d, &d) {
        Ok(w) => w,
        Err(e) => return Err(e),
    };
    let zero = ExactRational::from_int(0);
    if dot_dd.le(&zero) && zero.le(&dot_dd) {
        return Err(GeometryError::Uncertified { reason: "line direction has exact zero magnitude".to_owned() });
    }
    let dot_diff_d = match dot2(cap, &diff, &d) {
        Ok(w) => w,
        Err(e) => return Err(e),
    };
    let t_exact = match cap.div(&dot_diff_d, &dot_dd) {
        Ok(w) => w,
        Err(e) => return Err(e),
    };
    let proj = match moved2(cap, &o, &d, &t_exact) {
        Ok(w) => w,
        Err(e) => return Err(e),
    };
    let res = match difference2(cap, &q, &proj) {
        Ok(w) => w,
        Err(e) => return Err(e),
    };
    let sq_dist = match dot2(cap, &res, &res) {
        Ok(w) => w,
        Err(e) => return Err(e),
    };
    Ok(ExactLineProjection { parameter: t_exact, point: proj, squared_distance: sq_dist })
}

/// The Gram determinant `|u|^2 |v|^2 - (u . v)^2` of two axes.
pub open spec fn gram_det(ua: (real, real, real), va: (real, real, real)) -> real {
    dot_value(ua, ua) * dot_value(va, va) - dot_value(ua, va) * dot_value(ua, va)
}

/// The Cramer solution `(u, v)` of the Gram system of the nearest point of
/// the plane through `o` spanned by `ua`, `va` to `q`.
pub open spec fn plane_parameters(
    q: (real, real, real),
    o: (real, real, real),
    ua: (real, real, real),
    va: (real, real, real),
) -> (real, real) {
    let diff = sub3_value(q, o);
    let (guu, guv, gvv) = (dot_value(ua, ua), dot_value(ua, va), dot_value(va, va));
    let (ru, rv) = (dot_value(diff, ua), dot_value(diff, va));
    ((ru * gvv - rv * guv) / gram_det(ua, va), (guu * rv - guv * ru) / gram_det(ua, va))
}

/// The point `o + u ua + v va` of a plane.
pub open spec fn plane_point(
    o: (real, real, real),
    ua: (real, real, real),
    va: (real, real, real),
    u: real,
    v: real,
) -> (real, real, real) {
    moved3_value(moved3_value(o, ua, u), va, v)
}

impl RationalCap {
    /// Every step of a plane projection up to the Gram determinant fits.
    pub open spec fn gram_ok(
        self,
        q: (real, real, real),
        o: (real, real, real),
        ua: (real, real, real),
        va: (real, real, real),
    ) -> bool {
        let diff = sub3_value(q, o);
        let (guu, guv, gvv) = (dot_value(ua, ua), dot_value(ua, va), dot_value(va, va));
        &&& self.difference3_ok(q, o)
        &&& self.dot_ok(ua, ua) && self.dot_ok(ua, va) && self.dot_ok(va, va)
        &&& self.dot_ok(diff, ua) && self.dot_ok(diff, va)
        &&& self.minor_ok(guu, gvv, guv, guv)
    }

    /// Every step of a plane projection after the Gram determinant fits.
    pub open spec fn plane_project_ok(
        self,
        q: (real, real, real),
        o: (real, real, real),
        ua: (real, real, real),
        va: (real, real, real),
    ) -> bool {
        let diff = sub3_value(q, o);
        let (guu, guv, gvv) = (dot_value(ua, ua), dot_value(ua, va), dot_value(va, va));
        let (ru, rv) = (dot_value(diff, ua), dot_value(diff, va));
        let (u, v) = plane_parameters(q, o, ua, va);
        let proj = plane_point(o, ua, va, u, v);
        let res = sub3_value(q, proj);
        &&& self.minor_ok(ru, gvv, rv, guv)
        &&& self.minor_ok(guu, rv, guv, ru)
        &&& self.quotient_ok(ru * gvv - rv * guv, gram_det(ua, va))
        &&& self.quotient_ok(guu * rv - guv * ru, gram_det(ua, va))
        &&& self.add_scaled_ok(o, ua, u)
        &&& self.add_scaled_ok(moved3_value(o, ua, u), va, v)
        &&& self.difference3_ok(q, proj)
        &&& self.dot_ok(res, res)
    }
}

/// Exact projection of `query` onto the plane `origin + u u_axis + v v_axis`
/// by Cramer's rule on the Gram system, which needs only independent axes,
/// not orthonormal ones.
#[verifier::spinoff_prover]
#[verifier::rlimit(40)]
pub fn exact_plane_project3(
    budget: CertificationBudget,
    query: [u64; 3],
    origin: [u64; 3],
    u_axis: [u64; 3],
    v_axis: [u64; 3],
) -> (projection: Result<ExactPlaneProjection, GeometryError>)
    requires
        is_finite_bits(query[0]) && is_finite_bits(query[1]) && is_finite_bits(query[2]),
        is_finite_bits(origin[0]) && is_finite_bits(origin[1]) && is_finite_bits(origin[2]),
        is_finite_bits(u_axis[0]) && is_finite_bits(u_axis[1]) && is_finite_bits(u_axis[2]),
        is_finite_bits(v_axis[0]) && is_finite_bits(v_axis[1]) && is_finite_bits(v_axis[2]),
    ensures
        ({
            let c = budget_cap(budget);
            let (q, o, ua, va) = (
                triple_value(query),
                triple_value(origin),
                triple_value(u_axis),
                triple_value(v_axis),
            );
            let prefix = c.decodes3(query) && c.decodes3(origin) && c.decodes3(u_axis) && c.decodes3(
                v_axis,
            ) && c.gram_ok(q, o, ua, va);
            &&& (projection is Ok <==> prefix && gram_det(ua, va) != 0 as real && c.plane_project_ok(q, o, ua, va))
            &&& (prefix && gram_det(ua, va) == 0 as real ==> (projection matches Err(e) && degenerate_axes(e)))
            &&& (projection matches Ok(p) ==> {
                let (u, v) = plane_parameters(q, o, ua, va);
                let proj = plane_point(o, ua, va, u, v);
                &&& p.u.wf() && p.v.wf() && wf3(p.point) && p.squared_distance.wf()
                &&& p.u.value() == u && p.v.value() == v
                &&& values3(p.point) == proj
                &&& p.squared_distance.value() == dot_value(sub3_value(q, proj), sub3_value(q, proj))
            })
            &&& (projection matches Err(e) ==> budget_exhausted(e) || degenerate_axes(e))
        }),
{
    let cap = RationalCap::new(budget);
    let q = match to_rat3(cap, query) {
        Ok(w) => w,
        Err(e) => return Err(e),
    };
    let o = match to_rat3(cap, origin) {
        Ok(w) => w,
        Err(e) => return Err(e),
    };
    let ua = match to_rat3(cap, u_axis) {
        Ok(w) => w,
        Err(e) => return Err(e),
    };
    let va = match to_rat3(cap, v_axis) {
        Ok(w) => w,
        Err(e) => return Err(e),
    };
    let diff = match difference3(cap, &q, &o) {
        Ok(w) => w,
        Err(e) => return Err(e),
    };
    let guu = match raw_dot3(budget, &ua, &ua) {
        Ok(w) => w,
        Err(e) => return Err(e),
    };
    let guv = match raw_dot3(budget, &ua, &va) {
        Ok(w) => w,
        Err(e) => return Err(e),
    };
    let gvv = match raw_dot3(budget, &va, &va) {
        Ok(w) => w,
        Err(e) => return Err(e),
    };
    let rhs_u = match raw_dot3(budget, &diff, &ua) {
        Ok(w) => w,
        Err(e) => return Err(e),
    };
    let rhs_v = match raw_dot3(budget, &diff, &va) {
        Ok(w) => w,
        Err(e) => return Err(e),
    };
    let det = match minor(cap, &guu, &gvv, &guv, &guv) {
        Ok(w) => w,
        Err(e) => return Err(e),
    };
    let zero = ExactRational::from_int(0);
    if det.le(&zero) && zero.le(&det) {
        return Err(
            GeometryError::Uncertified {
                reason: "plane axes are exactly degenerate (zero Gram determinant)".to_owned(),
            },
        );
    }
    let u_numerator = match minor(cap, &rhs_u, &gvv, &rhs_v, &guv) {
        Ok(w) => w,
        Err(e) => return Err(e),
    };
    let v_numerator = match minor(cap, &guu, &rhs_v, &guv, &rhs_u) {
        Ok(w) => w,
        Err(e) => return Err(e),
    };
    let u_exact = match cap.div(&u_numerator, &det) {
        Ok(w) => w,
        Err(e) => return Err(e),
    };
    let v_exact = match cap.div(&v_numerator, &det) {
        Ok(w) => w,
        Err(e) => return Err(e),
    };
    let along = match raw_add_scaled3(budget, &o, &ua, &u_exact) {
        Ok(w) => w,
        Err(e) => return Err(e),
    };
    let proj = match raw_add_scaled3(budget, &along, &va, &v_exact) {
        Ok(w) => w,
        Err(e) => return Err(e),
    };
    let res = match difference3(cap, &q, &proj) {
        Ok(w) => w,
        Err(e) => return Err(e),
    };
    let sq_dist = match raw_dot3(budget, &res, &res) {
        Ok(w) => w,
        Err(e) => return Err(e),
    };
    Ok(ExactPlaneProjection { u: u_exact, v: v_exact, point: proj, squared_distance: sq_dist })
}

/// `x - s z` coordinatewise.
pub open spec fn less_scaled3(x: (real, real, real), z: (real, real, real), s: real) -> (real, real, real) {
    (x.0 - s * z.0, x.1 - s * z.1, x.2 - s * z.2)
}

/// The failure for an axis seed of exact zero length.
pub open spec fn zero_axis(error: GeometryError) -> bool {
    uncertified_because(error, "axis seed has exact zero magnitude"@)
}

impl RationalCap {
    /// Every step of splitting `x` along `z` after `|z|^2` fits.
    pub open spec fn split_ok(self, x: (real, real, real), z: (real, real, real)) -> bool {
        let t = dot_value(x, z) / dot_value(z, z);
        &&& self.dot_ok(x, z)
        &&& self.quotient_ok(dot_value(x, z), dot_value(z, z))
        &&& self.sub_scaled_ok(x, z, t)
    }
}

/// Splits a displacement along an exact axis seed: the exact axial
/// parameter `t = (d . z) / (z . z)` and the radial residual `d - t z`,
/// which lies in the plane through the axis point normal to `z`.
pub fn raw_plane_residual3(
    budget: CertificationBudget,
    displacement: &[ExactRational; 3],
    z_seed: &[ExactRational; 3],
) -> (split: Result<(ExactRational, [ExactRational; 3]), GeometryError>)
    requires
        wf3(*displacement),
        wf3(*z_seed),
    ensures
        ({
            let c = budget_cap(budget);
            let (d, z) = (values3(*displacement), values3(*z_seed));
            &&& (split is Ok <==> c.dot_ok(z, z) && dot_value(z, z) > 0 as real && c.split_ok(d, z))
            &&& (c.dot_ok(z, z) && dot_value(z, z) <= 0 as real ==> (split matches Err(e) && zero_axis(e)))
            &&& (split matches Ok((t, radial)) ==> {
                &&& t.wf() && wf3(radial)
                &&& t.value() == dot_value(d, z) / dot_value(z, z)
                &&& values3(radial) == less_scaled3(d, z, t.value())
            })
            &&& (split matches Err(e) ==> budget_exhausted(e) || zero_axis(e))
        }),
{
    let cap = RationalCap::new(budget);
    let z_sq = match raw_dot3(budget, z_seed, z_seed) {
        Ok(w) => w,
        Err(e) => return Err(e),
    };
    let zero = ExactRational::from_int(0);
    if z_sq.le(&zero) {
        return Err(GeometryError::Uncertified { reason: "axis seed has exact zero magnitude".to_owned() });
    }
    let axial_numerator = match raw_dot3(budget, displacement, z_seed) {
        Ok(w) => w,
        Err(e) => return Err(e),
    };
    let raw_line_parameter = match cap.div(&axial_numerator, &z_sq) {
        Ok(w) => w,
        Err(e) => return Err(e),
    };
    let radial = match raw_sub_scaled3(budget, displacement, z_seed, &raw_line_parameter) {
        Ok(w) => w,
        Err(e) => return Err(e),
    };
    Ok((raw_line_parameter, radial))
}

/// The component of the `x` seed perpendicular to the `z` seed, the exact
/// Gram-Schmidt step of an ideal frame: `x - ((x . z) / (z . z)) z`.
pub fn perpendicular_part(budget: CertificationBudget, z_seed: &[ExactRational; 3], x_seed: &[ExactRational; 3]) -> (perp: Result<[ExactRational; 3], GeometryError>)
    requires
        wf3(*z_seed),
        wf3(*x_seed),
    ensures
        ({
            let c = budget_cap(budget);
            let (z, x) = (values3(*z_seed), values3(*x_seed));
            &&& (perp is Ok <==> c.dot_ok(z, z) && c.split_ok(x, z))
            &&& (perp matches Ok(p) ==> wf3(p) && values3(p) == less_scaled3(x, z, dot_value(x, z) / dot_value(z, z)))
            &&& (perp matches Err(e) ==> budget_exhausted(e) || uncertified_because(e, "exact-rational division by zero"@))
        }),
{
    let cap = RationalCap::new(budget);
    let z_sq = match raw_dot3(budget, z_seed, z_seed) {
        Ok(w) => w,
        Err(e) => return Err(e),
    };
    let x_dot_z = match raw_dot3(budget, x_seed, z_seed) {
        Ok(w) => w,
        Err(e) => return Err(e),
    };
    let parallel_scale = match cap.div(&x_dot_z, &z_sq) {
        Ok(w) => w,
        Err(e) => return Err(e),
    };
    raw_sub_scaled3(budget, x_seed, z_seed, &parallel_scale)
}

/// All three coordinates are exactly zero.
pub fn exact_zero3(value: &[ExactRational; 3]) -> (zero: bool)
    requires
        wf3(*value),
    ensures
        zero == (values3(*value) == (0 as real, 0 as real, 0 as real)),
{
    let z = ExactRational::from_int(0);
    value[0].le(&z) && z.le(&value[0]) && value[1].le(&z) && z.le(&value[1]) && value[2].le(&z) && z.le(&value[2])
}

/// Both coordinates are exactly zero.
pub fn exact_zero2(value: &[ExactRational; 2]) -> (zero: bool)
    requires
        value[0].wf() && value[1].wf(),
    ensures
        zero == (value[0].value() == 0 as real && value[1].value() == 0 as real),
{
    let z = ExactRational::from_int(0);
    value[0].le(&z) && z.le(&value[0]) && value[1].le(&z) && z.le(&value[1])
}

} // verus!
