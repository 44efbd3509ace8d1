//! Checked application of a [`Transform3`] to analytic primitives.
//!
//! Points and vectors are transformed over exact dyadic values: every stored
//! coordinate is an integer multiple of `2^-1074`, so a product of two
//! coordinates is an integer multiple of `2^-2148`. A transformed coordinate
//! is accepted only when it is exactly representable as binary64; nothing is
//! rounded. Similarity analysis is exact as well: columns are compared by
//! their exact squared lengths and dot products, and the uniform scale is
//! accepted only as an exact, representable square root.
use crate::exact::{
    abs_int, bit_len, exact_units, lemma_bit_len_bounds, lemma_bit_len_unique, ExactInt,
};
use crate::geometry::error::TransformError;
use crate::ieee::{
    exp_field, f64_units, flip_sign, frac_field, is_finite, is_finite_bits, is_zero,
    lemma_flip_sign, magnitude, sign_negative, two_52,
};
use crate::math::{all_finite, Point3, Transform3, Vector3};
use crate::predicates::{cross3, dot3, Edge3};
use vstd::arithmetic::power2::{
    lemma2_to64, lemma2_to64_rest, lemma_pow2_adds, lemma_pow2_pos, lemma_pow2_strictly_increases,
    pow2,
};
use vstd::prelude::*;

verus! {

/// Some finite binary64 value is exactly `units × 2^-1074`.
pub open spec fn representable(units: int) -> bool {
    exists|bits: u64| is_finite_bits(bits) && f64_units(bits) == units
}

/// Some finite binary64 value is exactly `n × 2^-(1074 + shift)`.
pub open spec fn representable_scaled(n: int, shift: nat) -> bool {
    exists|bits: u64| is_finite_bits(bits) && f64_units(bits) * pow2(shift) == n
}

/// A pattern below `2^53` with a clear sign bit denotes its own value in
/// units of `2^-1074`.
proof fn lemma_small_pattern(v: u64)
    requires
        v < 0x20_0000_0000_0000,
    ensures
        is_finite_bits(v),
        f64_units(v) == v,
        magnitude(v) == v,
{
    assert(pow2(0) == 1) by {
        lemma2_to64();
    }
    assert(!sign_negative(v));
    if v >= 0x10_0000_0000_0000 {
        assert(v as int / two_52() == 1);
        assert(exp_field(v) == 1);
        assert(frac_field(v) == v - 0x10_0000_0000_0000);
        assert(magnitude(v) == (frac_field(v) + two_52()) * pow2(0));
    } else {
        assert(v as int / two_52() == 0);
        assert(exp_field(v) == 0);
        assert(frac_field(v) == v);
    }
}

/// The pattern `k × 2^52 + q`, with `q` a 53-bit significand, denotes
/// `q × 2^k` in units of `2^-1074`.
proof fn lemma_large_pattern(k: u64, q: u64)
    requires
        k <= 2045,
        0x10_0000_0000_0000 <= q < 0x20_0000_0000_0000,
    ensures
        k * 0x10_0000_0000_0000 + q < 0x8000_0000_0000_0000,
        is_finite_bits((k * 0x10_0000_0000_0000 + q) as u64),
        f64_units((k * 0x10_0000_0000_0000 + q) as u64) == q * pow2(k as nat),
{
    let p = (k * 0x10_0000_0000_0000 + q) as u64;
    let f = q - 0x10_0000_0000_0000;
    assert(p == (k + 1) * 0x10_0000_0000_0000 + f);
    assert(p as int / two_52() == k + 1);
    assert(exp_field(p) == k + 1);
    assert(frac_field(p) == f);
}

/// Every nonzero finite magnitude is either below `2^53` or a 53-bit
/// significand times `2^k` with `k <= 2045`.
proof fn lemma_representable_shape(bits: u64)
    requires
        is_finite_bits(bits),
        magnitude(bits) > 0,
    ensures
        bit_len(magnitude(bits)) <= 53 || {
            let k = bit_len(magnitude(bits)) - 53;
            &&& k <= 2045
            &&& (magnitude(bits) as int / (pow2(k as nat) as int)) * pow2(k as nat) == magnitude(bits)
        },
{
    let m = magnitude(bits);
    let e = exp_field(bits);
    let f = frac_field(bits);
    lemma2_to64();
    lemma2_to64_rest();
    lemma_bit_len_bounds(m);
    if e == 0 {
        if bit_len(m) > 53 {
            lemma_pow2_strictly_increases(52, (bit_len(m) - 1) as nat);
        }
    } else {
        let k = (e - 1) as nat;
        let q = f + two_52();
        lemma_pow2_pos(k);
        lemma_pow2_adds(52, k);
        lemma_pow2_adds(53, k);
        assert(pow2(52) * pow2(k) <= q * pow2(k) < pow2(53) * pow2(k)) by (nonlinear_arith)
            requires
                pow2(52) <= q < pow2(53),
                pow2(k) > 0,
        ;
        lemma_bit_len_unique(m, 53 + k);
        assert((q * pow2(k)) / (pow2(k) as int) == q) by (nonlinear_arith)
            requires
                pow2(k) > 0,
        ;
    }
}

/// Encodes an exact multiple of `2^-1074` as the binary64 pattern with that
/// value, when there is one. Zero is encoded as positive zero.
fn encode_units(m: &ExactInt) -> (encoded: Option<u64>)
    ensures
        encoded is Some <==> representable(m@),
        encoded matches Some(b) ==> is_finite_bits(b) && f64_units(b) == m@ && (m@ == 0 ==> b
            == 0),
{
    let zero = ExactInt::from_i64(0);
    let negative = !zero.le(m);
    let a = if negative {
        zero.sub(m)
    } else {
        m.copy()
    };
    assert(a@ == abs_int(m@));
    let width = a.bits();
    proof {
        lemma2_to64();
        lemma2_to64_rest();
        lemma_bit_len_bounds(abs_int(m@));
        if width < 53 {
            lemma_pow2_strictly_increases(width as nat, 53);
        }
    }
    let magnitude_bits: u64 = if width <= 53 {
        let v = match a.to_u64() {
            Some(v) => v,
            None => {
                return None;
            },
        };
        proof {
            lemma_small_pattern(v);
        }
        v
    } else {
        let k = width - 53;
        if k > 2045 {
            proof {
                if representable(m@) {
                    let bits = choose|bits: u64| is_finite_bits(bits) && f64_units(bits) == m@;
                    lemma_representable_shape(bits);
                }
            }
            return None;
        }
        let q = a.shr(k as usize);
        let back = q.shl(k as usize);
        if !(back.le(&a) && a.le(&back)) {
            proof {
                if representable(m@) {
                    let bits = choose|bits: u64| is_finite_bits(bits) && f64_units(bits) == m@;
                    lemma_representable_shape(bits);
                }
            }
            return None;
        }
        proof {
            lemma_pow2_pos(k as nat);
            lemma_pow2_adds(52, k as nat);
            lemma_pow2_adds(53, k as nat);
            assert(pow2(52) <= q@ < pow2(53)) by (nonlinear_arith)
                requires
                    pow2(52) * pow2(k as nat) <= q@ * pow2(k as nat) < pow2(53) * pow2(k as nat),
                    pow2(k as nat) > 0,
            ;
        }
        let qv = match q.to_u64() {
            Some(v) => v,
            None => {
                return None;
            },
        };
        proof {
            lemma_large_pattern(k, qv);
        }
        k * 0x10_0000_0000_0000 + qv
    };
    assert(is_finite_bits(magnitude_bits) && f64_units(magnitude_bits) == a@);
    assert(magnitude_bits < 0x8000_0000_0000_0000);
    if negative {
        let flipped = magnitude_bits + 0x8000_0000_0000_0000;
        proof {
            lemma_flip_sign(magnitude_bits);
            assert(flip_sign(magnitude_bits) == flipped);
        }
        Some(flipped)
    } else {
        proof {
            if m@ == 0 {
                lemma_bit_len_bounds(0);
            }
        }
        Some(magnitude_bits)
    }
}

proof fn lemma_cancel_power(u: int, p: int)
    requires
        p > 0,
    ensures
        (u * p) / p == u,
{
    assert((u * p) / p == u) by (nonlinear_arith)
        requires
            p > 0,
    ;
}

/// Encodes an exact multiple of `2^-(1074 + shift)` as the binary64 pattern
/// with that value, when there is one. Zero is encoded as positive zero.
fn encode_scaled(n: &ExactInt, shift: usize) -> (encoded: Option<u64>)
    ensures
        encoded is Some <==> representable_scaled(n@, shift as nat),
        encoded matches Some(b) ==> is_finite_bits(b) && f64_units(b) * pow2(shift as nat) == n@
            && (n@ == 0 ==> b == 0),
{
    let m = n.shr(shift);
    let back = m.shl(shift);
    let ghost p = pow2(shift as nat) as int;
    proof {
        lemma_pow2_pos(shift as nat);
    }
    if !(back.le(n) && n.le(&back)) {
        proof {
            if representable_scaled(n@, shift as nat) {
                let bits = choose|bits: u64|
                    is_finite_bits(bits) && f64_units(bits) * pow2(shift as nat) == n@;
                lemma_cancel_power(f64_units(bits), p);
            }
        }
        return None;
    }
    let encoded = encode_units(&m);
    proof {
        if representable_scaled(n@, shift as nat) {
            let bits = choose|bits: u64|
                is_finite_bits(bits) && f64_units(bits) * pow2(shift as nat) == n@;
            lemma_cancel_power(f64_units(bits), p);
            assert(is_finite_bits(bits) && f64_units(bits) == m@);
        }
        if representable(m@) {
            let bits = choose|bits: u64| is_finite_bits(bits) && f64_units(bits) == m@;
            assert(is_finite_bits(bits) && f64_units(bits) * pow2(shift as nat) == n@);
        }
    }
    encoded
}

/// Accepts an exact value `n × 2^-(1074 + shift)` only when binary64
/// represents it exactly, returning that pattern (positive zero for zero).
///
/// Returns [`TransformError::UnrepresentableResult`] otherwise.
fn exactly_representable(n: &ExactInt, shift: usize) -> (encoded: Result<u64, TransformError>)
    ensures
        encoded is Ok <==> representable_scaled(n@, shift as nat),
        encoded matches Ok(b) ==> is_finite_bits(b) && f64_units(b) * pow2(shift as nat) == n@
            && (n@ == 0 ==> b == 0),
        encoded matches Err(e) ==> e == TransformError::UnrepresentableResult,
{
    match encode_scaled(n, shift) {
        Some(b) => Ok(b),
        None => Err(TransformError::UnrepresentableResult),
    }
}

/// The pattern of `1.0`.
pub open spec fn one_bits() -> u64 {
    0x3ff0_0000_0000_0000
}

/// `1.0` is `2^1074` units of `2^-1074`.
proof fn lemma_one_units()
    ensures
        is_finite_bits(one_bits()),
        f64_units(one_bits()) == pow2(1074),
{
    lemma2_to64_rest();
    lemma_pow2_adds(52, 1022);
    assert(exp_field(one_bits()) == 1023);
    assert(frac_field(one_bits()) == 0);
}

/// The linear part of a row-major affine matrix is exactly the identity:
/// the diagonal holds the pattern of `1.0` and every other linear entry is a
/// zero of either sign.
pub open spec fn linear_identity(m: Seq<u64>) -> bool {
    &&& m[0] == one_bits() && m[5] == one_bits() && m[10] == one_bits()
    &&& f64_units(m[1]) == 0 && f64_units(m[2]) == 0 && f64_units(m[4]) == 0
    &&& f64_units(m[6]) == 0 && f64_units(m[8]) == 0 && f64_units(m[9]) == 0
}

/// The affine matrix is exactly the identity, allowing either sign on zeros.
pub open spec fn affine_identity(m: Seq<u64>) -> bool {
    &&& linear_identity(m)
    &&& f64_units(m[3]) == 0 && f64_units(m[7]) == 0 && f64_units(m[11]) == 0
}

fn linear_part_is_identity(m: &[u64; 12]) -> (identity: bool)
    requires
        all_finite(m@),
    ensures
        identity == linear_identity(m@),
{
    m[0] == 0x3ff0_0000_0000_0000 && is_zero(m[1]) && is_zero(m[2]) && is_zero(m[4]) && m[5]
        == 0x3ff0_0000_0000_0000 && is_zero(m[6]) && is_zero(m[8]) && is_zero(m[9]) && m[10]
        == 0x3ff0_0000_0000_0000
}

/// Returns whether the transform acts as the exact identity, allowing either
/// sign bit on stored zero entries.
pub fn is_identity_transform(transform: &Transform3) -> (identity: bool)
    ensures
        identity == affine_identity(transform.spec_entries()),
{
    proof {
        use_type_invariant(transform);
    }
    let m = transform.into_row_major();
    linear_part_is_identity(&m) && is_zero(m[3]) && is_zero(m[7]) && is_zero(m[11])
}

/// Row `row` of the affine map applied to `v`, exactly, in units of
/// `2^-2148`; the translation column takes part when `translate` holds.
pub open spec fn affine_row(m: Seq<u64>, v: Seq<u64>, row: int, translate: bool) -> int {
    let base = 4 * row;
    f64_units(m[base]) * f64_units(v[0]) + f64_units(m[base + 1]) * f64_units(v[1]) + f64_units(
        m[base + 2],
    ) * f64_units(v[2]) + if translate {
        f64_units(m[base + 3]) * pow2(1074)
    } else {
        0
    }
}

/// Every row of the exact affine image is representable as binary64.
pub open spec fn image_representable(m: Seq<u64>, v: Seq<u64>, translate: bool) -> bool {
    forall|row: int| 0 <= row < 3 ==> representable_scaled(#[trigger] affine_row(m, v, row, translate), 1074)
}

/// `out` holds the exact affine image of `v` (in units of `2^-1074`).
pub open spec fn is_image(out: Seq<u64>, m: Seq<u64>, v: Seq<u64>, translate: bool) -> bool {
    forall|row: int|
        0 <= row < 3 ==> is_finite_bits(#[trigger] out[row]) && f64_units(out[row]) * pow2(1074)
            == affine_row(m, v, row, translate)
}

fn exact_row(m: &[u64; 12], v: &[u64; 3], row: usize, translate: bool) -> (value: ExactInt)
    requires
        all_finite(m@),
        all_finite(v@),
        row < 3,
    ensures
        value@ == affine_row(m@, v@, row as int, translate),
{
    let base = 4 * row;
    let sum = exact_units(m[base]).mul(&exact_units(v[0])).add(
        &exact_units(m[base + 1]).mul(&exact_units(v[1])),
    ).add(&exact_units(m[base + 2]).mul(&exact_units(v[2])));
    if translate {
        sum.add(&exact_units(m[base + 3]).shl(1074))
    } else {
        sum
    }
}

/// Applies an affine (or, without translation, linear) map exactly and
/// rejects any component that binary64 cannot represent.
fn exact_affine_components(m: &[u64; 12], v: &[u64; 3], translate: bool) -> (image: Result<
    [u64; 3],
    TransformError,
>)
    requires
        all_finite(m@),
        all_finite(v@),
    ensures
        image is Ok <==> image_representable(m@, v@, translate),
        image matches Ok(out) ==> is_image(out@, m@, v@, translate),
        image matches Err(e) ==> e == TransformError::UnrepresentableResult,
{
    let x = match exactly_representable(&exact_row(m, v, 0, translate), 1074) {
        Ok(b) => b,
        Err(e) => return Err(e),
    };
    let y = match exactly_representable(&exact_row(m, v, 1, translate), 1074) {
        Ok(b) => b,
        Err(e) => return Err(e),
    };
    let z = match exactly_representable(&exact_row(m, v, 2, translate), 1074) {
        Ok(b) => b,
        Err(e) => return Err(e),
    };
    let out = [x, y, z];
    assert forall|row: int| 0 <= row < 3 implies representable_scaled(
        #[trigger] affine_row(m@, v@, row, translate),
        1074,
    ) by {
        if row == 0 {
            assert(is_finite_bits(x) && f64_units(x) * pow2(1074) == affine_row(m@, v@, 0, translate));
        } else if row == 1 {
            assert(is_finite_bits(y) && f64_units(y) * pow2(1074) == affine_row(m@, v@, 1, translate));
        } else {
            assert(is_finite_bits(z) && f64_units(z) * pow2(1074) == affine_row(m@, v@, 2, translate));
        }
    }
    Ok(out)
}

/// The coordinates of a point as a sequence.
pub open spec fn point_coords(point: Point3) -> Seq<u64> {
    seq![point.spec_x(), point.spec_y(), point.spec_z()]
}

/// The components of a vector as a sequence.
pub open spec fn vector_coords(vector: Vector3) -> Seq<u64> {
    seq![vector.spec_x(), vector.spec_y(), vector.spec_z()]
}

proof fn lemma_identity_row(m: Seq<u64>, v: Seq<u64>, row: int, translate: bool)
    requires
        m.len() == 12,
        v.len() == 3,
        0 <= row < 3,
        linear_identity(m),
        translate ==> affine_identity(m),
        is_finite_bits(v[row]),
    ensures
        affine_row(m, v, row, translate) == f64_units(v[row]) * pow2(1074),
        representable_scaled(affine_row(m, v, row, translate), 1074),
{
    lemma_one_units();
    let b = 4 * row;
    let one = pow2(1074) as int;
    let (x, y, z) = (f64_units(v[0]), f64_units(v[1]), f64_units(v[2]));
    assert(0 * x == 0 && 0 * y == 0 && 0 * z == 0 && one * x == x * one && one * y == y * one
        && one * z == z * one && 0 * one == 0) by (nonlinear_arith);
    assert(is_finite_bits(v[row]) && f64_units(v[row]) * pow2(1074) == affine_row(
        m,
        v,
        row,
        translate,
    ));
}

/// Under an identity map every row is the corresponding coordinate itself.
proof fn lemma_identity_rows(m: Seq<u64>, v: Seq<u64>, translate: bool)
    requires
        m.len() == 12,
        v.len() == 3,
        linear_identity(m),
        translate ==> affine_identity(m),
        all_finite(v),
    ensures
        image_representable(m, v, translate),
        is_image(v, m, v, translate),
{
    assert forall|row: int| 0 <= row < 3 implies representable_scaled(
        #[trigger] affine_row(m, v, row, translate),
        1074,
    ) by {
        lemma_identity_row(m, v, row, translate);
    }
    assert forall|row: int| 0 <= row < 3 implies is_finite_bits(#[trigger] v[row]) && f64_units(
        v[row],
    ) * pow2(1074) == affine_row(m, v, row, translate) by {
        lemma_identity_row(m, v, row, translate);
    }
}

/// Applies an affine transform to a point exactly and rejects any rounded
/// coordinate. The identity transform returns the point unchanged.
///
/// Returns [`TransformError::UnrepresentableResult`] when some exact image
/// coordinate is not a binary64 value.
#[verifier::spinoff_prover]
#[verifier::rlimit(40)]
pub fn exact_transform_point(transform: &Transform3, point: Point3) -> (image: Result<
    Point3,
    TransformError,
>)
    ensures
        affine_identity(transform.spec_entries()) ==> image == Ok::<Point3, TransformError>(point),
        image is Ok <==> image_representable(transform.spec_entries(), point_coords(point), true),
        image matches Ok(p) ==> is_image(
            point_coords(p),
            transform.spec_entries(),
            point_coords(point),
            true,
        ),
        image matches Err(e) ==> e == TransformError::UnrepresentableResult,
{
    proof {
        use_type_invariant(transform);
        use_type_invariant(&point);
    }
    let m = transform.into_row_major();
    let v = point.into_array();
    assert(v@ == point_coords(point));
    if is_identity_transform(transform) {
        proof {
            lemma_identity_rows(m@, v@, true);
        }
        return Ok(point);
    }
    match exact_affine_components(&m, &v, true) {
        Ok(out) => {
            let p = Point3::from_finite(out[0], out[1], out[2]);
            assert(point_coords(p) == out@);
            Ok(p)
        },
        Err(e) => Err(e),
    }
}

/// Applies the linear part of a transform to a vector exactly and rejects
/// any rounded component. A transform with an identity linear part returns
/// the vector unchanged.
///
/// Returns [`TransformError::UnrepresentableResult`] when some exact image
/// component is not a binary64 value.
pub fn exact_transform_vector(transform: &Transform3, vector: Vector3) -> (image: Result<
    Vector3,
    TransformError,
>)
    ensures
        linear_identity(transform.spec_entries()) ==> image == Ok::<Vector3, TransformError>(vector),
        image is Ok <==> image_representable(transform.spec_entries(), vector_coords(vector), false),
        image matches Ok(w) ==> is_image(
            vector_coords(w),
            transform.spec_entries(),
            vector_coords(vector),
            false,
        ),
        image matches Err(e) ==> e == TransformError::UnrepresentableResult,
{
    proof {
        use_type_invariant(transform);
        use_type_invariant(&vector);
    }
    let m = transform.into_row_major();
    let v = vector.into_array();
    assert(v@ == vector_coords(vector));
    if linear_part_is_identity(&m) {
        proof {
            lemma_identity_rows(m@, v@, false);
        }
        return Ok(vector);
    }
    match exact_affine_components(&m, &v, false) {
        Ok(out) => match Vector3::try_new(out[0], out[1], out[2]) {
            Ok(w) => {
                assert(vector_coords(w) == out@);
                Ok(w)
            },
            Err(_) => Err(TransformError::NonFiniteResult),
        },
        Err(e) => Err(e),
    }
}

/// Column `j` of the linear part, in units of `2^-1074`.
pub open spec fn column(m: Seq<u64>, j: int) -> Edge3 {
    Edge3 { x: f64_units(m[j]), y: f64_units(m[4 + j]), z: f64_units(m[8 + j]) }
}

/// The linear part is an exact similarity without reflection: its columns
/// have one common nonzero squared length, are mutually orthogonal, and form
/// a positively oriented frame.
pub open spec fn is_exact_similarity(m: Seq<u64>) -> bool {
    let c0 = column(m, 0);
    let c1 = column(m, 1);
    let c2 = column(m, 2);
    &&& dot3(c0, c0) > 0 && dot3(c1, c1) > 0 && dot3(c2, c2) > 0
    &&& dot3(c0, c0) == dot3(c1, c1) && dot3(c0, c0) == dot3(c2, c2)
    &&& dot3(c0, c1) == 0 && dot3(c0, c2) == 0 && dot3(c1, c2) == 0
    &&& dot3(c0, cross3(c1, c2)) > 0
}

/// The common squared column length (in units of `2^-2148`) has a positive
/// square root that binary64 represents exactly.
pub open spec fn has_representable_root(square: int) -> bool {
    exists|root: int| root > 0 && root * root == square && representable(root)
}

proof fn lemma_root_unique(root: int, floor: int, square: int)
    requires
        root > 0,
        floor >= 0,
        root * root == square,
        floor * floor <= square < (floor + 1) * (floor + 1),
    ensures
        root == floor,
{
    if root < floor {
        assert(root * root < floor * floor) by (nonlinear_arith)
            requires
                0 < root < floor,
        ;
    } else if root > floor {
        assert(root * root >= (floor + 1) * (floor + 1)) by (nonlinear_arith)
            requires
                root >= floor + 1,
                floor >= 0,
        ;
    }
}

fn column_exact(m: &[u64; 12], j: usize) -> (c: [ExactInt; 3])
    requires
        all_finite(m@),
        j < 3,
    ensures
        c[0]@ == column(m@, j as int).x,
        c[1]@ == column(m@, j as int).y,
        c[2]@ == column(m@, j as int).z,
{
    [exact_units(m[j]), exact_units(m[4 + j]), exact_units(m[8 + j])]
}

fn dot_exact(a: &[ExactInt; 3], b: &[ExactInt; 3]) -> (d: ExactInt)
    ensures
        d@ == a[0]@ * b[0]@ + a[1]@ * b[1]@ + a[2]@ * b[2]@,
{
    a[0].mul(&b[0]).add(&a[1].mul(&b[1])).add(&a[2].mul(&b[2]))
}

fn equal_exact(a: &ExactInt, b: &ExactInt) -> (equal: bool)
    ensures
        equal == (a@ == b@),
{
    a.le(b) && b.le(a)
}

/// The uniform scale of an exact similarity transform.
///
/// Returns [`TransformError::NotSimilarity`] unless the columns of the linear
/// part have one common nonzero length, are mutually orthogonal, and have a
/// positive determinant; returns [`TransformError::UnrepresentableScale`]
/// when that common length is not exactly a positive binary64 value.
pub fn similarity_scale(transform: &Transform3) -> (scale: Result<u64, TransformError>)
    ensures
        !is_exact_similarity(transform.spec_entries()) ==> scale == Err::<u64, TransformError>(
            TransformError::NotSimilarity,
        ),
        is_exact_similarity(transform.spec_entries()) && !has_representable_root(
            dot3(column(transform.spec_entries(), 0), column(transform.spec_entries(), 0)),
        ) ==> scale == Err::<u64, TransformError>(TransformError::UnrepresentableScale),
        scale is Ok <==> is_exact_similarity(transform.spec_entries()) && has_representable_root(
            dot3(column(transform.spec_entries(), 0), column(transform.spec_entries(), 0)),
        ),
        scale matches Ok(b) ==> is_finite_bits(b) && f64_units(b) > 0 && f64_units(b) * f64_units(b)
            == dot3(column(transform.spec_entries(), 0), column(transform.spec_entries(), 0)),
{
    proof {
        use_type_invariant(transform);
    }
    let m = transform.into_row_major();
    let c0 = column_exact(&m, 0);
    let c1 = column_exact(&m, 1);
    let c2 = column_exact(&m, 2);
    let ghost e0 = column(m@, 0);
    let ghost e1 = column(m@, 1);
    let ghost e2 = column(m@, 2);
    let zero = ExactInt::from_i64(0);
    let n0 = dot_exact(&c0, &c0);
    let n1 = dot_exact(&c1, &c1);
    let n2 = dot_exact(&c2, &c2);
    assert(n0@ == dot3(e0, e0) && n1@ == dot3(e1, e1) && n2@ == dot3(e2, e2));
    if n0.le(&zero) || n1.le(&zero) || n2.le(&zero) {
        return Err(TransformError::NotSimilarity);
    }
    if !equal_exact(&n0, &n1) || !equal_exact(&n0, &n2) {
        return Err(TransformError::NotSimilarity);
    }
    let d01 = dot_exact(&c0, &c1);
    let d02 = dot_exact(&c0, &c2);
    let d12 = dot_exact(&c1, &c2);
    assert(d01@ == dot3(e0, e1) && d02@ == dot3(e0, e2) && d12@ == dot3(e1, e2));
    if !equal_exact(&d01, &zero) || !equal_exact(&d02, &zero) || !equal_exact(&d12, &zero) {
        return Err(TransformError::NotSimilarity);
    }
    let minor = [
        c1[1].mul(&c2[2]).sub(&c1[2].mul(&c2[1])),
        c1[2].mul(&c2[0]).sub(&c1[0].mul(&c2[2])),
        c1[0].mul(&c2[1]).sub(&c1[1].mul(&c2[0])),
    ];
    let det = dot_exact(&c0, &minor);
    assert(det@ == dot3(e0, cross3(e1, e2)));
    if det.le(&zero) {
        return Err(TransformError::NotSimilarity);
    }
    let root = n0.sqrt();
    let square = root.mul(&root);
    if !equal_exact(&square, &n0) {
        proof {
            if has_representable_root(n0@) {
                let r = choose|r: int| r > 0 && r * r == n0@ && representable(r);
                lemma_root_unique(r, root@, n0@);
            }
        }
        return Err(TransformError::UnrepresentableScale);
    }
    match encode_units(&root) {
        Some(b) => {
            assert(root@ > 0) by (nonlinear_arith)
                requires
                    root@ >= 0,
                    root@ * root@ == n0@,
                    n0@ > 0,
            ;
            Ok(b)
        },
        None => {
            proof {
                if has_representable_root(n0@) {
                    let r = choose|r: int| r > 0 && r * r == n0@ && representable(r);
                    lemma_root_unique(r, root@, n0@);
                }
            }
            Err(TransformError::UnrepresentableScale)
        },
    }
}

/// Multiplies a positive metric value by an exact similarity scale, accepting
/// the product only when binary64 represents it exactly.
///
/// Returns [`TransformError::UnrepresentableScale`] when either input is
/// non-finite, the exact product is not positive, or binary64 cannot
/// represent it.
pub fn exact_scaled_length(value: u64, scale: u64) -> (scaled: Result<u64, TransformError>)
    ensures
        scaled is Ok <==> is_finite_bits(value) && is_finite_bits(scale) && f64_units(value)
            * f64_units(scale) > 0 && representable_scaled(f64_units(value) * f64_units(scale), 1074),
        scaled matches Ok(b) ==> is_finite_bits(b) && f64_units(b) * pow2(1074) == f64_units(value)
            * f64_units(scale),
        scaled matches Err(e) ==> e == TransformError::UnrepresentableScale,
{
    if !is_finite(value) || !is_finite(scale) {
        return Err(TransformError::UnrepresentableScale);
    }
    let product = exact_units(value).mul(&exact_units(scale));
    if product.le(&ExactInt::from_i64(0)) {
        return Err(TransformError::UnrepresentableScale);
    }
    match encode_scaled(&product, 1074) {
        Some(b) => Ok(b),
        None => Err(TransformError::UnrepresentableScale),
    }
}

} // verus!
