//! Exact reading of IEEE 754 binary64 values from their bit patterns.
//!
//! Every model-space scalar in this crate is carried as the 64-bit pattern of
//! a binary64 value. A finite pattern denotes the exact dyadic rational
//! `±significand × 2^exponent`; all of them are integer multiples of the
//! smallest subnormal `2^-1074`. [`f64_units`] returns that integer, so the
//! real number denoted by `bits` is `f64_units(bits) / 2^1074`. Every
//! comparison in the crate is stated and proved over this exact value.
use vstd::arithmetic::power2::{
    lemma_pow2_adds, lemma_pow2_pos, lemma_pow2_strictly_increases, pow2,
};
use vstd::prelude::*;

verus! {

/// `2^52`, the weight of the biased-exponent field.
pub open spec fn two_52() -> int {
    0x10_0000_0000_0000
}

/// `2^63`, the weight of the sign bit.
pub open spec fn two_63() -> int {
    0x8000_0000_0000_0000
}

/// The 11-bit biased exponent field.
pub open spec fn exp_field(bits: u64) -> int {
    (bits as int / two_52()) % 0x800
}

/// The 52-bit fraction field.
pub open spec fn frac_field(bits: u64) -> int {
    bits as int % two_52()
}

/// The sign bit.
pub open spec fn sign_negative(bits: u64) -> bool {
    bits as int >= two_63()
}

/// The pattern denotes a finite value (not an infinity and not a NaN).
pub open spec fn is_finite_bits(bits: u64) -> bool {
    exp_field(bits) != 0x7ff
}

/// The pattern denotes a NaN.
pub open spec fn is_nan_bits(bits: u64) -> bool {
    exp_field(bits) == 0x7ff && frac_field(bits) != 0
}

/// Magnitude of a finite pattern as a multiple of `2^-1074`.
pub open spec fn magnitude(bits: u64) -> nat {
    if exp_field(bits) == 0 {
        frac_field(bits) as nat
    } else {
        ((frac_field(bits) + two_52()) * pow2((exp_field(bits) - 1) as nat)) as nat
    }
}

/// Exact value of a finite pattern as a signed multiple of `2^-1074`.
pub open spec fn f64_units(bits: u64) -> int {
    if sign_negative(bits) {
        -(magnitude(bits) as int)
    } else {
        magnitude(bits) as int
    }
}

/// The pattern with the sign bit cleared, read as an integer.
pub open spec fn unsigned_key(bits: u64) -> int {
    bits as int % two_63()
}

/// A signed integer key whose order matches the order of finite values.
pub open spec fn order_key(bits: u64) -> int {
    if sign_negative(bits) {
        -unsigned_key(bits)
    } else {
        unsigned_key(bits)
    }
}

proof fn lemma_key_split(bits: u64)
    ensures
        unsigned_key(bits) == exp_field(bits) * two_52() + frac_field(bits),
        0 <= frac_field(bits) < two_52(),
        0 <= exp_field(bits) < 0x800,
        sign_negative(bits) <==> bits as int / two_52() >= 0x800,
{
    assert(bits % 0x8000_0000_0000_0000 == ((bits / 0x10_0000_0000_0000) % 0x800)
        * 0x10_0000_0000_0000 + bits % 0x10_0000_0000_0000) by (bit_vector);
    assert(bits >= 0x8000_0000_0000_0000 <==> bits / 0x10_0000_0000_0000 >= 0x800) by (bit_vector);
}

proof fn lemma_mul_pos_lt(a: int, b: int, p: int)
    by (nonlinear_arith)
    requires
        a < b,
        p > 0,
    ensures
        a * p < b * p,
{
}

proof fn lemma_mul_le(a: int, b: int, p: int)
    by (nonlinear_arith)
    requires
        a <= b,
        p >= 0,
    ensures
        a * p <= b * p,
{
}

/// Bounds of the magnitude by the exponent field.
proof fn lemma_magnitude_bounds(bits: u64)
    requires
        is_finite_bits(bits),
    ensures
        magnitude(bits) < two_52() * pow2(exp_field(bits) as nat),
        exp_field(bits) >= 1 ==> magnitude(bits) >= two_52() * pow2((exp_field(bits) - 1) as nat),
{
    lemma_key_split(bits);
    let e = exp_field(bits);
    if e == 0 {
        vstd::arithmetic::power2::lemma2_to64();
    } else {
        let p = pow2((e - 1) as nat);
        lemma_pow2_pos((e - 1) as nat);
        lemma_pow2_adds(1, (e - 1) as nat);
        vstd::arithmetic::power2::lemma2_to64();
        assert(pow2(e as nat) == 2 * p);
        lemma_mul_pos_lt(frac_field(bits) + two_52(), 2 * two_52(), p as int);
        lemma_mul_le(two_52(), frac_field(bits) + two_52(), p as int);
        assert(two_52() * (2 * p) == (2 * two_52()) * p) by (nonlinear_arith);
    }
}

/// The magnitude is strictly increasing in the unsigned key.
proof fn lemma_magnitude_monotone(a: u64, b: u64)
    requires
        is_finite_bits(a),
        is_finite_bits(b),
        unsigned_key(a) < unsigned_key(b),
    ensures
        magnitude(a) < magnitude(b),
{
    lemma_key_split(a);
    lemma_key_split(b);
    let ea = exp_field(a);
    let eb = exp_field(b);
    if ea == eb {
        if ea != 0 {
            lemma_pow2_pos((ea - 1) as nat);
            lemma_mul_pos_lt(
                frac_field(a) + two_52(),
                frac_field(b) + two_52(),
                pow2((ea - 1) as nat) as int,
            );
        }
    } else {
        assert(ea < eb) by (nonlinear_arith)
            requires
                ea * two_52() + frac_field(a) < eb * two_52() + frac_field(b),
                0 <= frac_field(a) < two_52(),
                0 <= frac_field(b) < two_52(),
                two_52() > 0,
                ea != eb,
        ;
        lemma_magnitude_bounds(a);
        lemma_magnitude_bounds(b);
        if ea < eb - 1 {
            lemma_pow2_strictly_increases(ea as nat, (eb - 1) as nat);
        }
        lemma_mul_le(pow2(ea as nat) as int, pow2((eb - 1) as nat) as int, two_52());
        assert(two_52() * pow2(ea as nat) <= two_52() * pow2((eb - 1) as nat)) by (nonlinear_arith)
            requires
                pow2(ea as nat) * two_52() <= pow2((eb - 1) as nat) * two_52(),
        ;
    }
}

/// Equal unsigned keys give equal magnitudes; the zero key is exactly the
/// zero magnitude.
proof fn lemma_magnitude_zero(bits: u64)
    requires
        is_finite_bits(bits),
    ensures
        magnitude(bits) == 0 <==> unsigned_key(bits) == 0,
{
    lemma_key_split(bits);
    if exp_field(bits) != 0 {
        lemma_pow2_pos((exp_field(bits) - 1) as nat);
        lemma_mul_pos_lt(0, frac_field(bits) + two_52(), pow2((exp_field(bits) - 1) as nat) as int);
    }
}

/// The order key orders finite values exactly as their real values.
pub proof fn lemma_order_key(a: u64, b: u64)
    requires
        is_finite_bits(a),
        is_finite_bits(b),
    ensures
        order_key(a) < order_key(b) <==> f64_units(a) < f64_units(b),
        order_key(a) == order_key(b) <==> f64_units(a) == f64_units(b),
{
    lemma_key_split(a);
    lemma_key_split(b);
    lemma_magnitude_zero(a);
    lemma_magnitude_zero(b);
    if unsigned_key(a) < unsigned_key(b) {
        lemma_magnitude_monotone(a, b);
    } else if unsigned_key(b) < unsigned_key(a) {
        lemma_magnitude_monotone(b, a);
    }
}

/// Returns whether the pattern denotes a finite value.
pub fn is_finite(bits: u64) -> (finite: bool)
    ensures
        finite == is_finite_bits(bits),
{
    (bits / 0x10_0000_0000_0000) % 0x800 != 0x7ff
}

/// Returns whether the pattern denotes a NaN.
pub fn is_nan(bits: u64) -> (nan: bool)
    ensures
        nan == is_nan_bits(bits),
{
    (bits / 0x10_0000_0000_0000) % 0x800 == 0x7ff && bits % 0x10_0000_0000_0000 != 0
}

fn order_key_exec(bits: u64) -> (key: i64)
    ensures
        key as int == order_key(bits),
{
    let unsigned = bits % 0x8000_0000_0000_0000;
    if bits >= 0x8000_0000_0000_0000 {
        -(unsigned as i64)
    } else {
        unsigned as i64
    }
}

/// `a < b` on finite values.
pub fn lt(a: u64, b: u64) -> (less: bool)
    requires
        is_finite_bits(a),
        is_finite_bits(b),
    ensures
        less == (f64_units(a) < f64_units(b)),
{
    proof {
        lemma_order_key(a, b);
    }
    order_key_exec(a) < order_key_exec(b)
}

/// `a <= b` on finite values.
pub fn le(a: u64, b: u64) -> (less_or_equal: bool)
    requires
        is_finite_bits(a),
        is_finite_bits(b),
    ensures
        less_or_equal == (f64_units(a) <= f64_units(b)),
{
    proof {
        lemma_order_key(a, b);
    }
    order_key_exec(a) <= order_key_exec(b)
}

/// Numeric equality on finite values (so `-0.0` equals `0.0`).
pub fn value_eq(a: u64, b: u64) -> (equal: bool)
    requires
        is_finite_bits(a),
        is_finite_bits(b),
    ensures
        equal == (f64_units(a) == f64_units(b)),
{
    proof {
        lemma_order_key(a, b);
    }
    order_key_exec(a) == order_key_exec(b)
}

/// Returns whether a finite value is zero (of either sign).
pub fn is_zero(bits: u64) -> (zero: bool)
    requires
        is_finite_bits(bits),
    ensures
        zero == (f64_units(bits) == 0),
{
    proof {
        lemma_magnitude_zero(bits);
    }
    bits % 0x8000_0000_0000_0000 == 0
}

/// Returns whether a finite value is strictly positive.
pub fn is_positive(bits: u64) -> (positive: bool)
    requires
        is_finite_bits(bits),
    ensures
        positive == (f64_units(bits) > 0),
{
    proof {
        lemma_magnitude_zero(bits);
    }
    bits < 0x8000_0000_0000_0000 && bits != 0
}

/// Returns whether a finite value is strictly negative.
pub fn is_negative(bits: u64) -> (negative: bool)
    requires
        is_finite_bits(bits),
    ensures
        negative == (f64_units(bits) < 0),
{
    proof {
        lemma_magnitude_zero(bits);
    }
    bits > 0x8000_0000_0000_0000
}

/// The pattern with its sign bit flipped.
pub open spec fn flip_sign(bits: u64) -> u64 {
    if bits as int >= two_63() {
        (bits - 0x8000_0000_0000_0000) as u64
    } else {
        (bits + 0x8000_0000_0000_0000) as u64
    }
}

/// Flipping the sign bit keeps the exponent and fraction fields, negates the
/// exact value of a finite pattern, and undoes itself.
pub proof fn lemma_flip_sign(bits: u64)
    ensures
        flip_sign(flip_sign(bits)) == bits,
        exp_field(flip_sign(bits)) == exp_field(bits),
        frac_field(flip_sign(bits)) == frac_field(bits),
        sign_negative(flip_sign(bits)) == !sign_negative(bits),
        is_finite_bits(flip_sign(bits)) == is_finite_bits(bits),
        f64_units(flip_sign(bits)) == -f64_units(bits),
{
    let negated = flip_sign(bits);
    assert((negated / 0x10_0000_0000_0000) % 0x800 == (bits / 0x10_0000_0000_0000) % 0x800
        && negated % 0x10_0000_0000_0000 == bits % 0x10_0000_0000_0000) by (bit_vector)
        requires
            negated == if bits >= 0x8000_0000_0000_0000 {
                (bits - 0x8000_0000_0000_0000) as u64
            } else {
                (bits + 0x8000_0000_0000_0000) as u64
            },
    ;
}

/// Flips the sign bit: the exact negation of a finite value.
pub fn negate(bits: u64) -> (negated: u64)
    requires
        is_finite_bits(bits),
    ensures
        negated == flip_sign(bits),
        is_finite_bits(negated),
        f64_units(negated) == -f64_units(bits),
        exp_field(negated) == exp_field(bits),
        frac_field(negated) == frac_field(bits),
        sign_negative(negated) == !sign_negative(bits),
{
    proof {
        lemma_flip_sign(bits);
    }
    if bits >= 0x8000_0000_0000_0000 {
        bits - 0x8000_0000_0000_0000
    } else {
        bits + 0x8000_0000_0000_0000
    }
}

/// Decodes a finite pattern as `significand × 2^exponent` exactly.
///
/// Both signed zeros decode to `(0, 0)`.
pub fn decode_f64(bits: u64) -> (parts: (i64, i32))
    requires
        is_finite_bits(bits),
    ensures
        -0x1f_ffff_ffff_ffff <= parts.0 <= 0x1f_ffff_ffff_ffff,
        -1074 <= parts.1 <= 971,
        parts.0 * pow2((parts.1 + 1074) as nat) == f64_units(bits),
{
    let biased_exp = (bits / 0x10_0000_0000_0000) % 0x800;
    let mantissa_bits = bits % 0x10_0000_0000_0000;
    let negative = bits >= 0x8000_0000_0000_0000;
    proof {
        vstd::arithmetic::power2::lemma2_to64();
    }
    if biased_exp == 0 {
        if mantissa_bits == 0 {
            assert(magnitude(bits) == 0);
            assert(0 * pow2(1074) == 0);
            (0, 0)
        } else {
            let m = mantissa_bits as i64;
            assert(magnitude(bits) == m);
            assert(pow2(0) == 1);
            if negative {
                assert((-m) * pow2(0) == -m);
                (-m, -1074)
            } else {
                assert(m * pow2(0) == m);
                (m, -1074)
            }
        }
    } else {
        let m = (0x10_0000_0000_0000 + mantissa_bits) as i64;
        let e = biased_exp as i32 - 1075;
        assert((e + 1074) as nat == (exp_field(bits) - 1) as nat);
        assert(magnitude(bits) == m * pow2((e + 1074) as nat));
        if negative {
            assert((-m) * pow2((e + 1074) as nat) == -(m * pow2((e + 1074) as nat)))
                by (nonlinear_arith);
            (-m, e)
        } else {
            (m, e)
        }
    }
}

} // verus!
