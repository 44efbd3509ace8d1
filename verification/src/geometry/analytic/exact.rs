//! Exact conversion of binary64 values to rationals.
//!
//! Every finite binary64 value is the dyadic rational `m × 2^e`; the
//! conversion is exact.
use crate::exact::{ExactInt, ExactRational};
use crate::ieee::{decode_f64, f64_units, is_finite_bits};
use vstd::arithmetic::power2::{lemma_pow2_adds, lemma_pow2_pos, pow2};
use vstd::prelude::*;

verus! {

/// The real number a finite pattern denotes: `f64_units(bits) × 2^-1074`.
pub open spec fn f64_value(bits: u64) -> real {
    f64_units(bits) as real / pow2(1074) as real
}

/// Decodes a finite pattern exactly as a rational in lowest terms.
pub fn f64_to_rat(bits: u64) -> (r: ExactRational)
    requires
        is_finite_bits(bits),
    ensures
        r.wf(),
        r.value() == f64_value(bits),
{
    let (mantissa, exponent) = decode_f64(bits);
    let numer = ExactInt::from_i64(mantissa);
    proof {
        lemma_pow2_pos(1074);
    }
    if exponent >= 0 {
        let shift = exponent as usize;
        let r = ExactRational::from_integer(&numer.shl(shift));
        proof {
            crate::exact::lemma_integer_value(r);
            lemma_pow2_adds(shift as nat, 1074);
            let m = mantissa as int;
            let p = pow2(shift as nat) as int;
            let q = pow2(1074) as int;
            assert(f64_units(bits) == m * (p * q)) by (nonlinear_arith)
                requires
                    m * pow2((exponent + 1074) as nat) == f64_units(bits),
                    pow2((exponent + 1074) as nat) == p * q,
            ;
            assert((m * p) as real == (m * (p * q)) as real / q as real) by (nonlinear_arith)
                requires
                    q > 0,
            ;
        }
        r
    } else {
        let shift = (-exponent) as usize;
        proof {
            lemma_pow2_pos(shift as nat);
            lemma_pow2_pos((exponent + 1074) as nat);
            assert(1 * pow2(shift as nat) > 0);
        }
        let r = ExactRational::new(&numer, &ExactInt::from_i64(1).shl(shift));
        proof {
            lemma_pow2_adds((exponent + 1074) as nat, shift as nat);
            let m = mantissa as int;
            let p = pow2(shift as nat) as int;
            let u = pow2((exponent + 1074) as nat) as int;
            let q = pow2(1074) as int;
            assert(q == u * p);
            assert(m as real / p as real == (m * u) as real / q as real) by (nonlinear_arith)
                requires
                    q == u * p,
                    p > 0,
                    u > 0,
            ;
        }
        r
    }
}

} // verus!
