//! Certified rational enclosures from the alternating Maclaurin series of
//! `atan`, `sin`, and `cos`, and the enclosures of `π` built from them.
//!
//! An alternating series whose terms shrink in magnitude lies between any two
//! consecutive partial sums (the Leibniz criterion). Each series below sums
//! terms until the next term is smaller than `2^-threshold` and returns the
//! interval between the last two partial sums; the contracts state exactly
//! which partial sums those are.
use crate::exact::{abs_int, bit_len, lemma_parts_of_value, lowest_denom, lowest_numer, ExactInt, ExactRational};
use crate::geometry::analytic::helpers::{lemma_bits_of_value, value_denom_bits, value_numer_bits};
use crate::geometry::analytic::trig::{
    between, larger, saturating_sum, RatInterval, TrigCap,
};
use crate::geometry::error::TrigError;
use crate::geometry::evaluation::CertificationBudget;
use vstd::arithmetic::power2::pow2;
use vstd::prelude::*;

verus! {

/// `x^n` over the reals.
pub open spec fn real_pow(x: real, n: nat) -> real
    decreases n,
{
    if n == 0 {
        1 as real
    } else {
        x * real_pow(x, (n - 1) as nat)
    }
}

/// `x^n` over the integers.
pub open spec fn int_pow(x: int, n: nat) -> int
    decreases n,
{
    if n == 0 {
        1
    } else {
        x * int_pow(x, (n - 1) as nat)
    }
}

/// Magnitude of term `k` of the Maclaurin series of `atan` at `x`:
/// `x^(2k+1) / (2k+1)`.
pub open spec fn atan_term_size(x: real, k: nat) -> real {
    real_pow(x, 2 * k + 1) / (2 * k + 1) as real
}

/// The signed term `k`: `(-1)^k x^(2k+1) / (2k+1)`.
pub open spec fn atan_term(x: real, k: nat) -> real {
    if k % 2 == 0 {
        atan_term_size(x, k)
    } else {
        -atan_term_size(x, k)
    }
}

/// The sum of the first `n` terms of the Maclaurin series of `atan` at `x`.
pub open spec fn atan_partial(x: real, n: nat) -> real
    decreases n,
{
    if n == 0 {
        0 as real
    } else {
        atan_partial(x, (n - 1) as nat) + atan_term(x, (n - 1) as nat)
    }
}

/// Term `n` is below the threshold `2^-threshold`.
pub open spec fn atan_converged(x: real, n: nat, threshold: nat) -> bool {
    atan_term_size(x, n) * (pow2(threshold) as real) < (1 as real)
}

/// `n` is the first index in `1..=limit` whose term is below the threshold.
pub open spec fn first_atan_convergence(x: real, threshold: nat, limit: nat, n: nat) -> bool {
    &&& 1 <= n <= limit
    &&& atan_converged(x, n, threshold)
    &&& forall|m: nat| 1 <= m < n ==> !#[trigger] atan_converged(x, m, threshold)
}

/// Some index in `1..=limit` has a term below the threshold.
pub open spec fn atan_converges_within(x: real, threshold: nat, limit: nat) -> bool {
    exists|n: nat| 1 <= n <= limit && #[trigger] atan_converged(x, n, threshold)
}

/// The number of terms summed before the series stops.
pub open spec fn atan_stop(x: real, threshold: nat, limit: nat) -> nat {
    choose|n: nat| first_atan_convergence(x, threshold, limit, n)
}

/// The lower end of the returned enclosure: the smaller of the last two
/// partial sums.
pub open spec fn atan_series_lo(x: real, threshold: nat, limit: nat) -> real {
    let n = atan_stop(x, threshold, limit);
    if n % 2 == 0 {
        atan_partial(x, n)
    } else {
        atan_partial(x, n + 1)
    }
}

/// The upper end of the returned enclosure: the larger of the last two
/// partial sums.
pub open spec fn atan_series_hi(x: real, threshold: nat, limit: nat) -> real {
    let n = atan_stop(x, threshold, limit);
    if n % 2 == 0 {
        atan_partial(x, n + 1)
    } else {
        atan_partial(x, n)
    }
}

proof fn lemma_first_convergence_unique(x: real, threshold: nat, limit: nat, n: nat)
    requires
        first_atan_convergence(x, threshold, limit, n),
    ensures
        atan_stop(x, threshold, limit) == n,
{
    let m = atan_stop(x, threshold, limit);
    assert(first_atan_convergence(x, threshold, limit, m));
    if m < n {
        assert(!atan_converged(x, m, threshold));
    } else if m > n {
        assert(!atan_converged(x, n, threshold));
    }
}

/// A power of a ratio is the ratio of the powers.
proof fn lemma_ratio_power(p: int, q: int, n: nat)
    requires
        q > 0,
    ensures
        int_pow(q, n) > 0,
        p >= 0 ==> int_pow(p, n) >= 0,
        real_pow(p as real / q as real, n) == int_pow(p, n) as real / int_pow(q, n) as real,
    decreases n,
{
    if n == 0 {
        assert((1 as real) / (1 as real) == 1 as real) by (nonlinear_arith);
    } else {
        lemma_ratio_power(p, q, (n - 1) as nat);
        let pp = int_pow(p, (n - 1) as nat);
        let qq = int_pow(q, (n - 1) as nat);
        assert(q * qq > 0) by (nonlinear_arith)
            requires
                q > 0,
                qq > 0,
        ;
        assert(p >= 0 ==> p * pp >= 0) by (nonlinear_arith)
            requires
                p >= 0 ==> pp >= 0,
        ;
        assert((p as real / q as real) * (pp as real / qq as real) == (p * pp) as real / (q
            * qq) as real) by (nonlinear_arith)
            requires
                q > 0,
                qq > 0,
        ;
        assert(int_pow(p, n) == p * pp);
        assert(int_pow(q, n) == q * qq);
        assert(real_pow(p as real / q as real, n) == (p as real / q as real) * real_pow(
            p as real / q as real,
            (n - 1) as nat,
        ));
    }
}

/// Two more factors of `x`.
proof fn lemma_power_step(x: int, n: nat)
    ensures
        int_pow(x, n + 2) == int_pow(x, n) * (x * x),
{
    let a = int_pow(x, n);
    assert(int_pow(x, n + 1) == x * a);
    assert(int_pow(x, n + 2) == x * int_pow(x, n + 1));
    assert(x * (x * a) == a * (x * x)) by (nonlinear_arith);
}

/// `power_num / (c × power_denom)` is the `c`-th part of the ratio.
proof fn lemma_term_value(numer: int, denom: int, c: int)
    requires
        denom > 0,
        c > 0,
    ensures
        c * denom > 0,
        numer as real / (c * denom) as real == (numer as real / denom as real) / c as real,
{
    assert(c * denom > 0) by (nonlinear_arith)
        requires
            denom > 0,
            c > 0,
    ;
    assert(numer as real / (c * denom) as real == (numer as real / denom as real) / c as real)
        by (nonlinear_arith)
        requires
            denom > 0,
            c > 0,
    ;
}

/// Cross-multiplied comparison of a term against `2^-threshold`.
proof fn lemma_convergence_test(numer: int, denom: int, c: int, scale: int)
    requires
        denom > 0,
        c > 0,
        scale > 0,
    ensures
        (numer * scale < c * denom) == (((numer as real) / (denom as real)) / (c as real) * (
        scale as real) < (1 as real)),
{
    assert((numer * scale < c * denom) == (((numer as real) / (denom as real)) / (c as real) * (
    scale as real) < (1 as real))) by (nonlinear_arith)
        requires
            denom > 0,
            c > 0,
            scale > 0,
    ;
}

/// Bit width of an integer's magnitude.
pub open spec fn int_bits(v: int) -> int {
    bit_len(abs_int(v)) as int
}

impl TrigCap {
    /// The lowest-terms parts of the value fit the cap.
    pub open spec fn fits_value(self, v: real) -> bool {
        value_numer_bits(v) <= self.spec_bits() && value_denom_bits(v) <= self.spec_bits()
    }

    /// The preflight bounds of `x + y` or `x - y` fit the cap, over values.
    pub open spec fn addsub_fits_values(self, x: real, y: real) -> bool {
        &&& saturating_sum(
            larger(
                saturating_sum(value_numer_bits(x), value_denom_bits(y)),
                saturating_sum(value_denom_bits(x), value_numer_bits(y)),
            ),
            1,
        ) <= self.spec_bits()
        &&& saturating_sum(value_denom_bits(x), value_denom_bits(y)) <= self.spec_bits()
    }

    /// The preflight bounds of `x * y` fit the cap, over values.
    pub open spec fn mul_fits_values(self, x: real, y: real) -> bool {
        &&& saturating_sum(value_numer_bits(x), value_numer_bits(y)) <= self.spec_bits()
        &&& saturating_sum(value_denom_bits(x), value_denom_bits(y)) <= self.spec_bits()
    }

    /// The preflight bounds of `x / y` fit the cap, over values.
    pub open spec fn div_fits_values(self, x: real, y: real) -> bool {
        &&& saturating_sum(value_numer_bits(x), value_denom_bits(y)) <= self.spec_bits()
        &&& saturating_sum(value_denom_bits(x), value_numer_bits(y)) <= self.spec_bits()
    }

    /// The operand widths of an integer product fit the cap.
    pub open spec fn int_mul_fits(self, a: int, b: int) -> bool {
        saturating_sum(int_bits(a), int_bits(b)) <= self.spec_bits()
    }

    /// The integer has at most the cap's bit width.
    pub open spec fn int_fits(self, a: int) -> bool {
        int_bits(a) <= self.spec_bits()
    }
}

/// Every budget check of step `k` of the `atan(p / q)` series fits: the
/// coefficient `2k + 1`, the term `p^(2k+1) / ((2k+1) q^(2k+1))`, the
/// partial sum, the next powers and the convergence test.
pub open spec fn atan_step_fits(cap: TrigCap, p: int, q: int, t: nat, k: nat) -> bool {
    let x = p as real / q as real;
    let (pk, qk) = (int_pow(p, 2 * k + 1), int_pow(q, 2 * k + 1));
    let (pn, qn) = (int_pow(p, 2 * k + 3), int_pow(q, 2 * k + 3));
    &&& cap.int_fits((2 * k + 1) as int)
    &&& cap.int_mul_fits((2 * k + 1) as int, qk)
    &&& cap.int_fits(pk) && cap.int_fits((2 * k + 1) * qk)
    &&& cap.addsub_fits_values(atan_partial(x, k), atan_term_size(x, k))
    &&& cap.int_mul_fits(pk, p * p)
    &&& cap.int_mul_fits(qk, q * q)
    &&& cap.int_mul_fits(pn, pow2(t) as int)
    &&& cap.int_fits((2 * k + 3) as int)
    &&& cap.int_mul_fits((2 * k + 3) as int, qn)
}

/// Every budget check after the series converged at step `k` fits: the
/// next term, the last partial sum and the returned enclosure.
pub open spec fn atan_final_fits(cap: TrigCap, p: int, q: int, t: nat, k: nat) -> bool {
    let x = p as real / q as real;
    let (pn, qn) = (int_pow(p, 2 * k + 3), int_pow(q, 2 * k + 3));
    &&& cap.int_fits(pn) && cap.int_fits((2 * k + 3) * qn)
    &&& cap.addsub_fits_values(atan_partial(x, k + 1), atan_term_size(x, k + 1))
    &&& cap.fits_value(atan_partial(x, k + 1))
    &&& cap.fits_value(atan_partial(x, k + 2))
}

/// The `atan(p / q)` series converges within the cap's term limit and
/// every budget check on the way fits.
#[verifier::opaque]
pub open spec fn atan_series_fits(cap: TrigCap, p: int, q: int, t: nat) -> bool {
    let x = p as real / q as real;
    let limit = cap.spec_series_terms() as nat;
    let stop = atan_stop(x, t, limit);
    &&& cap.int_fits(p) && cap.int_fits(q)
    &&& cap.int_mul_fits(p, p) && cap.int_mul_fits(q, q)
    &&& t + 1 <= cap.spec_bits()
    &&& atan_converges_within(x, t, limit)
    &&& forall|k: nat| k < stop ==> #[trigger] atan_step_fits(cap, p, q, t, k)
    &&& atan_final_fits(cap, p, q, t, (stop - 1) as nat)
}

/// The value-level preflights agree with those over well-formed rationals.
proof fn lemma_fits_of_values(cap: TrigCap, a: ExactRational, b: ExactRational)
    requires
        a.wf(),
        b.wf(),
    ensures
        cap.addsub_fits(a, b) == cap.addsub_fits_values(a.value(), b.value()),
        cap.mul_fits(a, b) == cap.mul_fits_values(a.value(), b.value()),
        cap.fits(a) == cap.fits_value(a.value()),
{
    lemma_bits_of_value(a);
    lemma_bits_of_value(b);
}

/// Computes `atan(p/q)` for integers `p >= 0`, `q > 0` as the enclosure
/// between two consecutive partial sums of its Maclaurin series, summing
/// until the next term is below `2^-threshold_bits`.
///
/// Returns [`TrigError::BudgetExhausted`] when an intermediate value would
/// exceed the cap or the series does not converge within the cap's term
/// limit.
#[verifier::spinoff_prover]
#[verifier::rlimit(60)]
fn atan_rational_series(p: &ExactInt, q: &ExactInt, cap: TrigCap, threshold_bits: u32) -> (series:
    Result<RatInterval, TrigError>)
    requires
        p@ >= 0,
        q@ > 0,
    ensures
        series matches Ok(i) ==> {
            let x = p@ as real / q@ as real;
            &&& i.wf()
            &&& cap.fits_interval(i)
            &&& atan_converges_within(x, threshold_bits as nat, cap.spec_series_terms() as nat)
            &&& i.lo.value() == atan_series_lo(
                x,
                threshold_bits as nat,
                cap.spec_series_terms() as nat,
            )
            &&& i.hi.value() == atan_series_hi(
                x,
                threshold_bits as nat,
                cap.spec_series_terms() as nat,
            )
        },
        series matches Err(e) ==> e == TrigError::BudgetExhausted,
        series is Ok <==> atan_series_fits(cap, p@, q@, threshold_bits as nat),
{
    let ghost x = p@ as real / q@ as real;
    let ghost t = threshold_bits as nat;
    let ghost limit = cap.spec_series_terms() as nat;
    proof {
        reveal(atan_series_fits);
    }
    match cap.admit_int(p) {
        Ok(()) => {},
        Err(e) => return Err(e),
    }
    match cap.admit_int(q) {
        Ok(()) => {},
        Err(e) => return Err(e),
    }
    let mut power_num = p.copy();
    let mut power_denom = q.copy();
    let p2 = match cap.mul_int(p, p) {
        Ok(v) => v,
        Err(e) => return Err(e),
    };
    let q2 = match cap.mul_int(q, q) {
        Ok(v) => v,
        Err(e) => return Err(e),
    };
    let mut sum = ExactRational::from_int(0);
    let threshold_denom = match cap.pow2(threshold_bits) {
        Ok(v) => v,
        Err(e) => return Err(e),
    };
    let terms = cap.series_terms();
    proof {
        lemma_ratio_power(p@, q@, 1);
        vstd::arithmetic::power2::lemma_pow2_pos(t);
        assert(int_pow(p@, 1) == p@ * int_pow(p@, 0));
        assert(int_pow(q@, 1) == q@ * int_pow(q@, 0));
    }
    let mut k: u32 = 0;
    while k < terms
        invariant
            p@ >= 0,
            q@ > 0,
            x == p@ as real / q@ as real,
            t == threshold_bits as nat,
            limit == cap.spec_series_terms() as nat,
            terms == cap.spec_series_terms(),
            k <= terms,
            sum.wf(),
            sum.value() == atan_partial(x, k as nat),
            power_num@ == int_pow(p@, 2 * k as nat + 1),
            power_denom@ == int_pow(q@, 2 * k as nat + 1),
            p2@ == p@ * p@,
            q2@ == q@ * q@,
            threshold_denom@ == pow2(t),
            pow2(t) > 0,
            forall|m: nat| 1 <= m <= k ==> !#[trigger] atan_converged(x, m, t),
            cap.int_fits(p@) && cap.int_fits(q@),
            cap.int_mul_fits(p@, p@) && cap.int_mul_fits(q@, q@),
            t + 1 <= cap.spec_bits(),
            forall|j: nat| j < k ==> #[trigger] atan_step_fits(cap, p@, q@, t, j),
        decreases terms - k,
    {
        assert(atan_series_fits(cap, p@, q@, t) ==> atan_step_fits(cap, p@, q@, t, k as nat)) by {
            reveal(atan_series_fits);
            if atan_series_fits(cap, p@, q@, t) {
                lemma_stop_after(x, t, limit, k as nat);
            }
        }
        proof {
            lemma_ratio_power(p@, q@, 2 * k as nat + 1);
            lemma_ratio_power(p@, q@, 2 * k as nat + 3);
            lemma_power_step(p@, 2 * k as nat + 1);
            lemma_power_step(q@, 2 * k as nat + 1);
        }
        let coefficient = match cap.unsigned_int(2 * (k as u64) + 1) {
            Ok(v) => v,
            Err(e) => return Err(e),
        };
        let coeff_denom = match cap.mul_int(&coefficient, &power_denom) {
            Ok(v) => v,
            Err(e) => return Err(e),
        };
        proof {
            lemma_term_value(power_num@, power_denom@, 2 * k + 1);
        }
        let term = match cap.ratio(power_num.copy(), coeff_denom) {
            Ok(v) => v,
            Err(e) => return Err(e),
        };
        assert(term.value() == atan_term_size(x, k as nat));
        proof {
            lemma_fits_of_values(cap, sum, term);
        }
        sum = if k % 2 == 0 {
            match cap.add_rat(&sum, &term) {
                Ok(v) => v,
                Err(e) => return Err(e),
            }
        } else {
            match cap.sub_rat(&sum, &term) {
                Ok(v) => v,
                Err(e) => return Err(e),
            }
        };
        assert(sum.value() == atan_partial(x, k as nat + 1));
        power_num = match cap.mul_int(&power_num, &p2) {
            Ok(v) => v,
            Err(e) => return Err(e),
        };
        power_denom = match cap.mul_int(&power_denom, &q2) {
            Ok(v) => v,
            Err(e) => return Err(e),
        };
        assert(power_num@ == int_pow(p@, 2 * (k as nat + 1) + 1));
        assert(power_denom@ == int_pow(q@, 2 * (k as nat + 1) + 1));
        let lhs = match cap.mul_int(&power_num, &threshold_denom) {
            Ok(v) => v,
            Err(e) => return Err(e),
        };
        let next_coefficient = match cap.unsigned_int(2 * (k as u64) + 3) {
            Ok(v) => v,
            Err(e) => return Err(e),
        };
        let next_denom = match cap.mul_int(&next_coefficient, &power_denom) {
            Ok(v) => v,
            Err(e) => return Err(e),
        };
        proof {
            lemma_term_value(power_num@, power_denom@, 2 * k + 3);
            lemma_convergence_test(power_num@, power_denom@, 2 * k + 3, pow2(t) as int);
        }
        let converged = lhs.le(&next_denom) && !next_denom.le(&lhs);
        assert(converged == atan_converged(x, k as nat + 1, t));
        assert(atan_step_fits(cap, p@, q@, t, k as nat));
        if converged {
            proof {
                assert(first_atan_convergence(x, t, limit, k as nat + 1));
                lemma_first_convergence_unique(x, t, limit, k as nat + 1);
                reveal(atan_series_fits);
            }
            let next_term = match cap.ratio(power_num.copy(), next_denom) {
                Ok(v) => v,
                Err(e) => return Err(e),
            };
            assert(next_term.value() == atan_term_size(x, k as nat + 1));
            proof {
                lemma_fits_of_values(cap, sum, next_term);
            }
            let interval = if (k + 1) % 2 == 0 {
                let hi = match cap.add_rat(&sum, &next_term) {
                    Ok(v) => v,
                    Err(e) => return Err(e),
                };
                RatInterval { lo: sum, hi }
            } else {
                let lo = match cap.sub_rat(&sum, &next_term) {
                    Ok(v) => v,
                    Err(e) => return Err(e),
                };
                RatInterval { lo, hi: sum }
            };
            proof {
                lemma_fits_of_values(cap, interval.lo, interval.hi);
                lemma_fits_of_values(cap, interval.hi, interval.lo);
                assert(atan_partial(x, k as nat + 2) == atan_partial(x, k as nat + 1) + atan_term(x, k as nat + 1));
            }
            return cap.admitted_interval(interval);
        }
        k = k + 1;
    }
    proof {
        reveal(atan_series_fits);
    }
    Err(TrigError::BudgetExhausted)
}

/// The value-level quotient preflight agrees with the one over well-formed
/// rationals.
proof fn lemma_div_fits_of_values(cap: TrigCap, a: ExactRational, b: ExactRational)
    requires
        a.wf(),
        b.wf(),
    ensures
        cap.div_fits(a, b) == cap.div_fits_values(a.value(), b.value()),
{
    lemma_bits_of_value(a);
    lemma_bits_of_value(b);
}

/// Every preflight over well-formed rationals agrees with its value-level
/// form.
proof fn lemma_fits_values_all(cap: TrigCap)
    ensures
        forall|a: ExactRational, b: ExactRational| a.wf() && b.wf() ==> #[trigger] cap.addsub_fits(a, b)
            == cap.addsub_fits_values(a.value(), b.value()),
        forall|a: ExactRational, b: ExactRational| a.wf() && b.wf() ==> #[trigger] cap.mul_fits(a, b)
            == cap.mul_fits_values(a.value(), b.value()),
        forall|a: ExactRational| a.wf() ==> #[trigger] cap.fits(a) == cap.fits_value(a.value()),
{
    assert forall|a: ExactRational, b: ExactRational| a.wf() && b.wf() implies #[trigger] cap.addsub_fits(a, b)
        == cap.addsub_fits_values(a.value(), b.value()) by {
        lemma_fits_of_values(cap, a, b);
    }
    assert forall|a: ExactRational, b: ExactRational| a.wf() && b.wf() implies #[trigger] cap.mul_fits(a, b)
        == cap.mul_fits_values(a.value(), b.value()) by {
        lemma_fits_of_values(cap, a, b);
    }
    assert forall|a: ExactRational| a.wf() implies #[trigger] cap.fits(a) == cap.fits_value(a.value()) by {
        lemma_fits_of_values(cap, a, a);
    }
}

/// Before the first convergence at or below `k`, the stopping index lies
/// beyond `k`.
proof fn lemma_stop_after(x: real, t: nat, limit: nat, k: nat)
    requires
        forall|m: nat| 1 <= m <= k ==> !#[trigger] atan_converged(x, m, t),
        atan_converges_within(x, t, limit),
    ensures
        k < atan_stop(x, t, limit),
        first_atan_convergence(x, t, limit, atan_stop(x, t, limit)),
{
    let w = choose|n: nat| 1 <= n <= limit && #[trigger] atan_converged(x, n, t);
    lemma_least_convergence(x, t, limit, w);
    let stop = atan_stop(x, t, limit);
    if stop <= k {
        assert(atan_converged(x, stop, t));
    }
}

/// The enclosure of a convergent series is ordered: the next term of a
/// series at `x >= 0` is non-negative.
proof fn lemma_series_ordered(x: real, threshold: nat, limit: nat)
    requires
        x >= 0 as real,
    ensures
        atan_series_lo(x, threshold, limit) <= atan_series_hi(x, threshold, limit),
{
    let n = atan_stop(x, threshold, limit);
    lemma_real_pow_nonneg(x, 2 * n + 1);
    assert(atan_term_size(x, n) >= 0 as real) by (nonlinear_arith)
        requires
            real_pow(x, 2 * n + 1) >= 0 as real,
    ;
    assert(atan_partial(x, n + 1) == atan_partial(x, n) + atan_term(x, n));
}

proof fn lemma_real_pow_nonneg(x: real, n: nat)
    requires
        x >= 0 as real,
    ensures
        real_pow(x, n) >= 0 as real,
    decreases n,
{
    if n > 0 {
        lemma_real_pow_nonneg(x, (n - 1) as nat);
        assert(x * real_pow(x, (n - 1) as nat) >= 0 as real) by (nonlinear_arith)
            requires
                x >= 0 as real,
                real_pow(x, (n - 1) as nat) >= 0 as real,
        ;
    }
}

/// The convergence threshold used for the Machin series: `min(bits - 1, 300)`.
pub open spec fn pi_threshold(cap: TrigCap) -> nat {
    if cap.spec_bits() == 0 {
        0
    } else if cap.spec_bits() - 1 <= 300 {
        (cap.spec_bits() - 1) as nat
    } else {
        300
    }
}

/// The lower end of the Machin enclosure `16·atan(1/5) − 4·atan(1/239)`.
pub open spec fn machin_lo(threshold: nat, limit: nat) -> real {
    16 as real * atan_series_lo(1 as real / 5 as real, threshold, limit) - 4 as real
        * atan_series_hi(1 as real / 239 as real, threshold, limit)
}

/// The upper end of the Machin enclosure `16·atan(1/5) − 4·atan(1/239)`.
pub open spec fn machin_hi(threshold: nat, limit: nat) -> real {
    16 as real * atan_series_hi(1 as real / 5 as real, threshold, limit) - 4 as real
        * atan_series_lo(1 as real / 239 as real, threshold, limit)
}

/// Both Machin series converge within the cap's term limit.
pub open spec fn machin_converges(cap: TrigCap) -> bool {
    &&& atan_converges_within(
        1 as real / 5 as real,
        pi_threshold(cap),
        cap.spec_series_terms() as nat,
    )
    &&& atan_converges_within(
        1 as real / 239 as real,
        pi_threshold(cap),
        cap.spec_series_terms() as nat,
    )
}

/// The interval `pi` is the Machin enclosure of `π` under `cap`.
pub open spec fn is_machin_pi(pi: RatInterval, cap: TrigCap) -> bool {
    &&& machin_converges(cap)
    &&& pi.lo.value() == machin_lo(pi_threshold(cap), cap.spec_series_terms() as nat)
    &&& pi.hi.value() == machin_hi(pi_threshold(cap), cap.spec_series_terms() as nat)
    &&& pi.lo.value() <= pi.hi.value()
}

/// Every budget check of the Machin enclosure fits: the constants, both
/// series, the scalings by 16 and 4 and the difference.
#[verifier::opaque]
pub open spec fn pi_fits(cap: TrigCap) -> bool {
    let t = pi_threshold(cap);
    let limit = cap.spec_series_terms() as nat;
    let (l5, h5) = (atan_series_lo(1 as real / 5 as real, t, limit), atan_series_hi(1 as real / 5 as real, t, limit));
    let (l239, h239) = (
        atan_series_lo(1 as real / 239 as real, t, limit),
        atan_series_hi(1 as real / 239 as real, t, limit),
    );
    &&& cap.int_fits(5) && cap.int_fits(239)
    &&& atan_series_fits(cap, 1, 5, t)
    &&& atan_series_fits(cap, 1, 239, t)
    &&& cap.int_fits(16) && cap.int_fits(4)
    &&& cap.mul_fits_values(l5, 16 as real) && cap.mul_fits_values(h5, 16 as real)
    &&& cap.mul_fits_values(l239, 4 as real) && cap.mul_fits_values(h239, 4 as real)
    &&& cap.addsub_fits_values(l5 * 16 as real, h239 * 4 as real)
    &&& cap.addsub_fits_values(h5 * 16 as real, l239 * 4 as real)
}

/// The `π` enclosure of a budget can be computed and admitted.
pub open spec fn pi_interval_fits(cap: TrigCap) -> bool {
    let t = pi_threshold(cap);
    let limit = cap.spec_series_terms() as nat;
    &&& pi_fits(cap)
    &&& cap.fits_value(machin_lo(t, limit))
    &&& cap.fits_value(machin_hi(t, limit))
}

/// The `τ` enclosure of a budget can be computed and admitted.
pub open spec fn tau_interval_fits(cap: TrigCap) -> bool {
    let t = pi_threshold(cap);
    let limit = cap.spec_series_terms() as nat;
    &&& pi_interval_fits(cap)
    &&& cap.int_fits(2)
    &&& cap.mul_fits_values(machin_lo(t, limit), 2 as real)
    &&& cap.mul_fits_values(machin_hi(t, limit), 2 as real)
    &&& cap.fits_value(machin_lo(t, limit) * 2 as real)
    &&& cap.fits_value(machin_hi(t, limit) * 2 as real)
}

/// Cap-threaded core of [`pi_interval`], shared by the range reductions.
#[verifier::spinoff_prover]
fn pi_interval_cap(cap: TrigCap) -> (pi: Result<RatInterval, TrigError>)
    ensures
        pi matches Ok(i) ==> i.wf() && is_machin_pi(i, cap),
        pi matches Err(e) ==> e == TrigError::BudgetExhausted,
        pi is Ok <==> pi_fits(cap),
{
    proof {
        reveal(pi_fits);
    }
    let one = ExactInt::from_i64(1);
    let five = match cap.unsigned_int(5) {
        Ok(v) => v,
        Err(e) => return Err(e),
    };
    let two39 = match cap.unsigned_int(239) {
        Ok(v) => v,
        Err(e) => return Err(e),
    };
    let threshold = cap.threshold_bits(300);
    let a5 = match atan_rational_series(&one, &five, cap, threshold) {
        Ok(v) => v,
        Err(e) => return Err(e),
    };
    let a239 = match atan_rational_series(&one, &two39, cap, threshold) {
        Ok(v) => v,
        Err(e) => return Err(e),
    };
    let sixteen = match cap.unsigned_rat(16) {
        Ok(v) => v,
        Err(e) => return Err(e),
    };
    let four = match cap.unsigned_rat(4) {
        Ok(v) => v,
        Err(e) => return Err(e),
    };
    proof {
        crate::exact::lemma_integer_value(sixteen);
        crate::exact::lemma_integer_value(four);
    }
    proof {
        lemma_fits_of_values(cap, a5.lo, sixteen);
        lemma_fits_of_values(cap, a5.hi, sixteen);
        lemma_fits_of_values(cap, a239.lo, four);
        lemma_fits_of_values(cap, a239.hi, four);
        assert(one@ as real / two39@ as real == 1 as real / 239 as real);
    }
    let a5_16 = match cap.scale_interval(&a5, &sixteen) {
        Ok(v) => v,
        Err(e) => return Err(e),
    };
    let a239_4 = match cap.scale_interval(&a239, &four) {
        Ok(v) => v,
        Err(e) => return Err(e),
    };
    proof {
        lemma_fits_of_values(cap, a5_16.lo, a239_4.hi);
        lemma_fits_of_values(cap, a5_16.hi, a239_4.lo);
    }
    let result = cap.sub_interval(&a5_16, &a239_4);
    proof {
        let th = threshold as nat;
        let limit = cap.spec_series_terms() as nat;
        assert(1 as real / 5 as real >= 0 as real) by (nonlinear_arith);
        assert(1 as real / 239 as real >= 0 as real) by (nonlinear_arith);
        lemma_series_ordered(1 as real / 5 as real, th, limit);
        lemma_series_ordered(1 as real / 239 as real, th, limit);
        assert(th == pi_threshold(cap));
        assert(one@ as real / five@ as real == 1 as real / 5 as real);
        assert(machin_converges(cap));
        assert(sixteen.value() == 16 as real);
        assert(a5_16.lo.value() == a5.lo.value() * 16 as real);
        let (l5, h5, l239, h239) = (a5.lo.value(), a5.hi.value(), a239.lo.value(), a239.hi.value());
        assert(l5 * 16 as real == 16 as real * l5 && h5 * 16 as real == 16 as real * h5 && l239
            * 4 as real == 4 as real * l239 && h239 * 4 as real == 4 as real * h239)
            by (nonlinear_arith);
        if result is Ok {
            let r = result->Ok_0;
            assert(r.lo.value() == machin_lo(th, limit));
            assert(r.hi.value() == machin_hi(th, limit));
        }
    }
    result
}

/// Computes a certified enclosure of `π` with Machin's formula
/// `π = 16·atan(1/5) − 4·atan(1/239)`.
///
/// Returns [`TrigError::BudgetExhausted`] if either series fails to converge
/// within the budget or an intermediate value exceeds its bit cap.
pub fn pi_interval(budget: CertificationBudget) -> (pi: Result<RatInterval, TrigError>)
    ensures
        pi matches Ok(i) ==> i.wf() && is_machin_pi(i, TrigCap::spec_new(budget))
            && TrigCap::spec_new(budget).fits_interval(i),
        pi matches Ok(i) ==> 3 as real <= i.lo.value() && i.lo.value() <= i.hi.value()
            && i.hi.value() <= 4 as real,
        pi matches Err(e) ==> e == TrigError::BudgetExhausted,
        pi is Ok <==> pi_interval_fits(TrigCap::spec_new(budget)),
{
    let cap = TrigCap::new(budget);
    let result = match pi_interval_cap(cap) {
        Ok(v) => v,
        Err(e) => return Err(e),
    };
    proof {
        lemma_fits_of_values(cap, result.lo, result.hi);
        lemma_fits_of_values(cap, result.hi, result.lo);
        machin_enclosure_bounds(cap);
    }
    cap.admitted_interval(result)
}

/// Computes a certified enclosure of `τ = 2π`.
///
/// Returns [`TrigError::BudgetExhausted`] as [`pi_interval`] does.
pub fn tau_interval(budget: CertificationBudget) -> (tau: Result<RatInterval, TrigError>)
    ensures
        tau matches Ok(i) ==> {
            let cap = TrigCap::spec_new(budget);
            &&& i.wf()
            &&& machin_converges(cap)
            &&& i.lo.value() == 2 as real * machin_lo(
                pi_threshold(cap),
                cap.spec_series_terms() as nat,
            )
            &&& i.hi.value() == 2 as real * machin_hi(
                pi_threshold(cap),
                cap.spec_series_terms() as nat,
            )
            &&& cap.fits_interval(i)
        },
        tau matches Ok(i) ==> 6 as real <= i.lo.value() && i.lo.value() <= i.hi.value()
            && i.hi.value() <= 8 as real,
        tau matches Err(e) ==> e == TrigError::BudgetExhausted,
        tau is Ok <==> tau_interval_fits(TrigCap::spec_new(budget)),
{
    let cap = TrigCap::new(budget);
    let pi = match pi_interval(budget) {
        Ok(v) => v,
        Err(e) => return Err(e),
    };
    let two = match cap.unsigned_rat(2) {
        Ok(v) => v,
        Err(e) => return Err(e),
    };
    proof {
        crate::exact::lemma_integer_value(two);
    }
    proof {
        lemma_fits_of_values(cap, pi.lo, two);
        lemma_fits_of_values(cap, pi.hi, two);
    }
    let result = match cap.scale_interval(&pi, &two) {
        Ok(v) => v,
        Err(e) => return Err(e),
    };
    proof {
        assert(result.lo.value() == pi.lo.value() * 2 as real);
        machin_enclosure_bounds(cap);
        lemma_fits_of_values(cap, result.lo, result.hi);
        lemma_fits_of_values(cap, result.hi, result.lo);
    }
    cap.admitted_interval(result)
}

/// `n!`.
pub open spec fn factorial(n: nat) -> nat
    decreases n,
{
    if n == 0 {
        1
    } else {
        n * factorial((n - 1) as nat)
    }
}

/// The exponent offset of a Taylor series: `1` for `sin`, `0` for `cos`.
pub open spec fn taylor_offset(is_sin: bool) -> nat {
    if is_sin {
        1
    } else {
        0
    }
}

/// Term `k` of the Taylor series of `sin` (`is_sin`) or `cos` at `x`
/// without its alternating sign: `x^(2k+e) / (2k+e)!`.
pub open spec fn taylor_term(x: real, k: nat, is_sin: bool) -> real {
    let m = 2 * k + taylor_offset(is_sin);
    real_pow(x, m) / factorial(m) as real
}

/// The magnitude of a real.
pub open spec fn real_abs(v: real) -> real {
    if v < (0 as real) {
        -v
    } else {
        v
    }
}

/// The sum of the first `n` signed terms of the Taylor series.
pub open spec fn taylor_partial(x: real, n: nat, is_sin: bool) -> real
    decreases n,
{
    if n == 0 {
        0 as real
    } else {
        let k = (n - 1) as nat;
        let previous = taylor_partial(x, k, is_sin);
        if k % 2 == 0 {
            previous + taylor_term(x, k, is_sin)
        } else {
            previous - taylor_term(x, k, is_sin)
        }
    }
}

/// Term `n` is below the threshold `2^-threshold` in magnitude.
pub open spec fn taylor_converged(x: real, n: nat, is_sin: bool, threshold: nat) -> bool {
    real_abs(taylor_term(x, n, is_sin)) * (pow2(threshold) as real) < (1 as real)
}

/// `n` is the first index in `1..=limit` whose term is below the threshold.
pub open spec fn first_taylor_convergence(
    x: real,
    is_sin: bool,
    threshold: nat,
    limit: nat,
    n: nat,
) -> bool {
    &&& 1 <= n <= limit
    &&& taylor_converged(x, n, is_sin, threshold)
    &&& forall|m: nat| 1 <= m < n ==> !#[trigger] taylor_converged(x, m, is_sin, threshold)
}

/// The number of terms summed before the Taylor series stops.
pub open spec fn taylor_stop(x: real, is_sin: bool, threshold: nat, limit: nat) -> nat {
    choose|n: nat| first_taylor_convergence(x, is_sin, threshold, limit, n)
}

/// The returned enclosure: the last partial sum, extended by the magnitude of
/// the next term on the side of that term's sign.
pub open spec fn taylor_enclosure(x: real, is_sin: bool, threshold: nat, limit: nat) -> (
    real,
    real,
) {
    let n = taylor_stop(x, is_sin, threshold, limit);
    let sum = taylor_partial(x, n, is_sin);
    let next = real_abs(taylor_term(x, n, is_sin));
    if n % 2 == 0 {
        (sum, sum + next)
    } else {
        (sum - next, sum)
    }
}

proof fn lemma_first_taylor_unique(x: real, is_sin: bool, threshold: nat, limit: nat, n: nat)
    requires
        first_taylor_convergence(x, is_sin, threshold, limit, n),
    ensures
        taylor_stop(x, is_sin, threshold, limit) == n,
{
    let m = taylor_stop(x, is_sin, threshold, limit);
    assert(first_taylor_convergence(x, is_sin, threshold, limit, m));
    if m < n {
        assert(!taylor_converged(x, m, is_sin, threshold));
    } else if m > n {
        assert(!taylor_converged(x, n, is_sin, threshold));
    }
}

proof fn lemma_real_power_step(x: real, m: nat)
    ensures
        real_pow(x, m + 2) == real_pow(x, m) * (x * x),
{
    let a = real_pow(x, m);
    assert(real_pow(x, m + 1) == x * a);
    assert(real_pow(x, m + 2) == x * real_pow(x, m + 1));
    assert(x * (x * a) == a * (x * x)) by (nonlinear_arith);
}

proof fn lemma_factorial_positive(n: nat)
    ensures
        factorial(n) > 0,
    decreases n,
{
    if n > 0 {
        lemma_factorial_positive((n - 1) as nat);
        assert(n * factorial((n - 1) as nat) > 0) by (nonlinear_arith)
            requires
                n > 0,
                factorial((n - 1) as nat) > 0,
        ;
    }
}

proof fn lemma_factorial_step(m: nat)
    ensures
        factorial(m + 2) == factorial(m) * ((m + 1) * (m + 2)),
{
    let f = factorial(m);
    assert(factorial(m + 1) == (m + 1) * f);
    assert(factorial(m + 2) == (m + 2) * factorial(m + 1));
    assert((m + 2) * ((m + 1) * f) == f * ((m + 1) * (m + 2))) by (nonlinear_arith);
}

/// A rational's numerator and denominator recover its value and magnitude.
proof fn lemma_rational_parts(r: ExactRational)
    requires
        r.wf(),
    ensures
        real_abs(r.value()) == abs_int(r.spec_numer()) as real / r.spec_denom() as real,
        r.value() >= 0 as real <==> r.spec_numer() >= 0,
        r.value() == 0 as real <==> r.spec_numer() == 0,
{
    let n = r.spec_numer();
    let d = r.spec_denom() as real;
    assert((n as real) / d >= 0 as real <==> n >= 0) by (nonlinear_arith)
        requires
            d > 0 as real,
    ;
    assert((n as real) / d == 0 as real <==> n == 0) by (nonlinear_arith)
        requires
            d > 0 as real,
    ;
    if n < 0 {
        assert(-((n as real) / d) == ((-n) as real) / d) by (nonlinear_arith)
            requires
                d > 0 as real,
        ;
    }
}

fn abs_exact(v: &ExactInt) -> (magnitude: ExactInt)
    ensures
        magnitude@ == abs_int(v@),
{
    let zero = ExactInt::from_i64(0);
    if zero.le(v) {
        v.copy()
    } else {
        zero.sub(v)
    }
}

/// Every budget check of step `k` of the Taylor series fits: the term,
/// the partial sum, the next power, the factorial step and the
/// convergence test.
pub open spec fn taylor_step_fits(cap: TrigCap, x: real, is_sin: bool, t: nat, k: nat) -> bool {
    let m = 2 * k + taylor_offset(is_sin);
    let pw = real_pow(x, m);
    let pn = real_pow(x, m + 2);
    let (c1, c2) = if is_sin {
        ((2 * k + 2) as int, (2 * k + 3) as int)
    } else {
        ((2 * k + 1) as int, (2 * k + 2) as int)
    };
    &&& cap.int_mul_fits(lowest_denom(pw), factorial(m) as int)
    &&& cap.int_fits(lowest_numer(pw)) && cap.int_fits(lowest_denom(pw) * factorial(m))
    &&& cap.addsub_fits_values(taylor_partial(x, k, is_sin), taylor_term(x, k, is_sin))
    &&& cap.mul_fits_values(pw, x * x)
    &&& cap.int_fits(c1) && cap.int_fits(c2) && cap.int_mul_fits(c1, c2)
    &&& cap.int_mul_fits(factorial(m) as int, c1 * c2)
    &&& cap.int_mul_fits(abs_int(lowest_numer(pn)) as int, pow2(t) as int)
    &&& cap.int_mul_fits(lowest_denom(pn), factorial(m + 2) as int)
}

/// Every budget check after the Taylor series converged at step `k` fits:
/// the next term's magnitude, the last partial sum and the enclosure.
pub open spec fn taylor_final_fits(cap: TrigCap, x: real, is_sin: bool, t: nat, k: nat) -> bool {
    let m = 2 * k + taylor_offset(is_sin);
    let pn = real_pow(x, m + 2);
    let enclosure = taylor_enclosure(x, is_sin, t, cap.spec_series_terms() as nat);
    &&& cap.int_fits(abs_int(lowest_numer(pn)) as int) && cap.int_fits(lowest_denom(pn) * factorial(m + 2))
    &&& cap.addsub_fits_values(taylor_partial(x, k + 1, is_sin), real_abs(taylor_term(x, k + 1, is_sin)))
    &&& cap.fits_value(enclosure.0) && cap.fits_value(enclosure.1)
}

/// The Taylor series of `sin` or `cos` at `x` converges within the cap's
/// term limit and every budget check on the way fits.
#[verifier::opaque]
pub open spec fn taylor_series_fits(cap: TrigCap, x: real, is_sin: bool, t: nat) -> bool {
    let limit = cap.spec_series_terms() as nat;
    let stop = taylor_stop(x, is_sin, t, limit);
    &&& cap.fits_value(x) && cap.mul_fits_values(x, x)
    &&& t + 1 <= cap.spec_bits()
    &&& exists|n: nat| first_taylor_convergence(x, is_sin, t, limit, n)
    &&& forall|k: nat| k < stop ==> #[trigger] taylor_step_fits(cap, x, is_sin, t, k)
    &&& taylor_final_fits(cap, x, is_sin, t, (stop - 1) as nat)
}

/// Before any convergence at or below `k`, the Taylor series stops beyond
/// `k`.
proof fn lemma_taylor_stop_after(x: real, is_sin: bool, t: nat, limit: nat, k: nat)
    requires
        forall|m: nat| 1 <= m <= k ==> !#[trigger] taylor_converged(x, m, is_sin, t),
        exists|n: nat| first_taylor_convergence(x, is_sin, t, limit, n),
    ensures
        k < taylor_stop(x, is_sin, t, limit),
{
    let n = choose|n: nat| first_taylor_convergence(x, is_sin, t, limit, n);
    lemma_first_taylor_unique(x, is_sin, t, limit, n);
    if n <= k {
        assert(taylor_converged(x, n, is_sin, t));
    }
}

/// Alternating Taylor series for `sin` (`is_sin`) or `cos` at `x`, summed
/// until the next term is below `2^-threshold_bits` in magnitude.
///
/// Returns [`TrigError::BudgetExhausted`] when an intermediate value would
/// exceed the cap or the series does not converge within the cap's term
/// limit.
#[verifier::spinoff_prover]
#[verifier::rlimit(60)]
fn taylor_alternating_series(x: &ExactRational, is_sin: bool, cap: TrigCap, threshold_bits: u32) -> (series:
    Result<RatInterval, TrigError>)
    requires
        x.wf(),
    ensures
        series matches Ok(i) ==> {
            let t = threshold_bits as nat;
            let limit = cap.spec_series_terms() as nat;
            &&& i.wf()
            &&& cap.fits_interval(i)
            &&& exists|n: nat| first_taylor_convergence(x.value(), is_sin, t, limit, n)
            &&& i.lo.value() == taylor_enclosure(x.value(), is_sin, t, limit).0
            &&& i.hi.value() == taylor_enclosure(x.value(), is_sin, t, limit).1
        },
        series matches Err(e) ==> e == TrigError::BudgetExhausted,
        series is Ok <==> taylor_series_fits(cap, x.value(), is_sin, threshold_bits as nat),
{
    let ghost xv = x.value();
    let ghost t = threshold_bits as nat;
    let ghost limit = cap.spec_series_terms() as nat;
    let ghost e = taylor_offset(is_sin);
    proof {
        reveal(taylor_series_fits);
        lemma_fits_of_values(cap, *x, *x);
    }
    match cap.admit_rat(x) {
        Ok(()) => {},
        Err(e) => return Err(e),
    }
    let x2 = match cap.mul_rat(x, x) {
        Ok(v) => v,
        Err(e) => return Err(e),
    };
    let threshold_denom = match cap.pow2(threshold_bits) {
        Ok(v) => v,
        Err(e) => return Err(e),
    };
    let mut power = if is_sin {
        x.copy()
    } else {
        ExactRational::from_int(1)
    };
    let mut fact = ExactInt::from_i64(1);
    let mut sum = ExactRational::from_int(0);
    let terms = cap.series_terms();
    proof {
        vstd::arithmetic::power2::lemma_pow2_pos(t);
        assert(real_pow(xv, 0) == 1 as real);
        assert(real_pow(xv, 1) == xv * real_pow(xv, 0));
        assert(xv * (1 as real) == xv) by (nonlinear_arith);
        assert(factorial(1) == 1 * factorial(0));
    }
    let mut k: u32 = 0;
    while k < terms
        invariant
            x.wf(),
            xv == x.value(),
            t == threshold_bits as nat,
            limit == cap.spec_series_terms() as nat,
            terms == cap.spec_series_terms(),
            e == taylor_offset(is_sin),
            k <= terms,
            sum.wf(),
            sum.value() == taylor_partial(xv, k as nat, is_sin),
            power.wf(),
            power.value() == real_pow(xv, 2 * k as nat + e),
            fact@ == factorial(2 * k as nat + e),
            x2.wf(),
            x2.value() == xv * xv,
            threshold_denom@ == pow2(t),
            pow2(t) > 0,
            forall|m: nat| 1 <= m <= k ==> !#[trigger] taylor_converged(xv, m, is_sin, t),
            cap.fits_value(xv) && cap.mul_fits_values(xv, xv),
            t + 1 <= cap.spec_bits(),
            forall|j: nat| j < k ==> #[trigger] taylor_step_fits(cap, xv, is_sin, t, j),
        decreases terms - k,
    {
        let ghost m = 2 * k as nat + e;
        assert(taylor_series_fits(cap, xv, is_sin, t) ==> taylor_step_fits(cap, xv, is_sin, t, k as nat)) by {
            reveal(taylor_series_fits);
            if taylor_series_fits(cap, xv, is_sin, t) {
                lemma_taylor_stop_after(xv, is_sin, t, limit, k as nat);
            }
        }
        proof {
            lemma_parts_of_value(power);
            lemma_factorial_positive(m);
            lemma_factorial_positive(m + 2);
            lemma_factorial_step(m);
            lemma_real_power_step(xv, m);
            lemma_rational_parts(power);
        }
        let term_denom = match cap.mul_int(&power.denom(), &fact) {
            Ok(v) => v,
            Err(e) => return Err(e),
        };
        proof {
            lemma_term_value(power.spec_numer(), power.spec_denom(), fact@);
            assert(power.spec_denom() * fact@ == fact@ * power.spec_denom()) by (nonlinear_arith);
        }
        let term = match cap.ratio(power.numer(), term_denom) {
            Ok(v) => v,
            Err(e) => return Err(e),
        };
        assert(term.value() == taylor_term(xv, k as nat, is_sin));
        proof {
            lemma_fits_of_values(cap, sum, term);
            lemma_fits_of_values(cap, power, x2);
        }
        sum = if k % 2 == 0 {
            match cap.add_rat(&sum, &term) {
                Ok(v) => v,
                Err(e) => return Err(e),
            }
        } else {
            match cap.sub_rat(&sum, &term) {
                Ok(v) => v,
                Err(e) => return Err(e),
            }
        };
        assert(sum.value() == taylor_partial(xv, k as nat + 1, is_sin));
        power = match cap.mul_rat(&power, &x2) {
            Ok(v) => v,
            Err(e) => return Err(e),
        };
        let step = if is_sin {
            let first = match cap.unsigned_int(2 * (k as u64) + 2) {
                Ok(v) => v,
                Err(e) => return Err(e),
            };
            let second = match cap.unsigned_int(2 * (k as u64) + 3) {
                Ok(v) => v,
                Err(e) => return Err(e),
            };
            match cap.mul_int(&first, &second) {
                Ok(v) => v,
                Err(e) => return Err(e),
            }
        } else {
            let first = match cap.unsigned_int(2 * (k as u64) + 1) {
                Ok(v) => v,
                Err(e) => return Err(e),
            };
            let second = match cap.unsigned_int(2 * (k as u64) + 2) {
                Ok(v) => v,
                Err(e) => return Err(e),
            };
            match cap.mul_int(&first, &second) {
                Ok(v) => v,
                Err(e) => return Err(e),
            }
        };
        assert(step@ == (m + 1) * (m + 2));
        fact = match cap.mul_int(&fact, &step) {
            Ok(v) => v,
            Err(e) => return Err(e),
        };
        assert(fact@ == factorial(2 * (k as nat + 1) + e));
        assert(power.value() == real_pow(xv, 2 * (k as nat + 1) + e));
        proof {
            lemma_parts_of_value(power);
        }
        let magnitude = abs_exact(&power.numer());
        let lhs = match cap.mul_int(&magnitude, &threshold_denom) {
            Ok(v) => v,
            Err(e) => return Err(e),
        };
        let rhs = match cap.mul_int(&power.denom(), &fact) {
            Ok(v) => v,
            Err(e) => return Err(e),
        };
        proof {
            lemma_rational_parts(power);
            lemma_factorial_positive(m + 2);
            assert(power.spec_denom() * fact@ == fact@ * power.spec_denom()) by (nonlinear_arith);
            lemma_term_value(magnitude@, power.spec_denom(), fact@);
            lemma_convergence_test(magnitude@, power.spec_denom(), fact@, pow2(t) as int);
            assert(real_abs(taylor_term(xv, k as nat + 1, is_sin)) == real_abs(power.value())
                / factorial(m + 2) as real) by (nonlinear_arith)
                requires
                    factorial(m + 2) > 0,
                    taylor_term(xv, k as nat + 1, is_sin) == power.value() / factorial(m + 2) as real,
            ;
        }
        let converged = lhs.le(&rhs) && !rhs.le(&lhs);
        assert(converged == taylor_converged(xv, k as nat + 1, is_sin, t));
        assert(taylor_step_fits(cap, xv, is_sin, t, k as nat));
        if converged {
            proof {
                assert(first_taylor_convergence(xv, is_sin, t, limit, k as nat + 1));
                lemma_first_taylor_unique(xv, is_sin, t, limit, k as nat + 1);
                reveal(taylor_series_fits);
            }
            let next_term = match cap.ratio(magnitude, rhs) {
                Ok(v) => v,
                Err(e) => return Err(e),
            };
            assert(next_term.value() == real_abs(taylor_term(xv, k as nat + 1, is_sin)));
            proof {
                lemma_fits_of_values(cap, sum, next_term);
            }
            let interval = if (k + 1) % 2 == 0 {
                let hi = match cap.add_rat(&sum, &next_term) {
                    Ok(v) => v,
                    Err(e) => return Err(e),
                };
                RatInterval { lo: sum, hi }
            } else {
                let lo = match cap.sub_rat(&sum, &next_term) {
                    Ok(v) => v,
                    Err(e) => return Err(e),
                };
                RatInterval { lo, hi: sum }
            };
            proof {
                lemma_fits_of_values(cap, interval.lo, interval.hi);
                lemma_fits_of_values(cap, interval.hi, interval.lo);
            }
            return cap.admitted_interval(interval);
        }
        k = k + 1;
    }
    proof {
        reveal(taylor_series_fits);
    }
    Err(TrigError::BudgetExhausted)
}

proof fn lemma_floor_of_negative(n: int, d: int)
    requires
        n < 0,
        d > 0,
        n % d != 0,
    ensures
        n / d == -((-n) / d) - 1,
{
    vstd::arithmetic::div_mod::lemma_fundamental_div_mod(n, d);
    vstd::arithmetic::div_mod::lemma_fundamental_div_mod(-n, d);
    let q1 = n / d;
    let r1 = n % d;
    let q2 = (-n) / d;
    let r2 = (-n) % d;
    assert(0 <= r1 < d && 0 <= r2 < d);
    assert(n == d * q1 + r1 && -n == d * q2 + r2);
    assert(d * (q1 + q2) == -(r1 + r2)) by (nonlinear_arith)
        requires
            n == d * q1 + r1,
            -n == d * q2 + r2,
    ;
    assert(r1 + r2 == d) by (nonlinear_arith)
        requires
            d * (q1 + q2) == -(r1 + r2),
            0 < r1 < d,
            0 <= r2 < d,
            d > 0,
    ;
    assert(q1 + q2 == -1) by (nonlinear_arith)
        requires
            d * (q1 + q2) == -d,
            d > 0,
    ;
}

/// The budget checks of the floor of `n / d` fit: the step below a
/// negative non-integer quotient and the floor itself.
pub open spec fn floor_fits(cap: TrigCap, n: int, d: int) -> bool {
    &&& (d > 1 && n < 0 ==> saturating_sum(larger(int_bits(-((-n) / d)), int_bits(1)), 1) <= cap.spec_bits())
    &&& cap.int_fits(n / d)
}

/// The exact floor of a rational, checked against the cap: the truncated
/// quotient of its parts, one less for a negative non-integer.
///
/// Returns [`TrigError::BudgetExhausted`] when the floor (or the one-step
/// adjustment of a negative quotient) exceeds the cap.
fn bigrat_floor(cap: TrigCap, r: &ExactRational) -> (floor: Result<ExactInt, TrigError>)
    requires
        r.wf(),
    ensures
        floor matches Ok(f) ==> f@ == r.spec_numer() / r.spec_denom() && bit_len(abs_int(f@))
            <= cap.spec_bits(),
        floor matches Err(e) ==> e == TrigError::BudgetExhausted,
        floor is Ok <==> floor_fits(cap, r.spec_numer(), r.spec_denom()),
{
    let numer = r.numer();
    let denom = r.denom();
    let one = ExactInt::from_i64(1);
    let zero = ExactInt::from_i64(0);
    let floor = if denom.le(&one) {
        proof {
            assert(r.spec_denom() == 1);
        }
        numer
    } else {
        let quotient = numer.div_trunc(&denom);
        if !zero.le(&numer) {
            proof {
                if r.spec_numer() % r.spec_denom() == 0 {
                    let d = r.spec_denom();
                    assert(crate::exact::divides(d, r.spec_numer()) && crate::exact::divides(d, d))
                        by {
                        vstd::arithmetic::div_mod::lemma_mod_self_0(d);
                    }
                }
                lemma_floor_of_negative(r.spec_numer(), r.spec_denom());
            }
            match cap.sub_int(&quotient, &one) {
                Ok(v) => v,
                Err(e) => return Err(e),
            }
        } else {
            quotient
        }
    };
    match cap.admit_int(&floor) {
        Ok(()) => Ok(floor),
        Err(e) => Err(e),
    }
}

/// Recursion measure of the `atan` range reduction on non-negative inputs.
pub open spec fn atan_rank_nonneg(y: real) -> nat {
    if y > 1 as real {
        4
    } else if y > 1 as real / 2 as real {
        3
    } else {
        0
    }
}

/// Recursion measure of the `atan` range reduction.
pub open spec fn atan_rank(x: real) -> nat {
    if x < (0 as real) {
        1 + atan_rank_nonneg(-x)
    } else {
        atan_rank_nonneg(x)
    }
}

/// The convergence threshold of the direct `atan` series: `min(bits - 1, 250)`.
pub open spec fn atan_threshold(cap: TrigCap) -> nat {
    if cap.spec_bits() == 0 {
        0
    } else if cap.spec_bits() - 1 <= 250 {
        (cap.spec_bits() - 1) as nat
    } else {
        250
    }
}

/// The reciprocal of a value above one has a low `atan` rank.
pub proof fn lemma_reciprocal_rank(x: real)
    requires
        x > 1 as real,
    ensures
        atan_rank(1 as real / x) < 4,
{
    assert((0 as real) < (1 as real) / x && (1 as real) / x < (1 as real)) by (nonlinear_arith)
        requires
            x > 1 as real,
    ;
}

/// The argument reduction `(x - 1) / (x + 1)` of a value in `(1/2, 1]` is
/// non-positive with a low `atan` rank.
pub proof fn lemma_reduced_rank(x: real)
    requires
        (1 as real) / (2 as real) < x,
        x <= 1 as real,
    ensures
        atan_rank((x - 1 as real) / (x + 1 as real)) < 3,
        (x - 1 as real) / (x + 1 as real) <= 0 as real,
{
    let z = (x - 1 as real) / (x + 1 as real);
    assert(z <= 0 as real && -z < (1 as real) / (2 as real)) by (nonlinear_arith)
        requires
            (1 as real) / (2 as real) < x,
            x <= 1 as real,
            z == (x - 1 as real) / (x + 1 as real),
    ;
}

/// Whether the range-reduced `atan` enclosure of `x` is defined under `cap`
/// (every series it uses converges within the term limit), and its two ends.
///
/// The reductions are `atan(x) = −atan(−x)` for negative `x`,
/// `atan(x) = π/2 − atan(1/x)` for `x > 1`, and
/// `atan(x) = π/4 + atan((x−1)/(x+1))` for `x ∈ (1/2, 1]`; on `[0, 1/2]` the
/// Maclaurin series is summed directly.
pub open spec fn atan_enclosure(x: real, cap: TrigCap) -> (bool, real, real)
    decreases atan_rank(x),
{
    let limit = cap.spec_series_terms() as nat;
    let pi_lo = machin_lo(pi_threshold(cap), limit);
    let pi_hi = machin_hi(pi_threshold(cap), limit);
    if x == 0 as real {
        (true, 0 as real, 0 as real)
    } else if x < (0 as real) {
        let inner = atan_enclosure(-x, cap);
        (inner.0, -inner.2, -inner.1)
    } else if x > 1 as real {
        proof {
            lemma_reciprocal_rank(x);
        }
        let inner = atan_enclosure(1 as real / x, cap);
        (
            inner.0 && machin_converges(cap),
            pi_lo * (1 as real / 2 as real) - inner.2,
            pi_hi * (1 as real / 2 as real) - inner.1,
        )
    } else if x > 1 as real / 2 as real {
        proof {
            lemma_reduced_rank(x);
        }
        let inner = atan_enclosure((x - 1 as real) / (x + 1 as real), cap);
        (
            inner.0 && machin_converges(cap),
            pi_lo * (1 as real / 4 as real) + inner.1,
            pi_hi * (1 as real / 4 as real) + inner.2,
        )
    } else {
        let th = atan_threshold(cap);
        (
            atan_converges_within(x, th, limit),
            atan_series_lo(x, th, limit),
            atan_series_hi(x, th, limit),
        )
    }
}

/// Every budget check of [`atan_enclosure`]'s computation fits: the
/// argument, the reduction taken, the recursive evaluation, the `π`
/// enclosure and its scaling, the series, and the combination.
pub open spec fn atan_fits(x: real, cap: TrigCap) -> bool
    decreases atan_rank(x),
{
    let limit = cap.spec_series_terms() as nat;
    let pi_lo = machin_lo(pi_threshold(cap), limit);
    let pi_hi = machin_hi(pi_threshold(cap), limit);
    cap.fits_value(x) && if x == 0 as real {
        true
    } else if x < (0 as real) {
        let inner = atan_enclosure(-x, cap);
        &&& atan_fits(-x, cap)
        &&& cap.fits_value(inner.1) && cap.fits_value(inner.2)
    } else if x > 1 as real {
        proof {
            lemma_reciprocal_rank(x);
        }
        let inner = atan_enclosure(1 as real / x, cap);
        let half = 1 as real / 2 as real;
        &&& cap.int_fits(2)
        &&& cap.div_fits_values(1 as real, x)
        &&& atan_fits(1 as real / x, cap)
        &&& pi_fits(cap)
        &&& cap.mul_fits_values(pi_lo, half) && cap.mul_fits_values(pi_hi, half)
        &&& cap.addsub_fits_values(pi_lo * half, inner.2) && cap.addsub_fits_values(pi_hi * half, inner.1)
    } else if x > 1 as real / 2 as real {
        proof {
            lemma_reduced_rank(x);
        }
        let z = (x - 1 as real) / (x + 1 as real);
        let inner = atan_enclosure(z, cap);
        let quarter = 1 as real / 4 as real;
        &&& cap.int_fits(2)
        &&& cap.addsub_fits_values(x, 1 as real)
        &&& cap.div_fits_values(x - 1 as real, x + 1 as real)
        &&& atan_fits(z, cap)
        &&& pi_fits(cap)
        &&& cap.int_fits(4)
        &&& cap.mul_fits_values(pi_lo, quarter) && cap.mul_fits_values(pi_hi, quarter)
        &&& cap.addsub_fits_values(pi_lo * quarter, inner.1) && cap.addsub_fits_values(pi_hi * quarter, inner.2)
    } else {
        &&& cap.int_fits(2)
        &&& atan_series_fits(cap, lowest_numer(x), lowest_denom(x), atan_threshold(cap))
    }
}

/// Computes a certified enclosure of `atan(x)` for an exact rational `x` by
/// range reduction and the Maclaurin series (see [`atan_enclosure`]).
///
/// Returns [`TrigError::BudgetExhausted`] when an intermediate value would
/// exceed the cap or a series does not converge within its term limit.
#[verifier::spinoff_prover]
#[verifier::rlimit(60)]
fn atan_rat_exact(x: &ExactRational, cap: TrigCap) -> (atan: Result<RatInterval, TrigError>)
    requires
        x.wf(),
    ensures
        atan matches Ok(i) ==> {
            let e = atan_enclosure(x.value(), cap);
            &&& i.wf()
            &&& e.0
            &&& i.lo.value() == e.1
            &&& i.hi.value() == e.2
        },
        atan matches Err(e) ==> e == TrigError::BudgetExhausted,
        atan is Ok <==> atan_fits(x.value(), cap),
    decreases atan_rank(x.value()),
{
    let ghost xv = x.value();
    proof {
        lemma_fits_values_all(cap);
    }
    match cap.admit_rat(x) {
        Ok(()) => {},
        Err(e) => return Err(e),
    }
    proof {
        lemma_rational_parts(*x);
    }
    let zero = ExactRational::from_int(0);
    let one = ExactRational::from_int(1);
    let numer = x.numer();
    let zero_int = ExactInt::from_i64(0);
    if numer.le(&zero_int) && zero_int.le(&numer) {
        proof {
            assert((0 as real) / (x.spec_denom() as real) == 0 as real) by (nonlinear_arith)
                requires
                    x.spec_denom() > 0,
            ;
        }
        return Ok(RatInterval::point(zero));
    }
    if !zero_int.le(&numer) {
        let neg_x = x.neg();
        proof {
            crate::exact::lemma_negation_lowest_terms(*x);
            assert(neg_x.wf());
            assert(neg_x.value() == -xv);
        }
        let inner = match atan_rat_exact(&neg_x, cap) {
            Ok(v) => v,
            Err(e) => return Err(e),
        };
        let result = cap.neg_interval(&inner);
        proof {
            let e = atan_enclosure(xv, cap);
            if result is Ok {
                assert(result->Ok_0.lo.value() == e.1);
                assert(result->Ok_0.hi.value() == e.2);
            }
        }
        return result;
    }
    let half = match cap.unit_fraction(2) {
        Ok(v) => v,
        Err(e) => return Err(e),
    };
    if !x.le(&one) {
        proof {
            lemma_div_fits_of_values(cap, one, *x);
        }
        let recip = match cap.div_rat(&one, x) {
            Ok(v) => v,
            Err(e) => return Err(e),
        };
        proof {
            lemma_reciprocal_rank(xv);
        }
        let atan_recip = match atan_rat_exact(&recip, cap) {
            Ok(v) => v,
            Err(e) => return Err(e),
        };
        let pi = match pi_interval_cap(cap) {
            Ok(v) => v,
            Err(e) => return Err(e),
        };
        let pi_half = match cap.scale_interval(&pi, &half) {
            Ok(v) => v,
            Err(e) => return Err(e),
        };
        let result = cap.sub_interval(&pi_half, &atan_recip);
        proof {
            let e = atan_enclosure(xv, cap);
            if result is Ok {
                assert(result->Ok_0.lo.value() == e.1);
                assert(result->Ok_0.hi.value() == e.2);
            }
        }
        return result;
    }
    if !x.le(&half) {
        let xm1 = match cap.sub_rat(x, &one) {
            Ok(v) => v,
            Err(e) => return Err(e),
        };
        let xp1 = match cap.add_rat(x, &one) {
            Ok(v) => v,
            Err(e) => return Err(e),
        };
        proof {
            assert(xp1.value() > 0 as real);
            lemma_rational_parts(xp1);
            if xp1.spec_numer() == 0 {
                assert((0 as real) / (xp1.spec_denom() as real) == 0 as real) by (nonlinear_arith)
                    requires
                        xp1.spec_denom() > 0,
                ;
            }
        }
        proof {
            lemma_div_fits_of_values(cap, xm1, xp1);
        }
        let z = match cap.div_rat(&xm1, &xp1) {
            Ok(v) => v,
            Err(e) => return Err(e),
        };
        proof {
            lemma_reduced_rank(xv);
        }
        let atan_z = match atan_rat_exact(&z, cap) {
            Ok(v) => v,
            Err(e) => return Err(e),
        };
        let pi = match pi_interval_cap(cap) {
            Ok(v) => v,
            Err(e) => return Err(e),
        };
        let quarter = match cap.unit_fraction(4) {
            Ok(v) => v,
            Err(e) => return Err(e),
        };
        let pi_quarter = match cap.scale_interval(&pi, &quarter) {
            Ok(v) => v,
            Err(e) => return Err(e),
        };
        let result = cap.add_interval(&pi_quarter, &atan_z);
        proof {
            let e = atan_enclosure(xv, cap);
            if result is Ok {
                assert(result->Ok_0.lo.value() == e.1);
                assert(result->Ok_0.hi.value() == e.2);
            }
        }
        return result;
    }
    let p = x.numer();
    let q = x.denom();
    proof {
        lemma_parts_of_value(*x);
    }
    let threshold = cap.threshold_bits(250);
    let result = atan_rational_series(&p, &q, cap, threshold);
    proof {
        let e = atan_enclosure(xv, cap);
        if result is Ok {
            assert(result->Ok_0.lo.value() == e.1);
            assert(result->Ok_0.hi.value() == e.2);
        }
    }
    result
}

/// Whether the enclosure of `atan2(y, x)` in `(−π, π]` is defined under
/// `cap`, and its two ends: `±π/2` on the vertical axis, otherwise the `atan`
/// enclosure of `y/x`, shifted by `±π` in the left half-plane.
pub open spec fn atan2_enclosure(y: real, x: real, cap: TrigCap) -> (bool, real, real) {
    let limit = cap.spec_series_terms() as nat;
    let pi_lo = machin_lo(pi_threshold(cap), limit);
    let pi_hi = machin_hi(pi_threshold(cap), limit);
    let half = 1 as real / 2 as real;
    if x == 0 as real {
        if y > 0 as real {
            (machin_converges(cap), pi_lo * half, pi_hi * half)
        } else {
            (machin_converges(cap), -(pi_hi * half), -(pi_lo * half))
        }
    } else {
        let a = atan_enclosure(y / x, cap);
        if x > 0 as real {
            a
        } else if y < (0 as real) {
            (a.0 && machin_converges(cap), a.1 - pi_hi, a.2 - pi_lo)
        } else {
            (a.0 && machin_converges(cap), a.1 + pi_lo, a.2 + pi_hi)
        }
    }
}

/// Every budget check of [`atan2_enclosure`]'s computation fits, away from
/// the origin: both arguments, then on the vertical axis the halved `π`
/// enclosure, elsewhere the quotient, its `atan` and the shift by `π` in
/// the left half-plane.
pub open spec fn atan2_fits(y: real, x: real, cap: TrigCap) -> bool {
    let limit = cap.spec_series_terms() as nat;
    let pi_lo = machin_lo(pi_threshold(cap), limit);
    let pi_hi = machin_hi(pi_threshold(cap), limit);
    let half = 1 as real / 2 as real;
    &&& cap.fits_value(y) && cap.fits_value(x)
    &&& !(x == 0 as real && y == 0 as real)
    &&& if x == 0 as real {
        &&& pi_fits(cap)
        &&& cap.int_fits(2)
        &&& cap.mul_fits_values(pi_lo, half) && cap.mul_fits_values(pi_hi, half)
        &&& cap.fits_value(pi_lo * half) && cap.fits_value(pi_hi * half)
    } else {
        let a = atan_enclosure(y / x, cap);
        &&& cap.div_fits_values(y, x)
        &&& atan_fits(y / x, cap)
        &&& if x > 0 as real {
            cap.fits_value(a.1) && cap.fits_value(a.2)
        } else {
            &&& pi_fits(cap)
            &&& if y < (0 as real) {
                cap.addsub_fits_values(a.1, pi_hi) && cap.addsub_fits_values(a.2, pi_lo)
            } else {
                cap.addsub_fits_values(a.1, pi_lo) && cap.addsub_fits_values(a.2, pi_hi)
            }
        }
    }
}

/// Computes a certified enclosure of `atan2(y, x)` in `(−π, π]`.
///
/// Both inputs are admitted against the budget before any other work.
/// Returns [`TrigError::Pole`] when `(x, y) = (0, 0)`, and
/// [`TrigError::BudgetExhausted`] when an input or intermediate value
/// exceeds the cap or a series does not converge.
pub fn atan2_interval(y: &ExactRational, x: &ExactRational, budget: CertificationBudget) -> (angle:
    Result<RatInterval, TrigError>)
    requires
        y.wf(),
        x.wf(),
    ensures
        ({
            let cap = TrigCap::spec_new(budget);
            cap.fits(*y) && cap.fits(*x) && y.spec_numer() == 0 && x.spec_numer() == 0 ==> angle
                == Err::<RatInterval, TrigError>(TrigError::Pole)
        }),
        angle matches Err(e) ==> e == TrigError::BudgetExhausted || (e == TrigError::Pole
            && y.spec_numer() == 0 && x.spec_numer() == 0),
        angle matches Ok(i) ==> {
            let e = atan2_enclosure(y.value(), x.value(), TrigCap::spec_new(budget));
            &&& i.wf()
            &&& e.0
            &&& i.lo.value() == e.1
            &&& i.hi.value() == e.2
        },
        angle is Ok <==> atan2_fits(y.value(), x.value(), TrigCap::spec_new(budget)),
        angle matches Ok(i) ==> {
            let cap = TrigCap::spec_new(budget);
            let pi_lo = machin_lo(pi_threshold(cap), cap.spec_series_terms() as nat);
            let pi_hi = machin_hi(pi_threshold(cap), cap.spec_series_terms() as nat);
            let half = 1 as real / 2 as real;
            let (yv, xv, lo, hi) = (y.value(), x.value(), i.lo.value(), i.hi.value());
            &&& lo <= hi
            &&& (-4 as real) < lo && hi <= 4 as real
            &&& yv > 0 as real ==> (0 as real) < lo
            &&& yv < 0 as real ==> hi < (0 as real)
            &&& yv == 0 as real && xv > 0 as real ==> lo == 0 as real && hi == 0 as real
            &&& xv > 0 as real ==> -2 as real <= lo && hi <= 2 as real
            &&& xv < 0 as real && yv >= 0 as real ==> 1 as real <= lo
            &&& xv < 0 as real && yv < 0 as real ==> hi <= -1 as real
            &&& xv <= 0 as real ==> machin_converges(cap)
            &&& machin_converges(cap) ==> 3 as real <= pi_lo && pi_lo <= pi_hi && pi_hi <= 4 as real
                && -pi_hi < lo && hi <= pi_hi
            &&& machin_converges(cap) && xv > 0 as real ==> -(pi_hi * half) <= lo && hi <= pi_hi
                * half
            &&& xv < 0 as real && yv >= 0 as real ==> pi_lo - pi_hi * half <= lo
            &&& xv < 0 as real && yv < 0 as real ==> hi <= pi_hi * half - pi_lo
            &&& xv == 0 as real && yv > 0 as real ==> lo == pi_lo * half && hi == pi_hi * half
            &&& xv == 0 as real && yv < 0 as real ==> lo == -(pi_hi * half) && hi == -(pi_lo * half)
        },
{
    let angle = atan2_enclosure_interval(y, x, budget);
    proof {
        if angle is Ok {
            atan2_enclosure_quadrants(y.value(), x.value(), TrigCap::spec_new(budget));
        }
    }
    angle
}

#[verifier::spinoff_prover]
#[verifier::rlimit(60)]
fn atan2_enclosure_interval(y: &ExactRational, x: &ExactRational, budget: CertificationBudget) -> (angle:
    Result<RatInterval, TrigError>)
    requires
        y.wf(),
        x.wf(),
    ensures
        ({
            let cap = TrigCap::spec_new(budget);
            cap.fits(*y) && cap.fits(*x) && y.spec_numer() == 0 && x.spec_numer() == 0 ==> angle
                == Err::<RatInterval, TrigError>(TrigError::Pole)
        }),
        angle matches Err(e) ==> e == TrigError::BudgetExhausted || (e == TrigError::Pole
            && y.spec_numer() == 0 && x.spec_numer() == 0),
        angle matches Ok(i) ==> {
            let e = atan2_enclosure(y.value(), x.value(), TrigCap::spec_new(budget));
            &&& i.wf()
            &&& e.0
            &&& i.lo.value() == e.1
            &&& i.hi.value() == e.2
        },
        angle is Ok <==> atan2_fits(y.value(), x.value(), TrigCap::spec_new(budget)),
{
    let cap = TrigCap::new(budget);
    proof {
        lemma_fits_values_all(cap);
    }
    match cap.admit_rat(y) {
        Ok(()) => {},
        Err(e) => return Err(e),
    }
    match cap.admit_rat(x) {
        Ok(()) => {},
        Err(e) => return Err(e),
    }
    proof {
        lemma_rational_parts(*x);
        lemma_rational_parts(*y);
    }
    let zero = ExactInt::from_i64(0);
    let x_numer = x.numer();
    let y_numer = y.numer();
    let x_zero = x_numer.le(&zero) && zero.le(&x_numer);
    let y_zero = y_numer.le(&zero) && zero.le(&y_numer);
    if x_zero && y_zero {
        return Err(TrigError::Pole);
    }
    if x_zero {
        let pi = match pi_interval_cap(cap) {
            Ok(v) => v,
            Err(e) => return Err(e),
        };
        let half = match cap.unit_fraction(2) {
            Ok(v) => v,
            Err(e) => return Err(e),
        };
        let pi_half = match cap.scale_interval(&pi, &half) {
            Ok(v) => v,
            Err(e) => return Err(e),
        };
        return if zero.le(&y_numer) {
            cap.admitted_interval(pi_half)
        } else {
            cap.neg_interval(&pi_half)
        };
    }
    proof {
        lemma_div_fits_of_values(cap, *y, *x);
    }
    let ratio = match cap.div_rat(y, x) {
        Ok(v) => v,
        Err(e) => return Err(e),
    };
    let atan_ratio = match atan_rat_exact(&ratio, cap) {
        Ok(v) => v,
        Err(e) => return Err(e),
    };
    if zero.le(&x_numer) {
        cap.admitted_interval(atan_ratio)
    } else {
        let pi = match pi_interval_cap(cap) {
            Ok(v) => v,
            Err(e) => return Err(e),
        };
        if !zero.le(&y_numer) {
            cap.sub_interval(&atan_ratio, &pi)
        } else {
            cap.add_interval(&atan_ratio, &pi)
        }
    }
}

/// The certified `atan` enclosure of a non-negative argument lies in
/// `[0, 2]`, starts above zero for a positive argument, stays below the
/// argument on `[0, 1/2]` and below one on `[0, 1]`, and stays below half
/// of the `π` enclosure whenever that converges.
pub proof fn atan_enclosure_nonneg_bounds(x: real, cap: TrigCap)
    requires
        x >= 0 as real,
        atan_enclosure(x, cap).0,
    ensures
        0 as real <= atan_enclosure(x, cap).1,
        atan_enclosure(x, cap).1 <= atan_enclosure(x, cap).2,
        atan_enclosure(x, cap).2 <= 2 as real,
        x > 0 as real ==> (0 as real) < atan_enclosure(x, cap).1,
        x <= 1 as real ==> atan_enclosure(x, cap).2 <= 1 as real,
        x <= 1 as real / 2 as real ==> atan_enclosure(x, cap).2 <= x,
        machin_converges(cap) ==> atan_enclosure(x, cap).2 <= machin_hi(
            pi_threshold(cap),
            cap.spec_series_terms() as nat,
        ) / (2 as real),
    decreases atan_rank(x),
{
    let limit = cap.spec_series_terms() as nat;
    let pi_lo = machin_lo(pi_threshold(cap), limit);
    let pi_hi = machin_hi(pi_threshold(cap), limit);
    let e = atan_enclosure(x, cap);
    if x == 0 as real {
        if machin_converges(cap) {
            machin_enclosure_bounds(cap);
        }
    } else if x > 1 as real {
        lemma_reciprocal_rank(x);
        let r = 1 as real / x;
        assert((0 as real) < r && r < 1 as real) by (nonlinear_arith)
            requires
                x > 1 as real,
                r == 1 as real / x,
        ;
        let inner = atan_enclosure(r, cap);
        assert(e == (inner.0 && machin_converges(cap), pi_lo * (1 as real / 2 as real) - inner.2,
            pi_hi * (1 as real / 2 as real) - inner.1));
        atan_enclosure_nonneg_bounds(r, cap);
        machin_enclosure_bounds(cap);
    } else if x > 1 as real / 2 as real {
        lemma_reduced_rank(x);
        let z = (x - 1 as real) / (x + 1 as real);
        let inner = atan_enclosure(z, cap);
        assert(e == (inner.0 && machin_converges(cap), pi_lo * (1 as real / 4 as real) + inner.1,
            pi_hi * (1 as real / 4 as real) + inner.2));
        machin_enclosure_bounds(cap);
        assert(-z < 1 as real / 3 as real) by (nonlinear_arith)
            requires
                (1 as real) / (2 as real) < x,
                x <= 1 as real,
                z == (x - 1 as real) / (x + 1 as real),
        ;
        if z == 0 as real {
            assert(inner.1 == 0 as real && inner.2 == 0 as real);
        } else {
            let b = atan_enclosure(-z, cap);
            assert(inner == (b.0, -b.2, -b.1));
            atan_enclosure_nonneg_bounds(-z, cap);
        }
    } else {
        let th = atan_threshold(cap);
        lemma_atan_series_bounds(x, th, limit);
        lemma_series_ordered(x, th, limit);
        lemma_cube(x);
        assert(x - x * x * x / (3 as real) > 0 as real) by (nonlinear_arith)
            requires
                (0 as real) < x,
                x <= 1 as real / 2 as real,
        ;
        if machin_converges(cap) {
            machin_enclosure_bounds(cap);
        }
    }
}

/// The certified `atan` enclosure of a negative argument is that of its
/// magnitude negated: it lies in `[-2, 0)`, above minus half of a
/// convergent `π` enclosure.
pub proof fn atan_enclosure_negative_bounds(x: real, cap: TrigCap)
    requires
        x < 0 as real,
        atan_enclosure(x, cap).0,
    ensures
        atan_enclosure(x, cap) == (atan_enclosure(-x, cap).0, -atan_enclosure(-x, cap).2,
            -atan_enclosure(-x, cap).1),
        -2 as real <= atan_enclosure(x, cap).1,
        atan_enclosure(x, cap).1 <= atan_enclosure(x, cap).2,
        atan_enclosure(x, cap).2 < (0 as real),
        machin_converges(cap) ==> -(machin_hi(pi_threshold(cap), cap.spec_series_terms() as nat)
            / (2 as real)) <= atan_enclosure(x, cap).1,
{
    atan_enclosure_nonneg_bounds(-x, cap);
}

/// The certified enclosure of `atan2(y, x)` lies in the quadrant of
/// `(x, y)`: it is ordered, within `(-π, π]` for the cap's `π` enclosure
/// `[pi_lo, pi_hi]` (so within `(-4, 4]`), above zero when `y > 0`, below
/// zero when `y < 0`, exactly zero on the positive `x` axis, within
/// `[-π/2, π/2]` (so within `[-2, 2]`) in the right half-plane, above
/// `π/2` (so above one) in the upper left quadrant including the negative
/// `x` axis, and below `-π/2` (so below minus one) in the lower left
/// quadrant; on the `y` axis it is the halved `π` enclosure, signed as `y`.
pub proof fn atan2_enclosure_quadrants(y: real, x: real, cap: TrigCap)
    requires
        !(x == 0 as real && y == 0 as real),
        atan2_enclosure(y, x, cap).0,
    ensures
        ({
            let e = atan2_enclosure(y, x, cap);
            let pi_lo = machin_lo(pi_threshold(cap), cap.spec_series_terms() as nat);
            let pi_hi = machin_hi(pi_threshold(cap), cap.spec_series_terms() as nat);
            let half = 1 as real / 2 as real;
            &&& e.1 <= e.2
            &&& (-4 as real) < e.1 && e.2 <= 4 as real
            &&& y > 0 as real ==> (0 as real) < e.1
            &&& y < 0 as real ==> e.2 < (0 as real)
            &&& y == 0 as real && x > 0 as real ==> e.1 == 0 as real && e.2 == 0 as real
            &&& x > 0 as real ==> -2 as real <= e.1 && e.2 <= 2 as real
            &&& x < 0 as real && y >= 0 as real ==> 1 as real <= e.1
            &&& x < 0 as real && y < 0 as real ==> e.2 <= -1 as real
            &&& x <= 0 as real ==> machin_converges(cap)
            &&& machin_converges(cap) ==> 3 as real <= pi_lo && pi_lo <= pi_hi && pi_hi <= 4 as real
                && -pi_hi < e.1 && e.2 <= pi_hi
            &&& machin_converges(cap) && x > 0 as real ==> -(pi_hi * half) <= e.1 && e.2 <= pi_hi
                * half
            &&& x < 0 as real && y >= 0 as real ==> pi_lo - pi_hi * half <= e.1
            &&& x < 0 as real && y < 0 as real ==> e.2 <= pi_hi * half - pi_lo
            &&& x == 0 as real && y > 0 as real ==> e.1 == pi_lo * half && e.2 == pi_hi * half
            &&& x == 0 as real && y < 0 as real ==> e.1 == -(pi_hi * half) && e.2 == -(pi_lo * half)
        }),
{
    let limit = cap.spec_series_terms() as nat;
    let pi_lo = machin_lo(pi_threshold(cap), limit);
    let pi_hi = machin_hi(pi_threshold(cap), limit);
    if machin_converges(cap) {
        machin_enclosure_bounds(cap);
    }
    if x != 0 as real {
        let r = y / x;
        let a = atan_enclosure(r, cap);
        assert(a.0);
        assert((y > 0 as real && x > 0 as real) || (y < 0 as real && x < 0 as real) ==> r
            > 0 as real) by (nonlinear_arith)
            requires
                r == y / x,
                x != 0 as real,
        ;
        assert((y > 0 as real && x < 0 as real) || (y < 0 as real && x > 0 as real) ==> r
            < 0 as real) by (nonlinear_arith)
            requires
                r == y / x,
                x != 0 as real,
        ;
        assert(y == 0 as real ==> r == 0 as real) by (nonlinear_arith)
            requires
                r == y / x,
                x != 0 as real,
        ;
        if r >= 0 as real {
            atan_enclosure_nonneg_bounds(r, cap);
        } else {
            atan_enclosure_negative_bounds(r, cap);
        }
    }
}

/// `atan` is odd: the enclosure at `-x` is the one at `x` negated.
pub proof fn atan_enclosure_is_odd(x: real, cap: TrigCap)
    ensures
        atan_enclosure(-x, cap) == (atan_enclosure(x, cap).0, -atan_enclosure(x, cap).2,
            -atan_enclosure(x, cap).1),
{
    if x == 0 as real {
        assert(-x == 0 as real);
    } else if x < 0 as real {
        assert(-(-x) == x);
    }
}

/// `atan2` is odd in `y` off the negative `x` axis: reflecting the point
/// across the `x` axis negates the enclosure and keeps whether it is
/// defined. On the negative `x` axis the angle is `π`, not `−π`.
pub proof fn atan2_enclosure_is_odd_in_y(y: real, x: real, cap: TrigCap)
    requires
        !(y == 0 as real && x <= 0 as real),
    ensures
        atan2_enclosure(-y, x, cap) == (atan2_enclosure(y, x, cap).0, -atan2_enclosure(
            y,
            x,
            cap,
        ).2, -atan2_enclosure(y, x, cap).1),
{
    if x != 0 as real {
        assert((-y) / x == -(y / x)) by (nonlinear_arith)
            requires
                x != 0 as real,
        ;
        atan_enclosure_is_odd(y / x, cap);
        if y == 0 as real {
            assert(y / x == 0 as real) by (nonlinear_arith)
                requires
                    y == 0 as real,
                    x != 0 as real,
            ;
        }
    }
}

proof fn lemma_atan_terms_shrink(x: real, k: nat)
    requires
        0 as real <= x <= 1 as real,
    ensures
        0 as real <= atan_term_size(x, k + 1),
        atan_term_size(x, k + 1) <= atan_term_size(x, k),
{
    let m = 2 * k + 1;
    lemma_real_pow_nonneg(x, m);
    lemma_real_power_step(x, m);
    let p = real_pow(x, m);
    assert(0 as real <= p * (x * x) / (m + 2) as real && p * (x * x) / (m + 2) as real <= p
        / m as real) by (nonlinear_arith)
        requires
            0 as real <= x <= 1 as real,
            p >= 0 as real,
            m >= 1,
    ;
}

/// Odd-length partial sums never exceed the first term, and even-length ones
/// never fall below the first two, when the terms shrink.
proof fn lemma_atan_partial_pairs(x: real, m: nat)
    requires
        0 as real <= x <= 1 as real,
    ensures
        atan_partial(x, 1) == x,
        atan_partial(x, 2 * m + 1) <= x,
        atan_partial(x, 2 * m + 2) >= atan_partial(x, 2),
    decreases m,
{
    assert(real_pow(x, 1) == x * real_pow(x, 0));
    assert(x * (1 as real) == x) by (nonlinear_arith);
    assert(x / (1 as real) == x) by (nonlinear_arith);
    assert(atan_partial(x, 1) == atan_partial(x, 0) + atan_term(x, 0));
    if m > 0 {
        let j = (m - 1) as nat;
        lemma_atan_partial_pairs(x, j);
        lemma_atan_terms_shrink(x, 2 * j + 1);
        lemma_atan_terms_shrink(x, 2 * j + 2);
        assert(atan_partial(x, 2 * m + 1) == atan_partial(x, 2 * j + 1) - atan_term_size(
            x,
            2 * j + 1,
        ) + atan_term_size(x, 2 * j + 2));
        assert(atan_partial(x, 2 * m + 2) == atan_partial(x, 2 * j + 2) + atan_term_size(
            x,
            2 * j + 2,
        ) - atan_term_size(x, 2 * j + 3));
    } else {
        lemma_atan_terms_shrink(x, 0);
        assert(atan_partial(x, 2) == atan_partial(x, 1) - atan_term_size(x, 1));
    }
}

/// Every partial sum from the first on lies between `x − x³/3` and `x`.
proof fn lemma_atan_partial_bounds(x: real, n: nat)
    requires
        0 as real <= x <= 1 as real,
        n >= 1,
    ensures
        x - atan_term_size(x, 1) <= atan_partial(x, n) <= x,
{
    lemma_atan_partial_pairs(x, 0);
    lemma_atan_terms_shrink(x, 0);
    assert(atan_partial(x, 2) == atan_partial(x, 1) - atan_term_size(x, 1));
    if n % 2 == 1 {
        let m = ((n - 1) / 2) as nat;
        assert(n == 2 * m + 1);
        lemma_atan_partial_pairs(x, m);
        if m > 0 {
            lemma_atan_partial_pairs(x, (m - 1) as nat);
            lemma_atan_terms_shrink(x, (2 * m - 1) as nat);
            assert(atan_partial(x, 2 * m + 1) == atan_partial(x, 2 * m) + atan_term(x, 2 * m));
            assert(atan_term(x, 2 * m) == atan_term_size(x, 2 * m));
        }
    } else {
        let m = ((n - 2) / 2) as nat;
        assert(n == 2 * m + 2);
        lemma_atan_partial_pairs(x, m);
        lemma_atan_terms_shrink(x, 2 * m);
        assert(atan_partial(x, 2 * m + 2) == atan_partial(x, 2 * m + 1) + atan_term(x, 2 * m + 1));
        assert(atan_term(x, 2 * m + 1) == -atan_term_size(x, 2 * m + 1));
    }
}

/// Both ends of a convergent series enclosure lie between `x − x³/3` and `x`.
proof fn lemma_atan_series_bounds(x: real, threshold: nat, limit: nat)
    requires
        0 as real <= x <= 1 as real,
        atan_converges_within(x, threshold, limit),
    ensures
        x - atan_term_size(x, 1) <= atan_series_lo(x, threshold, limit),
        atan_series_hi(x, threshold, limit) <= x,
{
    let w = choose|n: nat| 1 <= n <= limit && #[trigger] atan_converged(x, n, threshold);
    lemma_least_convergence(x, threshold, limit, w);
    let n = atan_stop(x, threshold, limit);
    lemma_atan_partial_bounds(x, n);
    lemma_atan_partial_bounds(x, n + 1);
}

/// Among the indices up to `w` whose terms are below the threshold there is
/// a least one.
proof fn lemma_least_convergence(x: real, threshold: nat, limit: nat, w: nat)
    requires
        1 <= w <= limit,
        atan_converged(x, w, threshold),
    ensures
        first_atan_convergence(x, threshold, limit, atan_stop(x, threshold, limit)),
    decreases w,
{
    if forall|m: nat| 1 <= m < w ==> !#[trigger] atan_converged(x, m, threshold) {
        assert(first_atan_convergence(x, threshold, limit, w));
    } else {
        let v = choose|m: nat| 1 <= m < w && #[trigger] atan_converged(x, m, threshold);
        lemma_least_convergence(x, threshold, limit, v);
    }
}

/// The Machin enclosure of `π` lies within `[3, 4]`.
pub proof fn machin_enclosure_bounds(cap: TrigCap)
    requires
        machin_converges(cap),
    ensures
        3 as real <= machin_lo(pi_threshold(cap), cap.spec_series_terms() as nat),
        machin_lo(pi_threshold(cap), cap.spec_series_terms() as nat) <= machin_hi(
            pi_threshold(cap),
            cap.spec_series_terms() as nat,
        ),
        machin_hi(pi_threshold(cap), cap.spec_series_terms() as nat) <= 4 as real,
{
    let th = pi_threshold(cap);
    let limit = cap.spec_series_terms() as nat;
    let a = 1 as real / 5 as real;
    let b = 1 as real / 239 as real;
    assert(0 as real <= a <= 1 as real && 0 as real <= b <= 1 as real) by (nonlinear_arith)
        requires
            a == 1 as real / 5 as real,
            b == 1 as real / 239 as real,
    ;
    lemma_atan_series_bounds(a, th, limit);
    lemma_atan_series_bounds(b, th, limit);
    lemma_series_ordered(a, th, limit);
    lemma_series_ordered(b, th, limit);
    lemma_cube(a);
    lemma_cube(b);
    assert(a * a * a / (3 as real) < (1 as real) / (100 as real)) by (nonlinear_arith)
        requires
            a == 1 as real / 5 as real,
    ;
    assert(b - b * b * b / (3 as real) >= 0 as real && b * (4 as real) < (1 as real) / (
    50 as real)) by (nonlinear_arith)
        requires
            b == 1 as real / 239 as real,
    ;
    assert(16 as real * a == 16 as real / 5 as real) by (nonlinear_arith)
        requires
            a == 1 as real / 5 as real,
    ;
}

proof fn lemma_cube(x: real)
    ensures
        atan_term_size(x, 1) == x * x * x / (3 as real),
{
    assert(real_pow(x, 0) == 1 as real);
    assert(real_pow(x, 1) == x * real_pow(x, 0));
    assert(real_pow(x, 2) == x * real_pow(x, 1));
    assert(real_pow(x, 3) == x * real_pow(x, 2));
    assert(x * (x * (x * (1 as real))) == x * x * x) by (nonlinear_arith);
}

/// Recursion measure of the `sin`/`cos` range reduction on non-negative
/// inputs, for a positive half-period estimate `pm`.
pub open spec fn sin_cos_rank_nonneg(y: real, pm: real) -> nat {
    if y > pm {
        (4 + (y / pm).floor()) as nat
    } else if y > pm / (2 as real) {
        3
    } else if y > pm / (4 as real) {
        2
    } else {
        0
    }
}

/// Recursion measure of the `sin`/`cos` range reduction.
pub open spec fn sin_cos_rank(x: real, pm: real) -> nat {
    if x < (0 as real) {
        1 + sin_cos_rank_nonneg(-x, pm)
    } else {
        sin_cos_rank_nonneg(x, pm)
    }
}

/// Each range-reduction step of `sin`/`cos` lowers the rank.
pub proof fn lemma_sin_cos_rank(x: real, pm: real)
    requires
        pm > 0 as real,
    ensures
        x < (0 as real) ==> sin_cos_rank(-x, pm) < sin_cos_rank(x, pm),
        x >= 0 as real && x > pm ==> sin_cos_rank(x - pm, pm) < sin_cos_rank(x, pm),
        x >= 0 as real && !(x > pm) && x > pm / (2 as real) ==> sin_cos_rank(pm - x, pm)
            < sin_cos_rank(x, pm),
        x >= 0 as real && !(x > pm / (2 as real)) && x > pm / (4 as real) ==> sin_cos_rank(
            pm / (2 as real) - x,
            pm,
        ) < sin_cos_rank(x, pm),
{
    if x > pm {
        assert((x - pm) / pm == x / pm - 1 as real) by (nonlinear_arith)
            requires
                pm > 0 as real,
        ;
        assert(x / pm > 1 as real) by (nonlinear_arith)
            requires
                pm > 0 as real,
                x > pm,
        ;
    }
    assert(pm / (4 as real) < pm / (2 as real) && pm / (2 as real) < pm) by (nonlinear_arith)
        requires
            pm > 0 as real,
    ;
}

/// The convergence threshold of the `sin`/`cos` series: `min(bits − 1, 200)`.
pub open spec fn sin_cos_threshold(cap: TrigCap) -> nat {
    if cap.spec_bits() == 0 {
        0
    } else if cap.spec_bits() - 1 <= 200 {
        (cap.spec_bits() - 1) as nat
    } else {
        200
    }
}

/// Both Taylor series converge within the cap's term limit at `x`.
pub open spec fn sin_cos_series_converge(x: real, cap: TrigCap) -> bool {
    let th = sin_cos_threshold(cap);
    let limit = cap.spec_series_terms() as nat;
    &&& exists|n: nat| first_taylor_convergence(x, true, th, limit, n)
    &&& exists|n: nat| first_taylor_convergence(x, false, th, limit, n)
}

/// Whether the range-reduced enclosures of `sin(x)` and `cos(x)` are defined
/// under `cap`, given the `π` enclosure `[pi_lo, pi_hi]`, and their ends
/// `(sin lo, sin hi, cos lo, cos hi)`.
///
/// With `m` the midpoint of the `π` enclosure and `w` its half-width, the
/// reductions are the symmetries of `sin` and `cos` at `−x`, `x − m`, `m − x`,
/// and `m/2 − x`; every reduction by `m` widens both results by `w` (by `w/2`
/// for the last one). On `[0, m/4]` both Taylor series are summed directly.
pub open spec fn sin_cos_enclosure(x: real, pi_lo: real, pi_hi: real, cap: TrigCap) -> (
    bool,
    real,
    real,
    real,
    real,
)
    decreases sin_cos_rank(x, (pi_lo + pi_hi) / (2 as real)),
    when (pi_lo + pi_hi) / (2 as real) > 0 as real
{
    let pm = (pi_lo + pi_hi) / (2 as real);
    let w = (pi_hi - pi_lo) / (2 as real);
    proof {
        lemma_sin_cos_rank(x, pm);
    }
    if x < (0 as real) {
        let r = sin_cos_enclosure(-x, pi_lo, pi_hi, cap);
        (r.0, -r.2, -r.1, r.3, r.4)
    } else if x > pm {
        let r = sin_cos_enclosure(x - pm, pi_lo, pi_hi, cap);
        (r.0, -r.2 - w, -r.1 + w, -r.4 - w, -r.3 + w)
    } else if x > pm / (2 as real) {
        let r = sin_cos_enclosure(pm - x, pi_lo, pi_hi, cap);
        (r.0, r.1 - w, r.2 + w, -r.4 - w, -r.3 + w)
    } else if x > pm / (4 as real) {
        let r = sin_cos_enclosure(pm / (2 as real) - x, pi_lo, pi_hi, cap);
        let q = w / (2 as real);
        (r.0, r.3 - q, r.4 + q, r.1 - q, r.2 + q)
    } else {
        let th = sin_cos_threshold(cap);
        let limit = cap.spec_series_terms() as nat;
        let s = taylor_enclosure(x, true, th, limit);
        let c = taylor_enclosure(x, false, th, limit);
        (sin_cos_series_converge(x, cap), s.0, s.1, c.0, c.1)
    }
}

/// `sin` is odd and `cos` is even: away from zero, the enclosures at `-x`
/// are the `sin` enclosure at `x` negated and the `cos` enclosure at `x`.
pub proof fn sin_cos_enclosure_parity(x: real, pi_lo: real, pi_hi: real, cap: TrigCap)
    requires
        (pi_lo + pi_hi) / (2 as real) > 0 as real,
        x != 0 as real,
    ensures
        ({
            let r = sin_cos_enclosure(x, pi_lo, pi_hi, cap);
            sin_cos_enclosure(-x, pi_lo, pi_hi, cap) == (r.0, -r.2, -r.1, r.3, r.4)
        }),
{
    assert(-(-x) == x);
}

/// Every budget check of [`sin_cos_enclosure`]'s computation fits: the
/// argument, the `π` enclosure and its midpoint, quarter and half-width,
/// the reduction taken, the recursive evaluation, and the negations,
/// widenings and admissions of the results.
pub open spec fn sin_cos_fits(x: real, pi_lo: real, pi_hi: real, cap: TrigCap) -> bool
    decreases sin_cos_rank(x, (pi_lo + pi_hi) / (2 as real)),
    when (pi_lo + pi_hi) / (2 as real) > 0 as real
{
    let pm = (pi_lo + pi_hi) / (2 as real);
    let w = (pi_hi - pi_lo) / (2 as real);
    proof {
        lemma_sin_cos_rank(x, pm);
    }
    let common = cap.fits_value(x) && cap.fits_value(pi_lo) && cap.fits_value(pi_hi) && cap.int_fits(2)
        && cap.int_fits(4) && cap.addsub_fits_values(pi_lo, pi_hi) && cap.div_fits_values(pi_lo + pi_hi, 2 as real)
        && cap.div_fits_values(pm, 2 as real) && cap.div_fits_values(pm, 4 as real) && cap.addsub_fits_values(
        pi_hi,
        pi_lo,
    ) && cap.div_fits_values(pi_hi - pi_lo, 2 as real);
    common && if x < (0 as real) {
        let r = sin_cos_enclosure(-x, pi_lo, pi_hi, cap);
        &&& sin_cos_fits(-x, pi_lo, pi_hi, cap)
        &&& cap.fits_value(r.1) && cap.fits_value(r.2)
        &&& cap.fits_value(-r.2) && cap.fits_value(-r.1) && cap.fits_value(r.3) && cap.fits_value(r.4)
    } else if x > pm {
        let r = sin_cos_enclosure(x - pm, pi_lo, pi_hi, cap);
        &&& cap.addsub_fits_values(x, pm)
        &&& sin_cos_fits(x - pm, pi_lo, pi_hi, cap)
        &&& cap.fits_value(r.1) && cap.fits_value(r.2) && cap.fits_value(r.3) && cap.fits_value(r.4)
        &&& cap.addsub_fits_values(-r.2, w) && cap.addsub_fits_values(-r.1, w)
        &&& cap.addsub_fits_values(-r.4, w) && cap.addsub_fits_values(-r.3, w)
        &&& cap.fits_value(-r.2 - w) && cap.fits_value(-r.1 + w)
        &&& cap.fits_value(-r.4 - w) && cap.fits_value(-r.3 + w)
    } else if x > pm / (2 as real) {
        let r = sin_cos_enclosure(pm - x, pi_lo, pi_hi, cap);
        &&& cap.addsub_fits_values(pm, x)
        &&& sin_cos_fits(pm - x, pi_lo, pi_hi, cap)
        &&& cap.fits_value(r.3) && cap.fits_value(r.4)
        &&& cap.addsub_fits_values(r.1, w) && cap.addsub_fits_values(r.2, w)
        &&& cap.addsub_fits_values(-r.4, w) && cap.addsub_fits_values(-r.3, w)
        &&& cap.fits_value(r.1 - w) && cap.fits_value(r.2 + w)
        &&& cap.fits_value(-r.4 - w) && cap.fits_value(-r.3 + w)
    } else if x > pm / (4 as real) {
        let r = sin_cos_enclosure(pm / (2 as real) - x, pi_lo, pi_hi, cap);
        let q = w / (2 as real);
        &&& cap.addsub_fits_values(pm / (2 as real), x)
        &&& sin_cos_fits(pm / (2 as real) - x, pi_lo, pi_hi, cap)
        &&& cap.div_fits_values(w, 2 as real)
        &&& cap.addsub_fits_values(r.3, q) && cap.addsub_fits_values(r.4, q)
        &&& cap.addsub_fits_values(r.1, q) && cap.addsub_fits_values(r.2, q)
        &&& cap.fits_value(r.3 - q) && cap.fits_value(r.4 + q)
        &&& cap.fits_value(r.1 - q) && cap.fits_value(r.2 + q)
    } else {
        let th = sin_cos_threshold(cap);
        let limit = cap.spec_series_terms() as nat;
        let sv = taylor_enclosure(x, true, th, limit);
        let cv = taylor_enclosure(x, false, th, limit);
        &&& taylor_series_fits(cap, x, true, th)
        &&& taylor_series_fits(cap, x, false, th)
        &&& cap.fits_value(sv.0) && cap.fits_value(sv.1) && cap.fits_value(cv.0) && cap.fits_value(cv.1)
    }
}

/// The pair of intervals matches the `sin`/`cos` enclosure `e`.
pub open spec fn matches_sin_cos(pair: (RatInterval, RatInterval), e: (bool, real, real, real, real)) -> bool {
    &&& pair.0.wf()
    &&& pair.1.wf()
    &&& e.0
    &&& pair.0.lo.value() == e.1
    &&& pair.0.hi.value() == e.2
    &&& pair.1.lo.value() == e.3
    &&& pair.1.hi.value() == e.4
}

/// Computes `sin(x)` and `cos(x)` at an exact rational by range reduction to
/// `[0, π/4]` against the `π` enclosure `pi` (see [`sin_cos_enclosure`]).
///
/// Returns [`TrigError::BudgetExhausted`] when an intermediate value would
/// exceed the cap or a series does not converge.
#[verifier::spinoff_prover]
#[verifier::rlimit(60)]
fn sin_cos_at_rational(x: &ExactRational, cap: TrigCap, pi: &RatInterval) -> (values: Result<
    (RatInterval, RatInterval),
    TrigError,
>)
    requires
        x.wf(),
        pi.wf(),
        pi.lo.value() <= pi.hi.value(),
        (pi.lo.value() + pi.hi.value()) / (2 as real) > 0 as real,
    ensures
        values matches Ok(pair) ==> matches_sin_cos(
            pair,
            sin_cos_enclosure(x.value(), pi.lo.value(), pi.hi.value(), cap),
        ),
        values matches Err(e) ==> e == TrigError::BudgetExhausted,
        values is Ok <==> sin_cos_fits(x.value(), pi.lo.value(), pi.hi.value(), cap),
    decreases sin_cos_rank(x.value(), (pi.lo.value() + pi.hi.value()) / (2 as real)),
{
    proof {
        lemma_fits_values_all(cap);
    }
    let ghost xv = x.value();
    let ghost pm = (pi.lo.value() + pi.hi.value()) / (2 as real);
    let ghost w = (pi.hi.value() - pi.lo.value()) / (2 as real);
    match cap.admit_rat(x) {
        Ok(()) => {},
        Err(e) => return Err(e),
    }
    match cap.admit_interval(pi) {
        Ok(()) => {},
        Err(e) => return Err(e),
    }
    let zero = ExactRational::from_int(0);
    let two = match cap.unsigned_rat(2) {
        Ok(v) => v,
        Err(e) => return Err(e),
    };
    let four = match cap.unsigned_rat(4) {
        Ok(v) => v,
        Err(e) => return Err(e),
    };
    proof {
        crate::exact::lemma_integer_value(two);
        crate::exact::lemma_integer_value(four);
        lemma_sin_cos_rank(xv, pm);
    }
    let pi_sum = match cap.add_rat(&pi.lo, &pi.hi) {
        Ok(v) => v,
        Err(e) => return Err(e),
    };
    proof {
        lemma_div_fits_of_values(cap, pi_sum, two);
    }
    let pi_mid = match cap.div_rat(&pi_sum, &two) {
        Ok(v) => v,
        Err(e) => return Err(e),
    };
    proof {
        lemma_div_fits_of_values(cap, pi_mid, two);
    }
    let half_pi_mid = match cap.div_rat(&pi_mid, &two) {
        Ok(v) => v,
        Err(e) => return Err(e),
    };
    proof {
        lemma_div_fits_of_values(cap, pi_mid, four);
    }
    let quarter_pi_mid = match cap.div_rat(&pi_mid, &four) {
        Ok(v) => v,
        Err(e) => return Err(e),
    };
    let pi_width = match cap.sub_rat(&pi.hi, &pi.lo) {
        Ok(v) => v,
        Err(e) => return Err(e),
    };
    proof {
        lemma_div_fits_of_values(cap, pi_width, two);
    }
    let pi_half_width = match cap.div_rat(&pi_width, &two) {
        Ok(v) => v,
        Err(e) => return Err(e),
    };
    proof {
        assert(pi_half_width.value() == w);
        assert(w >= 0 as real) by (nonlinear_arith)
            requires
                w == (pi.hi.value() - pi.lo.value()) / (2 as real),
                pi.lo.value() <= pi.hi.value(),
        ;
        assert(pi_mid.value() == pm);
        assert(half_pi_mid.value() == pm / (2 as real));
    }
    if !zero.le(x) {
        let neg_x = x.neg();
        proof {
            crate::exact::lemma_negation_lowest_terms(*x);
        }
        let (s, c) = match sin_cos_at_rational(&neg_x, cap, pi) {
            Ok(v) => v,
            Err(e) => return Err(e),
        };
        let neg_s = match cap.neg_interval(&s) {
            Ok(v) => v,
            Err(e) => return Err(e),
        };
        return cap.admitted_pair((neg_s, c));
    }
    if !x.le(&pi_mid) {
        let x_reduced = match cap.sub_rat(x, &pi_mid) {
            Ok(v) => v,
            Err(e) => return Err(e),
        };
        let (s, c) = match sin_cos_at_rational(&x_reduced, cap, pi) {
            Ok(v) => v,
            Err(e) => return Err(e),
        };
        let neg_s = match cap.neg_interval(&s) {
            Ok(v) => v,
            Err(e) => return Err(e),
        };
        let neg_c = match cap.neg_interval(&c) {
            Ok(v) => v,
            Err(e) => return Err(e),
        };
        let s_out = match cap.widen_interval(&neg_s, &pi_half_width) {
            Ok(v) => v,
            Err(e) => return Err(e),
        };
        let c_out = match cap.widen_interval(&neg_c, &pi_half_width) {
            Ok(v) => v,
            Err(e) => return Err(e),
        };
        return cap.admitted_pair((s_out, c_out));
    }
    if !x.le(&half_pi_mid) {
        let x_reduced = match cap.sub_rat(&pi_mid, x) {
            Ok(v) => v,
            Err(e) => return Err(e),
        };
        let (s, c) = match sin_cos_at_rational(&x_reduced, cap, pi) {
            Ok(v) => v,
            Err(e) => return Err(e),
        };
        let neg_c = match cap.neg_interval(&c) {
            Ok(v) => v,
            Err(e) => return Err(e),
        };
        let s_out = match cap.widen_interval(&s, &pi_half_width) {
            Ok(v) => v,
            Err(e) => return Err(e),
        };
        let c_out = match cap.widen_interval(&neg_c, &pi_half_width) {
            Ok(v) => v,
            Err(e) => return Err(e),
        };
        return cap.admitted_pair((s_out, c_out));
    }
    if !x.le(&quarter_pi_mid) {
        let x_reduced = match cap.sub_rat(&half_pi_mid, x) {
            Ok(v) => v,
            Err(e) => return Err(e),
        };
        let (s, c) = match sin_cos_at_rational(&x_reduced, cap, pi) {
            Ok(v) => v,
            Err(e) => return Err(e),
        };
        proof {
            lemma_div_fits_of_values(cap, pi_half_width, two);
        }
        let quarter_pi_half_width = match cap.div_rat(&pi_half_width, &two) {
            Ok(v) => v,
            Err(e) => return Err(e),
        };
        proof {
            assert(quarter_pi_half_width.value() >= 0 as real) by (nonlinear_arith)
                requires
                    quarter_pi_half_width.value() == w / (2 as real),
                    w >= 0 as real,
            ;
        }
        let s_out = match cap.widen_interval(&c, &quarter_pi_half_width) {
            Ok(v) => v,
            Err(e) => return Err(e),
        };
        let c_out = match cap.widen_interval(&s, &quarter_pi_half_width) {
            Ok(v) => v,
            Err(e) => return Err(e),
        };
        return cap.admitted_pair((s_out, c_out));
    }
    let threshold = cap.threshold_bits(200);
    let sin_v = match taylor_alternating_series(x, true, cap, threshold) {
        Ok(v) => v,
        Err(e) => return Err(e),
    };
    let cos_v = match taylor_alternating_series(x, false, cap, threshold) {
        Ok(v) => v,
        Err(e) => return Err(e),
    };
    cap.admitted_pair((sin_v, cos_v))
}

/// The number of whole periods `⌊x / τ_hi⌋` removed from `x`, with `τ_hi`
/// the upper end of the `τ` enclosure.
pub open spec fn period_count(x: real, tau_hi: real) -> int {
    (x / tau_hi).floor()
}

/// Whether the enclosures of `sin(x)` and `cos(x)` are defined under `cap`,
/// and their ends `(sin lo, sin hi, cos lo, cos hi)`.
///
/// `x` is reduced by `k = ⌊x / τ_hi⌋` periods against the `τ` enclosure
/// `[τ_lo, τ_hi] = 2·[π_lo, π_hi]`, giving an interval of reduced arguments;
/// its midpoint is evaluated by [`sin_cos_enclosure`] and both results are
/// widened by the interval's half-width (`sin` and `cos` are 1-Lipschitz).
/// The enclosure is undefined when the reduced interval is wider than
/// `τ_hi`.
pub open spec fn sin_cos_interval_enclosure(x: real, cap: TrigCap) -> (bool, real, real, real, real) {
    let limit = cap.spec_series_terms() as nat;
    let pi_lo = machin_lo(pi_threshold(cap), limit);
    let pi_hi = machin_hi(pi_threshold(cap), limit);
    let tau_lo = pi_lo * (2 as real);
    let tau_hi = pi_hi * (2 as real);
    let k = period_count(x, tau_hi);
    let red_lo = if k < 0 {
        x + (-k) as real * tau_lo
    } else {
        x - k as real * tau_hi
    };
    let red_hi = if k < 0 {
        x + (-k) as real * tau_hi
    } else {
        x - k as real * tau_lo
    };
    let width = red_hi - red_lo;
    let mid = (red_lo + red_hi) / (2 as real);
    let half_width = width / (2 as real);
    let e = sin_cos_enclosure(mid, pi_lo, pi_hi, cap);
    (
        machin_converges(cap) && width <= tau_hi && e.0,
        e.1 - half_width,
        e.2 + half_width,
        e.3 - half_width,
        e.4 + half_width,
    )
}

/// The ends of `x` reduced by `k = ⌊x / τ_hi⌋` periods against the `τ`
/// enclosure `[τ_lo, τ_hi]`.
pub open spec fn reduced_ends(x: real, tau_lo: real, tau_hi: real) -> (real, real) {
    let k = period_count(x, tau_hi);
    if k < 0 {
        (x + (-k) as real * tau_lo, x + (-k) as real * tau_hi)
    } else {
        (x - k as real * tau_hi, x - k as real * tau_lo)
    }
}

/// Every budget check of the period reduction fits: the quotient, its
/// floor, the two offsets and the two reduced ends.
pub open spec fn reduction_fits(cap: TrigCap, x: real, tau_lo: real, tau_hi: real) -> bool {
    let q = x / tau_hi;
    let k = period_count(x, tau_hi);
    &&& cap.div_fits_values(x, tau_hi)
    &&& floor_fits(cap, lowest_numer(q), lowest_denom(q))
    &&& (k < 0 ==> {
        &&& cap.mul_fits_values((-k) as real, tau_lo) && cap.mul_fits_values((-k) as real, tau_hi)
        &&& cap.addsub_fits_values(x, (-k) as real * tau_lo) && cap.addsub_fits_values(x, (-k) as real * tau_hi)
    })
    &&& (k >= 0 ==> {
        &&& cap.mul_fits_values(k as real, tau_hi) && cap.mul_fits_values(k as real, tau_lo)
        &&& cap.addsub_fits_values(x, k as real * tau_hi) && cap.addsub_fits_values(x, k as real * tau_lo)
    })
}

/// Removes `k = ⌊x / τ_hi⌋` whole periods from `x`, giving the interval of
/// reduced arguments against the `τ` enclosure.
#[verifier::spinoff_prover]
fn reduce_by_periods(cap: TrigCap, x: &ExactRational, pi2_lo: &ExactRational, pi2_hi: &ExactRational) -> (reduced: Result<
    (ExactRational, ExactRational),
    TrigError,
>)
    requires
        x.wf(),
        pi2_lo.wf(),
        pi2_hi.wf(),
        pi2_hi.value() > 0 as real,
    ensures
        reduced is Ok <==> reduction_fits(cap, x.value(), pi2_lo.value(), pi2_hi.value()),
        reduced matches Ok((lo, hi)) ==> lo.wf() && hi.wf() && (lo.value(), hi.value()) == reduced_ends(
            x.value(),
            pi2_lo.value(),
            pi2_hi.value(),
        ),
        reduced matches Err(e) ==> e == TrigError::BudgetExhausted,
{
    let ghost xv = x.value();
    let ghost tau_lo = pi2_lo.value();
    let ghost tau_hi = pi2_hi.value();
    proof {
        lemma_fits_values_all(cap);
        lemma_rational_parts(*pi2_hi);
    }
    proof {
        lemma_div_fits_of_values(cap, *x, *pi2_hi);
    }
    let x_over_tau = match cap.div_rat(x, &pi2_hi) {
        Ok(v) => v,
        Err(e) => return Err(e),
    };
    proof {
        lemma_parts_of_value(x_over_tau);
    }
    let k = match bigrat_floor(cap, &x_over_tau) {
        Ok(v) => v,
        Err(e) => return Err(e),
    };
    proof {
        lemma_floor_of_ratio(x_over_tau.spec_numer(), x_over_tau.spec_denom());
        assert(k@ == period_count(xv, tau_hi));
    }
    let zero = ExactInt::from_i64(0);
    let (x_red_lo, x_red_hi) = if !zero.le(&k) {
        let k_abs = ExactRational::from_integer(&zero.sub(&k));
        proof {
            crate::exact::lemma_integer_value(k_abs);
        }
        let lo_offset = match cap.mul_rat(&k_abs, &pi2_lo) {
            Ok(v) => v,
            Err(e) => return Err(e),
        };
        let hi_offset = match cap.mul_rat(&k_abs, &pi2_hi) {
            Ok(v) => v,
            Err(e) => return Err(e),
        };
        let lo = match cap.add_rat(x, &lo_offset) {
            Ok(v) => v,
            Err(e) => return Err(e),
        };
        let hi = match cap.add_rat(x, &hi_offset) {
            Ok(v) => v,
            Err(e) => return Err(e),
        };
        (lo, hi)
    } else {
        let k_rat = ExactRational::from_integer(&k);
        proof {
            crate::exact::lemma_integer_value(k_rat);
        }
        let lo_offset = match cap.mul_rat(&k_rat, &pi2_hi) {
            Ok(v) => v,
            Err(e) => return Err(e),
        };
        let hi_offset = match cap.mul_rat(&k_rat, &pi2_lo) {
            Ok(v) => v,
            Err(e) => return Err(e),
        };
        let lo = match cap.sub_rat(x, &lo_offset) {
            Ok(v) => v,
            Err(e) => return Err(e),
        };
        let hi = match cap.sub_rat(x, &hi_offset) {
            Ok(v) => v,
            Err(e) => return Err(e),
        };
        (lo, hi)
    };
    Ok((x_red_lo, x_red_hi))
}

/// Every budget check of the computation behind
/// [`sin_cos_interval_enclosure`] fits: the argument, the `π` enclosure and
/// its doubling, the period count, the reduced interval and its width
/// check, the evaluation at its midpoint and the final widenings.
pub open spec fn sin_cos_interval_fits(x: real, cap: TrigCap) -> bool {
    let limit = cap.spec_series_terms() as nat;
    let pi_lo = machin_lo(pi_threshold(cap), limit);
    let pi_hi = machin_hi(pi_threshold(cap), limit);
    let tau_lo = pi_lo * (2 as real);
    let tau_hi = pi_hi * (2 as real);
    let (red_lo, red_hi) = reduced_ends(x, tau_lo, tau_hi);
    let width = red_hi - red_lo;
    let mid = (red_lo + red_hi) / (2 as real);
    let hw = width / (2 as real);
    let e = sin_cos_enclosure(mid, pi_lo, pi_hi, cap);
    &&& cap.fits_value(x)
    &&& pi_fits(cap)
    &&& cap.int_fits(2)
    &&& cap.mul_fits_values(pi_lo, 2 as real) && cap.mul_fits_values(pi_hi, 2 as real)
    &&& reduction_fits(cap, x, tau_lo, tau_hi)
    &&& cap.addsub_fits_values(red_hi, red_lo)
    &&& width <= tau_hi
    &&& cap.addsub_fits_values(red_lo, red_hi)
    &&& cap.div_fits_values(red_lo + red_hi, 2 as real) && cap.div_fits_values(width, 2 as real)
    &&& sin_cos_fits(mid, pi_lo, pi_hi, cap)
    &&& cap.addsub_fits_values(e.1, hw) && cap.addsub_fits_values(e.2, hw)
    &&& cap.addsub_fits_values(e.3, hw) && cap.addsub_fits_values(e.4, hw)
    &&& cap.fits_value(e.1 - hw) && cap.fits_value(e.2 + hw)
    &&& cap.fits_value(e.3 - hw) && cap.fits_value(e.4 + hw)
}

proof fn lemma_floor_of_ratio(n: int, d: int)
    requires
        d > 0,
    ensures
        (n as real / d as real).floor() == n / d,
{
    vstd::arithmetic::div_mod::lemma_fundamental_div_mod(n, d);
    let f = n / d;
    let r = n % d;
    assert(n == d * f + r && 0 <= r < d);
    assert((f as real) <= (n as real) / (d as real) && (n as real) / (d as real) < ((f + 1) as real))
        by (nonlinear_arith)
        requires
            n == d * f + r,
            0 <= r < d,
            d > 0,
    ;
}

/// Reduces `x` modulo `2π` against the certified `π` enclosure and computes
/// certified enclosures of `sin(x)` and `cos(x)` (see
/// [`sin_cos_interval_enclosure`]).
///
/// Returns [`TrigError::BudgetExhausted`] when an intermediate value would
/// exceed the cap, a series does not converge, or the reduction is too
/// uncertain.
#[verifier::spinoff_prover]
#[verifier::rlimit(60)]
pub fn sin_cos_interval(x: &ExactRational, budget: CertificationBudget) -> (values: Result<
    (RatInterval, RatInterval),
    TrigError,
>)
    requires
        x.wf(),
    ensures
        values matches Ok(pair) ==> matches_sin_cos(
            pair,
            sin_cos_interval_enclosure(x.value(), TrigCap::spec_new(budget)),
        ) && TrigCap::spec_new(budget).fits_interval(pair.0) && TrigCap::spec_new(
            budget,
        ).fits_interval(pair.1),
        values matches Err(e) ==> e == TrigError::BudgetExhausted,
        values is Ok <==> sin_cos_interval_fits(x.value(), TrigCap::spec_new(budget)),
{
    let cap = TrigCap::new(budget);
    let ghost xv = x.value();
    proof {
        lemma_fits_values_all(cap);
    }
    match cap.admit_rat(x) {
        Ok(()) => {},
        Err(e) => return Err(e),
    }
    let pi = match pi_interval_cap(cap) {
        Ok(v) => v,
        Err(e) => return Err(e),
    };
    proof {
        machin_enclosure_bounds(cap);
    }
    let two = match cap.unsigned_rat(2) {
        Ok(v) => v,
        Err(e) => return Err(e),
    };
    proof {
        crate::exact::lemma_integer_value(two);
    }
    let pi2_lo = match cap.mul_rat(&pi.lo, &two) {
        Ok(v) => v,
        Err(e) => return Err(e),
    };
    let pi2_hi = match cap.mul_rat(&pi.hi, &two) {
        Ok(v) => v,
        Err(e) => return Err(e),
    };
    let ghost tau_lo = pi2_lo.value();
    let ghost tau_hi = pi2_hi.value();
    proof {
        lemma_rational_parts(pi2_hi);
        assert(tau_lo <= tau_hi && tau_hi > 0 as real) by (nonlinear_arith)
            requires
                tau_lo == pi.lo.value() * two.value(),
                tau_hi == pi.hi.value() * two.value(),
                two.value() == 2 as real,
                pi.lo.value() <= pi.hi.value(),
                pi.lo.value() >= 3 as real,
        ;
    }
    let (x_red_lo, x_red_hi) = match reduce_by_periods(cap, x, &pi2_lo, &pi2_hi) {
        Ok(v) => v,
        Err(e) => return Err(e),
    };
    let reduction_width = match cap.sub_rat(&x_red_hi, &x_red_lo) {
        Ok(v) => v,
        Err(e) => return Err(e),
    };
    if !reduction_width.le(&pi2_hi) {
        return Err(TrigError::BudgetExhausted);
    }
    proof {
        let kk = period_count(xv, tau_hi);
        assert(reduction_width.value() >= 0 as real) by (nonlinear_arith)
            requires
                kk < 0 ==> reduction_width.value() == (-kk) as real * tau_hi - (-kk) as real
                    * tau_lo,
                kk >= 0 ==> reduction_width.value() == kk as real * tau_hi - kk as real * tau_lo,
                tau_lo <= tau_hi,
        ;
    }
    let x_sum = match cap.add_rat(&x_red_lo, &x_red_hi) {
        Ok(v) => v,
        Err(e) => return Err(e),
    };
    proof {
        lemma_div_fits_of_values(cap, x_sum, two);
    }
    let x_mid = match cap.div_rat(&x_sum, &two) {
        Ok(v) => v,
        Err(e) => return Err(e),
    };
    proof {
        lemma_div_fits_of_values(cap, reduction_width, two);
    }
    let interval_half_width = match cap.div_rat(&reduction_width, &two) {
        Ok(v) => v,
        Err(e) => return Err(e),
    };
    proof {
        assert(interval_half_width.value() >= 0 as real) by (nonlinear_arith)
            requires
                interval_half_width.value() == reduction_width.value() / (2 as real),
                reduction_width.value() >= 0 as real,
        ;
        assert((pi.lo.value() + pi.hi.value()) / (2 as real) > 0 as real) by (nonlinear_arith)
            requires
                pi.lo.value() >= 3 as real,
                pi.hi.value() >= pi.lo.value(),
        ;
    }
    let (sin_mid, cos_mid) = match sin_cos_at_rational(&x_mid, cap, &pi) {
        Ok(v) => v,
        Err(e) => return Err(e),
    };
    let sin_result = match cap.widen_interval(&sin_mid, &interval_half_width) {
        Ok(v) => v,
        Err(e) => return Err(e),
    };
    let cos_result = match cap.widen_interval(&cos_mid, &interval_half_width) {
        Ok(v) => v,
        Err(e) => return Err(e),
    };
    cap.admitted_pair((sin_result, cos_result))
}

} // verus!
