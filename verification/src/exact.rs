//! Arbitrary-precision integers and rationals carried together with the
//! numbers they denote.
//!
//! [`ExactInt`] holds a `num_bigint::BigInt` and, as ghost state, the
//! mathematical integer it stands for; [`ExactRational`] holds a
//! `num_rational::BigRational` and, as ghost state, its numerator and
//! denominator in lowest terms. Values are only created and combined through
//! the trusted functions of this module, each of which makes one call into
//! `num-bigint` or `num-rational` and states what that call computes; the
//! ghost state is therefore always what the outside value holds. (Inside
//! those trusted functions the ghost state is not computed but stated: each
//! one's contract says what the ghost state of its result is.)
use num_bigint::BigInt;
use num_rational::Ratio;
use num_traits::ToPrimitive;
use crate::ieee::{decode_f64, f64_units, is_finite_bits};
use vstd::arithmetic::power2::{lemma_pow2_pos, lemma_pow2_strictly_increases, lemma_pow2_unfold, pow2};
use vstd::prelude::*;

verus! {

/// The number of binary digits of `n`: the least `k` with `n < 2^k`.
pub open spec fn bit_len(n: nat) -> nat
    decreases n,
{
    if n == 0 {
        0
    } else {
        1 + bit_len(n / 2)
    }
}

/// The absolute value of an integer.
pub open spec fn abs_int(x: int) -> nat {
    if x < 0 {
        (-x) as nat
    } else {
        x as nat
    }
}

/// A positive integer lies between the powers of two named by its bit length.
pub proof fn lemma_bit_len_bounds(n: nat)
    ensures
        n == 0 ==> bit_len(n) == 0,
        n > 0 ==> bit_len(n) >= 1 && pow2((bit_len(n) - 1) as nat) <= n < pow2(bit_len(n)),
    decreases n,
{
    if n > 0 {
        let h = n / 2;
        lemma_bit_len_bounds(h);
        lemma_pow2_unfold(bit_len(n));
        if h > 0 {
            lemma_pow2_unfold(bit_len(h));
        } else {
            assert(pow2(0) == 1) by {
                vstd::arithmetic::power2::lemma2_to64();
            }
        }
    }
}

/// The bit length is the exponent of the enclosing power-of-two range.
pub proof fn lemma_bit_len_unique(n: nat, b: nat)
    requires
        b >= 1,
        pow2((b - 1) as nat) <= n < pow2(b),
    ensures
        bit_len(n) == b,
{
    lemma_pow2_pos((b - 1) as nat);
    lemma_bit_len_bounds(n);
    let c = bit_len(n);
    if c < b {
        if c < b - 1 {
            lemma_pow2_strictly_increases(c, (b - 1) as nat);
        }
    } else if c > b {
        if c - 1 > b {
            lemma_pow2_strictly_increases(b, (c - 1) as nat);
        }
    }
}

/// The number of binary digits of a machine integer.
pub fn bit_length(value: u64) -> (bits: u64)
    ensures
        bits == bit_len(value as nat),
        bits <= 64,
{
    let mut rest = value;
    let mut count: u64 = 0;
    proof {
        vstd::arithmetic::power2::lemma2_to64();
    }
    while rest > 0
        invariant
            bit_len(value as nat) == count + bit_len(rest as nat),
            rest < pow2((64 - count) as nat),
            count <= 64,
        decreases rest,
    {
        proof {
            if count == 64 {
                vstd::arithmetic::power2::lemma2_to64();
            }
            vstd::arithmetic::power2::lemma_pow2_unfold((64 - count) as nat);
        }
        rest = rest / 2;
        count = count + 1;
    }
    count
}

/// The outside arbitrary-precision integer type.
#[verifier::external_type_specification]
#[verifier::external_body]
pub struct ExBigInt(BigInt);

/// An arbitrary-precision integer with its exact value as ghost state.
pub struct ExactInt {
    inner: BigInt,
    value: Ghost<int>,
}

impl View for ExactInt {
    type V = int;

    closed spec fn view(&self) -> int {
        self.value@
    }
}

impl ExactInt {
    /// Converts a machine integer (`BigInt::from`).
    #[verifier::external_body]
    pub(crate) fn from_i64(value: i64) -> (exact: Self)
        ensures
            exact@ == value as int,
    {
        ExactInt { inner: BigInt::from(value), value: Ghost(value as int) }
    }

    /// Converts a machine integer (`BigInt::from`).
    #[verifier::external_body]
    pub(crate) fn from_u64(value: u64) -> (exact: Self)
        ensures
            exact@ == value as int,
    {
        ExactInt { inner: BigInt::from(value), value: Ghost(value as int) }
    }

    /// Copies the integer (`BigInt::clone`).
    #[verifier::external_body]
    pub(crate) fn copy(&self) -> (copy: Self)
        ensures
            copy@ == self@,
    {
        ExactInt { inner: self.inner.clone(), value: Ghost(self.value@) }
    }

    /// Exact sum (`&BigInt + &BigInt`).
    #[verifier::external_body]
    pub(crate) fn add(&self, rhs: &Self) -> (sum: Self)
        ensures
            sum@ == self@ + rhs@,
    {
        ExactInt { inner: &self.inner + &rhs.inner, value: Ghost(self.value@ + rhs.value@) }
    }

    /// Exact difference (`&BigInt - &BigInt`).
    #[verifier::external_body]
    pub(crate) fn sub(&self, rhs: &Self) -> (difference: Self)
        ensures
            difference@ == self@ - rhs@,
    {
        ExactInt { inner: &self.inner - &rhs.inner, value: Ghost(self.value@ - rhs.value@) }
    }

    /// Exact product (`&BigInt * &BigInt`).
    #[verifier::external_body]
    pub(crate) fn mul(&self, rhs: &Self) -> (product: Self)
        ensures
            product@ == self@ * rhs@,
    {
        ExactInt { inner: &self.inner * &rhs.inner, value: Ghost(self.value@ * rhs.value@) }
    }

    /// Exact multiplication by `2^shift` (`&BigInt << usize`).
    #[verifier::external_body]
    pub(crate) fn shl(&self, shift: usize) -> (shifted: Self)
        ensures
            shifted@ == self@ * pow2(shift as nat),
    {
        ExactInt { inner: &self.inner << shift, value: Ghost(self.value@ * pow2(shift as nat)) }
    }

    /// The number of binary digits of the magnitude (`BigInt::bits`); zero
    /// for zero.
    #[verifier::external_body]
    pub(crate) fn bits(&self) -> (bits: u64)
        ensures
            bits == bit_len(abs_int(self@)),
    {
        self.inner.bits()
    }

    /// Exact division by `2^shift`, rounding toward negative infinity
    /// (`&BigInt >> usize`).
    #[verifier::external_body]
    pub(crate) fn shr(&self, shift: usize) -> (shifted: Self)
        ensures
            shifted@ == self@ / (pow2(shift as nat) as int),
    {
        ExactInt { inner: &self.inner >> shift, value: Ghost(self.value@ / (pow2(shift as nat) as int)) }
    }

    /// Converts to a machine integer when it fits (`ToPrimitive::to_u64`).
    #[verifier::external_body]
    pub(crate) fn to_u64(&self) -> (converted: Option<u64>)
        ensures
            converted == if 0 <= self@ <= u64::MAX {
                Some(self@ as u64)
            } else {
                None
            },
    {
        self.inner.to_u64()
    }

    /// The truncated principal square root of a non-negative integer
    /// (`BigInt::sqrt`).
    #[verifier::external_body]
    pub(crate) fn sqrt(&self) -> (root: Self)
        requires
            self@ >= 0,
        ensures
            root@ >= 0,
            root@ * root@ <= self@ < (root@ + 1) * (root@ + 1),
    {
        let root = self.inner.sqrt();
        ExactInt { inner: root, value: Ghost(arbitrary()) }
    }

    /// Quotient by a positive integer, truncated toward zero
    /// (`&BigInt / &BigInt`).
    #[verifier::external_body]
    pub(crate) fn div_trunc(&self, rhs: &Self) -> (quotient: Self)
        requires
            rhs@ > 0,
        ensures
            quotient@ == if self@ >= 0 {
                self@ / rhs@
            } else {
                -((-self@) / rhs@)
            },
    {
        ExactInt { inner: &self.inner / &rhs.inner, value: Ghost(arbitrary()) }
    }

    /// Order comparison (`BigInt: PartialOrd`).
    #[verifier::external_body]
    pub(crate) fn le(&self, rhs: &Self) -> (less_or_equal: bool)
        ensures
            less_or_equal == (self@ <= rhs@),
    {
        self.inner <= rhs.inner
    }
}

/// The exact value of a finite pattern in units of `2^-1074`.
pub(crate) fn exact_units(bits: u64) -> (exact: ExactInt)
    requires
        is_finite_bits(bits),
    ensures
        exact@ == f64_units(bits),
{
    let (mantissa, exponent) = decode_f64(bits);
    let shift = (exponent + 1074) as usize;
    ExactInt::from_i64(mantissa).shl(shift)
}

/// The outside rational type, a ratio of two values of `T`.
#[verifier::external_type_specification]
#[verifier::external_body]
#[verifier::reject_recursive_types(T)]
pub struct ExRatio<T>(Ratio<T>);

/// `k` divides `n`.
pub open spec fn divides(k: int, n: int) -> bool {
    n % k == 0
}

/// `numer / denom` is written in lowest terms with a positive denominator.
pub open spec fn lowest_terms(numer: int, denom: int) -> bool {
    &&& denom > 0
    &&& forall|k: int| k > 1 ==> !(#[trigger] divides(k, numer) && divides(k, denom))
}

/// An arbitrary-precision rational with its lowest-terms numerator and
/// denominator as ghost state.
pub struct ExactRational {
    inner: Ratio<BigInt>,
    numer: Ghost<int>,
    denom: Ghost<int>,
}

impl ExactRational {
    /// The numerator in lowest terms.
    pub closed spec fn spec_numer(self) -> int {
        self.numer@
    }

    /// The positive denominator in lowest terms.
    pub closed spec fn spec_denom(self) -> int {
        self.denom@
    }

    /// The stored outside ratio, whose numerator and denominator the
    /// constructors above set to `spec_numer()` and `spec_denom()`.
    pub closed spec fn spec_ratio(self) -> Ratio<BigInt> {
        self.inner
    }

    /// The numerator and denominator are in lowest terms.
    pub open spec fn wf(self) -> bool {
        lowest_terms(self.spec_numer(), self.spec_denom())
    }

    /// The rational number denoted.
    pub open spec fn value(self) -> real {
        self.spec_numer() as real / self.spec_denom() as real
    }

    /// Both rationals have the same numerator and denominator.
    pub open spec fn same(self, other: Self) -> bool {
        self.spec_numer() == other.spec_numer() && self.spec_denom() == other.spec_denom()
    }

    /// The rational with integer value `n` (`Ratio::from_integer`).
    #[verifier::external_body]
    pub(crate) fn from_integer(n: &ExactInt) -> (r: Self)
        ensures
            r.wf(),
            r.spec_numer() == n@,
            r.spec_denom() == 1,
    {
        ExactRational { inner: Ratio::from_integer(n.inner.clone()), numer: Ghost(n@), denom: Ghost(1) }
    }

    /// The reduced ratio `numer / denom` (`Ratio::new`).
    #[verifier::external_body]
    pub(crate) fn new(numer: &ExactInt, denom: &ExactInt) -> (r: Self)
        requires
            denom@ != 0,
        ensures
            r.wf(),
            r.value() == numer@ as real / denom@ as real,
    {
        let inner = Ratio::new(numer.inner.clone(), denom.inner.clone());
        ExactRational { inner, numer: Ghost(arbitrary()), denom: Ghost(arbitrary()) }
    }

    /// Copies the rational (`Ratio::clone`).
    #[verifier::external_body]
    pub(crate) fn copy(&self) -> (copy: Self)
        ensures
            copy.spec_numer() == self.spec_numer(),
            copy.spec_denom() == self.spec_denom(),
    {
        ExactRational { inner: self.inner.clone(), numer: Ghost(self.numer@), denom: Ghost(self.denom@) }
    }

    /// Exact sum (`&Ratio + &Ratio`), reduced.
    #[verifier::external_body]
    pub(crate) fn add(&self, rhs: &Self) -> (sum: Self)
        requires
            self.wf(),
            rhs.wf(),
        ensures
            sum.wf(),
            sum.value() == self.value() + rhs.value(),
    {
        ExactRational { inner: &self.inner + &rhs.inner, numer: Ghost(arbitrary()), denom: Ghost(arbitrary()) }
    }

    /// Exact difference (`&Ratio - &Ratio`), reduced.
    #[verifier::external_body]
    pub(crate) fn sub(&self, rhs: &Self) -> (difference: Self)
        requires
            self.wf(),
            rhs.wf(),
        ensures
            difference.wf(),
            difference.value() == self.value() - rhs.value(),
    {
        ExactRational { inner: &self.inner - &rhs.inner, numer: Ghost(arbitrary()), denom: Ghost(arbitrary()) }
    }

    /// Exact product (`&Ratio * &Ratio`), reduced.
    #[verifier::external_body]
    pub(crate) fn mul(&self, rhs: &Self) -> (product: Self)
        requires
            self.wf(),
            rhs.wf(),
        ensures
            product.wf(),
            product.value() == self.value() * rhs.value(),
    {
        ExactRational { inner: &self.inner * &rhs.inner, numer: Ghost(arbitrary()), denom: Ghost(arbitrary()) }
    }

    /// Exact quotient by a nonzero rational (`&Ratio / &Ratio`), reduced.
    #[verifier::external_body]
    pub(crate) fn div(&self, rhs: &Self) -> (quotient: Self)
        requires
            self.wf(),
            rhs.wf(),
            rhs.spec_numer() != 0,
        ensures
            quotient.wf(),
            quotient.value() == self.value() / rhs.value(),
    {
        ExactRational { inner: &self.inner / &rhs.inner, numer: Ghost(arbitrary()), denom: Ghost(arbitrary()) }
    }

    /// Exact negation (`-&Ratio`).
    #[verifier::external_body]
    pub(crate) fn neg(&self) -> (negated: Self)
        ensures
            negated.spec_numer() == -self.spec_numer(),
            negated.spec_denom() == self.spec_denom(),
    {
        ExactRational { inner: -&self.inner, numer: Ghost(-self.numer@), denom: Ghost(self.denom@) }
    }

    /// The numerator in lowest terms (`Ratio::numer`).
    #[verifier::external_body]
    pub(crate) fn numer(&self) -> (numer: ExactInt)
        ensures
            numer@ == self.spec_numer(),
    {
        ExactInt { inner: self.inner.numer().clone(), value: Ghost(self.numer@) }
    }

    /// The denominator in lowest terms (`Ratio::denom`).
    #[verifier::external_body]
    pub(crate) fn denom(&self) -> (denom: ExactInt)
        ensures
            denom@ == self.spec_denom(),
    {
        ExactInt { inner: self.inner.denom().clone(), value: Ghost(self.denom@) }
    }

    /// Order comparison (`Ratio: PartialOrd`).
    #[verifier::external_body]
    pub(crate) fn le(&self, rhs: &Self) -> (less_or_equal: bool)
        requires
            self.wf(),
            rhs.wf(),
        ensures
            less_or_equal == (self.value() <= rhs.value()),
    {
        self.inner <= rhs.inner
    }
}

impl ExactRational {
    /// The reduced rational `numer / denom`.
    pub fn from_ratio(numer: i64, denom: i64) -> (r: Self)
        requires
            denom != 0,
        ensures
            r.wf(),
            r.value() == numer as real / denom as real,
    {
        Self::new(&ExactInt::from_i64(numer), &ExactInt::from_i64(denom))
    }

    /// The underlying arbitrary-precision ratio, for conversions outside the
    /// exact algebra.
    pub fn as_ratio(&self) -> (ratio: &Ratio<BigInt>)
        ensures
            *ratio == self.spec_ratio(),
    {
        &self.inner
    }

    /// The rational with integer value `n`.
    pub fn from_int(n: i64) -> (r: Self)
        ensures
            r.wf(),
            r.spec_numer() == n as int,
            r.spec_denom() == 1,
            r.value() == n as real,
    {
        let r = Self::from_integer(&ExactInt::from_i64(n));
        proof {
            lemma_integer_value(r);
        }
        r
    }
}

/// A rational with denominator one denotes its numerator.
pub proof fn lemma_integer_value(r: ExactRational)
    requires
        r.spec_denom() == 1,
    ensures
        r.value() == r.spec_numer() as real,
{
    let n = r.spec_numer() as real;
    assert(n / (1 as real) == n) by (nonlinear_arith);
}

/// Negating the numerator keeps lowest terms and negates the value.
pub proof fn lemma_negation_lowest_terms(r: ExactRational)
    requires
        r.wf(),
    ensures
        lowest_terms(-r.spec_numer(), r.spec_denom()),
        (-r.spec_numer()) as real / r.spec_denom() as real == -r.value(),
{
    assert forall|k: int| k > 1 implies !(#[trigger] divides(k, -r.spec_numer()) && divides(
        k,
        r.spec_denom(),
    )) by {
        if divides(k, -r.spec_numer()) {
            let n = r.spec_numer();
            let q = (-n) / k;
            vstd::arithmetic::div_mod::lemma_fundamental_div_mod(-n, k);
            assert(n == (-q) * k) by (nonlinear_arith)
                requires
                    -n == k * q + 0,
            ;
            vstd::arithmetic::div_mod::lemma_mod_multiples_basic(-q, k);
            assert(divides(k, n));
        }
    }
    let n = r.spec_numer() as real;
    let d = r.spec_denom() as real;
    assert((-r.spec_numer()) as real == -n);
    assert((-n) / d == -(n / d)) by (nonlinear_arith)
        requires
            d > 0 as real,
    ;
}

impl ExactRational {
    /// Whether this rational is at most `other`.
    pub fn at_most(&self, other: &Self) -> (less_or_equal: bool)
        requires
            self.wf(),
            other.wf(),
        ensures
            less_or_equal == (self.value() <= other.value()),
    {
        self.le(other)
    }
}

impl Clone for ExactRational {
    fn clone(&self) -> (copy: Self)
        ensures
            copy.same(*self),
    {
        self.copy()
    }
}

impl PartialEq for ExactRational {
    fn eq(&self, other: &Self) -> (equal: bool) {
        self.numer().le(&other.numer()) && other.numer().le(&self.numer()) && self.denom().le(
            &other.denom(),
        ) && other.denom().le(&self.denom())
    }
}

impl vstd::std_specs::cmp::PartialEqSpecImpl for ExactRational {
    open spec fn obeys_eq_spec() -> bool {
        true
    }

    open spec fn eq_spec(&self, other: &Self) -> bool {
        self.spec_numer() == other.spec_numer() && self.spec_denom() == other.spec_denom()
    }
}

/// `k` divides `n` exactly when `n` is `k` times the quotient.
proof fn lemma_divides_witness(k: int, n: int)
    requires
        k > 0,
    ensures
        divides(k, n) <==> n == k * (n / k),
{
    vstd::arithmetic::div_mod::lemma_fundamental_div_mod(n, k);
    if n == k * (n / k) {
        lemma_multiple_divides(k, n, n / k);
    }
}

/// A multiple of `k` is divisible by `k`.
proof fn lemma_multiple_divides(k: int, n: int, q: int)
    requires
        k > 0,
        n == k * q,
    ensures
        divides(k, n),
{
    vstd::arithmetic::div_mod::lemma_mod_multiples_basic(q, k);
    vstd::arithmetic::mul::lemma_mul_is_commutative(q, k);
}

/// A denominator in lowest terms with `n` that divides `n * e` divides `e`.
proof fn lemma_coprime_cancel(n: int, d: int, e: int)
    requires
        lowest_terms(n, d),
        e > 0,
        divides(d, n * e),
    ensures
        divides(d, e),
    decreases e,
{
    lemma_divides_witness(d, n * e);
    let m = (n * e) / d;
    if e >= d {
        assert(n * (e - d) == d * (m - n)) by (nonlinear_arith)
            requires
                n * e == d * m,
        ;
        lemma_multiple_divides(d, n * (e - d), m - n);
        if e - d > 0 {
            lemma_coprime_cancel(n, d, e - d);
            lemma_divides_witness(d, e - d);
            assert(e == d * ((e - d) / d + 1)) by (nonlinear_arith)
                requires
                    e - d == d * ((e - d) / d),
            ;
            lemma_multiple_divides(d, e, (e - d) / d + 1);
        } else {
            lemma_multiple_divides(d, e, 1);
        }
    } else {
        let q = d / e;
        let s = d % e;
        vstd::arithmetic::div_mod::lemma_fundamental_div_mod(d, e);
        assert(0 <= s < e);
        if s > 0 {
            assert(n * s == d * (n - q * m)) by (nonlinear_arith)
                requires
                    d == e * q + s,
                    n * e == d * m,
            ;
            lemma_multiple_divides(d, n * s, n - q * m);
            lemma_coprime_cancel(n, d, s);
            lemma_divides_witness(d, s);
            assert(false) by (nonlinear_arith)
                requires
                    s == d * (s / d),
                    0 < s < e,
                    e < d,
            ;
        } else {
            assert(q > 1) by (nonlinear_arith)
                requires
                    d == e * q,
                    0 < e < d,
            ;
            assert(n == q * m) by (nonlinear_arith)
                requires
                    d == e * q,
                    n * e == d * m,
                    e > 0,
            ;
            lemma_multiple_divides(q, n, m);
            assert(d == q * e) by (nonlinear_arith)
                requires
                    d == e * q,
            ;
            lemma_multiple_divides(q, d, e);
            assert(divides(q, n) && divides(q, d));
            assert(false);
        }
    }
}

/// Lowest terms are unique: two lowest-terms forms of one value agree.
pub proof fn lemma_lowest_terms_unique(n1: int, d1: int, n2: int, d2: int)
    requires
        lowest_terms(n1, d1),
        lowest_terms(n2, d2),
        n1 as real / d1 as real == n2 as real / d2 as real,
    ensures
        n1 == n2,
        d1 == d2,
{
    let (rn1, rd1, rn2, rd2) = (n1 as real, d1 as real, n2 as real, d2 as real);
    assert(rn1 * rd2 == rn2 * rd1) by (nonlinear_arith)
        requires
            rd1 > 0 as real,
            rd2 > 0 as real,
            rn1 / rd1 == rn2 / rd2,
    ;
    assert(n1 * d2 == n2 * d1) by (nonlinear_arith)
        requires
            rn1 * rd2 == rn2 * rd1,
            rn1 == n1 as real,
            rn2 == n2 as real,
            rd1 == d1 as real,
            rd2 == d2 as real,
    ;
    assert(n1 * d2 == d1 * n2 && n2 * d1 == d2 * n1) by (nonlinear_arith)
        requires
            n1 * d2 == n2 * d1,
    ;
    lemma_multiple_divides(d1, n1 * d2, n2);
    lemma_coprime_cancel(n1, d1, d2);
    lemma_multiple_divides(d2, n2 * d1, n1);
    lemma_coprime_cancel(n2, d2, d1);
    lemma_divides_witness(d1, d2);
    lemma_divides_witness(d2, d1);
    assert(d1 == d2) by (nonlinear_arith)
        requires
            d2 == d1 * (d2 / d1),
            d1 == d2 * (d1 / d2),
            d1 > 0,
            d2 > 0,
    ;
    assert(n1 == n2) by (nonlinear_arith)
        requires
            n1 * d2 == n2 * d1,
            d1 == d2,
            d1 > 0,
    ;
}

/// The lowest-terms numerator of a rational value.
pub open spec fn lowest_numer(v: real) -> int {
    (choose|n: int, d: int| #[trigger] lowest_terms(n, d) && n as real / d as real == v).0
}

/// The positive lowest-terms denominator of a rational value.
pub open spec fn lowest_denom(v: real) -> int {
    (choose|n: int, d: int| #[trigger] lowest_terms(n, d) && n as real / d as real == v).1
}

/// A well-formed rational carries the lowest-terms parts of its value.
pub proof fn lemma_parts_of_value(r: ExactRational)
    requires
        r.wf(),
    ensures
        r.spec_numer() == lowest_numer(r.value()),
        r.spec_denom() == lowest_denom(r.value()),
{
    let v = r.value();
    assert(lowest_terms(r.spec_numer(), r.spec_denom()) && r.spec_numer() as real
        / r.spec_denom() as real == v);
    let (n, d) = choose|n: int, d: int| #[trigger]
        lowest_terms(n, d) && n as real / d as real == v;
    lemma_lowest_terms_unique(n, d, r.spec_numer(), r.spec_denom());
}

/// A well-formed rational is zero exactly when its numerator is.
pub proof fn lemma_zero_value(r: ExactRational)
    requires
        r.wf(),
    ensures
        r.value() == 0 as real <==> r.spec_numer() == 0,
{
    let n = r.spec_numer() as real;
    let d = r.spec_denom() as real;
    assert(n / d == 0 as real <==> n == 0 as real) by (nonlinear_arith)
        requires
            d > 0 as real,
    ;
}

} // verus!
