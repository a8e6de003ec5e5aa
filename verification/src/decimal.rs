//! A fixed-point ratio with 18 fractional decimal digits.
//!
//! Quorum and threshold requirements are ratios in `[0, 1]`. A `Decimal`
//! holds such a ratio as an integer count of 10^-18 units ("atomics"), so
//! every comparison the tally engine makes is exact integer arithmetic.

use vstd::prelude::*;

verus! {

/// Number of atomics in 1.0: one atomic is 10^-18.
pub const DECIMAL_FRACTIONAL: u128 = 1_000_000_000_000_000_000;

/// 2^64, used to split 128-bit operands for overflow-free products.
pub const TWO_POW_64: u128 = 0x1_0000_0000_0000_0000;

/// A decimal fraction stored as `atomics` units of 10^-18.
#[derive(Clone, Copy, Debug, PartialEq, Eq, Structural)]
pub struct Decimal {
    pub atomics: u128,
}

impl Decimal {
    /// The ratio 0.
    pub fn zero() -> (r: Decimal)
        ensures
            r.atomics == 0,
    {
        Decimal { atomics: 0 }
    }

    /// The ratio 1.
    pub fn one() -> (r: Decimal)
        ensures
            r.atomics == DECIMAL_FRACTIONAL,
    {
        Decimal { atomics: DECIMAL_FRACTIONAL }
    }

    /// The largest representable value of `numerator / denominator`, rounded
    /// down to an atomic: `floor(numerator * 10^18 / denominator)`.
    pub fn from_ratio(numerator: u128, denominator: u128) -> (r: Decimal)
        requires
            denominator != 0,
            numerator <= u128::MAX / DECIMAL_FRACTIONAL,
        ensures
            r.atomics == (numerator * DECIMAL_FRACTIONAL) / (denominator as int),
    {
        proof {
            lemma_mul_by_bounded_factor(numerator as int, DECIMAL_FRACTIONAL as int);
        }
        Decimal { atomics: (numerator * DECIMAL_FRACTIONAL) / denominator }
    }

    /// Whether the ratio is at most 1; quorum and threshold requirements
    /// must satisfy this.
    pub open spec fn is_le_one(self) -> bool {
        self.atomics <= DECIMAL_FRACTIONAL
    }
}

/// `n <= u128::MAX / f` keeps the product `n * f` within `u128` range.
proof fn lemma_mul_by_bounded_factor(n: int, f: int)
    requires
        0 < f,
        0 <= n <= u128::MAX as int / f,
    ensures
        n * f <= u128::MAX,
{
    assert(n * f <= (u128::MAX as int / f) * f) by (nonlinear_arith)
        requires
            0 < f,
            0 <= n <= u128::MAX as int / f,
    ;
    assert((u128::MAX as int / f) * f <= u128::MAX) by (nonlinear_arith)
        requires
            0 < f,
    ;
}

/// Splits the product `a * m` (with `m < 2^64`) into `r.0 * 2^64 + r.1`,
/// each half a `u128`, without overflow.
fn wide_mul(a: u128, m: u128) -> (r: (u128, u128))
    requires
        m < TWO_POW_64,
    ensures
        r.0 * TWO_POW_64 + r.1 == a * m,
        r.1 < TWO_POW_64,
{
    let a_hi = a / TWO_POW_64;
    let a_lo = a % TWO_POW_64;
    assert(a_hi < TWO_POW_64);
    assert(a_hi * m < TWO_POW_64 * TWO_POW_64 && a_lo * m < TWO_POW_64 * TWO_POW_64)
        by (nonlinear_arith)
        requires
            0 <= a_hi < TWO_POW_64,
            0 <= a_lo < TWO_POW_64,
            0 <= m < TWO_POW_64,
    ;
    assert(TWO_POW_64 * TWO_POW_64 - 1 == u128::MAX) by (nonlinear_arith);
    let p_hi = a_hi * m;
    let p_lo = a_lo * m;
    proof {
        assert((p_lo as int) / (TWO_POW_64 as int) + p_hi <= u128::MAX) by (nonlinear_arith)
            requires
                0 <= a_hi < TWO_POW_64,
                0 <= a_lo < TWO_POW_64,
                0 <= m < TWO_POW_64,
                p_hi == a_hi * m,
                p_lo == a_lo * m,
                TWO_POW_64 * TWO_POW_64 - 1 == u128::MAX,
        ;
    }
    let hi = p_hi + p_lo / TWO_POW_64;
    let lo = p_lo % TWO_POW_64;
    proof {
        assert(a == a_hi * TWO_POW_64 + a_lo);
        assert((a_hi * TWO_POW_64 + a_lo) * m == (a_hi * m) * TWO_POW_64 + a_lo * m)
            by (nonlinear_arith)
        ;
        assert(p_lo == (p_lo / TWO_POW_64) * TWO_POW_64 + p_lo % TWO_POW_64);
        assert((p_hi + p_lo / TWO_POW_64) * TWO_POW_64 + p_lo % TWO_POW_64
            == p_hi * TWO_POW_64 + ((p_lo / TWO_POW_64) * TWO_POW_64 + p_lo % TWO_POW_64))
            by (nonlinear_arith)
        ;
    }
    (hi, lo)
}

/// Decides `a * m >= b * n` (with `m, n < 2^64`) exactly, using split
/// products; no intermediate value can overflow.
fn wide_mul_ge(a: u128, m: u128, b: u128, n: u128) -> (r: bool)
    requires
        m < TWO_POW_64,
        n < TWO_POW_64,
    ensures
        r == (a * m >= b * n),
{
    let (x_hi, x_lo) = wide_mul(a, m);
    let (y_hi, y_lo) = wide_mul(b, n);
    proof {
        assert((x_hi > y_hi || (x_hi == y_hi && x_lo >= y_lo))
            == (x_hi * TWO_POW_64 + x_lo >= y_hi * TWO_POW_64 + y_lo)) by (nonlinear_arith)
            requires
                0 <= x_lo < TWO_POW_64,
                0 <= y_lo < TWO_POW_64,
                0 <= x_hi,
                0 <= y_hi,
        ;
    }
    x_hi > y_hi || (x_hi == y_hi && x_lo >= y_lo)
}

/// The ratio `num / den` — taken as 0 when `den == 0` — is at least a
/// requirement of `required_atomics` atomics. For a nonzero denominator
/// this is the exact cross-multiplied comparison, which no rounding
/// touches; and since requirements are whole atomics, it coincides with
/// comparing the requirement against `num * 10^18 / den` rounded down.
pub open spec fn spec_ratio_ge(num: int, den: int, required_atomics: int) -> bool {
    if den == 0 {
        required_atomics == 0
    } else {
        num * DECIMAL_FRACTIONAL >= required_atomics * den
    }
}

/// Decides `num / den >= required` exactly, where `required` is a ratio in
/// atomics of 10^-18: the comparison `num * 10^18 >= required * den` never
/// rounds, unlike materialising the quotient.
pub fn frac_ge(num: u128, den: u128, required: u128) -> (r: bool)
    requires
        den > 0,
        required <= DECIMAL_FRACTIONAL,
    ensures
        r == (num * DECIMAL_FRACTIONAL >= required * den),
{
    wide_mul_ge(num, DECIMAL_FRACTIONAL, den, required)
}

} // verus!
