//! Fixed-point scalar arithmetic.
//!
//! A scalar is an `i64` holding `SCALE` ticks per unit. Multiplication
//! and division truncate toward zero, the semantics of machine signed
//! division, and every executable operation is specified exactly by the
//! spec functions `tdiv`, `fmul_s` and `clamp_s`.

use vstd::prelude::*;

verus! {

/// Ticks per unit: six decimal digits of fraction.
pub const SCALE: i64 = 1_000_000;

/// Truncating (round-toward-zero) division; meaningful for `d > 0`.
pub open spec fn tdiv(a: int, d: int) -> int {
    if a >= 0 {
        a / d
    } else {
        -((-a) / d)
    }
}

/// Product of two fixed-point scalars, truncated back to the scale.
pub open spec fn fmul_s(a: int, b: int) -> int {
    tdiv(a * b, SCALE as int)
}

/// Clamp `v` into `[lo, hi]`.
pub open spec fn clamp_s(v: int, lo: int, hi: int) -> int {
    if v < lo {
        lo
    } else if v > hi {
        hi
    } else {
        v
    }
}

pub proof fn lemma_div_nonneg(a: int, d: int)
    requires
        0 <= a,
        1 <= d,
    ensures
        0 <= a / d <= a,
{
    vstd::arithmetic::div_mod::lemma_div_is_ordered(0, a, d);
    assert(0int / d == 0) by (nonlinear_arith)
        requires
            1 <= d,
    ;
    if a / d > a {
        vstd::arithmetic::div_mod::lemma_fundamental_div_mod(a, d);
        assert(a == d * (a / d) + a % d);
        assert(d * (a / d) > a ==> false) by (nonlinear_arith)
            requires
                1 <= d,
                0 <= a,
                a / d > a,
                a == d * (a / d) + a % d,
                0 <= a % d,
        ;
    }
}

/// Truncating division of a nonnegative value is nonnegative.
pub proof fn lemma_tdiv_nonneg(a: int, d: int)
    requires
        0 <= a,
        1 <= d,
    ensures
        0 <= tdiv(a, d) <= a,
{
    lemma_div_nonneg(a, d);
}

/// Magnitude bound for truncating division: a bound on the dividend
/// gives the divided bound on the quotient.
pub proof fn lemma_tdiv_bounds(a: int, m: int, d: int)
    requires
        1 <= d,
        0 <= m,
        -m <= a <= m,
    ensures
        -(m / d) <= tdiv(a, d) <= m / d,
{
    if a >= 0 {
        vstd::arithmetic::div_mod::lemma_div_is_ordered(a, m, d);
        lemma_div_nonneg(a, d);
        lemma_div_nonneg(m, d);
    } else {
        vstd::arithmetic::div_mod::lemma_div_is_ordered(-a, m, d);
        lemma_div_nonneg(-a, d);
        lemma_div_nonneg(m, d);
    }
}

/// Bound on a product from bounds on its factors.
pub proof fn lemma_mul_bounds(a: int, ba: int, b: int, bb: int)
    requires
        0 <= ba,
        0 <= bb,
        -ba <= a <= ba,
        -bb <= b <= bb,
    ensures
        -(ba * bb) <= a * b <= ba * bb,
{
    assert(-(ba * bb) <= a * b <= ba * bb) by (nonlinear_arith)
        requires
            0 <= ba,
            0 <= bb,
            -ba <= a <= ba,
            -bb <= b <= bb,
    ;
}

/// Bound on a fixed-point product from bounds on its factors.
pub proof fn lemma_fmul_bounds(a: int, ba: int, b: int, bb: int)
    requires
        0 <= ba,
        0 <= bb,
        -ba <= a <= ba,
        -bb <= b <= bb,
    ensures
        -(ba * bb) <= a * b <= ba * bb,
        -((ba * bb) / (SCALE as int)) <= fmul_s(a, b) <= (ba * bb) / (SCALE as int),
{
    lemma_mul_bounds(a, ba, b, bb);
    lemma_tdiv_bounds(a * b, ba * bb, SCALE as int);
}

/// Fixed-point multiply for moderate operands (up to three million units
/// in magnitude each).
pub fn fmul(a: i64, b: i64) -> (r: i64)
    requires
        -3_000_000_000_000 <= a <= 3_000_000_000_000,
        -3_000_000_000_000 <= b <= 3_000_000_000_000,
    ensures
        r == fmul_s(a as int, b as int),
{
    proof {
        lemma_fmul_bounds(a as int, 3_000_000_000_000, b as int, 3_000_000_000_000);
    }
    let p: i128 = (a as i128) * (b as i128);
    let q: i128 = p.checked_div(SCALE as i128).unwrap();
    q as i64
}

/// Fixed-point multiply of a wide first operand by a small second one.
pub fn fmul_wide(a: i64, b: i64) -> (r: i64)
    requires
        -10_000_000_000_000_000 <= a <= 10_000_000_000_000_000,
        -800_000_000 <= b <= 800_000_000,
    ensures
        r == fmul_s(a as int, b as int),
{
    proof {
        lemma_fmul_bounds(a as int, 10_000_000_000_000_000, b as int, 800_000_000);
    }
    let p: i128 = (a as i128) * (b as i128);
    let q: i128 = p.checked_div(SCALE as i128).unwrap();
    q as i64
}

/// Truncating division by a positive divisor.
pub fn fdiv(a: i64, d: i64) -> (r: i64)
    requires
        1 <= d,
    ensures
        r == tdiv(a as int, d as int),
{
    proof {
        lemma_tdiv_bounds(a as int, 9_223_372_036_854_775_808, d as int);
        lemma_div_nonneg(9_223_372_036_854_775_808, d as int);
    }
    a.checked_div(d).unwrap()
}

/// Clamp `v` into `[lo, hi]`.
pub fn clamp_fx(v: i64, lo: i64, hi: i64) -> (r: i64)
    requires
        lo <= hi,
    ensures
        r == clamp_s(v as int, lo as int, hi as int),
{
    if v < lo {
        lo
    } else if v > hi {
        hi
    } else {
        v
    }
}

} // verus!
