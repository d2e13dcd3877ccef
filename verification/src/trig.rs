//! Fixed-point sine and cosine.
//!
//! Angles are fixed-point radians. The result is the angle reduced into
//! `[-PI_FX, PI_FX]` by truncating division, fed through a degree-seven
//! Taylor polynomial, and clamped into `[-SCALE, SCALE]`; the spec
//! functions `sin_fx` and `cos_fx` state that value exactly.

use vstd::prelude::*;
use crate::fixed::{
    SCALE, tdiv, fmul_s, clamp_s, fmul, fdiv, clamp_fx, lemma_tdiv_bounds, lemma_fmul_bounds,
};

verus! {

/// One half turn, in fixed-point radians.
pub const PI_FX: i64 = 3_141_593;

/// One full turn: exactly twice `PI_FX`.
pub const TWO_PI_FX: i64 = 6_283_186;

/// The remainder `a - tdiv(a, d) * d` of truncating division has the
/// sign of `a` and magnitude below `d`.
pub proof fn lemma_tmod_range(a: int, d: int)
    requires
        1 <= d,
    ensures
        -(d - 1) <= a - tdiv(a, d) * d <= d - 1,
        a >= 0 ==> 0 <= a - tdiv(a, d) * d,
        a <= 0 ==> a - tdiv(a, d) * d <= 0,
{
    if a >= 0 {
        vstd::arithmetic::div_mod::lemma_fundamental_div_mod(a, d);
        vstd::arithmetic::div_mod::lemma_mod_bound(a, d);
        assert(a == d * (a / d) + a % d);
        assert(tdiv(a, d) == a / d);
        vstd::arithmetic::mul::lemma_mul_is_commutative(a / d, d);
        assert(tdiv(a, d) * d == d * (a / d));
        assert(a - tdiv(a, d) * d == a % d);
        if a == 0 {
            assert(0int / d == 0) by (nonlinear_arith)
                requires
                    1 <= d,
            ;
        }
    } else {
        vstd::arithmetic::div_mod::lemma_fundamental_div_mod(-a, d);
        vstd::arithmetic::div_mod::lemma_mod_bound(-a, d);
        assert(-a == d * ((-a) / d) + (-a) % d);
        assert(tdiv(a, d) == -((-a) / d));
        vstd::arithmetic::mul::lemma_mul_is_commutative((-a) / d, d);
        let q = (-a) / d;
        assert((-q) * d == -(q * d)) by (nonlinear_arith);
        assert(tdiv(a, d) * d == -(d * ((-a) / d)));
        assert(a - tdiv(a, d) * d == -((-a) % d));
    }
}

/// An angle folded into `[-PI_FX, PI_FX]`, preserving its phase.
pub open spec fn reduce_angle(a: int) -> int {
    let m = a - tdiv(a, TWO_PI_FX as int) * (TWO_PI_FX as int);
    if m > PI_FX as int {
        m - TWO_PI_FX as int
    } else if m < -(PI_FX as int) {
        m + TWO_PI_FX as int
    } else {
        m
    }
}

/// Degree-seven Taylor polynomial for sine, on a reduced angle.
pub open spec fn sin_poly(m: int) -> int {
    let m2 = fmul_s(m, m);
    let m3 = fmul_s(m2, m);
    let m4 = fmul_s(m2, m2);
    let m5 = fmul_s(m4, m);
    let m6 = fmul_s(m4, m2);
    let m7 = fmul_s(m6, m);
    m - tdiv(m3, 6) + tdiv(m5, 120) - tdiv(m7, 5040)
}

/// Degree-six Taylor polynomial for cosine, on a reduced angle.
pub open spec fn cos_poly(m: int) -> int {
    let m2 = fmul_s(m, m);
    let m4 = fmul_s(m2, m2);
    let m6 = fmul_s(m4, m2);
    SCALE as int - tdiv(m2, 2) + tdiv(m4, 24) - tdiv(m6, 720)
}

/// Fixed-point sine of a fixed-point angle.
pub open spec fn sin_fx(a: int) -> int {
    clamp_s(sin_poly(reduce_angle(a)), -(SCALE as int), SCALE as int)
}

/// Fixed-point cosine of a fixed-point angle.
pub open spec fn cos_fx(a: int) -> int {
    clamp_s(cos_poly(reduce_angle(a)), -(SCALE as int), SCALE as int)
}

/// Sine and cosine of a fixed-point angle, each within `[-SCALE, SCALE]`.
pub fn sin_cos(a: i64) -> (r: (i64, i64))
    requires
        -1_000_000_000_000_000 <= a <= 1_000_000_000_000_000,
    ensures
        r.0 == sin_fx(a as int),
        r.1 == cos_fx(a as int),
        -SCALE <= r.0 <= SCALE,
        -SCALE <= r.1 <= SCALE,
{
    let q: i64 = fdiv(a, TWO_PI_FX);
    proof {
        lemma_tdiv_bounds(a as int, 1_000_000_000_000_000, TWO_PI_FX as int);
        assert(1_000_000_000_000_000int / 6_283_186 <= 160_000_000);
        lemma_tmod_range(a as int, TWO_PI_FX as int);
    }
    let m0: i64 = a - q * TWO_PI_FX;
    let m: i64 = if m0 > PI_FX {
        m0 - TWO_PI_FX
    } else if m0 < -PI_FX {
        m0 + TWO_PI_FX
    } else {
        m0
    };
    assert(m == reduce_angle(a as int));
    assert(-3_141_593 <= m <= 3_141_593);
    let m2: i64 = fmul(m, m);
    proof {
        lemma_fmul_bounds(m as int, 3_141_593, m as int, 3_141_593);
        assert((3_141_593int * 3_141_593) / 1_000_000 <= 9_870_000);
    }
    let m3: i64 = fmul(m2, m);
    proof {
        lemma_fmul_bounds(m2 as int, 9_870_000, m as int, 3_141_593);
        assert((9_870_000int * 3_141_593) / 1_000_000 <= 31_010_000);
    }
    let m4: i64 = fmul(m2, m2);
    proof {
        lemma_fmul_bounds(m2 as int, 9_870_000, m2 as int, 9_870_000);
        assert((9_870_000int * 9_870_000) / 1_000_000 <= 97_420_000);
    }
    let m5: i64 = fmul(m4, m);
    proof {
        lemma_fmul_bounds(m4 as int, 97_420_000, m as int, 3_141_593);
        assert((97_420_000int * 3_141_593) / 1_000_000 <= 306_100_000);
    }
    let m6: i64 = fmul(m4, m2);
    proof {
        lemma_fmul_bounds(m4 as int, 97_420_000, m2 as int, 9_870_000);
        assert((97_420_000int * 9_870_000) / 1_000_000 <= 961_600_000);
    }
    let m7: i64 = fmul(m6, m);
    proof {
        lemma_fmul_bounds(m6 as int, 961_600_000, m as int, 3_141_593);
        assert((961_600_000int * 3_141_593) / 1_000_000 <= 3_021_200_000);
        lemma_tdiv_bounds(m3 as int, 31_010_000, 6);
        lemma_tdiv_bounds(m5 as int, 306_100_000, 120);
        lemma_tdiv_bounds(m7 as int, 3_021_200_000, 5040);
        lemma_tdiv_bounds(m2 as int, 9_870_000, 2);
        lemma_tdiv_bounds(m4 as int, 97_420_000, 24);
        lemma_tdiv_bounds(m6 as int, 961_600_000, 720);
    }
    let s_raw: i64 = m - fdiv(m3, 6) + fdiv(m5, 120) - fdiv(m7, 5040);
    let c_raw: i64 = SCALE - fdiv(m2, 2) + fdiv(m4, 24) - fdiv(m6, 720);
    let s: i64 = clamp_fx(s_raw, -SCALE, SCALE);
    let c: i64 = clamp_fx(c_raw, -SCALE, SCALE);
    (s, c)
}

} // verus!
