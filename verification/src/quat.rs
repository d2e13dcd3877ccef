//! Fixed-point vectors and quaternions.
//!
//! A rotation is a quaternion whose components are fixed-point scalars;
//! a well-formed one has every component within `[-SCALE, SCALE]`.
//! Composition is the Hamilton product in fixed point, and committed
//! rotations are renormalised with an integer square root so the
//! unit-magnitude invariant survives truncation.

use vstd::prelude::*;
use crate::fixed::{
    SCALE, tdiv, fmul_s, fmul, fdiv, lemma_tdiv_bounds, lemma_tdiv_nonneg, lemma_mul_bounds,
    lemma_fmul_bounds,
};
use crate::trig::{sin_fx, cos_fx, sin_cos};

verus! {

/// A 2-D fixed-point vector (pointer deltas).
#[derive(Clone, Copy, Debug, PartialEq, Eq, Structural)]
pub struct Vec2 {
    pub x: i64,
    pub y: i64,
}

/// A 3-D fixed-point vector.
#[derive(Clone, Copy, Debug, PartialEq, Eq, Structural)]
pub struct Vec3 {
    pub x: i64,
    pub y: i64,
    pub z: i64,
}

/// A rotation as a fixed-point quaternion.
#[derive(Clone, Copy, Debug, PartialEq, Eq, Structural)]
pub struct Quat {
    pub x: i64,
    pub y: i64,
    pub z: i64,
    pub w: i64,
}

/// Every component of `v` lies within `[-m, m]`.
pub open spec fn vec3_wf_bnd(v: Vec3, m: int) -> bool {
    &&& -m <= v.x <= m
    &&& -m <= v.y <= m
    &&& -m <= v.z <= m
}

/// Every component of `q` lies within `[-m, m]`.
pub open spec fn quat_wf_bnd(q: Quat, m: int) -> bool {
    &&& -m <= q.x <= m
    &&& -m <= q.y <= m
    &&& -m <= q.z <= m
    &&& -m <= q.w <= m
}

/// A well-formed (unit-magnitude, up to truncation) rotation.
pub open spec fn quat_wf(q: Quat) -> bool {
    quat_wf_bnd(q, SCALE as int)
}

/// The identity rotation.
pub open spec fn quat_identity() -> Quat {
    Quat { x: 0, y: 0, z: 0, w: SCALE }
}

/// x component of the Hamilton product, in fixed point.
pub open spec fn qmul_x(a: Quat, b: Quat) -> int {
    fmul_s(a.w as int, b.x as int) + fmul_s(a.x as int, b.w as int) + fmul_s(
        a.y as int,
        b.z as int,
    ) - fmul_s(a.z as int, b.y as int)
}

/// y component of the Hamilton product, in fixed point.
pub open spec fn qmul_y(a: Quat, b: Quat) -> int {
    fmul_s(a.w as int, b.y as int) - fmul_s(a.x as int, b.z as int) + fmul_s(
        a.y as int,
        b.w as int,
    ) + fmul_s(a.z as int, b.x as int)
}

/// z component of the Hamilton product, in fixed point.
pub open spec fn qmul_z(a: Quat, b: Quat) -> int {
    fmul_s(a.w as int, b.z as int) + fmul_s(a.x as int, b.y as int) - fmul_s(
        a.y as int,
        b.x as int,
    ) + fmul_s(a.z as int, b.w as int)
}

/// w component of the Hamilton product, in fixed point.
pub open spec fn qmul_w(a: Quat, b: Quat) -> int {
    fmul_s(a.w as int, b.w as int) - fmul_s(a.x as int, b.x as int) - fmul_s(
        a.y as int,
        b.y as int,
    ) - fmul_s(a.z as int, b.z as int)
}

/// The Hamilton product as a quaternion value.
pub open spec fn quat_mul_s(a: Quat, b: Quat) -> Quat {
    Quat {
        x: qmul_x(a, b) as i64,
        y: qmul_y(a, b) as i64,
        z: qmul_z(a, b) as i64,
        w: qmul_w(a, b) as i64,
    }
}

/// Hamilton product of two fixed-point quaternions.
pub fn quat_mul(a: &Quat, b: &Quat) -> (r: Quat)
    requires
        quat_wf_bnd(*a, 33_000_000),
        quat_wf(*b),
    ensures
        r == quat_mul_s(*a, *b),
        quat_wf_bnd(r, 132_000_000),
        quat_wf_bnd(*a, SCALE as int) ==> quat_wf_bnd(r, 4_000_000),
        quat_wf_bnd(*a, 4_000_000) ==> quat_wf_bnd(r, 16_000_000),
{
    let x1 = fmul(a.w, b.x);
    let x2 = fmul(a.x, b.w);
    let x3 = fmul(a.y, b.z);
    let x4 = fmul(a.z, b.y);
    let y1 = fmul(a.w, b.y);
    let y2 = fmul(a.x, b.z);
    let y3 = fmul(a.y, b.w);
    let y4 = fmul(a.z, b.x);
    let z1 = fmul(a.w, b.z);
    let z2 = fmul(a.x, b.y);
    let z3 = fmul(a.y, b.x);
    let z4 = fmul(a.z, b.w);
    let w1 = fmul(a.w, b.w);
    let w2 = fmul(a.x, b.x);
    let w3 = fmul(a.y, b.y);
    let w4 = fmul(a.z, b.z);
    proof {
        lemma_fmul_bounds(a.w as int, 33_000_000, b.x as int, 1_000_000);
        lemma_fmul_bounds(a.x as int, 33_000_000, b.w as int, 1_000_000);
        lemma_fmul_bounds(a.y as int, 33_000_000, b.z as int, 1_000_000);
        lemma_fmul_bounds(a.z as int, 33_000_000, b.y as int, 1_000_000);
        lemma_fmul_bounds(a.w as int, 33_000_000, b.y as int, 1_000_000);
        lemma_fmul_bounds(a.x as int, 33_000_000, b.z as int, 1_000_000);
        lemma_fmul_bounds(a.y as int, 33_000_000, b.w as int, 1_000_000);
        lemma_fmul_bounds(a.z as int, 33_000_000, b.x as int, 1_000_000);
        lemma_fmul_bounds(a.w as int, 33_000_000, b.z as int, 1_000_000);
        lemma_fmul_bounds(a.x as int, 33_000_000, b.y as int, 1_000_000);
        lemma_fmul_bounds(a.y as int, 33_000_000, b.x as int, 1_000_000);
        lemma_fmul_bounds(a.z as int, 33_000_000, b.w as int, 1_000_000);
        lemma_fmul_bounds(a.w as int, 33_000_000, b.w as int, 1_000_000);
        lemma_fmul_bounds(a.x as int, 33_000_000, b.x as int, 1_000_000);
        lemma_fmul_bounds(a.y as int, 33_000_000, b.y as int, 1_000_000);
        lemma_fmul_bounds(a.z as int, 33_000_000, b.z as int, 1_000_000);
    }
    let x = x1 + x2 + x3 - x4;
    let y = y1 - y2 + y3 + y4;
    let z = z1 + z2 - z3 + z4;
    let w = w1 - w2 - w3 - w4;
    proof {
        if quat_wf_bnd(*a, 4_000_000) {
            lemma_fmul_bounds(a.w as int, 4_000_000, b.x as int, 1_000_000);
            lemma_fmul_bounds(a.x as int, 4_000_000, b.w as int, 1_000_000);
            lemma_fmul_bounds(a.y as int, 4_000_000, b.z as int, 1_000_000);
            lemma_fmul_bounds(a.z as int, 4_000_000, b.y as int, 1_000_000);
            lemma_fmul_bounds(a.w as int, 4_000_000, b.y as int, 1_000_000);
            lemma_fmul_bounds(a.x as int, 4_000_000, b.z as int, 1_000_000);
            lemma_fmul_bounds(a.y as int, 4_000_000, b.w as int, 1_000_000);
            lemma_fmul_bounds(a.z as int, 4_000_000, b.x as int, 1_000_000);
            lemma_fmul_bounds(a.w as int, 4_000_000, b.z as int, 1_000_000);
            lemma_fmul_bounds(a.x as int, 4_000_000, b.y as int, 1_000_000);
            lemma_fmul_bounds(a.y as int, 4_000_000, b.x as int, 1_000_000);
            lemma_fmul_bounds(a.z as int, 4_000_000, b.w as int, 1_000_000);
            lemma_fmul_bounds(a.w as int, 4_000_000, b.w as int, 1_000_000);
            lemma_fmul_bounds(a.x as int, 4_000_000, b.x as int, 1_000_000);
            lemma_fmul_bounds(a.y as int, 4_000_000, b.y as int, 1_000_000);
            lemma_fmul_bounds(a.z as int, 4_000_000, b.z as int, 1_000_000);
        }
        if quat_wf_bnd(*a, SCALE as int) {
            lemma_fmul_bounds(a.w as int, 1_000_000, b.x as int, 1_000_000);
            lemma_fmul_bounds(a.x as int, 1_000_000, b.w as int, 1_000_000);
            lemma_fmul_bounds(a.y as int, 1_000_000, b.z as int, 1_000_000);
            lemma_fmul_bounds(a.z as int, 1_000_000, b.y as int, 1_000_000);
            lemma_fmul_bounds(a.w as int, 1_000_000, b.y as int, 1_000_000);
            lemma_fmul_bounds(a.x as int, 1_000_000, b.z as int, 1_000_000);
            lemma_fmul_bounds(a.y as int, 1_000_000, b.w as int, 1_000_000);
            lemma_fmul_bounds(a.z as int, 1_000_000, b.x as int, 1_000_000);
            lemma_fmul_bounds(a.w as int, 1_000_000, b.z as int, 1_000_000);
            lemma_fmul_bounds(a.x as int, 1_000_000, b.y as int, 1_000_000);
            lemma_fmul_bounds(a.y as int, 1_000_000, b.x as int, 1_000_000);
            lemma_fmul_bounds(a.z as int, 1_000_000, b.w as int, 1_000_000);
            lemma_fmul_bounds(a.w as int, 1_000_000, b.w as int, 1_000_000);
            lemma_fmul_bounds(a.x as int, 1_000_000, b.x as int, 1_000_000);
            lemma_fmul_bounds(a.y as int, 1_000_000, b.y as int, 1_000_000);
            lemma_fmul_bounds(a.z as int, 1_000_000, b.z as int, 1_000_000);
        }
    }
    Quat { x, y, z, w }
}

/// Floor of the square root of `n`.
pub open spec fn isqrt_s(n: nat) -> nat
    decreases n,
{
    if n == 0 {
        0
    } else {
        let r = isqrt_s((n - 1) as nat);
        if (r + 1) * (r + 1) <= n {
            r + 1
        } else {
            r
        }
    }
}

pub proof fn lemma_isqrt_s(n: nat)
    ensures
        isqrt_s(n) * isqrt_s(n) <= n < (isqrt_s(n) + 1) * (isqrt_s(n) + 1),
    decreases n,
{
    if n == 0 {
        assert(isqrt_s(0) == 0);
        assert(1nat * 1nat == 1nat) by (nonlinear_arith);
        assert(n < (isqrt_s(n) + 1) * (isqrt_s(n) + 1));
    } else {
        lemma_isqrt_s((n - 1) as nat);
        let r = isqrt_s((n - 1) as nat);
        let nm1: nat = (n - 1) as nat;
        assert(r * r <= nm1);
        assert(nm1 < (r + 1) * (r + 1));
        if (r + 1) * (r + 1) <= n {
            assert(isqrt_s(n) == r + 1);
            assert(n <= (r + 1) * (r + 1));
            assert((r + 1) * (r + 1) < (r + 2) * (r + 2)) by (nonlinear_arith);
            assert(n < (r + 2) * (r + 2));
            assert(isqrt_s(n) * isqrt_s(n) <= n);
            assert(n < (isqrt_s(n) + 1) * (isqrt_s(n) + 1));
        } else {
            assert(isqrt_s(n) == r);
            assert(r * r <= n);
            assert(n < (r + 1) * (r + 1));
            assert(isqrt_s(n) * isqrt_s(n) <= n);
            assert(n < (isqrt_s(n) + 1) * (isqrt_s(n) + 1));
        }
    }
}

/// Any value bracketed like a floor square root is the floor square root.
pub proof fn lemma_isqrt_unique(n: nat, r: nat)
    requires
        r * r <= n < (r + 1) * (r + 1),
    ensures
        r == isqrt_s(n),
{
    lemma_isqrt_s(n);
    let s = isqrt_s(n);
    if r < s {
        assert(false) by (nonlinear_arith)
            requires
                r < s,
                s * s <= n,
                n < (r + 1) * (r + 1),
        ;
    }
    if s < r {
        assert(false) by (nonlinear_arith)
            requires
                s < r,
                r * r <= n,
                n < (s + 1) * (s + 1),
        ;
    }
}

/// Integer square root by bisection.
pub fn isqrt(n: u64) -> (r: u64)
    requires
        n <= 5_000_000_000_000_000,
    ensures
        r == isqrt_s(n as nat),
        r < 80_000_000,
{
    let mut lo: u64 = 0;
    let mut hi: u64 = 80_000_000;
    proof {
        assert(5_000_000_000_000_000 < 80_000_000int * 80_000_000);
    }
    while lo + 1 < hi
        invariant
            lo < hi <= 80_000_000,
            (lo as int) * (lo as int) <= n,
            n < (hi as int) * (hi as int),
        decreases hi - lo,
    {
        let mid: u64 = lo + (hi - lo) / 2;
        proof {
            lemma_mul_bounds(mid as int, 80_000_000, mid as int, 80_000_000);
        }
        if mid * mid <= n {
            lo = mid;
        } else {
            hi = mid;
        }
    }
    proof {
        lemma_isqrt_unique(n as nat, lo as nat);
    }
    lo
}

/// Sum of the squared components of `q`.
pub open spec fn sumsq(q: Quat) -> int {
    (q.x as int) * (q.x as int) + (q.y as int) * (q.y as int) + (q.z as int) * (q.z as int) + (
    q.w as int) * (q.w as int)
}

/// The integer magnitude of `q` at fixed-point scale.
pub open spec fn qnorm(q: Quat) -> int {
    isqrt_s(sumsq(q) as nat) as int
}

/// `q` scaled to unit magnitude, by truncating division.
pub open spec fn qnormalize_s(q: Quat) -> Quat {
    Quat {
        x: tdiv(q.x as int * SCALE as int, qnorm(q)) as i64,
        y: tdiv(q.y as int * SCALE as int, qnorm(q)) as i64,
        z: tdiv(q.z as int * SCALE as int, qnorm(q)) as i64,
        w: tdiv(q.w as int * SCALE as int, qnorm(q)) as i64,
    }
}

/// Scale `q` to unit magnitude; `None` when every component truncated
/// to zero, so no direction is left to keep.
pub fn qnormalize(q: &Quat) -> (r: Option<Quat>)
    requires
        quat_wf_bnd(*q, 33_000_000),
    ensures
        match r {
            Option::None => sumsq(*q) == 0,
            Option::Some(u) => sumsq(*q) != 0 && u == qnormalize_s(*q) && quat_wf(u),
        },
{
    proof {
        lemma_mul_bounds(q.x as int, 33_000_000, q.x as int, 33_000_000);
        lemma_mul_bounds(q.y as int, 33_000_000, q.y as int, 33_000_000);
        lemma_mul_bounds(q.z as int, 33_000_000, q.z as int, 33_000_000);
        lemma_mul_bounds(q.w as int, 33_000_000, q.w as int, 33_000_000);
        assert((q.x as int) * (q.x as int) >= 0) by (nonlinear_arith);
        assert((q.y as int) * (q.y as int) >= 0) by (nonlinear_arith);
        assert((q.z as int) * (q.z as int) >= 0) by (nonlinear_arith);
        assert((q.w as int) * (q.w as int) >= 0) by (nonlinear_arith);
    }
    let xx: i64 = q.x * q.x;
    let yy: i64 = q.y * q.y;
    let zz: i64 = q.z * q.z;
    let ww: i64 = q.w * q.w;
    let s: i64 = xx + yy + zz + ww;
    if s == 0 {
        return Option::None;
    }
    let su: u64 = s as u64;
    let n: u64 = isqrt(su);
    proof {
        assert(su as nat == s as int);
        lemma_isqrt_s(su as nat);
        assert(1nat * 1nat == 1nat) by (nonlinear_arith);
        assert(n >= 1);
    }
    let ni: i64 = n as i64;
    proof {
        let si: int = s as int;
        let nn: int = n as int;
        assert(-nn <= q.x as int <= nn) by (nonlinear_arith)
            requires
                (q.x as int) * (q.x as int) <= si,
                si < (nn + 1) * (nn + 1),
                0 <= nn,
        ;
        assert(-nn <= q.y as int <= nn) by (nonlinear_arith)
            requires
                (q.y as int) * (q.y as int) <= si,
                si < (nn + 1) * (nn + 1),
                0 <= nn,
        ;
        assert(-nn <= q.z as int <= nn) by (nonlinear_arith)
            requires
                (q.z as int) * (q.z as int) <= si,
                si < (nn + 1) * (nn + 1),
                0 <= nn,
        ;
        assert(-nn <= q.w as int <= nn) by (nonlinear_arith)
            requires
                (q.w as int) * (q.w as int) <= si,
                si < (nn + 1) * (nn + 1),
                0 <= nn,
        ;
        lemma_tdiv_bounds(q.x as int * SCALE as int, n as int * SCALE as int, n as int);
        lemma_tdiv_bounds(q.y as int * SCALE as int, n as int * SCALE as int, n as int);
        lemma_tdiv_bounds(q.z as int * SCALE as int, n as int * SCALE as int, n as int);
        lemma_tdiv_bounds(q.w as int * SCALE as int, n as int * SCALE as int, n as int);
        vstd::arithmetic::div_mod::lemma_div_multiples_vanish(SCALE as int, n as int);
    }
    let rx: i64 = fdiv(q.x * SCALE, ni);
    let ry: i64 = fdiv(q.y * SCALE, ni);
    let rz: i64 = fdiv(q.z * SCALE, ni);
    let rw: i64 = fdiv(q.w * SCALE, ni);
    Option::Some(Quat { x: rx, y: ry, z: rz, w: rw })
}

/// The y component of the rotated world-up axis: the camera's
/// up-vector height.
pub open spec fn up_y_s(q: Quat) -> int {
    SCALE as int - 2 * (fmul_s(q.x as int, q.x as int) + fmul_s(q.z as int, q.z as int))
}

/// Height of the rotated world-up axis.
pub fn up_y(q: &Quat) -> (r: i64)
    requires
        quat_wf(*q),
    ensures
        r == up_y_s(*q),
        -3_000_000 <= r <= SCALE,
{
    let xx = fmul(q.x, q.x);
    let zz = fmul(q.z, q.z);
    proof {
        lemma_fmul_bounds(q.x as int, 1_000_000, q.x as int, 1_000_000);
        lemma_fmul_bounds(q.z as int, 1_000_000, q.z as int, 1_000_000);
        assert((q.x as int) * (q.x as int) >= 0) by (nonlinear_arith);
        assert((q.z as int) * (q.z as int) >= 0) by (nonlinear_arith);
        lemma_tdiv_nonneg(q.x as int * q.x as int, SCALE as int);
        lemma_tdiv_nonneg(q.z as int * q.z as int, SCALE as int);
    }
    SCALE - 2 * (xx + zz)
}

/// x component of the camera position at distance `r` behind the target.
pub open spec fn pos_x_s(q: Quat, r: int) -> int {
    fmul_s(2 * (fmul_s(q.x as int, q.z as int) + fmul_s(q.w as int, q.y as int)), r)
}

/// y component of the camera position.
pub open spec fn pos_y_s(q: Quat, r: int) -> int {
    fmul_s(2 * (fmul_s(q.y as int, q.z as int) - fmul_s(q.w as int, q.x as int)), r)
}

/// z component of the camera position.
pub open spec fn pos_z_s(q: Quat, r: int) -> int {
    fmul_s(
        SCALE as int - 2 * (fmul_s(q.x as int, q.x as int) + fmul_s(q.y as int, q.y as int)),
        r,
    )
}

/// The rotation matrix of `q` applied to `(0, 0, r)`: the camera
/// position relative to its target.
pub fn position_from(q: &Quat, radius: i64) -> (p: Vec3)
    requires
        quat_wf(*q),
        0 <= radius <= 500_000_000_000,
    ensures
        p.x == pos_x_s(*q, radius as int),
        p.y == pos_y_s(*q, radius as int),
        p.z == pos_z_s(*q, radius as int),
        vec3_wf_bnd(p, 2_000_000_000_000),
{
    let xz = fmul(q.x, q.z);
    let wy = fmul(q.w, q.y);
    let yz = fmul(q.y, q.z);
    let wx = fmul(q.w, q.x);
    let xx = fmul(q.x, q.x);
    let yy = fmul(q.y, q.y);
    proof {
        lemma_fmul_bounds(q.x as int, 1_000_000, q.z as int, 1_000_000);
        lemma_fmul_bounds(q.w as int, 1_000_000, q.y as int, 1_000_000);
        lemma_fmul_bounds(q.y as int, 1_000_000, q.z as int, 1_000_000);
        lemma_fmul_bounds(q.w as int, 1_000_000, q.x as int, 1_000_000);
        lemma_fmul_bounds(q.x as int, 1_000_000, q.x as int, 1_000_000);
        lemma_fmul_bounds(q.y as int, 1_000_000, q.y as int, 1_000_000);
        assert((q.x as int) * (q.x as int) >= 0) by (nonlinear_arith);
        assert((q.y as int) * (q.y as int) >= 0) by (nonlinear_arith);
        lemma_tdiv_nonneg(q.x as int * q.x as int, SCALE as int);
        lemma_tdiv_nonneg(q.y as int * q.y as int, SCALE as int);
    }
    let m02: i64 = 2 * (xz + wy);
    let m12: i64 = 2 * (yz - wx);
    let m22: i64 = SCALE - 2 * (xx + yy);
    proof {
        lemma_fmul_bounds(m02 as int, 4_000_000, radius as int, 500_000_000_000);
        lemma_fmul_bounds(m12 as int, 4_000_000, radius as int, 500_000_000_000);
        lemma_fmul_bounds(m22 as int, 4_000_000, radius as int, 500_000_000_000);
    }
    let px = fmul(m02, radius);
    let py = fmul(m12, radius);
    let pz = fmul(m22, radius);
    Vec3 { x: px, y: py, z: pz }
}

/// Component bounds of a Hamilton product, from bounds on its factors.
pub proof fn lemma_quat_mul_s_bnd(a: Quat, b: Quat, ba: int)
    requires
        0 <= ba <= 33_000_000,
        quat_wf_bnd(a, ba),
        quat_wf(b),
    ensures
        quat_wf_bnd(quat_mul_s(a, b), 4 * ba),
        quat_mul_s(a, b).x == qmul_x(a, b),
        quat_mul_s(a, b).y == qmul_y(a, b),
        quat_mul_s(a, b).z == qmul_z(a, b),
        quat_mul_s(a, b).w == qmul_w(a, b),
{
    lemma_fmul_bounds(a.w as int, ba, b.x as int, 1_000_000);
    lemma_fmul_bounds(a.x as int, ba, b.w as int, 1_000_000);
    lemma_fmul_bounds(a.y as int, ba, b.z as int, 1_000_000);
    lemma_fmul_bounds(a.z as int, ba, b.y as int, 1_000_000);
    lemma_fmul_bounds(a.w as int, ba, b.y as int, 1_000_000);
    lemma_fmul_bounds(a.x as int, ba, b.z as int, 1_000_000);
    lemma_fmul_bounds(a.y as int, ba, b.w as int, 1_000_000);
    lemma_fmul_bounds(a.z as int, ba, b.x as int, 1_000_000);
    lemma_fmul_bounds(a.w as int, ba, b.z as int, 1_000_000);
    lemma_fmul_bounds(a.x as int, ba, b.y as int, 1_000_000);
    lemma_fmul_bounds(a.y as int, ba, b.x as int, 1_000_000);
    lemma_fmul_bounds(a.z as int, ba, b.w as int, 1_000_000);
    lemma_fmul_bounds(a.w as int, ba, b.w as int, 1_000_000);
    lemma_fmul_bounds(a.x as int, ba, b.x as int, 1_000_000);
    lemma_fmul_bounds(a.y as int, ba, b.y as int, 1_000_000);
    lemma_fmul_bounds(a.z as int, ba, b.z as int, 1_000_000);
    vstd::arithmetic::mul::lemma_mul_is_commutative(ba, 1_000_000);
    vstd::arithmetic::div_mod::lemma_div_multiples_vanish(ba, 1_000_000);
}

/// A normalised quaternion is well formed.
pub proof fn lemma_qnormalize_wf(q: Quat)
    requires
        quat_wf_bnd(q, 33_000_000),
        sumsq(q) != 0,
    ensures
        1 <= qnorm(q),
        quat_wf(qnormalize_s(q)),
{
    lemma_mul_bounds(q.x as int, 33_000_000, q.x as int, 33_000_000);
    lemma_mul_bounds(q.y as int, 33_000_000, q.y as int, 33_000_000);
    lemma_mul_bounds(q.z as int, 33_000_000, q.z as int, 33_000_000);
    lemma_mul_bounds(q.w as int, 33_000_000, q.w as int, 33_000_000);
    assert((q.x as int) * (q.x as int) >= 0) by (nonlinear_arith);
    assert((q.y as int) * (q.y as int) >= 0) by (nonlinear_arith);
    assert((q.z as int) * (q.z as int) >= 0) by (nonlinear_arith);
    assert((q.w as int) * (q.w as int) >= 0) by (nonlinear_arith);
    let ss = sumsq(q);
    lemma_isqrt_s(ss as nat);
    assert(1nat * 1nat == 1nat) by (nonlinear_arith);
    let nn: int = qnorm(q);
    assert(1 <= nn);
    assert(-nn <= q.x as int <= nn) by (nonlinear_arith)
        requires
            (q.x as int) * (q.x as int) <= ss,
            ss < (nn + 1) * (nn + 1),
            0 <= nn,
    ;
    assert(-nn <= q.y as int <= nn) by (nonlinear_arith)
        requires
            (q.y as int) * (q.y as int) <= ss,
            ss < (nn + 1) * (nn + 1),
            0 <= nn,
    ;
    assert(-nn <= q.z as int <= nn) by (nonlinear_arith)
        requires
            (q.z as int) * (q.z as int) <= ss,
            ss < (nn + 1) * (nn + 1),
            0 <= nn,
    ;
    assert(-nn <= q.w as int <= nn) by (nonlinear_arith)
        requires
            (q.w as int) * (q.w as int) <= ss,
            ss < (nn + 1) * (nn + 1),
            0 <= nn,
    ;
    lemma_tdiv_bounds(q.x as int * SCALE as int, nn * SCALE as int, nn);
    lemma_tdiv_bounds(q.y as int * SCALE as int, nn * SCALE as int, nn);
    lemma_tdiv_bounds(q.z as int * SCALE as int, nn * SCALE as int, nn);
    lemma_tdiv_bounds(q.w as int * SCALE as int, nn * SCALE as int, nn);
    vstd::arithmetic::div_mod::lemma_div_multiples_vanish(SCALE as int, nn);
}

/// Component bounds of the derived camera position.
pub proof fn lemma_pos_bounds(q: Quat, r: int)
    requires
        quat_wf(q),
        0 <= r <= 500_000_000_000,
    ensures
        -2_000_000_000_000 <= pos_x_s(q, r) <= 2_000_000_000_000,
        -2_000_000_000_000 <= pos_y_s(q, r) <= 2_000_000_000_000,
        -2_000_000_000_000 <= pos_z_s(q, r) <= 2_000_000_000_000,
{
    lemma_fmul_bounds(q.x as int, 1_000_000, q.z as int, 1_000_000);
    lemma_fmul_bounds(q.w as int, 1_000_000, q.y as int, 1_000_000);
    lemma_fmul_bounds(q.y as int, 1_000_000, q.z as int, 1_000_000);
    lemma_fmul_bounds(q.w as int, 1_000_000, q.x as int, 1_000_000);
    lemma_fmul_bounds(q.x as int, 1_000_000, q.x as int, 1_000_000);
    lemma_fmul_bounds(q.y as int, 1_000_000, q.y as int, 1_000_000);
    assert((q.x as int) * (q.x as int) >= 0) by (nonlinear_arith);
    assert((q.y as int) * (q.y as int) >= 0) by (nonlinear_arith);
    lemma_tdiv_nonneg(q.x as int * q.x as int, SCALE as int);
    lemma_tdiv_nonneg(q.y as int * q.y as int, SCALE as int);
    lemma_fmul_bounds(
        2 * (fmul_s(q.x as int, q.z as int) + fmul_s(q.w as int, q.y as int)),
        4_000_000,
        r,
        500_000_000_000,
    );
    lemma_fmul_bounds(
        2 * (fmul_s(q.y as int, q.z as int) - fmul_s(q.w as int, q.x as int)),
        4_000_000,
        r,
        500_000_000_000,
    );
    lemma_fmul_bounds(
        SCALE as int - 2 * (fmul_s(q.x as int, q.x as int) + fmul_s(q.y as int, q.y as int)),
        4_000_000,
        r,
        500_000_000_000,
    );
}

/// Rotation about the world vertical axis by `angle`.
pub open spec fn yaw_quat_s(a: int) -> Quat {
    Quat { x: 0, y: sin_fx(tdiv(a, 2)) as i64, z: 0, w: cos_fx(tdiv(a, 2)) as i64 }
}

/// Rotation about the camera's local horizontal axis by `angle`.
pub open spec fn pitch_quat_s(a: int) -> Quat {
    Quat { x: sin_fx(tdiv(a, 2)) as i64, y: 0, z: 0, w: cos_fx(tdiv(a, 2)) as i64 }
}

/// Build the yaw rotation for `angle` fixed-point radians.
pub fn quat_from_yaw(angle: i64) -> (q: Quat)
    requires
        -1_000_000_000_000_000 <= angle <= 1_000_000_000_000_000,
    ensures
        q == yaw_quat_s(angle as int),
        quat_wf(q),
{
    let half = fdiv(angle, 2);
    proof {
        lemma_tdiv_bounds(angle as int, 1_000_000_000_000_000, 2);
    }
    let sc = sin_cos(half);
    Quat { x: 0, y: sc.0, z: 0, w: sc.1 }
}

/// Build the pitch rotation for `angle` fixed-point radians.
pub fn quat_from_pitch(angle: i64) -> (q: Quat)
    requires
        -1_000_000_000_000_000 <= angle <= 1_000_000_000_000_000,
    ensures
        q == pitch_quat_s(angle as int),
        quat_wf(q),
{
    let half = fdiv(angle, 2);
    proof {
        lemma_tdiv_bounds(angle as int, 1_000_000_000_000_000, 2);
    }
    let sc = sin_cos(half);
    Quat { x: sc.0, y: 0, z: 0, w: sc.1 }
}

} // verus!
