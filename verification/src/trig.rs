//! Fixed-point sine and cosine.
//!
//! Angles are fixed-point radians.  An angle is reduced modulo one
//! turn, split into a quadrant and a phase below a quarter turn, and
//! the phase is evaluated by Taylor polynomials carried at 2^30
//! fractional bits before the result is rounded back to the working
//! scale and clamped to one unit.  The period is the fixed-point
//! constant `FX_TWO_PI`, the nearest representable value to 2*pi.

use vstd::prelude::*;
use crate::fixed::{
    fx_clamp, lemma_tdiv_prod_bound, lemma_tdiv_mono, spec_clamp, tdiv, tdiv_by,
    FX_ONE,
};
use vstd::arithmetic::div_mod::{
    lemma_fundamental_div_mod, lemma_fundamental_div_mod_converse,
};

verus! {

/// One full turn, 2*pi, in fixed-point radians.
pub const FX_TWO_PI: i64 = 411775;

/// A quarter turn, pi/2, in fixed-point radians.
pub const FX_HALF_PI: i64 = 102944;

/// Pi in fixed-point radians.
pub const FX_PI: i64 = 205887;

/// The internal polynomial scale: 2^30 fractional bits.
pub const Q30: i64 = 0x4000_0000;

/// The factor between the working scale and the internal scale: 2^14.
pub const Q30_STEP: i64 = 16384;

/// Product of two internal-scale values, rounding toward zero.
pub open spec fn spec_mul_q30(a: int, b: int) -> int {
    tdiv(a * b, Q30 as int)
}

/// The sine Taylor polynomial on a phase in `[0, pi/2)`, internal scale.
pub open spec fn spec_sin_poly(t: int) -> int {
    let t2 = spec_mul_q30(t, t);
    let t3 = spec_mul_q30(t2, t);
    let t5 = spec_mul_q30(t3, t2);
    let t7 = spec_mul_q30(t5, t2);
    let t9 = spec_mul_q30(t7, t2);
    t - tdiv(t3, 6) + tdiv(t5, 120) - tdiv(t7, 5040) + tdiv(t9, 362880)
}

/// The cosine Taylor polynomial on a phase in `[0, pi/2)`, internal scale.
pub open spec fn spec_cos_poly(t: int) -> int {
    let t2 = spec_mul_q30(t, t);
    let t4 = spec_mul_q30(t2, t2);
    let t6 = spec_mul_q30(t4, t2);
    let t8 = spec_mul_q30(t4, t4);
    let t10 = spec_mul_q30(t8, t2);
    (Q30 as int) - tdiv(t2, 2) + tdiv(t4, 24) - tdiv(t6, 720) + tdiv(t8, 40320)
        - tdiv(t10, 3628800)
}

/// Sine and cosine of a fixed-point angle at the internal scale, by
/// reduction to a quadrant and a phase, each clamped to one internal
/// unit.
pub open spec fn spec_sin_cos_q30(a: int) -> (int, int) {
    let a0 = a % (FX_TWO_PI as int);
    let q = a0 / (FX_HALF_PI as int);
    let t = (a0 % (FX_HALF_PI as int)) * (Q30_STEP as int);
    let s = spec_sin_poly(t);
    let c = spec_cos_poly(t);
    let sc: (int, int) = if q == 0 {
        (s, c)
    } else if q == 1 {
        (c, -s)
    } else if q == 2 {
        (-s, -c)
    } else {
        (-c, s)
    };
    (
        spec_clamp(sc.0, -(Q30 as int), Q30 as int),
        spec_clamp(sc.1, -(Q30 as int), Q30 as int),
    )
}

/// Sine and cosine of a fixed-point angle: the internal-scale pair
/// rounded to the working scale and clamped to one unit.
pub open spec fn spec_sin_cos(a: int) -> (int, int) {
    (
        spec_clamp(
            tdiv(spec_sin_cos_q30(a).0, Q30_STEP as int),
            -(FX_ONE as int), FX_ONE as int),
        spec_clamp(
            tdiv(spec_sin_cos_q30(a).1, Q30_STEP as int),
            -(FX_ONE as int), FX_ONE as int),
    )
}

/// The sine of a fixed-point angle.
pub open spec fn spec_sin_fx(a: int) -> int {
    spec_sin_cos(a).0
}

/// The cosine of a fixed-point angle.
pub open spec fn spec_cos_fx(a: int) -> int {
    spec_sin_cos(a).1
}

/// At angle zero the pair is exactly (0, one unit).
pub proof fn lemma_sin_cos_zero()
    ensures
        spec_sin_fx(0) == 0,
        spec_cos_fx(0) == FX_ONE as int,
{
    assert(0int % (FX_TWO_PI as int) == 0);
    assert(spec_mul_q30(0, 0) == 0);
    assert(spec_sin_poly(0) == 0);
    assert(spec_cos_poly(0) == Q30 as int);
    assert(tdiv(Q30 as int, Q30_STEP as int) == FX_ONE as int);
}

/// Product of two internal-scale values, rounding toward zero.
fn mul_q30(a: i64, b: i64) -> (r: i64)
    requires
        -0x20_0000_0000 <= a <= 0x20_0000_0000,
        -0x20_0000_0000 <= b <= 0x20_0000_0000,
    ensures
        r == spec_mul_q30(a as int, b as int),
        0 <= a && 0 <= b ==> 0 <= r,
{
    proof {
        lemma_tdiv_prod_bound(a as int, b as int, 0x20_0000_0000, 0x20_0000_0000, Q30 as int);
        if 0 <= a && 0 <= b {
            assert(0 <= a * b) by (nonlinear_arith)
                requires
                    0 <= a as int && 0 <= b as int,
            ;
            lemma_tdiv_mono(0, a * b, Q30 as int);
        }
    }
    let p: i128 = (a as i128) * (b as i128);
    let q: i128 = p.checked_div(0x4000_0000).unwrap();
    q as i64
}

/// The remainder of an angle modulo one turn, in `[0, FX_TWO_PI)`:
/// the Euclidean remainder, assembled from machine remainders.
fn reduce_turn(a: i64) -> (r: i64)
    requires
        -0x4000_0000_0000_0000 <= a <= 0x4000_0000_0000_0000,
    ensures
        r == (a as int) % (FX_TWO_PI as int),
{
    let d: i64 = FX_TWO_PI;
    if a >= 0 {
        a % d
    } else {
        let m: i64 = -a;
        let mr: i64 = m % d;
        proof {
            let di = d as int;
            let mi = m as int;
            lemma_fundamental_div_mod(mi, di);
            if mi % di == 0 {
                lemma_fundamental_div_mod_converse(a as int, di, -(mi / di), 0);
            } else {
                lemma_fundamental_div_mod_converse(
                    a as int, di, -(mi / di) - 1, di - mi % di);
            }
        }
        if mr == 0 {
            0
        } else {
            d - mr
        }
    }
}

/// Sine and cosine of a fixed-point angle at the internal scale, each
/// within one internal unit of magnitude.
pub fn sin_cos_q30(a: i64) -> (r: (i64, i64))
    requires
        -0x4000_0000_0000_0000 <= a <= 0x4000_0000_0000_0000,
    ensures
        r.0 == spec_sin_cos_q30(a as int).0,
        r.1 == spec_sin_cos_q30(a as int).1,
        -(Q30 as int) <= r.0 <= Q30 as int,
        -(Q30 as int) <= r.1 <= Q30 as int,
{
    let a0: i64 = reduce_turn(a);
    let q: i64 = a0 / FX_HALF_PI;
    let t16: i64 = a0 % FX_HALF_PI;
    let t: i64 = t16 * Q30_STEP;
    proof {
        assert(t16 as int == (a0 as int) % (FX_HALF_PI as int));
        assert(t as int <= 0x20_0000_0000);
    }
    let t2 = mul_q30(t, t);
    proof {
        lemma_tdiv_prod_bound(t as int, t as int, 0x6500_0000, 0x6500_0000, Q30 as int);
    }
    let t3 = mul_q30(t2, t);
    let t4 = mul_q30(t2, t2);
    proof {
        lemma_tdiv_prod_bound(t2 as int, t as int, 0xA000_0000, 0x6500_0000, Q30 as int);
        lemma_tdiv_prod_bound(t2 as int, t2 as int, 0xA000_0000, 0xA000_0000, Q30 as int);
    }
    let t5 = mul_q30(t3, t2);
    let t6 = mul_q30(t4, t2);
    let t8 = mul_q30(t4, t4);
    proof {
        lemma_tdiv_prod_bound(t3 as int, t2 as int, 0x1_0000_0000, 0xA000_0000, Q30 as int);
        lemma_tdiv_prod_bound(t4 as int, t2 as int, 0x2_0000_0000, 0xA000_0000, Q30 as int);
        lemma_tdiv_prod_bound(t4 as int, t4 as int, 0x2_0000_0000, 0x2_0000_0000, Q30 as int);
    }
    let t7 = mul_q30(t5, t2);
    proof {
        lemma_tdiv_prod_bound(t5 as int, t2 as int, 0x3_0000_0000, 0xA000_0000, Q30 as int);
    }
    let t9 = mul_q30(t7, t2);
    let t10 = mul_q30(t8, t2);
    proof {
        lemma_tdiv_prod_bound(t7 as int, t2 as int, 0x8_0000_0000, 0xA000_0000, Q30 as int);
        lemma_tdiv_prod_bound(t8 as int, t2 as int, 0x10_0000_0000, 0xA000_0000, Q30 as int);
    }
    let s: i64 = t - tdiv_by(t3, 6) + tdiv_by(t5, 120) - tdiv_by(t7, 5040)
        + tdiv_by(t9, 362880);
    let c: i64 = 0x4000_0000 - tdiv_by(t2, 2) + tdiv_by(t4, 24) - tdiv_by(t6, 720)
        + tdiv_by(t8, 40320) - tdiv_by(t10, 3628800);
    let (s1, c1): (i64, i64) = if q == 0 {
        (s, c)
    } else if q == 1 {
        (c, -s)
    } else if q == 2 {
        (-s, -c)
    } else {
        (-c, s)
    };
    let rs = fx_clamp(s1, -0x4000_0000, 0x4000_0000);
    let rc = fx_clamp(c1, -0x4000_0000, 0x4000_0000);
    (rs, rc)
}

/// Sine and cosine of a fixed-point angle, each within one unit of
/// magnitude.
pub fn sin_cos_fx(a: i64) -> (r: (i64, i64))
    requires
        -0x4000_0000_0000_0000 <= a <= 0x4000_0000_0000_0000,
    ensures
        r.0 == spec_sin_fx(a as int),
        r.1 == spec_cos_fx(a as int),
        -(FX_ONE as int) <= r.0 <= FX_ONE as int,
        -(FX_ONE as int) <= r.1 <= FX_ONE as int,
{
    let (s30, c30) = sin_cos_q30(a);
    let rs = fx_clamp(tdiv_by(s30, Q30_STEP), -65536, 65536);
    let rc = fx_clamp(tdiv_by(c30, Q30_STEP), -65536, 65536);
    (rs, rc)
}

/// The sine of a fixed-point angle.
pub fn sin_fx(a: i64) -> (r: i64)
    requires
        -0x4000_0000_0000_0000 <= a <= 0x4000_0000_0000_0000,
    ensures
        r == spec_sin_fx(a as int),
        -(FX_ONE as int) <= r <= FX_ONE as int,
{
    sin_cos_fx(a).0
}

/// The cosine of a fixed-point angle.
pub fn cos_fx(a: i64) -> (r: i64)
    requires
        -0x4000_0000_0000_0000 <= a <= 0x4000_0000_0000_0000,
    ensures
        r == spec_cos_fx(a as int),
        -(FX_ONE as int) <= r <= FX_ONE as int,
{
    sin_cos_fx(a).1
}

} // verus!
