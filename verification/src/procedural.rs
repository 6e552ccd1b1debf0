//! Procedural geometry and coherent noise.
//!
//! The noise is hash-based 3D value noise: a deterministic integer mix
//! gives each lattice point a pseudo-random value in [0, 1), and a
//! point samples the trilinear blend of its eight surrounding corners
//! under a smoothstep easing curve, so the result has no visible grid
//! creases.  Fractal Brownian motion sums octaves of the noise at
//! growing frequency and decaying amplitude; `fbm` keeps the raw
//! weighted sum (the policy the shading stages use), while `fbm3`
//! divides by the total amplitude and recenters each octave to [-1, 1].

use vstd::prelude::*;
use crate::fixed::{
    fx_floor_units, fx_mul, lemma_fx_mul_bound, lemma_fx_mul_mono,
    lemma_fx_ok_products, lemma_tdiv_mono, lemma_tdiv_exact, spec_fx_mul,
    tdiv, tdiv_by, FX_ONE, FX_SAT,
};
use crate::trig::{sin_cos_q30, spec_sin_cos_q30, FX_PI, FX_TWO_PI, Q30};
use crate::vec::{vg3, vg3_in, Vec3, VecG3};
use vstd::arithmetic::div_mod::{lemma_fundamental_div_mod};
use vstd::arithmetic::mul::{lemma_mul_inequality};

verus! {

/// A 32-bit avalanche mix of one lattice word.
pub open spec fn spec_hash_u32(x: u32) -> u32 {
    let a = (((x as int) + 0x9E37_79B9) % 0x1_0000_0000) as u32;
    let b = a ^ (a >> 15);
    let c = (((b as int) * 0x85EB_CA6B) % 0x1_0000_0000) as u32;
    let d = c ^ (c >> 13);
    let e = (((d as int) * 0xC2B2_AE35) % 0x1_0000_0000) as u32;
    e ^ (e >> 16)
}

/// The avalanche mix, as executable code.
pub fn hash_u32(x: u32) -> (r: u32)
    ensures
        r == spec_hash_u32(x),
{
    let a: u32 = (((x as u64) + 0x9E37_79B9) % 0x1_0000_0000) as u32;
    let b: u32 = a ^ (a >> 15);
    let c: u32 = (((b as u64) * 0x85EB_CA6B) % 0x1_0000_0000) as u32;
    let d: u32 = c ^ (c >> 13);
    let e: u32 = (((d as u64) * 0xC2B2_AE35) % 0x1_0000_0000) as u32;
    e ^ (e >> 16)
}

/// The pseudo-random value of an integer lattice point, in [0, 1):
/// an FNV-style accumulation of the three coordinates, avalanched, and
/// kept to its top sixteen bits as a fixed-point fraction.
pub open spec fn spec_lattice_rand(i: int, j: int, k: int) -> int {
    let h0 = 1469598103u32;
    let h1 = (((h0 ^ (i as u32)) as int * 16777619) % 0x1_0000_0000) as u32;
    let h2 = (((h1 ^ (j as u32)) as int * 16777619) % 0x1_0000_0000) as u32;
    let h3 = (((h2 ^ (k as u32)) as int * 16777619) % 0x1_0000_0000) as u32;
    (spec_hash_u32(h3) >> 16) as int
}

/// The lattice value is a fixed-point fraction below one.
pub proof fn lemma_lattice_rand_bounds(i: int, j: int, k: int)
    ensures
        0 <= spec_lattice_rand(i, j, k) < FX_ONE as int,
{
    let h0 = 1469598103u32;
    let h1 = (((h0 ^ (i as u32)) as int * 16777619) % 0x1_0000_0000) as u32;
    let h2 = (((h1 ^ (j as u32)) as int * 16777619) % 0x1_0000_0000) as u32;
    let h3 = (((h2 ^ (k as u32)) as int * 16777619) % 0x1_0000_0000) as u32;
    let e = spec_hash_u32(h3);
    assert(e >> 16 < 65536u32) by (bit_vector);
}

/// The lattice value, as executable code.
pub fn lattice_rand(i: i64, j: i64, k: i64) -> (r: i64)
    ensures
        r == spec_lattice_rand(i as int, j as int, k as int),
        0 <= r < FX_ONE,
{
    let h0: u32 = 1469598103;
    let h1: u32 = (((h0 ^ (#[verifier::truncate] (i as u32))) as u64 * 16777619)
        % 0x1_0000_0000) as u32;
    let h2: u32 = (((h1 ^ (#[verifier::truncate] (j as u32))) as u64 * 16777619)
        % 0x1_0000_0000) as u32;
    let h3: u32 = (((h2 ^ (#[verifier::truncate] (k as u32))) as u64 * 16777619)
        % 0x1_0000_0000) as u32;
    let e: u32 = hash_u32(h3);
    proof {
        lemma_lattice_rand_bounds(i as int, j as int, k as int);
    }
    (e >> 16) as i64
}

/// The cubic smoothstep easing curve `t*t*(3 - 2*t)` on [0, 1].
pub open spec fn spec_smoothstep(t: int) -> int {
    spec_fx_mul(spec_fx_mul(t, t), 3 * (FX_ONE as int) - 2 * t)
}

/// On [0, 1] the easing curve stays in [0, 1].
pub proof fn lemma_smoothstep_bounds(t: int)
    requires
        0 <= t <= FX_ONE as int,
    ensures
        0 <= spec_smoothstep(t) <= FX_ONE as int,
{
    let one = FX_ONE as int;
    let t2 = spec_fx_mul(t, t);
    let k = 3 * one - 2 * t;
    lemma_fx_mul_bound(t, t, one, one);
    assert(0 <= t * t) by (nonlinear_arith);
    lemma_tdiv_mono(0, t * t, one);
    // t2 is the exact floor of t*t scaled down; multiplying up again
    // stays below t*t.
    lemma_fundamental_div_mod(t * t, one);
    assert(t2 == (t * t) / one);
    assert(t2 * one <= t * t);
    assert(0 <= t2 * k) by (nonlinear_arith)
        requires
            0 <= t2 && 0 <= k,
    ;
    lemma_tdiv_mono(0, t2 * k, one);
    // The cubic identity: one^3 - t*t*(3*one - 2t) is a product of
    // nonnegative factors, so t*t*k is at most one^3.
    assert(one * one * one - (t * t) * k == (one - t) * (one - t) * (one + 2 * t))
        by (nonlinear_arith)
        requires
            k == 3 * one - 2 * t,
            one == 65536,
    ;
    assert((one - t) * (one - t) * (one + 2 * t) >= 0) by (nonlinear_arith)
        requires
            0 <= t <= one,
            one == 65536,
    ;
    lemma_mul_inequality(t2 * one, t * t, k);
    assert((t2 * one) * k == (t2 * k) * one) by (nonlinear_arith);
    assert((t * t) * k <= one * one * one);
    assert((t2 * k) * one <= one * one * one);
    assert(t2 * k <= one * one);
    lemma_tdiv_mono(t2 * k, one * one, one);
    lemma_tdiv_exact(one, one);
}

/// The easing curve, as executable code.
pub fn smoothstep(t: i64) -> (r: i64)
    requires
        0 <= t <= FX_ONE,
    ensures
        r == spec_smoothstep(t as int),
        0 <= r <= FX_ONE,
{
    proof {
        lemma_fx_ok_products();
        lemma_smoothstep_bounds(t as int);
    }
    let t2 = fx_mul(t, t);
    fx_mul(t2, 3 * 65536 - 2 * t)
}

/// The linear blend `a + (b - a) * t`.
pub open spec fn spec_lerp(a: int, b: int, t: int) -> int {
    a + spec_fx_mul(b - a, t)
}

/// A blend with a weight in [0, 1] stays within the interval its
/// endpoints lie in.
pub proof fn lemma_lerp_bounds(a: int, b: int, t: int, lo: int, hi: int)
    requires
        lo <= a <= hi,
        lo <= b <= hi,
        0 <= t <= FX_ONE as int,
    ensures
        lo <= spec_lerp(a, b, t) <= hi,
{
    let one = FX_ONE as int;
    let d = b - a;
    if d >= 0 {
        assert(0 <= d * t && d * t <= d * one) by (nonlinear_arith)
            requires
                0 <= d && 0 <= t <= one,
        ;
        lemma_tdiv_mono(0, d * t, one);
        lemma_tdiv_mono(d * t, d * one, one);
        lemma_tdiv_exact(d, one);
    } else {
        assert(d * one <= d * t && d * t <= 0) by (nonlinear_arith)
            requires
                d < 0 && 0 <= t <= one,
        ;
        lemma_tdiv_mono(d * one, d * t, one);
        lemma_tdiv_mono(d * t, 0, one);
        lemma_tdiv_exact(d, one);
    }
}

/// The linear blend, as executable code.
pub fn lerp(a: i64, b: i64, t: i64) -> (r: i64)
    requires
        -0x4000_0000 <= a <= 0x4000_0000,
        -0x4000_0000 <= b <= 0x4000_0000,
        0 <= t <= FX_ONE,
    ensures
        r == spec_lerp(a as int, b as int, t as int),
{
    proof {
        lemma_fx_mul_bound(b - a, t as int, 0x8000_0000, FX_ONE as int);
        lemma_lerp_bounds(a as int, b as int, t as int, -0x4000_0000, 0x4000_0000);
    }
    a + fx_mul(b - a, t)
}

/// The fractional position of a coordinate within its lattice cell.
pub open spec fn spec_cell_frac(x: int) -> int {
    x - (FX_ONE as int) * (x / (FX_ONE as int))
}

/// 3D value noise in [0, 1]: the eight lattice corners around the
/// point, blended trilinearly under the smoothstep easing of each
/// fractional coordinate.
pub open spec fn spec_value_noise3(p: VecG3) -> int {
    let x0 = p.x / (FX_ONE as int);
    let y0 = p.y / (FX_ONE as int);
    let z0 = p.z / (FX_ONE as int);
    let tx = spec_smoothstep(spec_cell_frac(p.x));
    let ty = spec_smoothstep(spec_cell_frac(p.y));
    let tz = spec_smoothstep(spec_cell_frac(p.z));
    let x00 = spec_lerp(
        spec_lattice_rand(x0, y0, z0), spec_lattice_rand(x0 + 1, y0, z0), tx);
    let x10 = spec_lerp(
        spec_lattice_rand(x0, y0 + 1, z0), spec_lattice_rand(x0 + 1, y0 + 1, z0), tx);
    let x01 = spec_lerp(
        spec_lattice_rand(x0, y0, z0 + 1), spec_lattice_rand(x0 + 1, y0, z0 + 1), tx);
    let x11 = spec_lerp(
        spec_lattice_rand(x0, y0 + 1, z0 + 1), spec_lattice_rand(x0 + 1, y0 + 1, z0 + 1), tx);
    let y0v = spec_lerp(x00, x10, ty);
    let y1v = spec_lerp(x01, x11, ty);
    spec_lerp(y0v, y1v, tz)
}

/// The noise value lies in [0, 1] for every point.
pub proof fn lemma_value_noise3_bounds(p: VecG3)
    ensures
        0 <= spec_value_noise3(p) <= FX_ONE as int,
{
    let one = FX_ONE as int;
    let x0 = p.x / one;
    let y0 = p.y / one;
    let z0 = p.z / one;
    lemma_cell_frac_bounds(p.x);
    lemma_cell_frac_bounds(p.y);
    lemma_cell_frac_bounds(p.z);
    lemma_smoothstep_bounds(spec_cell_frac(p.x));
    lemma_smoothstep_bounds(spec_cell_frac(p.y));
    lemma_smoothstep_bounds(spec_cell_frac(p.z));
    let tx = spec_smoothstep(spec_cell_frac(p.x));
    let ty = spec_smoothstep(spec_cell_frac(p.y));
    let tz = spec_smoothstep(spec_cell_frac(p.z));
    lemma_lattice_rand_bounds(x0, y0, z0);
    lemma_lattice_rand_bounds(x0 + 1, y0, z0);
    lemma_lattice_rand_bounds(x0, y0 + 1, z0);
    lemma_lattice_rand_bounds(x0 + 1, y0 + 1, z0);
    lemma_lattice_rand_bounds(x0, y0, z0 + 1);
    lemma_lattice_rand_bounds(x0 + 1, y0, z0 + 1);
    lemma_lattice_rand_bounds(x0, y0 + 1, z0 + 1);
    lemma_lattice_rand_bounds(x0 + 1, y0 + 1, z0 + 1);
    let x00 = spec_lerp(
        spec_lattice_rand(x0, y0, z0), spec_lattice_rand(x0 + 1, y0, z0), tx);
    let x10 = spec_lerp(
        spec_lattice_rand(x0, y0 + 1, z0), spec_lattice_rand(x0 + 1, y0 + 1, z0), tx);
    let x01 = spec_lerp(
        spec_lattice_rand(x0, y0, z0 + 1), spec_lattice_rand(x0 + 1, y0, z0 + 1), tx);
    let x11 = spec_lerp(
        spec_lattice_rand(x0, y0 + 1, z0 + 1), spec_lattice_rand(x0 + 1, y0 + 1, z0 + 1), tx);
    lemma_lerp_bounds(
        spec_lattice_rand(x0, y0, z0), spec_lattice_rand(x0 + 1, y0, z0), tx, 0, one);
    lemma_lerp_bounds(
        spec_lattice_rand(x0, y0 + 1, z0), spec_lattice_rand(x0 + 1, y0 + 1, z0), tx, 0, one);
    lemma_lerp_bounds(
        spec_lattice_rand(x0, y0, z0 + 1), spec_lattice_rand(x0 + 1, y0, z0 + 1), tx, 0, one);
    lemma_lerp_bounds(
        spec_lattice_rand(x0, y0 + 1, z0 + 1), spec_lattice_rand(x0 + 1, y0 + 1, z0 + 1),
        tx, 0, one);
    lemma_lerp_bounds(x00, x10, ty, 0, one);
    lemma_lerp_bounds(x01, x11, ty, 0, one);
    lemma_lerp_bounds(spec_lerp(x00, x10, ty), spec_lerp(x01, x11, ty), tz, 0, one);
}

/// The fractional part of a coordinate is within one cell.
proof fn lemma_cell_frac_bounds(x: int)
    ensures
        0 <= spec_cell_frac(x) < FX_ONE as int,
{
    lemma_fundamental_div_mod(x, FX_ONE as int);
}

/// 3D value noise in [0, 1], as executable code.  The result is a
/// function of the input coordinates alone: calling it twice on the
/// same point gives the same value.
pub fn value_noise3(p: Vec3) -> (r: i64)
    requires
        vg3_in(vg3(p), FX_SAT as int),
    ensures
        r == spec_value_noise3(vg3(p)),
        0 <= r <= FX_ONE,
{
    proof {
        lemma_value_noise3_bounds(vg3(p));
        lemma_cell_frac_bounds(p.x as int);
        lemma_cell_frac_bounds(p.y as int);
        lemma_cell_frac_bounds(p.z as int);
    }
    let x0 = fx_floor_units(p.x);
    let y0 = fx_floor_units(p.y);
    let z0 = fx_floor_units(p.z);
    let tx = smoothstep(p.x - x0 * 65536);
    let ty = smoothstep(p.y - y0 * 65536);
    let tz = smoothstep(p.z - z0 * 65536);
    let c000 = lattice_rand(x0, y0, z0);
    let c100 = lattice_rand(x0 + 1, y0, z0);
    let c010 = lattice_rand(x0, y0 + 1, z0);
    let c110 = lattice_rand(x0 + 1, y0 + 1, z0);
    let c001 = lattice_rand(x0, y0, z0 + 1);
    let c101 = lattice_rand(x0 + 1, y0, z0 + 1);
    let c011 = lattice_rand(x0, y0 + 1, z0 + 1);
    let c111 = lattice_rand(x0 + 1, y0 + 1, z0 + 1);
    let x00 = lerp(c000, c100, tx);
    let x10 = lerp(c010, c110, tx);
    let x01 = lerp(c001, c101, tx);
    let x11 = lerp(c011, c111, tx);
    proof {
        lemma_lerp_bounds(c000 as int, c100 as int, tx as int, 0, FX_ONE as int);
        lemma_lerp_bounds(c010 as int, c110 as int, tx as int, 0, FX_ONE as int);
        lemma_lerp_bounds(c001 as int, c101 as int, tx as int, 0, FX_ONE as int);
        lemma_lerp_bounds(c011 as int, c111 as int, tx as int, 0, FX_ONE as int);
    }
    let y0v = lerp(x00, x10, ty);
    let y1v = lerp(x01, x11, ty);
    proof {
        lemma_lerp_bounds(x00 as int, x10 as int, ty as int, 0, FX_ONE as int);
        lemma_lerp_bounds(x01 as int, x11 as int, ty as int, 0, FX_ONE as int);
    }
    lerp(y0v, y1v, tz)
}

/// A point scaled componentwise by a saturated fixed-point factor.
pub open spec fn spec_scale_sat(p: VecG3, s: int) -> VecG3 {
    VecG3 {
        x: crate::fixed::spec_fx_mul_sat(p.x, s),
        y: crate::fixed::spec_fx_mul_sat(p.y, s),
        z: crate::fixed::spec_fx_mul_sat(p.z, s),
    }
}

/// The remaining octaves of the raw-sum fractal: each samples the
/// noise at the point scaled by the running frequency, weighted by the
/// running amplitude; the frequency grows by the lacunarity and the
/// amplitude decays by the gain.
pub open spec fn spec_fbm_rec(
    p: VecG3, octaves: nat, lac: int, gain: int, amp: int, freq: int,
) -> int
    decreases octaves,
{
    if octaves == 0 {
        0
    } else {
        spec_fx_mul(amp, spec_value_noise3(spec_scale_sat(p, freq)))
            + spec_fbm_rec(
                p, (octaves - 1) as nat, lac, gain,
                spec_fx_mul(amp, gain), crate::fixed::spec_fx_mul_sat(freq, lac))
    }
}

/// Raw-sum fractal Brownian motion: the unnormalized weighted sum of
/// `octaves` noise samples, starting at amplitude one half and
/// frequency one.  This is the normalization policy the shading stages
/// use; `fbm3` is the amplitude-normalized, signed variant.
pub open spec fn spec_fbm(p: VecG3, octaves: nat, lac: int, gain: int) -> int {
    spec_fbm_rec(p, octaves, lac, gain, 32768, FX_ONE as int)
}

/// The high-frequency contribution of the fractal: every octave after
/// the first.
pub open spec fn spec_fbm_tail(p: VecG3, octaves: nat, lac: int, gain: int) -> int {
    if octaves == 0 {
        0
    } else {
        spec_fbm_rec(
            p, (octaves - 1) as nat, lac, gain,
            spec_fx_mul(32768, gain), crate::fixed::spec_fx_mul_sat(FX_ONE as int, lac))
    }
}

/// With equal frequencies, octave sums under a smaller gain and
/// amplitude never exceed those under a larger one, and both are
/// nonnegative.
proof fn lemma_fbm_rec_mono(
    p: VecG3, octaves: nat, lac: int, g1: int, g2: int, amp1: int, amp2: int, freq: int,
)
    requires
        0 <= g1 <= g2 <= FX_ONE as int,
        0 <= amp1 <= amp2,
    ensures
        0 <= spec_fbm_rec(p, octaves, lac, g1, amp1, freq)
            <= spec_fbm_rec(p, octaves, lac, g2, amp2, freq),
    decreases octaves,
{
    if octaves > 0 {
        let n = spec_value_noise3(spec_scale_sat(p, freq));
        lemma_value_noise3_bounds(spec_scale_sat(p, freq));
        lemma_fx_mul_mono(amp1, amp2, n);
        lemma_fx_mul_mono(amp1, amp2, g1);
        lemma_fx_mul_mono(g1, g2, amp2);
        lemma_fbm_rec_mono(
            p, (octaves - 1) as nat, lac, g1, g2,
            spec_fx_mul(amp1, g1), spec_fx_mul(amp2, g2),
            crate::fixed::spec_fx_mul_sat(freq, lac));
    }
}

/// The fractal's high-frequency contribution is nonnegative and
/// decreases monotonically as the gain decreases toward zero, for any
/// fixed octave count: with `g1 <= g2`, the tail under `g1` is at most
/// the tail under `g2`.
pub proof fn lemma_fbm_tail_monotone_in_gain(
    p: VecG3, octaves: nat, lac: int, g1: int, g2: int,
)
    requires
        0 <= g1 <= g2 <= FX_ONE as int,
    ensures
        0 <= spec_fbm_tail(p, octaves, lac, g1) <= spec_fbm_tail(p, octaves, lac, g2),
        spec_fbm(p, octaves, lac, g1) == if octaves == 0 { 0int } else {
            spec_fx_mul(32768, spec_value_noise3(spec_scale_sat(p, FX_ONE as int)))
                + spec_fbm_tail(p, octaves, lac, g1)
        },
{
    if octaves > 0 {
        lemma_fx_mul_mono(g1, g2, 32768);
        lemma_fbm_rec_mono(
            p, (octaves - 1) as nat, lac, g1, g2,
            spec_fx_mul(32768, g1), spec_fx_mul(32768, g2),
            crate::fixed::spec_fx_mul_sat(FX_ONE as int, lac));
    }
}

/// Raw-sum fractal Brownian motion, as executable code.
pub fn fbm(p: Vec3, octaves: u32, lacunarity: i64, gain: i64) -> (r: i64)
    requires
        vg3_in(vg3(p), FX_SAT as int),
        0 <= gain <= FX_ONE,
        0 <= lacunarity <= FX_SAT,
        octaves <= 64,
    ensures
        r == spec_fbm(vg3(p), octaves as nat, lacunarity as int, gain as int),
        0 <= r <= 64 * 32768,
{
    let ghost gp = vg3(p);
    let mut amp: i64 = 32768;
    let mut freq: i64 = 65536;
    let mut sum: i64 = 0;
    let mut i: u32 = 0;
    while i < octaves
        invariant
            i <= octaves <= 64,
            0 <= gain <= FX_ONE,
            0 <= lacunarity <= FX_SAT,
            vg3_in(gp, FX_SAT as int),
            gp == vg3(p),
            0 <= amp <= 32768,
            0 <= freq <= FX_SAT,
            0 <= sum <= i * 32768,
            spec_fbm(gp, octaves as nat, lacunarity as int, gain as int)
                == sum + spec_fbm_rec(
                    gp, (octaves - i) as nat, lacunarity as int, gain as int,
                    amp as int, freq as int),
        decreases octaves - i,
    {
        let q = Vec3 {
            x: crate::fixed::fx_mul_sat(p.x, freq),
            y: crate::fixed::fx_mul_sat(p.y, freq),
            z: crate::fixed::fx_mul_sat(p.z, freq),
        };
        let n = value_noise3(q);
        proof {
            lemma_fx_ok_products();
            lemma_fx_mul_bound(amp as int, n as int, 32768, FX_ONE as int);
            lemma_fx_mul_mono(0, amp as int, n as int);
            lemma_fx_mul_bound(amp as int, gain as int, 32768, FX_ONE as int);
            lemma_fx_mul_mono(0, amp as int, gain as int);
            lemma_fx_mul_mono(0, freq as int, lacunarity as int);
        }
        let term = fx_mul(amp, n);
        sum = sum + term;
        freq = crate::fixed::fx_mul_sat(freq, lacunarity);
        amp = fx_mul(amp, gain);
        i = i + 1;
    }
    sum
}

/// The remaining octaves of the normalized fractal: the pair of the
/// signed weighted sum and the total amplitude.
pub open spec fn spec_fbm3_rec(
    cur: VecG3, octaves: nat, lac: int, gain: int, amp: int,
) -> (int, int)
    decreases octaves,
{
    if octaves == 0 {
        (0, 0)
    } else {
        let n2 = 2 * spec_value_noise3(cur) - FX_ONE as int;
        let rest = spec_fbm3_rec(
            spec_scale_sat(cur, lac), (octaves - 1) as nat, lac, gain,
            spec_fx_mul(amp, gain));
        (spec_fx_mul(n2, amp) + rest.0, amp + rest.1)
    }
}

/// Amplitude-normalized fractal Brownian motion in about [-1, 1]: each
/// octave's noise is recentered to [-1, 1], the weighted sum is divided
/// by the total amplitude, and zero octaves give zero.
pub open spec fn spec_fbm3(p: VecG3, octaves: nat, lac: int, gain: int) -> int {
    let st = spec_fbm3_rec(p, octaves, lac, gain, 32768);
    if st.1 > 0 {
        tdiv(st.0 * (FX_ONE as int), st.1)
    } else {
        0
    }
}

/// Normalized fractal Brownian motion, as executable code.
pub fn fbm3(p: Vec3, octaves: u32, lacunarity: i64, gain: i64) -> (r: i64)
    requires
        vg3_in(vg3(p), FX_SAT as int),
        0 <= gain <= FX_ONE,
        0 <= lacunarity <= FX_SAT,
        octaves <= 64,
    ensures
        r == spec_fbm3(vg3(p), octaves as nat, lacunarity as int, gain as int),
        -FX_ONE <= r <= FX_ONE,
{
    let mut cur: Vec3 = p;
    let mut amp: i64 = 32768;
    let mut sum: i64 = 0;
    let mut total: i64 = 0;
    let mut i: u32 = 0;
    while i < octaves
        invariant
            i <= octaves <= 64,
            0 <= gain <= FX_ONE,
            0 <= lacunarity <= FX_SAT,
            vg3_in(vg3(cur), FX_SAT as int),
            0 <= amp <= 32768,
            0 <= total <= i * 32768,
            -total <= sum <= total,
            ({
                let full = spec_fbm3_rec(
                    vg3(p), octaves as nat, lacunarity as int, gain as int, 32768);
                let rest = spec_fbm3_rec(
                    vg3(cur), (octaves - i) as nat, lacunarity as int, gain as int,
                    amp as int);
                full.0 == sum + rest.0 && full.1 == total + rest.1
            }),
        decreases octaves - i,
    {
        let n = value_noise3(cur);
        let n2: i64 = 2 * n - 65536;
        proof {
            lemma_fx_ok_products();
            lemma_fx_mul_bound(n2 as int, amp as int, FX_ONE as int, amp as int);
            vstd::arithmetic::div_mod::lemma_div_multiples_vanish(
                amp as int, FX_ONE as int);
            assert((FX_ONE as int) * (amp as int) == (amp as int) * (FX_ONE as int))
                by (nonlinear_arith);
            lemma_fx_mul_bound(amp as int, gain as int, 32768, FX_ONE as int);
            lemma_fx_mul_mono(0, amp as int, gain as int);
        }
        let term = fx_mul(n2, amp);
        sum = sum + term;
        total = total + amp;
        cur = Vec3 {
            x: crate::fixed::fx_mul_sat(cur.x, lacunarity),
            y: crate::fixed::fx_mul_sat(cur.y, lacunarity),
            z: crate::fixed::fx_mul_sat(cur.z, lacunarity),
        };
        amp = fx_mul(amp, gain);
        i = i + 1;
    }
    if total > 0 {
        proof {
            crate::fixed::lemma_tdiv_bound(
                sum * (FX_ONE as int), total as int, FX_ONE as int);
            assert(sum * (FX_ONE as int) <= (FX_ONE as int) * (total as int)
                && -((FX_ONE as int) * (total as int)) <= sum * (FX_ONE as int))
                by (nonlinear_arith)
                requires
                    -total <= sum <= total,
                    0 < total,
            ;
        }
        crate::fixed::fx_div(sum, total)
    } else {
        0
    }
}

/// The product of a radius and two internal-scale trigonometric
/// values, scaled back to the working scale.
pub open spec fn spec_tri_q60(r: int, a: int, b: int) -> int {
    tdiv(r * a * b, 0x1000_0000_0000_0000)
}

/// The triple product, as executable code.
fn tri_mul_q60(r: i64, a: i64, b: i64) -> (res: i64)
    requires
        0 <= r <= 0x100_0000,
        -0x4000_0000 <= a <= 0x4000_0000,
        -0x4000_0000 <= b <= 0x4000_0000,
    ensures
        res == spec_tri_q60(r as int, a as int, b as int),
        -0x100_0000 <= res <= 0x100_0000,
{
    proof {
        assert(-0x40_0000_0000_0000 <= (r as int) * (a as int)
            <= 0x40_0000_0000_0000) by (nonlinear_arith)
            requires
                0 <= r as int <= 0x100_0000,
                -0x4000_0000 <= a as int <= 0x4000_0000,
        ;
        assert(-0x100_0000 * 0x1000_0000_0000_0000 <= ((r as int) * (a as int)) * (b as int)
            <= 0x100_0000 * 0x1000_0000_0000_0000) by (nonlinear_arith)
            requires
                -0x40_0000_0000_0000 <= (r as int) * (a as int) <= 0x40_0000_0000_0000,
                -0x4000_0000 <= b as int <= 0x4000_0000,
        ;
        crate::fixed::lemma_tdiv_bound(
            (r as int) * (a as int) * (b as int), 0x1000_0000_0000_0000, 0x100_0000);
    }
    let p: i128 = ((r as i128) * (a as i128)) * (b as i128);
    let q: i128 = p.checked_div(0x1000_0000_0000_0000).unwrap();
    q as i64
}

/// A point on the sphere of a given radius at spherical angles phi
/// (from the north pole) and theta (around the axis), evaluated from
/// internal-scale trigonometry so the radius is kept to within a few
/// working-scale units.
pub open spec fn spec_sph(r: int, phi: int, theta: int) -> VecG3 {
    let sp = spec_sin_cos_q30(phi).0;
    let cp = spec_sin_cos_q30(phi).1;
    let st = spec_sin_cos_q30(theta).0;
    let ct = spec_sin_cos_q30(theta).1;
    VecG3 {
        x: spec_tri_q60(r, sp, ct),
        y: spec_tri_q60(r, cp, Q30 as int),
        z: spec_tri_q60(r, sp, st),
    }
}

/// The spherical point, as executable code.
fn sph(r: i64, phi: i64, theta: i64) -> (res: Vec3)
    requires
        0 <= r <= 0x100_0000,
        -0x4000_0000_0000_0000 <= phi <= 0x4000_0000_0000_0000,
        -0x4000_0000_0000_0000 <= theta <= 0x4000_0000_0000_0000,
    ensures
        vg3(res) == spec_sph(r as int, phi as int, theta as int),
        vg3_in(vg3(res), 0x100_0000),
{
    let (sp, cp) = sin_cos_q30(phi);
    let (st, ct) = sin_cos_q30(theta);
    Vec3 {
        x: tri_mul_q60(r, sp, ct),
        y: tri_mul_q60(r, cp, 0x4000_0000),
        z: tri_mul_q60(r, sp, st),
    }
}

/// A segment count clamped to at least three.
pub open spec fn spec_segments(n: int) -> int {
    if n < 3 { 3 } else { n }
}

/// The vertex at position `q` of the triangulated UV sphere: vertices
/// come in groups of six, two triangles covering the quad of lattice
/// cell (i, j), whose corners sample the sphere at the cell's latitude
/// and longitude fractions of pi and two pi.
pub open spec fn spec_sphere_vertex(radius: int, lat: int, lon: int, q: int) -> VecG3 {
    let cell = q / 6;
    let t = q % 6;
    let i = cell / lon;
    let j = cell % lon;
    let di: int = if t == 1 || t == 2 || t == 4 { 1 } else { 0 };
    let dj: int = if t == 2 || t == 4 || t == 5 { 1 } else { 0 };
    spec_sph(
        radius,
        ((i + di) * (FX_PI as int)) / lat,
        ((j + dj) * (FX_TWO_PI as int)) / lon,
    )
}

/// Generates a triangulated UV sphere: `lat * lon * 6` vertices (the
/// segment counts clamped to at least three), each group of six the
/// two triangles of one latitude-longitude quad, every vertex on the
/// sphere of the given radius up to fixed-point rounding.
pub fn generate_uv_sphere(radius: i64, lat_segments: usize, lon_segments: usize)
    -> (out: Vec<Vec3>)
    requires
        0 <= radius <= 0x100_0000,
        lat_segments <= 4096,
        lon_segments <= 4096,
    ensures
        out@.len() == spec_segments(lat_segments as int)
            * spec_segments(lon_segments as int) * 6,
        forall|k: int| 0 <= k < out@.len() ==> vg3(#[trigger] out@[k])
            == spec_sphere_vertex(
                radius as int, spec_segments(lat_segments as int),
                spec_segments(lon_segments as int), k),
        forall|k: int| 0 <= k < out@.len()
            ==> vg3_in(vg3(#[trigger] out@[k]), 0x100_0000),
{
    let lat: usize = if lat_segments < 3 { 3 } else { lat_segments };
    let lon: usize = if lon_segments < 3 { 3 } else { lon_segments };
    let ghost glat = lat as int;
    let ghost glon = lon as int;
    let mut out: Vec<Vec3> = Vec::new();
    let mut i: usize = 0;
    while i < lat
        invariant
            i <= lat,
            3 <= lat <= 4096,
            3 <= lon <= 4096,
            glat == lat as int && glon == lon as int,
            glat == spec_segments(lat_segments as int),
            glon == spec_segments(lon_segments as int),
            0 <= radius <= 0x100_0000,
            out@.len() == (i as int) * glon * 6,
            forall|k: int| 0 <= k < out@.len() ==> vg3(#[trigger] out@[k])
                == spec_sphere_vertex(radius as int, glat, glon, k),
            forall|k: int| 0 <= k < out@.len()
                ==> vg3_in(vg3(#[trigger] out@[k]), 0x100_0000),
        decreases lat - i,
    {
        let phi0: i64 = tdiv_by((i as i64) * FX_PI, lat as i64);
        let phi1: i64 = tdiv_by(((i + 1) as i64) * FX_PI, lat as i64);
        let mut j: usize = 0;
        while j < lon
            invariant
                i < lat,
                j <= lon,
                3 <= lat <= 4096,
                3 <= lon <= 4096,
                glat == lat as int && glon == lon as int,
                glat == spec_segments(lat_segments as int),
                glon == spec_segments(lon_segments as int),
                0 <= radius <= 0x100_0000,
                phi0 == ((i as int) * (FX_PI as int)) / glat,
                phi1 == ((i as int + 1) * (FX_PI as int)) / glat,
                0 <= phi0 <= 0x4000_0000 && 0 <= phi1 <= 0x4000_0000,
                out@.len() == ((i as int) * glon + j as int) * 6,
                forall|k: int| 0 <= k < out@.len() ==> vg3(#[trigger] out@[k])
                    == spec_sphere_vertex(radius as int, glat, glon, k),
                forall|k: int| 0 <= k < out@.len()
                    ==> vg3_in(vg3(#[trigger] out@[k]), 0x100_0000),
            decreases lon - j,
        {
            let theta0: i64 = tdiv_by((j as i64) * FX_TWO_PI, lon as i64);
            let theta1: i64 = tdiv_by(((j + 1) as i64) * FX_TWO_PI, lon as i64);
            let p00 = sph(radius, phi0, theta0);
            let p01 = sph(radius, phi0, theta1);
            let p10 = sph(radius, phi1, theta0);
            let p11 = sph(radius, phi1, theta1);
            let ghost base = out@.len() as int;
            let ghost cell = (i as int) * glon + j as int;
            out.push(p00);
            out.push(p10);
            out.push(p11);
            out.push(p00);
            out.push(p11);
            out.push(p01);
            proof {
                lemma_sphere_cell(
                    radius as int, glat, glon, i as int, j as int, cell);
                assert forall|k: int| 0 <= k < out@.len()
                    implies vg3(#[trigger] out@[k]) == spec_sphere_vertex(
                        radius as int, glat, glon, k) by {
                    if k >= base {
                        assert(out@[k] == (
                            if k == base { p00 }
                            else if k == base + 1 { p10 }
                            else if k == base + 2 { p11 }
                            else if k == base + 3 { p00 }
                            else if k == base + 4 { p11 }
                            else { p01 }));
                    }
                }
                assert(((i as int) * glon + j as int + 1) * 6
                    == ((i as int) * glon + j as int) * 6 + 6) by (nonlinear_arith);
            }
            j = j + 1;
        }
        proof {
            assert(((i as int) * glon + glon) * 6 == ((i as int + 1) * glon) * 6)
                by (nonlinear_arith);
        }
        i = i + 1;
    }
    out
}

/// The six vertex positions of lattice cell (i, j) decode back to the
/// cell and corner offsets used to build them.
proof fn lemma_sphere_cell(radius: int, lat: int, lon: int, i: int, j: int, cell: int)
    requires
        0 <= i,
        0 <= j < lon,
        0 < lon,
        cell == i * lon + j,
    ensures
        forall|t: int| 0 <= t < 6 ==> #[trigger] ((cell * 6 + t) / 6) == cell
            && (cell * 6 + t) % 6 == t,
        cell / lon == i,
        cell % lon == j,
{
    assert(0 <= cell) by (nonlinear_arith)
        requires
            0 <= i && 0 <= j && 0 < lon,
            cell == i * lon + j,
    ;
    assert forall|t: int| 0 <= t < 6
        implies #[trigger] ((cell * 6 + t) / 6) == cell && (cell * 6 + t) % 6 == t by {
        vstd::arithmetic::div_mod::lemma_fundamental_div_mod_converse(
            cell * 6 + t, 6, cell, t);
    }
    vstd::arithmetic::div_mod::lemma_fundamental_div_mod_converse(cell, lon, i, j);
}

/// The vertex at position `q` of the triangulated flat ring in the XZ
/// plane: groups of six cover each angular segment with two triangles
/// spanning the inner and outer radius.
pub open spec fn spec_ring_vertex(inner: int, outer: int, n: int, q: int) -> VecG3 {
    let cell = q / 6;
    let t = q % 6;
    let r: int = if t == 0 || t == 3 || t == 5 { outer } else { inner };
    let d: int = if t == 2 || t == 4 || t == 5 { 1 } else { 0 };
    spec_polar(r, ((cell + d) * (FX_TWO_PI as int)) / n)
}

/// A point in the XZ plane at a given radius and angle.
pub open spec fn spec_polar(r: int, ang: int) -> VecG3 {
    let st = spec_sin_cos_q30(ang).0;
    let ct = spec_sin_cos_q30(ang).1;
    VecG3 {
        x: spec_tri_q60(r, ct, Q30 as int),
        y: 0,
        z: spec_tri_q60(r, st, Q30 as int),
    }
}

/// The planar point, as executable code.
fn polar(r: i64, ang: i64) -> (res: Vec3)
    requires
        0 <= r <= 0x100_0000,
        -0x4000_0000_0000_0000 <= ang <= 0x4000_0000_0000_0000,
    ensures
        vg3(res) == spec_polar(r as int, ang as int),
        vg3_in(vg3(res), 0x100_0000),
{
    let (st, ct) = sin_cos_q30(ang);
    Vec3 {
        x: tri_mul_q60(r, ct, 0x4000_0000),
        y: 0,
        z: tri_mul_q60(r, st, 0x4000_0000),
    }
}

/// Generates a flat ring (annulus) in the XZ plane centered at the
/// origin, spanning the inner to the outer radius: `n * 6` vertices
/// (the segment count clamped to at least three), each group of six
/// the two triangles of one angular segment.
pub fn generate_ring(inner_radius: i64, outer_radius: i64, segments: usize)
    -> (out: Vec<Vec3>)
    requires
        0 <= inner_radius <= 0x100_0000,
        0 <= outer_radius <= 0x100_0000,
        segments <= 4096,
    ensures
        out@.len() == spec_segments(segments as int) * 6,
        forall|k: int| 0 <= k < out@.len() ==> vg3(#[trigger] out@[k])
            == spec_ring_vertex(
                inner_radius as int, outer_radius as int,
                spec_segments(segments as int), k),
        forall|k: int| 0 <= k < out@.len()
            ==> vg3_in(vg3(#[trigger] out@[k]), 0x100_0000),
{
    let n: usize = if segments < 3 { 3 } else { segments };
    let ghost gn = n as int;
    let mut out: Vec<Vec3> = Vec::new();
    let mut i: usize = 0;
    while i < n
        invariant
            i <= n,
            3 <= n <= 4096,
            gn == n as int,
            gn == spec_segments(segments as int),
            0 <= inner_radius <= 0x100_0000,
            0 <= outer_radius <= 0x100_0000,
            out@.len() == (i as int) * 6,
            forall|k: int| 0 <= k < out@.len() ==> vg3(#[trigger] out@[k])
                == spec_ring_vertex(
                    inner_radius as int, outer_radius as int, gn, k),
            forall|k: int| 0 <= k < out@.len()
                ==> vg3_in(vg3(#[trigger] out@[k]), 0x100_0000),
        decreases n - i,
    {
        let a0: i64 = tdiv_by((i as i64) * FX_TWO_PI, n as i64);
        let a1: i64 = tdiv_by(((i + 1) as i64) * FX_TWO_PI, n as i64);
        let i0 = polar(inner_radius, a0);
        let i1 = polar(inner_radius, a1);
        let o0 = polar(outer_radius, a0);
        let o1 = polar(outer_radius, a1);
        let ghost base = out@.len() as int;
        out.push(o0);
        out.push(i0);
        out.push(i1);
        out.push(o0);
        out.push(i1);
        out.push(o1);
        proof {
            lemma_ring_cell(i as int);
            assert forall|k: int| 0 <= k < out@.len()
                implies vg3(#[trigger] out@[k]) == spec_ring_vertex(
                    inner_radius as int, outer_radius as int, gn, k) by {
                if k >= base {
                    assert(out@[k] == (
                        if k == base { o0 }
                        else if k == base + 1 { i0 }
                        else if k == base + 2 { i1 }
                        else if k == base + 3 { o0 }
                        else if k == base + 4 { i1 }
                        else { o1 }));
                }
            }
        }
        i = i + 1;
    }
    out
}

/// The six vertex positions of segment `i` decode back to the segment
/// index and corner offsets used to build them.
proof fn lemma_ring_cell(i: int)
    requires
        0 <= i,
    ensures
        forall|t: int| 0 <= t < 6 ==> #[trigger] ((i * 6 + t) / 6) == i
            && (i * 6 + t) % 6 == t,
{
    assert forall|t: int| 0 <= t < 6
        implies #[trigger] ((i * 6 + t) / 6) == i && (i * 6 + t) % 6 == t by {
        vstd::arithmetic::div_mod::lemma_fundamental_div_mod_converse(i * 6 + t, 6, i, t);
    }
}

} // verus!
