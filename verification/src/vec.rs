//! Two-, three- and four-component fixed-point vectors.
//!
//! The `VecG*` ghost forms hold unbounded integers, so composed
//! transform specifications never worry about machine ranges; the view
//! functions `vg3` and `vg4` relate an executable vector to its ghost
//! form.

use vstd::prelude::*;
use crate::fixed::{
    fx_ok, fx_div_sat, fx_mul, fx_sqrt, lemma_fx_ok_products, spec_clamp,
    spec_fx_div_sat, spec_fx_mul, spec_isqrt, FX_LIM, FX_ONE,
};

verus! {

/// A 2D fixed-point vector.
#[derive(Clone, Copy, PartialEq, Eq, Structural, Debug)]
pub struct Vec2 {
    pub x: i64,
    pub y: i64,
}

/// A 3D fixed-point vector.
#[derive(Clone, Copy, PartialEq, Eq, Structural, Debug)]
pub struct Vec3 {
    pub x: i64,
    pub y: i64,
    pub z: i64,
}

/// A homogeneous 4D fixed-point vector.
#[derive(Clone, Copy, PartialEq, Eq, Structural, Debug)]
pub struct Vec4 {
    pub x: i64,
    pub y: i64,
    pub z: i64,
    pub w: i64,
}

/// The ghost form of a 3D vector: unbounded integer components.
pub ghost struct VecG3 {
    pub x: int,
    pub y: int,
    pub z: int,
}

/// The ghost form of a homogeneous 4D vector.
pub ghost struct VecG4 {
    pub x: int,
    pub y: int,
    pub z: int,
    pub w: int,
}

impl Vec3 {
    /// Constructs a vector from its components.
    pub fn new(x: i64, y: i64, z: i64) -> (r: Vec3)
        ensures
            r == (Vec3 { x, y, z }),
    {
        Vec3 { x, y, z }
    }
}

/// The ghost view of a 3D vector.
pub open spec fn vg3(v: Vec3) -> VecG3 {
    VecG3 { x: v.x as int, y: v.y as int, z: v.z as int }
}

/// The ghost view of a 4D vector.
pub open spec fn vg4(v: Vec4) -> VecG4 {
    VecG4 { x: v.x as int, y: v.y as int, z: v.z as int, w: v.w as int }
}

/// Whether every component has magnitude at most `m`.
pub open spec fn vg3_in(v: VecG3, m: int) -> bool {
    -m <= v.x <= m && -m <= v.y <= m && -m <= v.z <= m
}

/// Whether every component has magnitude at most `m`.
pub open spec fn vg4_in(v: VecG4, m: int) -> bool {
    -m <= v.x <= m && -m <= v.y <= m && -m <= v.z <= m && -m <= v.w <= m
}

/// The fixed-point dot product of two 3D vectors.
pub open spec fn spec_dot3(a: VecG3, b: VecG3) -> int {
    spec_fx_mul(a.x, b.x) + spec_fx_mul(a.y, b.y) + spec_fx_mul(a.z, b.z)
}

/// The fixed-point cross product of two 3D vectors.
pub open spec fn spec_cross3(a: VecG3, b: VecG3) -> VecG3 {
    VecG3 {
        x: spec_fx_mul(a.y, b.z) - spec_fx_mul(a.z, b.y),
        y: spec_fx_mul(a.z, b.x) - spec_fx_mul(a.x, b.z),
        z: spec_fx_mul(a.x, b.y) - spec_fx_mul(a.y, b.x),
    }
}

/// The fixed-point squared length of a 3D vector.
pub open spec fn spec_len_sq3(v: VecG3) -> int {
    spec_dot3(v, v)
}

/// The fixed-point length of a 3D vector: the integer square root of
/// the squared length scaled up by one unit.
pub open spec fn spec_len3(v: VecG3) -> int {
    spec_isqrt((spec_len_sq3(v) * (FX_ONE as int)) as nat) as int
}

/// A vector scaled to unit length, saturated to twice one unit per
/// component; the zero vector (which a floating-point pipeline would
/// turn into NaN) stays zero.
pub open spec fn spec_normalize3(v: VecG3) -> VecG3 {
    let l = spec_len3(v);
    if l == 0 {
        VecG3 { x: 0, y: 0, z: 0 }
    } else {
        VecG3 {
            x: spec_clamp(spec_fx_div_sat(v.x, l), -2 * (FX_ONE as int), 2 * (FX_ONE as int)),
            y: spec_clamp(spec_fx_div_sat(v.y, l), -2 * (FX_ONE as int), 2 * (FX_ONE as int)),
            z: spec_clamp(spec_fx_div_sat(v.z, l), -2 * (FX_ONE as int), 2 * (FX_ONE as int)),
        }
    }
}

/// Each normalized component keeps the sign of its input, so its
/// fixed-point product with the input is nonnegative.
pub proof fn lemma_normalize3_sign(v: VecG3)
    ensures
        0 <= spec_fx_mul(spec_normalize3(v).x, v.x),
        0 <= spec_fx_mul(spec_normalize3(v).y, v.y),
        0 <= spec_fx_mul(spec_normalize3(v).z, v.z),
{
    crate::fixed::lemma_fx_mul_zero_all();
    let l = spec_len3(v);
    if l != 0 {
        lemma_component_sign(v.x, l);
        lemma_component_sign(v.y, l);
        lemma_component_sign(v.z, l);
    }
}

/// A saturated, clamped quotient keeps the sign of its dividend, and
/// so its product with the dividend is nonnegative.
proof fn lemma_component_sign(x: int, l: int)
    requires
        0 < l,
    ensures
        0 <= spec_fx_mul(
            spec_clamp(spec_fx_div_sat(x, l), -2 * (FX_ONE as int), 2 * (FX_ONE as int)),
            x),
{
    let q = crate::fixed::tdiv(x * (FX_ONE as int), l);
    let n = spec_clamp(
        spec_clamp(q, -(crate::fixed::FX_SAT as int), crate::fixed::FX_SAT as int),
        -2 * (FX_ONE as int), 2 * (FX_ONE as int));
    if x >= 0 {
        crate::fixed::lemma_tdiv_mono(0, x * (FX_ONE as int), l);
        assert(0 <= n * x) by (nonlinear_arith)
            requires
                0 <= n && 0 <= x,
        ;
    } else {
        crate::fixed::lemma_tdiv_mono(x * (FX_ONE as int), 0, l);
        assert(0 <= n * x) by (nonlinear_arith)
            requires
                n <= 0 && x <= 0,
        ;
    }
    crate::fixed::lemma_tdiv_mono(0, n * x, FX_ONE as int);
}

/// The fixed-point dot product.
pub fn dot3(a: Vec3, b: Vec3) -> (r: i64)
    requires
        vg3_in(vg3(a), FX_LIM as int),
        vg3_in(vg3(b), FX_LIM as int),
    ensures
        r == spec_dot3(vg3(a), vg3(b)),
{
    proof {
        lemma_fx_ok_products();
    }
    let px = fx_mul(a.x, b.x);
    let py = fx_mul(a.y, b.y);
    let pz = fx_mul(a.z, b.z);
    px + py + pz
}

/// The fixed-point cross product.
pub fn cross3(a: Vec3, b: Vec3) -> (r: Vec3)
    requires
        vg3_in(vg3(a), FX_LIM as int),
        vg3_in(vg3(b), FX_LIM as int),
    ensures
        vg3(r) == spec_cross3(vg3(a), vg3(b)),
{
    proof {
        lemma_fx_ok_products();
    }
    Vec3 {
        x: fx_mul(a.y, b.z) - fx_mul(a.z, b.y),
        y: fx_mul(a.z, b.x) - fx_mul(a.x, b.z),
        z: fx_mul(a.x, b.y) - fx_mul(a.y, b.x),
    }
}

/// Componentwise sum.
pub fn vec3_add(a: Vec3, b: Vec3) -> (r: Vec3)
    requires
        vg3_in(vg3(a), FX_LIM as int),
        vg3_in(vg3(b), FX_LIM as int),
    ensures
        vg3(r) == (VecG3 {
            x: a.x + b.x,
            y: a.y + b.y,
            z: a.z + b.z,
        }),
{
    Vec3 { x: a.x + b.x, y: a.y + b.y, z: a.z + b.z }
}

/// Componentwise difference.
pub fn vec3_sub(a: Vec3, b: Vec3) -> (r: Vec3)
    requires
        vg3_in(vg3(a), FX_LIM as int),
        vg3_in(vg3(b), FX_LIM as int),
    ensures
        vg3(r) == (VecG3 {
            x: a.x - b.x,
            y: a.y - b.y,
            z: a.z - b.z,
        }),
{
    Vec3 { x: a.x - b.x, y: a.y - b.y, z: a.z - b.z }
}

/// The vector scaled by a fixed-point factor.
pub fn vec3_scale(v: Vec3, s: i64) -> (r: Vec3)
    requires
        vg3_in(vg3(v), FX_LIM as int),
        fx_ok(s as int),
    ensures
        vg3(r) == (VecG3 {
            x: spec_fx_mul(v.x as int, s as int),
            y: spec_fx_mul(v.y as int, s as int),
            z: spec_fx_mul(v.z as int, s as int),
        }),
{
    proof {
        lemma_fx_ok_products();
    }
    Vec3 { x: fx_mul(v.x, s), y: fx_mul(v.y, s), z: fx_mul(v.z, s) }
}

/// The fixed-point length of a vector.
pub fn vec3_length(v: Vec3) -> (r: i64)
    requires
        vg3_in(vg3(v), 0x4000_0000),
    ensures
        r == spec_len3(vg3(v)),
        0 <= r,
        r == 0 <==> spec_len_sq3(vg3(v)) == 0,
{
    proof {
        lemma_fx_ok_products();
        crate::fixed::lemma_fx_mul_bound(v.x as int, v.x as int, 0x4000_0000, 0x4000_0000);
        crate::fixed::lemma_fx_mul_bound(v.y as int, v.y as int, 0x4000_0000, 0x4000_0000);
        crate::fixed::lemma_fx_mul_bound(v.z as int, v.z as int, 0x4000_0000, 0x4000_0000);
    }
    let d = dot3(v, v);
    let l = fx_sqrt(d);
    proof {
        if spec_len_sq3(vg3(v)) == 0 {
            assert(spec_isqrt(0nat) == 0);
        } else {
            crate::fixed::lemma_isqrt_is_sqrt((d * (FX_ONE as int)) as nat);
            assert(l != 0) by (nonlinear_arith)
                requires
                    crate::fixed::is_sqrt(d * (FX_ONE as int), l as int),
                    d as int >= 1,
            ;
        }
    }
    l
}

/// The vector scaled to unit length, saturated componentwise; zero
/// stays zero.
pub fn normalize3(v: Vec3) -> (r: Vec3)
    requires
        vg3_in(vg3(v), 0x4000_0000),
    ensures
        vg3(r) == spec_normalize3(vg3(v)),
        vg3_in(vg3(r), 2 * (FX_ONE as int)),
{
    let l = vec3_length(v);
    if l == 0 {
        Vec3 { x: 0, y: 0, z: 0 }
    } else {
        let sx = fx_div_sat(v.x, l);
        let sy = fx_div_sat(v.y, l);
        let sz = fx_div_sat(v.z, l);
        Vec3 {
            x: crate::fixed::fx_clamp(sx, -2 * 65536, 2 * 65536),
            y: crate::fixed::fx_clamp(sy, -2 * 65536, 2 * 65536),
            z: crate::fixed::fx_clamp(sz, -2 * 65536, 2 * 65536),
        }
    }
}

} // verus!
