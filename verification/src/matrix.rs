//! 4x4 fixed-point matrices and the transform stage.
//!
//! `Mat4` stores rows of fixed-point scalars; its ghost form `MatG`
//! holds unbounded integers so composed products can be written without
//! range side conditions.  The constructors build the model, view,
//! projection and viewport matrices of the pipeline, and `transform`
//! carries one vertex through all of them to screen space.

use vstd::prelude::*;
use crate::fixed::{
    fx_clamp, fx_div_sat, fx_mul, lemma_fx_mul_bound_all, lemma_fx_ok_products,
    spec_clamp, spec_fx_div_sat, spec_fx_mul, FX_LIM, FX_ONE, FX_SAT,
};
use crate::vec::{
    cross3, dot3, normalize3, spec_cross3, spec_dot3, spec_normalize3, vec3_sub,
    vg3, vg3_in, vg4, vg4_in, Vec3, Vec4, VecG3, VecG4,
};
use crate::trig::{sin_cos_fx, spec_cos_fx, spec_sin_fx};

verus! {

/// A 4x4 fixed-point matrix, row-major: `mRC` is row R, column C.
#[derive(Clone, Copy, PartialEq, Eq, Structural, Debug)]
pub struct Mat4 {
    pub m00: i64, pub m01: i64, pub m02: i64, pub m03: i64,
    pub m10: i64, pub m11: i64, pub m12: i64, pub m13: i64,
    pub m20: i64, pub m21: i64, pub m22: i64, pub m23: i64,
    pub m30: i64, pub m31: i64, pub m32: i64, pub m33: i64,
}

/// The ghost form of a 4x4 matrix: unbounded integer entries.
pub ghost struct MatG {
    pub m00: int, pub m01: int, pub m02: int, pub m03: int,
    pub m10: int, pub m11: int, pub m12: int, pub m13: int,
    pub m20: int, pub m21: int, pub m22: int, pub m23: int,
    pub m30: int, pub m31: int, pub m32: int, pub m33: int,
}

/// The ghost view of a matrix.
pub open spec fn mat_g(m: Mat4) -> MatG {
    MatG {
        m00: m.m00 as int, m01: m.m01 as int, m02: m.m02 as int, m03: m.m03 as int,
        m10: m.m10 as int, m11: m.m11 as int, m12: m.m12 as int, m13: m.m13 as int,
        m20: m.m20 as int, m21: m.m21 as int, m22: m.m22 as int, m23: m.m23 as int,
        m30: m.m30 as int, m31: m.m31 as int, m32: m.m32 as int, m33: m.m33 as int,
    }
}

/// Whether every entry has magnitude at most `b`.
pub open spec fn gmat_in(m: MatG, b: int) -> bool {
    &&& -b <= m.m00 <= b && -b <= m.m01 <= b && -b <= m.m02 <= b && -b <= m.m03 <= b
    &&& -b <= m.m10 <= b && -b <= m.m11 <= b && -b <= m.m12 <= b && -b <= m.m13 <= b
    &&& -b <= m.m20 <= b && -b <= m.m21 <= b && -b <= m.m22 <= b && -b <= m.m23 <= b
    &&& -b <= m.m30 <= b && -b <= m.m31 <= b && -b <= m.m32 <= b && -b <= m.m33 <= b
}

/// A four-term fixed-point dot product.
pub open spec fn g4(a0: int, b0: int, a1: int, b1: int, a2: int, b2: int, a3: int, b3: int) -> int {
    spec_fx_mul(a0, b0) + spec_fx_mul(a1, b1) + spec_fx_mul(a2, b2) + spec_fx_mul(a3, b3)
}

/// The fixed-point matrix product.
pub open spec fn gmul(a: MatG, b: MatG) -> MatG {
    MatG {
        m00: g4(a.m00, b.m00, a.m01, b.m10, a.m02, b.m20, a.m03, b.m30),
        m01: g4(a.m00, b.m01, a.m01, b.m11, a.m02, b.m21, a.m03, b.m31),
        m02: g4(a.m00, b.m02, a.m01, b.m12, a.m02, b.m22, a.m03, b.m32),
        m03: g4(a.m00, b.m03, a.m01, b.m13, a.m02, b.m23, a.m03, b.m33),
        m10: g4(a.m10, b.m00, a.m11, b.m10, a.m12, b.m20, a.m13, b.m30),
        m11: g4(a.m10, b.m01, a.m11, b.m11, a.m12, b.m21, a.m13, b.m31),
        m12: g4(a.m10, b.m02, a.m11, b.m12, a.m12, b.m22, a.m13, b.m32),
        m13: g4(a.m10, b.m03, a.m11, b.m13, a.m12, b.m23, a.m13, b.m33),
        m20: g4(a.m20, b.m00, a.m21, b.m10, a.m22, b.m20, a.m23, b.m30),
        m21: g4(a.m20, b.m01, a.m21, b.m11, a.m22, b.m21, a.m23, b.m31),
        m22: g4(a.m20, b.m02, a.m21, b.m12, a.m22, b.m22, a.m23, b.m32),
        m23: g4(a.m20, b.m03, a.m21, b.m13, a.m22, b.m23, a.m23, b.m33),
        m30: g4(a.m30, b.m00, a.m31, b.m10, a.m32, b.m20, a.m33, b.m30),
        m31: g4(a.m30, b.m01, a.m31, b.m11, a.m32, b.m21, a.m33, b.m31),
        m32: g4(a.m30, b.m02, a.m31, b.m12, a.m32, b.m22, a.m33, b.m32),
        m33: g4(a.m30, b.m03, a.m31, b.m13, a.m32, b.m23, a.m33, b.m33),
    }
}

/// The fixed-point product of a matrix and a homogeneous vector.
pub open spec fn gmv(m: MatG, v: VecG4) -> VecG4 {
    VecG4 {
        x: g4(m.m00, v.x, m.m01, v.y, m.m02, v.z, m.m03, v.w),
        y: g4(m.m10, v.x, m.m11, v.y, m.m12, v.z, m.m13, v.w),
        z: g4(m.m20, v.x, m.m21, v.y, m.m22, v.z, m.m23, v.w),
        w: g4(m.m30, v.x, m.m31, v.y, m.m32, v.z, m.m33, v.w),
    }
}

/// Entry bounds on both factors bound the entries of their product.
pub proof fn lemma_gmul_in(a: MatG, b: MatG, ba: int, bb: int)
    requires
        0 <= ba,
        0 <= bb,
        gmat_in(a, ba),
        gmat_in(b, bb),
    ensures
        gmat_in(gmul(a, b), 4 * ((ba * bb) / (FX_ONE as int))),
{
    lemma_fx_mul_bound_all(ba, bb);
}

/// Entry bounds on the matrix and component bounds on the vector bound
/// the product's components.
pub proof fn lemma_gmv_in(m: MatG, v: VecG4, bm: int, bv: int)
    requires
        0 <= bm,
        0 <= bv,
        gmat_in(m, bm),
        vg4_in(v, bv),
    ensures
        vg4_in(gmv(m, v), 4 * ((bm * bv) / (FX_ONE as int))),
{
    lemma_fx_mul_bound_all(bm, bv);
}

/// A matrix from 16 scalars in row-major order.
pub fn new_matrix4(
    r0c0: i64, r0c1: i64, r0c2: i64, r0c3: i64,
    r1c0: i64, r1c1: i64, r1c2: i64, r1c3: i64,
    r2c0: i64, r2c1: i64, r2c2: i64, r2c3: i64,
    r3c0: i64, r3c1: i64, r3c2: i64, r3c3: i64,
) -> (r: Mat4)
    ensures
        r == (Mat4 {
            m00: r0c0, m01: r0c1, m02: r0c2, m03: r0c3,
            m10: r1c0, m11: r1c1, m12: r1c2, m13: r1c3,
            m20: r2c0, m21: r2c1, m22: r2c2, m23: r2c3,
            m30: r3c0, m31: r3c1, m32: r3c2, m33: r3c3,
        }),
{
    Mat4 {
        m00: r0c0, m01: r0c1, m02: r0c2, m03: r0c3,
        m10: r1c0, m11: r1c1, m12: r1c2, m13: r1c3,
        m20: r2c0, m21: r2c1, m22: r2c2, m23: r2c3,
        m30: r3c0, m31: r3c1, m32: r3c2, m33: r3c3,
    }
}

/// A transform from a 3x3 matrix in row-major order: the last row and
/// column are those of the identity.
pub fn new_matrix3(
    r0c0: i64, r0c1: i64, r0c2: i64,
    r1c0: i64, r1c1: i64, r1c2: i64,
    r2c0: i64, r2c1: i64, r2c2: i64,
) -> (r: Mat4)
    ensures
        r == (Mat4 {
            m00: r0c0, m01: r0c1, m02: r0c2, m03: 0,
            m10: r1c0, m11: r1c1, m12: r1c2, m13: 0,
            m20: r2c0, m21: r2c1, m22: r2c2, m23: 0,
            m30: 0, m31: 0, m32: 0, m33: FX_ONE,
        }),
{
    new_matrix4(
        r0c0, r0c1, r0c2, 0,
        r1c0, r1c1, r1c2, 0,
        r2c0, r2c1, r2c2, 0,
        0, 0, 0, 65536,
    )
}

/// The fixed-point matrix product.
pub fn multiply_matrix_matrix(a: &Mat4, b: &Mat4) -> (r: Mat4)
    requires
        gmat_in(mat_g(*a), FX_LIM as int),
        gmat_in(mat_g(*b), FX_LIM as int),
    ensures
        mat_g(r) == gmul(mat_g(*a), mat_g(*b)),
{
    proof {
        lemma_fx_ok_products();
    }
    Mat4 {
        m00: fx_mul(a.m00, b.m00) + fx_mul(a.m01, b.m10) + fx_mul(a.m02, b.m20) + fx_mul(a.m03, b.m30),
        m01: fx_mul(a.m00, b.m01) + fx_mul(a.m01, b.m11) + fx_mul(a.m02, b.m21) + fx_mul(a.m03, b.m31),
        m02: fx_mul(a.m00, b.m02) + fx_mul(a.m01, b.m12) + fx_mul(a.m02, b.m22) + fx_mul(a.m03, b.m32),
        m03: fx_mul(a.m00, b.m03) + fx_mul(a.m01, b.m13) + fx_mul(a.m02, b.m23) + fx_mul(a.m03, b.m33),
        m10: fx_mul(a.m10, b.m00) + fx_mul(a.m11, b.m10) + fx_mul(a.m12, b.m20) + fx_mul(a.m13, b.m30),
        m11: fx_mul(a.m10, b.m01) + fx_mul(a.m11, b.m11) + fx_mul(a.m12, b.m21) + fx_mul(a.m13, b.m31),
        m12: fx_mul(a.m10, b.m02) + fx_mul(a.m11, b.m12) + fx_mul(a.m12, b.m22) + fx_mul(a.m13, b.m32),
        m13: fx_mul(a.m10, b.m03) + fx_mul(a.m11, b.m13) + fx_mul(a.m12, b.m23) + fx_mul(a.m13, b.m33),
        m20: fx_mul(a.m20, b.m00) + fx_mul(a.m21, b.m10) + fx_mul(a.m22, b.m20) + fx_mul(a.m23, b.m30),
        m21: fx_mul(a.m20, b.m01) + fx_mul(a.m21, b.m11) + fx_mul(a.m22, b.m21) + fx_mul(a.m23, b.m31),
        m22: fx_mul(a.m20, b.m02) + fx_mul(a.m21, b.m12) + fx_mul(a.m22, b.m22) + fx_mul(a.m23, b.m32),
        m23: fx_mul(a.m20, b.m03) + fx_mul(a.m21, b.m13) + fx_mul(a.m22, b.m23) + fx_mul(a.m23, b.m33),
        m30: fx_mul(a.m30, b.m00) + fx_mul(a.m31, b.m10) + fx_mul(a.m32, b.m20) + fx_mul(a.m33, b.m30),
        m31: fx_mul(a.m30, b.m01) + fx_mul(a.m31, b.m11) + fx_mul(a.m32, b.m21) + fx_mul(a.m33, b.m31),
        m32: fx_mul(a.m30, b.m02) + fx_mul(a.m31, b.m12) + fx_mul(a.m32, b.m22) + fx_mul(a.m33, b.m32),
        m33: fx_mul(a.m30, b.m03) + fx_mul(a.m31, b.m13) + fx_mul(a.m32, b.m23) + fx_mul(a.m33, b.m33),
    }
}

/// The fixed-point product of a matrix and a homogeneous vector.
pub fn multiply_matrix_vector4(matrix: &Mat4, vector: &Vec4) -> (r: Vec4)
    requires
        gmat_in(mat_g(*matrix), FX_LIM as int),
        vg4_in(vg4(*vector), FX_LIM as int),
    ensures
        vg4(r) == gmv(mat_g(*matrix), vg4(*vector)),
{
    proof {
        lemma_fx_ok_products();
    }
    let m = matrix;
    let v = vector;
    Vec4 {
        x: fx_mul(m.m00, v.x) + fx_mul(m.m01, v.y) + fx_mul(m.m02, v.z) + fx_mul(m.m03, v.w),
        y: fx_mul(m.m10, v.x) + fx_mul(m.m11, v.y) + fx_mul(m.m12, v.z) + fx_mul(m.m13, v.w),
        z: fx_mul(m.m20, v.x) + fx_mul(m.m21, v.y) + fx_mul(m.m22, v.z) + fx_mul(m.m23, v.w),
        w: fx_mul(m.m30, v.x) + fx_mul(m.m31, v.y) + fx_mul(m.m32, v.z) + fx_mul(m.m33, v.w),
    }
}

/// The fixed-point identity matrix.
pub open spec fn g_ident() -> MatG {
    MatG {
        m00: FX_ONE as int, m01: 0, m02: 0, m03: 0,
        m10: 0, m11: FX_ONE as int, m12: 0, m13: 0,
        m20: 0, m21: 0, m22: FX_ONE as int, m23: 0,
        m30: 0, m31: 0, m32: 0, m33: FX_ONE as int,
    }
}

/// The uniform scale matrix.
pub open spec fn g_scale(s: int) -> MatG {
    MatG {
        m00: s, m01: 0, m02: 0, m03: 0,
        m10: 0, m11: s, m12: 0, m13: 0,
        m20: 0, m21: 0, m22: s, m23: 0,
        m30: 0, m31: 0, m32: 0, m33: FX_ONE as int,
    }
}

/// Rotation about the X axis, from a sine and cosine pair.
pub open spec fn g_rot_x(s: int, c: int) -> MatG {
    MatG {
        m00: FX_ONE as int, m01: 0, m02: 0, m03: 0,
        m10: 0, m11: c, m12: -s, m13: 0,
        m20: 0, m21: s, m22: c, m23: 0,
        m30: 0, m31: 0, m32: 0, m33: FX_ONE as int,
    }
}

/// Rotation about the Y axis, from a sine and cosine pair.
pub open spec fn g_rot_y(s: int, c: int) -> MatG {
    MatG {
        m00: c, m01: 0, m02: s, m03: 0,
        m10: 0, m11: FX_ONE as int, m12: 0, m13: 0,
        m20: -s, m21: 0, m22: c, m23: 0,
        m30: 0, m31: 0, m32: 0, m33: FX_ONE as int,
    }
}

/// Rotation about the Z axis, from a sine and cosine pair.
pub open spec fn g_rot_z(s: int, c: int) -> MatG {
    MatG {
        m00: c, m01: -s, m02: 0, m03: 0,
        m10: s, m11: c, m12: 0, m13: 0,
        m20: 0, m21: 0, m22: FX_ONE as int, m23: 0,
        m30: 0, m31: 0, m32: 0, m33: FX_ONE as int,
    }
}

/// The translation matrix.
pub open spec fn g_translate(t: VecG3) -> MatG {
    MatG {
        m00: FX_ONE as int, m01: 0, m02: 0, m03: t.x,
        m10: 0, m11: FX_ONE as int, m12: 0, m13: t.y,
        m20: 0, m21: 0, m22: FX_ONE as int, m23: t.z,
        m30: 0, m31: 0, m32: 0, m33: FX_ONE as int,
    }
}

/// The model matrix: translation of the rotation (Z after Y after X) of
/// the uniform scale, composed in that fixed order.
pub open spec fn spec_model_matrix(t: VecG3, s: int, rot: VecG3) -> MatG {
    let rx = g_rot_x(spec_sin_fx(rot.x), spec_cos_fx(rot.x));
    let ry = g_rot_y(spec_sin_fx(rot.y), spec_cos_fx(rot.y));
    let rz = g_rot_z(spec_sin_fx(rot.z), spec_cos_fx(rot.z));
    gmul(g_translate(t), gmul(gmul(gmul(rz, ry), rx), g_scale(s)))
}

/// Builds the model matrix from translation, uniform scale and Euler
/// rotation angles, composed as translation * rotZ * rotY * rotX * scale.
pub fn create_model_matrix(translation: Vec3, scale: i64, rotation: Vec3) -> (r: Mat4)
    requires
        vg3_in(vg3(translation), 0x100_0000),
        0 <= scale <= 0x100_0000,
        vg3_in(vg3(rotation), 0x4000_0000_0000_0000),
    ensures
        mat_g(r) == spec_model_matrix(vg3(translation), scale as int, vg3(rotation)),
        gmat_in(mat_g(r), 0x1_0000_0000),
{
    let (sx, cx) = sin_cos_fx(rotation.x);
    let (sy, cy) = sin_cos_fx(rotation.y);
    let (sz, cz) = sin_cos_fx(rotation.z);
    let ms = new_matrix4(
        scale, 0, 0, 0,
        0, scale, 0, 0,
        0, 0, scale, 0,
        0, 0, 0, 65536,
    );
    let rx = new_matrix4(
        65536, 0, 0, 0,
        0, cx, -sx, 0,
        0, sx, cx, 0,
        0, 0, 0, 65536,
    );
    let ry = new_matrix4(
        cy, 0, sy, 0,
        0, 65536, 0, 0,
        -sy, 0, cy, 0,
        0, 0, 0, 65536,
    );
    let rz = new_matrix4(
        cz, -sz, 0, 0,
        sz, cz, 0, 0,
        0, 0, 65536, 0,
        0, 0, 0, 65536,
    );
    let mt = new_matrix4(
        65536, 0, 0, translation.x,
        0, 65536, 0, translation.y,
        0, 0, 65536, translation.z,
        0, 0, 0, 65536,
    );
    let m1 = multiply_matrix_matrix(&rz, &ry);
    proof {
        lemma_gmul_in(mat_g(rz), mat_g(ry), 65536, 65536);
    }
    let m2 = multiply_matrix_matrix(&m1, &rx);
    proof {
        lemma_gmul_in(mat_g(m1), mat_g(rx), 0x4_0000, 65536);
    }
    let m3 = multiply_matrix_matrix(&m2, &ms);
    proof {
        lemma_gmul_in(mat_g(m2), mat_g(ms), 0x10_0000, 0x100_0000);
    }
    let res = multiply_matrix_matrix(&mt, &m3);
    proof {
        crate::fixed::lemma_fx_mul_zero_all();
        crate::fixed::lemma_fx_mul_one_all();
        // The bottom row stays (0, 0, 0, one) through the chain, so the
        // final translation step only adds the translation column.
        assert(mat_g(m1).m30 == 0 && mat_g(m1).m31 == 0 && mat_g(m1).m32 == 0
            && mat_g(m1).m33 == FX_ONE as int);
        assert(mat_g(m2).m30 == 0 && mat_g(m2).m31 == 0 && mat_g(m2).m32 == 0
            && mat_g(m2).m33 == FX_ONE as int);
        assert(mat_g(m3).m30 == 0 && mat_g(m3).m31 == 0 && mat_g(m3).m32 == 0
            && mat_g(m3).m33 == FX_ONE as int);
        assert(gmat_in(mat_g(res), 0x1_0000_0000));
    }
    res
}

/// The look-at view matrix: rows are the normalized right, the true up
/// and the negated forward axis, with translation terms that subtract
/// each axis's dot product with the eye.  A degenerate frame (eye equal
/// to target, or up parallel to the view direction) yields clamped,
/// meaningless axes where a floating-point pipeline would yield NaN.
pub open spec fn spec_view_matrix(eye: VecG3, target: VecG3, up: VecG3) -> MatG {
    let f = spec_normalize3(
        VecG3 { x: target.x - eye.x, y: target.y - eye.y, z: target.z - eye.z });
    let r = spec_normalize3(spec_cross3(f, up));
    let u = spec_cross3(r, f);
    MatG {
        m00: r.x, m01: r.y, m02: r.z, m03: -spec_dot3(r, eye),
        m10: u.x, m11: u.y, m12: u.z, m13: -spec_dot3(u, eye),
        m20: -f.x, m21: -f.y, m22: -f.z, m23: spec_dot3(f, eye),
        m30: 0, m31: 0, m32: 0, m33: FX_ONE as int,
    }
}

/// Builds the look-at view matrix for a camera position, target and up
/// vector.
pub fn create_view_matrix(eye: Vec3, target: Vec3, up: Vec3) -> (r: Mat4)
    requires
        vg3_in(vg3(eye), 0x100_0000),
        vg3_in(vg3(target), 0x100_0000),
        vg3_in(vg3(up), 0x100_0000),
    ensures
        mat_g(r) == spec_view_matrix(vg3(eye), vg3(target), vg3(up)),
        gmat_in(mat_g(r), 0x4000_0000),
{
    let fwd = vec3_sub(target, eye);
    let f = normalize3(fwd);
    proof {
        lemma_fx_mul_bound_all(0x2_0000, 0x100_0000);
        lemma_fx_mul_bound_all(0x2_0000, 0x2_0000);
        lemma_fx_mul_bound_all(0x8_0000, 0x100_0000);
    }
    let r0 = cross3(f, up);
    let right = normalize3(r0);
    let u = cross3(right, f);
    let dr = dot3(right, eye);
    let du = dot3(u, eye);
    let df = dot3(f, eye);
    new_matrix4(
        right.x, right.y, right.z, -dr,
        u.x, u.y, u.z, -du,
        -f.x, -f.y, -f.z, df,
        0, 0, 0, 65536,
    )
}

/// The perspective projection matrix.  Entries that a floating-point
/// pipeline would send to infinity (a zero tangent or denominator) are
/// saturated to the working limit instead.
pub open spec fn spec_projection_matrix(fov_y: int, aspect: int, near: int, far: int) -> MatG {
    let half = crate::fixed::tdiv(fov_y, 2);
    let s = spec_sin_fx(half);
    let c = spec_cos_fx(half);
    let tan_half = if c == 0 { FX_SAT as int } else { spec_fx_div_sat(s, c) };
    let denom = spec_fx_mul(aspect, tan_half);
    let m00 = if denom == 0 { FX_LIM as int } else {
        spec_clamp(spec_fx_div_sat(FX_ONE as int, denom), -(FX_LIM as int), FX_LIM as int)
    };
    let m11 = if tan_half == 0 { FX_LIM as int } else {
        spec_clamp(spec_fx_div_sat(FX_ONE as int, tan_half), -(FX_LIM as int), FX_LIM as int)
    };
    let m22 = spec_clamp(
        spec_fx_div_sat(-(far + near), far - near), -(FX_LIM as int), FX_LIM as int);
    let m23 = spec_clamp(
        spec_fx_div_sat(-2 * spec_fx_mul(far, near), far - near),
        -(FX_LIM as int), FX_LIM as int);
    MatG {
        m00: m00, m01: 0, m02: 0, m03: 0,
        m10: 0, m11: m11, m12: 0, m13: 0,
        m20: 0, m21: 0, m22: m22, m23: m23,
        m30: 0, m31: 0, m32: -(FX_ONE as int), m33: 0,
    }
}

/// Builds the perspective projection matrix from a vertical field of
/// view in fixed-point radians, an aspect ratio and the near and far
/// plane distances, which must satisfy `0 < near < far`.
pub fn create_projection_matrix(fov_y: i64, aspect: i64, near: i64, far: i64) -> (r: Mat4)
    requires
        -0x4000_0000_0000_0000 <= fov_y <= 0x4000_0000_0000_0000,
        0 < aspect <= 0x100_0000,
        0 < near < far <= 0x1000_0000,
    ensures
        mat_g(r) == spec_projection_matrix(fov_y as int, aspect as int, near as int, far as int),
        gmat_in(mat_g(r), FX_LIM as int),
{
    let half = crate::fixed::tdiv_by(fov_y, 2);
    let (s, c) = sin_cos_fx(half);
    let tan_half = if c == 0 { FX_SAT } else { fx_div_sat(s, c) };
    proof {
        crate::fixed::lemma_fx_mul_bound(aspect as int, tan_half as int, 0x100_0000, FX_SAT as int);
        crate::fixed::lemma_fx_mul_bound(far as int, near as int, 0x1000_0000, 0x1000_0000);
    }
    let denom = fx_mul(aspect, tan_half);
    let m00 = if denom == 0 { FX_LIM } else {
        fx_clamp(fx_div_sat(65536, denom), -0x40_0000_0000, 0x40_0000_0000)
    };
    let m11 = if tan_half == 0 { FX_LIM } else {
        fx_clamp(fx_div_sat(65536, tan_half), -0x40_0000_0000, 0x40_0000_0000)
    };
    let m22 = fx_clamp(fx_div_sat(-(far + near), far - near), -0x40_0000_0000, 0x40_0000_0000);
    let m23 = fx_clamp(
        fx_div_sat(-2 * fx_mul(far, near), far - near), -0x40_0000_0000, 0x40_0000_0000);
    new_matrix4(
        m00, 0, 0, 0,
        0, m11, 0, 0,
        0, 0, m22, m23,
        0, 0, -65536, 0,
    )
}

/// The viewport matrix: maps normalized device x and y in [-1, 1] to
/// pixels, flipping y so screen y grows downward, and passes z through
/// unchanged for the depth test.
pub open spec fn spec_viewport_matrix(x: int, y: int, width: int, height: int) -> MatG {
    let hw = crate::fixed::tdiv(width, 2);
    let hh = crate::fixed::tdiv(height, 2);
    MatG {
        m00: hw, m01: 0, m02: 0, m03: x + hw,
        m10: 0, m11: -hh, m12: 0, m13: y + hh,
        m20: 0, m21: 0, m22: FX_ONE as int, m23: 0,
        m30: 0, m31: 0, m32: 0, m33: FX_ONE as int,
    }
}

/// Builds the viewport matrix for a pixel rectangle.
pub fn create_viewport_matrix(x: i64, y: i64, width: i64, height: i64) -> (r: Mat4)
    requires
        -0x1000_0000 <= x <= 0x1000_0000,
        -0x1000_0000 <= y <= 0x1000_0000,
        -0x1000_0000 <= width <= 0x1000_0000,
        -0x1000_0000 <= height <= 0x1000_0000,
    ensures
        mat_g(r) == spec_viewport_matrix(x as int, y as int, width as int, height as int),
        gmat_in(mat_g(r), 0x2000_0000),
{
    let hw = crate::fixed::tdiv_by(width, 2);
    let hh = crate::fixed::tdiv_by(height, 2);
    new_matrix4(
        hw, 0, 0, x + hw,
        0, -hh, 0, y + hh,
        0, 0, 65536, 0,
        0, 0, 0, 65536,
    )
}

/// One vertex carried through model, view and projection, divided by w,
/// then mapped by the viewport in x and y with z kept in normalized
/// device coordinates.  `None` stands for the values a floating-point
/// pipeline would make non-finite or that leave the working range: a
/// zero w (no clipping stage guards it) or components past `FX_LIM`.
pub open spec fn spec_transform(
    vertex: VecG3, translation: VecG3, scale: int, rotation: VecG3,
    view: MatG, projection: MatG, viewport: MatG,
) -> Option<VecG3> {
    let model = spec_model_matrix(translation, scale, rotation);
    let world = gmv(model, VecG4 { x: vertex.x, y: vertex.y, z: vertex.z, w: FX_ONE as int });
    if !vg4_in(world, FX_LIM as int) {
        None
    } else {
        let viewt = gmv(view, world);
        if !vg4_in(viewt, FX_LIM as int) {
            None
        } else {
            let proj = gmv(projection, viewt);
            if proj.w == 0 {
                None
            } else {
                let nx = spec_fx_div_sat(proj.x, proj.w);
                let ny = spec_fx_div_sat(proj.y, proj.w);
                let nz = spec_fx_div_sat(proj.z, proj.w);
                if !vg3_in(VecG3 { x: nx, y: ny, z: nz }, 0x4000_0000) {
                    None
                } else {
                    let screen = gmv(viewport, VecG4 { x: nx, y: ny, z: nz, w: FX_ONE as int });
                    Some(VecG3 { x: screen.x, y: screen.y, z: nz })
                }
            }
        }
    }
}

/// Applies the full vertex transform; see `spec_transform`.
pub fn transform(
    vertex: Vec3, translation: Vec3, scale: i64, rotation: Vec3,
    view: &Mat4, projection: &Mat4, viewport: &Mat4,
) -> (r: Option<Vec3>)
    requires
        vg3_in(vg3(vertex), 0x400_0000),
        vg3_in(vg3(translation), 0x100_0000),
        0 <= scale <= 0x100_0000,
        vg3_in(vg3(rotation), 0x4000_0000_0000_0000),
        gmat_in(mat_g(*view), FX_LIM as int),
        gmat_in(mat_g(*projection), FX_LIM as int),
        gmat_in(mat_g(*viewport), 0x2000_0000),
    ensures
        ({
            let s = spec_transform(
                vg3(vertex), vg3(translation), scale as int, vg3(rotation),
                mat_g(*view), mat_g(*projection), mat_g(*viewport));
            &&& (r is Some) == (s is Some)
            &&& r is Some ==> vg3(r->Some_0) == s->Some_0
            &&& r is Some ==> vg3_in(vg3(r->Some_0), 0x4000_0000_0000)
        }),
{
    let model = create_model_matrix(translation, scale, rotation);
    let vertex4 = Vec4 { x: vertex.x, y: vertex.y, z: vertex.z, w: 65536 };
    let world = multiply_matrix_vector4(&model, &vertex4);
    if world.x > FX_LIM || world.x < -FX_LIM || world.y > FX_LIM || world.y < -FX_LIM
        || world.z > FX_LIM || world.z < -FX_LIM || world.w > FX_LIM || world.w < -FX_LIM {
        return None;
    }
    let viewt = multiply_matrix_vector4(view, &world);
    if viewt.x > FX_LIM || viewt.x < -FX_LIM || viewt.y > FX_LIM || viewt.y < -FX_LIM
        || viewt.z > FX_LIM || viewt.z < -FX_LIM || viewt.w > FX_LIM || viewt.w < -FX_LIM {
        return None;
    }
    let proj = multiply_matrix_vector4(projection, &viewt);
    if proj.w == 0 {
        return None;
    }
    let nx = fx_div_sat(proj.x, proj.w);
    let ny = fx_div_sat(proj.y, proj.w);
    let nz = fx_div_sat(proj.z, proj.w);
    if nx > 0x4000_0000 || nx < -0x4000_0000 || ny > 0x4000_0000 || ny < -0x4000_0000
        || nz > 0x4000_0000 || nz < -0x4000_0000 {
        return None;
    }
    let ndc = Vec4 { x: nx, y: ny, z: nz, w: 65536 };
    let screen = multiply_matrix_vector4(viewport, &ndc);
    proof {
        lemma_gmv_in(mat_g(*viewport), vg4(ndc), 0x2000_0000, 0x4000_0000);
    }
    Some(Vec3 { x: screen.x, y: screen.y, z: nz })
}

/// With no rotation and unit scale the model matrix is a pure
/// translation: every point maps to itself plus the translation,
/// exactly, with the homogeneous coordinate untouched.
pub proof fn lemma_model_matrix_pure_translation(t: VecG3, p: VecG3)
    ensures
        gmv(
            spec_model_matrix(t, FX_ONE as int, VecG3 { x: 0, y: 0, z: 0 }),
            VecG4 { x: p.x, y: p.y, z: p.z, w: FX_ONE as int },
        ) == (VecG4 { x: p.x + t.x, y: p.y + t.y, z: p.z + t.z, w: FX_ONE as int }),
{
    crate::trig::lemma_sin_cos_zero();
    crate::fixed::lemma_fx_mul_zero_all();
    crate::fixed::lemma_fx_mul_one_all();
    let rz = g_rot_z(spec_sin_fx(0), spec_cos_fx(0));
    let ry = g_rot_y(spec_sin_fx(0), spec_cos_fx(0));
    let rx = g_rot_x(spec_sin_fx(0), spec_cos_fx(0));
    assert(gmul(rz, ry) == g_ident());
    assert(gmul(g_ident(), rx) == g_ident());
    assert(gmul(g_ident(), g_scale(FX_ONE as int)) == g_ident());
    assert(spec_model_matrix(t, FX_ONE as int, VecG3 { x: 0, y: 0, z: 0 })
        == gmul(g_translate(t), g_ident()));
    assert(gmul(g_translate(t), g_ident()) == g_translate(t));
}

/// The view matrix maps the eye to the origin of the camera frame
/// exactly: its translation terms are built from the same fixed-point
/// dot products that the matrix application recomputes, so they cancel
/// term by term, for every input including degenerate frames.
pub proof fn lemma_view_matrix_maps_eye_to_origin(eye: VecG3, target: VecG3, up: VecG3)
    ensures
        gmv(
            spec_view_matrix(eye, target, up),
            VecG4 { x: eye.x, y: eye.y, z: eye.z, w: FX_ONE as int },
        ) == (VecG4 { x: 0, y: 0, z: 0, w: FX_ONE as int }),
{
    crate::fixed::lemma_fx_mul_zero_all();
    crate::fixed::lemma_fx_mul_one_all();
    let f = spec_normalize3(
        VecG3 { x: target.x - eye.x, y: target.y - eye.y, z: target.z - eye.z });
    crate::fixed::lemma_fx_mul_neg(f.x, eye.x);
    crate::fixed::lemma_fx_mul_neg(f.y, eye.y);
    crate::fixed::lemma_fx_mul_neg(f.z, eye.z);
}

/// The view matrix puts the target on the negative-Z side of the
/// camera frame, up to three fixed-point rounding units: the z row is
/// the negated forward axis, whose components share their signs with
/// the eye-to-target difference, so the target's z coordinate is at
/// most the rounding slack of splitting each product term.
pub proof fn lemma_view_matrix_target_on_negative_z(eye: VecG3, target: VecG3, up: VecG3)
    ensures
        gmv(
            spec_view_matrix(eye, target, up),
            VecG4 { x: target.x, y: target.y, z: target.z, w: FX_ONE as int },
        ).z <= 3,
{
    crate::fixed::lemma_fx_mul_one_all();
    let d = VecG3 { x: target.x - eye.x, y: target.y - eye.y, z: target.z - eye.z };
    let f = spec_normalize3(d);
    crate::fixed::lemma_fx_mul_neg(f.x, target.x);
    crate::fixed::lemma_fx_mul_neg(f.y, target.y);
    crate::fixed::lemma_fx_mul_neg(f.z, target.z);
    crate::vec::lemma_normalize3_sign(d);
    lemma_split_term(f.x, eye.x, target.x);
    lemma_split_term(f.y, eye.y, target.y);
    lemma_split_term(f.z, eye.z, target.z);
}

/// One axis's share: the eye term exceeds the target term by at most
/// one unit more than the negated difference term.
proof fn lemma_split_term(f: int, e: int, t: int)
    ensures
        spec_fx_mul(f, e) - spec_fx_mul(f, t)
            <= 1 - spec_fx_mul(f, t - e),
{
    assert(f * t == f * e + f * (t - e)) by (nonlinear_arith);
    crate::fixed::lemma_tdiv_subadd(f * e, f * (t - e), FX_ONE as int);
}

} // verus!
