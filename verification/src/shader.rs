//! The programmable shading stages.
//!
//! The vertex stage either passes a vertex through or displaces it
//! along its outward direction by an animated fractal-noise flare; the
//! fragment stage colors a fragment from a time-cycling turbulence
//! sample over its object-space direction, a temperature-biased
//! three-stop gradient, and an additive emission flicker.  The tuning
//! constants are fixed and named below.

use vstd::prelude::*;
use crate::fixed::{
    fx_abs, fx_clamp, fx_mul, lemma_fx_mul_bound, lemma_fx_ok_products, spec_clamp,
    spec_fx_mul, FX_LIM, FX_ONE,
};
use crate::fragment::Fragment;
use crate::procedural::{
    fbm, lemma_lerp_bounds, lerp, spec_fbm, spec_lerp, value_noise3,
    spec_value_noise3,
};
use crate::uniforms::Uniforms;
use crate::vec::{
    normalize3, spec_len3, spec_normalize3, vec3_add, vec3_length, vec3_scale, vg3,
    vg3_in, Vec3, VecG3,
};

verus! {

/// The spatial frequency of the flare displacement: one quarter.
pub const FLARE_FREQ: i64 = 16384;

/// The time-scroll rate of the flare displacement: one fifth.
pub const FLARE_RATE: i64 = 13107;

/// The flare displacement amplitude in object units: 0.35.
pub const FLARE_AMP: i64 = 22938;

/// The flare octave count.
pub const FLARE_OCTAVES: u32 = 4;

/// The flare lacunarity: two.
pub const FLARE_LACUNARITY: i64 = 131072;

/// The flare gain: one half.
pub const FLARE_GAIN: i64 = 32768;

/// The closed set of vertex shader variants.
#[derive(Clone, Copy, PartialEq, Eq, Structural, Debug)]
pub enum VertexShader {
    Identity,
    SolarFlare,
}

/// The vertex stage: the identity, or the solar-flare displacement of
/// the vertex along its outward direction (its normalized position, or
/// the fixed +z direction at the exact origin) by the remapped fractal
/// noise of its scaled, time-scrolled position.
pub open spec fn spec_apply_vertex_shader(v: VecG3, shader: VertexShader, time: int) -> VecG3 {
    match shader {
        VertexShader::Identity => v,
        VertexShader::SolarFlare => {
            let dir = if spec_len3(v) > 0 {
                spec_normalize3(v)
            } else {
                VecG3 { x: 0, y: 0, z: FX_ONE as int }
            };
            let p = VecG3 {
                x: spec_fx_mul(v.x, FLARE_FREQ as int),
                y: spec_fx_mul(v.y, FLARE_FREQ as int),
                z: spec_fx_mul(v.z, FLARE_FREQ as int) + spec_fx_mul(time, FLARE_RATE as int),
            };
            let n = spec_fbm(p, FLARE_OCTAVES as nat, FLARE_LACUNARITY as int,
                FLARE_GAIN as int);
            let flare = spec_fx_mul(2 * n - FX_ONE as int, FLARE_AMP as int);
            VecG3 {
                x: v.x + spec_fx_mul(dir.x, flare),
                y: v.y + spec_fx_mul(dir.y, flare),
                z: v.z + spec_fx_mul(dir.z, flare),
            }
        },
    }
}

/// Applies the selected vertex shader to one object-space vertex.
pub fn apply_vertex_shader(v: Vec3, shader: &VertexShader, time: i64) -> (r: Vec3)
    requires
        vg3_in(vg3(v), 0x100_0000),
        0 <= time <= FX_LIM,
    ensures
        vg3(r) == spec_apply_vertex_shader(vg3(v), *shader, time as int),
        vg3_in(vg3(r), 0x200_0000),
{
    match shader {
        VertexShader::Identity => v,
        VertexShader::SolarFlare => {
            proof {
                lemma_fx_ok_products();
            }
            let len = vec3_length(v);
            let dir = if len > 0 {
                normalize3(v)
            } else {
                Vec3 { x: 0, y: 0, z: 65536 }
            };
            let p = Vec3 {
                x: fx_mul(v.x, FLARE_FREQ),
                y: fx_mul(v.y, FLARE_FREQ),
                z: fx_mul(v.z, FLARE_FREQ) + fx_mul(time, FLARE_RATE),
            };
            proof {
                lemma_fx_mul_bound(v.x as int, FLARE_FREQ as int, 0x100_0000, 16384);
                lemma_fx_mul_bound(v.y as int, FLARE_FREQ as int, 0x100_0000, 16384);
                lemma_fx_mul_bound(v.z as int, FLARE_FREQ as int, 0x100_0000, 16384);
                lemma_fx_mul_bound(time as int, FLARE_RATE as int, FX_LIM as int, 16384);
            }
            let n = fbm(p, FLARE_OCTAVES, FLARE_LACUNARITY, FLARE_GAIN);
            let flare = fx_mul(2 * n - 65536, FLARE_AMP);
            proof {
                lemma_fx_mul_bound(2 * n - 65536, FLARE_AMP as int, 0x80_0000, 32768);
                lemma_fx_mul_bound(dir.x as int, flare as int, 0x2_0000, 0x40_0000);
                lemma_fx_mul_bound(dir.y as int, flare as int, 0x2_0000, 0x40_0000);
                lemma_fx_mul_bound(dir.z as int, flare as int, 0x2_0000, 0x40_0000);
            }
            vec3_add(v, vec3_scale(dir, flare))
        },
    }
}

/// The three-stop temperature gradient: warm red-orange through yellow
/// to white with a slight blue tint, two linear segments switching at
/// the midpoint, of a temperature clamped to [0, 1].
pub open spec fn spec_temperature_to_rgb(t: int) -> VecG3 {
    let tc = spec_clamp(t, 0, FX_ONE as int);
    if tc < 32768 {
        let k = 2 * tc;
        VecG3 { x: FX_ONE as int, y: spec_lerp(13107, FX_ONE as int, k), z: 0 }
    } else {
        let k = 2 * (tc - 32768);
        VecG3 { x: FX_ONE as int, y: FX_ONE as int, z: spec_lerp(0, 19661, k) }
    }
}

/// The temperature gradient, as executable code.
pub fn temperature_to_rgb(t: i64) -> (r: Vec3)
    ensures
        vg3(r) == spec_temperature_to_rgb(t as int),
        vg3_in(vg3(r), FX_ONE as int),
        0 <= r.x && 0 <= r.y && 0 <= r.z,
{
    let tc = fx_clamp(t, 0, 65536);
    if tc < 32768 {
        let k: i64 = 2 * tc;
        let g = lerp(13107, 65536, k);
        proof {
            lemma_lerp_bounds(13107, 65536, k as int, 0, FX_ONE as int);
        }
        Vec3 { x: 65536, y: g, z: 0 }
    } else {
        let k: i64 = 2 * (tc - 32768);
        let b = lerp(0, 19661, k);
        proof {
            lemma_lerp_bounds(0, 19661, k as int, 0, FX_ONE as int);
        }
        Vec3 { x: 65536, y: 65536, z: b }
    }
}

/// The fragment stage: the stable surface direction from the
/// object-space position (left as given at the exact origin), a
/// time-cycling turbulence sample, the view-facing term, the
/// temperature-biased gradient and the additive emission flicker,
/// clamped to [0, 1] per channel.
pub open spec fn spec_fragment_shader(obj: VecG3, time: int, temp: int, intensity: int)
    -> VecG3 {
    let one = FX_ONE as int;
    let dir = if spec_len3(obj) > 0 { spec_normalize3(obj) } else { obj };
    let tloop = (time % (8 * one)) / 8;
    let p3 = VecG3 { x: 3 * dir.x, y: 3 * dir.y, z: 8 * tloop };
    let turb = spec_fbm(p3, 5, 131072, 36045);
    let facing = if dir.z >= 0 { dir.z } else { -dir.z };
    let base_core = spec_clamp(facing, 0, one);
    let intensity_c = spec_clamp(
        spec_fx_mul(
            spec_fx_mul(base_core, 45875) + spec_fx_mul(turb, 39322), intensity),
        0, one);
    let color_base = spec_temperature_to_rgb(
        spec_clamp(spec_fx_mul(intensity_c + spec_fx_mul(temp, 52429), 45875), 0, one));
    let sp = VecG3 {
        x: 10 * dir.x + spec_fx_mul(time, 111411),
        y: 10 * dir.y - spec_fx_mul(time, 85197),
        z: spec_fx_mul(time, 32768),
    };
    let n2 = 2 * spec_value_noise3(sp) - one;
    let spikes = if n2 >= 0 { n2 } else { -n2 };
    let emission = spec_clamp(
        spec_fx_mul(intensity_c, 39322) + spec_fx_mul(spikes, 52429), 0, 98304);
    VecG3 {
        x: spec_clamp(spec_fx_mul(color_base.x, emission), 0, one),
        y: spec_clamp(spec_fx_mul(color_base.y, emission), 0, one),
        z: spec_clamp(spec_fx_mul(color_base.z, emission), 0, one),
    }
}

/// Colors one fragment from the per-frame uniforms.
pub fn fragment_shader(fragment: &Fragment, u: &Uniforms) -> (r: Vec3)
    requires
        vg3_in(vg3(fragment.obj_position), 0x4000_0000),
        0 <= u.time <= FX_LIM,
        0 <= u.temp <= FX_ONE,
        0 <= u.intensity <= 2 * FX_ONE,
    ensures
        vg3(r) == spec_fragment_shader(
            vg3(fragment.obj_position), u.time as int, u.temp as int, u.intensity as int),
        vg3_in(vg3(r), FX_ONE as int),
        0 <= r.x && 0 <= r.y && 0 <= r.z,
{
    proof {
        lemma_fx_ok_products();
    }
    let obj = fragment.obj_position;
    let len = vec3_length(obj);
    let dir = if len > 0 { normalize3(obj) } else { obj };
    let tloop: i64 = (u.time % 524288) / 8;
    let p3 = Vec3 { x: 3 * dir.x, y: 3 * dir.y, z: 8 * tloop };
    let turb = fbm(p3, 5, 131072, 36045);
    let facing = fx_abs(dir.z);
    let base_core = fx_clamp(facing, 0, 65536);
    proof {
        lemma_fx_mul_bound(base_core as int, 45875, FX_ONE as int, 45875);
        lemma_fx_mul_bound(turb as int, 39322, 0x20_0000, 39322);
        lemma_fx_mul_bound(u.temp as int, 52429, FX_ONE as int, 52429);
    }
    let intensity_c = fx_clamp(
        fx_mul(fx_mul(base_core, 45875) + fx_mul(turb, 39322), u.intensity),
        0, 65536);
    let color_base = temperature_to_rgb(
        fx_clamp(fx_mul(intensity_c + fx_mul(u.temp, 52429), 45875), 0, 65536));
    let sp = Vec3 {
        x: 10 * dir.x + fx_mul(u.time, 111411),
        y: 10 * dir.y - fx_mul(u.time, 85197),
        z: fx_mul(u.time, 32768),
    };
    proof {
        lemma_fx_mul_bound(u.time as int, 111411, FX_LIM as int, 131072);
        lemma_fx_mul_bound(u.time as int, 85197, FX_LIM as int, 131072);
        lemma_fx_mul_bound(u.time as int, 32768, FX_LIM as int, 131072);
    }
    let n = value_noise3(sp);
    let n2: i64 = 2 * n - 65536;
    let spikes = fx_abs(n2);
    let emission = fx_clamp(
        fx_mul(intensity_c, 39322) + fx_mul(spikes, 52429), 0, 98304);
    Vec3 {
        x: fx_clamp(fx_mul(color_base.x, emission), 0, 65536),
        y: fx_clamp(fx_mul(color_base.y, emission), 0, 65536),
        z: fx_clamp(fx_mul(color_base.z, emission), 0, 65536),
    }
}

} // verus!
