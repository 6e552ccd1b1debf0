//! Per-frame shading inputs and color conversions.

use vstd::prelude::*;
use crate::fixed::{fx_clamp, lemma_tdiv_prod_bound, spec_clamp, tdiv, tdiv_by, FX_ONE};
use crate::vec::{Vec2, Vec3, VecG3, vg3};

verus! {

/// An 8-bit-per-channel color, the framebuffer's pixel representation.
#[derive(Clone, Copy, PartialEq, Eq, Structural, Debug)]
pub struct Rgb {
    pub r: u8,
    pub g: u8,
    pub b: u8,
}

/// Read-only per-frame shading inputs: elapsed time in fixed-point
/// seconds, the viewport resolution in pixels, the color-temperature
/// bias in [0, 1] and the emission-intensity multiplier.
#[derive(Clone, Copy, PartialEq, Eq, Structural, Debug)]
pub struct Uniforms {
    pub time: i64,
    pub resolution: Vec2,
    pub temp: i64,
    pub intensity: i64,
}

/// One 8-bit channel as a fixed-point value in [0, 1].
pub open spec fn spec_channel_to_fx(c: u8) -> int {
    tdiv(c * (FX_ONE as int), 255)
}

/// One fixed-point value clamped to [0, 1] as an 8-bit channel.
pub open spec fn spec_fx_to_channel(x: int) -> int {
    tdiv(spec_clamp(x, 0, FX_ONE as int) * 255, FX_ONE as int)
}

/// An 8-bit color as a fixed-point vector with components in [0, 1].
pub fn color_to_vec3(c: Rgb) -> (r: Vec3)
    ensures
        vg3(r) == (VecG3 {
            x: spec_channel_to_fx(c.r),
            y: spec_channel_to_fx(c.g),
            z: spec_channel_to_fx(c.b),
        }),
        0 <= r.x <= FX_ONE && 0 <= r.y <= FX_ONE && 0 <= r.z <= FX_ONE,
{
    proof {
        lemma_tdiv_prod_bound(c.r as int, FX_ONE as int, 255, FX_ONE as int, 255);
        lemma_tdiv_prod_bound(c.g as int, FX_ONE as int, 255, FX_ONE as int, 255);
        lemma_tdiv_prod_bound(c.b as int, FX_ONE as int, 255, FX_ONE as int, 255);
    }
    Vec3 {
        x: tdiv_by((c.r as i64) * 65536, 255),
        y: tdiv_by((c.g as i64) * 65536, 255),
        z: tdiv_by((c.b as i64) * 65536, 255),
    }
}

/// A fixed-point color as an 8-bit color, each channel clamped to
/// [0, 1] and scaled.
pub open spec fn spec_vec3_to_color(v: VecG3) -> Rgb {
    Rgb {
        r: spec_fx_to_channel(v.x) as u8,
        g: spec_fx_to_channel(v.y) as u8,
        b: spec_fx_to_channel(v.z) as u8,
    }
}

/// A fixed-point color, clamped to [0, 1] per channel, as an 8-bit
/// color.
pub fn vec3_to_color(v: Vec3) -> (r: Rgb)
    ensures
        r.r == spec_fx_to_channel(v.x as int),
        r.g == spec_fx_to_channel(v.y as int),
        r.b == spec_fx_to_channel(v.z as int),
        r == spec_vec3_to_color(vg3(v)),
{
    let cx = fx_clamp(v.x, 0, 65536);
    let cy = fx_clamp(v.y, 0, 65536);
    let cz = fx_clamp(v.z, 0, 65536);
    proof {
        lemma_tdiv_prod_bound(cx as int, 255, FX_ONE as int, 255, FX_ONE as int);
        lemma_tdiv_prod_bound(cy as int, 255, FX_ONE as int, 255, FX_ONE as int);
        lemma_tdiv_prod_bound(cz as int, 255, FX_ONE as int, 255, FX_ONE as int);
    }
    Rgb {
        r: tdiv_by(cx * 255, 65536) as u8,
        g: tdiv_by(cy * 255, 65536) as u8,
        b: tdiv_by(cz * 255, 65536) as u8,
    }
}

} // verus!
