//! A software 3D rendering pipeline over fixed-point arithmetic.
//!
//! The crate transforms object-space vertices through model, view,
//! projection and viewport stages, assembles triangles, rasterizes them
//! with barycentric interpolation and depth testing, and colors each
//! fragment with procedural value-noise texturing.  Every scalar is a
//! signed 64-bit integer holding a real number scaled by 2^16, so the
//! whole pipeline is deterministic and free of non-finite values; the
//! places where a floating-point pipeline would produce infinities or
//! NaN are reported as `None` or clamped sentinels instead, and are
//! documented at each site.

pub mod entity;
pub mod fixed;
pub mod fragment;
pub mod framebuffer;
pub mod light;
pub mod line;
pub mod matrix;
pub mod trig;
pub mod procedural;
pub mod render;
pub mod shader;
pub mod triangle;
pub mod uniforms;
pub mod vec;
