//! The interpolated state carried from the rasterizer to the fragment
//! shader.

use vstd::prelude::*;
use crate::vec::Vec3;

verus! {

/// One shading fragment: `position` holds the integer pixel column and
/// row in `x` and `y` and the fixed-point depth in `z`; `depth` repeats
/// the depth; `color` is the rasterizer's lighting interpolant, which
/// the fragment shader overwrites; `obj_position` is the interpolated
/// object-space position used for stable procedural texturing.
#[derive(Clone, Copy, PartialEq, Eq, Structural, Debug)]
pub struct Fragment {
    pub position: Vec3,
    pub color: Vec3,
    pub depth: i64,
    pub obj_position: Vec3,
}

impl Fragment {
    /// Packs a fragment from its pixel coordinates, color, depth and
    /// object-space position.
    pub fn new(x: i64, y: i64, color: Vec3, depth: i64, obj_position: Vec3) -> (r: Fragment)
        ensures
            r == (Fragment {
                position: Vec3 { x, y, z: depth },
                color,
                depth,
                obj_position,
            }),
    {
        Fragment { position: Vec3 { x, y, z: depth }, color, depth, obj_position }
    }
}

} // verus!
