//! The directional light the rasterizer samples for its base lighting
//! interpolant.

use vstd::prelude::*;
use crate::vec::Vec3;

verus! {

/// A light, given by its position; the rasterizer normalizes it into a
/// direction.
#[derive(Clone, Copy, PartialEq, Eq, Structural, Debug)]
pub struct Light {
    pub position: Vec3,
}

impl Light {
    /// A light at the given position.
    pub fn new(position: Vec3) -> (r: Light)
        ensures
            r == (Light { position }),
    {
        Light { position }
    }
}

} // verus!
