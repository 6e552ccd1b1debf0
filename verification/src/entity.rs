//! A scene entity: the per-object snapshot the caller hands the
//! pipeline each frame.

use vstd::prelude::*;
use crate::shader::VertexShader;
use crate::vec::Vec3;

verus! {

/// One renderable object: a name for identification, its transform
/// parameters, its object-space vertex soup (consecutive triples form
/// triangles), its vertex shader choice, and whether a tangent-facing
/// yaw from orbital motion should be added by the caller.
pub struct Entity {
    pub name: &'static str,
    pub translation: Vec3,
    pub rotation: Vec3,
    pub scale: i64,
    pub vertices: Vec<Vec3>,
    pub vshader: VertexShader,
    pub face_tangent: bool,
}

} // verus!
