//! SI-unit meshes ready for renderer upload, converted from the
//! tessellation kernel's output.

use vstd::prelude::*;

verus! {

/// Mesh ready for renderer upload: per-vertex positions and normals and a
/// triangle index list.
pub struct RenderableMesh<P> {
    pub positions: Vec<P>,
    pub normals: Vec<P>,
    pub indices: Vec<u32>,
}

impl<P> RenderableMesh<P> {
    /// Number of whole triangles in the index list.
    pub fn triangle_count(&self) -> (n: usize)
        ensures
            n == self.indices@.len() / 3,
    {
        self.indices.len() / 3
    }

    /// Number of vertices.
    pub fn vertex_count(&self) -> (n: usize)
        ensures
            n == self.positions@.len(),
    {
        self.positions.len()
    }
}

} // verus!
