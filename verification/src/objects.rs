//! The renderable object handed to the pipeline: a triangulated mesh with
//! per-triangle colors and a transform.

use vstd::prelude::*;
use crate::fixed::MAX_WORLD;
use crate::transforms::Transform;
use crate::vector::{in_range3, Vector3};

verus! {

/// A triangulated mesh: a flat list of vertices, three consecutive entries
/// per triangle (no shared index buffer), one color per triangle, and the
/// object's transform. The transform is the only field a frame loop mutates.
pub struct Model {
    pub vertices: Vec<Vector3>,
    pub triangle_colors: Vec<Vector3>,
    pub transform: Transform,
}

impl Model {
    /// The number of triangles the mesh holds.
    pub open spec fn spec_triangle_count(&self) -> nat {
        self.vertices@.len() / 3
    }

    /// Structural invariant: the vertex list is whole triangles, and every
    /// triangle has its color.
    pub open spec fn wf(&self) -> bool {
        &&& self.vertices@.len() % 3 == 0
        &&& self.triangle_colors@.len() == self.spec_triangle_count()
    }

    /// Every vertex within the fixed-point world range, and the transform
    /// well-formed: what the render pipeline needs to run its arithmetic.
    pub open spec fn in_world_range(&self) -> bool {
        &&& self.transform.wf()
        &&& forall|i: int|
            0 <= i < self.vertices@.len() ==> in_range3(
                #[trigger] self.vertices@[i],
                MAX_WORLD as int,
            )
    }

    /// Builds a model; the caller supplies already-triangulated vertices and
    /// one color per triangle.
    pub fn new(vertices: Vec<Vector3>, triangle_colors: Vec<Vector3>, transform: Transform) -> (r:
        Model)
        requires
            vertices@.len() % 3 == 0,
            triangle_colors@.len() == vertices@.len() / 3,
        ensures
            r.vertices == vertices,
            r.triangle_colors == triangle_colors,
            r.transform == transform,
            r.wf(),
    {
        Model { vertices, triangle_colors, transform }
    }
}

} // verus!
