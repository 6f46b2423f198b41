//! Object-to-world orientation and the perspective projection to screen
//! space.
//!
//! The library holds no trigonometry: a `Transform` carries the sines and
//! cosines of its pitch and yaw angles as fixed-point scalars in
//! `-SCALE ..= SCALE`, supplied by the caller. Axis-aligned orientations are
//! exact (angle 0 is `(0, SCALE)`, a half turn is `(0, -SCALE)`).

use vstd::prelude::*;
use crate::fixed::{
    floor_div, floor_div_spec, fx_mul, fx_mul_spec, lemma_floor_div_abs_bound,
    lemma_fx_mul_unit_bound, lemma_mul_bound, wide_mul, HALF_SCALE, MAX_COORD, MAX_DIM, MAX_WORLD,
    SCALE,
};
use crate::triangle::in_coord_range;
use crate::vector::{in_range3, Vector3};

verus! {

/// An object's orientation (pitch around the x-axis, then yaw around the up
/// axis) and its position in world space.
pub struct Transform {
    /// Sine of the rotation around the x-axis, in `SCALE` units.
    pub pitch_sin: i64,
    /// Cosine of the rotation around the x-axis, in `SCALE` units.
    pub pitch_cos: i64,
    /// Sine of the rotation around the up axis, in `SCALE` units.
    pub yaw_sin: i64,
    /// Cosine of the rotation around the up axis, in `SCALE` units.
    pub yaw_cos: i64,
    /// World-space position added after the rotation.
    pub position: Vector3,
}

/// The first basis vector: where the object's x-axis lands in world space.
pub open spec fn spec_ihat(t: Transform) -> (int, int, int) {
    (
        t.yaw_cos as int,
        fx_mul_spec(t.pitch_sin as int, t.yaw_sin as int),
        -fx_mul_spec(t.pitch_cos as int, t.yaw_sin as int),
    )
}

/// The second basis vector: where the object's y-axis lands in world space.
pub open spec fn spec_jhat(t: Transform) -> (int, int, int) {
    (0int, t.pitch_cos as int, t.pitch_sin as int)
}

/// The third basis vector: where the object's z-axis lands in world space.
pub open spec fn spec_khat(t: Transform) -> (int, int, int) {
    (
        t.yaw_sin as int,
        -fx_mul_spec(t.pitch_sin as int, t.yaw_cos as int),
        fx_mul_spec(t.pitch_cos as int, t.yaw_cos as int),
    )
}

/// The rotated vertex: each basis vector scaled by the matching object-space
/// component, summed componentwise.
pub open spec fn spec_rotate(t: Transform, v: Vector3) -> (int, int, int) {
    let ih = spec_ihat(t);
    let jh = spec_jhat(t);
    let kh = spec_khat(t);
    (
        fx_mul_spec(ih.0, v.x as int) + fx_mul_spec(jh.0, v.y as int) + fx_mul_spec(
            kh.0,
            v.z as int,
        ),
        fx_mul_spec(ih.1, v.x as int) + fx_mul_spec(jh.1, v.y as int) + fx_mul_spec(
            kh.1,
            v.z as int,
        ),
        fx_mul_spec(ih.2, v.x as int) + fx_mul_spec(jh.2, v.y as int) + fx_mul_spec(
            kh.2,
            v.z as int,
        ),
    )
}

/// The world-space image of an object-space vertex: rotation, then the
/// transform's translation.
pub open spec fn spec_vertex_to_world(t: Transform, v: Vector3) -> (int, int, int) {
    let w = spec_rotate(t, v);
    (w.0 + t.position.x, w.1 + t.position.y, w.2 + t.position.z)
}

/// The screen-space image of an object-space vertex: world position, then
/// the perspective divide by the camera-space depth, shifted to the screen
/// center; the third component carries the camera-space depth itself.
pub open spec fn spec_vertex_to_screen(
    t: Transform,
    v: Vector3,
    width: int,
    height: int,
    pixel_scale: int,
) -> (int, int, int) {
    let w = spec_vertex_to_world(t, v);
    (
        floor_div_spec(w.0 * pixel_scale, w.2) + width * (HALF_SCALE as int),
        floor_div_spec(w.1 * pixel_scale, w.2) + height * (HALF_SCALE as int),
        w.2,
    )
}

/// Whether a vertex projects onto the fixed-point screen plane: it must lie
/// strictly in front of the camera, and its projection must stay within the
/// coordinate range the rasterizer accepts.
pub open spec fn spec_projectable(
    t: Transform,
    v: Vector3,
    width: int,
    height: int,
    pixel_scale: int,
) -> bool {
    let p = spec_vertex_to_screen(t, v, width, height, pixel_scale);
    &&& spec_vertex_to_world(t, v).2 > 0
    &&& -MAX_COORD <= p.0 <= MAX_COORD
    &&& -MAX_COORD <= p.1 <= MAX_COORD
}

impl Transform {
    /// Orientation components and position within the fixed-point range.
    pub open spec fn wf(&self) -> bool {
        &&& -SCALE <= self.pitch_sin <= SCALE
        &&& -SCALE <= self.pitch_cos <= SCALE
        &&& -SCALE <= self.yaw_sin <= SCALE
        &&& -SCALE <= self.yaw_cos <= SCALE
        &&& in_range3(self.position, MAX_WORLD as int)
    }

    /// Builds a transform from the sines and cosines of the rotation around
    /// the x-axis (pitch) and around the up axis (yaw), and a position.
    pub fn new(pitch_sin: i64, pitch_cos: i64, yaw_sin: i64, yaw_cos: i64, position: Vector3) -> (r:
        Transform)
        ensures
            r == (Transform { pitch_sin, pitch_cos, yaw_sin, yaw_cos, position }),
    {
        Transform { pitch_sin, pitch_cos, yaw_sin, yaw_cos, position }
    }

    /// The orthonormal basis derived from pitch and yaw, composed as
    /// yaw-then-pitch.
    fn get_basis_vectors(&self) -> (r: (Vector3, Vector3, Vector3))
        requires
            self.wf(),
        ensures
            (r.0.x as int, r.0.y as int, r.0.z as int) == spec_ihat(*self),
            (r.1.x as int, r.1.y as int, r.1.z as int) == spec_jhat(*self),
            (r.2.x as int, r.2.y as int, r.2.z as int) == spec_khat(*self),
            in_range3(r.0, SCALE as int),
            in_range3(r.1, SCALE as int),
            in_range3(r.2, SCALE as int),
    {
        proof {
            lemma_fx_mul_unit_bound(self.pitch_sin as int, self.yaw_sin as int, SCALE as int);
            lemma_fx_mul_unit_bound(self.pitch_cos as int, self.yaw_sin as int, SCALE as int);
            lemma_fx_mul_unit_bound(self.pitch_sin as int, self.yaw_cos as int, SCALE as int);
            lemma_fx_mul_unit_bound(self.pitch_cos as int, self.yaw_cos as int, SCALE as int);
        }
        let ihat = Vector3::new(
            self.yaw_cos,
            fx_mul(self.pitch_sin, self.yaw_sin),
            -fx_mul(self.pitch_cos, self.yaw_sin),
        );
        let jhat = Vector3::new(0, self.pitch_cos, self.pitch_sin);
        let khat = Vector3::new(
            self.yaw_sin,
            -fx_mul(self.pitch_sin, self.yaw_cos),
            fx_mul(self.pitch_cos, self.yaw_cos),
        );
        (ihat, jhat, khat)
    }

    /// Rotates a vertex into the frame spanned by the three basis vectors.
    fn transform_vector(&self, ih: &Vector3, jh: &Vector3, kh: &Vector3, vertex: &Vector3) -> (r:
        Vector3)
        requires
            in_range3(*ih, SCALE as int),
            in_range3(*jh, SCALE as int),
            in_range3(*kh, SCALE as int),
            in_range3(*vertex, MAX_WORLD as int),
        ensures
            r.x as int == fx_mul_spec(ih.x as int, vertex.x as int) + fx_mul_spec(
                jh.x as int,
                vertex.y as int,
            ) + fx_mul_spec(kh.x as int, vertex.z as int),
            r.y as int == fx_mul_spec(ih.y as int, vertex.x as int) + fx_mul_spec(
                jh.y as int,
                vertex.y as int,
            ) + fx_mul_spec(kh.y as int, vertex.z as int),
            r.z as int == fx_mul_spec(ih.z as int, vertex.x as int) + fx_mul_spec(
                jh.z as int,
                vertex.y as int,
            ) + fx_mul_spec(kh.z as int, vertex.z as int),
            in_range3(r, 3 * MAX_WORLD as int),
    {
        proof {
            lemma_fx_mul_unit_bound(ih.x as int, vertex.x as int, MAX_WORLD as int);
            lemma_fx_mul_unit_bound(ih.y as int, vertex.x as int, MAX_WORLD as int);
            lemma_fx_mul_unit_bound(ih.z as int, vertex.x as int, MAX_WORLD as int);
            lemma_fx_mul_unit_bound(jh.x as int, vertex.y as int, MAX_WORLD as int);
            lemma_fx_mul_unit_bound(jh.y as int, vertex.y as int, MAX_WORLD as int);
            lemma_fx_mul_unit_bound(jh.z as int, vertex.y as int, MAX_WORLD as int);
            lemma_fx_mul_unit_bound(kh.x as int, vertex.z as int, MAX_WORLD as int);
            lemma_fx_mul_unit_bound(kh.y as int, vertex.z as int, MAX_WORLD as int);
            lemma_fx_mul_unit_bound(kh.z as int, vertex.z as int, MAX_WORLD as int);
        }
        let x: i64 = fx_mul(ih.x, vertex.x) + fx_mul(jh.x, vertex.y) + fx_mul(kh.x, vertex.z);
        let y: i64 = fx_mul(ih.y, vertex.x) + fx_mul(jh.y, vertex.y) + fx_mul(kh.y, vertex.z);
        let z: i64 = fx_mul(ih.z, vertex.x) + fx_mul(jh.z, vertex.y) + fx_mul(kh.z, vertex.z);
        Vector3::new(x, y, z)
    }

    /// Maps an object-space vertex to world space: the pitch/yaw rotation
    /// followed by the transform's translation.
    pub fn vertex_to_world(&self, vertex: &Vector3) -> (r: Vector3)
        requires
            self.wf(),
            in_range3(*vertex, MAX_WORLD as int),
        ensures
            (r.x as int, r.y as int, r.z as int) == spec_vertex_to_world(*self, *vertex),
            in_range3(r, 4 * MAX_WORLD as int),
    {
        let (ihat, jhat, khat) = self.get_basis_vectors();
        let w = self.transform_vector(&ihat, &jhat, &khat, vertex);
        Vector3::new(w.x + self.position.x, w.y + self.position.y, w.z + self.position.z)
    }
}

/// Projects an object-space vertex into screen space: world transform, then
/// the perspective divide by the camera-space depth, shifted to the screen
/// center. The returned vector holds the two fixed-point pixel coordinates
/// and, in its third component, the camera-space depth of the vertex.
///
/// `pixel_scale` is the fixed-point magnification of the projection —
/// `height / (2 * tan(fov / 2))` in pixels per world unit — computed by the
/// caller, since it is a trigonometric function of the field of view.
///
/// A vertex at or behind the camera plane has no defined projection; such a
/// vertex, or one whose projection leaves the fixed-point screen range, is
/// reported as `None` and the pipeline skips the triangle that owns it.
pub fn vertex_to_screen(
    vertex: &Vector3,
    transform: &Transform,
    width: usize,
    height: usize,
    pixel_scale: i64,
) -> (r: Option<Vector3>)
    requires
        transform.wf(),
        in_range3(*vertex, MAX_WORLD as int),
        width <= MAX_DIM,
        height <= MAX_DIM,
        0 <= pixel_scale <= MAX_COORD,
    ensures
        r is Some <==> spec_projectable(
            *transform,
            *vertex,
            width as int,
            height as int,
            pixel_scale as int,
        ),
        r matches Some(s) ==> {
            let p = spec_vertex_to_screen(
                *transform,
                *vertex,
                width as int,
                height as int,
                pixel_scale as int,
            );
            &&& s.x == p.0
            &&& s.y == p.1
            &&& s.z == p.2
            &&& in_coord_range(s.xy())
            &&& 0 < s.z <= 4 * MAX_WORLD
        },
{
    let vertex_world = transform.vertex_to_world(vertex);
    if vertex_world.z <= 0 {
        return None;
    }
    let zc: i128 = vertex_world.z as i128;
    proof {
        lemma_mul_bound(
            vertex_world.x as int,
            pixel_scale as int,
            4 * MAX_WORLD as int,
            MAX_COORD as int,
        );
        lemma_mul_bound(
            vertex_world.y as int,
            pixel_scale as int,
            4 * MAX_WORLD as int,
            MAX_COORD as int,
        );
        lemma_floor_div_abs_bound(
            vertex_world.x as int * pixel_scale as int,
            zc as int,
            4 * MAX_WORLD as int * MAX_COORD as int,
        );
        lemma_floor_div_abs_bound(
            vertex_world.y as int * pixel_scale as int,
            zc as int,
            4 * MAX_WORLD as int * MAX_COORD as int,
        );
    }
    let px: i128 = floor_div(wide_mul(vertex_world.x, pixel_scale), zc) + (width as i128) * (
    HALF_SCALE as i128);
    let py: i128 = floor_div(wide_mul(vertex_world.y, pixel_scale), zc) + (height as i128) * (
    HALF_SCALE as i128);
    if px < -(MAX_COORD as i128) || px > MAX_COORD as i128 || py < -(MAX_COORD as i128) || py
        > MAX_COORD as i128 {
        return None;
    }
    Some(Vector3::new(px as i64, py as i64, vertex_world.z))
}

} // verus!
