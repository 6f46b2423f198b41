//! The render pipeline: per-triangle bounding-box scan, inside test,
//! depth-interpolating rasterization, and the drivers that walk a mesh.
//!
//! A screen-space triangle vertex is a `Vector3` whose `x`/`y` are
//! fixed-point pixel coordinates and whose `z` is the camera-space depth
//! carried along for the depth test. Depth is interpolated with the exact
//! rational barycentric weights (the raw sub-areas over their total), floored
//! once at the end.

use vstd::prelude::*;
use crate::fixed::{
    floor_div, floor_div_spec, lemma_div_lower_bound, lemma_div_upper_bound,
    lemma_floor_div_bounds, lemma_mul_bound, MAX_COORD, MAX_DEPTH, MAX_DIM, SCALE,
};
use crate::image::{lemma_grid_index_in_range, lemma_grid_index_injective, lemma_grid_unflatten, DEPTH_FAR};
use crate::objects::Model;
use crate::render_target::RenderTarget;
use crate::transforms::{spec_projectable, spec_vertex_to_screen, vertex_to_screen, Transform};
use crate::triangle::{
    area_bound, covers, doubled_area, in_coord_range, lemma_area_bound, lemma_covers_in_hull,
    signed_triangle_area,
};
use crate::vector::{Vector2, Vector3};

verus! {

/// The sample point of pixel `(x, y)` — its integer coordinate in
/// fixed-point screen space.
pub open spec fn pixel_center(x: int, y: int) -> Vector2 {
    Vector2 { x: (x * SCALE) as i64, y: (y * SCALE) as i64 }
}

/// A screen-space vertex acceptable to the rasterizer: pixel coordinates in
/// range, depth non-negative and within the fixed-point depth range.
pub open spec fn screen_vertex_ok(v: Vector3) -> bool {
    &&& in_coord_range(v.xy())
    &&& 0 <= v.z <= MAX_DEPTH
}

/// The interpolated camera-space depth of the triangle's surface over a
/// point: the depths of the three corners weighted by the sub-areas, floored
/// once after the division by the total.
pub open spec fn spec_pixel_depth(a: Vector3, b: Vector3, c: Vector3, p: Vector2) -> int {
    let a12 = doubled_area(a.xy(), b.xy(), p);
    let a23 = doubled_area(b.xy(), c.xy(), p);
    let a31 = doubled_area(c.xy(), a.xy(), p);
    floor_div_spec(a12 * a.z + a23 * b.z + a31 * c.z, a12 + a23 + a31)
}

/// Whether the triangle paints pixel `(x, y)` over a cell holding
/// `old_depth`: the pixel center is covered, and the triangle's surface lies
/// strictly nearer than what the cell holds.
pub open spec fn spec_paints(a: Vector3, b: Vector3, c: Vector3, x: int, y: int, old_depth: i64) -> bool {
    let p = pixel_center(x, y);
    &&& covers(a.xy(), b.xy(), c.xy(), p)
    &&& spec_pixel_depth(a, b, c, p) < old_depth
}

/// The color cell at `(x, y)` after rasterizing one triangle.
pub open spec fn spec_raster_color_at(
    a: Vector3,
    b: Vector3,
    c: Vector3,
    color: Vector3,
    x: int,
    y: int,
    old_color: Vector3,
    old_depth: i64,
) -> Vector3 {
    if spec_paints(a, b, c, x, y, old_depth) {
        color
    } else {
        old_color
    }
}

/// The depth cell at `(x, y)` after rasterizing one triangle.
pub open spec fn spec_raster_depth_at(
    a: Vector3,
    b: Vector3,
    c: Vector3,
    x: int,
    y: int,
    old_depth: i64,
) -> i64 {
    if spec_paints(a, b, c, x, y, old_depth) {
        spec_pixel_depth(a, b, c, pixel_center(x, y)) as i64
    } else {
        old_depth
    }
}

/// The first pixel row or column whose center can reach a fixed-point
/// coordinate minimum, floored and clamped into the grid.
pub open spec fn clamp_low_spec(min_c: int, dim: int) -> int {
    if min_c <= 0 {
        0
    } else if min_c / (SCALE as int) >= dim {
        dim - 1
    } else {
        min_c / (SCALE as int)
    }
}

/// One past the last pixel row or column whose center can stay within a
/// fixed-point coordinate maximum, clamped into the grid.
pub open spec fn clamp_high_spec(max_c: int, dim: int) -> int {
    if max_c < 0 {
        0
    } else if max_c / (SCALE as int) + 1 >= dim {
        dim - 1
    } else {
        max_c / (SCALE as int) + 1
    }
}

/// A triangle's screen-space bounding box, clamped into the pixel grid;
/// bounds are inclusive, as the scan visits both ends.
pub struct BBox {
    pub min_x: usize,
    pub min_y: usize,
    pub max_x: usize,
    pub max_y: usize,
}

/// The smaller of two scalars.
fn min_i64(u: i64, v: i64) -> (r: i64)
    ensures
        r == vstd::math::min(u as int, v as int),
{
    if u < v {
        u
    } else {
        v
    }
}

/// The larger of two scalars.
fn max_i64(u: i64, v: i64) -> (r: i64)
    ensures
        r == vstd::math::max(u as int, v as int),
{
    if u > v {
        u
    } else {
        v
    }
}

/// One clamped bounding-box edge from a fixed-point coordinate minimum:
/// the first pixel column (or row) whose center can reach the coordinate.
fn clamp_low(min_c: i64, dim: usize) -> (r: usize)
    requires
        0 < dim <= MAX_DIM,
        -MAX_COORD <= min_c <= MAX_COORD,
    ensures
        r == clamp_low_spec(min_c as int, dim as int),
        r < dim,
        forall|x: int| 0 <= x < dim && min_c <= #[trigger] (x * SCALE) ==> r <= x,
{
    if min_c <= 0 {
        0
    } else {
        let q: u64 = (min_c as u64) / (SCALE as u64);
        proof {
            assert forall|x: int| 0 <= x < dim && min_c <= #[trigger] (x * SCALE) implies q
                <= x by {
                lemma_div_lower_bound(min_c as int, SCALE as int, x);
            }
        }
        if q >= dim as u64 {
            proof {
                assert forall|x: int| 0 <= x < dim && min_c <= #[trigger] (x * SCALE) implies
                    false by {
                    lemma_div_lower_bound(min_c as int, SCALE as int, x);
                }
            }
            dim - 1
        } else {
            q as usize
        }
    }
}

/// One clamped bounding-box edge from a fixed-point coordinate maximum:
/// one past the last pixel column (or row) whose center can stay within the
/// coordinate, clamped to the grid.
fn clamp_high(max_c: i64, dim: usize) -> (r: usize)
    requires
        0 < dim <= MAX_DIM,
        -MAX_COORD <= max_c <= MAX_COORD,
    ensures
        r == clamp_high_spec(max_c as int, dim as int),
        r < dim,
        forall|x: int| 0 <= x < dim && #[trigger] (x * SCALE) <= max_c ==> x <= r,
{
    if max_c < 0 {
        proof {
            assert forall|x: int| 0 <= x < dim && #[trigger] (x * SCALE) <= max_c implies x
                <= 0 by {
                assert(0 * SCALE == 0) by (nonlinear_arith);
                assert(x >= 1 ==> x * SCALE >= SCALE) by (nonlinear_arith);
            }
        }
        0
    } else {
        let q: u64 = (max_c as u64) / (SCALE as u64) + 1;
        proof {
            assert forall|x: int| 0 <= x < dim && #[trigger] (x * SCALE) <= max_c implies x
                <= q by {
                lemma_div_upper_bound(max_c as int, SCALE as int, x);
            }
        }
        if q >= dim as u64 {
            dim - 1
        } else {
            q as usize
        }
    }
}

/// The triangle's screen bounding box, floored/widened to whole pixels and
/// clamped into the grid. Every in-grid pixel whose center the triangle's
/// coordinate extent can reach lies inside the box.
pub fn determine_bounding_box(a: &Vector3, b: &Vector3, c: &Vector3, width: usize, height: usize) -> (r: BBox)
    requires
        in_coord_range(a.xy()),
        in_coord_range(b.xy()),
        in_coord_range(c.xy()),
        0 < width <= MAX_DIM,
        0 < height <= MAX_DIM,
    ensures
        r.min_x == clamp_low_spec(
            vstd::math::min(vstd::math::min(a.x as int, b.x as int), c.x as int),
            width as int,
        ),
        r.min_y == clamp_low_spec(
            vstd::math::min(vstd::math::min(a.y as int, b.y as int), c.y as int),
            height as int,
        ),
        r.max_x == clamp_high_spec(
            vstd::math::max(vstd::math::max(a.x as int, b.x as int), c.x as int),
            width as int,
        ),
        r.max_y == clamp_high_spec(
            vstd::math::max(vstd::math::max(a.y as int, b.y as int), c.y as int),
            height as int,
        ),
        r.min_x < width,
        r.max_x < width,
        r.min_y < height,
        r.max_y < height,
        forall|x: int, y: int|
            0 <= x < width && 0 <= y < height && covers(a.xy(), b.xy(), c.xy(), pixel_center(x, y))
                ==> r.min_x <= x <= r.max_x && r.min_y <= y <= r.max_y,
{
    let min_x_c: i64 = min_i64(a.x, min_i64(b.x, c.x));
    let min_y_c: i64 = min_i64(a.y, min_i64(b.y, c.y));
    let max_x_c: i64 = max_i64(a.x, max_i64(b.x, c.x));
    let max_y_c: i64 = max_i64(a.y, max_i64(b.y, c.y));
    let r = BBox {
        min_x: clamp_low(min_x_c, width),
        min_y: clamp_low(min_y_c, height),
        max_x: clamp_high(max_x_c, width),
        max_y: clamp_high(max_y_c, height),
    };
    proof {
        assert forall|x: int, y: int|
            0 <= x < width && 0 <= y < height && covers(
                a.xy(),
                b.xy(),
                c.xy(),
                pixel_center(x, y),
            ) implies r.min_x <= x <= r.max_x && r.min_y <= y <= r.max_y by {
            lemma_covers_in_hull(a.xy(), b.xy(), c.xy(), pixel_center(x, y));
            assert(pixel_center(x, y).x == x * SCALE);
            assert(pixel_center(x, y).y == y * SCALE);
            assert(min_x_c <= x * SCALE && x * SCALE <= max_x_c);
            assert(min_y_c <= y * SCALE && y * SCALE <= max_y_c);
        }
    }
    r
}

/// The interpolated depth of a covered pixel stays between the corner
/// depths, so it fits wherever the corner depths fit.
pub proof fn lemma_pixel_depth_bounds(a: Vector3, b: Vector3, c: Vector3, p: Vector2)
    requires
        covers(a.xy(), b.xy(), c.xy(), p),
        0 <= a.z <= MAX_DEPTH,
        0 <= b.z <= MAX_DEPTH,
        0 <= c.z <= MAX_DEPTH,
    ensures
        0 <= spec_pixel_depth(a, b, c, p) <= MAX_DEPTH,
        ({
            let a12 = doubled_area(a.xy(), b.xy(), p);
            let a23 = doubled_area(b.xy(), c.xy(), p);
            let a31 = doubled_area(c.xy(), a.xy(), p);
            0 <= a12 * a.z + a23 * b.z + a31 * c.z <= (a12 + a23 + a31) * MAX_DEPTH
        }),
{
    let a12 = doubled_area(a.xy(), b.xy(), p);
    let a23 = doubled_area(b.xy(), c.xy(), p);
    let a31 = doubled_area(c.xy(), a.xy(), p);
    let t = a12 + a23 + a31;
    let num = a12 * a.z + a23 * b.z + a31 * c.z;
    assert(0 * t <= num && num <= t * MAX_DEPTH && (a12 + a23 + a31) * MAX_DEPTH == t * MAX_DEPTH
        && t * MAX_DEPTH == MAX_DEPTH * t) by (nonlinear_arith)
        requires
            0 <= a12,
            0 <= a23,
            0 <= a31,
            t == a12 + a23 + a31,
            num == a12 * a.z + a23 * b.z + a31 * c.z,
            0 <= a.z <= MAX_DEPTH,
            0 <= b.z <= MAX_DEPTH,
            0 <= c.z <= MAX_DEPTH,
    ;
    lemma_floor_div_bounds(num, t, 0, MAX_DEPTH as int);
}

/// Rasterizes one screen-space triangle into the target: scans the clamped
/// bounding box, and paints every pixel whose center the triangle covers and
/// whose interpolated depth lies strictly nearer than the depth cell —
/// ties and farther surfaces leave both cells unchanged.
pub fn paint_in_triangle(a: &Vector3, b: &Vector3, c: &Vector3, color: Vector3, render_target: &mut RenderTarget)
    requires
        old(render_target).wf(),
        screen_vertex_ok(*a),
        screen_vertex_ok(*b),
        screen_vertex_ok(*c),
    ensures
        final(render_target).wf(),
        final(render_target).spec_width() == old(render_target).spec_width(),
        final(render_target).spec_height() == old(render_target).spec_height(),
        forall|x: int, y: int|
            0 <= x < old(render_target).spec_width() && 0 <= y < old(render_target).spec_height()
                ==> final(render_target).image_buffer.cell(x, y) == spec_raster_color_at(
                *a,
                *b,
                *c,
                color,
                x,
                y,
                old(render_target).image_buffer.cell(x, y),
                old(render_target).depth_buffer.cell(x, y),
            ) && final(render_target).depth_buffer.cell(x, y) == spec_raster_depth_at(
                *a,
                *b,
                *c,
                x,
                y,
                old(render_target).depth_buffer.cell(x, y),
            ),
{
    let width = render_target.get_width();
    let height = render_target.get_height();
    let bbox = determine_bounding_box(a, b, c, width, height);
    let a2d = Vector2::new(a.x, a.y);
    let b2d = Vector2::new(b.x, b.y);
    let c2d = Vector2::new(c.x, c.y);
    let mut y: usize = bbox.min_y;
    while y <= bbox.max_y
        invariant
            render_target.wf(),
            render_target.spec_width() == old(render_target).spec_width(),
            render_target.spec_height() == old(render_target).spec_height(),
            width == old(render_target).spec_width(),
            height == old(render_target).spec_height(),
            bbox.min_x < width,
            bbox.max_x < width,
            bbox.min_y <= y,
            bbox.max_y < height,
            screen_vertex_ok(*a),
            screen_vertex_ok(*b),
            screen_vertex_ok(*c),
            a2d == a.xy(),
            b2d == b.xy(),
            c2d == c.xy(),
            forall|ix: int, iy: int|
                0 <= ix < width && 0 <= iy < height ==> #[trigger] render_target.image_buffer.cell(
                    ix,
                    iy,
                ) == if bbox.min_x <= ix <= bbox.max_x && bbox.min_y <= iy < y {
                    spec_raster_color_at(
                        *a,
                        *b,
                        *c,
                        color,
                        ix,
                        iy,
                        old(render_target).image_buffer.cell(ix, iy),
                        old(render_target).depth_buffer.cell(ix, iy),
                    )
                } else {
                    old(render_target).image_buffer.cell(ix, iy)
                },
            forall|ix: int, iy: int|
                0 <= ix < width && 0 <= iy < height ==> #[trigger] render_target.depth_buffer.cell(
                    ix,
                    iy,
                ) == if bbox.min_x <= ix <= bbox.max_x && bbox.min_y <= iy < y {
                    spec_raster_depth_at(
                        *a,
                        *b,
                        *c,
                        ix,
                        iy,
                        old(render_target).depth_buffer.cell(ix, iy),
                    )
                } else {
                    old(render_target).depth_buffer.cell(ix, iy)
                },
        decreases bbox.max_y + 1 - y,
    {
        let mut x: usize = bbox.min_x;
        while x <= bbox.max_x
            invariant
                render_target.wf(),
                render_target.spec_width() == old(render_target).spec_width(),
                render_target.spec_height() == old(render_target).spec_height(),
                width == old(render_target).spec_width(),
                height == old(render_target).spec_height(),
                bbox.min_x <= x,
                bbox.max_x < width,
                bbox.min_y <= y <= bbox.max_y,
                bbox.max_y < height,
                screen_vertex_ok(*a),
                screen_vertex_ok(*b),
                screen_vertex_ok(*c),
                a2d == a.xy(),
                b2d == b.xy(),
                c2d == c.xy(),
                forall|ix: int, iy: int|
                    0 <= ix < width && 0 <= iy < height ==> #[trigger] render_target.image_buffer.cell(
                        ix,
                        iy,
                    ) == if bbox.min_x <= ix <= bbox.max_x && (bbox.min_y <= iy < y || (iy == y
                        && bbox.min_x <= ix < x)) {
                        spec_raster_color_at(
                            *a,
                            *b,
                            *c,
                            color,
                            ix,
                            iy,
                            old(render_target).image_buffer.cell(ix, iy),
                            old(render_target).depth_buffer.cell(ix, iy),
                        )
                    } else {
                        old(render_target).image_buffer.cell(ix, iy)
                    },
                forall|ix: int, iy: int|
                    0 <= ix < width && 0 <= iy < height ==> #[trigger] render_target.depth_buffer.cell(
                        ix,
                        iy,
                    ) == if bbox.min_x <= ix <= bbox.max_x && (bbox.min_y <= iy < y || (iy == y
                        && bbox.min_x <= ix < x)) {
                        spec_raster_depth_at(
                            *a,
                            *b,
                            *c,
                            ix,
                            iy,
                            old(render_target).depth_buffer.cell(ix, iy),
                        )
                    } else {
                        old(render_target).depth_buffer.cell(ix, iy)
                    },
            decreases bbox.max_x + 1 - x,
        {
            let p = Vector2::new((x as i64) * SCALE, (y as i64) * SCALE);
            proof {
                assert(p == pixel_center(x as int, y as int));
            }
            let ghost prev = *render_target;
            let area_12p: i128 = signed_triangle_area(&a2d, &b2d, &p);
            let area_23p: i128 = signed_triangle_area(&b2d, &c2d, &p);
            let area_31p: i128 = signed_triangle_area(&c2d, &a2d, &p);
            proof {
                lemma_area_bound(a2d, b2d, p);
                lemma_area_bound(b2d, c2d, p);
                lemma_area_bound(c2d, a2d, p);
            }
            let current_color: Vector3 = *render_target.image_buffer.get(x, y);
            let current_depth: i64 = *render_target.depth_buffer.get(x, y);
            let mut new_color: Vector3 = current_color;
            let mut new_depth: i64 = current_depth;
            if area_12p >= 0 && area_23p >= 0 && area_31p >= 0 {
                let total: i128 = area_12p + area_23p + area_31p;
                if total > 0 {
                    proof {
                        lemma_mul_bound(area_12p as int, a.z as int, area_bound(), MAX_DEPTH as int);
                        lemma_mul_bound(area_23p as int, b.z as int, area_bound(), MAX_DEPTH as int);
                        lemma_mul_bound(area_31p as int, c.z as int, area_bound(), MAX_DEPTH as int);
                        lemma_pixel_depth_bounds(*a, *b, *c, p);
                    }
                    let num: i128 = area_12p * (a.z as i128) + area_23p * (b.z as i128) + area_31p
                        * (c.z as i128);
                    let depth: i64 = floor_div(num, total) as i64;
                    proof {
                        assert(depth == spec_pixel_depth(*a, *b, *c, p));
                    }
                    if depth < current_depth {
                        new_color = color;
                        new_depth = depth;
                    }
                }
            }
            proof {
                assert(current_color == old(render_target).image_buffer.cell(x as int, y as int));
                assert(current_depth == old(render_target).depth_buffer.cell(x as int, y as int));
                assert(new_color == spec_raster_color_at(
                    *a,
                    *b,
                    *c,
                    color,
                    x as int,
                    y as int,
                    current_color,
                    current_depth,
                ));
                assert(new_depth == spec_raster_depth_at(
                    *a,
                    *b,
                    *c,
                    x as int,
                    y as int,
                    current_depth,
                ));
            }
            render_target.image_buffer.set(x, y, new_color);
            render_target.depth_buffer.set(x, y, new_depth);
            proof {
                lemma_paint_step_frame(
                    prev,
                    *render_target,
                    width as int,
                    height as int,
                    x as int,
                    y as int,
                    new_color,
                    new_depth,
                );
            }
            x += 1;
        }
        y += 1;
    }
    proof {
        assert forall|x: int, y: int| 0 <= x < width && 0 <= y < height implies
            render_target.image_buffer.cell(x, y) == spec_raster_color_at(
                *a,
                *b,
                *c,
                color,
                x,
                y,
                old(render_target).image_buffer.cell(x, y),
                old(render_target).depth_buffer.cell(x, y),
            ) && render_target.depth_buffer.cell(x, y) == spec_raster_depth_at(
                *a,
                *b,
                *c,
                x,
                y,
                old(render_target).depth_buffer.cell(x, y),
            ) by {
            if !(bbox.min_x <= x <= bbox.max_x && bbox.min_y <= y <= bbox.max_y) {
                // Outside the box nothing was touched, and nothing could be
                // painted: a covered pixel center would lie inside the box.
                assert(!covers(a.xy(), b.xy(), c.xy(), pixel_center(x, y)));
            }
        }
    }
}


/// Writing one pixel's color and depth leaves every other cell of both
/// buffers as it was.
proof fn lemma_paint_step_frame(
    prev: RenderTarget,
    cur: RenderTarget,
    w: int,
    h: int,
    x: int,
    y: int,
    color: Vector3,
    depth: i64,
)
    requires
        prev.wf(),
        cur.wf(),
        prev.spec_width() == w,
        prev.spec_height() == h,
        cur.spec_width() == w,
        cur.spec_height() == h,
        0 <= x < w,
        0 <= y < h,
        cur.image_buffer.cells() == prev.image_buffer.cells().update(x + y * w, color),
        cur.depth_buffer.cells() == prev.depth_buffer.cells().update(x + y * w, depth),
    ensures
        cur.image_buffer.cell(x, y) == color,
        cur.depth_buffer.cell(x, y) == depth,
        forall|ix: int, iy: int|
            0 <= ix < w && 0 <= iy < h && (ix != x || iy != y)
                ==> #[trigger] cur.image_buffer.cell(ix, iy) == prev.image_buffer.cell(ix, iy),
        forall|ix: int, iy: int|
            0 <= ix < w && 0 <= iy < h && (ix != x || iy != y)
                ==> #[trigger] cur.depth_buffer.cell(ix, iy) == prev.depth_buffer.cell(ix, iy),
{
    lemma_grid_index_in_range(w, h, x, y);
    assert forall|ix: int, iy: int|
        0 <= ix < w && 0 <= iy < h && (ix != x || iy != y) implies #[trigger] cur.image_buffer.cell(
        ix,
        iy,
    ) == prev.image_buffer.cell(ix, iy) by {
        lemma_grid_index_injective(w, ix, iy, x, y);
        lemma_grid_index_in_range(w, h, ix, iy);
    }
    assert forall|ix: int, iy: int|
        0 <= ix < w && 0 <= iy < h && (ix != x || iy != y) implies #[trigger] cur.depth_buffer.cell(
        ix,
        iy,
    ) == prev.depth_buffer.cell(ix, iy) by {
        lemma_grid_index_injective(w, ix, iy, x, y);
        lemma_grid_index_in_range(w, h, ix, iy);
    }
}


/// A whole color buffer after rasterizing one screen triangle, cell by cell.
pub open spec fn spec_raster_colors(
    cols: Seq<Vector3>,
    deps: Seq<i64>,
    w: int,
    a: Vector3,
    b: Vector3,
    c: Vector3,
    color: Vector3,
) -> Seq<Vector3> {
    Seq::new(
        cols.len(),
        |i: int| spec_raster_color_at(a, b, c, color, i % w, i / w, cols[i], deps[i]),
    )
}

/// A whole depth buffer after rasterizing one screen triangle, cell by cell.
pub open spec fn spec_raster_depths(deps: Seq<i64>, w: int, a: Vector3, b: Vector3, c: Vector3) -> Seq<i64> {
    Seq::new(deps.len(), |i: int| spec_raster_depth_at(a, b, c, i % w, i / w, deps[i]))
}

/// The screen-space image of one projected vertex, with its camera depth.
pub open spec fn spec_projected(t: Transform, v: Vector3, w: int, h: int, ps: int) -> Vector3 {
    let p = spec_vertex_to_screen(t, v, w, h, ps);
    Vector3 { x: p.0 as i64, y: p.1 as i64, z: p.2 as i64 }
}

/// The screen triangle of the model's `j`-th triangle, or `None` when any
/// of its corners fails to project (behind the camera, or out of the
/// fixed-point screen range): such a triangle is skipped whole.
pub open spec fn spec_screen_triangle(
    t: Transform,
    verts: Seq<Vector3>,
    j: int,
    w: int,
    h: int,
    ps: int,
) -> Option<(Vector3, Vector3, Vector3)> {
    let va = verts[3 * j];
    let vb = verts[3 * j + 1];
    let vc = verts[3 * j + 2];
    if spec_projectable(t, va, w, h, ps) && spec_projectable(t, vb, w, h, ps)
        && spec_projectable(t, vc, w, h, ps) {
        Some(
            (
                spec_projected(t, va, w, h, ps),
                spec_projected(t, vb, w, h, ps),
                spec_projected(t, vc, w, h, ps),
            ),
        )
    } else {
        None
    }
}

/// Both buffers after rendering the model's triangles from index `j` on,
/// in order.
pub open spec fn spec_render_from(
    verts: Seq<Vector3>,
    colors: Seq<Vector3>,
    t: Transform,
    w: int,
    h: int,
    ps: int,
    cols: Seq<Vector3>,
    deps: Seq<i64>,
    j: int,
) -> (Seq<Vector3>, Seq<i64>)
    decreases verts.len() / 3 - j,
{
    if j < 0 || j >= verts.len() / 3 {
        (cols, deps)
    } else {
        match spec_screen_triangle(t, verts, j, w, h, ps) {
            Some(tri) => spec_render_from(
                verts,
                colors,
                t,
                w,
                h,
                ps,
                spec_raster_colors(cols, deps, w, tri.0, tri.1, tri.2, colors[j]),
                spec_raster_depths(deps, w, tri.0, tri.1, tri.2),
                j + 1,
            ),
            None => spec_render_from(verts, colors, t, w, h, ps, cols, deps, j + 1),
        }
    }
}

/// Both buffers after rasterizing the 2D triangles from index `j` on: each
/// triple of points is taken as a screen triangle at depth zero.
pub open spec fn spec_render2d_from(
    verts: Seq<Vector2>,
    colors: Seq<Vector3>,
    w: int,
    cols: Seq<Vector3>,
    deps: Seq<i64>,
    j: int,
) -> (Seq<Vector3>, Seq<i64>)
    decreases verts.len() / 3 - j,
{
    if j < 0 || j >= verts.len() / 3 {
        (cols, deps)
    } else {
        let a = Vector3 { x: verts[3 * j].x, y: verts[3 * j].y, z: 0i64 };
        let b = Vector3 { x: verts[3 * j + 1].x, y: verts[3 * j + 1].y, z: 0i64 };
        let c = Vector3 { x: verts[3 * j + 2].x, y: verts[3 * j + 2].y, z: 0i64 };
        spec_render2d_from(
            verts,
            colors,
            w,
            spec_raster_colors(cols, deps, w, a, b, c, colors[j]),
            spec_raster_depths(deps, w, a, b, c),
            j + 1,
        )
    }
}

/// The pointwise contract of `paint_in_triangle`, flattened to the two
/// whole-buffer transformations the render folds are written over.
proof fn lemma_paint_flattens(
    prev: RenderTarget,
    cur: RenderTarget,
    a: Vector3,
    b: Vector3,
    c: Vector3,
    color: Vector3,
)
    requires
        prev.wf(),
        cur.wf(),
        cur.spec_width() == prev.spec_width(),
        cur.spec_height() == prev.spec_height(),
        forall|x: int, y: int|
            0 <= x < prev.spec_width() && 0 <= y < prev.spec_height()
                ==> cur.image_buffer.cell(x, y) == spec_raster_color_at(
                a,
                b,
                c,
                color,
                x,
                y,
                prev.image_buffer.cell(x, y),
                prev.depth_buffer.cell(x, y),
            ) && cur.depth_buffer.cell(x, y) == spec_raster_depth_at(
                a,
                b,
                c,
                x,
                y,
                prev.depth_buffer.cell(x, y),
            ),
    ensures
        cur.image_buffer.cells() == spec_raster_colors(
            prev.image_buffer.cells(),
            prev.depth_buffer.cells(),
            prev.spec_width(),
            a,
            b,
            c,
            color,
        ),
        cur.depth_buffer.cells() == spec_raster_depths(
            prev.depth_buffer.cells(),
            prev.spec_width(),
            a,
            b,
            c,
        ),
{
    let w = prev.spec_width();
    let h = prev.spec_height();
    let sc = spec_raster_colors(
        prev.image_buffer.cells(),
        prev.depth_buffer.cells(),
        w,
        a,
        b,
        c,
        color,
    );
    let sd = spec_raster_depths(prev.depth_buffer.cells(), w, a, b, c);
    assert forall|i: int| 0 <= i < cur.image_buffer.cells().len() implies
        cur.image_buffer.cells()[i] == sc[i] && cur.depth_buffer.cells()[i] == sd[i] by {
        lemma_grid_unflatten(i, w, h);
        let ix = i % w;
        let iy = i / w;
        assert(cur.image_buffer.cell(ix, iy) == spec_raster_color_at(
            a,
            b,
            c,
            color,
            ix,
            iy,
            prev.image_buffer.cell(ix, iy),
            prev.depth_buffer.cell(ix, iy),
        ));
    }
    assert(cur.image_buffer.cells() =~= sc);
    assert(cur.depth_buffer.cells() =~= sd);
}

/// Renders a 3D model into the target: for every triangle, transforms its
/// corners to world space, projects them to screen space with the carried
/// camera depth, and rasterizes with the depth test. A triangle with any
/// corner at or behind the camera plane, or projecting outside the
/// fixed-point screen range, contributes nothing.
///
/// `pixel_scale` is the projection's magnification (see `vertex_to_screen`);
/// the caller derives it from the field of view.
pub fn render3d(object: &Model, render_target: &mut RenderTarget, pixel_scale: i64)
    requires
        object.wf(),
        object.in_world_range(),
        old(render_target).wf(),
        0 <= pixel_scale <= MAX_COORD,
    ensures
        final(render_target).wf(),
        final(render_target).spec_width() == old(render_target).spec_width(),
        final(render_target).spec_height() == old(render_target).spec_height(),
        ({
            let r = spec_render_from(
                object.vertices@,
                object.triangle_colors@,
                object.transform,
                old(render_target).spec_width(),
                old(render_target).spec_height(),
                pixel_scale as int,
                old(render_target).image_buffer.cells(),
                old(render_target).depth_buffer.cells(),
                0,
            );
            final(render_target).image_buffer.cells() == r.0
                && final(render_target).depth_buffer.cells() == r.1
        }),
{
    let width = render_target.get_width();
    let height = render_target.get_height();
    let n_verts = object.vertices.len();
    let tri_count = n_verts / 3;
    proof {
        vstd::arithmetic::div_mod::lemma_fundamental_div_mod(object.vertices@.len() as int, 3);
    }
    let mut j: usize = 0;
    while j < tri_count
        invariant
            render_target.wf(),
            render_target.spec_width() == old(render_target).spec_width(),
            render_target.spec_height() == old(render_target).spec_height(),
            width == old(render_target).spec_width(),
            height == old(render_target).spec_height(),
            object.wf(),
            object.in_world_range(),
            0 <= pixel_scale <= MAX_COORD,
            j <= tri_count,
            tri_count == object.vertices@.len() / 3,
            3 * tri_count == object.vertices@.len(),
            object.vertices@.len() <= usize::MAX,
            spec_render_from(
                object.vertices@,
                object.triangle_colors@,
                object.transform,
                width as int,
                height as int,
                pixel_scale as int,
                old(render_target).image_buffer.cells(),
                old(render_target).depth_buffer.cells(),
                0,
            ) == spec_render_from(
                object.vertices@,
                object.triangle_colors@,
                object.transform,
                width as int,
                height as int,
                pixel_scale as int,
                render_target.image_buffer.cells(),
                render_target.depth_buffer.cells(),
                j as int,
            ),
        decreases tri_count - j,
    {
        let idx = 3 * j;
        let va = object.vertices[idx];
        let vb = object.vertices[idx + 1];
        let vc = object.vertices[idx + 2];
        let ghost prev = *render_target;
        let pa = vertex_to_screen(&va, &object.transform, width, height, pixel_scale);
        let pb = vertex_to_screen(&vb, &object.transform, width, height, pixel_scale);
        let pc = vertex_to_screen(&vc, &object.transform, width, height, pixel_scale);
        match (pa, pb, pc) {
            (Some(sa), Some(sb), Some(sc)) => {
                let color = object.triangle_colors[j];
                paint_in_triangle(&sa, &sb, &sc, color, render_target);
                proof {
                    lemma_paint_flattens(prev, *render_target, sa, sb, sc, color);
                    assert(spec_screen_triangle(
                        object.transform,
                        object.vertices@,
                        j as int,
                        width as int,
                        height as int,
                        pixel_scale as int,
                    ) == Some((sa, sb, sc)));
                }
            },
            _ => {
                proof {
                    assert(spec_screen_triangle(
                        object.transform,
                        object.vertices@,
                        j as int,
                        width as int,
                        height as int,
                        pixel_scale as int,
                    ) is None);
                }
            },
        }
        j += 1;
    }
}

/// Rasterizes a flat list of 2D triangles, each at camera depth zero, with
/// its per-triangle color, into the target.
pub fn render2d(vertices: &Vec<Vector2>, colors: &Vec<Vector3>, render_target: &mut RenderTarget)
    requires
        vertices@.len() % 3 == 0,
        colors@.len() == vertices@.len() / 3,
        forall|i: int| 0 <= i < vertices@.len() ==> in_coord_range(#[trigger] vertices@[i]),
        old(render_target).wf(),
    ensures
        final(render_target).wf(),
        final(render_target).spec_width() == old(render_target).spec_width(),
        final(render_target).spec_height() == old(render_target).spec_height(),
        ({
            let r = spec_render2d_from(
                vertices@,
                colors@,
                old(render_target).spec_width(),
                old(render_target).image_buffer.cells(),
                old(render_target).depth_buffer.cells(),
                0,
            );
            final(render_target).image_buffer.cells() == r.0
                && final(render_target).depth_buffer.cells() == r.1
        }),
{
    let width = render_target.get_width();
    let n_verts = vertices.len();
    let tri_count = n_verts / 3;
    proof {
        vstd::arithmetic::div_mod::lemma_fundamental_div_mod(vertices@.len() as int, 3);
    }
    let mut j: usize = 0;
    while j < tri_count
        invariant
            render_target.wf(),
            render_target.spec_width() == old(render_target).spec_width(),
            render_target.spec_height() == old(render_target).spec_height(),
            width == old(render_target).spec_width(),
            vertices@.len() % 3 == 0,
            colors@.len() == vertices@.len() / 3,
            forall|i: int| 0 <= i < vertices@.len() ==> in_coord_range(#[trigger] vertices@[i]),
            j <= tri_count,
            tri_count == vertices@.len() / 3,
            3 * tri_count == vertices@.len(),
            vertices@.len() <= usize::MAX,
            spec_render2d_from(
                vertices@,
                colors@,
                width as int,
                old(render_target).image_buffer.cells(),
                old(render_target).depth_buffer.cells(),
                0,
            ) == spec_render2d_from(
                vertices@,
                colors@,
                width as int,
                render_target.image_buffer.cells(),
                render_target.depth_buffer.cells(),
                j as int,
            ),
        decreases tri_count - j,
    {
        let idx = 3 * j;
        let a = &vertices[idx];
        let b = &vertices[idx + 1];
        let c = &vertices[idx + 2];
        let a3d = Vector3::new(a.x, a.y, 0);
        let b3d = Vector3::new(b.x, b.y, 0);
        let c3d = Vector3::new(c.x, c.y, 0);
        let color = colors[j];
        let ghost prev = *render_target;
        paint_in_triangle(&a3d, &b3d, &c3d, color, render_target);
        proof {
            lemma_paint_flattens(prev, *render_target, a3d, b3d, c3d, color);
        }
        j += 1;
    }
}


/// Depth-buffer idempotence: rasterizing the same opaque triangle twice
/// leaves any cell — and so the whole image — exactly as rasterizing it
/// once: the second pass finds its own depth already stored and the strict
/// depth test rejects the tie.
pub proof fn lemma_raster_idempotent_at(
    a: Vector3,
    b: Vector3,
    c: Vector3,
    color: Vector3,
    x: int,
    y: int,
    old_color: Vector3,
    old_depth: i64,
)
    ensures
        ({
            let c1 = spec_raster_color_at(a, b, c, color, x, y, old_color, old_depth);
            let d1 = spec_raster_depth_at(a, b, c, x, y, old_depth);
            spec_raster_color_at(a, b, c, color, x, y, c1, d1) == c1 && spec_raster_depth_at(
                a,
                b,
                c,
                x,
                y,
                d1,
            ) == d1
        }),
{
}

/// Depth-buffer idempotence over whole buffers: rasterizing the same
/// triangle a second time changes neither the color buffer nor the depth
/// buffer.
pub proof fn lemma_raster_idempotent(
    cols: Seq<Vector3>,
    deps: Seq<i64>,
    w: int,
    a: Vector3,
    b: Vector3,
    c: Vector3,
    color: Vector3,
)
    requires
        0 < w,
        cols.len() == deps.len(),
    ensures
        ({
            let c1 = spec_raster_colors(cols, deps, w, a, b, c, color);
            let d1 = spec_raster_depths(deps, w, a, b, c);
            spec_raster_colors(c1, d1, w, a, b, c, color) == c1 && spec_raster_depths(
                d1,
                w,
                a,
                b,
                c,
            ) == d1
        }),
{
    let c1 = spec_raster_colors(cols, deps, w, a, b, c, color);
    let d1 = spec_raster_depths(deps, w, a, b, c);
    let c2 = spec_raster_colors(c1, d1, w, a, b, c, color);
    let d2 = spec_raster_depths(d1, w, a, b, c);
    assert forall|i: int| 0 <= i < cols.len() implies c2[i] == c1[i] && d2[i] == d1[i] by {
        lemma_raster_idempotent_at(a, b, c, color, i % w, i / w, cols[i], deps[i]);
    }
    assert(c2 =~= c1);
    assert(d2 =~= d1);
}

/// Occlusion ordering: when two triangles cover the same pixel of a freshly
/// cleared target with distinct interpolated depths, rasterizing them in
/// either order leaves the nearer triangle's color and depth in that cell.
pub proof fn lemma_occlusion_order_independent(
    a1: Vector3,
    b1: Vector3,
    c1: Vector3,
    col1: Vector3,
    a2: Vector3,
    b2: Vector3,
    c2: Vector3,
    col2: Vector3,
    x: int,
    y: int,
    old_color: Vector3,
)
    requires
        screen_vertex_ok(a1),
        screen_vertex_ok(b1),
        screen_vertex_ok(c1),
        screen_vertex_ok(a2),
        screen_vertex_ok(b2),
        screen_vertex_ok(c2),
        covers(a1.xy(), b1.xy(), c1.xy(), pixel_center(x, y)),
        covers(a2.xy(), b2.xy(), c2.xy(), pixel_center(x, y)),
        spec_pixel_depth(a1, b1, c1, pixel_center(x, y)) < spec_pixel_depth(
            a2,
            b2,
            c2,
            pixel_center(x, y),
        ),
    ensures
        ({
            let p = pixel_center(x, y);
            let near = spec_pixel_depth(a1, b1, c1, p) as i64;
            let near_first_color = spec_raster_color_at(
                a2,
                b2,
                c2,
                col2,
                x,
                y,
                spec_raster_color_at(a1, b1, c1, col1, x, y, old_color, DEPTH_FAR),
                spec_raster_depth_at(a1, b1, c1, x, y, DEPTH_FAR),
            );
            let near_first_depth = spec_raster_depth_at(
                a2,
                b2,
                c2,
                x,
                y,
                spec_raster_depth_at(a1, b1, c1, x, y, DEPTH_FAR),
            );
            let far_first_color = spec_raster_color_at(
                a1,
                b1,
                c1,
                col1,
                x,
                y,
                spec_raster_color_at(a2, b2, c2, col2, x, y, old_color, DEPTH_FAR),
                spec_raster_depth_at(a2, b2, c2, x, y, DEPTH_FAR),
            );
            let far_first_depth = spec_raster_depth_at(
                a1,
                b1,
                c1,
                x,
                y,
                spec_raster_depth_at(a2, b2, c2, x, y, DEPTH_FAR),
            );
            near_first_color == col1 && far_first_color == col1 && near_first_depth == near
                && far_first_depth == near
        }),
{
    let p = pixel_center(x, y);
    lemma_pixel_depth_bounds(a1, b1, c1, p);
    lemma_pixel_depth_bounds(a2, b2, c2, p);
}

} // verus!
