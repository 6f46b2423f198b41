//! The signed-area inside test and fixed-point barycentric weights.
//!
//! All areas here are *doubled* signed areas: the exact integer
//! `dot(c - a, perpendicular(b - a))`, twice the geometric signed area. The
//! factor of two keeps every value exact, and every use depends only on the
//! sign or on ratios, where the factor cancels. A positive doubled area means
//! clockwise winding (with the y-axis pointing down), negative means
//! counter-clockwise.

use vstd::prelude::*;
use vstd::arithmetic::div_mod::lemma_fundamental_div_mod;
use crate::fixed::{floor_div, lemma_floor_div_bounds, MAX_COORD, SCALE};
use crate::vector::{Vector2, Vector3};

verus! {

/// Twice the signed area of the triangle `a -> b -> c`.
pub open spec fn doubled_area(a: Vector2, b: Vector2, c: Vector2) -> int {
    (c.x - a.x) * (b.y - a.y) - (c.y - a.y) * (b.x - a.x)
}

/// The screen-space range the rasterizer accepts a coordinate in.
pub open spec fn in_coord_range(v: Vector2) -> bool {
    &&& -MAX_COORD <= v.x <= MAX_COORD
    &&& -MAX_COORD <= v.y <= MAX_COORD
}

/// Largest magnitude a doubled area of three in-range points can take.
pub open spec fn area_bound() -> int {
    0x2_0000_0000_0000_0000
}

/// The sum of the three edge sub-areas around `p`; equal to the triangle's
/// own doubled area (see `lemma_area_decomposition`).
pub open spec fn total_area(v1: Vector2, v2: Vector2, v3: Vector2, p: Vector2) -> int {
    doubled_area(v1, v2, p) + doubled_area(v2, v3, p) + doubled_area(v3, v1, p)
}

/// The inside test the rasterizer paints by: all three edge sub-areas
/// non-negative (so the test is inclusive on edges and corners), and the
/// triangle itself not degenerate. A counter-clockwise or zero-area triangle
/// covers nothing.
pub open spec fn covers(v1: Vector2, v2: Vector2, v3: Vector2, p: Vector2) -> bool {
    &&& doubled_area(v1, v2, p) >= 0
    &&& doubled_area(v2, v3, p) >= 0
    &&& doubled_area(v3, v1, p) >= 0
    &&& total_area(v1, v2, v3, p) > 0
}

/// The fixed-point barycentric weight contributed by one edge sub-area.
pub open spec fn weight_of(area: int, total: int) -> int {
    area * SCALE / total
}

/// Twice the signed area of the triangle `a -> b -> c`, exactly.
///
/// Positive means clockwise winding, negative counter-clockwise.
pub fn signed_triangle_area(a: &Vector2, b: &Vector2, c: &Vector2) -> (r: i128)
    requires
        in_coord_range(*a),
        in_coord_range(*b),
        in_coord_range(*c),
    ensures
        r == doubled_area(*a, *b, *c),
{
    let ac = c.sub(a);
    let ab_normal = b.sub(a).perpendicular();
    proof {
        assert(i128::MIN <= ac.x as int * ab_normal.x as int + ac.y as int * ab_normal.y as int
            <= i128::MAX) by (nonlinear_arith)
            requires
                -2 * MAX_COORD <= ac.x <= 2 * MAX_COORD,
                -2 * MAX_COORD <= ac.y <= 2 * MAX_COORD,
                -2 * MAX_COORD <= ab_normal.x <= 2 * MAX_COORD,
                -2 * MAX_COORD <= ab_normal.y <= 2 * MAX_COORD,
        ;
    }
    let r = ac.dot(&ab_normal);
    proof {
        assert(ac.x as int * ab_normal.x as int + ac.y as int * ab_normal.y as int
            == doubled_area(*a, *b, *c)) by (nonlinear_arith)
            requires
                ac.x == c.x - a.x,
                ac.y == c.y - a.y,
                ab_normal.x == b.y - a.y,
                ab_normal.y == -(b.x - a.x),
        ;
    }
    r
}

/// Whether `point` lies inside the clockwise triangle `v1 -> v2 -> v3`, with
/// the fixed-point barycentric weights of the three edge sub-areas.
///
/// The weights are returned only for a covered point; when the test fails
/// (outside, wrong winding, or a degenerate triangle) they are zero.
pub fn point_in_triangle(v1: &Vector2, v2: &Vector2, v3: &Vector2, point: &Vector2) -> (r: (
    bool,
    Vector3,
))
    requires
        in_coord_range(*v1),
        in_coord_range(*v2),
        in_coord_range(*v3),
        in_coord_range(*point),
    ensures
        r.0 == covers(*v1, *v2, *v3, *point),
        r.0 ==> {
            let total = total_area(*v1, *v2, *v3, *point);
            &&& r.1.x == weight_of(doubled_area(*v1, *v2, *point), total)
            &&& r.1.y == weight_of(doubled_area(*v2, *v3, *point), total)
            &&& r.1.z == weight_of(doubled_area(*v3, *v1, *point), total)
        },
        !r.0 ==> r.1 == (Vector3 { x: 0i64, y: 0i64, z: 0i64 }),
{
    let area_12p: i128 = signed_triangle_area(v1, v2, point);
    let area_23p: i128 = signed_triangle_area(v2, v3, point);
    let area_31p: i128 = signed_triangle_area(v3, v1, point);
    proof {
        lemma_area_bound(*v1, *v2, *point);
        lemma_area_bound(*v2, *v3, *point);
        lemma_area_bound(*v3, *v1, *point);
    }
    let total: i128 = area_12p + area_23p + area_31p;
    if area_12p < 0 || area_23p < 0 || area_31p < 0 || total <= 0 {
        return (false, Vector3::zeros());
    }
    proof {
        lemma_weight_in_unit_range(area_12p as int, total as int);
        lemma_weight_in_unit_range(area_23p as int, total as int);
        lemma_weight_in_unit_range(area_31p as int, total as int);
    }
    let w1: i64 = floor_div(area_12p * (SCALE as i128), total) as i64;
    let w2: i64 = floor_div(area_23p * (SCALE as i128), total) as i64;
    let w3: i64 = floor_div(area_31p * (SCALE as i128), total) as i64;
    (true, Vector3::new(w1, w2, w3))
}

/// Doubled areas of in-range points stay within `area_bound()`.
pub proof fn lemma_area_bound(a: Vector2, b: Vector2, c: Vector2)
    requires
        in_coord_range(a),
        in_coord_range(b),
        in_coord_range(c),
    ensures
        -area_bound() <= doubled_area(a, b, c) <= area_bound(),
{
    assert(-area_bound() <= (c.x - a.x) * (b.y - a.y) - (c.y - a.y) * (b.x - a.x)
        <= area_bound()) by (nonlinear_arith)
        requires
            -MAX_COORD <= a.x <= MAX_COORD,
            -MAX_COORD <= a.y <= MAX_COORD,
            -MAX_COORD <= b.x <= MAX_COORD,
            -MAX_COORD <= b.y <= MAX_COORD,
            -MAX_COORD <= c.x <= MAX_COORD,
            -MAX_COORD <= c.y <= MAX_COORD,
    ;
}

/// A sub-area's weight lies in `0 ..= SCALE` once the sub-area is known to be
/// a non-negative part of a positive total.
pub proof fn lemma_weight_in_unit_range(area: int, total: int)
    requires
        0 <= area <= total,
        0 < total,
    ensures
        0 <= weight_of(area, total) <= SCALE,
{
    let s = SCALE as int;
    assert(0 * total <= area * s <= s * total) by (nonlinear_arith)
        requires
            0 <= area <= total,
            0 < s,
    ;
    assert(s * total == total * s) by (nonlinear_arith);
    lemma_floor_div_bounds(area * s, total, 0, s);
}

/// Offset form of a doubled area: the same value written over the first two
/// corners' offsets from the third point.
proof fn lemma_area_offset_form(a: Vector2, b: Vector2, p: Vector2)
    ensures
        doubled_area(a, b, p) == (b.x - p.x) * (a.y - p.y) - (a.x - p.x) * (b.y - p.y),
{
    let u1 = a.x - p.x;
    let w1 = a.y - p.y;
    let u2 = b.x - p.x;
    let w2 = b.y - p.y;
    assert((p.x - a.x) * (b.y - a.y) - (p.y - a.y) * (b.x - a.x) == u2 * w1 - u1 * w2)
        by (nonlinear_arith)
        requires
            u1 == a.x - p.x,
            w1 == a.y - p.y,
            u2 == b.x - p.x,
            w2 == b.y - p.y,
    ;
}

/// The three edge sub-areas around any point partition the triangle's own
/// doubled area.
pub proof fn lemma_area_decomposition(v1: Vector2, v2: Vector2, v3: Vector2, p: Vector2)
    ensures
        total_area(v1, v2, v3, p) == doubled_area(v1, v2, v3),
{
    let u1 = v1.x - p.x;
    let w1 = v1.y - p.y;
    let u2 = v2.x - p.x;
    let w2 = v2.y - p.y;
    let u3 = v3.x - p.x;
    let w3 = v3.y - p.y;
    lemma_area_offset_form(v1, v2, p);
    lemma_area_offset_form(v2, v3, p);
    lemma_area_offset_form(v3, v1, p);
    assert(doubled_area(v1, v2, v3) == (u3 - u1) * (w2 - w1) - (w3 - w1) * (u2 - u1))
        by (nonlinear_arith)
        requires
            v3.x - v1.x == u3 - u1,
            v2.y - v1.y == w2 - w1,
            v3.y - v1.y == w3 - w1,
            v2.x - v1.x == u2 - u1,
    ;
    assert((u2 * w1 - u1 * w2) + (u3 * w2 - u2 * w3) + (u1 * w3 - u3 * w1) == (u3 - u1) * (w2 - w1)
        - (w3 - w1) * (u2 - u1)) by (nonlinear_arith);
}

/// Barycentric reconstruction: the edge sub-areas recombine the covered
/// point from the triangle's corners, each corner weighted by the sub-area
/// of the edge opposite it.
pub proof fn lemma_barycentric_reconstruction(v1: Vector2, v2: Vector2, v3: Vector2, p: Vector2)
    ensures
        total_area(v1, v2, v3, p) * p.x == doubled_area(v2, v3, p) * v1.x + doubled_area(
            v3,
            v1,
            p,
        ) * v2.x + doubled_area(v1, v2, p) * v3.x,
        total_area(v1, v2, v3, p) * p.y == doubled_area(v2, v3, p) * v1.y + doubled_area(
            v3,
            v1,
            p,
        ) * v2.y + doubled_area(v1, v2, p) * v3.y,
{
    let u1 = v1.x - p.x;
    let w1 = v1.y - p.y;
    let u2 = v2.x - p.x;
    let w2 = v2.y - p.y;
    let u3 = v3.x - p.x;
    let w3 = v3.y - p.y;
    let a12 = doubled_area(v1, v2, p);
    let a23 = doubled_area(v2, v3, p);
    let a31 = doubled_area(v3, v1, p);
    lemma_area_offset_form(v1, v2, p);
    lemma_area_offset_form(v2, v3, p);
    lemma_area_offset_form(v3, v1, p);
    // The weighted corner offsets cancel exactly.
    assert((u3 * w2 - u2 * w3) * u1 + (u1 * w3 - u3 * w1) * u2 + (u2 * w1 - u1 * w2) * u3 == 0)
        by (nonlinear_arith);
    assert((u3 * w2 - u2 * w3) * w1 + (u1 * w3 - u3 * w1) * w2 + (u2 * w1 - u1 * w2) * w3 == 0)
        by (nonlinear_arith);
    assert(a23 * u1 + a31 * u2 + a12 * u3 == 0) by (nonlinear_arith)
        requires
            a23 == u3 * w2 - u2 * w3,
            a31 == u1 * w3 - u3 * w1,
            a12 == u2 * w1 - u1 * w2,
            (u3 * w2 - u2 * w3) * u1 + (u1 * w3 - u3 * w1) * u2 + (u2 * w1 - u1 * w2) * u3 == 0,
    ;
    assert(a23 * w1 + a31 * w2 + a12 * w3 == 0) by (nonlinear_arith)
        requires
            a23 == u3 * w2 - u2 * w3,
            a31 == u1 * w3 - u3 * w1,
            a12 == u2 * w1 - u1 * w2,
            (u3 * w2 - u2 * w3) * w1 + (u1 * w3 - u3 * w1) * w2 + (u2 * w1 - u1 * w2) * w3 == 0,
    ;
    // Shift each corner offset back by the point itself.
    assert(a23 * v1.x == a23 * u1 + a23 * p.x) by (nonlinear_arith)
        requires
            v1.x == u1 + p.x,
    ;
    assert(a31 * v2.x == a31 * u2 + a31 * p.x) by (nonlinear_arith)
        requires
            v2.x == u2 + p.x,
    ;
    assert(a12 * v3.x == a12 * u3 + a12 * p.x) by (nonlinear_arith)
        requires
            v3.x == u3 + p.x,
    ;
    assert(a23 * v1.y == a23 * w1 + a23 * p.y) by (nonlinear_arith)
        requires
            v1.y == w1 + p.y,
    ;
    assert(a31 * v2.y == a31 * w2 + a31 * p.y) by (nonlinear_arith)
        requires
            v2.y == w2 + p.y,
    ;
    assert(a12 * v3.y == a12 * w3 + a12 * p.y) by (nonlinear_arith)
        requires
            v3.y == w3 + p.y,
    ;
    assert((a12 + a23 + a31) * p.x == a12 * p.x + a23 * p.x + a31 * p.x) by (nonlinear_arith);
    assert((a12 + a23 + a31) * p.y == a12 * p.y + a23 * p.y + a31 * p.y) by (nonlinear_arith);
}

/// A value reconstructed as a non-negative weighted mean stays between the
/// bounds of its ingredients.
pub proof fn lemma_convex_bound(
    a1: int,
    a2: int,
    a3: int,
    x1: int,
    x2: int,
    x3: int,
    px: int,
    lo: int,
    hi: int,
)
    requires
        0 <= a1,
        0 <= a2,
        0 <= a3,
        0 < a1 + a2 + a3,
        (a1 + a2 + a3) * px == a1 * x1 + a2 * x2 + a3 * x3,
        lo <= x1 <= hi,
        lo <= x2 <= hi,
        lo <= x3 <= hi,
    ensures
        lo <= px <= hi,
{
    assert(lo <= px <= hi) by (nonlinear_arith)
        requires
            0 <= a1,
            0 <= a2,
            0 <= a3,
            0 < a1 + a2 + a3,
            (a1 + a2 + a3) * px == a1 * x1 + a2 * x2 + a3 * x3,
            lo <= x1 <= hi,
            lo <= x2 <= hi,
            lo <= x3 <= hi,
    ;
}

/// A covered point lies inside the bounding box of the triangle's corners —
/// the fact that lets the rasterizer scan only that box.
pub proof fn lemma_covers_in_hull(v1: Vector2, v2: Vector2, v3: Vector2, p: Vector2)
    requires
        covers(v1, v2, v3, p),
    ensures
        vstd::math::min(vstd::math::min(v1.x as int, v2.x as int), v3.x as int) <= p.x,
        p.x <= vstd::math::max(vstd::math::max(v1.x as int, v2.x as int), v3.x as int),
        vstd::math::min(vstd::math::min(v1.y as int, v2.y as int), v3.y as int) <= p.y,
        p.y <= vstd::math::max(vstd::math::max(v1.y as int, v2.y as int), v3.y as int),
{
    lemma_barycentric_reconstruction(v1, v2, v3, p);
    let a12 = doubled_area(v1, v2, p);
    let a23 = doubled_area(v2, v3, p);
    let a31 = doubled_area(v3, v1, p);
    let minx = vstd::math::min(vstd::math::min(v1.x as int, v2.x as int), v3.x as int);
    let maxx = vstd::math::max(vstd::math::max(v1.x as int, v2.x as int), v3.x as int);
    let miny = vstd::math::min(vstd::math::min(v1.y as int, v2.y as int), v3.y as int);
    let maxy = vstd::math::max(vstd::math::max(v1.y as int, v2.y as int), v3.y as int);
    lemma_convex_bound(
        a23,
        a31,
        a12,
        v1.x as int,
        v2.x as int,
        v3.x as int,
        p.x as int,
        minx,
        maxx,
    );
    lemma_convex_bound(
        a23,
        a31,
        a12,
        v1.y as int,
        v2.y as int,
        v3.y as int,
        p.y as int,
        miny,
        maxy,
    );
}

/// For a point strictly inside a clockwise triangle — all three edge
/// sub-areas strictly positive — the inside test succeeds, and the
/// fixed-point barycentric weights sum to one up to the rounding of the
/// three divisions: strictly above `SCALE - 3`, never above `SCALE`.
pub proof fn lemma_weights_sum_to_one(v1: Vector2, v2: Vector2, v3: Vector2, p: Vector2)
    requires
        doubled_area(v1, v2, p) > 0,
        doubled_area(v2, v3, p) > 0,
        doubled_area(v3, v1, p) > 0,
    ensures
        covers(v1, v2, v3, p),
        ({
            let total = total_area(v1, v2, v3, p);
            let sum = weight_of(doubled_area(v1, v2, p), total) + weight_of(
                doubled_area(v2, v3, p),
                total,
            ) + weight_of(doubled_area(v3, v1, p), total);
            SCALE - 3 < sum <= SCALE
        }),
{
    let s = SCALE as int;
    let a1 = doubled_area(v1, v2, p);
    let a2 = doubled_area(v2, v3, p);
    let a3 = doubled_area(v3, v1, p);
    let t = a1 + a2 + a3;
    let w1 = a1 * s / t;
    let w2 = a2 * s / t;
    let w3 = a3 * s / t;
    lemma_fundamental_div_mod(a1 * s, t);
    lemma_fundamental_div_mod(a2 * s, t);
    lemma_fundamental_div_mod(a3 * s, t);
    let r1 = (a1 * s) % t;
    let r2 = (a2 * s) % t;
    let r3 = (a3 * s) % t;
    assert(a1 * s + a2 * s + a3 * s == t * s) by (nonlinear_arith)
        requires
            t == a1 + a2 + a3,
    ;
    assert(t * (w1 + w2 + w3) == t * s - (r1 + r2 + r3)) by (nonlinear_arith)
        requires
            a1 * s == t * w1 + r1,
            a2 * s == t * w2 + r2,
            a3 * s == t * w3 + r3,
            a1 * s + a2 * s + a3 * s == t * s,
    ;
    assert(s - 3 < w1 + w2 + w3 <= s) by (nonlinear_arith)
        requires
            t * (w1 + w2 + w3) == t * s - (r1 + r2 + r3),
            0 <= r1 < t,
            0 <= r2 < t,
            0 <= r3 < t,
            0 < t,
    ;
}

/// Distributivity, packaged for the edge-split proofs.
proof fn lemma_mul_distribute(a: int, b: int, c: int)
    ensures
        (a + b) * c == a * c + b * c,
{
    assert((a + b) * c == a * c + b * c) by (nonlinear_arith);
}

/// A scalar pulled through a 2D cross product of differences.
proof fn lemma_cross_scale(k: int, ux: int, uy: int, vx: int, vy: int, kux: int, kuy: int)
    requires
        k * ux == kux,
        k * uy == kuy,
    ensures
        k * (ux * vy - uy * vx) == kux * vy - kuy * vx,
{
    assert(k * (ux * vy - uy * vx) == (k * ux) * vy - (k * uy) * vx) by (nonlinear_arith);
}

/// Cyclic invariance of the doubled area: rotating the corners leaves it.
pub proof fn lemma_area_cyclic(a: Vector2, b: Vector2, c: Vector2)
    ensures
        doubled_area(b, c, a) == doubled_area(a, b, c),
{
    assert((a.x - b.x) * (c.y - b.y) - (a.y - b.y) * (c.x - b.x) == (c.x - a.x) * (b.y - a.y) - (
    c.y - a.y) * (b.x - a.x)) by (nonlinear_arith);
}

/// A point exactly on an edge is still painted: any point splitting the
/// edge `v1 -> v2` of a clockwise triangle in the exact ratio `s : q - s`
/// (corners included) has a vanishing sub-area along that edge, and the
/// inside test still succeeds — the boundary is inclusive.
pub proof fn lemma_edge_point_covered(
    v1: Vector2,
    v2: Vector2,
    v3: Vector2,
    p: Vector2,
    s: int,
    q: int,
)
    requires
        0 < q,
        0 <= s <= q,
        q * p.x == s * v1.x + (q - s) * v2.x,
        q * p.y == s * v1.y + (q - s) * v2.y,
        doubled_area(v1, v2, v3) > 0,
    ensures
        doubled_area(v1, v2, p) == 0,
        covers(v1, v2, v3, p),
{
    let x1 = v1.x as int;
    let y1 = v1.y as int;
    let x2 = v2.x as int;
    let y2 = v2.y as int;
    let x3 = v3.x as int;
    let y3 = v3.y as int;
    let px = p.x as int;
    let py = p.y as int;
    let t = doubled_area(v1, v2, v3);
    let a12 = doubled_area(v1, v2, p);
    let a23 = doubled_area(v2, v3, p);
    let a31 = doubled_area(v3, v1, p);
    // The split hypothesis, rewritten around each corner.
    assert(q * (px - x1) == (q - s) * (x2 - x1) && q * (py - y1) == (q - s) * (y2 - y1) && q * (px
        - x2) == s * (x1 - x2) && q * (py - y2) == s * (y1 - y2) && q * (px - x3) == s * (x1 - x3)
        + (q - s) * (x2 - x3) && q * (py - y3) == s * (y1 - y3) + (q - s) * (y2 - y3))
        by (nonlinear_arith)
        requires
            q * px == s * x1 + (q - s) * x2,
            q * py == s * y1 + (q - s) * y2,
    ;
    // The sub-area along the split edge vanishes.
    assert(q * a12 == 0) by (nonlinear_arith)
        requires
            a12 == (px - x1) * (y2 - y1) - (py - y1) * (x2 - x1),
            q * (px - x1) == (q - s) * (x2 - x1),
            q * (py - y1) == (q - s) * (y2 - y1),
    ;
    assert(a12 == 0) by (nonlinear_arith)
        requires
            q * a12 == 0,
            0 < q,
    ;
    // The other two sub-areas take the split's shares of the whole area.
    lemma_area_cyclic(v1, v2, v3);
    lemma_area_cyclic(v2, v3, v1);
    lemma_cross_scale(
        q,
        px - x2,
        py - y2,
        x3 - x2,
        y3 - y2,
        s * (x1 - x2),
        s * (y1 - y2),
    );
    lemma_cross_scale(s, x1 - x2, y1 - y2, x3 - x2, y3 - y2, s * (x1 - x2), s * (y1 - y2));
    assert(q * a23 == s * t);
    lemma_cross_scale(
        q,
        px - x3,
        py - y3,
        x1 - x3,
        y1 - y3,
        s * (x1 - x3) + (q - s) * (x2 - x3),
        s * (y1 - y3) + (q - s) * (y2 - y3),
    );
    lemma_mul_distribute(s * (x1 - x3), (q - s) * (x2 - x3), y1 - y3);
    lemma_mul_distribute(s * (y1 - y3), (q - s) * (y2 - y3), x1 - x3);
    lemma_cross_scale(s, x1 - x3, y1 - y3, x1 - x3, y1 - y3, s * (x1 - x3), s * (y1 - y3));
    lemma_cross_scale(
        q - s,
        x2 - x3,
        y2 - y3,
        x1 - x3,
        y1 - y3,
        (q - s) * (x2 - x3),
        (q - s) * (y2 - y3),
    );
    assert((x1 - x3) * (y1 - y3) - (y1 - y3) * (x1 - x3) == 0) by (nonlinear_arith);
    assert(q * a31 == (q - s) * t);
    assert(a23 >= 0 && a31 >= 0 && a12 + a23 + a31 == t) by (nonlinear_arith)
        requires
            q * a12 == 0,
            q * a23 == s * t,
            q * a31 == (q - s) * t,
            0 < q,
            0 <= s <= q,
            0 < t,
    ;
}

/// The midpoint of edge `v1 -> v2` of a clockwise triangle is covered: the
/// even split of the edge.
pub proof fn lemma_edge_midpoint_covered(v1: Vector2, v2: Vector2, v3: Vector2, p: Vector2)
    requires
        2 * p.x == v1.x + v2.x,
        2 * p.y == v1.y + v2.y,
        doubled_area(v1, v2, v3) > 0,
    ensures
        doubled_area(v1, v2, p) == 0,
        covers(v1, v2, v3, p),
{
    lemma_edge_point_covered(v1, v2, v3, p, 1, 2);
}

/// A degenerate triangle — all three corners equal, or collinear corners,
/// anything with zero doubled area — covers no point at all.
pub proof fn lemma_degenerate_covers_nothing(v1: Vector2, v2: Vector2, v3: Vector2, p: Vector2)
    requires
        doubled_area(v1, v2, v3) == 0,
    ensures
        !covers(v1, v2, v3, p),
{
    lemma_area_decomposition(v1, v2, v3, p);
}

} // verus!
