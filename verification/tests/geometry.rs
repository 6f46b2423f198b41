use softraster::fixed::SCALE;
use softraster::triangle::{point_in_triangle, signed_triangle_area};
use softraster::vector::{Vector2, Vector3};

fn fx(pixels: i64) -> i64 {
    pixels * SCALE
}

#[test]
fn signed_area_exact_clockwise() {
    // (0,0) -> (0,4) -> (4,0) winds clockwise under the y-down convention:
    // the doubled area is +16 square pixels.
    let a = Vector2::new(0, 0);
    let b = Vector2::new(0, fx(4));
    let c = Vector2::new(fx(4), 0);
    let area = signed_triangle_area(&a, &b, &c);
    assert_eq!(area, 16 * (SCALE as i128) * (SCALE as i128));
    // The opposite winding negates it.
    let flipped = signed_triangle_area(&a, &c, &b);
    assert_eq!(flipped, -16 * (SCALE as i128) * (SCALE as i128));
}

#[test]
fn inside_point_weights_sum_to_one_exactly() {
    let v1 = Vector2::new(0, 0);
    let v2 = Vector2::new(0, fx(4));
    let v3 = Vector2::new(fx(4), 0);
    let p = Vector2::new(fx(1), fx(1));
    let (inside, w) = point_in_triangle(&v1, &v2, &v3, &p);
    assert!(inside);
    // Sub-areas are 4, 8 and 4 sixteenths of the total: the weights are
    // exact quarters and halves of one.
    assert_eq!(w.x, SCALE / 4);
    assert_eq!(w.y, SCALE / 2);
    assert_eq!(w.z, SCALE / 4);
    assert_eq!(w.x + w.y + w.z, SCALE);
}

#[test]
fn inside_point_weights_sum_within_rounding() {
    // Thirds do not divide evenly: each weight floors, and the sum lands
    // within three units below one.
    let v1 = Vector2::new(0, 0);
    let v2 = Vector2::new(0, fx(3));
    let v3 = Vector2::new(fx(3), 0);
    let p = Vector2::new(fx(1), fx(1));
    let (inside, w) = point_in_triangle(&v1, &v2, &v3, &p);
    assert!(inside);
    let sum = w.x + w.y + w.z;
    assert!(SCALE - 3 < sum && sum <= SCALE);
    assert_eq!(sum, SCALE - 1);
}

#[test]
fn edge_midpoint_is_inclusive() {
    let v1 = Vector2::new(0, 0);
    let v2 = Vector2::new(0, fx(4));
    let v3 = Vector2::new(fx(4), 0);
    // Midpoint of the edge v1 -> v2: the boundary is painted.
    let m = Vector2::new(0, fx(2));
    let (inside, w) = point_in_triangle(&v1, &v2, &v3, &m);
    assert!(inside);
    // The sub-area along the edge through the point vanishes.
    assert_eq!(w.x, 0);
}

#[test]
fn edge_quarter_point_is_inclusive() {
    // A point splitting the edge v1 -> v2 in the ratio 1 : 3 is painted too.
    let v1 = Vector2::new(0, 0);
    let v2 = Vector2::new(0, fx(4));
    let v3 = Vector2::new(fx(4), 0);
    let p = Vector2::new(0, fx(3));
    let (inside, _) = point_in_triangle(&v1, &v2, &v3, &p);
    assert!(inside);
}

#[test]
fn corner_is_inclusive() {
    let v1 = Vector2::new(0, 0);
    let v2 = Vector2::new(0, fx(4));
    let v3 = Vector2::new(fx(4), 0);
    let (inside, _) = point_in_triangle(&v1, &v2, &v3, &v1);
    assert!(inside);
}

#[test]
fn degenerate_triangle_covers_nothing() {
    // All corners equal.
    let v = Vector2::new(fx(2), fx(2));
    for p in [
        Vector2::new(fx(2), fx(2)),
        Vector2::new(0, 0),
        Vector2::new(fx(1), fx(3)),
    ] {
        let (inside, w) = point_in_triangle(&v, &v, &v, &p);
        assert!(!inside);
        assert_eq!(w, Vector3::zeros());
    }
    // Collinear corners.
    let a = Vector2::new(0, 0);
    let b = Vector2::new(fx(1), fx(1));
    let c = Vector2::new(fx(2), fx(2));
    for p in [
        Vector2::new(fx(1), fx(1)),
        Vector2::new(fx(3), 0),
        Vector2::new(0, fx(3)),
    ] {
        let (inside, _) = point_in_triangle(&a, &b, &c, &p);
        assert!(!inside);
    }
}

#[test]
fn counter_clockwise_triangle_covers_nothing() {
    // The centroid of a counter-clockwise triangle is reported outside:
    // the inside test assumes clockwise winding.
    let v1 = Vector2::new(0, 0);
    let v2 = Vector2::new(fx(4), 0);
    let v3 = Vector2::new(0, fx(4));
    let centroid = Vector2::new(fx(1), fx(1));
    let (inside, _) = point_in_triangle(&v1, &v2, &v3, &centroid);
    assert!(!inside);
}

#[test]
fn point_outside_triangle() {
    let v1 = Vector2::new(0, 0);
    let v2 = Vector2::new(0, fx(4));
    let v3 = Vector2::new(fx(4), 0);
    let (inside, w) = point_in_triangle(&v1, &v2, &v3, &Vector2::new(fx(3), fx(3)));
    assert!(!inside);
    assert_eq!(w, Vector3::zeros());
}

#[test]
fn vector_operations_are_componentwise() {
    let u = Vector2::new(3, -4);
    let v = Vector2::new(10, 20);
    assert_eq!(u.add(&v), Vector2::new(13, 16));
    assert_eq!(u.sub(&v), Vector2::new(-7, -24));
    assert_eq!(u.perpendicular(), Vector2::new(-4, -3));
    assert_eq!(u.dot(&v), 3 * 10 + (-4) * 20);
    assert_eq!(Vector2::zeros(), Vector2::new(0, 0));

    let w = Vector3::new(fx(1), fx(2), fx(3));
    let s = w.add(&Vector3::new(1, 1, 1));
    assert_eq!(s, Vector3::new(fx(1) + 1, fx(2) + 1, fx(3) + 1));
    // Scaling by one half in fixed point halves each component.
    assert_eq!(w.scale(SCALE / 2), Vector3::new(fx(1) / 2, fx(1), fx(3) / 2));
    assert_eq!(w.r(), fx(1));
    assert_eq!(w.g(), fx(2));
    assert_eq!(w.b(), fx(3));
    assert_eq!(Vector3::zeros(), Vector3::new(0, 0, 0));
}
