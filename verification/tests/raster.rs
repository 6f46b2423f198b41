use softraster::fixed::SCALE;
use softraster::image::DEPTH_FAR;
use softraster::pipeline::{determine_bounding_box, paint_in_triangle, render2d};
use softraster::render_target::RenderTarget;
use softraster::vector::{Vector2, Vector3};

fn fx(pixels: i64) -> i64 {
    pixels * SCALE
}

fn snapshot(target: &RenderTarget) -> (Vec<Vector3>, Vec<i64>) {
    let mut colors = Vec::new();
    let mut depths = Vec::new();
    for y in 0..target.get_height() {
        for x in 0..target.get_width() {
            colors.push(*target.image_buffer.get(x, y));
            depths.push(*target.depth_buffer.get(x, y));
        }
    }
    (colors, depths)
}

#[test]
fn bounding_box_is_clamped() {
    let a = Vector3::new(fx(2), fx(1), 0);
    let b = Vector3::new(fx(2), fx(5), 0);
    let c = Vector3::new(fx(6), fx(1), 0);
    let bbox = determine_bounding_box(&a, &b, &c, 8, 8);
    assert_eq!(bbox.min_x, 2);
    assert_eq!(bbox.min_y, 1);
    assert_eq!(bbox.max_x, 7);
    assert_eq!(bbox.max_y, 6);

    // A triangle entirely right of the grid clamps to the last column.
    let far = Vector3::new(fx(20), fx(2), 0);
    let bbox = determine_bounding_box(&far, &far, &far, 8, 8);
    assert_eq!(bbox.min_x, 7);
    assert_eq!(bbox.max_x, 7);
}

#[test]
fn paint_covers_expected_pixels_with_flat_depth() {
    let mut target = RenderTarget::new(8, 8).unwrap();
    let a = Vector3::new(0, 0, SCALE);
    let b = Vector3::new(0, fx(8), SCALE);
    let c = Vector3::new(fx(8), 0, SCALE);
    let blue = Vector3::new(0, 0, SCALE);
    paint_in_triangle(&a, &b, &c, blue, &mut target);
    for y in 0..8usize {
        for x in 0..8usize {
            let covered = x + y <= 8;
            assert_eq!(*target.image_buffer.get(x, y) == blue, covered);
            if covered {
                // A flat triangle interpolates to its own depth exactly.
                assert_eq!(*target.depth_buffer.get(x, y), SCALE);
            } else {
                assert_eq!(*target.depth_buffer.get(x, y), DEPTH_FAR);
            }
        }
    }
}

#[test]
fn painting_twice_is_idempotent() {
    let mut target = RenderTarget::new(8, 8).unwrap();
    let a = Vector3::new(0, fx(1), fx(2));
    let b = Vector3::new(fx(1), fx(7), fx(3));
    let c = Vector3::new(fx(7), fx(2), fx(4));
    let color = Vector3::new(SCALE, 0, SCALE);
    paint_in_triangle(&a, &b, &c, color, &mut target);
    let once = snapshot(&target);
    paint_in_triangle(&a, &b, &c, color, &mut target);
    let twice = snapshot(&target);
    assert_eq!(once, twice);
}

#[test]
fn occlusion_is_order_independent() {
    // Two triangles covering the whole grid, at depths one and two.
    let near = [
        Vector3::new(fx(-1), fx(-1), fx(1)),
        Vector3::new(fx(-1), fx(20), fx(1)),
        Vector3::new(fx(20), fx(-1), fx(1)),
    ];
    let far = [
        Vector3::new(fx(-1), fx(-1), fx(2)),
        Vector3::new(fx(-1), fx(20), fx(2)),
        Vector3::new(fx(20), fx(-1), fx(2)),
    ];
    let red = Vector3::new(SCALE, 0, 0);
    let green = Vector3::new(0, SCALE, 0);

    let mut near_first = RenderTarget::new(8, 8).unwrap();
    paint_in_triangle(&near[0], &near[1], &near[2], red, &mut near_first);
    paint_in_triangle(&far[0], &far[1], &far[2], green, &mut near_first);

    let mut far_first = RenderTarget::new(8, 8).unwrap();
    paint_in_triangle(&far[0], &far[1], &far[2], green, &mut far_first);
    paint_in_triangle(&near[0], &near[1], &near[2], red, &mut far_first);

    for y in 0..8usize {
        for x in 0..8usize {
            assert_eq!(*near_first.image_buffer.get(x, y), red);
            assert_eq!(*far_first.image_buffer.get(x, y), red);
            assert_eq!(*near_first.depth_buffer.get(x, y), fx(1));
            assert_eq!(*far_first.depth_buffer.get(x, y), fx(1));
        }
    }
}

#[test]
fn equal_depth_keeps_first_writer() {
    // The depth test is strictly-less-than: a later triangle tying on depth
    // is discarded.
    let a = Vector3::new(fx(-1), fx(-1), fx(1));
    let b = Vector3::new(fx(-1), fx(20), fx(1));
    let c = Vector3::new(fx(20), fx(-1), fx(1));
    let red = Vector3::new(SCALE, 0, 0);
    let green = Vector3::new(0, SCALE, 0);
    let mut target = RenderTarget::new(4, 4).unwrap();
    paint_in_triangle(&a, &b, &c, red, &mut target);
    paint_in_triangle(&a, &b, &c, green, &mut target);
    for y in 0..4usize {
        for x in 0..4usize {
            assert_eq!(*target.image_buffer.get(x, y), red);
        }
    }
}

#[test]
fn render2d_paints_triangles_at_depth_zero() {
    let vertices = vec![
        Vector2::new(0, 0),
        Vector2::new(0, fx(8)),
        Vector2::new(fx(8), 0),
    ];
    let colors = vec![Vector3::new(0, SCALE, SCALE)];
    let mut target = RenderTarget::new(8, 8).unwrap();
    render2d(&vertices, &colors, &mut target);
    assert_eq!(*target.image_buffer.get(0, 0), colors[0]);
    assert_eq!(*target.depth_buffer.get(0, 0), 0);
    assert_eq!(*target.image_buffer.get(7, 7), Vector3::zeros());
    assert_eq!(*target.depth_buffer.get(7, 7), DEPTH_FAR);
}

#[test]
fn render2d_overlap_keeps_first_triangle() {
    // Both triangles rasterize at depth zero; on the overlap the first one
    // painted wins the strict depth test.
    let vertices = vec![
        Vector2::new(0, 0),
        Vector2::new(0, fx(8)),
        Vector2::new(fx(8), 0),
        Vector2::new(0, 0),
        Vector2::new(0, fx(4)),
        Vector2::new(fx(4), 0),
    ];
    let red = Vector3::new(SCALE, 0, 0);
    let green = Vector3::new(0, SCALE, 0);
    let colors = vec![red, green];
    let mut target = RenderTarget::new(8, 8).unwrap();
    render2d(&vertices, &colors, &mut target);
    assert_eq!(*target.image_buffer.get(1, 1), red);
    assert_eq!(*target.image_buffer.get(3, 4), red);
}
