use softraster::fixed::{HALF_SCALE, SCALE};
use softraster::objects::Model;
use softraster::pipeline::render3d;
use softraster::render_target::RenderTarget;
use softraster::transforms::{vertex_to_screen, Transform};
use softraster::vector::Vector3;

/// The projection magnification for a vertical field of view given in
/// degrees: `height / (2 * tan(fov / 2))`, scaled to fixed point.
fn pixel_scale_for(fov_degrees: f64, height: usize) -> i64 {
    let world_screen_height = 2.0 * (fov_degrees.to_radians() / 2.0).tan();
    (height as f64 / world_screen_height * SCALE as f64) as i64
}

fn identity_at(position: Vector3) -> Transform {
    Transform::new(0, SCALE, 0, SCALE, position)
}

fn painted_count(target: &RenderTarget) -> usize {
    let mut n = 0;
    for y in 0..target.get_height() {
        for x in 0..target.get_width() {
            if *target.image_buffer.get(x, y) != Vector3::zeros() {
                n += 1;
            }
        }
    }
    n
}

#[test]
fn world_transform_is_identity_plus_translation() {
    let t = identity_at(Vector3::new(10, 20, 30));
    let v = Vector3::new(SCALE, 2 * SCALE, 3 * SCALE);
    let w = t.vertex_to_world(&v);
    assert_eq!(w, Vector3::new(SCALE + 10, 2 * SCALE + 20, 3 * SCALE + 30));
}

#[test]
fn world_transform_half_turn_mirrors_x_and_z() {
    // Yaw of half a turn: sine 0, cosine minus one, both exact in fixed
    // point.
    let t = Transform::new(0, SCALE, 0, -SCALE, Vector3::zeros());
    let v = Vector3::new(SCALE, 2 * SCALE, 3 * SCALE);
    let w = t.vertex_to_world(&v);
    assert_eq!(w, Vector3::new(-SCALE, 2 * SCALE, -3 * SCALE));
}

#[test]
fn projection_centers_the_origin() {
    let t = identity_at(Vector3::new(0, 0, 2 * SCALE));
    let s = vertex_to_screen(&Vector3::zeros(), &t, 100, 50, 100 * SCALE).unwrap();
    assert_eq!(s.x, 100 * HALF_SCALE as i64);
    assert_eq!(s.y, 50 * HALF_SCALE as i64);
    assert_eq!(s.z, 2 * SCALE);
}

#[test]
fn projection_rejects_vertices_behind_the_camera() {
    let t = identity_at(Vector3::zeros());
    // At the camera plane.
    assert!(vertex_to_screen(&Vector3::zeros(), &t, 64, 64, SCALE).is_none());
    // Behind it.
    assert!(vertex_to_screen(&Vector3::new(0, 0, -SCALE), &t, 64, 64, SCALE).is_none());
    // In front of it.
    assert!(vertex_to_screen(&Vector3::new(0, 0, SCALE), &t, 64, 64, SCALE).is_some());
}

fn unit_square_model(transform: Transform) -> Model {
    let h = SCALE / 2;
    let a = Vector3::new(-h, -h, 0);
    let b = Vector3::new(h, -h, 0);
    let c = Vector3::new(h, h, 0);
    let d = Vector3::new(-h, h, 0);
    let white = Vector3::new(SCALE, SCALE, SCALE);
    Model::new(vec![a, d, b, c, b, d], vec![white, white], transform)
}

#[test]
fn unit_square_projects_to_centered_square() {
    let size: usize = 512;
    let ps = pixel_scale_for(60.0, size);
    let model = unit_square_model(identity_at(Vector3::new(0, 0, 3 * SCALE)));
    let mut target = RenderTarget::new(size, size).unwrap();
    render3d(&model, &mut target, ps);

    // The square spans world x and y in [-1/2, 1/2] at depth 3, so its
    // screen extent is the center plus/minus ps / 6, and a pixel is painted
    // exactly when its center lies within that closed extent.
    let center = (size as i64) * (HALF_SCALE as i64);
    let right = center + ps / 6;
    let left = center - (ps + 5) / 6;
    let first = (left + SCALE - 1).div_euclid(SCALE);
    let last = right.div_euclid(SCALE);

    for y in 0..size {
        for x in 0..size {
            let inside_x = first <= x as i64 && x as i64 <= last;
            let inside_y = first <= y as i64 && y as i64 <= last;
            let painted = *target.image_buffer.get(x, y) != Vector3::zeros();
            assert_eq!(painted, inside_x && inside_y, "pixel ({}, {})", x, y);
            if painted {
                assert_eq!(*target.depth_buffer.get(x, y), 3 * SCALE);
            }
        }
    }

    // The painted width matches the closed-form pixel width
    // size / (2 * tan(30 degrees) * 3) to within a pixel of rounding.
    let expected = size as f64 / (2.0 * 30.0f64.to_radians().tan() * 3.0);
    let width = (last - first + 1) as f64;
    assert!((width - expected).abs() < 2.0, "width {} vs {}", width, expected);
}

#[test]
fn half_turn_of_yaw_makes_a_triangle_vanish() {
    let size: usize = 64;
    let ps = pixel_scale_for(60.0, size);
    let h = SCALE / 2;
    let tri = vec![
        Vector3::new(-h, -h, 0),
        Vector3::new(-h, h, 0),
        Vector3::new(h, -h, 0),
    ];
    let white = vec![Vector3::new(SCALE, SCALE, SCALE)];

    let facing = Model::new(tri.clone(), white.clone(), identity_at(Vector3::new(0, 0, 3 * SCALE)));
    let mut target = RenderTarget::new(size, size).unwrap();
    render3d(&facing, &mut target, ps);
    assert!(painted_count(&target) > 0);

    // A half turn of yaw flips the winding: the single-sided triangle
    // disappears.
    let turned = Model::new(
        tri,
        white,
        Transform::new(0, SCALE, 0, -SCALE, Vector3::new(0, 0, 3 * SCALE)),
    );
    let mut target = RenderTarget::new(size, size).unwrap();
    render3d(&turned, &mut target, ps);
    assert_eq!(painted_count(&target), 0);
}

#[test]
fn triangle_behind_the_camera_is_skipped() {
    let size: usize = 32;
    let ps = pixel_scale_for(60.0, size);
    let model = unit_square_model(identity_at(Vector3::new(0, 0, -3 * SCALE)));
    let mut target = RenderTarget::new(size, size).unwrap();
    render3d(&model, &mut target, ps);
    assert_eq!(painted_count(&target), 0);
}
