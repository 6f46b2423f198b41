use softraster::image::{Buffer2D, DepthBuffer, ImageBuffer, DEPTH_FAR};
use softraster::render_target::{RenderTarget, RenderError};
use softraster::vector::Vector3;

#[test]
fn new_image_buffer_is_black() {
    let buf: ImageBuffer = Buffer2D::new(3, 2);
    assert_eq!(buf.get_width(), 3);
    assert_eq!(buf.get_height(), 2);
    assert_eq!(buf.get_size(), 6);
    for y in 0..2 {
        for x in 0..3 {
            assert_eq!(*buf.get(x, y), Vector3::zeros());
        }
    }
}

#[test]
fn new_depth_buffer_is_far() {
    let buf: DepthBuffer = Buffer2D::new(2, 2);
    for y in 0..2 {
        for x in 0..2 {
            assert_eq!(*buf.get(x, y), DEPTH_FAR);
        }
    }
}

#[test]
fn buffer_set_then_get() {
    let mut buf: ImageBuffer = Buffer2D::new(4, 4);
    let red = Vector3::new(65536, 0, 0);
    buf.set(2, 3, red);
    assert_eq!(*buf.get(2, 3), red);
    // A neighbor stays untouched.
    assert_eq!(*buf.get(3, 3), Vector3::zeros());
    assert_eq!(*buf.get(2, 2), Vector3::zeros());
}

#[test]
fn buffer_clear_restores_neutral() {
    let mut buf: DepthBuffer = Buffer2D::new(3, 3);
    buf.set(0, 0, 7);
    buf.set(2, 2, 9);
    buf.clear();
    for y in 0..3 {
        for x in 0..3 {
            assert_eq!(*buf.get(x, y), DEPTH_FAR);
        }
    }
}

#[test]
fn zero_area_target_is_rejected() {
    assert!(matches!(RenderTarget::new(0, 5), Err(RenderError::InvalidDimensions)));
    assert!(matches!(RenderTarget::new(5, 0), Err(RenderError::InvalidDimensions)));
    assert!(matches!(RenderTarget::new(0, 0), Err(RenderError::InvalidDimensions)));
    assert!(RenderTarget::new(5, 5).is_ok());
}

#[test]
fn target_clear_restores_every_cell() {
    let mut target = RenderTarget::new(4, 3).unwrap();
    assert_eq!(target.get_width(), 4);
    assert_eq!(target.get_height(), 3);
    assert_eq!(target.get_size(), 12);
    let green = Vector3::new(0, 65536, 0);
    target.image_buffer.set(1, 2, green);
    target.depth_buffer.set(1, 2, 42);
    target.depth_buffer.set(0, 0, 1);
    target.clear();
    for y in 0..3 {
        for x in 0..4 {
            assert_eq!(*target.image_buffer.get(x, y), Vector3::zeros());
            assert_eq!(*target.depth_buffer.get(x, y), DEPTH_FAR);
        }
    }
}
