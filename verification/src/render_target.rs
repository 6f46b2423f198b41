//! The mutable target of a render call: a color buffer and a depth buffer of
//! identical dimensions.

use vstd::prelude::*;
use crate::fixed::MAX_DIM;
use crate::image::{Buffer2D, DepthBuffer, ImageBuffer, DEPTH_FAR};
use crate::vector::Vector3;

verus! {

/// The structural failure a render target can report.
#[derive(Clone, Copy, Debug, PartialEq, Eq, Structural)]
pub enum RenderError {
    /// The target was asked for with zero width or zero height.
    InvalidDimensions,
}

/// A color buffer and a depth buffer sharing one width × height grid.
pub struct RenderTarget {
    pub image_buffer: ImageBuffer,
    pub depth_buffer: DepthBuffer,
}

impl RenderTarget {
    /// The target's width in pixels.
    pub open spec fn spec_width(&self) -> int {
        self.image_buffer.spec_width()
    }

    /// The target's height in pixels.
    pub open spec fn spec_height(&self) -> int {
        self.image_buffer.spec_height()
    }

    /// Well-formed: both buffers are intact, agree on their dimensions, and
    /// span at least one pixel on a grid the rasterizer can address.
    pub open spec fn wf(&self) -> bool {
        &&& self.image_buffer.wf()
        &&& self.depth_buffer.wf()
        &&& self.depth_buffer.spec_width() == self.spec_width()
        &&& self.depth_buffer.spec_height() == self.spec_height()
        &&& 0 < self.spec_width() <= MAX_DIM
        &&& 0 < self.spec_height() <= MAX_DIM
    }

    /// Allocates a target with the color buffer zeroed and the depth buffer
    /// at `DEPTH_FAR`. Zero-area targets are rejected, never constructed.
    pub fn new(width: usize, height: usize) -> (r: Result<RenderTarget, RenderError>)
        requires
            width <= MAX_DIM,
            height <= MAX_DIM,
        ensures
            r is Ok <==> 0 < width && 0 < height,
            r matches Ok(t) ==> {
                &&& t.wf()
                &&& t.spec_width() == width
                &&& t.spec_height() == height
                &&& forall|i: int|
                    0 <= i < t.image_buffer.cells().len() ==> t.image_buffer.cells()[i]
                        == (Vector3 { x: 0i64, y: 0i64, z: 0i64 })
                &&& forall|i: int|
                    0 <= i < t.depth_buffer.cells().len() ==> t.depth_buffer.cells()[i]
                        == DEPTH_FAR
            },
    {
        if width == 0 || height == 0 {
            Err(RenderError::InvalidDimensions)
        } else {
            proof {
                assert(width * height <= MAX_DIM * MAX_DIM) by (nonlinear_arith)
                    requires
                        width <= MAX_DIM,
                        height <= MAX_DIM,
                ;
            }
            Ok(
                RenderTarget {
                    image_buffer: Buffer2D::new(width, height),
                    depth_buffer: Buffer2D::new(width, height),
                },
            )
        }
    }

    /// Total number of pixels.
    pub fn get_size(&self) -> (r: usize)
        requires
            self.wf(),
        ensures
            r == self.spec_width() * self.spec_height(),
    {
        self.image_buffer.get_size()
    }

    /// The target's width in pixels.
    pub fn get_width(&self) -> (r: usize)
        ensures
            r == self.spec_width(),
    {
        self.image_buffer.get_width()
    }

    /// The target's height in pixels.
    pub fn get_height(&self) -> (r: usize)
        ensures
            r == self.spec_height(),
    {
        self.image_buffer.get_height()
    }

    /// Restores every color cell to the zero vector and every depth cell to
    /// `DEPTH_FAR`, whatever was written before; the dimensions stay.
    pub fn clear(&mut self)
        requires
            old(self).wf(),
        ensures
            final(self).wf(),
            final(self).spec_width() == old(self).spec_width(),
            final(self).spec_height() == old(self).spec_height(),
            forall|i: int|
                0 <= i < final(self).image_buffer.cells().len()
                    ==> final(self).image_buffer.cells()[i]
                    == (Vector3 { x: 0i64, y: 0i64, z: 0i64 }),
            forall|i: int|
                0 <= i < final(self).depth_buffer.cells().len()
                    ==> final(self).depth_buffer.cells()[i] == DEPTH_FAR,
    {
        self.image_buffer.clear();
        self.depth_buffer.clear();
    }
}

} // verus!
