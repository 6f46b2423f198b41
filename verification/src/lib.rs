//! A small CPU-side 3D software rasterizer, verified with Verus.
//!
//! Geometry is carried in signed 64-bit fixed-point coordinates with
//! [`fixed::SCALE`] units per pixel (or per world unit). The pipeline takes a
//! triangulated mesh and a camera transform, projects each triangle into the
//! pixel grid, and rasterizes it into a color buffer with depth-buffered
//! visibility resolution.

pub mod fixed;
pub mod image;
pub mod objects;
pub mod pipeline;
pub mod render_target;
pub mod transforms;
pub mod triangle;
pub mod vector;
