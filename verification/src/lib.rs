//! A Whitted-style ray tracer for scenes of axis-aligned boxes: the verified
//! decision core.
//!
//! All real arithmetic of the tracer (vectors, trigonometry, shading sums) is
//! carried out by the caller in single precision.  This library holds what is
//! decided about those numbers and about the picture: how two single-precision
//! values compare, which face of a box a ray enters through, which box is
//! nearest, which box shadows a point, how deep the recursion may go and in what
//! order its rays are cast, how a colour is clamped and packed, and how the
//! finished pixels reach the framebuffer.

pub mod color;
pub mod framebuffer;
pub mod geometry;
pub mod material;
pub mod render;
pub mod scalar;
pub mod scene;
pub mod texture;
pub mod tracer;
