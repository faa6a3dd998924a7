//! A fixed-resolution logical canvas rendered onto a resizable physical
//! pixel buffer, with a line rasterizer, packed colors and frame pacing.

pub mod line;
pub mod software_canvas;
pub mod timing;
pub mod vec4;
