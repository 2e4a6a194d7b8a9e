//! A small verified image pipeline that turns a short text string into a
//! stylised square RGBA bitmap: the text is rasterised, tightly cropped,
//! keystone-warped, then composited with a 90-degree-rotated copy of itself
//! onto a square canvas.

pub mod raster;
pub mod bbox;
pub mod rotate;
pub mod compose;
pub mod text;
pub mod warp;
pub mod pipeline;
