//! A small software rasterizer: bitmaps, triangle rasterization with a depth
//! buffer and programmable shading, camera matrices, and the file formats
//! around them, with their behaviour stated in contracts.

pub mod exact;
pub mod fixed;
pub mod geometry;
pub mod image;
pub mod model;
pub mod pbm;
pub mod render;
pub mod scalar;
pub mod scan;
pub mod shaders;
pub mod text;
pub mod tga;
