//! A small codec for the TGA raster-image format and an integer line rasterizer
//! that draws into an in-memory pixel buffer.
pub mod raster;
pub mod tga;
