//! The TGA header codec, the pixel formats and the pixel buffer.
pub mod header;
pub mod image;
pub mod parse_error;

pub use crate::tga::header::{Bpp, ImageDataType, ImageFormatType, ImageOrigin, TgaHeader};
pub use crate::tga::image::{Color, Gray8, Pixel, Rgb555, Rgb888, TgaImage};
pub use crate::tga::parse_error::ParseError;
