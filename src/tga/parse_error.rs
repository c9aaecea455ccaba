use vstd::prelude::*;

verus! {

/// Why a header could not be decoded. Each variant carries the offending byte.
#[derive(Debug, Clone, Copy, PartialEq, Eq, Structural)]
#[non_exhaustive]
pub enum ParseError {
    /// The color-map flag (offset 1) is neither 0 nor 1.
    InvalidColorMapFlag(u8),
    /// The image-type byte (offset 2) is not one of the seven known codes.
    InvalidImageTypeCode(u8),
    /// A bit-depth byte (offset 7 or 16) is not 8, 16, 24 or 32.
    InvalidBitDepth(u8),
}

} // verus!
