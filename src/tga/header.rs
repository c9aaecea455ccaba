//! The fixed 18-byte TGA file header: its fields, its wire layout, and the
//! lookup tables behind its coded bytes.
use vstd::prelude::*;

use crate::tga::parse_error::ParseError;

verus! {

/// Number of bytes of an encoded header.
pub const HEADER_LEN: usize = 18;

/// Bits per pixel: one of the four supported depths.
#[derive(Copy, Clone, PartialEq, Eq, Structural, PartialOrd, Ord, Hash, Debug)]
pub enum Bpp {
    Bits8,
    Bits16,
    Bits24,
    Bits32,
}

impl Bpp {
    /// The depth in bits; it is also the depth's code on the wire.
    pub open spec fn spec_bits(self) -> u8 {
        match self {
            Bpp::Bits8 => 8,
            Bpp::Bits16 => 16,
            Bpp::Bits24 => 24,
            Bpp::Bits32 => 32,
        }
    }

    /// The depth in bits.
    pub fn bits(&self) -> (r: u8)
        ensures
            r == self.spec_bits(),
    {
        match self {
            Bpp::Bits8 => 8,
            Bpp::Bits16 => 16,
            Bpp::Bits24 => 24,
            Bpp::Bits32 => 32,
        }
    }

    /// The depth in whole bytes: `bits() == 8 * bytes()`.
    pub fn bytes(&self) -> (r: u8)
        ensures
            8 * r == self.spec_bits(),
    {
        self.bits() / 8
    }
}

/// The depth whose code is `value`, if there is one.
pub open spec fn spec_parse_bpp(value: u8) -> Result<Bpp, ParseError> {
    if value == 8 {
        Ok(Bpp::Bits8)
    } else if value == 16 {
        Ok(Bpp::Bits16)
    } else if value == 24 {
        Ok(Bpp::Bits24)
    } else if value == 32 {
        Ok(Bpp::Bits32)
    } else {
        Err(ParseError::InvalidBitDepth(value))
    }
}

/// Reads a bit-depth byte.
pub fn parse_bpp(value: u8) -> (r: Result<Bpp, ParseError>)
    ensures
        r == spec_parse_bpp(value),
{
    match value {
        8 => Ok(Bpp::Bits8),
        16 => Ok(Bpp::Bits16),
        24 => Ok(Bpp::Bits24),
        32 => Ok(Bpp::Bits32),
        _ => Err(ParseError::InvalidBitDepth(value)),
    }
}

/// Writes a bit-depth byte.
pub fn from_bpp(bpp: Bpp) -> (r: u8)
    ensures
        r == bpp.spec_bits(),
{
    match bpp {
        Bpp::Bits8 => 8,
        Bpp::Bits16 => 16,
        Bpp::Bits24 => 24,
        Bpp::Bits32 => 32,
    }
}

/// The bit-depth codes are exactly 8, 16, 24 and 32, one for each depth:
/// reading the code of a depth gives that depth back, a code that reads gives
/// back the same byte when written, and any other byte is refused with an
/// error that carries it.
pub proof fn lemma_bpp_table(bpp: Bpp, value: u8)
    ensures
        spec_parse_bpp(bpp.spec_bits()) == Ok::<Bpp, ParseError>(bpp),
        spec_parse_bpp(value) is Ok ==> spec_parse_bpp(value)->Ok_0.spec_bits() == value,
        spec_parse_bpp(value) is Err <==> (value != 8 && value != 16 && value != 24 && value
            != 32),
        spec_parse_bpp(value) is Err ==> spec_parse_bpp(value) == Err::<Bpp, ParseError>(
            ParseError::InvalidBitDepth(value),
        ),
{
}

/// Whether the pixel data is stored raw or run-length encoded.
#[derive(Copy, Clone, PartialEq, Eq, Structural, PartialOrd, Ord, Hash, Debug)]
pub enum ImageFormatType {
    Uncompressed,
    RLE,
}

/// What the pixel data holds.
#[derive(Copy, Clone, PartialEq, Eq, Structural, PartialOrd, Ord, Hash, Debug)]
pub enum ImageDataType {
    NoData,
    ColorMapped,
    TrueColor,
    BlackAndWhite,
}

/// The image-type code of a (format, data) pair, for the seven pairs that
/// have one.
pub open spec fn spec_image_type_code(
    format: ImageFormatType,
    data: ImageDataType,
) -> Option<u8> {
    match (format, data) {
        (ImageFormatType::Uncompressed, ImageDataType::NoData) => Some(0),
        (ImageFormatType::Uncompressed, ImageDataType::ColorMapped) => Some(1),
        (ImageFormatType::Uncompressed, ImageDataType::TrueColor) => Some(2),
        (ImageFormatType::Uncompressed, ImageDataType::BlackAndWhite) => Some(3),
        (ImageFormatType::RLE, ImageDataType::ColorMapped) => Some(9),
        (ImageFormatType::RLE, ImageDataType::TrueColor) => Some(10),
        (ImageFormatType::RLE, ImageDataType::BlackAndWhite) => Some(11),
        (ImageFormatType::RLE, ImageDataType::NoData) => None,
    }
}

/// The (format, data) pair whose code is `code`, if there is one.
pub open spec fn spec_parse_image_type(code: u8) -> Result<
    (ImageFormatType, ImageDataType),
    ParseError,
> {
    if code == 0 {
        Ok((ImageFormatType::Uncompressed, ImageDataType::NoData))
    } else if code == 1 {
        Ok((ImageFormatType::Uncompressed, ImageDataType::ColorMapped))
    } else if code == 2 {
        Ok((ImageFormatType::Uncompressed, ImageDataType::TrueColor))
    } else if code == 3 {
        Ok((ImageFormatType::Uncompressed, ImageDataType::BlackAndWhite))
    } else if code == 9 {
        Ok((ImageFormatType::RLE, ImageDataType::ColorMapped))
    } else if code == 10 {
        Ok((ImageFormatType::RLE, ImageDataType::TrueColor))
    } else if code == 11 {
        Ok((ImageFormatType::RLE, ImageDataType::BlackAndWhite))
    } else {
        Err(ParseError::InvalidImageTypeCode(code))
    }
}

/// The image-type table read both ways: reading the code of a pair gives that
/// pair back, and a byte that reads is the code of the pair it reads as.
pub proof fn lemma_image_type_round_trip(format: ImageFormatType, data: ImageDataType, code: u8)
    ensures
        spec_image_type_code(format, data) is Some ==> spec_parse_image_type(
            spec_image_type_code(format, data)->Some_0,
        ) == Ok::<(ImageFormatType, ImageDataType), ParseError>((format, data)),
        spec_parse_image_type(code) is Ok ==> spec_image_type_code(
            spec_parse_image_type(code)->Ok_0.0,
            spec_parse_image_type(code)->Ok_0.1,
        ) == Some(code),
{
}

/// Reads an image-type byte.
pub fn parse_image_type(image_type: u8) -> (r: Result<
    (ImageFormatType, ImageDataType),
    ParseError,
>)
    ensures
        r == spec_parse_image_type(image_type),
{
    match image_type {
        0 => Ok((ImageFormatType::Uncompressed, ImageDataType::NoData)),
        1 => Ok((ImageFormatType::Uncompressed, ImageDataType::ColorMapped)),
        2 => Ok((ImageFormatType::Uncompressed, ImageDataType::TrueColor)),
        3 => Ok((ImageFormatType::Uncompressed, ImageDataType::BlackAndWhite)),
        9 => Ok((ImageFormatType::RLE, ImageDataType::ColorMapped)),
        10 => Ok((ImageFormatType::RLE, ImageDataType::TrueColor)),
        11 => Ok((ImageFormatType::RLE, ImageDataType::BlackAndWhite)),
        _ => Err(ParseError::InvalidImageTypeCode(image_type)),
    }
}

/// Writes the image-type byte of a pair. The one pair without a code,
/// run-length encoded with no data, is written as 0.
pub fn from_image_type(image_format_type: ImageFormatType, image_data_type: ImageDataType) -> (r:
    u8)
    ensures
        spec_image_type_code(image_format_type, image_data_type) is Some ==> Some(r)
            == spec_image_type_code(image_format_type, image_data_type),
        spec_image_type_code(image_format_type, image_data_type) is None ==> r == 0,
{
    match (image_format_type, image_data_type) {
        (ImageFormatType::Uncompressed, ImageDataType::NoData) => 0,
        (ImageFormatType::Uncompressed, ImageDataType::ColorMapped) => 1,
        (ImageFormatType::Uncompressed, ImageDataType::TrueColor) => 2,
        (ImageFormatType::Uncompressed, ImageDataType::BlackAndWhite) => 3,
        (ImageFormatType::RLE, ImageDataType::ColorMapped) => 9,
        (ImageFormatType::RLE, ImageDataType::TrueColor) => 10,
        (ImageFormatType::RLE, ImageDataType::BlackAndWhite) => 11,
        (ImageFormatType::RLE, ImageDataType::NoData) => 0,
    }
}

/// The screen corner where the first stored pixel goes.
#[derive(Copy, Clone, PartialEq, Eq, Structural, PartialOrd, Ord, Hash, Debug)]
pub enum ImageOrigin {
    BottomLeft,
    BottomRight,
    TopLeft,
    TopRight,
}

/// The two-bit index of a corner in the image-descriptor byte.
pub open spec fn spec_origin_index(origin: ImageOrigin) -> u8 {
    match origin {
        ImageOrigin::BottomLeft => 0,
        ImageOrigin::BottomRight => 1,
        ImageOrigin::TopLeft => 2,
        ImageOrigin::TopRight => 3,
    }
}

/// The corner selected by bits 4 and 5 of an image-descriptor byte.
pub open spec fn spec_parse_image_origin(value: u8) -> ImageOrigin {
    let index = (value / 16) % 4;
    if index == 0 {
        ImageOrigin::BottomLeft
    } else if index == 1 {
        ImageOrigin::BottomRight
    } else if index == 2 {
        ImageOrigin::TopLeft
    } else {
        ImageOrigin::TopRight
    }
}

/// Whether bit 7 of an image-descriptor byte, the alpha-channel flag, is set.
pub open spec fn spec_parse_alpha(value: u8) -> bool {
    value >= 128
}

/// The image-descriptor byte of a corner and an alpha flag: the corner in bits
/// 4 and 5, the flag in bit 7, every other bit clear.
pub open spec fn spec_image_descriptor(origin: ImageOrigin, alpha_channel: bool) -> u8 {
    (spec_origin_index(origin) * 16 + if alpha_channel {
        128u8
    } else {
        0u8
    }) as u8
}

/// Reads the corner out of an image-descriptor byte; the other bits are ignored.
pub fn parse_image_origin(value: u8) -> (r: ImageOrigin)
    ensures
        r == spec_parse_image_origin(value),
{
    let index: u8 = (value & 0x30) >> 4;
    assert(((value & 0x30u8) >> 4u8) == (value / 16u8) % 4u8) by (bit_vector);
    match index {
        0 => ImageOrigin::BottomLeft,
        1 => ImageOrigin::BottomRight,
        2 => ImageOrigin::TopLeft,
        _ => ImageOrigin::TopRight,
    }
}

/// Reads the alpha-channel flag out of an image-descriptor byte.
pub fn parse_alpha(value: u8) -> (r: bool)
    ensures
        r == spec_parse_alpha(value),
{
    assert(((value & 0x80u8) != 0u8) == (value >= 128u8)) by (bit_vector);
    value & 0x80 != 0
}

/// Packs a corner and an alpha flag into an image-descriptor byte.
pub fn from_image_descriptor(image_origin: ImageOrigin, alpha_channel: bool) -> (r: u8)
    ensures
        r == spec_image_descriptor(image_origin, alpha_channel),
{
    let mut image_descriptor: u8 = match image_origin {
        ImageOrigin::BottomLeft => 0,
        ImageOrigin::BottomRight => 0x10,
        ImageOrigin::TopLeft => 0x20,
        ImageOrigin::TopRight => 0x30,
    };
    if alpha_channel {
        let d = image_descriptor;
        assert(d < 64u8 ==> (d | 0x80u8) == d + 128u8) by (bit_vector);
        image_descriptor = image_descriptor | 0x80;
    }
    image_descriptor
}

/// Unpacking a packed image-descriptor byte gives back its corner and flag.
pub proof fn lemma_image_descriptor_round_trip(origin: ImageOrigin, alpha_channel: bool)
    ensures
        spec_parse_image_origin(spec_image_descriptor(origin, alpha_channel)) == origin,
        spec_parse_alpha(spec_image_descriptor(origin, alpha_channel)) == alpha_channel,
{
}

/// The two bytes of a 16-bit value, least significant first.
pub open spec fn spec_le16(value: u16) -> Seq<u8> {
    seq![(value % 256) as u8, (value / 256) as u8]
}

/// The 16-bit value stored little-endian at `bytes[at]`, `bytes[at + 1]`.
pub open spec fn spec_read_le16(bytes: Seq<u8>, at: int) -> u16 {
    (bytes[at] + 256 * bytes[at + 1]) as u16
}

/// The color-map flag that `value` codes, if any.
pub open spec fn spec_has_color_map(value: u8) -> Result<bool, ParseError> {
    if value == 0 {
        Ok(false)
    } else if value == 1 {
        Ok(true)
    } else {
        Err(ParseError::InvalidColorMapFlag(value))
    }
}

/// The color-map depth read from the byte at offset 7. Without a color map the
/// byte is ignored and there is no depth; with one, 0 means no depth and any
/// other byte must be a bit-depth code.
pub open spec fn spec_parse_color_map_depth(color_map: bool, value: u8) -> Result<
    Option<Bpp>,
    ParseError,
> {
    if !color_map || value == 0 {
        Ok(None)
    } else {
        match spec_parse_bpp(value) {
            Ok(bpp) => Ok(Some(bpp)),
            Err(e) => Err(e),
        }
    }
}

/// The byte written at offset 7: 0 for an absent depth.
pub open spec fn spec_color_map_depth_code(depth: Option<Bpp>) -> u8 {
    match depth {
        Some(bpp) => bpp.spec_bits(),
        None => 0,
    }
}

/// The header fields of a TGA file.
#[derive(Copy, Clone, PartialEq, Eq, Structural, PartialOrd, Ord, Hash, Debug)]
pub struct TgaHeader {
    pub id_length: u8,
    pub color_map_type: bool,
    pub image_format_type: ImageFormatType,
    pub image_data_type: ImageDataType,
    pub color_map_start: u16,
    pub color_map_len: u16,
    pub color_map_depth: Option<Bpp>,
    pub x_origin: u16,
    pub y_origin: u16,
    pub width: u16,
    pub height: u16,
    pub bpp: Bpp,
    pub image_origin: ImageOrigin,
    pub alpha_channel: bool,
}

/// The header read from the first 18 of `bytes`. The fields are read in file
/// order and the first coded byte that is out of its table gives the error.
pub open spec fn spec_decode(bytes: Seq<u8>) -> Result<TgaHeader, ParseError> {
    match spec_has_color_map(bytes[1]) {
        Err(e) => Err(e),
        Ok(color_map_type) => match spec_parse_image_type(bytes[2]) {
            Err(e) => Err(e),
            Ok((image_format_type, image_data_type)) => match spec_parse_color_map_depth(
                color_map_type,
                bytes[7],
            ) {
                Err(e) => Err(e),
                Ok(color_map_depth) => match spec_parse_bpp(bytes[16]) {
                    Err(e) => Err(e),
                    Ok(bpp) => Ok(
                        TgaHeader {
                            id_length: bytes[0],
                            color_map_type,
                            image_format_type,
                            image_data_type,
                            color_map_start: spec_read_le16(bytes, 3),
                            color_map_len: spec_read_le16(bytes, 5),
                            color_map_depth,
                            x_origin: spec_read_le16(bytes, 8),
                            y_origin: spec_read_le16(bytes, 10),
                            width: spec_read_le16(bytes, 12),
                            height: spec_read_le16(bytes, 14),
                            bpp,
                            image_origin: spec_parse_image_origin(bytes[17]),
                            alpha_channel: spec_parse_alpha(bytes[17]),
                        },
                    ),
                },
            },
        },
    }
}

impl TgaHeader {
    /// The header that a new image of the given size carries: 24-bit
    /// uncompressed true color, top-left origin, no color map, no alpha.
    pub open spec fn spec_new(width: u16, height: u16) -> TgaHeader {
        TgaHeader {
            id_length: 0,
            color_map_type: false,
            image_format_type: ImageFormatType::Uncompressed,
            image_data_type: ImageDataType::TrueColor,
            color_map_start: 0,
            color_map_len: 0,
            color_map_depth: None,
            x_origin: 0,
            y_origin: 0,
            width,
            height,
            bpp: Bpp::Bits24,
            image_origin: ImageOrigin::TopLeft,
            alpha_channel: false,
        }
    }

    /// A header is valid when its (format, data) pair has an image-type code.
    pub open spec fn valid(self) -> bool {
        spec_image_type_code(self.image_format_type, self.image_data_type) is Some
    }

    /// The image-type byte written for this header.
    pub open spec fn spec_image_type_byte(self) -> u8 {
        match spec_image_type_code(self.image_format_type, self.image_data_type) {
            Some(code) => code,
            None => 0,
        }
    }

    /// The 18 bytes of this header on the wire.
    pub open spec fn spec_encode(self) -> Seq<u8> {
        seq![
            self.id_length,
            if self.color_map_type { 1u8 } else { 0u8 },
            self.spec_image_type_byte(),
        ] + spec_le16(self.color_map_start) + spec_le16(self.color_map_len) + seq![
            spec_color_map_depth_code(self.color_map_depth),
        ] + spec_le16(self.x_origin) + spec_le16(self.y_origin) + spec_le16(self.width)
            + spec_le16(self.height) + seq![
            self.bpp.spec_bits(),
            spec_image_descriptor(self.image_origin, self.alpha_channel),
        ]
    }

    /// This header as reading it back yields it: without a color map there is
    /// no color-map depth.
    pub open spec fn spec_as_read(self) -> TgaHeader {
        TgaHeader {
            color_map_depth: if self.color_map_type {
                self.color_map_depth
            } else {
                None
            },
            ..self
        }
    }

    pub fn new(width: u16, height: u16) -> (r: TgaHeader)
        ensures
            r == TgaHeader::spec_new(width, height),
            r.valid(),
    {
        TgaHeader {
            id_length: 0,
            color_map_type: false,
            image_format_type: ImageFormatType::Uncompressed,
            image_data_type: ImageDataType::TrueColor,
            color_map_start: 0,
            color_map_len: 0,
            color_map_depth: None,
            x_origin: 0,
            y_origin: 0,
            width,
            height,
            bpp: Bpp::Bits24,
            image_origin: ImageOrigin::TopLeft,
            alpha_channel: false,
        }
    }

    /// Decodes a header from the first 18 bytes of `bytes`.
    pub fn decode(bytes: &[u8]) -> (r: Result<TgaHeader, ParseError>)
        requires
            bytes@.len() >= HEADER_LEN,
        ensures
            r == spec_decode(bytes@),
    {
        let color_map_type = has_color_map(bytes[1])?;
        let (image_format_type, image_data_type) = parse_image_type(bytes[2])?;
        let color_map_depth = parse_color_map_depth(color_map_type, bytes[7])?;
        let bpp = parse_bpp(bytes[16])?;
        Ok(
            TgaHeader {
                id_length: bytes[0],
                color_map_type,
                image_format_type,
                image_data_type,
                color_map_start: read_le16(bytes, 3),
                color_map_len: read_le16(bytes, 5),
                color_map_depth,
                x_origin: read_le16(bytes, 8),
                y_origin: read_le16(bytes, 10),
                width: read_le16(bytes, 12),
                height: read_le16(bytes, 14),
                bpp,
                image_origin: parse_image_origin(bytes[17]),
                alpha_channel: parse_alpha(bytes[17]),
            },
        )
    }

    /// Appends the 18 encoded bytes of this header to `out`.
    pub fn write(&self, out: &mut Vec<u8>)
        ensures
            final(out)@ == old(out)@ + self.spec_encode(),
    {
        let ghost start = out@;
        out.push(self.id_length);
        out.push(if self.color_map_type { 1 } else { 0 });
        out.push(from_image_type(self.image_format_type, self.image_data_type));
        push_le16(out, self.color_map_start);
        push_le16(out, self.color_map_len);
        let depth: u8 = match self.color_map_depth {
            Some(bpp) => from_bpp(bpp),
            None => 0,
        };
        out.push(depth);
        push_le16(out, self.x_origin);
        push_le16(out, self.y_origin);
        push_le16(out, self.width);
        push_le16(out, self.height);
        out.push(from_bpp(self.bpp));
        out.push(from_image_descriptor(self.image_origin, self.alpha_channel));
        assert(out@ =~= start + self.spec_encode());
    }

    /// Replaces the bit depth by the one whose code is `value`; on an unknown
    /// code the header is left as it was.
    pub fn set_bpp(&mut self, value: u8) -> (r: Result<&Self, ParseError>)
        ensures
            match spec_parse_bpp(value) {
                Ok(bpp) => r is Ok && *r->Ok_0 == *final(self) && *final(self) == (TgaHeader {
                    bpp,
                    ..*old(self)
                }),
                Err(e) => r == Err::<&Self, ParseError>(e) && *final(self) == *old(self),
            },
    {
        self.bpp = parse_bpp(value)?;
        Ok(self)
    }
}

/// Reads the color-map flag byte.
pub fn has_color_map(value: u8) -> (r: Result<bool, ParseError>)
    ensures
        r == spec_has_color_map(value),
{
    match value {
        0 => Ok(false),
        1 => Ok(true),
        _ => Err(ParseError::InvalidColorMapFlag(value)),
    }
}

/// Reads the color-map depth byte.
fn parse_color_map_depth(color_map: bool, value: u8) -> (r: Result<Option<Bpp>, ParseError>)
    ensures
        r == spec_parse_color_map_depth(color_map, value),
{
    if !color_map || value == 0 {
        Ok(None)
    } else {
        let bpp = parse_bpp(value)?;
        Ok(Some(bpp))
    }
}

/// Reads the 16-bit little-endian value at `bytes[at]`.
fn read_le16(bytes: &[u8], at: usize) -> (r: u16)
    requires
        at + 1 < bytes@.len(),
    ensures
        r == spec_read_le16(bytes@, at as int),
{
    bytes[at] as u16 + 256 * (bytes[at + 1] as u16)
}

/// Appends the two little-endian bytes of `value`.
fn push_le16(out: &mut Vec<u8>, value: u16)
    ensures
        final(out)@ == old(out)@ + spec_le16(value),
{
    out.push((value % 256) as u8);
    out.push((value / 256) as u8);
    assert(final(out)@ =~= old(out)@ + spec_le16(value));
}

/// Decoding the encoding of a valid header gives the header back, except that
/// a header without a color map reads back with no color-map depth.
pub proof fn lemma_header_round_trip(h: TgaHeader)
    requires
        h.valid(),
    ensures
        h.spec_encode().len() == HEADER_LEN,
        spec_decode(h.spec_encode()) == Ok::<TgaHeader, ParseError>(h.spec_as_read()),
{
    let b = h.spec_encode();
    lemma_image_type_round_trip(h.image_format_type, h.image_data_type, 0);
    lemma_image_descriptor_round_trip(h.image_origin, h.alpha_channel);
    lemma_bpp_table(h.bpp, 0);
    if let Some(depth) = h.color_map_depth {
        lemma_bpp_table(depth, 0);
    }
    assert(spec_read_le16(b, 3) == h.color_map_start);
    assert(spec_read_le16(b, 5) == h.color_map_len);
    assert(spec_read_le16(b, 8) == h.x_origin);
    assert(spec_read_le16(b, 10) == h.y_origin);
    assert(spec_read_le16(b, 12) == h.width);
    assert(spec_read_le16(b, 14) == h.height);
}

/// A header whose color-map flag is well formed but whose image-type byte is
/// not one of the seven codes is refused, and the error carries that byte.
pub proof fn lemma_rejects_unknown_image_type(bytes: Seq<u8>)
    requires
        bytes.len() >= HEADER_LEN,
        bytes[1] == 0 || bytes[1] == 1,
        !(bytes[2] <= 3 || 9 <= bytes[2] <= 11),
    ensures
        spec_decode(bytes) == Err::<TgaHeader, ParseError>(
            ParseError::InvalidImageTypeCode(bytes[2]),
        ),
{
}

} // verus!
