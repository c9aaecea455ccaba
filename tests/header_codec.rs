use rusty_renderer::tga::header::{
    from_bpp, from_image_descriptor, from_image_type, has_color_map, parse_alpha, parse_bpp,
    parse_image_origin, parse_image_type,
};
use rusty_renderer::tga::{
    Bpp, ImageDataType, ImageFormatType, ImageOrigin, ParseError, TgaHeader,
};

fn encode(h: &TgaHeader) -> Vec<u8> {
    let mut out = Vec::new();
    h.write(&mut out);
    out
}

fn sample_header() -> TgaHeader {
    TgaHeader {
        id_length: 7,
        color_map_type: true,
        image_format_type: ImageFormatType::RLE,
        image_data_type: ImageDataType::ColorMapped,
        color_map_start: 0x1234,
        color_map_len: 300,
        color_map_depth: Some(Bpp::Bits16),
        x_origin: 1,
        y_origin: 0xFFFF,
        width: 640,
        height: 480,
        bpp: Bpp::Bits32,
        image_origin: ImageOrigin::BottomRight,
        alpha_channel: true,
    }
}

#[test]
fn default_header_bytes() {
    let h = TgaHeader::new(2, 3);
    assert_eq!(
        encode(&h),
        vec![0, 0, 2, 0, 0, 0, 0, 0, 0, 0, 0, 0, 2, 0, 3, 0, 24, 32]
    );
}

#[test]
fn sample_header_bytes() {
    assert_eq!(
        encode(&sample_header()),
        vec![7, 1, 9, 0x34, 0x12, 44, 1, 16, 1, 0, 0xFF, 0xFF, 0x80, 2, 0xE0, 1, 32, 0x90]
    );
}

#[test]
fn write_appends_to_existing_bytes() {
    let mut out = vec![9, 9];
    TgaHeader::new(1, 1).write(&mut out);
    assert_eq!(out.len(), 20);
    assert_eq!(&out[..3], &[9, 9, 0]);
}

#[test]
fn round_trip_with_color_map() {
    let h = sample_header();
    assert_eq!(TgaHeader::decode(&encode(&h)), Ok(h));
}

#[test]
fn round_trip_default_header() {
    let h = TgaHeader::new(1000, 1);
    assert_eq!(TgaHeader::decode(&encode(&h)), Ok(h));
}

#[test]
fn round_trip_drops_depth_without_color_map() {
    let mut h = sample_header();
    h.color_map_type = false;
    let decoded = TgaHeader::decode(&encode(&h)).unwrap();
    assert_eq!(decoded.color_map_depth, None);
    let mut expected = h;
    expected.color_map_depth = None;
    assert_eq!(decoded, expected);
}

#[test]
fn round_trip_color_map_without_depth() {
    let mut h = sample_header();
    h.color_map_depth = None;
    assert_eq!(encode(&h)[7], 0);
    assert_eq!(TgaHeader::decode(&encode(&h)), Ok(h));
}

#[test]
fn round_trip_every_origin_and_type() {
    let origins = [
        ImageOrigin::BottomLeft,
        ImageOrigin::BottomRight,
        ImageOrigin::TopLeft,
        ImageOrigin::TopRight,
    ];
    let types = [
        (ImageFormatType::Uncompressed, ImageDataType::NoData),
        (ImageFormatType::Uncompressed, ImageDataType::ColorMapped),
        (ImageFormatType::Uncompressed, ImageDataType::TrueColor),
        (ImageFormatType::Uncompressed, ImageDataType::BlackAndWhite),
        (ImageFormatType::RLE, ImageDataType::ColorMapped),
        (ImageFormatType::RLE, ImageDataType::TrueColor),
        (ImageFormatType::RLE, ImageDataType::BlackAndWhite),
    ];
    for o in origins {
        for (f, d) in types {
            for alpha in [false, true] {
                let mut h = sample_header();
                h.image_origin = o;
                h.image_format_type = f;
                h.image_data_type = d;
                h.alpha_channel = alpha;
                assert_eq!(TgaHeader::decode(&encode(&h)), Ok(h));
            }
        }
    }
}

#[test]
fn decode_reads_longer_buffer() {
    let mut bytes = encode(&sample_header());
    bytes.extend_from_slice(&[1, 2, 3]);
    assert_eq!(TgaHeader::decode(&bytes), Ok(sample_header()));
}

#[test]
fn rejects_unknown_image_types() {
    for code in 0..=255u8 {
        let mut bytes = encode(&TgaHeader::new(4, 4));
        bytes[2] = code;
        let r = TgaHeader::decode(&bytes);
        if code <= 3 || (9..=11).contains(&code) {
            assert!(r.is_ok());
        } else {
            assert_eq!(r, Err(ParseError::InvalidImageTypeCode(code)));
        }
    }
}

#[test]
fn rejects_bad_color_map_flag() {
    let mut bytes = encode(&TgaHeader::new(4, 4));
    bytes[1] = 2;
    bytes[2] = 200;
    assert_eq!(TgaHeader::decode(&bytes), Err(ParseError::InvalidColorMapFlag(2)));
}

#[test]
fn rejects_bad_pixel_depth() {
    let mut bytes = encode(&TgaHeader::new(4, 4));
    bytes[16] = 15;
    assert_eq!(TgaHeader::decode(&bytes), Err(ParseError::InvalidBitDepth(15)));
}

#[test]
fn rejects_bad_color_map_depth() {
    let mut bytes = encode(&sample_header());
    bytes[7] = 12;
    assert_eq!(TgaHeader::decode(&bytes), Err(ParseError::InvalidBitDepth(12)));
}

#[test]
fn ignores_depth_byte_without_color_map() {
    let mut bytes = encode(&TgaHeader::new(4, 4));
    bytes[7] = 12;
    let h = TgaHeader::decode(&bytes).unwrap();
    assert_eq!(h.color_map_depth, None);
}

#[test]
fn bpp_table() {
    for (code, bpp) in [(8, Bpp::Bits8), (16, Bpp::Bits16), (24, Bpp::Bits24), (32, Bpp::Bits32)] {
        assert_eq!(parse_bpp(code), Ok(bpp));
        assert_eq!(from_bpp(bpp), code);
        assert_eq!(bpp.bits(), code);
        assert_eq!(bpp.bits(), 8 * bpp.bytes());
    }
    for code in 0..=255u8 {
        if ![8, 16, 24, 32].contains(&code) {
            assert_eq!(parse_bpp(code), Err(ParseError::InvalidBitDepth(code)));
        }
    }
}

#[test]
fn image_type_table() {
    assert_eq!(
        parse_image_type(10),
        Ok((ImageFormatType::RLE, ImageDataType::TrueColor))
    );
    assert_eq!(from_image_type(ImageFormatType::RLE, ImageDataType::BlackAndWhite), 11);
    assert_eq!(from_image_type(ImageFormatType::RLE, ImageDataType::NoData), 0);
    assert_eq!(parse_image_type(4), Err(ParseError::InvalidImageTypeCode(4)));
}

#[test]
fn descriptor_packing() {
    assert_eq!(from_image_descriptor(ImageOrigin::TopRight, true), 0xB0);
    assert_eq!(from_image_descriptor(ImageOrigin::BottomLeft, false), 0);
    assert_eq!(parse_image_origin(0x2F), ImageOrigin::TopLeft);
    assert_eq!(parse_image_origin(0x90), ImageOrigin::BottomRight);
    assert!(parse_alpha(0x80));
    assert!(!parse_alpha(0x7F));
}

#[test]
fn color_map_flag() {
    assert_eq!(has_color_map(0), Ok(false));
    assert_eq!(has_color_map(1), Ok(true));
    assert_eq!(has_color_map(7), Err(ParseError::InvalidColorMapFlag(7)));
}

#[test]
fn set_bpp_accepts_and_rejects() {
    let mut h = TgaHeader::new(3, 3);
    let mut expected = TgaHeader::new(3, 3);
    expected.bpp = Bpp::Bits32;
    assert_eq!(h.set_bpp(32).map(|r| *r), Ok(expected));
    assert_eq!(h, expected);
    assert_eq!(h.set_bpp(31).map(|r| *r), Err(ParseError::InvalidBitDepth(31)));
    assert_eq!(h, expected);
}
