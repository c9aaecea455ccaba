use rusty_renderer::tga::{Gray8, Pixel, Rgb555, Rgb888, TgaHeader, TgaImage};

#[test]
fn pixel_formats() {
    let c = Rgb888 { r: 1, g: 2, b: 3 };
    assert_eq!(c.to_bytes(), vec![1, 2, 3]);
    assert_eq!(Rgb888::from_bytes(&[1, 2, 3]), c);
    assert_eq!((Rgb888::bytes(), Rgb888::bits()), (3, 24));
    let c = Rgb555 { rgb: 0x7C1F };
    assert_eq!(c.to_bytes(), vec![0x1F, 0x7C]);
    assert_eq!(Rgb555::from_bytes(&[0x1F, 0x7C]), c);
    assert_eq!((Rgb555::bytes(), Rgb555::bits()), (2, 15));
    let c = Gray8 { gray: 9 };
    assert_eq!(c.to_bytes(), vec![9]);
    assert_eq!(Gray8::from_bytes(&[9]), c);
    assert_eq!((Gray8::bytes(), Gray8::bits()), (1, 8));
}

#[test]
fn new_image_is_zeroed() {
    let image: TgaImage<Rgb555> = TgaImage::new(3, 5).unwrap();
    assert_eq!(image.data(), &[0u8; 30][..]);
    assert_eq!(*image.header(), TgaHeader::new(3, 5));
}

#[test]
fn empty_image() {
    let image: TgaImage<Gray8> = TgaImage::new(0, 7).unwrap();
    assert!(image.data().is_empty());
    let mut out = Vec::new();
    image.write(&mut out);
    assert_eq!(out.len(), 18);
}

#[test]
fn set_touches_one_pixel_only() {
    let (w, h) = (5u16, 4u16);
    let mut image: TgaImage<Rgb888> = TgaImage::new(w, h).unwrap();
    let p = Rgb888 { r: 10, g: 20, b: 30 };
    image.set(3, 2, &p);
    let offset = (2 * 5 + 3) * 3;
    let data = image.data();
    assert_eq!(&data[offset..offset + 3], &[10, 20, 30]);
    for (i, byte) in data.iter().enumerate() {
        if i < offset || i >= offset + 3 {
            assert_eq!(*byte, 0);
        }
    }
}

#[test]
fn set_last_pixel_of_rgb555() {
    let mut image: TgaImage<Rgb555> = TgaImage::new(2, 2).unwrap();
    image.set(1, 1, &Rgb555 { rgb: 0x0102 });
    assert_eq!(image.data(), &[0, 0, 0, 0, 0, 0, 2, 1][..]);
}

#[test]
fn end_to_end_two_by_two() {
    let mut image: TgaImage<Rgb888> = TgaImage::new(2, 2).unwrap();
    let white = Rgb888 { r: 255, g: 255, b: 255 };
    image.set(0, 0, &white);
    image.set(1, 1, &white);
    let mut out = Vec::new();
    image.write(&mut out);
    let mut header = Vec::new();
    TgaHeader::new(2, 2).write(&mut header);
    assert_eq!(&out[..18], &header[..]);
    assert_eq!(&out[18..], &[255, 255, 255, 0, 0, 0, 0, 0, 0, 255, 255, 255]);
}
