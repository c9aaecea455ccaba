//! Pixel formats and the pixel buffer that a TGA image is drawn into.
use vstd::prelude::*;

use core::marker::PhantomData;

use crate::tga::header::{spec_le16, TgaHeader};
use crate::tga::parse_error::ParseError;

verus! {

/// A fixed encoding of one pixel's color into a few bytes.
pub trait Pixel: Sized {
    /// How many bytes one pixel takes.
    spec fn spec_bytes() -> nat;

    /// How many bits of color one pixel holds.
    spec fn spec_bits() -> nat;

    /// The bytes that encode this pixel.
    spec fn encoding(&self) -> Seq<u8>;

    /// A pixel takes at least one byte and at most three.
    proof fn lemma_bytes_range()
        ensures
            1 <= Self::spec_bytes() <= 3,
    ;

    /// Every pixel of a format is encoded in the same number of bytes.
    proof fn lemma_encoding_len(&self)
        ensures
            self.encoding().len() == Self::spec_bytes(),
    ;

    /// The pixel encoded by `bytes`, which hold exactly one pixel.
    fn from_bytes(bytes: &[u8]) -> (r: Self)
        requires
            bytes@.len() == Self::spec_bytes(),
        ensures
            r.encoding() == bytes@,
    ;

    fn to_bytes(&self) -> (r: Vec<u8>)
        ensures
            r@ == self.encoding(),
    ;

    fn bytes() -> (r: u8)
        ensures
            r == Self::spec_bytes(),
    ;

    fn bits() -> (r: u8)
        ensures
            r == Self::spec_bits(),
    ;
}

/// A 24-bit color, written as `[r, g, b]`.
#[derive(Copy, Clone, PartialEq, Eq, Structural, Debug)]
pub struct Rgb888 {
    pub r: u8,
    pub g: u8,
    pub b: u8,
}

/// A 15-bit color packed in a 16-bit value, written little-endian.
#[derive(Copy, Clone, PartialEq, Eq, Structural, Debug)]
pub struct Rgb555 {
    pub rgb: u16,
}

/// An 8-bit gray level, written as one byte.
#[derive(Copy, Clone, PartialEq, Eq, Structural, Debug)]
pub struct Gray8 {
    pub gray: u8,
}

/// A color in any of the supported pixel formats.
#[derive(Copy, Clone, PartialEq, Eq, Structural, Debug)]
pub enum Color {
    Rgb888(Rgb888),
    Rgb555(Rgb555),
    Gray8(Gray8),
}

impl Pixel for Rgb888 {
    open spec fn spec_bytes() -> nat {
        3
    }

    open spec fn spec_bits() -> nat {
        24
    }

    open spec fn encoding(&self) -> Seq<u8> {
        seq![self.r, self.g, self.b]
    }

    proof fn lemma_bytes_range() {
    }

    proof fn lemma_encoding_len(&self) {
    }

    fn from_bytes(bytes: &[u8]) -> (r: Rgb888) {
        let r = Rgb888 { r: bytes[0], g: bytes[1], b: bytes[2] };
        assert(r.encoding() =~= bytes@);
        r
    }

    fn to_bytes(&self) -> (r: Vec<u8>) {
        let r = vec![self.r, self.g, self.b];
        assert(r@ =~= self.encoding());
        r
    }

    fn bytes() -> (r: u8) {
        3
    }

    fn bits() -> (r: u8) {
        24
    }
}

impl Pixel for Rgb555 {
    open spec fn spec_bytes() -> nat {
        2
    }

    open spec fn spec_bits() -> nat {
        15
    }

    open spec fn encoding(&self) -> Seq<u8> {
        spec_le16(self.rgb)
    }

    proof fn lemma_bytes_range() {
    }

    proof fn lemma_encoding_len(&self) {
    }

    fn from_bytes(bytes: &[u8]) -> (r: Rgb555) {
        let r = Rgb555 { rgb: bytes[0] as u16 + 256 * (bytes[1] as u16) };
        assert(r.encoding() =~= bytes@);
        r
    }

    fn to_bytes(&self) -> (r: Vec<u8>) {
        let r = vec![(self.rgb % 256) as u8, (self.rgb / 256) as u8];
        assert(r@ =~= self.encoding());
        r
    }

    fn bytes() -> (r: u8) {
        2
    }

    fn bits() -> (r: u8) {
        15
    }
}

impl Pixel for Gray8 {
    open spec fn spec_bytes() -> nat {
        1
    }

    open spec fn spec_bits() -> nat {
        8
    }

    open spec fn encoding(&self) -> Seq<u8> {
        seq![self.gray]
    }

    proof fn lemma_bytes_range() {
    }

    proof fn lemma_encoding_len(&self) {
    }

    fn from_bytes(bytes: &[u8]) -> (r: Gray8) {
        let r = Gray8 { gray: bytes[0] };
        assert(r.encoding() =~= bytes@);
        r
    }

    fn to_bytes(&self) -> (r: Vec<u8>) {
        let r = vec![self.gray];
        assert(r@ =~= self.encoding());
        r
    }

    fn bytes() -> (r: u8) {
        1
    }

    fn bits() -> (r: u8) {
        8
    }
}

/// The offset of the first byte of pixel (x, y) in a row-major buffer that is
/// `width` pixels wide, with `bytes` bytes per pixel.
pub open spec fn spec_pixel_offset(width: int, x: int, y: int, bytes: int) -> int {
    (y * width + x) * bytes
}

/// `data` with the pixel at (x, y) overwritten by `encoding`, in a row-major
/// buffer that is `width` pixels wide and whose pixels are `encoding.len()`
/// bytes each.
pub open spec fn spec_put_pixel(
    data: Seq<u8>,
    width: int,
    x: int,
    y: int,
    encoding: Seq<u8>,
) -> Seq<u8> {
    let offset = spec_pixel_offset(width, x, y, encoding.len() as int);
    data.take(offset) + encoding + data.skip(offset + encoding.len())
}

/// A pixel at (x, y), inside a `width` by `height` image, lies wholly inside
/// that image's row-major buffer.
pub proof fn lemma_pixel_in_buffer(width: int, height: int, x: int, y: int, bytes: int)
    requires
        0 <= x < width,
        0 <= y < height,
        bytes >= 1,
    ensures
        0 <= y * width,
        y * width + x <= spec_pixel_offset(width, x, y, bytes),
        spec_pixel_offset(width, x, y, bytes) + bytes <= width * height * bytes,
{
    assert(0 <= y * width + x) by (nonlinear_arith)
        requires
            0 <= x < width,
            0 <= y,
    ;
    assert(y * width + x + 1 <= width * height) by (nonlinear_arith)
        requires
            0 <= x < width,
            0 <= y < height,
    ;
    assert((y * width + x) * bytes + bytes <= width * height * bytes) by (nonlinear_arith)
        requires
            y * width + x + 1 <= width * height,
            bytes >= 1,
    ;
    assert(y * width + x <= (y * width + x) * bytes) by (nonlinear_arith)
        requires
            0 <= y * width + x,
            bytes >= 1,
    ;
}

/// An image under construction: a header and a zero-initialised, row-major
/// buffer of `width * height` pixels of format `P`.
pub struct TgaImage<P: Pixel> {
    header: TgaHeader,
    data: Vec<u8>,
    color_marker: PhantomData<P>,
}

impl<P: Pixel> TgaImage<P> {
    /// The header of the image.
    pub closed spec fn spec_header(&self) -> TgaHeader {
        self.header
    }

    /// The pixel bytes of the image.
    pub closed spec fn spec_data(&self) -> Seq<u8> {
        self.data@
    }

    /// The buffer holds exactly `width * height` pixels.
    pub open spec fn wf(&self) -> bool {
        self.spec_data().len() == self.spec_header().width * self.spec_header().height
            * P::spec_bytes()
    }

    /// Whether (x, y) is a pixel of the image.
    pub open spec fn in_bounds(&self, x: int, y: int) -> bool {
        0 <= x < self.spec_header().width && 0 <= y < self.spec_header().height
    }

    /// A `width` by `height` image whose pixel bytes are all zero, with the
    /// default header of that size.
    pub fn new(width: u16, height: u16) -> (r: Result<Self, ParseError>)
        requires
            width * height * P::spec_bytes() <= usize::MAX,
        ensures
            r is Ok,
            r->Ok_0.wf(),
            r->Ok_0.spec_header() == TgaHeader::spec_new(width, height),
            r->Ok_0.spec_data() == Seq::new(
                (width * height * P::spec_bytes()) as nat,
                |i: int| 0u8,
            ),
    {
        let header = TgaHeader::new(width, height);
        let bytes = P::bytes();
        let ghost n = width * height * P::spec_bytes();
        proof {
            P::lemma_bytes_range();
        }
        assert((width as int) * (height as int) <= n) by (nonlinear_arith)
            requires
                n == width * height * P::spec_bytes(),
                P::spec_bytes() >= 1,
                width >= 0,
                height >= 0,
        ;
        let size: usize = (width as usize) * (height as usize) * (bytes as usize);
        let mut data: Vec<u8> = Vec::with_capacity(size);
        let mut i: usize = 0;
        while i < size
            invariant
                i <= size,
                data@ == Seq::new(i as nat, |j: int| 0u8),
            decreases size - i,
        {
            data.push(0);
            i = i + 1;
            assert(data@ =~= Seq::new(i as nat, |j: int| 0u8));
        }
        assert(data@ =~= Seq::new(n as nat, |j: int| 0u8));
        Ok(TgaImage { header, data, color_marker: PhantomData })
    }

    /// Writes `pixel` at (x, y): the pixel's bytes replace the bytes at offset
    /// `(y * width + x) * P::bytes()`, and no other byte changes.
    pub fn set(&mut self, x: u16, y: u16, pixel: &P)
        requires
            old(self).wf(),
            old(self).in_bounds(x as int, y as int),
        ensures
            final(self).wf(),
            final(self).spec_header() == old(self).spec_header(),
            final(self).spec_data() == spec_put_pixel(
                old(self).spec_data(),
                old(self).spec_header().width as int,
                x as int,
                y as int,
                pixel.encoding(),
            ),
            final(self).spec_data().len() == old(self).spec_data().len(),
            ({
                let offset = spec_pixel_offset(
                    old(self).spec_header().width as int,
                    x as int,
                    y as int,
                    P::spec_bytes() as int,
                );
                &&& final(self).spec_data().subrange(offset, offset + P::spec_bytes())
                    == pixel.encoding()
                &&& forall|i: int|
                    0 <= i < old(self).spec_data().len() && !(offset <= i < offset
                        + P::spec_bytes()) ==> #[trigger] final(self).spec_data()[i] == old(
                        self,
                    ).spec_data()[i]
            }),
    {
        let ghost d0 = self.data@;
        let ghost w = self.header.width as int;
        let ghost h = self.header.height as int;
        proof {
            P::lemma_bytes_range();
            pixel.lemma_encoding_len();
            lemma_pixel_in_buffer(w, h, x as int, y as int, P::spec_bytes() as int);
        }
        assert(d0.len() == self.data.len());
        let bytes = P::bytes() as usize;
        let offset: usize = ((y as usize) * (self.header.width as usize) + (x as usize)) * bytes;
        let encoded = pixel.to_bytes();
        let ghost enc = encoded@;
        let mut i: usize = 0;
        while i < bytes
            invariant
                i <= bytes,
                bytes == P::spec_bytes(),
                enc.len() == bytes,
                encoded@ == enc,
                offset == spec_pixel_offset(w, x as int, y as int, bytes as int),
                offset + bytes <= d0.len() <= usize::MAX,
                self.header.width == w,
                self.header == old(self).header,
                d0 == old(self).data@,
                self.data@ == d0.take(offset as int) + enc.take(i as int) + d0.skip(
                    offset + i,
                ),
            decreases bytes - i,
        {
            self.data[offset + i] = encoded[i];
            i = i + 1;
            assert(self.data@ =~= d0.take(offset as int) + enc.take(i as int) + d0.skip(
                offset + i,
            ));
        }
        assert(enc.take(bytes as int) =~= enc);
        assert(self.data@.subrange(offset as int, offset + bytes) =~= enc);
    }

    /// The header of the image.
    pub fn header(&self) -> (r: &TgaHeader)
        ensures
            *r == self.spec_header(),
    {
        &self.header
    }

    /// The pixel bytes of the image, row by row.
    pub fn data(&self) -> (r: &[u8])
        ensures
            r@ == self.spec_data(),
    {
        self.data.as_slice()
    }

    /// Appends the encoded header and then the pixel bytes to `out`.
    pub fn write(&self, out: &mut Vec<u8>)
        ensures
            final(out)@ == old(out)@ + self.spec_header().spec_encode() + self.spec_data(),
    {
        self.header.write(out);
        out.extend_from_slice(self.data.as_slice());
        assert(final(out)@ =~= old(out)@ + self.spec_header().spec_encode() + self.spec_data());
    }
}

} // verus!
