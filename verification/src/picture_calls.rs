//! The calls into the `image` crate.

use crate::frame::Frame;
use vstd::prelude::*;

verus! {

/// Rows `y` to `y + n` of a picture `width` pixels wide, each cut to the
/// `w` pixels from column `x` on, one after the other.
pub open spec fn cut_rows(
    pixels: Seq<u8>,
    width: int,
    x: int,
    y: int,
    w: int,
    n: nat,
) -> Seq<u8>
    decreases n,
{
    if n == 0 {
        Seq::<u8>::empty()
    } else {
        let start = 4 * ((y + n - 1) * width + x);
        cut_rows(pixels, width, x, y, w, (n - 1) as nat) + pixels.subrange(start, start + 4 * w)
    }
}

/// `image::imageops::crop_imm`, then `to_image`: the pixels of the given
/// part of a picture, row by row. The part must lie within the picture.
#[verifier::external_body]
pub(crate) fn crop(frame: &Frame, x: u32, y: u32, w: u32, h: u32) -> (r: Vec<u8>)
    requires
        frame.wf(),
        x + w <= frame.width,
        y + h <= frame.height,
    ensures
        r@ == cut_rows(
            frame.pixels@,
            frame.width as int,
            x as int,
            y as int,
            w as int,
            h as nat,
        ),
{
    let picture = image::RgbaImage::from_raw(frame.width, frame.height, frame.pixels.clone())
        .unwrap();
    image::imageops::crop_imm(&picture, x, y, w, h).to_image().into_raw()
}

/// The brightness of a color: a weighted mean of its parts, rounded down.
pub open spec fn brightness(red: u8, green: u8, blue: u8) -> int {
    (2126 * red + 7152 * green + 722 * blue) / 10000
}

/// `image::DynamicImage::grayscale`, then `to_luma8`: the brightness of each
/// pixel; alpha plays no part.
#[verifier::external_body]
pub(crate) fn gray_levels(frame: &Frame) -> (r: Vec<u8>)
    requires
        frame.wf(),
    ensures
        r@.len() == frame.width * frame.height,
        forall|i: int|
            0 <= i < r@.len() ==> #[trigger] r@[i] == brightness(
                frame.pixels@[4 * i],
                frame.pixels@[4 * i + 1],
                frame.pixels@[4 * i + 2],
            ),
{
    let picture = image::RgbaImage::from_raw(frame.width, frame.height, frame.pixels.clone())
        .unwrap();
    image::DynamicImage::ImageRgba8(picture).grayscale().to_luma8().into_raw()
}

/// What the bytes or the complaint of an encoder are.
pub open spec fn encoded(r: Result<Vec<u8>, String>) -> Result<Seq<u8>, Seq<char>> {
    match r {
        Ok(v) => Ok(v@),
        Err(e) => Err(e@),
    }
}

/// Gray levels as colors: each level three times.
pub open spec fn gray_as_rgb(levels: Seq<u8>) -> Seq<u8> {
    Seq::new(3 * levels.len(), |i: int| levels[i / 3])
}

/// Colors with alpha as colors without: of four bytes the first three.
pub open spec fn color_as_rgb(pixels: Seq<u8>) -> Seq<u8> {
    Seq::new((3 * (pixels.len() as int / 4)) as nat, |i: int| pixels[4 * (i / 3) + i % 3])
}

/// `image::DynamicImage::to_rgb8` on a gray picture: each level becomes a
/// color with three equal parts.
#[verifier::external_body]
pub(crate) fn gray_rgb(width: u32, height: u32, levels: Vec<u8>) -> (r: Vec<u8>)
    requires
        levels@.len() == width * height,
        3 * width * height <= usize::MAX,
    ensures
        r@ == gray_as_rgb(levels@),
{
    let gray = image::GrayImage::from_raw(width, height, levels).unwrap();
    image::DynamicImage::ImageLuma8(gray).to_rgb8().into_raw()
}

/// `image::DynamicImage::to_rgb8` on a color picture: alpha is left out.
#[verifier::external_body]
pub(crate) fn color_rgb(frame: &Frame) -> (r: Vec<u8>)
    requires
        frame.wf(),
    ensures
        r@ == color_as_rgb(frame.pixels@),
{
    let picture = image::RgbaImage::from_raw(frame.width, frame.height, frame.pixels.clone())
        .unwrap();
    image::DynamicImage::ImageRgba8(picture).to_rgb8().into_raw()
}

/// What `image::ImageBuffer::write_to` makes of a picture with three bytes
/// to the pixel: a PNG file, or the encoder's complaint.
pub uninterp spec fn png_file(width: u32, height: u32, rgb: Seq<u8>) -> Result<
    Seq<u8>,
    Seq<char>,
>;

/// `image::ImageBuffer::write_to` with the PNG format. Only that the file
/// depends on the picture alone is claimed.
#[verifier::external_body]
pub(crate) fn encode_png(width: u32, height: u32, rgb: Vec<u8>) -> (r: Result<Vec<u8>, String>)
    requires
        rgb@.len() == 3 * width * height,
    ensures
        encoded(r) == png_file(width, height, rgb@),
{
    let picture = image::RgbImage::from_raw(width, height, rgb).unwrap();
    let mut out = std::io::Cursor::new(Vec::new());
    match picture.write_to(&mut out, image::ImageFormat::Png) {
        Ok(()) => Ok(out.into_inner()),
        Err(e) => Err(e.to_string()),
    }
}

/// What `image::load_from_memory` complains of in a picture file; nothing if
/// it reads the file.
pub uninterp spec fn picture_complaint(file: Seq<u8>) -> Option<Seq<char>>;

/// `image::load_from_memory`, `resize_exact` with the Lanczos filter, and
/// `to_rgba8`: a picture file scaled to a square, four bytes to the pixel, or
/// the complaint of the first. The filter computes with the machine's sine,
/// so nothing is claimed of the bytes but their number.
#[verifier::external_body]
pub(crate) fn scaled_square(file: &Vec<u8>, size: u32) -> (r: Result<Vec<u8>, String>)
    requires
        size <= 0xffff,
        4 * size * size <= usize::MAX,
    ensures
        (match r {
            Ok(pixels) => picture_complaint(file@) is None && pixels@.len() == 4 * size * size,
            Err(e) => picture_complaint(file@) == Some(e@),
        }),
{
    match image::load_from_memory(file) {
        Ok(picture) => Ok(
            picture.resize_exact(size, size, image::imageops::FilterType::Lanczos3).to_rgba8()
                .into_raw(),
        ),
        Err(e) => Err(e.to_string()),
    }
}

} // verus!
