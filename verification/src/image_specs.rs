//! The image buffers of the `image` crate, as this library uses them.
use vstd::prelude::*;
use image::{ImageBuffer, Luma, Rgba};

verus! {

/// An RGBA image of the `image` crate (`image::RgbaImage`), four bytes per
/// pixel.
#[verifier::external_body]
#[derive(Debug)]
pub struct RgbaImage {
    pub image: ImageBuffer<Rgba<u8>, Vec<u8>>,
}

/// A grayscale image of the `image` crate (`image::GrayImage`), one byte
/// per pixel.
#[verifier::external_body]
#[derive(Debug)]
pub struct GrayImage {
    pub image: ImageBuffer<Luma<u8>, Vec<u8>>,
}

/// The raw channel bytes an RGBA image holds, row by row, four per pixel.
pub uninterp spec fn rgba_raw(img: RgbaImage) -> Seq<u8>;

/// The width and height an RGBA image was made with.
pub uninterp spec fn rgba_dims(img: RgbaImage) -> (u32, u32);

/// The raw bytes a grayscale image holds, row by row, one per pixel.
pub uninterp spec fn gray_raw(img: GrayImage) -> Seq<u8>;

/// The width and height a grayscale image was made with.
pub uninterp spec fn gray_dims(img: GrayImage) -> (u32, u32);

/// `ImageBuffer::from_raw` for RGBA images: an image of the given size over
/// `buf` exactly when `buf` holds at least four bytes per pixel
/// (`width * height * 4 <= buf.len()`), and `None` otherwise.
#[verifier::external_body]
pub(crate) fn rgba_from_raw(width: u32, height: u32, buf: Vec<u8>) -> (img: Option<RgbaImage>)
    ensures
        img is Some <==> 4 * width * height <= buf@.len(),
        img matches Some(i) ==> rgba_raw(i) == buf@ && rgba_dims(i) == (width, height),
{
    ImageBuffer::from_raw(width, height, buf).map(|image| RgbaImage { image })
}

/// `ImageBuffer::dimensions` for RGBA images: the width and height.
#[verifier::external_body]
pub(crate) fn rgba_dimensions(img: &RgbaImage) -> (d: (u32, u32))
    ensures
        d == rgba_dims(*img),
{
    img.image.dimensions()
}

/// `ImageBuffer::as_raw` for RGBA images: the bytes it holds, of which there
/// are at least four per pixel (every constructor of the crate ensures it).
#[verifier::external_body]
pub(crate) fn rgba_as_raw(img: &RgbaImage) -> (raw: &Vec<u8>)
    ensures
        raw@ == rgba_raw(*img),
        raw@.len() >= 4 * rgba_dims(*img).0 * rgba_dims(*img).1,
{
    img.image.as_raw()
}

/// `ImageBuffer::from_raw` for grayscale images: an image of the given size
/// over `buf` exactly when `buf` holds at least one byte per pixel
/// (`width * height <= buf.len()`), and `None` otherwise.
#[verifier::external_body]
pub(crate) fn gray_from_raw(width: u32, height: u32, buf: Vec<u8>) -> (img: Option<GrayImage>)
    ensures
        img is Some <==> width * height <= buf@.len(),
        img matches Some(i) ==> gray_raw(i) == buf@ && gray_dims(i) == (width, height),
{
    ImageBuffer::from_raw(width, height, buf).map(|image| GrayImage { image })
}

/// `ImageBuffer::dimensions` for grayscale images: the width and height.
#[verifier::external_body]
pub(crate) fn gray_dimensions(img: &GrayImage) -> (d: (u32, u32))
    ensures
        d == gray_dims(*img),
{
    img.image.dimensions()
}

/// `ImageBuffer::as_raw` for grayscale images: the bytes it holds, of which
/// there are at least one per pixel (every constructor of the crate ensures
/// it).
#[verifier::external_body]
pub(crate) fn gray_as_raw(img: &GrayImage) -> (raw: &Vec<u8>)
    ensures
        raw@ == gray_raw(*img),
        raw@.len() >= gray_dims(*img).0 * gray_dims(*img).1,
{
    img.image.as_raw()
}

} // verus!
