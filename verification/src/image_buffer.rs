//! Wrapping a rendered RGBA buffer as an `image::DynamicImage`.

use vstd::prelude::*;

use image::{DynamicImage, ImageBuffer, Rgba};

verus! {

#[verifier::external_type_specification]
#[verifier::external_body]
pub struct ExDynamicImage(DynamicImage);

/// A `width` x `height` RGBA image needs `4 * width * height` bytes, counted
/// as `4 * width` first and then times `height`, each step within `usize`;
/// `len` bytes are enough when they cover that count.
pub open spec fn rgba_buffer_fits(width: u32, height: u32, len: nat) -> bool {
    &&& 4 * width <= usize::MAX
    &&& 4 * width * height <= usize::MAX
    &&& 4 * width * height <= len
}

/// The width of an image, as `DynamicImage::width` reports it.
pub uninterp spec fn image_width(image: DynamicImage) -> u32;

/// The height of an image, as `DynamicImage::height` reports it.
pub uninterp spec fn image_height(image: DynamicImage) -> u32;

/// The raw bytes an image holds, as `DynamicImage::as_bytes` reports them.
pub uninterp spec fn image_bytes(image: DynamicImage) -> Seq<u8>;

/// Why rendered bytes could not be turned into an image.
#[derive(Debug, Clone, Copy, PartialEq, Eq, Structural)]
pub enum RgbaImageError {
    /// The buffer holds fewer bytes than the dimensions need.
    BufferTooSmall,
}

impl RgbaImageError {
    /// A sentence that describes the error.
    pub fn message(&self) -> (m: &'static str)
        ensures
            m@ == "failed to build image buffer from rendered RGBA bytes"@,
    {
        match self {
            RgbaImageError::BufferTooSmall => "failed to build image buffer from rendered RGBA bytes",
        }
    }
}

/// Trusted: `image::ImageBuffer::<Rgba<u8>, Vec<u8>>::from_raw`, wrapped in
/// `DynamicImage::ImageRgba8`. Its source computes `4 * width` and then
/// `* height` with checked multiplication in `usize`, and returns an image
/// exactly when both steps succeed and the product is at most the buffer's
/// length. The image keeps the given width and height and holds the whole
/// buffer as its data, which `width`, `height` and `as_bytes` of the
/// `ImageRgba8` variant report; the contract states both.
#[verifier::external_body]
fn rgba8_image_from_raw(width: u32, height: u32, rgba: Vec<u8>) -> (r: Option<DynamicImage>)
    ensures
        r is Some <==> rgba_buffer_fits(width, height, rgba@.len()),
        r matches Some(image) ==> {
            &&& image_width(image) == width
            &&& image_height(image) == height
            &&& image_bytes(image) == rgba@
        },
{
    ImageBuffer::<Rgba<u8>, Vec<u8>>::from_raw(width, height, rgba).map(DynamicImage::ImageRgba8)
}

/// Converts rendered RGBA bytes into a [`DynamicImage`].
///
/// Fails with `BufferTooSmall` exactly when the buffer holds fewer than
/// `4 * width * height` bytes (or that count does not fit in `usize`);
/// otherwise the image has the given width and height and holds the bytes.
pub fn rgba_to_dynamic_image(rgba: Vec<u8>, width: u32, height: u32) -> (r: Result<
    DynamicImage,
    RgbaImageError,
>)
    ensures
        r is Ok <==> rgba_buffer_fits(width, height, rgba@.len()),
        r is Err ==> r == Err::<DynamicImage, RgbaImageError>(RgbaImageError::BufferTooSmall),
        r matches Ok(image) ==> {
            &&& image_width(image) == width
            &&& image_height(image) == height
            &&& image_bytes(image) == rgba@
        },
{
    match rgba8_image_from_raw(width, height, rgba) {
        Some(image) => Ok(image),
        None => Err(RgbaImageError::BufferTooSmall),
    }
}

} // verus!
