//! Encoding an RGBA pixel buffer as a sixel escape sequence with `icy_sixel`.

use vstd::prelude::*;

use icy_sixel::{SixelError, SixelImage};

verus! {

#[verifier::external_type_specification]
#[verifier::external_body]
pub struct ExSixelImage(SixelImage);

/// Why an image could not be encoded as sixel.
#[derive(Debug)]
pub enum SixelEncodeError {
    /// Width or height is zero, or too large for the encoder.
    InvalidDimensions { width: usize, height: usize },
    /// The pixel buffer does not hold exactly `width * height * 4` bytes.
    BufferSizeMismatch { expected: usize, actual: usize },
    /// The encoder met data it could not handle.
    InvalidData(String),
    /// No sixel data was found.
    NoSixelData,
    /// Colour quantization failed.
    Quantization(String),
    /// A size computation overflowed.
    IntegerOverflow,
}

/// The error that building a `width` x `height` image from `len` RGBA bytes
/// gives, or `None` when the buffer fits the dimensions exactly.
pub open spec fn rgba_buffer_error(len: nat, width: usize, height: usize) -> Option<SixelEncodeError> {
    if width == 0 || height == 0 {
        Some(SixelEncodeError::InvalidDimensions { width, height })
    } else if width * height * 4 > usize::MAX {
        Some(SixelEncodeError::IntegerOverflow)
    } else if len != width * height * 4 {
        Some(
            SixelEncodeError::BufferSizeMismatch {
                expected: (width * height * 4) as usize,
                actual: len as usize,
            },
        )
    } else {
        None
    }
}

/// Height of the image rounded up to whole six-pixel sixel bands.
pub open spec fn band_height(height: usize) -> int {
    ((height + 5) / 6) * 6
}

/// The error that the sixel encoder's dimension check gives for a
/// `width` x `height` image, or `None` when it accepts the dimensions: both
/// must be positive, the byte count and the band height must fit in `usize`,
/// the width and the band height are at most one million pixels, and the
/// banded area at most 64 Mi pixels.
pub open spec fn sixel_dimension_error(width: usize, height: usize) -> Option<SixelEncodeError> {
    if width == 0 || height == 0 {
        Some(SixelEncodeError::InvalidDimensions { width, height })
    } else if width * height * 4 > usize::MAX {
        Some(SixelEncodeError::IntegerOverflow)
    } else if band_height(height) > usize::MAX {
        Some(SixelEncodeError::IntegerOverflow)
    } else if width > 1_000_000 || band_height(height) > 1_000_000 || width * band_height(height)
        > 64 * 1024 * 1024 {
        Some(SixelEncodeError::InvalidDimensions { width, height })
    } else {
        None
    }
}

/// The error that encoding `len` bytes as a `width` x `height` image gives,
/// or `None` when the encoding succeeds: first the dimension check, then the
/// buffer length.
pub open spec fn sixel_encode_error(len: nat, width: usize, height: usize) -> Option<SixelEncodeError> {
    match sixel_dimension_error(width, height) {
        Some(e) => Some(e),
        None => if len != width * height * 4 {
            Some(
                SixelEncodeError::BufferSizeMismatch {
                    expected: (width * height * 4) as usize,
                    actual: len as usize,
                },
            )
        } else {
            None
        },
    }
}

/// The pixel aspect ratio code (DCS parameter P1) of square pixels, the
/// encoder's default.
pub open spec fn square_pixels_p1() -> u8 {
    9
}

/// The background mode code (DCS parameter P2) of a transparent background,
/// the encoder's default.
pub open spec fn transparent_background_p2() -> u8 {
    1
}

/// What an `icy_sixel::SixelImage` holds: its public `pixels`, `width` and
/// `height` fields, and the DCS codes of its `aspect_ratio` and
/// `background_mode` fields (`to_p1_value`, `to_p2_value`), which are
/// distinct for distinct field values.
pub uninterp spec fn sixel_image_content(image: SixelImage) -> (Seq<u8>, usize, usize, u8, u8);

/// The sixel text that `icy_sixel::SixelImage::encode` writes for an image
/// with these pixels, dimensions, aspect ratio code and background code.
pub uninterp spec fn sixel_encoding(
    pixels: Seq<u8>,
    width: usize,
    height: usize,
    aspect_p1: u8,
    background_p2: u8,
) -> Seq<char>;

/// `s` is a sixel device control string: it opens with `ESC P` and closes
/// with the string terminator `ESC \`.
pub open spec fn is_sixel_sequence(s: Seq<char>) -> bool {
    &&& s.len() >= 4
    &&& s[0] == '\x1b'
    &&& s[1] == 'P'
    &&& s[s.len() - 2] == '\x1b'
    &&& s[s.len() - 1] == '\\'
}

/// Trusted: `icy_sixel::SixelImage::try_from_rgba`. Its source rejects a zero
/// width or height (`InvalidDimensions`), a `width * height * 4` that
/// overflows `usize` (`IntegerOverflow`) and a buffer whose length differs
/// from that product (`BufferSizeMismatch`), in that order, and otherwise
/// builds the image from exactly the given pixels, width and height, with
/// the default square pixel aspect ratio and transparent background.
#[verifier::external_body]
fn sixel_image_from_rgba(pixels: Vec<u8>, width: usize, height: usize) -> (r: Result<
    SixelImage,
    SixelEncodeError,
>)
    ensures
        match rgba_buffer_error(pixels@.len(), width, height) {
            Some(e) => r == Err::<SixelImage, SixelEncodeError>(e),
            None => r matches Ok(image) && sixel_image_content(image) == (
                pixels@,
                width,
                height,
                square_pixels_p1(),
                transparent_background_p2(),
            ),
        },
{
    SixelImage::try_from_rgba(pixels, width, height).map_err(|e| match e {
        SixelError::InvalidDimensions { width, height } => SixelEncodeError::InvalidDimensions { width, height },
        SixelError::BufferSizeMismatch { expected, actual } => SixelEncodeError::BufferSizeMismatch { expected, actual },
        SixelError::InvalidData(m) => SixelEncodeError::InvalidData(m),
        SixelError::NoSixelData => SixelEncodeError::NoSixelData,
        SixelError::Quantization(m) => SixelEncodeError::Quantization(m),
        SixelError::IntegerOverflow => SixelEncodeError::IntegerOverflow,
    })
}

/// Trusted: `icy_sixel::SixelImage::encode`. Its source first runs the
/// dimension check (`validate_encode_dimensions`), then compares the buffer
/// length with `width * height * 4`; past those checks the image sizes and
/// the pixel count are within what its quantizer accepts, so the encoding
/// succeeds. It encodes with fixed default options, so the text is a
/// function of the image's pixels, dimensions, aspect ratio and background
/// mode alone (named `sixel_encoding`), and the one routine that writes it
/// starts it with `ESC P` and ends it with `ESC \`.
#[verifier::external_body]
fn encode_sixel_image(image: &SixelImage) -> (r: Result<String, SixelEncodeError>)
    ensures
        ({
            let (pixels, width, height, aspect_p1, background_p2) = sixel_image_content(*image);
            match sixel_encode_error(pixels.len(), width, height) {
                Some(e) => r == Err::<String, SixelEncodeError>(e),
                None => r matches Ok(s) && s@ == sixel_encoding(
                    pixels,
                    width,
                    height,
                    aspect_p1,
                    background_p2,
                ) && is_sixel_sequence(s@),
            }
        }),
{
    image.encode().map_err(|e| match e {
        SixelError::InvalidDimensions { width, height } => SixelEncodeError::InvalidDimensions { width, height },
        SixelError::BufferSizeMismatch { expected, actual } => SixelEncodeError::BufferSizeMismatch { expected, actual },
        SixelError::InvalidData(m) => SixelEncodeError::InvalidData(m),
        SixelError::NoSixelData => SixelEncodeError::NoSixelData,
        SixelError::Quantization(m) => SixelEncodeError::Quantization(m),
        SixelError::IntegerOverflow => SixelEncodeError::IntegerOverflow,
    })
}

/// Encode an RGBA image buffer as a sixel escape sequence string.
///
/// The returned string begins with the DCS introducer (`\x1bP`) and ends with
/// the string terminator (`\x1b\\`); the image is encoded with square pixels
/// and a transparent background.
///
/// # Errors
/// A zero width or height, a size that overflows, or a buffer that is not
/// exactly `width * height * 4` bytes gives the matching error; dimensions
/// beyond the encoder's limits give `InvalidDimensions`. Every other input
/// encodes.
pub fn encode_rgba_to_sixel(rgba: &[u8], width: u32, height: u32) -> (r: Result<
    String,
    SixelEncodeError,
>)
    ensures
        match rgba_buffer_error(rgba@.len(), width as usize, height as usize) {
            Some(e) => r == Err::<String, SixelEncodeError>(e),
            None => match sixel_dimension_error(width as usize, height as usize) {
                Some(e) => r == Err::<String, SixelEncodeError>(e),
                None => r matches Ok(s) && s@ == sixel_encoding(
                    rgba@,
                    width as usize,
                    height as usize,
                    square_pixels_p1(),
                    transparent_background_p2(),
                ) && is_sixel_sequence(s@),
            },
        },
{
    let image = sixel_image_from_rgba(vstd::slice::slice_to_vec(rgba), width as usize, height as usize)?;
    encode_sixel_image(&image)
}

} // verus!
