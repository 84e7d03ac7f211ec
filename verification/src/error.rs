//! The failures of loading a map.

use vstd::prelude::*;

verus! {

/// `png::DecodingError`, carried through as the PNG decoder made it.
#[verifier::external_type_specification]
#[verifier::external_body]
pub struct ExPngDecodingError(png::DecodingError);

/// `jpeg_decoder::Error`, carried through as the JPEG decoder made it.
#[verifier::external_type_specification]
#[verifier::external_body]
pub struct ExJpegError(jpeg_decoder::Error);

/// What about a decoded image is not supported.
#[derive(Clone, Copy, PartialEq, Eq, Debug)]
pub enum FormatFault {
    /// A PNG image that is neither RGB nor RGBA.
    ColorType,
    /// A PNG image whose channels have neither 8 nor 16 bits.
    BitDepth,
    /// A JPEG image that is not RGB with 8 bits per channel.
    PixelFormat,
    /// A JPEG image taller than the decoder is given.
    JpegHeight,
}

/// Why a map could not be loaded. Each failure names the slot of the
/// background image that caused it.
#[derive(Debug)]
pub enum LoadError {
    /// The slot holds no image.
    MissingImageData(usize),
    /// The image of the slot decoded, but in a form that is not supported.
    UnsupportedFormat(usize, FormatFault),
    /// The PNG decoder refused the image of the slot.
    Png(usize, png::DecodingError),
    /// The JPEG decoder failed on the image of the slot, or had no
    /// description of it.
    Jpeg(usize, jpeg_decoder::Error),
}

/// `Display` of `png::DecodingError`: the text that the decoder gives its
/// error. Nothing is claimed of the text.
#[verifier::external_body]
fn png_error_text(e: &png::DecodingError) -> (text: String) {
    format!("{}", e)
}

/// `Display` of `jpeg_decoder::Error`: the text that the decoder gives its
/// error. Nothing is claimed of the text.
#[verifier::external_body]
fn jpeg_error_text(e: &jpeg_decoder::Error) -> (text: String) {
    format!("{}", e)
}

impl LoadError {
    /// The slot of the background image that caused the failure.
    pub open spec fn slot(&self) -> int {
        match *self {
            LoadError::MissingImageData(slot) => slot as int,
            LoadError::UnsupportedFormat(slot, _) => slot as int,
            LoadError::Png(slot, _) => slot as int,
            LoadError::Jpeg(slot, _) => slot as int,
        }
    }

    /// The slot of the background image that caused the failure.
    pub fn get_slot(&self) -> (slot: usize)
        ensures
            slot == self.slot(),
    {
        match self {
            LoadError::MissingImageData(slot) => *slot,
            LoadError::UnsupportedFormat(slot, _) => *slot,
            LoadError::Png(slot, _) => *slot,
            LoadError::Jpeg(slot, _) => *slot,
        }
    }

    /// The text that describes the failure; for a failure inside a decoder,
    /// the decoder's own text.
    pub fn message(&self) -> (text: String)
        ensures
            self is MissingImageData ==> text@ == "Missing image data for skybox"@,
            self matches LoadError::UnsupportedFormat(_, fault) ==> text@ == (match fault {
                FormatFault::ColorType => "Color type of skybox image is not RGB(A)"@,
                FormatFault::BitDepth => "Bit depth of skybox image is not 8 nor 16"@,
                FormatFault::PixelFormat => "JPEG data for skybox image is not in RGB888 format"@,
                FormatFault::JpegHeight => "JPEG data for skybox image is too tall"@,
            }),
    {
        match self {
            LoadError::MissingImageData(_) => "Missing image data for skybox".to_owned(),
            LoadError::UnsupportedFormat(_, fault) => match fault {
                FormatFault::ColorType => "Color type of skybox image is not RGB(A)".to_owned(),
                FormatFault::BitDepth => "Bit depth of skybox image is not 8 nor 16".to_owned(),
                FormatFault::PixelFormat => "JPEG data for skybox image is not in RGB888 format".to_owned(),
                FormatFault::JpegHeight => "JPEG data for skybox image is too tall".to_owned(),
            },
            LoadError::Png(_, e) => png_error_text(e),
            LoadError::Jpeg(_, e) => jpeg_error_text(e),
        }
    }
}

/// The status that reports `res` to the host: zero for success, one for failure.
pub fn log_and_return(res: Result<(), LoadError>) -> (status: i32)
    ensures
        status == (if res.is_ok() {
            0int
        } else {
            1int
        }),
{
    match res {
        Ok(_) => 0,
        Err(_) => 1,
    }
}

} // verus!
