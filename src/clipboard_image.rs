//! Turning an encoded image file into the pixel payload that a clipboard takes.
use vstd::prelude::*;
use crate::imaging::{
    decode_rgba, decoded_rgba, format_from_path, is_jpeg_ext, is_known_format_ext, is_png_ext,
    no_extension_anywhere, prefix_free, ImageKind,
};
use crate::path::extension_of;

verus! {

/// A decoded image ready for the clipboard: 8-bit RGBA samples, row by row, with no
/// padding.
pub struct RawImagePayload {
    pub width: usize,
    pub height: usize,
    pub bytes: Vec<u8>,
}

impl RawImagePayload {
    /// The samples are exactly four per pixel.
    pub open spec fn wf(&self) -> bool {
        self.bytes@.len() == 4 * (self.width as int) * (self.height as int)
    }

    /// The payload of a `width` by `height` RGBA image whose samples start `pixels`;
    /// samples beyond the image are dropped.
    pub fn from_rgba(width: u32, height: u32, pixels: Vec<u8>) -> (r: RawImagePayload)
        requires
            pixels@.len() >= 4 * (width as int) * (height as int),
        ensures
            r.width == width,
            r.height == height,
            r.bytes@ == pixels@.take(4 * (width as int) * (height as int)),
            r.wf(),
    {
        let w = width as usize;
        let h = height as usize;
        let n = pixels.len();
        proof {
            assert(0 <= w * h <= 4 * (w * h) <= n && 4 * (w * h) == 4 * (w as int) * (h as int))
                by (nonlinear_arith)
                requires
                    n >= 4 * (w as int) * (h as int),
            ;
        }
        let len = 4 * (w * h);
        let mut bytes = pixels;
        bytes.truncate(len);
        RawImagePayload { width: w, height: h, bytes }
    }
}

/// Why an image file could not be made into a clipboard payload.
#[derive(Debug, Clone, Copy, PartialEq, Eq, Structural)]
pub enum CopyError {
    /// The path's extension names no image format that the decoder knows.
    UnknownFormat,
    /// The extension names a format known to the decoder other than PNG and JPEG,
    /// the two that this library decodes.
    Unsupported,
    /// The file's bytes are no valid image of that format.
    Decode,
}

/// The payload that a decoding outcome calls for: the image's width, height and its
/// first four samples per pixel, or a decoding error where there is no image.
pub open spec fn payload_matches(
    r: Result<RawImagePayload, CopyError>,
    decoded: Option<(u32, u32, Seq<u8>)>,
) -> bool {
    match decoded {
        Some((w, h, px)) => {
            &&& r is Ok
            &&& r->Ok_0.width == w
            &&& r->Ok_0.height == h
            &&& r->Ok_0.bytes@ == px.take(4 * (w as int) * (h as int))
        },
        None => r == Err::<RawImagePayload, CopyError>(CopyError::Decode),
    }
}

/// Decodes the contents `encoded` of the image file at `path`, in the format that
/// the path's extension names (ASCII case ignored), into an RGBA clipboard payload.
pub fn decode_for_clipboard(path: &str, encoded: &[u8]) -> (r: Result<RawImagePayload, CopyError>)
    ensures
        r is Ok ==> r->Ok_0.wf(),
        no_extension_anywhere(path@) ==> r == Err::<RawImagePayload, CopyError>(
            CopyError::UnknownFormat,
        ),
        prefix_free(path@) && extension_of(path@) is Some ==> ({
            let e = extension_of(path@)->0;
            &&& !is_known_format_ext(e) ==> r == Err::<RawImagePayload, CopyError>(
                CopyError::UnknownFormat,
            )
            &&& is_png_ext(e) ==> payload_matches(r, decoded_rgba(true, encoded@))
            &&& is_jpeg_ext(e) ==> payload_matches(r, decoded_rgba(false, encoded@))
            &&& is_known_format_ext(e) && !is_png_ext(e) && !is_jpeg_ext(e) ==> r == Err::<
                RawImagePayload,
                CopyError,
            >(CopyError::Unsupported)
        }),
{
    let png = match format_from_path(path) {
        Ok(ImageKind::Png) => true,
        Ok(ImageKind::Jpeg) => false,
        Ok(ImageKind::Other) => {
            return Err(CopyError::Unsupported);
        },
        Err(_) => {
            return Err(CopyError::UnknownFormat);
        },
    };
    match decode_rgba(encoded, png) {
        Ok((width, height, pixels)) => Ok(RawImagePayload::from_rgba(width, height, pixels)),
        Err(_) => Err(CopyError::Decode),
    }
}

} // verus!
