//! The calls into the `image` crate that clipboard preparation makes.
use vstd::prelude::*;
use image::{ImageError, ImageFormat};
use crate::path::{extension_of, file_name_of, is_separator, last_separator};

verus! {

#[verifier::external_type_specification]
#[verifier::external_body]
pub struct ExImageFormat(ImageFormat);

#[verifier::external_type_specification]
#[verifier::external_body]
pub struct ExImageError(ImageError);

/// An image format that the decoder names: PNG, JPEG, or one of the others it
/// knows by extension, for which this library holds no decoder.
pub(crate) enum ImageKind {
    Png,
    Jpeg,
    Other,
}

/// `c` is the ASCII lower-case letter `lower`, in either case, or `lower` itself.
pub open spec fn same_ignoring_ascii_case(c: char, lower: char) -> bool {
    c == lower || ('a' <= lower <= 'z' && c as u32 + 32 == lower as u32)
}

/// `s` spells `lower` with ASCII letters in any case.
pub open spec fn eq_ignoring_ascii_case(s: Seq<char>, lower: Seq<char>) -> bool {
    &&& s.len() == lower.len()
    &&& forall|i: int| 0 <= i < s.len() ==> same_ignoring_ascii_case(s[i], lower[i])
}

/// The extension names PNG, in any case.
pub open spec fn is_png_ext(e: Seq<char>) -> bool {
    eq_ignoring_ascii_case(e, seq!['p', 'n', 'g'])
}

/// The extension names JPEG, in any case.
pub open spec fn is_jpeg_ext(e: Seq<char>) -> bool {
    eq_ignoring_ascii_case(e, seq!['j', 'p', 'g']) || eq_ignoring_ascii_case(
        e,
        seq!['j', 'p', 'e', 'g'],
    )
}

/// The extensions from which the decoder knows a format, in any case.
pub open spec fn is_known_format_ext(e: Seq<char>) -> bool {
    ||| eq_ignoring_ascii_case(e, seq!['a', 'v', 'i', 'f'])
    ||| eq_ignoring_ascii_case(e, seq!['j', 'p', 'g'])
    ||| eq_ignoring_ascii_case(e, seq!['j', 'p', 'e', 'g'])
    ||| eq_ignoring_ascii_case(e, seq!['p', 'n', 'g'])
    ||| eq_ignoring_ascii_case(e, seq!['g', 'i', 'f'])
    ||| eq_ignoring_ascii_case(e, seq!['w', 'e', 'b', 'p'])
    ||| eq_ignoring_ascii_case(e, seq!['t', 'i', 'f'])
    ||| eq_ignoring_ascii_case(e, seq!['t', 'i', 'f', 'f'])
    ||| eq_ignoring_ascii_case(e, seq!['t', 'g', 'a'])
    ||| eq_ignoring_ascii_case(e, seq!['d', 'd', 's'])
    ||| eq_ignoring_ascii_case(e, seq!['b', 'm', 'p'])
    ||| eq_ignoring_ascii_case(e, seq!['i', 'c', 'o'])
    ||| eq_ignoring_ascii_case(e, seq!['h', 'd', 'r'])
    ||| eq_ignoring_ascii_case(e, seq!['e', 'x', 'r'])
    ||| eq_ignoring_ascii_case(e, seq!['p', 'b', 'm'])
    ||| eq_ignoring_ascii_case(e, seq!['p', 'a', 'm'])
    ||| eq_ignoring_ascii_case(e, seq!['p', 'p', 'm'])
    ||| eq_ignoring_ascii_case(e, seq!['p', 'g', 'm'])
    ||| eq_ignoring_ascii_case(e, seq!['f', 'f'])
    ||| eq_ignoring_ascii_case(e, seq!['f', 'a', 'r', 'b', 'f', 'e', 'l', 'd'])
    ||| eq_ignoring_ascii_case(e, seq!['q', 'o', 'i'])
}

/// No Windows prefix takes in the last component of `p`: it does not open with two
/// separators (a network, device or verbatim prefix), and where it holds no
/// separator it does not open with a drive such as `C:`.
pub open spec fn prefix_free(p: Seq<char>) -> bool {
    &&& !(p.len() >= 2 && is_separator(p[0]) && is_separator(p[1]))
    &&& (last_separator(p) >= 0 || !(p.len() >= 2 && p[1] == ':'))
}

/// A path that has no extension for `std::path::Path` either, on every platform: no
/// Windows prefix, no backslash (Unix reads it as part of a name), and a last
/// component that is a name (not empty, not `.`).
pub open spec fn no_extension_anywhere(p: Seq<char>) -> bool {
    &&& prefix_free(p)
    &&& !p.contains('\\')
    &&& file_name_of(p).len() > 0
    &&& file_name_of(p) != seq!['.']
    &&& extension_of(p) is None
}

/// What decoding `encoded` as PNG (`png`) or as JPEG (otherwise) and converting it to
/// 8-bit RGBA gives: width, height and samples, or `None` where decoding fails.
pub uninterp spec fn decoded_rgba(png: bool, encoded: Seq<u8>) -> Option<(u32, u32, Seq<u8>)>;

/// A decoding outcome as width, height and samples, `None` for a failure.
pub open spec fn rgba_outcome(r: Result<(u32, u32, Vec<u8>), ImageError>) -> Option<(u32, u32, Seq<u8>)> {
    match r {
        Ok((w, h, px)) => Some((w, h, px@)),
        Err(_) => None,
    }
}

/// Relies on `image::ImageFormat::from_path`: the format is looked up from the
/// path's extension (`Path::extension`) with ASCII case ignored, in the list of
/// `from_extension`; a path without an extension, or with one not in the list, has
/// none.
#[verifier::external_body]
pub(crate) fn format_from_path(path: &str) -> (r: Result<ImageKind, ImageError>)
    ensures
        no_extension_anywhere(path@) ==> r is Err,
        prefix_free(path@) && extension_of(path@) is Some ==> (r is Ok <==> is_known_format_ext(
            extension_of(path@)->0,
        )),
        prefix_free(path@) && extension_of(path@) is Some && is_png_ext(extension_of(path@)->0)
            ==> r is Ok && r->Ok_0 is Png,
        prefix_free(path@) && extension_of(path@) is Some && is_jpeg_ext(extension_of(path@)->0)
            ==> r is Ok && r->Ok_0 is Jpeg,
        prefix_free(path@) && extension_of(path@) is Some && !is_png_ext(extension_of(path@)->0)
            && !is_jpeg_ext(extension_of(path@)->0) ==> !(r is Ok && r->Ok_0 is Png) && !(r is Ok
            && r->Ok_0 is Jpeg),
{
    match ImageFormat::from_path(path) {
        Ok(ImageFormat::Png) => Ok(ImageKind::Png),
        Ok(ImageFormat::Jpeg) => Ok(ImageKind::Jpeg),
        Ok(_) => Ok(ImageKind::Other),
        Err(err) => Err(err),
    }
}

/// Relies on `image::load_from_memory_with_format`, which decodes an encoded PNG or
/// JPEG image held in memory, and `image::DynamicImage::into_rgba8`, which converts
/// it to 8-bit RGBA; the result is given as width, height and samples, row by row.
/// The sample buffer of an `ImageBuffer` holds at least four per pixel.
#[verifier::external_body]
pub(crate) fn decode_rgba(encoded: &[u8], png: bool) -> (r: Result<(u32, u32, Vec<u8>), ImageError>)
    ensures
        r is Ok ==> r->Ok_0.2@.len() >= 4 * (r->Ok_0.0 as int) * (r->Ok_0.1 as int),
        rgba_outcome(r) == decoded_rgba(png, encoded@),
{
    let format = if png {
        ImageFormat::Png
    } else {
        ImageFormat::Jpeg
    };
    let buffer = image::load_from_memory_with_format(encoded, format)?.into_rgba8();
    let (width, height) = buffer.dimensions();
    Ok((width, height, buffer.into_raw()))
}

} // verus!
