//! Book covers: the JPEG thumbnail that the server sends, decoded into the
//! plain RGB pixels that the list shows.

use vstd::prelude::*;

verus! {

/// The RGB pixels (three bytes per pixel, row by row), width and height of
/// the picture that the JPEG data `data` holds, or `None` when `data` is not a
/// JPEG picture that the `image` crate decodes. This is what
/// `image::load_from_memory_with_format` with `ImageFormat::Jpeg`, followed by
/// `to_rgb8`, `dimensions` and `into_raw`, returns.
pub uninterp spec fn jpeg_rgb8(data: Seq<u8>) -> Option<(Seq<u8>, u32, u32)>;

/// Decodes JPEG data with the `image` crate
/// (`image::load_from_memory_with_format` with `ImageFormat::Jpeg`) and
/// converts the picture to 8-bit RGB. The result depends on the bytes alone
/// and is named `jpeg_rgb8`; of its pixels only their number is claimed:
/// three bytes for each of the width times height pixels, as the RGB buffer
/// that `to_rgb8` builds and `into_raw` hands out holds.
#[verifier::external_body]
fn decode_jpeg_rgb8(data: &[u8]) -> (r: Option<(Vec<u8>, u32, u32)>)
    ensures
        match r {
            Some((px, w, h)) => jpeg_rgb8(data@) == Some((px@, w, h)) && px@.len() == 3 * w * h,
            None => jpeg_rgb8(data@) is None,
        },
{
    match image::load_from_memory_with_format(data, image::ImageFormat::Jpeg) {
        Ok(picture) => {
            let rgb = picture.to_rgb8();
            let (w, h) = rgb.dimensions();
            Some((rgb.into_raw(), w, h))
        },
        Err(_) => None,
    }
}

/// Why a cover could not be shown.
#[derive(Debug, PartialEq, Eq, Structural)]
pub enum CoverError {
    /// The data is not a JPEG picture that can be decoded.
    NotJpeg,
}

/// Decodes a JPEG cover into its RGB pixels (three bytes per pixel, row by
/// row), width and height.
pub fn decode_cover(jpeg: &[u8]) -> (r: Result<(Vec<u8>, u32, u32), CoverError>)
    ensures
        match r {
            Ok((px, w, h)) => jpeg_rgb8(jpeg@) == Some((px@, w, h)) && px@.len() == 3 * w * h,
            Err(e) => e == CoverError::NotJpeg && jpeg_rgb8(jpeg@) is None,
        },
{
    match decode_jpeg_rgb8(jpeg) {
        Some(decoded) => Ok(decoded),
        None => Err(CoverError::NotJpeg),
    }
}

} // verus!
