//! Decoding and cropping of image bytes.
//!
//! The library never parses image formats itself: the `image` crate decodes,
//! measures and crops. This module names those results so that the rest of
//! the library can reason about them: what an original's pixel dimensions
//! are, and what pixels and PNG bytes a crop of it yields.

use vstd::prelude::*;

verus! {

/// The pixel dimensions of an image decoded from `bytes`, or `None` when the
/// bytes do not decode as an image.
pub uninterp spec fn decoded_dimensions(bytes: Seq<u8>) -> Option<(u32, u32)>;

/// The raw pixel bytes of the rectangle `(x, y, w, h)` (clamped to the image
/// bounds) cut out of the image decoded from `bytes`; `None` when the bytes
/// do not decode.
pub uninterp spec fn cropped_pixels(bytes: Seq<u8>, x: u32, y: u32, w: u32, h: u32) -> Option<
    Seq<u8>,
>;

/// The PNG encoding of that same rectangle; `None` when the bytes do not
/// decode or the rectangle cannot be re-encoded.
pub uninterp spec fn cropped_png(bytes: Seq<u8>, x: u32, y: u32, w: u32, h: u32) -> Option<
    Seq<u8>,
>;

/// Relies on image's `load_from_memory` and `GenericImageView::dimensions`:
/// whether bytes decode, and to which dimensions, is a function of the bytes
/// alone.
#[verifier::external_body]
pub fn image_dimensions(bytes: &Vec<u8>) -> (r: Option<(u32, u32)>)
    ensures
        r == decoded_dimensions(bytes@),
{
    match image::load_from_memory(bytes.as_slice()) {
        Ok(img) => Some(image::GenericImageView::dimensions(&img)),
        Err(_) => None,
    }
}

/// Relies on image's `load_from_memory`, `DynamicImage::crop_imm` (which
/// clamps the rectangle to the image bounds) and `DynamicImage::into_bytes`:
/// the cropped pixels are a function of the bytes and the rectangle alone,
/// and cropping succeeds exactly when decoding does.
#[verifier::external_body]
pub fn crop_image_pixels(bytes: &Vec<u8>, x: u32, y: u32, w: u32, h: u32) -> (r: Option<Vec<u8>>)
    ensures
        r.deep_view() == cropped_pixels(bytes@, x, y, w, h),
        r is Some <==> decoded_dimensions(bytes@) is Some,
{
    match image::load_from_memory(bytes.as_slice()) {
        Ok(img) => Some(img.crop_imm(x, y, w, h).into_bytes()),
        Err(_) => None,
    }
}

/// Relies on image's `load_from_memory`, `DynamicImage::crop_imm` and
/// `DynamicImage::write_to` with the PNG format: the encoded bytes are a
/// function of the input bytes and the rectangle alone.
#[verifier::external_body]
pub fn crop_image_png(bytes: &Vec<u8>, x: u32, y: u32, w: u32, h: u32) -> (r: Option<Vec<u8>>)
    ensures
        r.deep_view() == cropped_png(bytes@, x, y, w, h),
{
    let img = match image::load_from_memory(bytes.as_slice()) {
        Ok(img) => img,
        Err(_) => return None,
    };
    let cropped = img.crop_imm(x, y, w, h);
    let mut out = std::io::Cursor::new(Vec::new());
    match cropped.write_to(&mut out, image::ImageOutputFormat::Png) {
        Ok(()) => Some(out.into_inner()),
        Err(_) => None,
    }
}

} // verus!
