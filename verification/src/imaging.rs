use vstd::prelude::*;

use crate::models::{clone_bytes, opt_bytes, CapturedClipboard};

verus! {

/// Whether the data begins with the eight-byte PNG signature.
pub open spec fn guessed_png(data: Seq<u8>) -> bool {
    data.len() >= 8 && data.take(8) == seq![0x89u8, 0x50u8, 0x4eu8, 0x47u8, 0x0du8, 0x0au8, 0x1au8, 0x0au8]
}

/// `image::guess_format`, telling PNG apart from other formats and from unknown data. The
/// crate checks the PNG signature first among the magic numbers it knows, and no other entry
/// yields PNG, so it answers PNG exactly when the data starts with that signature.
#[verifier::external_body]
fn guess_is_png(data: &[u8]) -> (r: bool)
    ensures
        r == guessed_png(data@),
{
    matches!(image::guess_format(data), Ok(image::ImageFormat::Png))
}

/// The PNG of the thumbnail that the `image` crate makes of an image, or `None` when the data
/// is not an image it can decode.
pub uninterp spec fn png_thumbnail(data: Seq<u8>, max_width: u32, max_height: u32) -> Option<Seq<u8>>;

/// `image::load_from_memory`, `DynamicImage::thumbnail` and `DynamicImage::write_to` in PNG.
#[verifier::external_body]
fn thumbnail_png(data: &[u8], max_width: u32, max_height: u32) -> (r: Option<Vec<u8>>)
    ensures
        opt_bytes(r) == png_thumbnail(data@, max_width, max_height),
{
    let image = image::load_from_memory(data).ok()?;
    let preview = image.thumbnail(max_width, max_height);
    let mut out = Vec::new();
    preview.write_to(&mut std::io::Cursor::new(&mut out), image::ImageFormat::Png).ok()?;
    Some(out)
}

/// Images up to this size that are already PNG are shown as they are.
pub const INLINE_ORIGINAL_LIMIT: usize = 262_144;

/// The preview of an image: the image itself when it is a PNG of at most 256 KiB, else a PNG
/// thumbnail of at most 420 by 320 pixels.
pub fn image_preview_png_from_bytes(bytes: &Vec<u8>) -> (r: Option<Vec<u8>>)
    ensures
        opt_bytes(r) == if bytes@.len() <= INLINE_ORIGINAL_LIMIT && guessed_png(bytes@) {
            Some(bytes@)
        } else {
            png_thumbnail(bytes@, 420, 320)
        },
{
    if bytes.len() <= INLINE_ORIGINAL_LIMIT && guess_is_png(bytes.as_slice()) {
        return Some(clone_bytes(bytes));
    }
    thumbnail_png(bytes.as_slice(), 420, 320)
}

/// The width and height of the image that the `image` crate decodes from the data, or the
/// text of its error.
pub uninterp spec fn decoded_size(data: Seq<u8>) -> Result<(u32, u32), Seq<char>>;

/// `image::load_from_memory` and `GenericImageView::dimensions`.
#[verifier::external_body]
fn decode_image_size(data: &[u8]) -> (r: Result<(u32, u32), String>)
    ensures
        match r {
            Ok(s) => decoded_size(data@) == Ok::<(u32, u32), Seq<char>>(s),
            Err(e) => decoded_size(data@) == Err::<(u32, u32), Seq<char>>(e@),
        },
{
    match image::load_from_memory(data) {
        Ok(image) => Ok(image::GenericImageView::dimensions(&image)),
        Err(error) => Err(error.to_string()),
    }
}

/// The PNG that the `image` crate writes for the decoded image in RGBA with fast compression
/// and no filter, or the text of its error.
pub uninterp spec fn fast_png(data: Seq<u8>) -> Result<Seq<u8>, Seq<char>>;

/// `image::load_from_memory`, `DynamicImage::to_rgba8` and `PngEncoder::new_with_quality`
/// (`CompressionType::Fast`, `FilterType::NoFilter`).
#[verifier::external_body]
fn encode_fast_png(data: &[u8]) -> (r: Result<Vec<u8>, String>)
    ensures
        match r {
            Ok(b) => fast_png(data@) == Ok::<Seq<u8>, Seq<char>>(b@),
            Err(e) => fast_png(data@) == Err::<Seq<u8>, Seq<char>>(e@),
        },
{
    let image = image::load_from_memory(data).map_err(|error| error.to_string())?;
    let rgba = image.to_rgba8();
    let mut bytes = Vec::new();
    let encoder = image::codecs::png::PngEncoder::new_with_quality(
        &mut bytes,
        image::codecs::png::CompressionType::Fast,
        image::codecs::png::FilterType::NoFilter,
    );
    image::ImageEncoder::write_image(encoder, rgba.as_raw(), rgba.width(), rgba.height(), image::ExtendedColorType::Rgba8).map_err(|error| error.to_string())?;
    Ok(bytes)
}

/// The bytes that standard Base64 decoding gives, or the text of its error.
pub uninterp spec fn base64_decoded(text: Seq<char>) -> Result<Seq<u8>, Seq<char>>;

/// `base64::engine::general_purpose::STANDARD.decode`.
#[verifier::external_body]
fn decode_base64(text: &str) -> (r: Result<Vec<u8>, String>)
    ensures
        match r {
            Ok(b) => base64_decoded(text@) == Ok::<Seq<u8>, Seq<char>>(b@),
            Err(e) => base64_decoded(text@) == Err::<Seq<u8>, Seq<char>>(e@),
        },
{
    base64::Engine::decode(&base64::engine::general_purpose::STANDARD, text).map_err(|error| error.to_string())
}

/// The outcome of receiving Base64 image data from the phone: refused when it does not
/// decode, when the image is larger than the limit before or after its conversion to PNG, or
/// when it is not an image; else the converted PNG, the bytes as sent, and the size.
pub open spec fn spec_receive_base64_image(text: Seq<char>, max_image_bytes: nat) -> Result<(Seq<u8>, Seq<u8>, u32, u32), Seq<char>> {
    match base64_decoded(text) {
        Err(e) => Err(e),
        Ok(bytes) => if bytes.len() > max_image_bytes {
            Err("image_too_large"@)
        } else {
            match decoded_size(bytes) {
                Err(e) => Err(e),
                Ok((w, h)) => match fast_png(bytes) {
                    Err(e) => Err(e),
                    Ok(png) => if png.len() > max_image_bytes {
                        Err("image_too_large"@)
                    } else {
                        Ok((png, bytes, w, h))
                    },
                },
            }
        },
    }
}

/// Decodes, checks and converts Base64 image data that the phone posted.
pub fn receive_base64_image(text: &str, max_image_bytes: usize) -> (r: Result<(Vec<u8>, Vec<u8>, u32, u32), String>)
    ensures
        match r {
            Ok((png, bytes, w, h)) => spec_receive_base64_image(text@, max_image_bytes as nat) == Ok::<(Seq<u8>, Seq<u8>, u32, u32), Seq<char>>((png@, bytes@, w, h)),
            Err(e) => spec_receive_base64_image(text@, max_image_bytes as nat) == Err::<(Seq<u8>, Seq<u8>, u32, u32), Seq<char>>(e@),
        },
{
    let bytes = match decode_base64(text) {
        Ok(b) => b,
        Err(e) => return Err(e),
    };
    if bytes.len() > max_image_bytes {
        return Err(crate::text::owned("image_too_large"));
    }
    let (w, h) = match decode_image_size(bytes.as_slice()) {
        Ok(s) => s,
        Err(e) => return Err(e),
    };
    let png = match encode_fast_png(bytes.as_slice()) {
        Ok(p) => p,
        Err(e) => return Err(e),
    };
    if png.len() > max_image_bytes {
        return Err(crate::text::owned("image_too_large"));
    }
    Ok((png, bytes, w, h))
}

} // verus!
