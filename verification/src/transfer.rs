use vstd::prelude::*;

use crate::capture::{spec_capture_hash};
use crate::digest::{image_hash_from_png_bytes, spec_image_hash};
use crate::lan::{detect_image_mime, spec_detect_image_mime};
use crate::models::{opt_bytes, opt_str, CaptureView, CapturedClipboard};
use crate::text::{chars_of, decimal, decimal_chars, owned, push_chars, push_str, string_from_chars, trim, trim_chars};
use crate::update::AppError;
use crate::url::{split_once, split_once_chars};

verus! {

/// What the phone page posts to `/api/clipboard`.
pub struct MobileClipboardPayload {
    pub kind: String,
    pub text: Option<String>,
    pub image_data: Option<String>,
}

/// What a phone upload carries.
pub enum MobileUpload {
    /// Text to put on the clipboard, trimmed.
    Text { text: String },
    /// Base64 image data, without its `data:` prefix.
    Image { base64: String },
}

/// The upload that a payload describes, or the reason it is refused: text and image together,
/// neither, or a kind that does not match the content.
pub open spec fn spec_classify_mobile_payload(
    kind: Seq<char>,
    text: Option<Seq<char>>,
    image_data: Option<Seq<char>>,
) -> Result<(bool, Seq<char>), Seq<char>> {
    let t = match text {
        Some(x) => trim(x),
        None => seq![],
    };
    let image = match image_data {
        Some(x) => if trim(x).len() > 0 {
            Some(trim(x))
        } else {
            None
        },
        None => None,
    };
    if t.len() > 0 && image is Some {
        Err("text_and_image_are_mutually_exclusive"@)
    } else if t.len() == 0 && image is None {
        Err("empty_payload"@)
    } else if kind == "text"@ && t.len() > 0 {
        Ok((true, t))
    } else if kind == "image"@ && image is Some {
        Ok(
            (
                false,
                match split_once(image->0, ',') {
                    Some((_, data)) => data,
                    None => image->0,
                },
            ),
        )
    } else {
        Err("invalid_payload_kind"@)
    }
}

/// Checks a payload from the phone page and says what it carries.
pub fn classify_mobile_payload(payload: &MobileClipboardPayload) -> (r: Result<MobileUpload, String>)
    ensures
        match r {
            Ok(MobileUpload::Text { text }) => spec_classify_mobile_payload(
                payload.kind@,
                opt_str(payload.text),
                opt_str(payload.image_data),
            ) == Ok::<(bool, Seq<char>), Seq<char>>((true, text@)),
            Ok(MobileUpload::Image { base64 }) => spec_classify_mobile_payload(
                payload.kind@,
                opt_str(payload.text),
                opt_str(payload.image_data),
            ) == Ok::<(bool, Seq<char>), Seq<char>>((false, base64@)),
            Err(e) => spec_classify_mobile_payload(
                payload.kind@,
                opt_str(payload.text),
                opt_str(payload.image_data),
            ) == Err::<(bool, Seq<char>), Seq<char>>(e@),
        },
{
    let t: Vec<char> = match &payload.text {
        Some(x) => {
            let v = chars_of(x.as_str());
            trim_chars(&v)
        },
        None => Vec::new(),
    };
    let image: Option<Vec<char>> = match &payload.image_data {
        Some(x) => {
            let v = chars_of(x.as_str());
            let tv = trim_chars(&v);
            if tv.len() > 0 {
                Some(tv)
            } else {
                None
            }
        },
        None => None,
    };
    let has_text = t.len() > 0;
    let has_image = image.is_some();
    if has_text && has_image {
        return Err(owned("text_and_image_are_mutually_exclusive"));
    }
    if !has_text && !has_image {
        return Err(owned("empty_payload"));
    }
    if crate::text::str_equal(payload.kind.as_str(), "text") && has_text {
        return Ok(MobileUpload::Text { text: string_from_chars(&t) });
    }
    if crate::text::str_equal(payload.kind.as_str(), "image") && has_image {
        let data = image.unwrap();
        let raw = match split_once_chars(&data, ',') {
            Some((_, rest)) => rest,
            None => data,
        };
        return Ok(MobileUpload::Image { base64: string_from_chars(&raw) });
    }
    Err(owned("invalid_payload_kind"))
}

/// Why an image upload is refused before it is decoded: it is empty, or larger than the
/// limit.
pub open spec fn spec_image_upload_error(len: nat, max_image_bytes: nat) -> Option<Seq<char>> {
    if len == 0 {
        Some("empty_payload"@)
    } else if len > max_image_bytes {
        Some("image_too_large"@)
    } else {
        None
    }
}

/// Checks the size of an uploaded image.
pub fn image_upload_error(len: usize, max_image_bytes: usize) -> (r: Option<&'static str>)
    ensures
        match r {
            Some(m) => spec_image_upload_error(len as nat, max_image_bytes as nat) == Some(m@),
            None => spec_image_upload_error(len as nat, max_image_bytes as nat) is None,
        },
{
    if len == 0 {
        Some("empty_payload")
    } else if len > max_image_bytes {
        Some("image_too_large")
    } else {
        None
    }
}

/// `Image <width>x<height>`.
pub open spec fn spec_image_preview(width: u32, height: u32) -> Seq<char> {
    "Image "@ + decimal(width as nat) + "x"@ + decimal(height as nat)
}

/// The capture of an image that the phone sent: the PNG to store, the bytes as sent with the
/// type their signature announces, the size, and the hash of the PNG.
pub fn build_image_capture(png_bytes: Vec<u8>, original_bytes: Vec<u8>, width: u32, height: u32) -> (r: CapturedClipboard)
    ensures
        r@ == (CaptureView::Image {
            png_bytes: png_bytes@,
            original_bytes: Some(original_bytes@),
            original_mime: spec_detect_image_mime(original_bytes@),
            hash: spec_image_hash(png_bytes@),
            preview: spec_image_preview(width, height),
            image_width: width,
            image_height: height,
        }),
{
    let hash = image_hash_from_png_bytes(png_bytes.as_slice());
    let original_mime = match detect_image_mime(original_bytes.as_slice()) {
        Some(m) => Some(owned(m)),
        None => None,
    };
    let mut preview: Vec<char> = Vec::new();
    push_str(&mut preview, "Image ");
    let w = decimal_chars(width as u64);
    push_chars(&mut preview, &w);
    push_str(&mut preview, "x");
    let h = decimal_chars(height as u64);
    push_chars(&mut preview, &h);
    CapturedClipboard::Image {
        png_bytes,
        original_bytes: Some(original_bytes),
        original_mime,
        hash,
        preview: string_from_chars(&preview),
        image_width: width,
        image_height: height,
    }
}

/// The capture of a text: the text, with the hash of its UTF-8 bytes.
pub fn build_text_capture(text: String) -> (r: CapturedClipboard)
    ensures
        r@ == (CaptureView::Text {
            text: text@,
            html_text: None,
            rtf_text: None,
            hash: crate::digest::spec_text_hash(text@, None, None),
        }),
{
    let hash = crate::digest::text_hash(text.as_str(), None, None);
    CapturedClipboard::Text { text, html_text: None, rtf_text: None, hash }
}

/// The SVG that the `qrcode` crate renders for the data with the given minimum size and
/// colours, or the text of its error when the data does not fit a QR code.
pub uninterp spec fn qr_svg(data: Seq<u8>, min_width: u32, min_height: u32, dark: Seq<char>, light: Seq<char>) -> Result<Seq<char>, Seq<char>>;

/// `qrcode::QrCode::new` followed by its SVG renderer with the given minimum size and colours.
/// The renderer rounds the minimum size up to whole modules in `u32` arithmetic, so the sizes
/// are kept well below the point where that sum would overflow.
#[verifier::external_body]
fn render_qr_svg(data: &[u8], min_width: u32, min_height: u32, dark: &str, light: &str) -> (r: Result<String, String>)
    requires
        min_width <= 1_000_000,
        min_height <= 1_000_000,
    ensures
        match r {
            Ok(svg) => qr_svg(data@, min_width, min_height, dark@, light@) == Ok::<Seq<char>, Seq<char>>(svg@),
            Err(e) => qr_svg(data@, min_width, min_height, dark@, light@) == Err::<Seq<char>, Seq<char>>(e@),
        },
{
    let code = qrcode::QrCode::new(data).map_err(|error| error.to_string())?;
    Ok(
        code.render::<qrcode::render::svg::Color<'_>>().min_dimensions(min_width, min_height).dark_color(
            qrcode::render::svg::Color(dark),
        ).light_color(qrcode::render::svg::Color(light)).build(),
    )
}

/// The QR code of a link: at least 220 pixels square, dark slate on white.
pub open spec fn spec_build_qr_svg(url: Seq<char>) -> Result<Seq<char>, Seq<char>> {
    qr_svg(vstd::utf8::encode_utf8(url), 220, 220, "#1d232d"@, "#ffffff"@)
}

/// The QR code of the session link, or the error of the encoder.
pub fn build_qr_svg(url: &str) -> (r: Result<String, AppError>)
    ensures
        match r {
            Ok(svg) => spec_build_qr_svg(url@) == Ok::<Seq<char>, Seq<char>>(svg@),
            Err(e) => spec_build_qr_svg(url@) == Err::<Seq<char>, Seq<char>>(e.spec_message()),
        },
{
    match render_qr_svg(url.as_bytes(), 220, 220, "#1d232d", "#ffffff") {
        Ok(svg) => Ok(svg),
        Err(e) => Err(AppError::Message(e)),
    }
}

} // verus!
