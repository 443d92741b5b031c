use vstd::prelude::*;

use crate::models::{
    clone_opt_string, opt_bytes, opt_str, CaptureView, CapturedClipboard, ItemView,
    StoredClipboardItem,
};
use crate::text::{
    chars_of, is_whitespace, is_ws, owned, push_chars, push_str, string_from_chars, take_at_most,
    take_chars,
};

verus! {

/// The words of a text (runs of non-whitespace characters) joined by single spaces.
pub open spec fn squash_whitespace(s: Seq<char>) -> Seq<char>
    decreases s.len(),
{
    if s.len() == 0 {
        seq![]
    } else {
        let r = squash_whitespace(s.drop_last());
        let c = s.last();
        if is_ws(c) {
            r
        } else if s.len() >= 2 && !is_ws(s[s.len() - 2]) {
            r.push(c)
        } else if r.len() == 0 {
            r.push(c)
        } else {
            r.push(' ').push(c)
        }
    }
}

/// The preview of a text: its words joined by single spaces and cut to 160 characters;
/// `(empty text)` when it has no words.
pub open spec fn spec_preview_text(text: Seq<char>) -> Seq<char> {
    let n = squash_whitespace(text);
    if n.len() == 0 {
        "(empty text)"@
    } else {
        take_at_most(n, 160)
    }
}

/// The one-line preview shown for a text entry.
pub fn preview_text(text: &str) -> (r: String)
    ensures
        r@ == spec_preview_text(text@),
{
    let v = chars_of(text);
    let mut out: Vec<char> = Vec::new();
    for i in 0..v.len()
        invariant
            v@ == text@,
            out@ == squash_whitespace(v@.take(i as int)),
    {
        let c = v[i];
        proof {
            let t = v@.take(i + 1);
            assert(t.drop_last() =~= v@.take(i as int));
            assert(t.last() == c);
            if i >= 1 {
                assert(t[t.len() - 2] == v@[i - 1]);
            }
        }
        if !is_whitespace(c) {
            if i >= 1 && !is_whitespace(v[i - 1]) {
                out.push(c);
            } else if out.len() == 0 {
                out.push(c);
            } else {
                out.push(' ');
                out.push(c);
            }
        }
    }
    assert(v@.take(v.len() as int) =~= v@);
    if out.len() == 0 {
        owned("(empty text)")
    } else {
        let t = take_chars(&out, 160);
        string_from_chars(&t)
    }
}

pub open spec fn spec_capture_hash(c: CaptureView) -> Seq<char> {
    match c {
        CaptureView::Text { hash, .. } => hash,
        CaptureView::Link { hash, .. } => hash,
        CaptureView::Image { hash, .. } => hash,
        CaptureView::Mixed { hash, .. } => hash,
    }
}

/// The hash that identifies a capture.
pub fn capture_hash(capture: &CapturedClipboard) -> (r: &String)
    ensures
        r@ == spec_capture_hash(capture@),
{
    match capture {
        CapturedClipboard::Text { hash, .. } => hash,
        CapturedClipboard::Link { hash, .. } => hash,
        CapturedClipboard::Image { hash, .. } => hash,
        CapturedClipboard::Mixed { hash, .. } => hash,
    }
}

/// The text by which a capture matches an existing text entry: its text, when it has one
/// that is not empty.
pub open spec fn spec_capture_matching_text(c: CaptureView) -> Option<Seq<char>> {
    match c {
        CaptureView::Text { text, .. } => if text.len() > 0 {
            Some(text)
        } else {
            None
        },
        CaptureView::Link { text, .. } => if text.len() > 0 {
            Some(text)
        } else {
            None
        },
        CaptureView::Mixed { text, .. } => if text.len() > 0 {
            Some(text)
        } else {
            None
        },
        CaptureView::Image { .. } => None,
    }
}

/// The text by which a capture matches an existing text entry.
pub fn capture_matching_text(capture: &CapturedClipboard) -> (r: Option<String>)
    ensures
        opt_str(r) == spec_capture_matching_text(capture@),
{
    match capture {
        CapturedClipboard::Text { text, .. } | CapturedClipboard::Link { text, .. }
        | CapturedClipboard::Mixed { text, .. } => {
            if text.as_str().is_empty() {
                None
            } else {
                Some(text.clone())
            }
        },
        _ => None,
    }
}

/// The text of a capture that the transfer chat shows; the same as its matching text.
pub fn capture_text(capture: &CapturedClipboard) -> (r: Option<String>)
    ensures
        opt_str(r) == spec_capture_matching_text(capture@),
{
    capture_matching_text(capture)
}

pub open spec fn spec_capture_kind(c: CaptureView) -> Seq<char> {
    match c {
        CaptureView::Text { .. } => "text"@,
        CaptureView::Link { .. } => "link"@,
        CaptureView::Image { .. } => "image"@,
        CaptureView::Mixed { .. } => "mixed"@,
    }
}

/// The kind name of a capture.
pub fn capture_kind(capture: &CapturedClipboard) -> (r: &'static str)
    ensures
        r@ == spec_capture_kind(capture@),
{
    match capture {
        CapturedClipboard::Text { .. } => "text",
        CapturedClipboard::Link { .. } => "link",
        CapturedClipboard::Image { .. } => "image",
        CapturedClipboard::Mixed { .. } => "mixed",
    }
}

/// A history entry after a capture is stored in it: it is refreshed with the time and source
/// of the capture, and takes its kind, text and image.
pub open spec fn spec_apply_capture(
    item: ItemView,
    c: CaptureView,
    now: Seq<char>,
    source_app: Option<Seq<char>>,
    source_icon: Option<Seq<char>>,
) -> ItemView {
    let base = ItemView {
        created_at: now,
        source_app: source_app,
        source_icon_data_url: source_icon,
        ..item
    };
    match c {
        CaptureView::Text { text, html_text, rtf_text, hash } => ItemView {
            kind: "text"@,
            preview: spec_preview_text(text),
            full_text: Some(text),
            html_text,
            rtf_text,
            image_png: None,
            image_original_bytes: None,
            image_original_mime: None,
            image_width: None,
            image_height: None,
            hash,
            ..base
        },
        CaptureView::Link { text, html_text, rtf_text, hash } => ItemView {
            kind: "link"@,
            preview: spec_preview_text(text),
            full_text: Some(text),
            html_text,
            rtf_text,
            image_png: None,
            image_original_bytes: None,
            image_original_mime: None,
            image_width: None,
            image_height: None,
            hash,
            ..base
        },
        CaptureView::Image {
            png_bytes,
            original_bytes,
            original_mime,
            hash,
            preview,
            image_width,
            image_height,
        } => ItemView {
            kind: "image"@,
            preview,
            full_text: None,
            html_text: None,
            rtf_text: None,
            image_png: Some(png_bytes),
            image_original_bytes: original_bytes,
            image_original_mime: original_mime,
            image_width: Some(image_width),
            image_height: Some(image_height),
            hash,
            ..base
        },
        CaptureView::Mixed {
            text,
            html_text,
            rtf_text,
            png_bytes,
            hash,
            image_width,
            image_height,
        } => ItemView {
            kind: "mixed"@,
            preview: spec_preview_text(text),
            full_text: Some(text),
            html_text,
            rtf_text,
            image_png: png_bytes,
            image_original_bytes: None,
            image_original_mime: None,
            image_width: if image_width > 0 {
                Some(image_width)
            } else {
                None
            },
            image_height: if image_height > 0 {
                Some(image_height)
            } else {
                None
            },
            hash,
            ..base
        },
    }
}

/// A stored image keeps the capture's width as its width and the capture's height as its
/// height; a stored mixed capture keeps each of them when it is known (not zero). Storing
/// keeps the entry's identifier, pin and favourite, and makes it the newest.
pub proof fn law_capture_keeps_image_size(
    item: ItemView,
    c: CaptureView,
    now: Seq<char>,
    source_app: Option<Seq<char>>,
    source_icon: Option<Seq<char>>,
)
    ensures
        ({
            let r = spec_apply_capture(item, c, now, source_app, source_icon);
            &&& (c matches CaptureView::Image { image_width, image_height, .. } ==> r.image_width
                == Some(image_width) && r.image_height == Some(image_height))
            &&& (c matches CaptureView::Mixed { image_width, image_height, .. } ==> (image_width > 0
                ==> r.image_width == Some(image_width)) && (image_width == 0 ==> r.image_width is None)
                && (image_height > 0 ==> r.image_height == Some(image_height)) && (image_height == 0
                ==> r.image_height is None))
            &&& r.id == item.id && r.pinned == item.pinned && r.pinned_at == item.pinned_at
            &&& r.favorite == item.favorite && r.created_at == now
        }),
{
}

/// Storing a capture puts each of its parts in the matching field of the entry: text captures
/// keep their text, markup and rich text and drop any image; image captures keep their image,
/// original bytes, type and preview and drop any text; mixed captures keep text, markup, rich
/// text and image; the entry takes the capture's hash and the kind of the capture.
pub proof fn law_capture_fills_matching_fields(
    item: ItemView,
    c: CaptureView,
    now: Seq<char>,
    source_app: Option<Seq<char>>,
    source_icon: Option<Seq<char>>,
)
    ensures
        ({
            let r = spec_apply_capture(item, c, now, source_app, source_icon);
            &&& r.source_app == source_app && r.source_icon_data_url == source_icon
            &&& (c matches CaptureView::Text { text, html_text, rtf_text, hash } ==> r.kind == "text"@
                && r.full_text == Some(text) && r.html_text == html_text && r.rtf_text == rtf_text
                && r.hash == hash && r.image_png is None && r.image_original_bytes is None
                && r.image_width is None && r.image_height is None)
            &&& (c matches CaptureView::Link { text, html_text, rtf_text, hash } ==> r.kind == "link"@
                && r.full_text == Some(text) && r.html_text == html_text && r.rtf_text == rtf_text
                && r.hash == hash && r.image_png is None && r.image_original_bytes is None
                && r.image_width is None && r.image_height is None)
            &&& (c matches CaptureView::Image {
                png_bytes,
                original_bytes,
                original_mime,
                hash,
                preview,
                ..
            } ==> r.kind == "image"@ && r.image_png == Some(png_bytes) && r.image_original_bytes
                == original_bytes && r.image_original_mime == original_mime && r.hash == hash
                && r.preview == preview && r.full_text is None && r.html_text is None && r.rtf_text is None)
            &&& (c matches CaptureView::Mixed { text, html_text, rtf_text, png_bytes, hash, .. }
                ==> r.kind == "mixed"@ && r.full_text == Some(text) && r.html_text == html_text
                && r.rtf_text == rtf_text && r.image_png == png_bytes && r.hash == hash
                && r.image_original_bytes is None)
        }),
{
}

/// Stores a capture into an existing history entry.
pub fn apply_capture(
    item: StoredClipboardItem,
    capture: CapturedClipboard,
    now: &str,
    source_app: Option<String>,
    source_icon_data_url: Option<String>,
) -> (r: StoredClipboardItem)
    ensures
        r@ == spec_apply_capture(
            item@,
            capture@,
            now@,
            opt_str(source_app),
            opt_str(source_icon_data_url),
        ),
{
    let mut item = item;
    item.created_at = owned(now);
    item.source_app = source_app;
    item.source_icon_data_url = source_icon_data_url;
    match capture {
        CapturedClipboard::Text { text, html_text, rtf_text, hash } => {
            item.kind = owned("text");
            item.preview = preview_text(text.as_str());
            item.full_text = Some(text);
            item.html_text = html_text;
            item.rtf_text = rtf_text;
            item.image_png = None;
            item.image_original_bytes = None;
            item.image_original_mime = None;
            item.image_width = None;
            item.image_height = None;
            item.hash = hash;
        },
        CapturedClipboard::Link { text, html_text, rtf_text, hash } => {
            item.kind = owned("link");
            item.preview = preview_text(text.as_str());
            item.full_text = Some(text);
            item.html_text = html_text;
            item.rtf_text = rtf_text;
            item.image_png = None;
            item.image_original_bytes = None;
            item.image_original_mime = None;
            item.image_width = None;
            item.image_height = None;
            item.hash = hash;
        },
        CapturedClipboard::Image {
            png_bytes,
            original_bytes,
            original_mime,
            hash,
            preview,
            image_width,
            image_height,
        } => {
            item.kind = owned("image");
            item.preview = preview;
            item.full_text = None;
            item.html_text = None;
            item.rtf_text = None;
            item.image_png = Some(png_bytes);
            item.image_original_bytes = original_bytes;
            item.image_original_mime = original_mime;
            item.image_width = Some(image_width);
            item.image_height = Some(image_height);
            item.hash = hash;
        },
        CapturedClipboard::Mixed {
            text,
            html_text,
            rtf_text,
            png_bytes,
            hash,
            image_width,
            image_height,
        } => {
            item.kind = owned("mixed");
            item.preview = preview_text(text.as_str());
            item.full_text = Some(text);
            item.html_text = html_text;
            item.rtf_text = rtf_text;
            item.image_png = png_bytes;
            item.image_original_bytes = None;
            item.image_original_mime = None;
            item.image_width = if image_width > 0 {
                Some(image_width)
            } else {
                None
            };
            item.image_height = if image_height > 0 {
                Some(image_height)
            } else {
                None
            };
            item.hash = hash;
        },
    }
    item
}

/// The blank entry that a new capture is stored into.
pub open spec fn blank_item(
    id: Seq<char>,
    now: Seq<char>,
    source_app: Option<Seq<char>>,
    source_icon: Option<Seq<char>>,
) -> ItemView {
    ItemView {
        id,
        kind: seq![],
        created_at: now,
        pinned_at: None,
        preview: seq![],
        full_text: None,
        html_text: None,
        rtf_text: None,
        image_png: None,
        image_original_bytes: None,
        image_original_mime: None,
        image_width: None,
        image_height: None,
        source_app,
        source_icon_data_url: source_icon,
        hash: seq![],
        pinned: false,
        favorite: false,
    }
}

/// A new history entry for a capture, under the given identifier.
pub fn build_item_with_id(
    id: String,
    capture: CapturedClipboard,
    now: &str,
    source_app: Option<String>,
    source_icon_data_url: Option<String>,
) -> (r: StoredClipboardItem)
    ensures
        r@ == spec_apply_capture(
            blank_item(id@, now@, opt_str(source_app), opt_str(source_icon_data_url)),
            capture@,
            now@,
            opt_str(source_app),
            opt_str(source_icon_data_url),
        ),
{
    let item = StoredClipboardItem {
        id,
        kind: String::new(),
        created_at: owned(now),
        pinned_at: None,
        preview: String::new(),
        full_text: None,
        html_text: None,
        rtf_text: None,
        image_png: None,
        image_original_bytes: None,
        image_original_mime: None,
        image_width: None,
        image_height: None,
        source_app: clone_opt_string(&source_app),
        source_icon_data_url: clone_opt_string(&source_icon_data_url),
        hash: String::new(),
        pinned: false,
        favorite: false,
    };
    apply_capture(item, capture, now, source_app, source_icon_data_url)
}

/// A new history entry for a capture, under a new random identifier: not
/// pinned, not a favourite, created now.
pub fn build_new_item(
    capture: CapturedClipboard,
    now: &str,
    source_app: Option<String>,
    source_icon_data_url: Option<String>,
) -> (r: StoredClipboardItem)
    ensures
        crate::names::is_uuid_v4_text(r@.id),
        r@ == spec_apply_capture(
            blank_item(r@.id, now@, opt_str(source_app), opt_str(source_icon_data_url)),
            capture@,
            now@,
            opt_str(source_app),
            opt_str(source_icon_data_url),
        ),
{
    let id = crate::names::new_uuid_string();
    build_item_with_id(id, capture, now, source_app, source_icon_data_url)
}

/// The digit of the standard Base64 alphabet for a six-bit value: `A`-`Z`, `a`-`z`, `0`-`9`,
/// `+` and `/`.
pub open spec fn base64_digit(v: int) -> char {
    if v < 26 {
        (65 + v) as char
    } else if v < 52 {
        (97 + v - 26) as char
    } else if v < 62 {
        (48 + v - 52) as char
    } else if v == 62 {
        '+'
    } else {
        '/'
    }
}

/// The standard Base64 encoding of the bytes: every three bytes become four digits, and a last
/// group of one or two bytes is padded with `=` to four characters.
pub open spec fn base64_standard(data: Seq<u8>) -> Seq<char>
    decreases data.len(),
{
    let b0 = data[0] as int;
    let b1 = data[1] as int;
    let b2 = data[2] as int;
    if data.len() == 0 {
        seq![]
    } else if data.len() == 1 {
        seq![base64_digit(b0 / 4), base64_digit((b0 % 4) * 16), '=', '=']
    } else if data.len() == 2 {
        seq![base64_digit(b0 / 4), base64_digit((b0 % 4) * 16 + b1 / 16), base64_digit((b1 % 16) * 4), '=']
    } else {
        seq![
            base64_digit(b0 / 4),
            base64_digit((b0 % 4) * 16 + b1 / 16),
            base64_digit((b1 % 16) * 4 + b2 / 64),
            base64_digit(b2 % 64),
        ] + base64_standard(data.skip(3))
    }
}

/// `base64::engine::general_purpose::STANDARD.encode`: the standard alphabet with padding.
#[verifier::external_body]
fn base64_encode(data: &[u8]) -> (r: String)
    ensures
        r@ == base64_standard(data@),
{
    base64::Engine::encode(&base64::engine::general_purpose::STANDARD, data)
}

/// `data:<mime>;base64,<data>`.
pub open spec fn data_url(mime: Seq<char>, data: Seq<u8>) -> Seq<char> {
    "data:"@ + mime + ";base64,"@ + base64_standard(data)
}

pub(crate) fn data_url_string(mime: &str, data: &[u8]) -> (r: String)
    ensures
        r@ == data_url(mime@, data@),
{
    let mut out: Vec<char> = Vec::new();
    push_str(&mut out, "data:");
    push_str(&mut out, mime);
    push_str(&mut out, ";base64,");
    let b = base64_encode(data);
    push_str(&mut out, b.as_str());
    string_from_chars(&out)
}

/// The MIME type of the original image bytes: the recorded one when it names an image, else
/// PNG.
pub open spec fn image_mime_or_png(mime: Option<Seq<char>>) -> Seq<char> {
    match mime {
        Some(m) => if m.len() >= 6 && m.take(6) == "image/"@ {
            m
        } else {
            "image/png"@
        },
        None => "image/png"@,
    }
}

fn image_mime_or_png_str(mime: &Option<String>) -> (r: String)
    ensures
        r@ == image_mime_or_png(opt_str(*mime)),
{
    match mime {
        Some(m) => {
            let v = chars_of(m.as_str());
            proof {
                reveal_strlit("image/");
            }
            if crate::text::chars_start_with(&v, "image/") {
                m.clone()
            } else {
                owned("image/png")
            }
        },
        None => owned("image/png"),
    }
}

/// The image of an entry as a data URL: its original bytes when there are any, else its PNG.
pub open spec fn spec_item_image_data_url(item: ItemView) -> Option<Seq<char>> {
    match item.image_original_bytes {
        Some(b) if b.len() > 0 => Some(data_url(image_mime_or_png(item.image_original_mime), b)),
        _ => match item.image_png {
            Some(p) if p.len() > 0 => Some(data_url("image/png"@, p)),
            _ => None,
        },
    }
}

/// The size shown for the image of an entry: that of its original bytes when there are any,
/// else that of its PNG.
pub open spec fn spec_image_display_byte_size(item: ItemView) -> Option<nat> {
    match item.image_original_bytes {
        Some(b) if b.len() > 0 => Some(b.len()),
        _ => match item.image_png {
            Some(p) if p.len() > 0 => Some(p.len()),
            _ => None,
        },
    }
}

impl StoredClipboardItem {
    /// The image of the entry as a data URL.
    pub fn image_data_url(&self) -> (r: Option<String>)
        ensures
            opt_str(r) == spec_item_image_data_url(self@),
    {
        if let Some(bytes) = &self.image_original_bytes {
            if bytes.len() > 0 {
                let mime = image_mime_or_png_str(&self.image_original_mime);
                return Some(data_url_string(mime.as_str(), bytes.as_slice()));
            }
        }
        if let Some(png) = &self.image_png {
            if png.len() > 0 {
                return Some(data_url_string("image/png", png.as_slice()));
            }
        }
        None
    }

    /// The byte size shown for the image of the entry.
    pub fn image_display_byte_size(&self) -> (r: Option<usize>)
        ensures
            match r {
                Some(n) => spec_image_display_byte_size(self@) == Some(n as nat),
                None => spec_image_display_byte_size(self@) is None,
            },
    {
        if let Some(bytes) = &self.image_original_bytes {
            if bytes.len() > 0 {
                return Some(bytes.len());
            }
        }
        if let Some(png) = &self.image_png {
            if png.len() > 0 {
                return Some(png.len());
            }
        }
        None
    }
}

/// The image of a capture as a data URL, as the transfer chat shows it.
pub open spec fn spec_capture_image_data_url(c: CaptureView) -> Option<Seq<char>> {
    match c {
        CaptureView::Image { original_bytes, original_mime, png_bytes, .. } => match original_bytes {
            Some(b) if b.len() > 0 => Some(data_url(image_mime_or_png(original_mime), b)),
            _ => Some(data_url("image/png"@, png_bytes)),
        },
        CaptureView::Mixed { png_bytes, .. } => match png_bytes {
            Some(p) => Some(data_url("image/png"@, p)),
            None => None,
        },
        _ => None,
    }
}

/// The image of a capture as a data URL.
pub fn capture_image_data_url(capture: &CapturedClipboard) -> (r: Option<String>)
    ensures
        opt_str(r) == spec_capture_image_data_url(capture@),
{
    match capture {
        CapturedClipboard::Image { original_bytes, original_mime, png_bytes, .. } => {
            if let Some(bytes) = original_bytes {
                if bytes.len() > 0 {
                    let mime = image_mime_or_png_str(original_mime);
                    return Some(data_url_string(mime.as_str(), bytes.as_slice()));
                }
            }
            Some(data_url_string("image/png", png_bytes.as_slice()))
        },
        CapturedClipboard::Mixed { png_bytes, .. } => match png_bytes {
            Some(p) => Some(data_url_string("image/png", p.as_slice())),
            None => None,
        },
        _ => None,
    }
}

} // verus!
