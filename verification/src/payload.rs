use vstd::prelude::*;

use crate::models::{
    clone_bytes, clone_opt_bytes, clone_opt_string, opt_bytes, opt_str, ItemView,
    StoredClipboardItem,
};
use crate::text::{
    ascii_lower_seq, chars_equal_str, chars_of, lower_ascii_chars, string_from_chars, trim,
    trim_chars,
};

verus! {

/// What is written to the system clipboard for one history entry.
pub enum ClipboardPayload {
    Empty,
    Text { text: String },
    Html { text: Option<String>, html: String },
    Image { png_bytes: Vec<u8> },
    RichText { text: Option<String>, html: Option<String>, rtf: Option<String> },
    Mixed { text: Option<String>, html: Option<String>, png_bytes: Option<Vec<u8>> },
}

pub enum PayloadView {
    Empty,
    Text { text: Seq<char> },
    Html { text: Option<Seq<char>>, html: Seq<char> },
    Image { png_bytes: Seq<u8> },
    RichText { text: Option<Seq<char>>, html: Option<Seq<char>>, rtf: Option<Seq<char>> },
    Mixed { text: Option<Seq<char>>, html: Option<Seq<char>>, png_bytes: Option<Seq<u8>> },
}

impl View for ClipboardPayload {
    type V = PayloadView;

    open spec fn view(&self) -> PayloadView {
        match self {
            ClipboardPayload::Empty => PayloadView::Empty,
            ClipboardPayload::Text { text } => PayloadView::Text { text: text@ },
            ClipboardPayload::Html { text, html } => PayloadView::Html {
                text: opt_str(*text),
                html: html@,
            },
            ClipboardPayload::Image { png_bytes } => PayloadView::Image { png_bytes: png_bytes@ },
            ClipboardPayload::RichText { text, html, rtf } => PayloadView::RichText {
                text: opt_str(*text),
                html: opt_str(*html),
                rtf: opt_str(*rtf),
            },
            ClipboardPayload::Mixed { text, html, png_bytes } => PayloadView::Mixed {
                text: opt_str(*text),
                html: opt_str(*html),
                png_bytes: opt_bytes(*png_bytes),
            },
        }
    }
}

/// The trimmed text, or nothing when it is absent or blank.
pub open spec fn spec_non_empty(value: Option<Seq<char>>) -> Option<Seq<char>> {
    match value {
        Some(s) => if trim(s).len() > 0 {
            Some(trim(s))
        } else {
            None
        },
        None => None,
    }
}

/// The bytes when present and not empty.
pub open spec fn non_empty_bytes(value: Option<Seq<u8>>) -> Option<Seq<u8>> {
    match value {
        Some(b) => if b.len() > 0 {
            Some(b)
        } else {
            None
        },
        None => None,
    }
}

/// Whether a text only stands for an image ("[image]", "image", "[img]" or "img",
/// whatever the case and the surrounding whitespace).
pub open spec fn spec_is_image_placeholder(text: Seq<char>) -> bool {
    let n = ascii_lower_seq(trim(text));
    n == "[image]"@ || n == "image"@ || n == "[img]"@ || n == "img"@
}

pub open spec fn spec_item_has_image(item: ItemView) -> bool {
    match item.image_png {
        Some(b) => b.len() > 0,
        None => false,
    }
}

pub open spec fn spec_prefers_image(item: ItemView) -> bool {
    spec_item_has_image(item) && match item.full_text {
        Some(t) => spec_is_image_placeholder(t),
        None => false,
    }
}

/// The payload chosen for a history entry.
pub open spec fn spec_payload_for_item(item: ItemView) -> PayloadView {
    let text = spec_non_empty(item.full_text);
    let html = spec_non_empty(item.html_text);
    let rtf = spec_non_empty(item.rtf_text);
    let png = non_empty_bytes(item.image_png);
    if spec_prefers_image(item) {
        match png {
            Some(p) => PayloadView::Image { png_bytes: p },
            None => PayloadView::Empty,
        }
    } else if item.kind == "text"@ {
        if rtf is Some {
            PayloadView::RichText { text, html, rtf }
        } else if html is Some {
            PayloadView::Html { text, html: html->0 }
        } else if text is Some {
            PayloadView::Text { text: text->0 }
        } else {
            PayloadView::Empty
        }
    } else if item.kind == "mixed"@ {
        if text is Some || html is Some || png is Some {
            PayloadView::Mixed { text, html, png_bytes: png }
        } else if rtf is Some {
            PayloadView::RichText { text: None, html: None, rtf }
        } else {
            PayloadView::Empty
        }
    } else {
        if text is Some && html is None && rtf is None && png is None {
            PayloadView::Text { text: text->0 }
        } else if html is Some && rtf is None && png is None {
            PayloadView::Html { text, html: html->0 }
        } else if png is Some {
            if text is Some || html is Some || rtf is Some {
                PayloadView::Mixed { text, html, png_bytes: png }
            } else {
                PayloadView::Image { png_bytes: png->0 }
            }
        } else if rtf is Some {
            PayloadView::RichText { text, html, rtf }
        } else {
            PayloadView::Empty
        }
    }
}

/// The trimmed text, or `None` when the value is absent or only whitespace.
pub fn non_empty(value: Option<&String>) -> (r: Option<String>)
    ensures
        opt_str(r) == spec_non_empty(
            match value {
                Some(s) => Some(s@),
                None => None,
            },
        ),
{
    match value {
        Some(s) => {
            let v = chars_of(s.as_str());
            let t = trim_chars(&v);
            if t.len() == 0 {
                None
            } else {
                Some(string_from_chars(&t))
            }
        },
        None => None,
    }
}

/// Whether the text is only a placeholder for an image.
pub fn is_image_placeholder_text(text: &str) -> (r: bool)
    ensures
        r == spec_is_image_placeholder(text@),
{
    let v = chars_of(text);
    let t = trim_chars(&v);
    let n = lower_ascii_chars(&t);
    chars_equal_str(&n, "[image]") || chars_equal_str(&n, "image") || chars_equal_str(&n, "[img]")
        || chars_equal_str(&n, "img")
}

/// Whether the entry holds PNG bytes.
pub fn item_has_image(item: &StoredClipboardItem) -> (r: bool)
    ensures
        r == spec_item_has_image(item@),
{
    match &item.image_png {
        Some(bytes) => bytes.len() > 0,
        None => false,
    }
}

/// Whether the entry should be written as its image: it has one and its text is a placeholder.
pub fn item_should_prefer_image_payload(item: &StoredClipboardItem) -> (r: bool)
    ensures
        r == spec_prefers_image(item@),
{
    item_has_image(item) && match &item.full_text {
        Some(t) => is_image_placeholder_text(t.as_str()),
        None => false,
    }
}

/// The clipboard payload that replays a history entry.
pub fn payload_for_item(item: &StoredClipboardItem) -> (p: ClipboardPayload)
    ensures
        p@ == spec_payload_for_item(item@),
{
    let text = non_empty(item.full_text.as_ref());
    let html = non_empty(item.html_text.as_ref());
    let rtf = non_empty(item.rtf_text.as_ref());
    let png_bytes: Option<Vec<u8>> = match &item.image_png {
        Some(b) => if b.len() > 0 {
            Some(clone_bytes(b))
        } else {
            None
        },
        None => None,
    };
    assert(opt_bytes(png_bytes) == non_empty_bytes(item@.image_png));

    if item_should_prefer_image_payload(item) {
        return match png_bytes {
            Some(png_bytes) => ClipboardPayload::Image { png_bytes },
            None => ClipboardPayload::Empty,
        };
    }
    if crate::text::str_equal(item.kind.as_str(), "text") {
        if rtf.is_some() {
            ClipboardPayload::RichText { text, html, rtf }
        } else if let Some(html) = html {
            ClipboardPayload::Html { text, html }
        } else if let Some(text) = text {
            ClipboardPayload::Text { text }
        } else {
            ClipboardPayload::Empty
        }
    } else if crate::text::str_equal(item.kind.as_str(), "mixed") {
        if text.is_some() || html.is_some() || png_bytes.is_some() {
            ClipboardPayload::Mixed { text, html, png_bytes }
        } else if rtf.is_some() {
            ClipboardPayload::RichText { text: None, html: None, rtf }
        } else {
            ClipboardPayload::Empty
        }
    } else {
        if text.is_some() && html.is_none() && rtf.is_none() && png_bytes.is_none() {
            ClipboardPayload::Text { text: text.unwrap() }
        } else if html.is_some() && rtf.is_none() && png_bytes.is_none() {
            ClipboardPayload::Html { text, html: html.unwrap() }
        } else if let Some(png) = png_bytes {
            if text.is_some() || html.is_some() || rtf.is_some() {
                ClipboardPayload::Mixed { text, html, png_bytes: Some(png) }
            } else {
                ClipboardPayload::Image { png_bytes: png }
            }
        } else if rtf.is_some() {
            ClipboardPayload::RichText { text, html, rtf }
        } else {
            ClipboardPayload::Empty
        }
    }
}

/// The platform family whose clipboard plugin writes the payload.
pub enum PlatformFamily {
    Windows,
    MacOs,
    Other,
}

/// The single-format payload that the clipboard plugin can write in place of a richer one:
/// the text first, else the HTML, else the RTF or the image.
pub open spec fn spec_plugin_fallback(p: PayloadView) -> PayloadView {
    match p {
        PayloadView::Html { text, html } => match text {
            Some(t) => PayloadView::Text { text: t },
            None => PayloadView::Html { text: None, html },
        },
        PayloadView::RichText { text, html, rtf } => match text {
            Some(t) => PayloadView::Text { text: t },
            None => match html {
                Some(h) => PayloadView::Html { text: None, html: h },
                None => match rtf {
                    Some(r) => PayloadView::RichText { text: None, html: None, rtf: Some(r) },
                    None => PayloadView::Empty,
                },
            },
        },
        PayloadView::Mixed { text, html, png_bytes } => match text {
            Some(t) => PayloadView::Text { text: t },
            None => match html {
                Some(h) => PayloadView::Html { text: None, html: h },
                None => match png_bytes {
                    Some(b) => PayloadView::Image { png_bytes: b },
                    None => PayloadView::Empty,
                },
            },
        },
        other => other,
    }
}

/// Windows and macOS replay mixed payloads; elsewhere a mixed payload falls back to one format.
pub open spec fn spec_degrade_plugin_only(p: PayloadView, platform: PlatformFamily) -> PayloadView {
    match platform {
        PlatformFamily::Other => match p {
            PayloadView::Mixed { .. } => spec_plugin_fallback(p),
            other => other,
        },
        _ => p,
    }
}

/// The payload for the clipboard plugin when the native writer failed.
pub fn plugin_fallback_payload(payload: ClipboardPayload) -> (r: ClipboardPayload)
    ensures
        r@ == spec_plugin_fallback(payload@),
{
    match payload {
        ClipboardPayload::Html { text, html } => {
            if let Some(text) = text {
                ClipboardPayload::Text { text }
            } else {
                ClipboardPayload::Html { text: None, html }
            }
        },
        ClipboardPayload::RichText { text, html, rtf } => {
            if let Some(text) = text {
                ClipboardPayload::Text { text }
            } else if let Some(html) = html {
                ClipboardPayload::Html { text: None, html }
            } else if let Some(rtf) = rtf {
                ClipboardPayload::RichText { text: None, html: None, rtf: Some(rtf) }
            } else {
                ClipboardPayload::Empty
            }
        },
        ClipboardPayload::Mixed { text, html, png_bytes } => {
            if let Some(text) = text {
                ClipboardPayload::Text { text }
            } else if let Some(html) = html {
                ClipboardPayload::Html { text: None, html }
            } else if let Some(png_bytes) = png_bytes {
                ClipboardPayload::Image { png_bytes }
            } else {
                ClipboardPayload::Empty
            }
        },
        other => other,
    }
}

/// The payload that the clipboard plugin writes on the given platform.
pub fn degrade_plugin_only_payload(payload: ClipboardPayload, platform: PlatformFamily) -> (r:
    ClipboardPayload)
    ensures
        r@ == spec_degrade_plugin_only(payload@, platform),
{
    match platform {
        PlatformFamily::Other => match payload {
            ClipboardPayload::Mixed { .. } => plugin_fallback_payload(payload),
            other => other,
        },
        _ => payload,
    }
}

/// A fallback payload never holds more than one format: it is never mixed, and falling back
/// again changes nothing.
pub proof fn law_plugin_fallback_is_single_format(p: PayloadView)
    ensures
        !(spec_plugin_fallback(p) is Mixed),
        spec_plugin_fallback(spec_plugin_fallback(p)) == spec_plugin_fallback(p),
{
}

/// On platforms without mixed replay the plugin never receives a mixed payload, and every
/// payload that is not mixed reaches it unchanged.
pub proof fn law_degrade_plugin_only(p: PayloadView, platform: PlatformFamily)
    ensures
        platform is Other ==> !(spec_degrade_plugin_only(p, platform) is Mixed),
        !(p is Mixed) ==> spec_degrade_plugin_only(p, platform) == p,
        !(platform is Other) ==> spec_degrade_plugin_only(p, platform) == p,
{
}


/// How long the clipboard is given to settle after a payload is written before pasting, in
/// milliseconds: images take longest, markup longer than plain text.
pub fn clipboard_settle_delay_ms(payload: &ClipboardPayload) -> (r: u64)
    ensures
        r == match payload@ {
            PayloadView::Image { .. } => 120u64,
            PayloadView::RichText { .. } | PayloadView::Html { .. } => 80u64,
            _ => 40u64,
        },
{
    match payload {
        ClipboardPayload::Image { .. } => 120,
        ClipboardPayload::RichText { .. } | ClipboardPayload::Html { .. } => 80,
        _ => 40,
    }
}

/// Where the markup of a native clipboard write comes from.
pub enum MarkupSource {
    /// No markup is written.
    Nothing,
    /// This markup, framed as the clipboard's HTML format wants it.
    CfHtml(String),
    /// The markup that the rich-text conversion builds for the mixed entry and the paste target.
    MixedItem,
}

/// The markup source as a value.
pub enum MarkupView {
    Nothing,
    CfHtml(Seq<char>),
    MixedItem,
}

impl View for MarkupSource {
    type V = MarkupView;

    open spec fn view(&self) -> MarkupView {
        match self {
            MarkupSource::Nothing => MarkupView::Nothing,
            MarkupSource::CfHtml(h) => MarkupView::CfHtml(h@),
            MarkupSource::MixedItem => MarkupView::MixedItem,
        }
    }
}

/// What a native write of a payload puts on the clipboard: its text, the source of its markup
/// and its image.
pub struct PayloadWrite {
    pub text: Option<String>,
    pub markup: MarkupSource,
    pub png_bytes: Option<Vec<u8>>,
}

/// The parts of the native write that replays a payload, or nothing when the clipboard is left
/// as it is: an empty payload, or rich text with neither markup nor text. A mixed payload is
/// written from the entry itself: its full text, the markup built for it, and its image.
pub open spec fn spec_payload_write_parts(
    item: ItemView,
    p: PayloadView,
) -> Option<(Option<Seq<char>>, MarkupView, Option<Seq<u8>>)> {
    match p {
        PayloadView::Empty => None,
        PayloadView::Text { text } => Some((Some(text), MarkupView::Nothing, None)),
        PayloadView::Html { text, html } => Some((text, MarkupView::CfHtml(html), None)),
        PayloadView::Image { png_bytes } => Some((None, MarkupView::Nothing, Some(png_bytes))),
        PayloadView::RichText { text, html, rtf } => match html {
            Some(h) => Some((text, MarkupView::CfHtml(h), None)),
            None => match text {
                Some(t) => Some((Some(t), MarkupView::Nothing, None)),
                None => None,
            },
        },
        PayloadView::Mixed { .. } => Some((item.full_text, MarkupView::MixedItem, item.image_png)),
    }
}

/// Decides what the native writer puts on the clipboard for a payload of a history entry.
pub fn payload_write_parts(item: &StoredClipboardItem, payload: &ClipboardPayload) -> (r: Option<PayloadWrite>)
    ensures
        match r {
            Some(w) => spec_payload_write_parts(item@, payload@) == Some(
                (opt_str(w.text), w.markup@, opt_bytes(w.png_bytes)),
            ),
            None => spec_payload_write_parts(item@, payload@) is None,
        },
{
    match payload {
        ClipboardPayload::Empty => None,
        ClipboardPayload::Text { text } => Some(
            PayloadWrite { text: Some(text.clone()), markup: MarkupSource::Nothing, png_bytes: None },
        ),
        ClipboardPayload::Html { text, html } => Some(
            PayloadWrite {
                text: clone_opt_string(text),
                markup: MarkupSource::CfHtml(html.clone()),
                png_bytes: None,
            },
        ),
        ClipboardPayload::Image { png_bytes } => Some(
            PayloadWrite {
                text: None,
                markup: MarkupSource::Nothing,
                png_bytes: Some(clone_bytes(png_bytes)),
            },
        ),
        ClipboardPayload::RichText { text, html, rtf: _ } => match html {
            Some(h) => Some(
                PayloadWrite {
                    text: clone_opt_string(text),
                    markup: MarkupSource::CfHtml(h.clone()),
                    png_bytes: None,
                },
            ),
            None => match text {
                Some(t) => Some(
                    PayloadWrite { text: Some(t.clone()), markup: MarkupSource::Nothing, png_bytes: None },
                ),
                None => None,
            },
        },
        ClipboardPayload::Mixed { .. } => Some(
            PayloadWrite {
                text: clone_opt_string(&item.full_text),
                markup: MarkupSource::MixedItem,
                png_bytes: clone_opt_bytes(&item.image_png),
            },
        ),
    }
}

} // verus!

