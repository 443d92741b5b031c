use vstd::prelude::*;
use vstd::utf8::encode_utf8;

use crate::dib::{dib_bytes_from_png_bytes, spec_dib_bytes_from_png};
use crate::models::{clone_bytes, opt_bytes, opt_str};
use crate::native::{read_html, set_clipboard_utf8_text, spec_read_html};
use crate::text::owned;
use crate::update::AppError;
use crate::wide::{read_unicode_text, set_clipboard_unicode_text, spec_read_unicode_text, spec_unicode_text_bytes};

verus! {

/// One format that the native writer puts on the clipboard, with its bytes.
#[derive(Debug, Clone, PartialEq, Eq)]
pub enum ClipboardEntry {
    /// The wide-text format.
    UnicodeText(Vec<u8>),
    /// The ANSI text format; the system converts the text to its code page when it is written.
    AnsiText(String),
    /// The registered `HTML Format`.
    Html(Vec<u8>),
    /// The registered `PNG` format.
    Png(Vec<u8>),
    /// The device-independent bitmap format.
    Dib(Vec<u8>),
}

/// A clipboard entry as values.
pub enum EntryView {
    UnicodeText(Seq<u8>),
    AnsiText(Seq<char>),
    Html(Seq<u8>),
    Png(Seq<u8>),
    Dib(Seq<u8>),
}

impl View for ClipboardEntry {
    type V = EntryView;

    open spec fn view(&self) -> EntryView {
        match self {
            ClipboardEntry::UnicodeText(b) => EntryView::UnicodeText(b@),
            ClipboardEntry::AnsiText(t) => EntryView::AnsiText(t@),
            ClipboardEntry::Html(b) => EntryView::Html(b@),
            ClipboardEntry::Png(b) => EntryView::Png(b@),
            ClipboardEntry::Dib(b) => EntryView::Dib(b@),
        }
    }
}

/// What the native writer does: the entries it writes, in order, and the error it reports
/// after them, if any.
pub struct NativeClipboardWrite {
    pub entries: Vec<ClipboardEntry>,
    pub error: Option<AppError>,
}

/// The text entries: the text in both text formats, when it is not empty.
pub open spec fn text_entries(text: Option<Seq<char>>) -> Seq<EntryView> {
    match text {
        Some(t) if t.len() > 0 => seq![
            EntryView::UnicodeText(spec_unicode_text_bytes(t)),
            EntryView::AnsiText(t),
        ],
        _ => Seq::empty(),
    }
}

/// The HTML entry: the markup as UTF-8 with a terminating NUL, when it is not empty.
pub open spec fn html_entries(html: Option<Seq<char>>) -> Seq<EntryView> {
    match html {
        Some(h) if h.len() > 0 => seq![EntryView::Html(encode_utf8(h).push(0u8))],
        _ => Seq::empty(),
    }
}

/// The entries the native writer puts on the clipboard for a text, markup and an image: the
/// text formats, the HTML format, then the PNG and the bitmap made of it; when the bitmap
/// cannot be made, the entries before it are written and its error is reported.
pub open spec fn spec_native_write(
    text: Option<Seq<char>>,
    html: Option<Seq<char>>,
    png: Option<Seq<u8>>,
) -> (Seq<EntryView>, Option<Seq<char>>) {
    let before = text_entries(text) + html_entries(html);
    match png {
        Some(p) if p.len() > 0 => match spec_dib_bytes_from_png(p) {
            Ok(d) => (before + seq![EntryView::Png(p), EntryView::Dib(d)], None),
            Err(e) => (before.push(EntryView::Png(p)), Some(e)),
        },
        _ => (before, None),
    }
}

/// The entries as values.
pub open spec fn entries_view(entries: Seq<ClipboardEntry>) -> Seq<EntryView> {
    entries.map_values(|e: ClipboardEntry| e@)
}

/// The error of a write as its text.
pub open spec fn error_view(error: Option<AppError>) -> Option<Seq<char>> {
    match error {
        Some(e) => Some(e.spec_message()),
        None => None,
    }
}

fn push_entry(entries: &mut Vec<ClipboardEntry>, e: ClipboardEntry)
    ensures
        entries_view(final(entries)@) == entries_view(old(entries)@).push(e@),
{
    entries.push(e);
    assert(entries_view(final(entries)@) =~= entries_view(old(entries)@).push(e@));
}

/// Plans a native clipboard write of a text, markup and an image, each left out when absent
/// or empty.
pub fn write_clipboard_payload_native(text: Option<&str>, html: Option<&str>, png_bytes: Option<&[u8]>) -> (r: NativeClipboardWrite)
    ensures
        (entries_view(r.entries@), error_view(r.error)) == spec_native_write(
            match text {
                Some(t) => Some(t@),
                None => None,
            },
            match html {
                Some(h) => Some(h@),
                None => None,
            },
            match png_bytes {
                Some(p) => Some(p@),
                None => None,
            },
        ),
{
    let ghost tv: Option<Seq<char>> = match text {
        Some(t) => Some(t@),
        None => None,
    };
    let ghost hv: Option<Seq<char>> = match html {
        Some(h) => Some(h@),
        None => None,
    };
    let mut entries: Vec<ClipboardEntry> = Vec::new();
    assert(entries_view(entries@) =~= Seq::<EntryView>::empty());
    if let Some(t) = text {
        if !t.is_empty() {
            let u = set_clipboard_unicode_text(t);
            let a = owned(t);
            push_entry(&mut entries, ClipboardEntry::UnicodeText(u));
            push_entry(&mut entries, ClipboardEntry::AnsiText(a));
            assert(entries_view(entries@) =~= text_entries(tv));
        } else {
            assert(entries_view(entries@) =~= text_entries(tv));
        }
    } else {
        assert(entries_view(entries@) =~= text_entries(tv));
    }
    let ghost after_text = entries_view(entries@);
    if let Some(h) = html {
        if !h.is_empty() {
            let b = set_clipboard_utf8_text(h);
            push_entry(&mut entries, ClipboardEntry::Html(b));
            assert(entries_view(entries@) =~= after_text + html_entries(hv));
        } else {
            assert(entries_view(entries@) =~= after_text + html_entries(hv));
        }
    } else {
        assert(entries_view(entries@) =~= after_text + html_entries(hv));
    }
    let ghost before = entries_view(entries@);
    assert(before =~= text_entries(tv) + html_entries(hv));
    if let Some(p) = png_bytes {
        if p.len() > 0 {
            let mut png: Vec<u8> = Vec::new();
            for i in 0..p.len()
                invariant
                    png@ == p@.take(i as int),
            {
                png.push(p[i]);
                assert(p@.take(i + 1) =~= p@.take(i as int).push(p@[i as int]));
            }
            assert(p@.take(p.len() as int) =~= p@);
            push_entry(&mut entries, ClipboardEntry::Png(png));
            match dib_bytes_from_png_bytes(p) {
                Ok(d) => {
                    push_entry(&mut entries, ClipboardEntry::Dib(d));
                    assert(entries_view(entries@) =~= before + seq![EntryView::Png(p@), EntryView::Dib(d@)]);
                },
                Err(e) => {
                    return NativeClipboardWrite { entries, error: Some(e) };
                },
            }
        }
    }
    NativeClipboardWrite { entries, error: None }
}

/// Plans a native clipboard write of an image alone.
pub fn write_image_to_clipboard(png_bytes: &[u8]) -> (r: NativeClipboardWrite)
    ensures
        (entries_view(r.entries@), error_view(r.error)) == spec_native_write(None, None, Some(png_bytes@)),
{
    write_clipboard_payload_native(None, None, Some(png_bytes))
}

/// An image read from the clipboard.
pub struct ClipboardImage {
    pub png_bytes: Vec<u8>,
    pub original_bytes: Option<Vec<u8>>,
    pub original_mime: Option<String>,
    pub width: u32,
    pub height: u32,
}

/// What the clipboard holds, format by format.
pub struct ClipboardSnapshot {
    pub text: Option<String>,
    pub html: Option<String>,
    pub rtf: Option<String>,
    pub image: Option<ClipboardImage>,
    pub files: Vec<String>,
}

/// The width and height that the `image` crate reads from the header of encoded image data
/// in the format it guesses, or nothing when it cannot.
pub uninterp spec fn encoded_dimensions(data: Seq<u8>) -> Option<(u32, u32)>;

/// `image::guess_format` and `ImageReader::into_dimensions`.
#[verifier::external_body]
fn dimensions_from_encoded(data: &[u8]) -> (r: Option<(u32, u32)>)
    ensures
        r == encoded_dimensions(data@),
{
    let format = image::guess_format(data).ok()?;
    image::ImageReader::with_format(std::io::Cursor::new(data), format).into_dimensions().ok()
}

/// The PNG that the `image` crate writes for the decoded image data, or nothing when it
/// cannot.
pub uninterp spec fn reencoded_png(data: Seq<u8>) -> Option<Seq<u8>>;

/// `image::load_from_memory` and `DynamicImage::write_to` in PNG.
#[verifier::external_body]
fn png_reencode(data: &[u8]) -> (r: Option<Vec<u8>>)
    ensures
        opt_bytes(r) == reencoded_png(data@),
{
    let image = image::load_from_memory(data).ok()?;
    let mut out = Vec::new();
    image.write_to(&mut std::io::Cursor::new(&mut out), image::ImageFormat::Png).ok()?;
    Some(out)
}

/// The MIME types of the encoded image formats that the clipboard is read for, in order:
/// `PNG`, `JFIF`, `GIF`.
pub open spec fn encoded_image_mime(k: int) -> Seq<char> {
    if k == 0 {
        "image/png"@
    } else if k == 1 {
        "image/jpeg"@
    } else {
        "image/gif"@
    }
}

/// The PNG of encoded image data: the data itself when it is PNG, else its conversion.
pub open spec fn spec_png_from_encoded(data: Seq<u8>, mime: Seq<char>) -> Option<Seq<u8>> {
    if mime == "image/png"@ {
        Some(data)
    } else {
        reencoded_png(data)
    }
}

/// An image read from the clipboard, as values: PNG, original bytes and MIME type, width,
/// height.
pub type ImageView = (Seq<u8>, Option<Seq<u8>>, Option<Seq<char>>, u32, u32);

/// The image of one encoded format, when the format holds data whose size can be read and
/// that converts to PNG.
pub open spec fn encoded_candidate(data: Option<Seq<u8>>, k: int) -> Option<ImageView> {
    match data {
        Some(b) => match encoded_dimensions(b) {
            Some((w, h)) => match spec_png_from_encoded(b, encoded_image_mime(k)) {
                Some(png) => Some((png, Some(b), Some(encoded_image_mime(k)), w, h)),
                None => None,
            },
            None => None,
        },
        None => None,
    }
}

/// The first of the encoded formats, from position `k` on, that gives an image.
pub open spec fn first_encoded_image(formats: Seq<Option<Seq<u8>>>, k: int) -> Option<ImageView>
    decreases 3 - k,
{
    if k >= 3 || k < 0 {
        None
    } else {
        match encoded_candidate(if k < formats.len() { formats[k] } else { None }, k) {
            Some(i) => Some(i),
            None => first_encoded_image(formats, k + 1),
        }
    }
}

impl ClipboardImage {
    pub open spec fn spec_view(&self) -> ImageView {
        (self.png_bytes@, opt_bytes(self.original_bytes), opt_str(self.original_mime), self.width, self.height)
    }
}

fn mime_of_format(k: usize) -> (r: &'static str)
    requires
        k < 3,
    ensures
        r@ == encoded_image_mime(k as int),
{
    if k == 0 {
        "image/png"
    } else if k == 1 {
        "image/jpeg"
    } else {
        "image/gif"
    }
}

/// The image of the clipboard's encoded image formats, given the bytes each holds (`PNG`,
/// `JFIF`, `GIF`, in that order; `None` where the format is absent or empty): the first one
/// whose size can be read and that converts to PNG, with its original bytes and MIME type.
pub fn read_encoded_image(formats: &Vec<Option<Vec<u8>>>) -> (r: Option<ClipboardImage>)
    ensures
        match r {
            Some(i) => first_encoded_image(formats@.map_values(|f: Option<Vec<u8>>| opt_bytes(f)), 0)
                == Some(i.spec_view()),
            None => first_encoded_image(formats@.map_values(|f: Option<Vec<u8>>| opt_bytes(f)), 0) is None,
        },
{
    let ghost all = formats@.map_values(|f: Option<Vec<u8>>| opt_bytes(f));
    let mut k: usize = 0;
    while k < 3
        invariant
            all == formats@.map_values(|f: Option<Vec<u8>>| opt_bytes(f)),
            k <= 3,
            first_encoded_image(all, 0) == first_encoded_image(all, k as int),
        decreases 3 - k,
    {
        let mime = mime_of_format(k);
        let ghost slot: Option<Seq<u8>> = if k < all.len() {
            all[k as int]
        } else {
            None
        };
        if k < formats.len() {
            if let Some(bytes) = &formats[k] {
                assert(slot == Some(bytes@));
                if let Some((w, h)) = dimensions_from_encoded(bytes.as_slice()) {
                    let png = if crate::text::str_equal(mime, "image/png") {
                        Some(clone_bytes(bytes))
                    } else {
                        png_reencode(bytes.as_slice())
                    };
                    proof {
                        reveal_strlit("image/png");
                    }
                    if let Some(p) = png {
                        let img = ClipboardImage {
                            png_bytes: p,
                            original_bytes: Some(clone_bytes(bytes)),
                            original_mime: Some(owned(mime)),
                            width: w,
                            height: h,
                        };
                        return Some(img);
                    }
                }
            }
        }
        k += 1;
    }
    None
}

/// The snapshot that the native reader takes, as values.
pub open spec fn spec_read_snapshot(
    unicode_text: Option<Seq<u8>>,
    html: Option<Seq<u8>>,
    image_formats: Seq<Option<Seq<u8>>>,
) -> (Option<Seq<char>>, Option<Seq<char>>, Option<ImageView>) {
    (
        match unicode_text {
            Some(b) => spec_read_unicode_text(b),
            None => None,
        },
        match html {
            Some(b) => spec_read_html(b),
            None => None,
        },
        first_encoded_image(image_formats, 0),
    )
}

/// The snapshot that the native reader takes of the clipboard, given the bytes of its
/// wide-text format, its HTML format and its encoded image formats; it reads no RTF and no
/// files.
pub fn read_snapshot(
    unicode_text: Option<&Vec<u8>>,
    html: Option<&Vec<u8>>,
    image_formats: &Vec<Option<Vec<u8>>>,
) -> (r: ClipboardSnapshot)
    ensures
        ({
            let s = spec_read_snapshot(
                match unicode_text {
                    Some(b) => Some(b@),
                    None => None,
                },
                match html {
                    Some(b) => Some(b@),
                    None => None,
                },
                image_formats@.map_values(|f: Option<Vec<u8>>| opt_bytes(f)),
            );
            &&& opt_str(r.text) == s.0
            &&& opt_str(r.html) == s.1
            &&& match r.image {
                Some(i) => s.2 == Some(i.spec_view()),
                None => s.2 is None,
            }
        }),
        r.rtf is None,
        r.files@.len() == 0,
{
    let text = match unicode_text {
        Some(b) => read_unicode_text(b),
        None => None,
    };
    let html = match html {
        Some(b) => read_html(b),
        None => None,
    };
    ClipboardSnapshot {
        text,
        html,
        rtf: None,
        image: read_encoded_image(image_formats),
        files: Vec::new(),
    }
}

impl ClipboardSnapshot {
    /// A snapshot without text, markup or image, after which the plugin is asked instead.
    pub fn is_empty(&self) -> (r: bool)
        ensures
            r == (self.text is None && self.html is None && self.image is None),
    {
        self.text.is_none() && self.html.is_none() && self.image.is_none()
    }
}

} // verus!
