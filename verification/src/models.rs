use vstd::prelude::*;

verus! {

pub open spec fn opt_str(o: Option<String>) -> Option<Seq<char>> {
    match o {
        Some(s) => Some(s@),
        None => None,
    }
}

pub open spec fn opt_bytes(o: Option<Vec<u8>>) -> Option<Seq<u8>> {
    match o {
        Some(b) => Some(b@),
        None => None,
    }
}

/// One entry of the clipboard history.
pub struct StoredClipboardItem {
    pub id: String,
    pub kind: String,
    pub created_at: String,
    pub pinned_at: Option<String>,
    pub preview: String,
    pub full_text: Option<String>,
    pub html_text: Option<String>,
    pub rtf_text: Option<String>,
    pub image_png: Option<Vec<u8>>,
    pub image_original_bytes: Option<Vec<u8>>,
    pub image_original_mime: Option<String>,
    pub image_width: Option<u32>,
    pub image_height: Option<u32>,
    pub source_app: Option<String>,
    pub source_icon_data_url: Option<String>,
    pub hash: String,
    pub pinned: bool,
    pub favorite: bool,
}

/// The mathematical content of a history entry.
pub struct ItemView {
    pub id: Seq<char>,
    pub kind: Seq<char>,
    pub created_at: Seq<char>,
    pub pinned_at: Option<Seq<char>>,
    pub preview: Seq<char>,
    pub full_text: Option<Seq<char>>,
    pub html_text: Option<Seq<char>>,
    pub rtf_text: Option<Seq<char>>,
    pub image_png: Option<Seq<u8>>,
    pub image_original_bytes: Option<Seq<u8>>,
    pub image_original_mime: Option<Seq<char>>,
    pub image_width: Option<u32>,
    pub image_height: Option<u32>,
    pub source_app: Option<Seq<char>>,
    pub source_icon_data_url: Option<Seq<char>>,
    pub hash: Seq<char>,
    pub pinned: bool,
    pub favorite: bool,
}

impl View for StoredClipboardItem {
    type V = ItemView;

    open spec fn view(&self) -> ItemView {
        ItemView {
            id: self.id@,
            kind: self.kind@,
            created_at: self.created_at@,
            pinned_at: opt_str(self.pinned_at),
            preview: self.preview@,
            full_text: opt_str(self.full_text),
            html_text: opt_str(self.html_text),
            rtf_text: opt_str(self.rtf_text),
            image_png: opt_bytes(self.image_png),
            image_original_bytes: opt_bytes(self.image_original_bytes),
            image_original_mime: opt_str(self.image_original_mime),
            image_width: self.image_width,
            image_height: self.image_height,
            source_app: opt_str(self.source_app),
            source_icon_data_url: opt_str(self.source_icon_data_url),
            hash: self.hash@,
            pinned: self.pinned,
            favorite: self.favorite,
        }
    }
}

/// What the clipboard watcher captured, before it is stored.
pub enum CapturedClipboard {
    Text { text: String, html_text: Option<String>, rtf_text: Option<String>, hash: String },
    Link { text: String, html_text: Option<String>, rtf_text: Option<String>, hash: String },
    Image {
        png_bytes: Vec<u8>,
        original_bytes: Option<Vec<u8>>,
        original_mime: Option<String>,
        hash: String,
        preview: String,
        image_width: u32,
        image_height: u32,
    },
    Mixed {
        text: String,
        html_text: Option<String>,
        rtf_text: Option<String>,
        png_bytes: Option<Vec<u8>>,
        hash: String,
        image_width: u32,
        image_height: u32,
    },
}

/// The mathematical content of a capture.
pub enum CaptureView {
    Text {
        text: Seq<char>,
        html_text: Option<Seq<char>>,
        rtf_text: Option<Seq<char>>,
        hash: Seq<char>,
    },
    Link {
        text: Seq<char>,
        html_text: Option<Seq<char>>,
        rtf_text: Option<Seq<char>>,
        hash: Seq<char>,
    },
    Image {
        png_bytes: Seq<u8>,
        original_bytes: Option<Seq<u8>>,
        original_mime: Option<Seq<char>>,
        hash: Seq<char>,
        preview: Seq<char>,
        image_width: u32,
        image_height: u32,
    },
    Mixed {
        text: Seq<char>,
        html_text: Option<Seq<char>>,
        rtf_text: Option<Seq<char>>,
        png_bytes: Option<Seq<u8>>,
        hash: Seq<char>,
        image_width: u32,
        image_height: u32,
    },
}

impl View for CapturedClipboard {
    type V = CaptureView;

    open spec fn view(&self) -> CaptureView {
        match self {
            CapturedClipboard::Text { text, html_text, rtf_text, hash } => CaptureView::Text {
                text: text@,
                html_text: opt_str(*html_text),
                rtf_text: opt_str(*rtf_text),
                hash: hash@,
            },
            CapturedClipboard::Link { text, html_text, rtf_text, hash } => CaptureView::Link {
                text: text@,
                html_text: opt_str(*html_text),
                rtf_text: opt_str(*rtf_text),
                hash: hash@,
            },
            CapturedClipboard::Image {
                png_bytes,
                original_bytes,
                original_mime,
                hash,
                preview,
                image_width,
                image_height,
            } => CaptureView::Image {
                png_bytes: png_bytes@,
                original_bytes: opt_bytes(*original_bytes),
                original_mime: opt_str(*original_mime),
                hash: hash@,
                preview: preview@,
                image_width: *image_width,
                image_height: *image_height,
            },
            CapturedClipboard::Mixed {
                text,
                html_text,
                rtf_text,
                png_bytes,
                hash,
                image_width,
                image_height,
            } => CaptureView::Mixed {
                text: text@,
                html_text: opt_str(*html_text),
                rtf_text: opt_str(*rtf_text),
                png_bytes: opt_bytes(*png_bytes),
                hash: hash@,
                image_width: *image_width,
                image_height: *image_height,
            },
        }
    }
}

/// A copy of an optional string.
pub fn clone_opt_string(o: &Option<String>) -> (r: Option<String>)
    ensures
        opt_str(r) == opt_str(*o),
{
    match o {
        Some(s) => Some(s.clone()),
        None => None,
    }
}

/// A copy of a byte vector.
pub fn clone_bytes(b: &Vec<u8>) -> (r: Vec<u8>)
    ensures
        r@ == b@,
{
    let r = b.clone();
    assert(r@ =~= b@);
    r
}

/// A copy of an optional byte vector.
pub fn clone_opt_bytes(o: &Option<Vec<u8>>) -> (r: Option<Vec<u8>>)
    ensures
        opt_bytes(r) == opt_bytes(*o),
{
    match o {
        Some(b) => Some(clone_bytes(b)),
        None => None,
    }
}

} // verus!
