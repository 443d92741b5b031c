use power_paste::capture::{build_item_with_id, capture_kind, capture_matching_text, capture_text};
use power_paste::models::{CapturedClipboard, StoredClipboardItem};
use power_paste::payload::{
    clipboard_settle_delay_ms, is_image_placeholder_text, item_should_prefer_image_payload,
    non_empty, payload_for_item, payload_write_parts, plugin_fallback_payload, ClipboardPayload,
    MarkupSource,
};

fn item(kind: &str, text: Option<&str>, html: Option<&str>, rtf: Option<&str>, png: Option<Vec<u8>>) -> StoredClipboardItem {
    StoredClipboardItem {
        id: "id".into(),
        kind: kind.into(),
        created_at: "2024-01-01T00:00:00+00:00".into(),
        pinned_at: None,
        preview: String::new(),
        full_text: text.map(Into::into),
        html_text: html.map(Into::into),
        rtf_text: rtf.map(Into::into),
        image_png: png,
        image_original_bytes: None,
        image_original_mime: None,
        image_width: None,
        image_height: None,
        source_app: None,
        source_icon_data_url: None,
        hash: "h".into(),
        pinned: false,
        favorite: false,
    }
}

#[test]
fn placeholder_texts_make_images_win() {
    assert!(is_image_placeholder_text(" [IMAGE] "));
    assert!(is_image_placeholder_text("img"));
    assert!(!is_image_placeholder_text("picture"));
    let entry = item("mixed", Some("[image]"), Some("<img>"), None, Some(vec![1]));
    assert!(item_should_prefer_image_payload(&entry));
    assert!(matches!(payload_for_item(&entry), ClipboardPayload::Image { png_bytes } if png_bytes == vec![1]));
    let no_png = item("mixed", Some("[image]"), None, None, Some(Vec::new()));
    assert!(!item_should_prefer_image_payload(&no_png));
}

#[test]
fn text_entries_prefer_rich_formats() {
    let rich = item("text", Some("t"), Some("<b>t</b>"), Some("{\\rtf1 t}"), None);
    assert!(matches!(payload_for_item(&rich), ClipboardPayload::RichText { rtf: Some(_), html: Some(_), text: Some(_) }));
    let html = item("text", Some(" t "), Some("<b>t</b>"), Some("  "), None);
    match payload_for_item(&html) {
        ClipboardPayload::Html { text, html } => {
            assert_eq!(text.as_deref(), Some("t"));
            assert_eq!(html, "<b>t</b>");
        }
        _ => panic!("html payload"),
    }
    assert!(matches!(payload_for_item(&item("text", Some("t"), None, None, None)), ClipboardPayload::Text { text } if text == "t"));
    assert!(matches!(payload_for_item(&item("text", Some(" "), None, None, None)), ClipboardPayload::Empty));
}

#[test]
fn mixed_and_other_entries_keep_what_they_have() {
    let mixed = item("mixed", Some("t"), None, None, Some(vec![7]));
    assert!(matches!(payload_for_item(&mixed), ClipboardPayload::Mixed { text: Some(_), html: None, png_bytes: Some(_) }));
    let rtf_only = item("mixed", None, None, Some("r"), None);
    assert!(matches!(payload_for_item(&rtf_only), ClipboardPayload::RichText { rtf: Some(_), .. }));
    let image = item("image", None, None, None, Some(vec![9]));
    assert!(matches!(payload_for_item(&image), ClipboardPayload::Image { .. }));
    let link = item("link", Some("https://x"), None, None, None);
    assert!(matches!(payload_for_item(&link), ClipboardPayload::Text { .. }));
    let both = item("link", Some("a"), Some("<a>"), None, Some(vec![1]));
    assert!(matches!(payload_for_item(&both), ClipboardPayload::Mixed { .. }));
}

#[test]
fn plugin_fallback_keeps_one_format() {
    let html = ClipboardPayload::Html { text: None, html: "<p>".into() };
    assert!(matches!(plugin_fallback_payload(html), ClipboardPayload::Html { text: None, .. }));
    let rich = ClipboardPayload::RichText { text: None, html: None, rtf: Some("r".into()) };
    assert!(matches!(plugin_fallback_payload(rich), ClipboardPayload::RichText { rtf: Some(_), text: None, html: None }));
    let empty = ClipboardPayload::Mixed { text: None, html: None, png_bytes: None };
    assert!(matches!(plugin_fallback_payload(empty), ClipboardPayload::Empty));
    assert_eq!(non_empty(Some(&"  x ".to_string())).as_deref(), Some("x"));
    assert_eq!(non_empty(Some(&" ".to_string())), None);
}

#[test]
fn paste_waits_longest_for_images() {
    assert_eq!(clipboard_settle_delay_ms(&ClipboardPayload::Image { png_bytes: vec![1] }), 120);
    assert_eq!(clipboard_settle_delay_ms(&ClipboardPayload::Html { text: None, html: "h".into() }), 80);
    assert_eq!(clipboard_settle_delay_ms(&ClipboardPayload::Text { text: "t".into() }), 40);
}

#[test]
fn captures_become_entries_of_their_kind() {
    let mixed = CapturedClipboard::Mixed {
        text: "hello world".into(),
        html_text: Some("<p>hello</p>".into()),
        rtf_text: None,
        png_bytes: None,
        hash: "m".into(),
        image_width: 0,
        image_height: 5,
    };
    assert_eq!(capture_kind(&mixed), "mixed");
    assert_eq!(capture_text(&mixed).as_deref(), Some("hello world"));
    assert_eq!(capture_matching_text(&mixed).as_deref(), Some("hello world"));
    let entry = build_item_with_id("e1".into(), mixed, "T", Some("App".into()), None);
    assert_eq!(entry.id, "e1");
    assert_eq!(entry.kind, "mixed");
    assert_eq!(entry.preview, "hello world");
    assert_eq!(entry.image_width, None);
    assert_eq!(entry.image_height, Some(5));
    assert_eq!(entry.source_app.as_deref(), Some("App"));
    assert_eq!(entry.created_at, "T");

    let image = CapturedClipboard::Image {
        png_bytes: vec![1],
        original_bytes: None,
        original_mime: None,
        hash: "i".into(),
        preview: "Image 1x1".into(),
        image_width: 1,
        image_height: 1,
    };
    assert_eq!(capture_text(&image), None);
    assert_eq!(capture_matching_text(&image), None);
    let entry = build_item_with_id("e2".into(), image, "T", None, None);
    assert_eq!(entry.kind, "image");
    assert_eq!(entry.preview, "Image 1x1");
    assert_eq!(entry.image_data_url().as_deref(), Some("data:image/png;base64,AQ=="));
    assert_eq!(entry.image_display_byte_size(), Some(1));
}

#[test]
fn payloads_become_the_parts_of_a_native_write() {
    let entry = item("mixed", Some("full text"), Some("<p>x</p>"), None, Some(vec![7, 8]));
    assert!(payload_write_parts(&entry, &ClipboardPayload::Empty).is_none());
    let text = payload_write_parts(&entry, &ClipboardPayload::Text { text: "t".into() }).expect("text");
    assert_eq!(text.text.as_deref(), Some("t"));
    assert!(matches!(text.markup, MarkupSource::Nothing));
    let html = payload_write_parts(&entry, &ClipboardPayload::Html { text: None, html: "<b>h</b>".into() }).expect("html");
    assert!(matches!(html.markup, MarkupSource::CfHtml(ref h) if h == "<b>h</b>"));
    assert_eq!(html.text, None);
    let image = payload_write_parts(&entry, &ClipboardPayload::Image { png_bytes: vec![1, 2] }).expect("image");
    assert_eq!(image.png_bytes, Some(vec![1, 2]));
    let rich = ClipboardPayload::RichText { text: Some("r".into()), html: None, rtf: Some("{\\rtf1 r}".into()) };
    let rich = payload_write_parts(&entry, &rich).expect("rich text");
    assert_eq!(rich.text.as_deref(), Some("r"));
    assert!(matches!(rich.markup, MarkupSource::Nothing));
    let bare_rtf = ClipboardPayload::RichText { text: None, html: None, rtf: Some("{\\rtf1 r}".into()) };
    assert!(payload_write_parts(&entry, &bare_rtf).is_none());
    let mixed = ClipboardPayload::Mixed { text: Some("other".into()), html: None, png_bytes: None };
    let mixed = payload_write_parts(&entry, &mixed).expect("mixed");
    assert_eq!(mixed.text.as_deref(), Some("full text"));
    assert!(matches!(mixed.markup, MarkupSource::MixedItem));
    assert_eq!(mixed.png_bytes, Some(vec![7, 8]));
}
