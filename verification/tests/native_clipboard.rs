use power_paste::dib::dib_bytes_from_png_bytes;
use power_paste::formats::{
    read_encoded_image, read_snapshot, write_clipboard_payload_native, write_image_to_clipboard,
    ClipboardEntry,
};
use power_paste::native::{read_html, set_clipboard_utf8_text};
use power_paste::wide::{read_unicode_text, set_clipboard_unicode_text};

fn png_of(width: u32, height: u32, pixels: Vec<u8>) -> Vec<u8> {
    let image = image::RgbaImage::from_raw(width, height, pixels).expect("pixels");
    let mut out = Vec::new();
    image::DynamicImage::ImageRgba8(image)
        .write_to(&mut std::io::Cursor::new(&mut out), image::ImageFormat::Png)
        .expect("png");
    out
}

#[test]
fn bitmap_header_describes_an_uncompressed_bottom_up_image() {
    let png = png_of(1, 2, vec![10, 20, 30, 40, 50, 60, 70, 80]);
    let dib = dib_bytes_from_png_bytes(&png).ok().expect("dib");
    assert_eq!(dib.len(), 40 + 8);
    assert_eq!(&dib[0..4], &[40, 0, 0, 0]);
    assert_eq!(&dib[4..8], &[1, 0, 0, 0]);
    assert_eq!(&dib[8..12], &[2, 0, 0, 0]);
    assert_eq!(&dib[12..14], &[1, 0]);
    assert_eq!(&dib[14..16], &[32, 0]);
    assert_eq!(&dib[16..20], &[0, 0, 0, 0]);
    assert_eq!(&dib[20..24], &[8, 0, 0, 0]);
    assert!(dib[24..40].iter().all(|byte| *byte == 0));
}

#[test]
fn bitmap_rows_are_flipped_and_channels_swapped() {
    let png = png_of(2, 2, vec![
        1, 2, 3, 4, 5, 6, 7, 8, // top row
        9, 10, 11, 12, 13, 14, 15, 16, // bottom row
    ]);
    let dib = dib_bytes_from_png_bytes(&png).ok().expect("dib");
    assert_eq!(
        &dib[40..],
        &[11, 10, 9, 12, 15, 14, 13, 16, 3, 2, 1, 4, 7, 6, 5, 8]
    );
}

#[test]
fn bitmap_of_undecodable_data_is_an_error() {
    let error = dib_bytes_from_png_bytes(b"not an image").err().expect("error");
    assert!(!error.to_string().is_empty());
}

#[test]
fn wide_text_is_utf16_with_a_terminating_zero() {
    let bytes = set_clipboard_unicode_text("A\u{20ac}\u{1f600}");
    assert_eq!(
        bytes,
        vec![0x41, 0, 0xAC, 0x20, 0x3D, 0xD8, 0x00, 0xDE, 0, 0]
    );
    assert_eq!(set_clipboard_unicode_text(""), vec![0, 0]);
}

#[test]
fn wide_text_reads_back_what_was_written() {
    let bytes = set_clipboard_unicode_text("  A\u{20ac}\u{1f600} ");
    assert_eq!(read_unicode_text(&bytes).as_deref(), Some("A\u{20ac}\u{1f600}"));
}

#[test]
fn wide_text_stops_at_the_first_zero_and_rejects_lone_surrogates() {
    assert_eq!(read_unicode_text(&vec![0x68, 0, 0x69, 0, 0, 0, 0x78, 0]).as_deref(), Some("hi"));
    assert_eq!(read_unicode_text(&vec![0x3D, 0xD8, 0x41, 0]), None);
    assert_eq!(read_unicode_text(&vec![0x20, 0, 0x0A, 0]), None);
    assert_eq!(read_unicode_text(&vec![0x41]), None);
}

#[test]
fn html_format_is_trimmed_of_nul_and_whitespace() {
    assert_eq!(read_html(&b"\0 <b>x</b>\n\0".to_vec()).as_deref(), Some("<b>x</b>"));
    assert_eq!(read_html(&b"\0\0  ".to_vec()), None);
    assert_eq!(read_html(&vec![0x61, 0xFF]).as_deref(), Some("a\u{fffd}"));
}

#[test]
fn utf8_clipboard_text_ends_with_nul() {
    assert_eq!(set_clipboard_utf8_text("h\u{e9}"), vec![0x68, 0xC3, 0xA9, 0]);
}

#[test]
fn native_write_puts_text_markup_and_image_in_order() {
    let png = png_of(1, 1, vec![1, 2, 3, 4]);
    let write = write_clipboard_payload_native(Some("hi"), Some("<b>hi</b>"), Some(&png));
    assert!(write.error.is_none());
    assert_eq!(write.entries.len(), 5);
    assert_eq!(write.entries[0], ClipboardEntry::UnicodeText(vec![0x68, 0, 0x69, 0, 0, 0]));
    assert_eq!(write.entries[1], ClipboardEntry::AnsiText("hi".into()));
    assert_eq!(write.entries[2], ClipboardEntry::Html(b"<b>hi</b>\0".to_vec()));
    assert_eq!(write.entries[3], ClipboardEntry::Png(png.clone()));
    match &write.entries[4] {
        ClipboardEntry::Dib(bytes) => assert_eq!(&bytes[40..], &[3, 2, 1, 4]),
        other => panic!("unexpected entry {other:?}"),
    }
}

#[test]
fn native_write_skips_empty_parts() {
    let write = write_clipboard_payload_native(Some(""), None, Some(&[]));
    assert!(write.entries.is_empty());
    assert!(write.error.is_none());
}

#[test]
fn native_write_reports_an_image_that_does_not_decode_after_its_png() {
    let write = write_image_to_clipboard(b"broken");
    assert_eq!(write.entries, vec![ClipboardEntry::Png(b"broken".to_vec())]);
    assert!(write.error.is_some());
}

#[test]
fn encoded_image_prefers_the_first_readable_format() {
    let png = png_of(3, 2, vec![0; 24]);
    let image = read_encoded_image(&vec![Some(png.clone()), None, None]).expect("image");
    assert_eq!(image.png_bytes, png);
    assert_eq!(image.original_bytes, Some(png.clone()));
    assert_eq!(image.original_mime.as_deref(), Some("image/png"));
    assert_eq!((image.width, image.height), (3, 2));

    let fallback = read_encoded_image(&vec![Some(b"junk".to_vec()), None, Some(png.clone())])
        .expect("fallback");
    assert_eq!(fallback.original_mime.as_deref(), Some("image/gif"));
    assert_eq!((fallback.width, fallback.height), (3, 2));

    assert!(read_encoded_image(&vec![None, Some(b"junk".to_vec())]).is_none());
}

#[test]
fn native_snapshot_reads_text_markup_and_image() {
    let text = set_clipboard_unicode_text("copied");
    let html = b"<i>copied</i>\0".to_vec();
    let snapshot = read_snapshot(Some(&text), Some(&html), &vec![None, None, None]);
    assert_eq!(snapshot.text.as_deref(), Some("copied"));
    assert_eq!(snapshot.html.as_deref(), Some("<i>copied</i>"));
    assert!(snapshot.rtf.is_none());
    assert!(snapshot.image.is_none());
    assert!(snapshot.files.is_empty());
    assert!(!snapshot.is_empty());
    assert!(read_snapshot(None, None, &Vec::new()).is_empty());
}

#[test]
fn html_format_reads_back_the_markup_written() {
    let bytes = set_clipboard_utf8_text("  <p>caf\u{e9}</p>\n");
    assert_eq!(read_html(&bytes).as_deref(), Some("<p>caf\u{e9}</p>"));
}
