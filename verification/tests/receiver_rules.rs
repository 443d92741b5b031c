use base64::Engine;
use power_paste::imaging::{image_preview_png_from_bytes, receive_base64_image};
use power_paste::lan::{detect_image_mime, escape_header_value, escape_json, mobile_accent_palette, mobile_page};
use power_paste::names::{fallback_file_name, numbered_file_name, sanitize_message_id};
use power_paste::net::{dedupe_ipv4_candidates, ipv4_to_string, local_lan_ip, Ipv4};
use power_paste::routes::{route_request, HttpMethod, RouteAction};
use power_paste::transfer::{
    build_image_capture, build_qr_svg, classify_mobile_payload, image_upload_error,
    MobileClipboardPayload, MobileUpload,
};
use power_paste::url::{
    escape_url_component, percent_decode, query_param, query_param_decodable,
};
use power_paste::models::CapturedClipboard;
use power_paste::payload::PlatformFamily;
use power_paste::update::AppError;

fn png_of(width: u32, height: u32) -> Vec<u8> {
    let image = image::RgbaImage::from_raw(width, height, vec![200; (width * height * 4) as usize])
        .expect("pixels");
    let mut out = Vec::new();
    image::DynamicImage::ImageRgba8(image)
        .write_to(&mut std::io::Cursor::new(&mut out), image::ImageFormat::Png)
        .expect("png");
    out
}

#[test]
fn routes_need_the_session_token() {
    assert!(matches!(route_request(HttpMethod::Get, "/?token=abc", "abc"), RouteAction::Page));
    assert!(matches!(
        route_request(HttpMethod::Get, "/?token=bad", "abc"),
        RouteAction::Text { status: 403, body: "invalid token" }
    ));
    assert!(matches!(route_request(HttpMethod::Get, "/app-icon.png", "abc"), RouteAction::Icon));
    assert!(matches!(
        route_request(HttpMethod::Post, "/api/clipboard", "abc"),
        RouteAction::Json { status: 403, .. }
    ));
    assert!(matches!(
        route_request(HttpMethod::Get, "/nowhere?token=abc", "abc"),
        RouteAction::Text { status: 404, body: "not found" }
    ));
    assert!(matches!(
        route_request(HttpMethod::Other, "/?token=abc", "abc"),
        RouteAction::Text { status: 404, .. }
    ));
}

#[test]
fn file_routes_carry_the_file_id_name_and_type() {
    match route_request(HttpMethod::Get, "/api/files/abc-1?token=t", "t") {
        RouteAction::File { file_id } => assert_eq!(file_id, "abc-1"),
        _ => panic!("file route"),
    }
    match route_request(
        HttpMethod::Post,
        "/api/clipboard/file?token=t&name=My%20Doc.pdf&clientId=m%201",
        "t",
    ) {
        RouteAction::ReceiveFile { file_name, mime_type, message_id } => {
            assert_eq!(file_name, "My Doc.pdf");
            assert_eq!(mime_type, "application/octet-stream");
            assert_eq!(message_id.as_deref(), Some("m_1"));
        }
        _ => panic!("upload route"),
    }
    match route_request(HttpMethod::Post, "/api/clipboard/image?token=t", "t") {
        RouteAction::ReceiveImage { message_id } => assert!(message_id.is_none()),
        _ => panic!("image route"),
    }
}

#[test]
fn percent_decoding_turns_plus_into_space_and_keeps_bad_escapes() {
    assert_eq!(percent_decode("a%20b+c"), "a b c");
    assert_eq!(percent_decode("%E4%BD%A0"), "\u{4f60}");
    assert_eq!(percent_decode("100%"), "100%");
    assert_eq!(percent_decode("%zz"), "%zz");
    assert_eq!(percent_decode("%FF"), "\u{fffd}");
    assert_eq!(query_param("token=abc&name=a%2Bb", "name").as_deref(), Some("a+b"));
    assert_eq!(query_param("token=abc", "name"), None);
    assert!(query_param_decodable("name=abc", "name"));
}

#[test]
fn url_escaping_keeps_unreserved_characters() {
    assert_eq!(escape_url_component("a b/\u{e9}~"), "a%20b%2F%C3%A9~");
    let text = "name with spaces & \u{4f60}";
    assert_eq!(percent_decode(&escape_url_component(text)), text);
}

#[test]
fn json_and_header_escaping() {
    assert_eq!(escape_json("a\"b\\c\nd\re"), "a\\\"b\\\\c\\nd\\re");
    assert_eq!(escape_header_value("a\"b\\c"), "a_b_c");
}

#[test]
fn message_ids_are_made_safe() {
    assert_eq!(sanitize_message_id(" ab/c.d-e_f "), "ab_c.d-e_f");
    assert_eq!(sanitize_message_id("   ").len(), 36);
    assert_eq!(sanitize_message_id(&"x".repeat(200)).len(), 96);
}

#[test]
fn taken_file_names_get_a_number() {
    assert_eq!(numbered_file_name("photo.jpg", &PlatformFamily::Windows, 1), "photo (1).jpg");
    assert_eq!(numbered_file_name("README", &PlatformFamily::Windows, 12), "README (12)");
    assert_eq!(numbered_file_name(".env", &PlatformFamily::Windows, 2), ".env (2)");
    let fallback = fallback_file_name("photo.jpg", &PlatformFamily::Windows);
    assert!(fallback.starts_with("photo-"));
    assert_eq!(fallback.len(), "photo-".len() + 36);
}

#[test]
fn image_signatures_name_their_type() {
    assert_eq!(detect_image_mime(b"\x89PNG\r\n\x1a\nrest"), Some("image/png"));
    assert_eq!(detect_image_mime(&[0xff, 0xd8, 0xff, 0xe0]), Some("image/jpeg"));
    assert_eq!(detect_image_mime(b"GIF89a"), Some("image/gif"));
    assert_eq!(detect_image_mime(b"BM...."), Some("image/bmp"));
    assert_eq!(detect_image_mime(b"RIFF\0\0\0\0WEBPVP8 "), Some("image/webp"));
    assert_eq!(detect_image_mime(b"RIFF\0\0\0\0WAVE"), None);
    assert_eq!(detect_image_mime(b""), None);
}

#[test]
fn accent_palettes_of_the_phone_page() {
    assert_eq!(mobile_accent_palette("ocean"), ("#68b6ff", "#3e7fe6", "#0d1a2a"));
    assert_eq!(mobile_accent_palette("jade"), ("#62d6b1", "#2f9f83", "#0c1f1b"));
    assert_eq!(mobile_accent_palette("rose"), ("#f08db0", "#d45a86", "#2b1019"));
    assert_eq!(mobile_accent_palette("other"), ("#f0b35f", "#dd8648", "#24160d"));
    let page = mobile_page(6_000_000, "ocean");
    assert!(page.starts_with("<!doctype html>"));
    assert!(page.contains("#68b6ff"));
    assert!(page.contains("6000000"));
}

#[test]
fn the_best_lan_address_is_offered() {
    let candidates = vec![
        Ipv4::new(127, 0, 0, 1),
        Ipv4::new(100, 64, 1, 2),
        Ipv4::new(192, 168, 5, 174),
        Ipv4::new(192, 168, 5, 174),
    ];
    assert_eq!(dedupe_ipv4_candidates(&candidates).len(), 3);
    assert_eq!(local_lan_ip(&candidates, None).ok().as_deref(), Some("192.168.5.174"));
    assert_eq!(
        local_lan_ip(&vec![Ipv4::new(127, 0, 0, 1)], Some(Ipv4::new(10, 0, 0, 20))).ok().as_deref(),
        Some("10.0.0.20")
    );
    match local_lan_ip(&vec![Ipv4::new(169, 254, 3, 4)], None) {
        Err(AppError::Message(message)) => assert_eq!(message, "failed to resolve local lan ip"),
        Ok(ip) => panic!("no usable address, yet {ip}"),
    }
    assert_eq!(ipv4_to_string(Ipv4::new(1, 22, 255, 0)), "1.22.255.0");
}

#[test]
fn phone_payloads_are_classified() {
    let text = MobileClipboardPayload { kind: "text".into(), text: Some("  hi ".into()), image_data: None };
    assert!(matches!(classify_mobile_payload(&text), Ok(MobileUpload::Text { text }) if text == "hi"));
    let image = MobileClipboardPayload {
        kind: "image".into(),
        text: None,
        image_data: Some("data:image/png;base64,AAAA".into()),
    };
    assert!(matches!(classify_mobile_payload(&image), Ok(MobileUpload::Image { base64 }) if base64 == "AAAA"));
    let both = MobileClipboardPayload { kind: "text".into(), text: Some("a".into()), image_data: Some("b".into()) };
    assert_eq!(classify_mobile_payload(&both).err().as_deref(), Some("text_and_image_are_mutually_exclusive"));
    let empty = MobileClipboardPayload { kind: "text".into(), text: Some(" ".into()), image_data: Some(" ".into()) };
    assert_eq!(classify_mobile_payload(&empty).err().as_deref(), Some("empty_payload"));
    let wrong = MobileClipboardPayload { kind: "image".into(), text: Some("a".into()), image_data: None };
    assert_eq!(classify_mobile_payload(&wrong).err().as_deref(), Some("invalid_payload_kind"));
}

#[test]
fn uploaded_images_are_checked_and_converted() {
    assert_eq!(image_upload_error(0, 10), Some("empty_payload"));
    assert_eq!(image_upload_error(11, 10), Some("image_too_large"));
    assert_eq!(image_upload_error(10, 10), None);

    let png = png_of(2, 3);
    let encoded = base64_of(&png);
    let (converted, sent, width, height) =
        receive_base64_image(&encoded, 1_000_000).ok().expect("image");
    assert_eq!(sent, png);
    assert_eq!((width, height), (2, 3));
    assert!(converted.starts_with(b"\x89PNG"));
    assert_eq!(receive_base64_image(&encoded, 4).err().as_deref(), Some("image_too_large"));
    assert!(receive_base64_image("***", 100).is_err());

    match build_image_capture(converted.clone(), sent, width, height) {
        CapturedClipboard::Image { preview, original_mime, image_width, .. } => {
            assert_eq!(preview, "Image 2x3");
            assert_eq!(original_mime.as_deref(), Some("image/png"));
            assert_eq!(image_width, 2);
        }
        _ => panic!("image capture"),
    }
}

fn base64_of(bytes: &[u8]) -> String {
    base64::engine::general_purpose::STANDARD.encode(bytes)
}

#[test]
fn small_png_previews_are_kept_as_they_are() {
    let png = png_of(4, 4);
    assert_eq!(image_preview_png_from_bytes(&png), Some(png.clone()));
    let image = image::RgbaImage::from_raw(600, 10, vec![90; 600 * 10 * 4]).expect("pixels");
    let mut bmp = Vec::new();
    image::DynamicImage::ImageRgba8(image)
        .write_to(&mut std::io::Cursor::new(&mut bmp), image::ImageFormat::Bmp)
        .expect("bmp");
    let preview = image_preview_png_from_bytes(&bmp).expect("preview");
    assert!(preview.starts_with(b"\x89PNG"));
    let decoded = image::load_from_memory(&preview).expect("decoded");
    assert_eq!((decoded.width(), decoded.height()), (420, 7));
    assert_eq!(image_preview_png_from_bytes(&b"nope".to_vec()), None);
}

#[test]
fn the_session_link_has_a_qr_code() {
    let svg = build_qr_svg("http://192.168.1.10:5000/?token=abc").ok().expect("svg");
    assert!(svg.contains("#1d232d"));
    assert!(svg.contains("#ffffff"));
}

#[test]
fn links_too_long_for_a_qr_code_are_refused() {
    let url = format!("http://192.168.1.10:5000/?token={}", "x".repeat(8000));
    assert!(build_qr_svg(&url).is_err());
}

#[test]
fn unauthorized_requests_are_refused_before_any_parameter_is_decoded() {
    assert!(power_paste::routes::route_params_are_decodable(&HttpMethod::Get, "/?name=%a\u{e9}", "abc"));
    assert!(matches!(
        route_request(HttpMethod::Get, "/?name=%a\u{e9}", "abc"),
        RouteAction::Text { status: 403, body: "invalid token" }
    ));
    assert!(power_paste::routes::route_params_are_decodable(
        &HttpMethod::Post,
        "/api/clipboard/file?name=%a\u{e9}&token=bad",
        "abc"
    ));
    assert!(matches!(
        route_request(HttpMethod::Post, "/api/clipboard/file?name=%a\u{e9}&token=bad", "abc"),
        RouteAction::Json { status: 403, .. }
    ));
    assert!(!power_paste::routes::route_params_are_decodable(
        &HttpMethod::Post,
        "/api/clipboard/file?name=%a\u{e9}&token=abc",
        "abc"
    ));
    assert!(!power_paste::routes::route_params_are_decodable(
        &HttpMethod::Post,
        "/api/clipboard/image?clientId=%a\u{e9}&token=abc",
        "abc"
    ));
    assert!(power_paste::routes::route_params_are_decodable(
        &HttpMethod::Post,
        "/api/clipboard/image?name=%a\u{e9}&token=abc",
        "abc"
    ));
}

#[test]
fn numbered_names_follow_the_file_name_of_the_path() {
    assert_eq!(numbered_file_name(".", &PlatformFamily::Windows, 1), "transfer-file (1)");
    assert_eq!(numbered_file_name("..", &PlatformFamily::Windows, 2), "transfer-file (2)");
    assert_eq!(numbered_file_name("dir/photo.jpg", &PlatformFamily::Windows, 3), "photo (3).jpg");
    assert_eq!(numbered_file_name("photo.jpg/.", &PlatformFamily::Windows, 4), "photo (4).jpg");
    assert_eq!(numbered_file_name("notes.", &PlatformFamily::Windows, 5), "notes (5)");
    assert!(fallback_file_name("..", &PlatformFamily::Windows).starts_with("transfer-file-"));
    assert_eq!(fallback_file_name("..", &PlatformFamily::Windows).len(), "transfer-file-".len() + 36);
}

#[test]
fn small_data_with_the_png_signature_is_previewed_as_it_is() {
    let mut data = vec![0x89, 0x50, 0x4e, 0x47, 0x0d, 0x0a, 0x1a, 0x0a];
    data.extend_from_slice(b"not decoded");
    assert_eq!(image_preview_png_from_bytes(&data), Some(data.clone()));
    assert_eq!(image_preview_png_from_bytes(&data[..7].to_vec()), None);
}

#[test]
fn numbered_names_read_backslashes_by_platform() {
    assert_eq!(numbered_file_name("dir\\photo.jpg", &PlatformFamily::Windows, 1), "photo (1).jpg");
    assert_eq!(numbered_file_name("dir\\photo.jpg", &PlatformFamily::MacOs, 1), "dir\\photo (1).jpg");
    assert_eq!(numbered_file_name("C:notes.txt", &PlatformFamily::Windows, 2), "notes (2).txt");
    assert!(fallback_file_name("C:", &PlatformFamily::Windows).starts_with("transfer-file-"));
}
