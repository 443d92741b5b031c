use power_paste::payload::{degrade_plugin_only_payload, ClipboardPayload, PlatformFamily};

fn replays_mixed(platform: &PlatformFamily) -> bool {
    matches!(platform, PlatformFamily::Windows | PlatformFamily::MacOs)
}

fn platforms() -> Vec<PlatformFamily> {
    vec![
        PlatformFamily::Windows,
        PlatformFamily::MacOs,
        PlatformFamily::Other,
    ]
}

#[test]
fn degrades_mixed_payload_to_single_payload_on_plugin_only_platforms() {
    for platform in platforms() {
        let payload = ClipboardPayload::Mixed {
            text: Some("plain".into()),
            html: Some("<b>plain</b>".into()),
            png_bytes: Some(vec![1, 2, 3]),
        };

        let mixed = replays_mixed(&platform);
        let next = degrade_plugin_only_payload(payload, platform);

        if mixed {
            assert!(matches!(next, ClipboardPayload::Mixed { .. }));
        } else {
            assert!(matches!(next, ClipboardPayload::Text { .. }));
        }
    }
}

#[test]
fn degrades_image_only_mixed_payload_to_image_on_plugin_only_platforms() {
    for platform in platforms() {
        let payload = ClipboardPayload::Mixed {
            text: None,
            html: None,
            png_bytes: Some(vec![1, 2, 3]),
        };

        let mixed = replays_mixed(&platform);
        let next = degrade_plugin_only_payload(payload, platform);

        if mixed {
            assert!(matches!(next, ClipboardPayload::Mixed { .. }));
        } else {
            assert!(matches!(next, ClipboardPayload::Image { .. }));
        }
    }
}

#[test]
fn degrades_html_only_mixed_payload_to_html_or_text() {
    for platform in platforms() {
        let payload = ClipboardPayload::Mixed {
            text: Some("plain".into()),
            html: Some("<p>plain</p><img src=\"cid:test\" />".into()),
            png_bytes: None,
        };

        let mixed = replays_mixed(&platform);
        let next = degrade_plugin_only_payload(payload, platform);

        if mixed {
            assert!(matches!(next, ClipboardPayload::Mixed { .. }));
        } else {
            assert!(matches!(
                next,
                ClipboardPayload::Text { .. } | ClipboardPayload::Html { .. }
            ));
        }
    }
}
