use power_paste::capture::preview_text;
use power_paste::digest::{image_hash_from_png_bytes, mixed_hash, sha256_hex, text_hash};
use power_paste::payload::PlatformFamily;
use power_paste::monitor::{CaptureDecision, MonitorState};
use power_paste::native::{
    panel_open_size, panel_toggle_action, restore_window_position, PanelOpenSize, PanelToggle,
    clamp_panel_logical_size, copy_sound_command, debug_guard_script, image_path_from_files,
    panel_position, quote_for_powershell, restore_window_size, WindowSizeRestore,
};
use power_paste::settings::{
    check_clipboard_write, check_launch_on_startup, should_enable_devtools,
    should_register_shortcut, tray_label, AppSettings,
};
use power_paste::update::{
    available_status, build_aggregated_release_notes, GithubRelease, check_error_status, checking_status, debug_downloaded_status,
    download_finished_status, download_started_status, release_notes_section,
    update_in_progress, UpdateStatus,
};
use power_paste::versions::parse_release_version;

#[test]
fn hashes_are_lower_case_sha256() {
    assert_eq!(
        sha256_hex(b"beta"),
        "f44e64e75f3948e9f73f8dfa94721c4ce8cbb4f265c4790c702b2d41cfbf2753"
    );
    assert_eq!(text_hash("beta", Some("<b>x</b>"), None), sha256_hex(b"beta"));
    assert_eq!(text_hash("", Some(""), Some("{\\rtf1}")), sha256_hex(b"{\\rtf1}"));
    assert_eq!(
        text_hash("", None, None),
        "e3b0c44298fc1c149afbf4c8996fb92427ae41e4649b934ca495991b7852b855"
    );
    assert_eq!(
        image_hash_from_png_bytes(&[1, 2, 3]),
        "265540042a8cde29ccc2ba937d5b4dd770b6d9efd2a7a8a07545d22a960b6d7c"
    );
    assert_eq!(
        mixed_hash("hello", None, None, &[1, 2, 3]),
        "ce88a598d58309149079f854e0a2ca23d5ec8c27f74159dd752c023f141e2f81"
    );
}

#[test]
fn previews_collapse_whitespace_and_stop_at_160_characters() {
    assert_eq!(preview_text("  a\n\tb  c "), "a b c");
    assert_eq!(preview_text(" \n "), "(empty text)");
    let long = "x".repeat(200);
    assert_eq!(preview_text(&long).chars().count(), 160);
}

#[test]
fn own_clipboard_writes_are_not_captured_again() {
    let mut monitor = MonitorState::new();
    assert_eq!(monitor.observe_capture(&"h1".to_string(), 10), CaptureDecision::Store);
    assert_eq!(monitor.observe_capture(&"h1".to_string(), 20), CaptureDecision::Unchanged);

    monitor.mark_clipboard_suppressed("h2".into(), 100);
    assert_eq!(monitor.clipboard_suppression_remaining(100), Some(2000));
    assert_eq!(monitor.clipboard_suppression_remaining(2100), Some(0));
    assert_eq!(monitor.clipboard_suppression_remaining(2101), None);
    assert_eq!(monitor.observe_capture(&"h2".to_string(), 150), CaptureDecision::Suppressed);
    assert_eq!(monitor.observe_capture(&"h3".to_string(), 160), CaptureDecision::Store);

    monitor.reset_clipboard_observation();
    assert_eq!(monitor.observe_capture(&"h3".to_string(), 170), CaptureDecision::Store);
}

#[test]
fn copy_sounds_are_debounced() {
    let mut monitor = MonitorState::new();
    assert!(monitor.allow_sound_for_event(1000, true));
    assert!(!monitor.allow_sound_for_event(1649, true));
    assert!(monitor.allow_sound_for_event(1650, true));
    assert!(!monitor.allow_sound_for_event(5000, false));
}

#[test]
fn panel_opens_near_the_cursor_inside_the_screen() {
    assert_eq!(panel_position(500, 300, 0, 0, 1920, 1080, 380, 600), (468, 318));
    assert_eq!(panel_position(1900, 1000, 0, 0, 1920, 1080, 380, 600), (1524, 464));
    assert_eq!(panel_position(0, 0, 0, 0, 1920, 1080, 380, 600), (16, 18));
    assert_eq!(panel_position(10, 10, 0, 0, 300, 300, 380, 600), (16, 16));
}

#[test]
fn saved_window_sizes_are_restored() {
    assert!(matches!(
        restore_window_size(Some(500), Some(700), true, None, None),
        WindowSizeRestore::SavedPhysical { width: 500, height: 700 }
    ));
    assert!(matches!(
        restore_window_size(Some(200), Some(700), false, Some(1), Some(1)),
        WindowSizeRestore::Logical { width: 380, height: 700 }
    ));
    assert!(matches!(
        restore_window_size(None, Some(650), false, Some(420), None),
        WindowSizeRestore::Physical { width: 420, height: 650 }
    ));
    assert!(matches!(
        restore_window_size(None, None, false, Some(420), None),
        WindowSizeRestore::Keep
    ));
    assert_eq!(clamp_panel_logical_size(100, 900), (380, 900));
}

#[test]
fn debug_mode_controls_the_context_menu() {
    assert!(should_enable_devtools(true));
    assert!(!should_enable_devtools(false));
    assert_eq!(
        debug_guard_script(true),
        "window.__CLIPDESK_DEBUG_GUARD__ = Object.assign(window.__CLIPDESK_DEBUG_GUARD__ || {}, { allowContextMenu: true });"
    );
    assert!(debug_guard_script(false).ends_with("allowContextMenu: false });"));
}

#[test]
fn copy_sound_script_quotes_the_path() {
    assert_eq!(quote_for_powershell("C:\\it's\\copy.mp3"), "C:\\it''s\\copy.mp3");
    let command = copy_sound_command("C:\\a'b.mp3");
    assert!(command.starts_with("Add-Type -AssemblyName PresentationCore; "));
    assert!(command.contains("[Uri]::new('C:\\a''b.mp3')"));
    assert!(command.ends_with("$p.Close()"));
}

#[test]
fn copied_image_files_are_recognised_by_extension() {
    let files = vec!["C:\\docs\\a.txt".to_string(), "/tmp/b.JPEG".to_string(), "c.png".to_string()];
    assert_eq!(image_path_from_files(&files, &PlatformFamily::Windows).as_deref(), Some("/tmp/b.JPEG"));
    assert_eq!(image_path_from_files(&vec![".png".to_string(), "dir.png/x".to_string()], &PlatformFamily::Windows), None);
}

#[test]
fn default_settings_and_tray_labels() {
    let settings = AppSettings::default();
    assert_eq!(settings.max_history_items, 200);
    assert_eq!(settings.polling_interval_ms, 500);
    assert_eq!(settings.global_shortcut, "Ctrl+Shift+V");
    assert_eq!(settings.ignored_apps, vec!["1Password", "Bitwarden", "KeePassXC"]);
    assert_eq!(tray_label("zh-CN", "quit"), "\u{9000}\u{51fa}");
    assert_eq!(tray_label("en-US", "check_updates"), "Check for Updates");
    assert_eq!(tray_label("en-US", "other"), "");
}

#[test]
fn runtime_settings_are_checked() {
    assert!(should_register_shortcut(" Ctrl+Alt+V "));
    assert!(!should_register_shortcut("   "));
    assert!(check_launch_on_startup(true, true).is_ok());
    assert!(check_launch_on_startup(false, false).is_ok());
    assert_eq!(
        check_launch_on_startup(true, false).err().expect("unsupported").to_string(),
        "unsupported_launch_on_startup"
    );
    assert!(check_clipboard_write(false, true, false).is_ok());
    assert_eq!(
        check_clipboard_write(false, false, false).err().expect("unsupported").to_string(),
        "unsupported_clipboard_write"
    );
}

#[test]
fn release_versions_accept_a_leading_v() {
    assert!(parse_release_version(" v0.5.1 ").is_some());
    assert!(parse_release_version("vv1.2.3-beta.1").is_some());
    assert!(parse_release_version("0.5").is_none());
    assert_eq!(release_notes_section("v1.0.0", None), "## v1.0.0\n\nNo release notes were provided for this version.");
    assert_eq!(release_notes_section("1.0.0", Some(&"  Fixes ".to_string())), "## 1.0.0\n\nFixes");
}

#[test]
fn update_statuses_follow_the_check() {
    let checking = checking_status("0.4.0".into());
    assert!(update_in_progress(&checking));
    assert!(!update_in_progress(&UpdateStatus::idle("0.4.0".into())));
    let error = check_error_status("0.4.0".into(), "offline".into());
    assert_eq!(error.status, "error");
    assert_eq!(error.error.as_deref(), Some("offline"));

    let available = available_status("0.4.0".into(), "0.5.0".into(), Some(None), Some("own notes".into()), None);
    assert_eq!(available.body.as_deref(), Some("own notes"));
    let aggregated = available_status("0.4.0".into(), "0.5.0".into(), Some(Some("all notes".into())), Some("own".into()), None);
    assert_eq!(aggregated.body.as_deref(), Some("all notes"));

    let started = download_started_status(UpdateStatus::idle("0.4.0".into()), "0.5.0".into());
    assert_eq!(started.status, "downloading");
    assert_eq!(started.latest_version.as_deref(), Some("0.5.0"));
    assert_eq!(started.downloaded_bytes, Some(0));
    let done = download_finished_status(started, "0.4.0".into(), None);
    assert_eq!(done.status, "downloaded");

    let forced = debug_downloaded_status(UpdateStatus::idle("0.4.0".into()), "0.4.0".into());
    assert_eq!(forced.downloaded_bytes, Some(100));
    assert_eq!(forced.content_length, Some(100));
}

#[test]
fn release_notes_are_listed_newest_first_without_drafts() {
    let release = |tag: &str, body: &str, draft: bool| GithubRelease {
        tag_name: tag.into(),
        body: Some(body.into()),
        draft,
    };
    let releases = vec![
        release("v0.4.1", "b", false),
        release("v0.5.0", "c", false),
        release("v0.4.5", "draft", true),
        release("not-a-version", "x", false),
        release("v0.6.0", "too new", false),
    ];
    let notes = build_aggregated_release_notes("0.4.0", "0.5.0", None, &releases).expect("notes");
    assert_eq!(notes, "## v0.5.0\n\nc\n\n---\n\n## v0.4.1\n\nb");
    assert_eq!(build_aggregated_release_notes("bad", "0.5.0", None, &releases), None);
    assert_eq!(build_aggregated_release_notes("0.5.0", "0.5.0", Some(&" ".to_string()), &releases), None);
}

#[test]
fn the_panel_shortcut_hides_focuses_or_opens() {
    assert!(matches!(panel_toggle_action(true, true), PanelToggle::Hide));
    assert!(matches!(panel_toggle_action(true, false), PanelToggle::Focus));
    assert!(matches!(panel_toggle_action(false, true), PanelToggle::Open));
    assert!(matches!(panel_open_size(false, true, true), PanelOpenSize::EnsureMinimum));
    assert!(matches!(panel_open_size(true, true, true), PanelOpenSize::ReapplySaved));
    assert!(matches!(panel_open_size(true, true, false), PanelOpenSize::Keep));
    assert!(matches!(panel_open_size(true, false, true), PanelOpenSize::Keep));
}

#[test]
fn window_moves_and_sizes_are_recorded() {
    assert_eq!(restore_window_position(Some(3), Some(-4)), Some((3, -4)));
    assert_eq!(restore_window_position(Some(3), None), None);
    let mut settings = AppSettings::default();
    settings.record_window_position(10, 20);
    settings.record_window_size(800, 900);
    assert_eq!((settings.window_x, settings.window_y), (Some(10), Some(20)));
    assert_eq!((settings.window_width, settings.window_height), (Some(800), Some(900)));
    assert_eq!(settings.max_history_items, 200);
}

#[test]
fn copied_image_paths_with_trailing_separators_keep_their_extension() {
    assert_eq!(image_path_from_files(&vec!["b.png/".to_string()], &PlatformFamily::MacOs).as_deref(), Some("b.png/"));
    assert_eq!(image_path_from_files(&vec!["b.png/.".to_string()], &PlatformFamily::MacOs).as_deref(), Some("b.png/."));
    assert_eq!(image_path_from_files(&vec!["C:\\pics\\c.gif\\".to_string()], &PlatformFamily::Windows).as_deref(), Some("C:\\pics\\c.gif\\"));
    assert_eq!(
        image_path_from_files(&vec![".".to_string(), "a.png/..".to_string(), "./".to_string()], &PlatformFamily::Other),
        None
    );
}

#[test]
fn backslashes_separate_components_only_on_windows() {
    let named = vec!["x\\.png".to_string()];
    assert_eq!(image_path_from_files(&named, &PlatformFamily::MacOs).as_deref(), Some("x\\.png"));
    assert_eq!(image_path_from_files(&named, &PlatformFamily::Windows), None);
    let trailing = vec!["b.png\\".to_string()];
    assert_eq!(image_path_from_files(&trailing, &PlatformFamily::Other), None);
    assert_eq!(image_path_from_files(&trailing, &PlatformFamily::Windows).as_deref(), Some("b.png\\"));
    let drive = vec!["C:.png".to_string(), "D:photo.bmp".to_string()];
    assert_eq!(image_path_from_files(&drive, &PlatformFamily::Windows).as_deref(), Some("D:photo.bmp"));
    assert_eq!(image_path_from_files(&drive, &PlatformFamily::MacOs).as_deref(), Some("C:.png"));
}
