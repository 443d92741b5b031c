use power_paste::lan::{error_json, ok_kind_json};
use power_paste::session::{
    cleanup_expired_session, connected_devices, desktop_file_entry, desktop_text_message,
    error_status, file_download_headers, listener_error_status, message_id_or_new,
    message_to_dto, phone_capture_message, phone_file_message, push_message,
    receiver_state_dto, received_status, send_desktop_file, send_desktop_text,
    session_with_token, start_session, LanSession, LanTransferFile,
};

const NOW: u64 = 1_700_000_000_000;

fn session() -> LanSession {
    session_with_token(Some("192.168.5.174".into()), 48123, "tok".into(), NOW)
        .ok()
        .expect("session")
}

#[test]
fn new_session_has_link_qr_and_five_minutes() {
    let s = session();
    assert_eq!(s.url, "http://192.168.5.174:48123/?token=tok");
    assert!(s.qr_svg.contains("<svg"));
    assert_eq!(s.expires_at, Some(NOW + 300_000));
    assert!(s.messages.is_empty());
    assert!(s.files.is_empty());

    let local = session_with_token(None, 80, "t".into(), NOW).ok().expect("session");
    assert_eq!(local.url, "http://127.0.0.1:80/?token=t");

    let random = start_session(None, 1, NOW).ok().expect("session");
    assert_eq!(random.token.len(), 36);
    assert!(random.url.ends_with(&random.token));
}

#[test]
fn desktop_text_is_trimmed_and_refused_when_blank() {
    let m = desktop_text_message("  hello \n", "id-1".into(), NOW).ok().expect("message");
    assert_eq!(m.text.as_deref(), Some("hello"));
    assert_eq!(m.sender, "desktop");
    assert_eq!(m.kind, "text");
    assert_eq!(m.status, "sent");
    let error = desktop_text_message(" \t", "id-2".into(), NOW).err().expect("blank");
    assert_eq!(error.to_string(), "empty_payload");
}

#[test]
fn sending_needs_a_running_session() {
    let mut slot: Option<LanSession> = None;
    let error = send_desktop_text(&mut slot, "hi", NOW).err().expect("not running");
    assert_eq!(error.to_string(), "lan_transfer_not_running");

    let mut slot = Some(session());
    assert!(send_desktop_text(&mut slot, "hi", NOW + 5).is_ok());
    let s = slot.expect("session");
    assert_eq!(s.messages.len(), 1);
    assert_eq!(s.messages[0].id.len(), 36);
    assert_eq!(s.expires_at, Some(NOW + 5 + 300_000));
    assert_eq!(s.last_activity, NOW + 5);
}

#[test]
fn desktop_images_get_a_preview_and_a_download_link() {
    let (file, message) = desktop_file_entry(
        "../shots/a?.png",
        Some(" image/png ".into()),
        vec![1, 2, 3],
        "file-1",
        "msg-1".into(),
        Some("C:\\sent\\a_.png".into()),
        NOW,
    )
    .ok()
    .expect("entry");
    assert_eq!(file.file_name, "a_.png");
    assert_eq!(file.mime_type, "image/png");
    assert_eq!(file.bytes, vec![1, 2, 3]);
    assert_eq!(message.kind, "image");
    assert_eq!(message.image_data_url.as_deref(), Some("data:image/png;base64,AQID"));
    assert_eq!(message.download_url.as_deref(), Some("/api/files/file-1"));
    assert_eq!(message.size, Some(3));
    assert_eq!(message.local_path.as_deref(), Some("C:\\sent\\a_.png"));
}

#[test]
fn desktop_files_default_to_octet_stream() {
    let (file, message) =
        desktop_file_entry("notes.txt", None, vec![7], "f", "m".into(), None, NOW)
            .ok()
            .expect("entry");
    assert_eq!(file.mime_type, "application/octet-stream");
    assert_eq!(message.kind, "file");
    assert!(message.image_data_url.is_none());

    let empty = desktop_file_entry("a", None, Vec::new(), "f", "m".into(), None, NOW)
        .err()
        .expect("empty");
    assert_eq!(empty.to_string(), "empty_payload");
}

#[test]
fn sent_files_can_be_downloaded_by_their_link() {
    let mut slot = Some(session());
    assert!(send_desktop_file(&mut slot, "report.pdf", Some("application/pdf".into()), vec![9, 9], None, NOW).is_ok());
    let s = slot.expect("session");
    let link = s.messages[0].download_url.clone().expect("link");
    let id = link.trim_start_matches("/api/files/");
    let file = s.file(id).expect("file");
    assert_eq!(file.bytes, vec![9, 9]);
    assert_eq!(file.file_name, "report.pdf");
    assert!(s.file("unknown").is_none());
}

#[test]
fn offering_a_file_again_under_its_id_replaces_it() {
    let mut s = session();
    s.insert_file("a".into(), LanTransferFile { file_name: "one".into(), mime_type: "text/plain".into(), bytes: vec![1] });
    s.insert_file("b".into(), LanTransferFile { file_name: "two".into(), mime_type: "text/plain".into(), bytes: vec![2] });
    s.insert_file("a".into(), LanTransferFile { file_name: "three".into(), mime_type: "text/plain".into(), bytes: vec![3] });
    assert_eq!(s.files.len(), 2);
    assert_eq!(s.file("a").expect("a").file_name, "three");
    assert_eq!(s.file("b").expect("b").file_name, "two");
}

#[test]
fn download_headers_name_the_attachment() {
    let file = LanTransferFile { file_name: "a\"b\\c.txt".into(), mime_type: "text/plain".into(), bytes: Vec::new() };
    let headers = file_download_headers(&file);
    assert_eq!(headers[0], ("Content-Type".to_string(), "text/plain".to_string()));
    assert_eq!(headers[1], ("Content-Disposition".to_string(), "attachment; filename=\"a_b_c.txt\"".to_string()));
    assert_eq!(headers[2], ("Cache-Control".to_string(), "no-store".to_string()));
}

#[test]
fn expired_sessions_are_cleaned_up() {
    let mut slot = Some(session());
    assert!(!cleanup_expired_session(&mut slot, NOW + 299_999));
    assert!(slot.is_some());
    assert!(cleanup_expired_session(&mut slot, NOW + 300_000));
    assert!(slot.is_none());
    assert!(!cleanup_expired_session(&mut slot, NOW));
}

#[test]
fn messages_reach_the_phone_with_the_token_on_their_links() {
    let mut slot = Some(session());
    assert!(send_desktop_file(&mut slot, "a.bin", None, vec![1], None, NOW).is_ok());
    let s = slot.expect("session");
    let dto = message_to_dto(&s.messages[0], "a b");
    let link = dto.download_url.expect("link");
    assert!(link.starts_with("/api/files/"));
    assert!(link.ends_with("?token=a%20b"));
    assert!(!dto.has_local_file);
}

#[test]
fn phone_counts_as_connected_for_fifteen_seconds() {
    let mut s = session();
    assert_eq!(connected_devices(&s, NOW), 0);
    s.mark_phone_seen(NOW);
    assert_eq!(connected_devices(&s, NOW + 15_000), 1);
    assert_eq!(connected_devices(&s, NOW + 15_001), 0);
    let state = receiver_state_dto(Some(&s), NOW + 1);
    assert!(state.running);
    assert_eq!(state.connected_devices, 1);
    assert_eq!(state.token.as_deref(), Some("tok"));
    let stopped = receiver_state_dto(None, NOW);
    assert!(!stopped.running);
    assert!(stopped.url.is_none());
}

#[test]
fn received_content_is_recorded_as_copied() {
    let m = phone_capture_message("image", None, Some("data:x".into()), Some(4), "c1".into(), NOW);
    assert_eq!(m.sender, "phone");
    assert_eq!(m.mime_type.as_deref(), Some("image/png"));
    assert_eq!(m.status, "copied");
    let t = phone_capture_message("text", Some("hi".into()), None, None, "c2".into(), NOW);
    assert!(t.mime_type.is_none());

    let f = phone_file_message("a.txt".into(), "text/plain", 3, "/tmp/a.txt".into(), "f1".into(), NOW);
    assert_eq!(f.kind, "file");
    assert_eq!(f.text.as_deref(), Some("/tmp/a.txt"));
    assert_eq!(f.local_path.as_deref(), Some("/tmp/a.txt"));
    assert_eq!(f.status, "saved");

    let mut s = session();
    s.push_message(f, NOW);
    assert_eq!(s.message_local_path("f1").as_deref(), Some("/tmp/a.txt"));
    assert!(s.message_local_path("nope").is_none());
}

#[test]
fn message_ids_from_the_phone_are_kept() {
    assert_eq!(message_id_or_new(Some("abc".into())), "abc");
    assert_eq!(message_id_or_new(None).len(), 36);
}

#[test]
fn statuses_and_answers_of_the_receiver() {
    let ok = received_status("image");
    assert_eq!((ok.kind.as_str(), ok.message.as_str()), ("success", "received"));
    assert_eq!(ok.received_kind.as_deref(), Some("image"));
    let err = error_status("image_too_large");
    assert_eq!(err.kind, "error");
    assert!(err.received_kind.is_none());
    assert_eq!(listener_error_status("boom").message, "listener_error: boom");
    assert_eq!(ok_kind_json("text"), "{\"ok\":true,\"kind\":\"text\"}");
    assert_eq!(error_json("bad \"x\""), "{\"ok\":false,\"message\":\"bad \\\"x\\\"\"}");
}

#[test]
fn pushing_without_a_session_is_refused() {
    let mut slot: Option<LanSession> = None;
    let m = phone_capture_message("text", Some("x".into()), None, None, "i".into(), NOW);
    let error = push_message(&mut slot, m, NOW).err().expect("refused");
    assert_eq!(error.to_string(), "lan_transfer_not_running");
}
