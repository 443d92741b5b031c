use power_paste::update::{
    build_aggregated_release_notes, build_debug_status, install_start_step, update_check_step,
    AppError, AvailableUpdate, GithubRelease, InstallStart, UpdateCheckAction, UpdateCheckEvent,
    UpdateDebugStatePayload,
};

#[test]
fn accepts_supported_debug_status() {
    let payload = UpdateDebugStatePayload {
        status: "available".into(),
        latest_version: Some("9.9.9-dev".into()),
        body: Some("Debug release notes".into()),
        published_at: Some("2026-04-11T00:00:00Z".into()),
        downloaded_bytes: None,
        content_length: None,
        error: None,
    };

    let next = build_debug_status("0.3.4".into(), payload).ok().expect("debug status");

    assert_eq!(next.status, "available");
    assert_eq!(next.current_version, "0.3.4");
    assert_eq!(next.latest_version.as_deref(), Some("9.9.9-dev"));
}

#[test]
fn rejects_unsupported_debug_status() {
    let payload = UpdateDebugStatePayload {
        status: "unexpected".into(),
        latest_version: None,
        body: None,
        published_at: None,
        downloaded_bytes: None,
        content_length: None,
        error: None,
    };

    let error = match build_debug_status("0.3.4".into(), payload) {
        Ok(_) => panic!("invalid status"),
        Err(error) => error,
    };

    assert_eq!(error.to_string(), "invalid_update_debug_status");
}

#[test]
fn aggregates_release_notes_between_current_and_latest_versions() {
    let releases = vec![
        GithubRelease {
            tag_name: "v0.5.1".into(),
            body: Some("Latest patch".into()),
            draft: false,
        },
        GithubRelease {
            tag_name: "v0.5.0".into(),
            body: Some("Minor release".into()),
            draft: false,
        },
        GithubRelease {
            tag_name: "v0.4.1".into(),
            body: Some("Hotfix".into()),
            draft: false,
        },
        GithubRelease {
            tag_name: "v0.4.0".into(),
            body: Some("Current version".into()),
            draft: false,
        },
    ];

    let notes = build_aggregated_release_notes("0.4.0", "0.5.1", None, &releases)
        .expect("aggregated notes");

    assert!(notes.contains("## v0.5.1"));
    assert!(notes.contains("## v0.5.0"));
    assert!(notes.contains("## v0.4.1"));
    assert!(!notes.contains("## v0.4.0"));
}

#[test]
fn falls_back_to_latest_body_when_release_list_does_not_match() {
    let releases = vec![GithubRelease {
        tag_name: "v0.3.9".into(),
        body: Some("Older version".into()),
        draft: false,
    }];

    let body = String::from("Latest release notes");
    let notes = build_aggregated_release_notes("0.4.0", "0.5.1", Some(&body), &releases)
        .expect("fallback notes");

    assert!(notes.contains("## 0.5.1"));
    assert!(notes.contains("Latest release notes"));
}

fn status_of(status: &str) -> power_paste::update::UpdateStatus {
    power_paste::update::UpdateStatus {
        status: status.into(),
        current_version: "0.3.4".into(),
        latest_version: Some("0.4.0".into()),
        body: None,
        published_at: None,
        downloaded_bytes: None,
        content_length: None,
        error: None,
    }
}

#[test]
fn a_check_starts_unless_one_runs() {
    let (next, action) = update_check_step(status_of("idle"), None, "0.3.4".into(), UpdateCheckEvent::Start);
    assert!(matches!(action, UpdateCheckAction::RunCheck));
    assert_eq!(next.status, "checking");
    assert_eq!(next.latest_version, None);
    let (next, action) = update_check_step(status_of("downloading"), None, "0.3.4".into(), UpdateCheckEvent::Start);
    assert!(matches!(action, UpdateCheckAction::ReturnCurrent));
    assert_eq!(next.status, "downloading");
    assert_eq!(next.latest_version.as_deref(), Some("0.4.0"));
}

#[test]
fn a_forced_state_wins_over_the_check() {
    let (next, action) = update_check_step(
        status_of("idle"),
        Some(status_of("available")),
        "0.3.4".into(),
        UpdateCheckEvent::Checked(Ok(None)),
    );
    assert!(matches!(action, UpdateCheckAction::ClearPending));
    assert_eq!(next.status, "available");
}

#[test]
fn the_answer_of_the_server_sets_the_status() {
    let offered = AvailableUpdate {
        version: "0.5.0".into(),
        body: Some("own notes".into()),
        date: Some("2026-01-02".into()),
        fetched_notes: Some(Some("## 0.5.0\n\nall notes".into())),
    };
    let (next, action) =
        update_check_step(status_of("checking"), None, "0.3.4".into(), UpdateCheckEvent::Checked(Ok(Some(offered))));
    assert!(matches!(action, UpdateCheckAction::KeepPending));
    assert_eq!(next.status, "available");
    assert_eq!(next.latest_version.as_deref(), Some("0.5.0"));
    assert_eq!(next.body.as_deref(), Some("## 0.5.0\n\nall notes"));
    assert_eq!(next.published_at.as_deref(), Some("2026-01-02"));
    let offered = AvailableUpdate { version: "0.5.0".into(), body: Some("own notes".into()), date: None, fetched_notes: None };
    let (next, _) =
        update_check_step(status_of("checking"), None, "0.3.4".into(), UpdateCheckEvent::Checked(Ok(Some(offered))));
    assert_eq!(next.body.as_deref(), Some("own notes"));
    let (next, action) = update_check_step(status_of("checking"), None, "0.3.4".into(), UpdateCheckEvent::Checked(Ok(None)));
    assert!(matches!(action, UpdateCheckAction::ClearPending));
    assert_eq!(next.status, "up_to_date");
    let (next, action) =
        update_check_step(status_of("checking"), None, "0.3.4".into(), UpdateCheckEvent::Checked(Err("offline".into())));
    assert!(matches!(action, UpdateCheckAction::ClearPending));
    assert_eq!(next.status, "error");
    assert_eq!(next.error.as_deref(), Some("offline"));
    assert_eq!(next.current_version, "0.3.4");
}

#[test]
fn an_install_needs_a_pending_update() {
    match install_start_step(status_of("available"), false, None, "0.3.4".into()) {
        Err(AppError::Message(message)) => assert_eq!(message, "No update is ready to install"),
        _ => panic!("an install without a pending update fails"),
    }
    match install_start_step(status_of("available"), false, Some("0.4.0".into()), "0.3.4".into()) {
        Ok(InstallStart::Download(started)) => {
            assert_eq!(started.status, "downloading");
            assert_eq!(started.downloaded_bytes, Some(0));
        }
        _ => panic!("the download starts"),
    }
    match install_start_step(status_of("available"), true, None, "0.3.4".into()) {
        Ok(InstallStart::Forced(done)) => {
            assert_eq!(done.status, "downloaded");
            assert_eq!(done.downloaded_bytes, Some(100));
            assert_eq!(done.content_length, Some(100));
        }
        _ => panic!("a forced install reports the download at once"),
    }
}
