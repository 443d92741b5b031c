use power_paste::digest::sha256_hex;
use power_paste::history::{should_hydrate_source_icon, ClipboardHistory};
use power_paste::models::CapturedClipboard;

fn text_capture(text: &str) -> CapturedClipboard {
    CapturedClipboard::Text {
        text: text.to_string(),
        html_text: None,
        rtf_text: None,
        hash: sha256_hex(text.as_bytes()),
    }
}

fn mixed_hello() -> CapturedClipboard {
    CapturedClipboard::Mixed {
        text: "hello".into(),
        html_text: Some("<p>hello</p><img src=\"cid:test\" />".into()),
        rtf_text: None,
        png_bytes: None,
        hash: sha256_hex(b"hello"),
        image_width: 0,
        image_height: 0,
    }
}

const T1: &str = "2024-05-01T10:00:01+00:00";
const T2: &str = "2024-05-01T10:00:02+00:00";
const T3: &str = "2024-05-01T10:00:03+00:00";

#[test]
fn creates_database_and_inserts_rows() {
    let mut store = ClipboardHistory::new();
    let outcome = store.upsert_capture(text_capture("alpha"), None, 200, T1);
    assert!(outcome.inserted);
    assert_eq!(store.list_all().len(), 1);
}

#[test]
fn deduplicates_same_text_content() {
    let mut store = ClipboardHistory::new();
    assert!(store.upsert_capture(text_capture("alpha"), None, 200, T1).inserted);
    assert!(!store.upsert_capture(text_capture("alpha"), None, 200, T2).inserted);
    assert_eq!(store.list_all().len(), 1);
}

#[test]
fn evicts_oldest_unpinned_items() {
    let mut store = ClipboardHistory::new();
    store.upsert_capture(text_capture("alpha"), None, 2, T1);
    store.upsert_capture(text_capture("beta"), None, 2, T2);
    let outcome = store.upsert_capture(text_capture("gamma"), None, 2, T3);

    let items = store.list_all();
    assert_eq!(items.len(), 2);
    assert!(items.iter().all(|item| item.full_text.as_deref() != Some("alpha")));
    assert_eq!(outcome.evicted.len(), 1);
}

#[test]
fn deletes_and_clears_unpinned_rows() {
    let mut store = ClipboardHistory::new();
    store.upsert_capture(text_capture("alpha"), None, 200, T1);
    store.upsert_capture(text_capture("beta"), None, 200, T2);

    let id = store
        .list_all()
        .into_iter()
        .find(|item| item.full_text.as_deref() == Some("alpha"))
        .expect("alpha item")
        .id;
    store.toggle_pin(&id, T3);
    store.clear_history();

    let items = store.list_all();
    assert_eq!(items.len(), 1);
    assert_eq!(items[0].id, id);

    store.delete_item(&id);
    assert!(store.list_all().is_empty());
}

#[test]
fn updates_text_items() {
    let mut store = ClipboardHistory::new();
    store.upsert_capture(text_capture("alpha"), None, 200, T1);
    let id = store.list_all()[0].id.clone();

    assert!(store.update_text_item(&id, "beta", T2).is_ok());
    let item = store.get_item(&id).expect("row");
    assert_eq!(item.full_text.as_deref(), Some("beta"));
    assert_eq!(item.hash, sha256_hex("beta".as_bytes()));
    assert_eq!(item.preview, "beta");
    assert_eq!(item.created_at, T2);
}

#[test]
fn updates_source_app_when_same_content_is_captured_again() {
    let mut store = ClipboardHistory::new();
    store.upsert_capture(
        text_capture("alpha"),
        Some(("PixPin".into(), Some("pixpin-icon".into()))),
        200,
        T1,
    );
    store.upsert_capture(
        text_capture("alpha"),
        Some(("DingTalk".into(), Some("dingtalk-icon".into()))),
        200,
        T2,
    );

    let item = store.list_all().remove(0);
    assert_eq!(item.source_app.as_deref(), Some("DingTalk"));
    assert_eq!(item.source_icon_data_url.as_deref(), Some("dingtalk-icon"));
}

#[test]
fn stores_mixed_items_without_binary_image_payload() {
    let mut store = ClipboardHistory::new();
    store.upsert_capture(mixed_hello(), None, 200, T1);

    let item = store.list_all().remove(0);
    assert_eq!(item.kind, "mixed");
    assert_eq!(item.full_text.as_deref(), Some("hello"));
    assert!(item.image_png.is_none());
    assert!(item.html_text.as_deref().unwrap_or_default().contains("<img"));
}

#[test]
fn upgrades_existing_text_item_to_mixed_when_html_contains_image() {
    let mut store = ClipboardHistory::new();
    store.upsert_capture(text_capture("hello"), None, 200, T1);
    store.upsert_capture(mixed_hello(), None, 200, T2);

    let item = store.list_all().remove(0);
    assert_eq!(item.kind, "mixed");
    assert!(item.html_text.as_deref().unwrap_or_default().contains("<img"));
    assert_eq!(store.len(), 1);
}

#[test]
fn refuses_to_edit_missing_or_non_text_items() {
    let mut store = ClipboardHistory::new();
    let error = store.update_text_item("missing", "beta", T1).err().expect("missing item");
    assert_eq!(error.to_string(), "Clipboard item not found");

    let outcome = store.upsert_capture(mixed_hello(), None, 200, T1);
    let error = store
        .update_text_item(&outcome.item.id, "beta", T2)
        .err()
        .expect("mixed item");
    assert_eq!(error.to_string(), "Only text items can be edited");
}

#[test]
fn pinned_items_survive_eviction() {
    let mut store = ClipboardHistory::new();
    let first = store.upsert_capture(text_capture("alpha"), None, 1, T1).item.id;
    store.toggle_pin(&first, T1);
    store.upsert_capture(text_capture("beta"), None, 1, T2);

    let items = store.list_all();
    assert_eq!(items.len(), 1);
    assert_eq!(items[0].id, first);
    assert!(items[0].pinned);
}

#[test]
fn favourites_are_evicted_after_ordinary_items() {
    let mut store = ClipboardHistory::new();
    let fav = store.upsert_capture(text_capture("alpha"), None, 2, T1).item.id;
    store.toggle_favorite(&fav);
    store.upsert_capture(text_capture("beta"), None, 2, T2);
    store.upsert_capture(text_capture("gamma"), None, 2, T3);

    let texts: Vec<String> = store
        .list_all()
        .into_iter()
        .map(|item| item.full_text.unwrap_or_default())
        .collect();
    assert_eq!(texts.len(), 2);
    assert!(texts.contains(&"alpha".to_string()));
    assert!(texts.contains(&"gamma".to_string()));
}

#[test]
fn toggling_a_pin_twice_restores_the_entry() {
    let mut store = ClipboardHistory::new();
    let id = store.upsert_capture(text_capture("alpha"), None, 200, T1).item.id;
    store.toggle_pin(&id, T2);
    let pinned = store.get_item(&id).expect("item");
    assert!(pinned.pinned);
    assert_eq!(pinned.pinned_at.as_deref(), Some(T2));
    store.toggle_pin(&id, T3);
    let unpinned = store.get_item(&id).expect("item");
    assert!(!unpinned.pinned);
    assert_eq!(unpinned.pinned_at, None);
}

#[test]
fn lists_pinned_then_favourite_then_newest() {
    let mut store = ClipboardHistory::new();
    let a = store.upsert_capture(text_capture("alpha"), None, 200, T1).item.id;
    let b = store.upsert_capture(text_capture("beta"), None, 200, T2).item.id;
    let c = store.upsert_capture(text_capture("gamma"), None, 200, T3).item.id;
    store.toggle_favorite(&a);
    store.toggle_pin(&b, T3);
    let ids: Vec<String> = store.list_all().into_iter().map(|item| item.id).collect();
    assert_eq!(ids, vec![b, a, c]);
}

#[test]
fn source_icon_update_reports_only_changes() {
    let mut store = ClipboardHistory::new();
    let id = store
        .upsert_capture(text_capture("alpha"), Some(("App".into(), None)), 200, T1)
        .item
        .id;
    assert!(store.update_source_icon(&id, "data:image/png;base64,AA=="));
    assert!(!store.update_source_icon(&id, "data:image/png;base64,AA=="));
    assert!(!store.update_source_icon("missing", "icon"));
    assert_eq!(
        store.get_item(&id).expect("item").source_icon_data_url.as_deref(),
        Some("data:image/png;base64,AA==")
    );
}

#[test]
fn hydrates_icons_only_with_a_path_or_an_icon() {
    assert!(!should_hydrate_source_icon(None, None));
    assert!(!should_hydrate_source_icon(Some(""), Some("")));
    assert!(should_hydrate_source_icon(Some("C:\\app.exe"), None));
    assert!(should_hydrate_source_icon(None, Some("iVBOR")));
}

#[test]
fn search_finds_text_preview_and_source_case_insensitively() {
    let mut store = ClipboardHistory::new();
    store.upsert_capture(text_capture("Hello World"), Some(("Notepad".into(), None)), 200, T1);
    store.upsert_capture(text_capture("second entry"), Some(("Browser".into(), None)), 200, T2);
    store.upsert_capture(text_capture("third"), None, 200, T3);

    let found = store.list_history(Some("  WORLD "), 10);
    assert_eq!(found.len(), 1);
    assert_eq!(found[0].full_text.as_deref(), Some("Hello World"));

    let by_source = store.list_history(Some("browser"), 10);
    assert_eq!(by_source.len(), 1);
    assert_eq!(by_source[0].full_text.as_deref(), Some("second entry"));

    assert_eq!(store.list_history(None, 10).len(), 3);
    assert_eq!(store.list_history(Some("   "), 2).len(), 2);
    assert!(store.list_history(Some("absent"), 10).is_empty());
}

#[test]
fn search_wildcards_follow_sql_like() {
    let mut store = ClipboardHistory::new();
    store.upsert_capture(text_capture("abc"), None, 200, T1);
    store.upsert_capture(text_capture("axc"), None, 200, T2);
    store.upsert_capture(text_capture("a%c"), None, 200, T3);
    assert_eq!(store.list_history(Some("a_c"), 10).len(), 3);
    assert_eq!(store.list_history(Some("a%c"), 10).len(), 3);
    assert_eq!(store.list_history(Some("b"), 10).len(), 1);
}

#[test]
fn search_lists_newest_first_and_respects_the_limit() {
    let mut store = ClipboardHistory::new();
    store.upsert_capture(text_capture("note one"), None, 200, T1);
    store.upsert_capture(text_capture("note two"), None, 200, T2);
    store.upsert_capture(text_capture("note three"), None, 200, T3);
    let found = store.list_history(Some("note"), 2);
    let texts: Vec<String> = found.into_iter().map(|item| item.full_text.unwrap_or_default()).collect();
    assert_eq!(texts, vec!["note three".to_string(), "note two".to_string()]);
}

#[test]
fn search_lowercases_the_query_but_only_ascii_in_entries() {
    let mut store = ClipboardHistory::new();
    store.upsert_capture(text_capture("\u{c9}COLE"), None, 200, T1);
    assert_eq!(store.list_history(Some("cole"), 10).len(), 1);
    assert_eq!(store.list_history(Some("\u{e9}cole"), 10).len(), 0);
    assert_eq!(store.list_history(Some("\u{c9}cole"), 10).len(), 0);
}

#[test]
fn trimming_takes_out_only_the_oldest_unpinned_entries() {
    let mut store = ClipboardHistory::new();
    let alpha = store.upsert_capture(text_capture("alpha"), None, 200, T1).item.id;
    let beta = store.upsert_capture(text_capture("beta"), None, 200, T2).item.id;
    let gamma = store.upsert_capture(text_capture("gamma"), None, 200, T3).item.id;
    store.toggle_pin(&alpha, T3);
    store.toggle_favorite(&beta);
    let outcome = store.upsert_capture(text_capture("delta"), None, 2, "2024-05-01T10:00:04+00:00");
    assert_eq!(outcome.evicted, vec![gamma, outcome.item.id.clone()]);
    let left: Vec<String> = store.list_all().into_iter().map(|item| item.id).collect();
    assert_eq!(left.len(), 2);
    assert!(left.contains(&alpha));
    assert!(left.contains(&beta));
}
