use paker::indexing::compute_index_age_secs;
use paker::proposal_store::UtcTime;
use paker::records::{filter_profiles, parse_allowed_ids, ConnectionNav, ConnectionProfile, PrefixBookmark, UiPreferences};
use paker::s3_ops::{heads_to_seed, ListObjectsResult, ObjectInfo};
use paker::ui_state::{default_max_concurrent, panel_layout_mode, PanelLayoutMode, UiState};
use paker::records::portable_flag;
use paker::records::{profile_from_input, remove_profile, upsert_profile};
use paker::error::PakerError;
use paker::s3_ops::{collect_results, preview_cache_file_name};
use paker::local_fs::{sort_local_entries, LocalEntry};
use paker::proposal_store::{new_proposal_id, proposal_expires_at};
use paker::records::{AuditLog, ROTATION_SIZE_BYTES};

fn profile(id: &str) -> ConnectionProfile {
    ConnectionProfile {
        id: id.to_string(),
        name: format!("{id} name"),
        endpoint: None,
        region: "us-east-1".to_string(),
        access_key_id: "AKIA".to_string(),
        force_path_style: false,
        default_bucket: None,
    }
}

#[test]
fn allow_list_is_trimmed_and_skips_empty_ids() {
    assert_eq!(parse_allowed_ids(" a , b,,c ,"), vec!["a", "b", "c"]);
    assert!(parse_allowed_ids("").is_empty());
    assert!(parse_allowed_ids(" , ").is_empty());
}

#[test]
fn filter_profiles_keeps_allowed_in_order() {
    let all = vec![profile("a"), profile("b"), profile("c")];
    let kept = filter_profiles(all, &Some(vec!["c".to_string(), "a".to_string()]));
    let ids: Vec<&str> = kept.iter().map(|p| p.id.as_str()).collect();
    assert_eq!(ids, vec!["a", "c"]);
    let everything = filter_profiles(vec![profile("x"), profile("y")], &None);
    assert_eq!(everything.len(), 2);
    assert!(filter_profiles(vec![profile("x")], &Some(vec![])).is_empty());
}

#[test]
fn index_age_counts_whole_seconds_since_completion() {
    // 2024-06-10T06:13:20Z is 1_718_000_000.
    let now = UtcTime { secs: 1_718_000_090, nanos: 500_000_000 };
    assert_eq!(compute_index_age_secs(Some("2024-06-10T06:13:20Z"), now), Some(90));
    assert_eq!(compute_index_age_secs(Some("2024-06-10T08:13:20+02:00"), now), Some(90));
    // A completion time in the future counts as no age at all.
    assert_eq!(compute_index_age_secs(Some("2024-06-11T00:00:00Z"), now), Some(0));
    assert_eq!(compute_index_age_secs(Some("yesterday"), now), None);
    assert_eq!(compute_index_age_secs(None, now), None);
}

fn object(key: &str, is_prefix: bool) -> ObjectInfo {
    ObjectInfo {
        key: key.to_string(),
        size: 42,
        last_modified: Some("2024-01-01T00:00:00Z".to_string()),
        etag: Some("\"abc\"".to_string()),
        storage_class: Some("STANDARD".to_string()),
        is_prefix,
    }
}

#[test]
fn heads_are_seeded_for_real_objects_only() {
    let listing = ListObjectsResult {
        objects: vec![object("a.txt", false), object("dir/", false), object("p/", true), object("b.bin", false)],
        common_prefixes: vec!["p/".to_string()],
        continuation_token: None,
        is_truncated: false,
    };
    let heads = heads_to_seed(&listing);
    let keys: Vec<&str> = heads.iter().map(|h| h.key.as_str()).collect();
    assert_eq!(keys, vec!["a.txt", "b.bin"]);
    assert_eq!(heads[0].content_length, Some(42));
    assert_eq!(heads[0].etag.as_deref(), Some("\"abc\""));
    assert!(heads[0].content_type.is_none());
}

fn bookmark(id: &str, prefix: &str) -> PrefixBookmark {
    PrefixBookmark {
        id: id.to_string(),
        label: format!("label {id}"),
        bucket: "bucket".to_string(),
        prefix: prefix.to_string(),
    }
}

#[test]
fn ui_state_remembers_per_connection() {
    let mut state = UiState::new();
    assert_eq!(state.max_concurrent_transfers(), 0);
    assert!(state.last_local_dir("c1").is_none());
    state.set_last_local_dir("c1", "/home/alice");
    state.set_last_local_dir("c2", "/tmp");
    state.set_last_local_dir("c1", "/data");
    assert_eq!(state.last_local_dir("c1").as_deref(), Some("/data"));
    assert_eq!(state.last_local_dir("c2").as_deref(), Some("/tmp"));

    state.set_connection_nav("c1", ConnectionNav { bucket: Some("b".to_string()), prefix: None });
    let nav = state.connection_nav("c1").expect("nav stored");
    assert_eq!(nav.bucket.as_deref(), Some("b"));
    assert!(nav.prefix.is_none());
    assert!(state.connection_nav("c2").is_none());

    state.set_max_concurrent_transfers(5);
    assert_eq!(state.max_concurrent_transfers(), 5);
    state.set_preferences(UiPreferences {
        local_panel_open: true,
        details_pane_open: false,
        connections_collapsed: true,
        buckets_collapsed: false,
    });
    assert!(state.preferences().local_panel_open);
    assert_eq!(default_max_concurrent(), 3);
}

#[test]
fn bookmarks_add_and_remove() {
    let mut state = UiState::new();
    state.add_bookmark("c1", bookmark("b1", "logs/"));
    state.add_bookmark("c1", bookmark("b2", "img/"));
    let ids: Vec<String> = state.bookmarks("c1").into_iter().map(|b| b.id).collect();
    assert_eq!(ids, vec!["b1", "b2"]);
    state.remove_bookmark("c1", "b1");
    let left = state.bookmarks("c1");
    assert_eq!(left.len(), 1);
    assert_eq!(left[0].prefix, "img/");
    // Removing the last one drops the connection's list entirely.
    state.remove_bookmark("c1", "b2");
    assert!(state.bookmarks("c1").is_empty());
    let (_, _, marks) = state.parts();
    assert!(marks.get("c1").is_none());
    // Removing from an unknown connection changes nothing.
    state.remove_bookmark("nobody", "b1");
    assert!(state.bookmarks("nobody").is_empty());
}

#[test]
fn add_then_remove_restores_bookmarks() {
    let mut state = UiState::new();
    state.add_bookmark("c1", bookmark("keep", "a/"));
    state.add_bookmark("c1", bookmark("tmp", "b/"));
    state.remove_bookmark("c1", "tmp");
    let ids: Vec<String> = state.bookmarks("c1").into_iter().map(|b| b.id).collect();
    assert_eq!(ids, vec!["keep"]);
}

#[test]
fn panel_layout_modes() {
    assert_eq!(panel_layout_mode("three"), Ok(PanelLayoutMode::Three));
    assert_eq!(panel_layout_mode("four"), Ok(PanelLayoutMode::Four));
    assert_eq!(panel_layout_mode("five"), Err("invalid panel layout mode: five".to_string()));
}

#[test]
fn portable_mode_setting() {
    assert!(portable_flag(Some("1")));
    assert!(portable_flag(Some("TRUE")));
    assert!(portable_flag(Some("true")));
    assert!(!portable_flag(Some("yes")));
    assert!(!portable_flag(Some("0")));
    assert!(!portable_flag(None));
}

fn save_input(id: Option<&str>, name: &str) -> paker::records::SaveConnectionInput {
    paker::records::SaveConnectionInput {
        id: id.map(|s| s.to_string()),
        name: name.to_string(),
        endpoint: Some("https://minio.example.com".to_string()),
        region: "us-east-1".to_string(),
        access_key_id: "AKIAEXAMPLE".to_string(),
        secret_access_key: Some("secret".to_string()),
        session_token: None,
        force_path_style: true,
        default_bucket: Some("media".to_string()),
    }
}

#[test]
fn saving_a_connection_replaces_or_appends() {
    let mut profiles = vec![profile("a"), profile("b")];
    let edited = profile_from_input(save_input(Some("b"), "Renamed"));
    assert_eq!(edited.id, "b");
    assert_eq!(edited.default_bucket.as_deref(), Some("media"));
    upsert_profile(&mut profiles, edited);
    assert_eq!(profiles.len(), 2);
    assert_eq!(profiles[1].name, "Renamed");
    let fresh = profile_from_input(save_input(None, "New"));
    assert_eq!(fresh.id.len(), 36);
    let fresh_id = fresh.id.clone();
    upsert_profile(&mut profiles, fresh);
    assert_eq!(profiles.len(), 3);
    assert_eq!(profiles[2].id, fresh_id);
    assert!(remove_profile(&mut profiles, "a"));
    assert!(!remove_profile(&mut profiles, "a"));
    let ids: Vec<&str> = profiles.iter().map(|p| p.id.as_str()).collect();
    assert_eq!(ids, vec!["b", fresh_id.as_str()]);
}

#[test]
fn batch_results_report_the_first_error() {
    let ok = collect_results(vec![Ok("a".to_string()), Ok("b".to_string())]).expect("all ok");
    assert_eq!(ok, vec!["a", "b"]);
    let err = collect_results(vec![
        Ok("a".to_string()),
        Err(PakerError::AccessDenied),
        Err(PakerError::Internal),
    ]);
    assert!(matches!(err, Err(PakerError::AccessDenied)));
    assert!(collect_results(vec![]).expect("empty").is_empty());
}

fn listed(name: &str, is_dir: bool) -> LocalEntry {
    LocalEntry { name: name.to_string(), path: format!("/home/alice/{name}"), is_dir, size: 0, modified: None }
}

#[test]
fn local_listing_puts_directories_first_then_names() {
    let sorted = sort_local_entries(vec![
        listed("b.txt", false),
        listed("Zeta", true),
        listed("A.txt", false),
        listed("alpha", true),
        listed("a.txt", false),
    ]);
    let names: Vec<&str> = sorted.iter().map(|e| e.name.as_str()).collect();
    // "A.txt" and "a.txt" share a key and keep the order they came in.
    assert_eq!(names, vec!["alpha", "Zeta", "A.txt", "a.txt", "b.txt"]);
}

#[test]
fn proposal_ids_and_expiry() {
    let a = new_proposal_id();
    let b = new_proposal_id();
    assert_eq!(a.len(), 36);
    assert_ne!(a, b);
    assert!(!a.contains('.'));
    let exp = proposal_expires_at(UtcTime { secs: 1_000, nanos: 5 });
    assert_eq!(exp, UtcTime { secs: 1_900, nanos: 5 });
}

fn expected_hash(bucket: &str, key: &str) -> u64 {
    let mut hasher = std::collections::hash_map::DefaultHasher::new();
    std::hash::Hash::hash(bucket, &mut hasher);
    std::hash::Hash::hash(key, &mut hasher);
    std::hash::Hasher::finish(&hasher)
}

#[test]
fn preview_cache_names_hash_bucket_and_key() {
    let name = preview_cache_file_name("media", "photos/cat.jpg");
    assert_eq!(name, format!("{:x}.jpg", expected_hash("media", "photos/cat.jpg")));
    assert_eq!(name, preview_cache_file_name("media", "photos/cat.jpg"));
    assert_ne!(name, preview_cache_file_name("other", "photos/cat.jpg"));
    assert_eq!(preview_cache_file_name("media", "README"), format!("{:x}", expected_hash("media", "README")));
    assert_eq!(preview_cache_file_name("media", "logs/.env"), format!("{:x}", expected_hash("media", "logs/.env")));
}

#[test]
fn audit_log_rotates_only_over_size_to_a_backup_beside_it() {
    let log = AuditLog::new("/tmp/paker-data");
    assert_eq!(log.path(), "/tmp/paker-data/paker-audit.ndjson");
    assert!(log.needs_rotation(ROTATION_SIZE_BYTES + 1));
    assert!(!log.needs_rotation(ROTATION_SIZE_BYTES));
    assert!(!log.needs_rotation(0));
    let backup = log.backup_path(1_718_000_000);
    assert_eq!(backup, "/tmp/paker-data/paker-audit.1718000000.ndjson.bak");
    assert!(backup.ends_with(".ndjson.bak"));
    assert_ne!(backup, log.path());
}

#[test]
fn preview_names_take_the_extension_after_the_last_dot() {
    let h = |k: &str| format!("{:x}", expected_hash("b", k));
    assert_eq!(preview_cache_file_name("b", "a/x.tar.gz"), format!("{}.gz", h("a/x.tar.gz")));
    assert_eq!(preview_cache_file_name("b", "a/.bashrc"), h("a/.bashrc"));
    assert_eq!(preview_cache_file_name("b", "a/x."), h("a/x."));
    assert_eq!(preview_cache_file_name("b", "a/b.c/file"), h("a/b.c/file"));
    assert_eq!(preview_cache_file_name("b", "dir/pic.JPG/"), format!("{}.JPG", h("dir/pic.JPG/")));
}
