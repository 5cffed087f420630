use paker::error::PakerError;
use paker::jobs::BucketIndexManager;
use paker::local_fs::{format_unix_timestamp, EntryKind, LocalFsScope, UploadPath};
use paker::transfer::TransferManager;
use paker::transfer_run::{Direction, TransferAction, TransferEvent, TransferRun};
use paker::update::{
    cache_is_fresh, compare_versions, is_newer_version, strip_version_prefix, update_info_for, version_parts, VersionOrder,
};
use paker::vault::{idle_lock_elapsed, validate_master_password, UnlockGuard};

#[test]
fn try_start_deduplicates_running_jobs() {
    let mut mgr = BucketIndexManager::new();
    assert!(mgr.try_start("job-1"));
    assert!(!mgr.try_start("job-1"));
    assert!(mgr.is_running("job-1"));
}

#[test]
fn finish_allows_job_to_start_again() {
    let mut mgr = BucketIndexManager::new();
    assert!(mgr.try_start("job-1"));
    mgr.finish("job-1");
    assert!(!mgr.is_running("job-1"));
    assert!(mgr.try_start("job-1"));
}

#[test]
fn different_job_ids_are_tracked_independently() {
    let mut mgr = BucketIndexManager::new();
    assert!(mgr.try_start("job-a"));
    assert!(mgr.try_start("job-b"));
    mgr.finish("job-a");
    assert!(!mgr.is_running("job-a"));
    assert!(mgr.is_running("job-b"));
}

#[test]
fn register_creates_token_and_cancel_cancels_registered_transfer() {
    let mut mgr = TransferManager::new();
    let token = mgr.register("transfer-1");
    assert!(!token.is_cancelled());
    assert!(mgr.cancel("transfer-1"));
    assert!(token.is_cancelled());
}

#[test]
fn pause_resume_is_paused_lifecycle() {
    let mut mgr = TransferManager::new();
    mgr.register("transfer-1");
    assert!(!mgr.is_paused("transfer-1"));
    assert!(mgr.pause("transfer-1"));
    assert!(mgr.is_paused("transfer-1"));
    assert!(!mgr.pause("transfer-1"));
    assert!(mgr.resume("transfer-1"));
    assert!(!mgr.is_paused("transfer-1"));
    assert!(!mgr.resume("transfer-1"));
}

#[test]
fn remove_cleans_up_tokens_and_paused_set() {
    let mut mgr = TransferManager::new();
    mgr.register("transfer-1");
    mgr.pause("transfer-1");
    mgr.remove("transfer-1");
    assert!(!mgr.cancel("transfer-1"));
    assert!(!mgr.is_paused("transfer-1"));
}

#[test]
fn cancel_on_unknown_transfer_returns_false() {
    let mgr = TransferManager::new();
    assert!(!mgr.cancel("missing"));
}

#[test]
fn reregistering_gives_a_fresh_token() {
    let mut mgr = TransferManager::new();
    let first = mgr.register("t");
    let second = mgr.register("t");
    assert!(mgr.cancel("t"));
    assert!(second.is_cancelled());
    assert!(!first.is_cancelled());
}

const HOME: &str = "/home/alice";

#[test]
fn allows_paths_under_home() {
    let scope = LocalFsScope::new(HOME.to_string());
    let allowed = scope.validate_access(Some(scope.home_dir())).expect("home should be allowed");
    assert_eq!(allowed, HOME);
}

#[test]
fn allows_paths_under_picked_folder_outside_home() {
    let mut scope = LocalFsScope::new(HOME.to_string());
    scope.register_picked_folder("/tmp");
    let allowed = scope.validate_access(Some("/tmp")).expect("picked root allowed");
    assert_eq!(allowed, "/tmp");
    assert_eq!(scope.validate_access(Some("/tmp/x/y")).unwrap(), "/tmp/x/y");
}

#[test]
fn rejects_paths_outside_allowed_roots() {
    let scope = LocalFsScope::new(HOME.to_string());
    assert!(matches!(scope.validate_access(Some("/etc")), Err(PakerError::PathNotAllowed)));
    assert!(matches!(scope.validate_access(Some("/home/alicex")), Err(PakerError::PathNotAllowed)));
    assert!(matches!(scope.validate_access(None), Err(PakerError::PathNotAllowed)));
}

#[test]
fn rejects_directory_as_file_access() {
    let scope = LocalFsScope::new(HOME.to_string());
    assert!(matches!(
        scope.validate_file_access(Some(HOME), Some(EntryKind::Directory)),
        Err(PakerError::InvalidInput(_)) | Err(PakerError::PathNotAllowed)
    ));
}

#[test]
fn file_access_rules() {
    let mut scope = LocalFsScope::new(HOME.to_string());
    assert_eq!(scope.validate_file_access(Some("/home/alice/a.txt"), Some(EntryKind::File)).unwrap(), "/home/alice/a.txt");
    assert!(matches!(
        scope.validate_file_access(Some("/home/alice/link"), Some(EntryKind::Symlink)),
        Err(PakerError::PathNotAllowed)
    ));
    assert!(matches!(
        scope.validate_file_access(Some("/data/b.txt"), Some(EntryKind::File)),
        Err(PakerError::PathNotAllowed)
    ));
    scope.register_file_paths(&vec!["/data/b.txt".to_string()]);
    assert_eq!(scope.validate_file_access(Some("/data/b.txt"), Some(EntryKind::File)).unwrap(), "/data/b.txt");
}

#[test]
fn export_path_needs_an_accessible_ancestor() {
    let scope = LocalFsScope::new(HOME.to_string());
    let ok = scope.validate_export_path(
        "/home/alice/new/out.csv",
        true,
        Some((Some(HOME.to_string()), Some(EntryKind::Directory))),
    );
    assert_eq!(ok.unwrap(), "/home/alice/new/out.csv");
    assert!(matches!(scope.validate_export_path("out.csv", false, None), Err(PakerError::PathNotAllowed)));
}

#[test]
fn validate_master_password_rejects_short() {
    assert!(validate_master_password("short").is_err());
    assert!(validate_master_password("long-enough").is_ok());
}

#[test]
fn failed_unlock_backoff_escalates() {
    let mut guard = UnlockGuard::new();
    let now = 1_000_000u64;
    for _ in 0..5 {
        guard.register_failed_unlock(now);
    }
    assert!(guard.unlock_blocked(now));
    assert_eq!(guard.blocked_secs(now), 30);
    guard.register_failed_unlock(now);
    assert_eq!(guard.blocked_secs(now), 60);
    for _ in 0..10 {
        guard.register_failed_unlock(now);
    }
    assert_eq!(guard.blocked_secs(now), 300);
    assert!(!guard.unlock_blocked(now + 300_000));
    guard.reset();
    assert!(!guard.unlock_blocked(now));
}

#[test]
fn idle_lock_counts_minutes() {
    assert!(!idle_lock_elapsed(0, 1_000_000));
    assert!(!idle_lock_elapsed(15, 899));
    assert!(idle_lock_elapsed(15, 900));
}

#[test]
fn versions_compare_numerically() {
    assert_eq!(strip_version_prefix("v1.2.3"), "1.2.3");
    assert_eq!(strip_version_prefix("V2"), "2");
    assert_eq!(version_parts("1.10.0-beta+7"), vec![1, 10, 0, 7]);
    assert_eq!(compare_versions("1.10.0", "1.9.9"), VersionOrder::Greater);
    assert_eq!(compare_versions("1.2", "1.2.0"), VersionOrder::Equal);
    assert!(is_newer_version("0.3.1", "0.3.0"));
    assert!(!is_newer_version("0.3.0", "0.3.0"));
}

fn dropped(parent: &str, file: &str, kind: EntryKind) -> UploadPath {
    UploadPath { parent: Some(parent.to_string()), resolved: Some(file.to_string()), kind: Some(kind) }
}

#[test]
fn prepare_upload_paths_widens_scope_to_dropped_files() {
    let mut scope = LocalFsScope::new(HOME.to_string());
    let paths = vec![
        dropped("/data", "/data/a.txt", EntryKind::File),
        dropped("/home/alice", "/home/alice/b.txt", EntryKind::File),
    ];
    let validated = scope.prepare_upload_paths(&paths).expect("dropped files are accepted");
    assert_eq!(validated, vec!["/data/a.txt".to_string(), "/home/alice/b.txt".to_string()]);
    // The parent of a dropped file becomes a picked folder.
    assert_eq!(scope.validate_access(Some("/data/other")).unwrap(), "/data/other");
}

#[test]
fn prepare_upload_paths_stops_at_first_refused_path() {
    let mut scope = LocalFsScope::new(HOME.to_string());
    let paths = vec![
        dropped("/data", "/data/dir", EntryKind::Directory),
        dropped("/srv", "/srv/c.txt", EntryKind::File),
    ];
    assert!(matches!(
        scope.prepare_upload_paths(&paths),
        Err(PakerError::InvalidInput(m)) if m == "Path is not a file"
    ));
    // The second path was never reached, so its folder stays out of scope.
    assert!(matches!(scope.validate_access(Some("/srv")), Err(PakerError::PathNotAllowed)));
    let missing = vec![UploadPath { parent: None, resolved: None, kind: None }];
    assert!(matches!(scope.prepare_upload_paths(&missing), Err(PakerError::PathNotAllowed)));
}

#[test]
fn unix_timestamps_render_as_utc_dates() {
    assert_eq!(format_unix_timestamp(0), "1970-01-01T00:00:00Z");
    assert_eq!(format_unix_timestamp(86_399), "1970-01-01T23:59:59Z");
    assert_eq!(format_unix_timestamp(1_718_000_000), "2024-06-10T06:13:20Z");
    assert_eq!(format_unix_timestamp(951_782_400), "2000-02-29T00:00:00Z");
    assert_eq!(format_unix_timestamp(4_102_444_799), "2099-12-31T23:59:59Z");
    assert_eq!(format_unix_timestamp(253_402_300_799), "9999-12-31T23:59:59Z");
    // A time past i64::MAX is read as a negative one, as a signed cast does.
    assert_eq!(format_unix_timestamp(u64::MAX), "1970-01-01T00:00:-1Z");
}

#[test]
fn update_check_cache_lasts_a_day() {
    assert!(cache_is_fresh(1_000, 1_000));
    assert!(cache_is_fresh(1_000, 1_000 + 86_399));
    assert!(!cache_is_fresh(1_000, 1_000 + 86_400));
    assert!(cache_is_fresh(5_000, 1_000));
}

#[test]
fn release_report_compares_versions() {
    let info = update_info_for("0.4.2", "v0.5.0", "https://example.com/r".to_string(), "Paker 0.5.0".to_string());
    assert_eq!(info.latest_version, "0.5.0");
    assert!(info.update_available);
    assert_eq!(info.release_name, "Paker 0.5.0");
    let same = update_info_for("0.5.0", "V0.5.0", String::new(), String::new());
    assert!(!same.update_available);
    assert_eq!(same.current_version, "0.5.0");
}

#[test]
fn download_progress_runs_from_started_to_completed() {
    let (mut run, p) = TransferRun::start(Some("t-1".to_string()), "photos/cat.jpg", "photos/cat.jpg", Direction::Download, 0);
    assert_eq!((p.transfer_id.as_str(), p.file_name.as_str(), p.direction.as_str()), ("t-1", "cat.jpg", "download"));
    assert_eq!((p.bytes, p.total, p.status.as_str()), (0, 0, "started"));
    assert!(run.on_event(TransferEvent::Sized(10)).0.is_none());
    let (p, a) = run.on_event(TransferEvent::Chunk(4));
    let p = p.expect("progress");
    assert_eq!((p.bytes, p.total, p.status.as_str(), a), (4, 10, "in_progress", TransferAction::Continue));
    let (p, _) = run.on_event(TransferEvent::Chunk(6));
    assert_eq!(p.expect("progress").bytes, 10);
    let (p, a) = run.on_event(TransferEvent::Finished);
    let p = p.expect("progress");
    assert_eq!((p.bytes, p.total, p.status.as_str(), a), (10, 10, "completed", TransferAction::Stop));
}

#[test]
fn cancelled_transfer_reports_where_it_stood_and_cleans_up() {
    let (mut run, _) = TransferRun::start(None, "/home/u/big.iso", "dir/big.iso", Direction::Upload, 100);
    assert_eq!(run.transfer_id.len(), 36);
    assert_eq!(run.file_name, "big.iso");
    run.on_event(TransferEvent::Chunk(30));
    let (p, a) = run.on_event(TransferEvent::Paused);
    assert_eq!((p.expect("progress").status.as_str(), a), ("paused", TransferAction::Continue));
    let (p, a) = run.on_event(TransferEvent::Cancelled);
    let p = p.expect("progress");
    assert_eq!((p.bytes, p.total, p.status.as_str(), a), (30, 100, "cancelled", TransferAction::CleanUpAndStop));
}

#[test]
fn failed_upload_reports_failure_and_failed_download_does_not() {
    let (mut up, _) = TransferRun::start(Some("u".to_string()), "a.txt", "k/a.txt", Direction::Upload, 7);
    let (p, a) = up.on_event(TransferEvent::Failed);
    let p = p.expect("progress");
    assert_eq!((p.bytes, p.total, p.status.as_str(), a), (0, 7, "failed", TransferAction::Stop));
    let (mut down, _) = TransferRun::start(Some("d".to_string()), "..", "..", Direction::Download, 0);
    assert_eq!(down.file_name, "..");
    let (p, a) = down.on_event(TransferEvent::Failed);
    assert!(p.is_none());
    assert_eq!(a, TransferAction::Stop);
}
