use paker::builders::ActionKind;
use paker::error::PakerError;
use paker::execute::{delete_batches, deletion_targets, plan_delete_run, plan_rename_cleanup, DeleteRun, DeletionTargets, ExecutionProgress};
use paker::hmac_token::{verify, HmacKey};
use paker::indexing::{IndexEvent, IndexJob, IndexPhase, ListedObject, MultipartProgress, PrefixTally};
use paker::plans::{delete_plan, finish_proposal, rename_plan, sync_plan, IndexedObject, SyncMode, SyncPlanInput};
use paker::proposal_store::{ProposalStore, UtcTime};
use paker::rename_pattern::RenamePatternInput;
use paker::s3_ops::{
    build_export_content, csv_escape, join_prefix, parent_listing_prefix, parent_prefix_from_key,
    prefixes_for_keys, resolve_dest_key, ExportFormat,
};

fn obj(key: &str, last_modified: &str) -> IndexedObject {
    IndexedObject {
        key: key.to_string(),
        size: 100,
        last_modified: Some(last_modified.to_string()),
        etag: None,
        storage_class: None,
    }
}

#[test]
fn sync_plan_computes_add_update_delete() {
    let src = vec![
        obj("src/a.txt", "2024-06-01"),
        obj("src/b.txt", "2024-06-01"),
        obj("src/c.txt", "2024-07-01"),
        obj("src/d.txt", "2024-06-01"),
        obj("src/e.txt", "2024-06-01"),
    ];
    let dst = vec![
        obj("dst/a.txt", "2024-06-01"),
        obj("dst/b.txt", "2024-06-01"),
        obj("dst/c.txt", "2024-05-01"),
        obj("dst/f.txt", "2024-06-01"),
    ];
    let input = SyncPlanInput {
        connection_id: "conn".to_string(),
        bucket: "bucket".to_string(),
        source_prefix: "src/".to_string(),
        dest_prefix: "dst/".to_string(),
        mode: SyncMode::Mirror,
        generate_cli: false,
    };
    let plan = sync_plan(&input, &src, &dst);
    let items = &plan.draft.preview_items;
    let adds = items.iter().filter(|i| i.action_description.starts_with("Add")).count();
    let updates = items.iter().filter(|i| i.action_description.starts_with("Update")).count();
    let deletes = items.iter().filter(|i| i.action_description.starts_with("Delete")).count();
    assert_eq!(adds, 2, "expected 2 adds");
    assert_eq!(updates, 1, "expected 1 update");
    assert_eq!(deletes, 1, "expected 1 delete");
    assert_eq!(plan.draft.total_affected, 4);
    assert_eq!(plan.draft.total_bytes, 300);
    assert_eq!(items[0].action_description, "Add → dst/d.txt");
    assert_eq!(items[3].action_description, "Delete dst/f.txt");
    assert!(plan.cli_suggestions.is_none());
}

#[test]
fn delete_plan_previews_and_counts() {
    let objects = vec![obj("a", "x"), obj("b", "x")];
    let draft = delete_plan("bkt", &objects, Some(60), None).expect("clean");
    assert_eq!(draft.total_affected, 2);
    assert_eq!(draft.total_bytes, 200);
    assert_eq!(draft.preview_items[1].action_description, "Delete s3://bkt/b");
    let err = delete_plan("bkt", &objects, None, None).err().expect("stale");
    assert!(matches!(err, PakerError::PolicyViolation(m) if m.contains("stale")));
}

#[test]
fn delete_plan_warns_about_glacier() {
    let mut o = obj("cold", "x");
    o.storage_class = Some("deep_archive".to_string());
    let draft = delete_plan("bkt", &vec![o], Some(1), None).expect("clean");
    assert!(draft.warnings.iter().any(|w| w.contains("GLACIER")));
}

#[test]
fn build_proposal_returns_preview_and_token() {
    let objects: Vec<IndexedObject> = (0..5)
        .map(|i| IndexedObject {
            key: format!("key-{i}.txt"),
            size: (i * 100) as i64,
            last_modified: Some("2024-01-01T00:00:00Z".to_string()),
            etag: None,
            storage_class: None,
        })
        .collect();
    let draft = delete_plan("bucket", &objects, Some(60), None).expect("clean");
    let mut store = ProposalStore::new();
    let key = HmacKey([1u8; 32]);
    let now = UtcTime { secs: 1_718_000_000, nanos: 0 };
    let proposal = finish_proposal(
        ActionKind::DeleteByQuery,
        "conn",
        "bucket",
        draft,
        None,
        "{}".to_string(),
        "prop-1".to_string(),
        now,
        &key,
        &mut store,
    )
    .expect("proposal");
    assert_eq!(proposal.total_affected, 5);
    assert_eq!(proposal.preview_items.len(), 5);
    assert!(proposal.token.starts_with("v1."));
    assert_eq!(proposal.expires_at, "2024-06-10T06:28:20+00:00");
    assert!(verify(&key, &proposal.token, "prop-1", "conn", "bucket", "deleteByQuery", now.secs).is_ok());
    assert!(store.claim("prop-1", &proposal.token, now).is_ok());
}

#[test]
fn rename_plan_moves_matching_keys() {
    let input = RenamePatternInput {
        connection_id: "c".to_string(),
        bucket: "b".to_string(),
        source_pattern: "logs/*.gz".to_string(),
        dest_template: "archive/{1}.gz".to_string(),
        copy_only: false,
        query: None,
    };
    let objects = vec![obj("logs/x.gz", "t"), obj("photos/y.gz", "t"), obj("archive/z.gz", "t")];
    let plan = rename_plan(&input, &objects, Some(5), None).expect("plan");
    assert_eq!(plan.pairs, vec![("logs/x.gz".to_string(), "archive/x.gz".to_string())]);
    assert_eq!(plan.draft.preview_items[0].action_description, "Rename: logs/x.gz → archive/x.gz");
    assert_eq!(
        plan.draft.preview_items[0].metadata,
        Some(vec![("destKey".to_string(), "archive/x.gz".to_string())])
    );
}

#[test]
fn deletion_targets_intersect_live_keys() {
    let stored = vec!["a".to_string(), "b".to_string(), "a".to_string(), "gone".to_string()];
    let live = vec![obj("b", "t"), obj("a", "t"), obj("c", "t")];
    let t = deletion_targets(&stored, &live);
    assert_eq!(t.keys, vec!["a".to_string(), "b".to_string()]);
    assert_eq!(t.total_bytes, 300);
}

#[test]
fn delete_batches_hold_at_most_a_thousand_keys() {
    let keys: Vec<String> = (0..2500).map(|i| format!("k{i}")).collect();
    let batches = delete_batches(&keys);
    assert_eq!(batches.len(), 3);
    assert_eq!(batches[0].len(), 1000);
    assert_eq!(batches[2].len(), 500);
    assert_eq!(batches[2][0], "k2000");
}

#[test]
fn execution_progress_records_outcomes() {
    let mut p = ExecutionProgress::new();
    p.record_delete_batch(&vec!["a".to_string(), "b".to_string()], None);
    p.record_delete_batch(&vec!["c".to_string()], Some("boom".to_string()));
    p.record_copy("d", None);
    p.record_cleanup_failure(&vec!["d".to_string()], "denied");
    let r = p.finish("id", ActionKind::RenamePattern, 0);
    assert_eq!(r.objects_affected, 3);
    assert_eq!(r.errors.len(), 2);
    assert_eq!(r.errors[0].message, "boom");
    assert_eq!(r.errors[1].message, "copy succeeded but delete failed: denied");
}

#[test]
fn index_job_runs_to_completion() {
    let (mut job, start) = IndexJob::start("c", "b", "100");
    assert_eq!(start.meta.status, "running");
    let s1 = job.step(IndexEvent::Page { count: 1000, is_truncated: true, next_token: Some("t".to_string()) }, "101");
    assert!(s1.completion.is_none());
    assert_eq!(job.continuation_token.as_deref(), Some("t"));
    let s2 = job.step(IndexEvent::Page { count: 5, is_truncated: false, next_token: None }, "102");
    let done = s2.completion.expect("completed");
    assert_eq!(done.meta.object_count, 1005);
    assert_eq!(done.meta.completed_at.as_deref(), Some("102"));
    assert!(done.progress.done);
    assert_eq!(job.phase, IndexPhase::Completed);
}

#[test]
fn index_job_failure_reports_message() {
    let (mut job, _) = IndexJob::start("c", "b", "100");
    let s = job.step(IndexEvent::PageFailed("denied".to_string()), "101");
    assert_eq!(s.error.as_deref(), Some("index_bucket_flat failed: denied"));
    assert_eq!(s.report.meta.status, "failed");
    assert_eq!(job.phase, IndexPhase::Failed);
}

#[test]
fn prefix_tally_skips_folder_markers() {
    let mut t = PrefixTally::new("photos");
    assert_eq!(t.prefix, "photos/");
    let page = vec![
        ListedObject { key: Some("photos/".to_string()), size: 0 },
        ListedObject { key: Some("photos/a.jpg".to_string()), size: 10 },
        ListedObject { key: None, size: 99 },
        ListedObject { key: Some("photos/b.jpg".to_string()), size: -3 },
    ];
    let progress = t.add_page(&page);
    assert_eq!(progress.object_count, 2);
    assert_eq!(progress.total_bytes, 10);
    let (result, last) = t.finish();
    assert_eq!(result.object_count, 2);
    assert!(last.done);
}

#[test]
fn multipart_parts_are_numbered() {
    let mut m = MultipartProgress::new();
    m.record_part(5, Some("e1".to_string())).unwrap();
    let err = m.record_part(5, None).unwrap_err();
    assert_eq!(err, "upload_part 2 missing etag");
    assert_eq!(m.parts, vec![(1, "e1".to_string())]);
    assert_eq!(m.uploaded, 5);
}

#[test]
fn key_helpers() {
    assert_eq!(join_prefix("photos", "/tmp/cat.jpg"), "photos/cat.jpg");
    assert_eq!(join_prefix("", "cat.jpg"), "cat.jpg");
    assert_eq!(parent_prefix_from_key("a/b/c.txt"), "a/b/");
    assert_eq!(parent_prefix_from_key("/c.txt"), "");
    assert_eq!(parent_listing_prefix("a/b/"), Some("a/".to_string()));
    assert_eq!(parent_listing_prefix(""), None);
    assert_eq!(resolve_dest_key("x/y.txt", None, Some("dst")), "dst/y.txt");
    assert_eq!(resolve_dest_key("x/y.txt", Some("k"), Some("dst")), "k");
    assert_eq!(
        prefixes_for_keys(&vec!["b/1".to_string(), "a/2".to_string(), "b/3".to_string(), "top".to_string()]),
        vec!["".to_string(), "a/".to_string(), "b/".to_string()]
    );
    assert_eq!(csv_escape("a,\"b\""), "\"a,\"\"b\"\"\"");
}

#[test]
fn export_formats() {
    let objects = vec![obj("a,b", "2024")];
    let keys = vec!["a,b".to_string(), "z".to_string()];
    assert_eq!(build_export_content(&objects, &keys, ExportFormat::Clipboard), "a,b\nz");
    assert_eq!(
        build_export_content(&objects, &keys, ExportFormat::Csv),
        "key,size,last_modified,storage_class\n\"a,b\",100,2024,\nz,,,\n"
    );
    assert_eq!(build_export_content(&objects, &keys, ExportFormat::Json), "[\n  \"a,b\",\n  \"z\"\n]");
}

#[test]
fn delete_run_skips_dry_runs_and_empty_targets() {
    let targets = DeletionTargets { keys: vec!["a".to_string(), "b".to_string()], total_bytes: 10 };
    match plan_delete_run("p-1", true, &targets) {
        DeleteRun::Skip(r) => {
            assert_eq!(r.proposal_id, "p-1");
            assert_eq!(r.kind, ActionKind::DeleteByQuery);
            assert_eq!(r.objects_affected, 0);
            assert_eq!(r.bytes_affected, 0);
            assert!(r.errors.is_empty());
        }
        DeleteRun::Batches(_) => panic!("a dry run deletes nothing"),
    }
    let empty = DeletionTargets { keys: vec![], total_bytes: 0 };
    assert!(matches!(plan_delete_run("p-2", false, &empty), DeleteRun::Skip(_)));
    let many = DeletionTargets { keys: (0..2500).map(|i| format!("k{i}")).collect(), total_bytes: 0 };
    match plan_delete_run("p-3", false, &many) {
        DeleteRun::Batches(b) => {
            assert_eq!(b.iter().map(|x| x.len()).collect::<Vec<_>>(), vec![1000, 1000, 500]);
            assert_eq!(b.concat(), many.keys);
        }
        DeleteRun::Skip(_) => panic!("keys left to delete"),
    }
}

#[test]
fn rename_cleanup_deletes_copied_sources_unless_copy_only() {
    let mut progress = ExecutionProgress::new();
    assert!(plan_rename_cleanup(false, &progress).is_none());
    for i in 0..1500 {
        progress.record_copy(&format!("src-{i}"), None);
    }
    progress.record_copy("failed", Some("boom".to_string()));
    assert!(plan_rename_cleanup(true, &progress).is_none());
    let batches = plan_rename_cleanup(false, &progress).expect("cleanup");
    assert_eq!(batches.len(), 2);
    assert_eq!(batches[0].len(), 1000);
    assert_eq!(batches[1].len(), 500);
    assert_eq!(batches.concat(), progress.copied);
}

#[test]
fn export_json_matches_serde_json_pretty() {
    let keys = vec!["a\"b".to_string(), "tab\t".to_string()];
    let objects: Vec<IndexedObject> = vec![];
    assert_eq!(
        build_export_content(&objects, &keys, ExportFormat::Json),
        serde_json::to_string_pretty(&keys).unwrap()
    );
    assert_eq!(build_export_content(&objects, &vec![], ExportFormat::Json), "[]");
}
