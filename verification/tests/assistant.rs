use paker::builders::ActionKind;
use paker::hmac_token::{sign, verify, HmacKey};
use paker::index_query::{describe_index_query, escape_like, format_bytes, IndexQuery};
use paker::llm::{
    merge_with_regex, parser_model_candidates, resolve_embed_model_path, resolve_parser_model_path,
    LlmParsedQuery, ParseSource, EMBED_MODEL_PRIMARY, INDEX_QUERY_GBNF, PARSER_MODEL_PRIMARY,
};
use paker::policy::{check, PolicyContext};
use paker::proposal_store::{ProposalEntry, ProposalStatus, ProposalStore, UtcTime};
use paker::rename_pattern::{extract_captures, substitute_template};
use paker::rule_parser::{parse_natural_language, size_capture, ParseConfidence, ParsedAssistantQuery};
use paker::templates::{generate_aws_cli, generate_cli_commands, generate_rclone, CliGenerateInput};
use paker::error::PakerError;

const NOW_SECS: i64 = 1_718_000_000;

fn size_value(num: &str, unit: Option<&str>) -> Option<u64> {
    let value: f64 = num.parse().ok()?;
    let multiplier = match unit.unwrap_or("b").to_lowercase().as_str() {
        "kb" => 1024f64,
        "mb" => 1024f64 * 1024f64,
        "gb" => 1024f64 * 1024f64 * 1024f64,
        "tb" => 1024f64 * 1024f64 * 1024f64 * 1024f64,
        _ => 1f64,
    };
    Some((value * multiplier).round() as u64)
}

fn parse(input: &str) -> ParsedAssistantQuery {
    let size = size_capture(input).and_then(|(n, u)| size_value(&n, u.as_deref()));
    parse_natural_language(input, size, NOW_SECS, 0).expect("parse")
}

#[test]
fn parses_large_pdf_last_month() {
    let parsed = parse("pdf files larger than 100mb last 30 days");
    assert!(parsed.query.min_size.unwrap() >= 100 * 1024 * 1024);
    assert_eq!(parsed.query.key_pattern.as_deref(), Some("%.pdf"));
    assert!(parsed.query.modified_after.is_some());
    assert_eq!(parsed.confidence, ParseConfidence::High);
}

#[test]
fn parses_glacier_under_prefix() {
    let parsed = parse("glacier under logs/");
    assert!(parsed.query.storage_class.is_some());
    assert_eq!(parsed.query.prefix.as_deref(), Some("logs/"));
}

#[test]
fn fallback_substring_search() {
    let parsed = parse("cat photos");
    assert_eq!(parsed.query.key_pattern.as_deref(), Some("%cat photos%"));
    assert_eq!(parsed.confidence, ParseConfidence::Low);
}

#[test]
fn parses_glob_pattern() {
    let parsed = parse("*.tmp");
    assert_eq!(parsed.query.key_pattern.as_deref(), Some("%.tmp"));
}

#[test]
fn size_phrase_is_number_and_unit() {
    assert_eq!(size_capture("files larger than 100mb"), Some(("100".to_string(), Some("mb".to_string()))));
    assert_eq!(size_capture("cat photos"), None);
}

#[test]
fn empty_request_asks_for_input() {
    let parsed = parse("   ");
    assert_eq!(parsed.summary, "Enter a search query");
    assert_eq!(parsed.confidence, ParseConfidence::Low);
    assert!(parsed.query.key_pattern.is_none());
}

#[test]
fn relative_days_count_back_from_now() {
    let parsed = parse("logs last 2 days");
    assert_eq!(parsed.query.modified_after.as_deref(), Some("2024-06-08T06:13:20+00:00"));
}

#[test]
fn since_date_is_kept_verbatim() {
    let parsed = parse("reports since 2024-01-15");
    assert_eq!(parsed.query.modified_after.as_deref(), Some("2024-01-15T00:00:00Z"));
}

#[test]
fn residual_words_become_key_filter() {
    let parsed = parse("invoices glacier");
    assert_eq!(parsed.query.key_pattern.as_deref(), Some("%invoices%"));
    assert_eq!(parsed.confidence, ParseConfidence::Medium);
}

#[test]
fn describe_combines_clauses() {
    let q = IndexQuery {
        min_size: Some(100 * 1024 * 1024),
        key_pattern: Some("%.pdf".to_string()),
        ..IndexQuery::empty()
    };
    let desc = describe_index_query(&q);
    assert!(desc.contains("size ≥"));
    assert!(desc.contains(".pdf"));
}

#[test]
fn format_bytes_rounds_to_tenths() {
    assert_eq!(format_bytes(0), "0 B");
    assert_eq!(format_bytes(1536), "1.5 KB");
    assert_eq!(format_bytes(104857600), "100.0 MB");
    let expected = format!("{:.1} KB", 1177f64 / 1024f64);
    assert_eq!(format_bytes(1177), expected);
    let tie = format!("{:.1} KB", 1280f64 / 1024f64);
    assert_eq!(format_bytes(1280), tie);
    let tie_up = format!("{:.1} KB", 1382.4f64.round() / 1024f64);
    assert_eq!(format_bytes(1382), tie_up);
}

#[test]
fn escape_like_escapes_wildcards() {
    assert_eq!(escape_like("a_b%c\\d"), "a\\_b\\%c\\\\d");
}

#[test]
fn extract_captures_simple_glob() {
    let caps = extract_captures("logs/*/file.gz", "logs/2024/file.gz").unwrap();
    assert_eq!(caps, vec!["2024"]);
}

#[test]
fn extract_captures_two_wildcards() {
    let caps = extract_captures("logs/*/*/*.gz", "logs/2024/jan/data.gz").unwrap();
    assert_eq!(caps, vec!["2024", "jan", "data"]);
}

#[test]
fn extract_captures_no_match() {
    assert!(extract_captures("logs/*.gz", "photos/x.gz").is_none());
}

#[test]
fn substitute_template_positional() {
    let caps = vec!["2024".to_string(), "jan".to_string()];
    let result = substitute_template("logs/2024/jan.gz", &caps, "archive/{1}/{2}.gz");
    assert_eq!(result, "archive/2024/jan.gz");
}

#[test]
fn substitute_template_zero_is_full_key() {
    let caps = vec!["2024".to_string()];
    let result = substitute_template("logs/2024.gz", &caps, "backup/{0}");
    assert_eq!(result, "backup/logs/2024.gz");
}

#[test]
fn grammar_constant_is_non_empty() {
    assert!(!INDEX_QUERY_GBNF.trim().is_empty());
    assert!(INDEX_QUERY_GBNF.contains("root"));
    assert!(INDEX_QUERY_GBNF.contains("GLACIER"));
    assert!(INDEX_QUERY_GBNF.contains("keyPattern"));
}

fn make_regex(confidence: ParseConfidence, pattern: Option<&str>) -> ParsedAssistantQuery {
    ParsedAssistantQuery {
        query: IndexQuery { key_pattern: pattern.map(str::to_string), ..IndexQuery::empty() },
        summary: "regex summary".to_string(),
        confidence,
    }
}

fn make_llm(pattern: &str) -> LlmParsedQuery {
    LlmParsedQuery {
        index_query: IndexQuery { key_pattern: Some(pattern.to_string()), ..IndexQuery::empty() },
        source: ParseSource::Llm,
    }
}

#[test]
fn merge_prefers_llm_when_regex_confidence_low() {
    let regex = make_regex(ParseConfidence::Low, Some("%old%"));
    let llm = make_llm("%llm%");
    let merged = merge_with_regex(Some(llm), regex);
    assert_eq!(merged.query.key_pattern.as_deref(), Some("%llm%"));
    assert_eq!(merged.summary, "regex summary");
}

#[test]
fn merge_prefers_llm_when_regex_confidence_medium() {
    let regex = make_regex(ParseConfidence::Medium, Some("%old%"));
    let llm = make_llm("%llm%");
    let merged = merge_with_regex(Some(llm), regex);
    assert_eq!(merged.query.key_pattern.as_deref(), Some("%llm%"));
}

#[test]
fn merge_keeps_regex_on_high_confidence() {
    let regex = make_regex(ParseConfidence::High, Some("%regex%"));
    let llm = make_llm("%llm%");
    let merged = merge_with_regex(Some(llm), regex);
    assert_eq!(merged.query.key_pattern.as_deref(), Some("%regex%"));
}

#[test]
fn merge_returns_regex_when_no_llm() {
    let regex = make_regex(ParseConfidence::Low, Some("%regex%"));
    let merged = merge_with_regex(None, regex);
    assert_eq!(merged.query.key_pattern.as_deref(), Some("%regex%"));
}

fn ctx(kind: ActionKind, affected_count: usize, has_glacier: bool, bucket_versioned: bool, index_age_secs: Option<u64>) -> PolicyContext {
    PolicyContext { kind, affected_count, has_glacier, bucket_versioned, index_age_secs }
}

#[test]
fn max_objects_hard_limit_fires_at_10001() {
    let result = check(&ctx(ActionKind::DeleteByQuery, 10_001, false, false, Some(60)), None);
    assert!(!result.is_clean());
    assert!(result.violations[0].contains("10001"));
}

#[test]
fn exactly_at_limit_is_allowed() {
    let result = check(&ctx(ActionKind::DeleteByQuery, 10_000, false, false, Some(60)), None);
    assert!(!result.violations.iter().any(|v| v.contains("10000") || v.contains("limit")));
}

#[test]
fn glacier_warning_attached_correctly() {
    let result = check(&ctx(ActionKind::DeleteByQuery, 5, true, false, Some(60)), None);
    assert!(result.warnings.iter().any(|w| w.contains("GLACIER")));
}

#[test]
fn stale_index_blocks_destructive_actions() {
    let result = check(&ctx(ActionKind::DeleteByQuery, 5, false, false, None), None);
    assert!(!result.is_clean());
    assert!(result.violations.iter().any(|v| v.contains("stale")));
}

#[test]
fn stale_index_does_not_block_sync_plan() {
    let result = check(&ctx(ActionKind::SyncPlan, 5, false, false, None), None);
    assert!(result.is_clean());
}

#[test]
fn versioned_bucket_warning_on_delete() {
    let result = check(&ctx(ActionKind::DeleteByQuery, 3, false, true, Some(60)), None);
    assert!(result.warnings.iter().any(|w| w.contains("versioning")));
}

#[test]
fn old_index_and_dry_run_block_renames() {
    let result = check(&ctx(ActionKind::RenamePattern, 3, false, false, Some(90_000)), Some("TRUE"));
    assert_eq!(
        result.violations,
        vec![
            "bucket index is 90000s old (limit 86400s); re-index before running destructive actions".to_string(),
            "dry-run mode active (PAKER_POLICY_DRY_RUN=1); no mutations allowed".to_string(),
        ]
    );
    assert_eq!(result.warning_messages().len(), 0);
}

fn now() -> UtcTime {
    UtcTime { secs: NOW_SECS, nanos: 0 }
}

fn make_entry(id: &str, token: &str) -> ProposalEntry {
    ProposalEntry {
        id: id.to_string(),
        kind: ActionKind::DeleteByQuery,
        connection_id: "conn".to_string(),
        bucket: "bucket".to_string(),
        payload: "null".to_string(),
        token: token.to_string(),
        status: ProposalStatus::Pending,
        created_at: now(),
        expires_at: UtcTime { secs: NOW_SECS + 900, nanos: 0 },
    }
}

#[test]
fn insert_and_claim_succeeds() {
    let mut store = ProposalStore::new();
    store.insert(make_entry("id1", "tok1"), now());
    let claimed = store.claim("id1", "tok1", now()).expect("claim should succeed");
    assert_eq!(claimed.id, "id1");
    assert_eq!(claimed.status, ProposalStatus::Executed);
}

#[test]
fn double_claim_returns_err() {
    let mut store = ProposalStore::new();
    store.insert(make_entry("id2", "tok2"), now());
    store.claim("id2", "tok2", now()).expect("first claim ok");
    let err = store.claim("id2", "tok2", now()).expect_err("second claim should fail");
    assert!(matches!(err, PakerError::ProposalAlreadyClaimed));
}

#[test]
fn expired_entry_cannot_be_claimed() {
    let mut store = ProposalStore::new();
    let entry = ProposalEntry {
        created_at: UtcTime { secs: NOW_SECS - 910, nanos: 0 },
        expires_at: UtcTime { secs: NOW_SECS - 10, nanos: 0 },
        ..make_entry("id3", "tok3")
    };
    store.insert(entry, UtcTime { secs: NOW_SECS - 20, nanos: 0 });
    let err = store.claim("id3", "tok3", now()).expect_err("expired claim should fail");
    assert!(matches!(err, PakerError::ProposalExpired));
}

#[test]
fn wrong_token_returns_invalid_input() {
    let mut store = ProposalStore::new();
    store.insert(make_entry("id4", "tok4"), now());
    let err = store.claim("id4", "wrong", now()).expect_err("wrong token should fail");
    assert!(matches!(err, PakerError::InvalidInput(_)));
}

#[test]
fn reject_transitions_status() {
    let mut store = ProposalStore::new();
    store.insert(make_entry("id5", "tok5"), now());
    let entry = store.reject("id5").expect("reject should succeed");
    assert!(matches!(entry.status, ProposalStatus::Rejected));
    let err = store.claim("id5", "tok5", now()).expect_err("rejected cannot be claimed");
    assert!(matches!(err, PakerError::ProposalAlreadyClaimed));
}

#[test]
fn claim_of_unknown_proposal_is_not_found() {
    let mut store = ProposalStore::new();
    let err = store.claim("missing", "tok", now()).expect_err("unknown");
    assert!(matches!(err, PakerError::ProposalNotFound));
}

#[test]
fn insert_drops_expired_entries() {
    let mut store = ProposalStore::new();
    store.insert(make_entry("old", "t"), now());
    let later = UtcTime { secs: NOW_SECS + 1000, nanos: 0 };
    store.insert(make_entry("new", "t"), later);
    let err = store.claim("old", "t", later).expect_err("dropped");
    assert!(matches!(err, PakerError::ProposalNotFound));
}

#[test]
fn sign_verify_round_trip() {
    let key = HmacKey::generate();
    let token = sign(&key, "id-1", "conn-1", "my-bucket", "deleteByQuery", 1000);
    assert!(verify(&key, &token, "id-1", "conn-1", "my-bucket", "deleteByQuery", 1000).is_ok());
}

#[test]
fn tampered_token_rejected() {
    let key = HmacKey::generate();
    let token = sign(&key, "id-1", "conn-1", "my-bucket", "deleteByQuery", 1000);
    let tampered = format!("{token}X");
    assert!(verify(&key, &tampered, "id-1", "conn-1", "my-bucket", "deleteByQuery", 1000).is_err());
}

#[test]
fn wrong_message_fields_rejected() {
    let key = HmacKey::generate();
    let token = sign(&key, "id-1", "conn-1", "my-bucket", "deleteByQuery", 1000);
    assert!(verify(&key, &token, "id-1", "conn-1", "other-bucket", "deleteByQuery", 1000).is_err());
}

#[test]
fn wrong_key_rejected() {
    let key1 = HmacKey::generate();
    let key2 = HmacKey::generate();
    let token = sign(&key1, "id-1", "conn-1", "bucket", "deleteByQuery", 1000);
    assert!(verify(&key2, &token, "id-1", "conn-1", "bucket", "deleteByQuery", 1000).is_err());
}

#[test]
fn token_has_version_id_and_known_signature() {
    let key = HmacKey([7u8; 32]);
    let token = sign(&key, "id-1", "conn-1", "b", "syncPlan", -5);
    assert!(token.starts_with("v1.id-1."));
    assert_eq!(token.len(), "v1.id-1.".len() + 43);
    let err = verify(&key, "v2.id-1.abc", "id-1", "conn-1", "b", "syncPlan", -5).expect_err("version");
    assert!(matches!(err, PakerError::InvalidInput(m) if m == "Malformed HMAC token"));
    let err = verify(&key, &token, "id-2", "conn-1", "b", "syncPlan", -5).expect_err("id");
    assert!(matches!(err, PakerError::InvalidInput(m) if m == "Token proposal ID mismatch"));
}

#[test]
fn action_kind_names() {
    assert_eq!(ActionKind::DeleteByQuery.to_string(), "deleteByQuery");
    assert_eq!(ActionKind::RenamePattern.to_string(), "renamePattern");
    assert_eq!(ActionKind::SyncPlan.to_string(), "syncPlan");
}

fn cli_input(tool: Option<&str>, keys: Vec<&str>) -> CliGenerateInput {
    CliGenerateInput {
        tool: tool.map(str::to_string),
        connection_id: "conn".to_string(),
        connection_name: Some("My S3!".to_string()),
        endpoint: Some("http://localhost:9000".to_string()),
        bucket: "b".to_string(),
        prefix: Some("logs/".to_string()),
        keys: keys.into_iter().map(str::to_string).collect(),
    }
}

#[test]
fn aws_cli_lists_and_syncs_prefix() {
    let out = generate_aws_cli(&cli_input(None, vec![]));
    assert_eq!(out.len(), 2);
    assert_eq!(out[0].command, "aws s3 ls s3://b/logs/ --endpoint-url http://localhost:9000");
    assert_eq!(out[1].command, "aws s3 sync s3://b/logs/ ./local-copy --endpoint-url http://localhost:9000");
}

#[test]
fn aws_cli_downloads_keys() {
    let one = generate_aws_cli(&cli_input(None, vec!["a.txt"]));
    assert_eq!(one[0].description, "Download a single object");
    let two = generate_aws_cli(&cli_input(None, vec!["a.txt", "b.txt"]));
    assert_eq!(two[1].command, "aws s3 cp s3://b/b.txt . --endpoint-url http://localhost:9000");
    assert_eq!(two[1].description, "Download `b.txt`");
}

#[test]
fn rclone_sanitizes_remote_name() {
    let out = generate_rclone(&cli_input(None, vec!["k"]));
    assert_eq!(out[0].command, "rclone copy My-S3-:b/k .");
}

#[test]
fn cli_tool_choice_ignores_case() {
    assert_eq!(generate_cli_commands(&cli_input(Some("AWS"), vec![])).len(), 2);
    assert_eq!(generate_cli_commands(&cli_input(Some("rclone"), vec![])).len(), 2);
    assert_eq!(generate_cli_commands(&cli_input(None, vec![])).len(), 4);
    assert_eq!(generate_cli_commands(&cli_input(Some("s5cmd"), vec![])).len(), 0);
}

#[test]
fn list_returns_newest_first_for_a_connection() {
    let mut store = ProposalStore::new();
    let older = ProposalEntry {
        created_at: UtcTime { secs: NOW_SECS - 5, nanos: 0 },
        ..make_entry("older", "t")
    };
    let other = ProposalEntry {
        connection_id: "other".to_string(),
        ..make_entry("elsewhere", "t")
    };
    store.insert(older, now());
    store.insert(make_entry("newer", "t"), now());
    store.insert(other, now());
    let listed = store.list(Some("conn"));
    let ids: Vec<&str> = listed.iter().map(|e| e.id.as_str()).collect();
    assert_eq!(ids, vec!["newer", "older"]);
    let all = store.list(None);
    assert_eq!(all.len(), 3);
    assert!(store.list(Some("none")).is_empty());
}

#[test]
fn list_caps_at_fifty_entries() {
    let mut store = ProposalStore::new();
    for i in 0..60i64 {
        let e = ProposalEntry {
            created_at: UtcTime { secs: NOW_SECS - 100 + i, nanos: 0 },
            ..make_entry(&format!("p{i}"), "t")
        };
        store.insert(e, now());
    }
    let listed = store.list(None);
    assert_eq!(listed.len(), 50);
    assert_eq!(listed[0].id, "p59");
    assert_eq!(listed[49].id, "p10");
}

#[test]
fn resolve_parser_prefers_primary_name() {
    // The models folder holds the primary parser file only.
    let base = "/tmp/paker-data";
    let present: Vec<bool> = parser_model_candidates(base)
        .iter()
        .map(|c| std::path::Path::new(c).file_name().unwrap() == PARSER_MODEL_PRIMARY)
        .collect();
    let found = resolve_parser_model_path(base, &present).expect("found");
    assert_eq!(std::path::Path::new(&found).file_name().unwrap(), PARSER_MODEL_PRIMARY);
    assert_eq!(found, "/tmp/paker-data/models/paker-parser.gguf");
}

#[test]
fn resolve_model_paths_fall_back_to_aliases_in_order() {
    let base = "/tmp/paker-data";
    let found = resolve_parser_model_path(base, &vec![false, true, true]).expect("found");
    assert_eq!(found, "/tmp/paker-data/models/gemma-3-270m-q4.gguf");
    assert_eq!(resolve_parser_model_path(base, &vec![false, false, false]), None);
    assert_eq!(
        resolve_embed_model_path(base, &vec![true, true]),
        Some(format!("/tmp/paker-data/models/{}", EMBED_MODEL_PRIMARY))
    );
    assert_eq!(resolve_embed_model_path(base, &vec![]), None);
}
