use paker::error::{
    clamp_presign_expiry_secs, into_ipc_error, map_s3_service_error_message,
    validate_endpoint_url, PakerError,
};
use paker::explain::explain_error_code;
use paker::index_query::escape_like;
use paker::path_safety::{
    ensure_resolved_under, sanitize_object_key_for_local_path, validate_s3_key_segment, validate_s3_object_key,
};
use paker::s3_ops::endpoint_uses_https;

fn all_variants() -> Vec<PakerError> {
    vec![
        PakerError::ConnectionNotFound,
        PakerError::BucketNotFound,
        PakerError::AccessDenied,
        PakerError::Network,
        PakerError::InvalidInput("x".to_string()),
        PakerError::InvalidEndpoint,
        PakerError::PathNotAllowed,
        PakerError::IndexNotReady,
        PakerError::TransferNotFound,
        PakerError::Internal,
        PakerError::VaultLocked,
        PakerError::VaultAuthFailed,
        PakerError::VaultUnlockBlocked,
        PakerError::PolicyViolation("x".to_string()),
        PakerError::ProposalNotFound,
        PakerError::ProposalAlreadyClaimed,
        PakerError::ProposalExpired,
    ]
}

#[test]
fn code_returns_stable_ipc_codes() {
    let expected = [
        ("connectionNotFound", PakerError::ConnectionNotFound),
        ("bucketNotFound", PakerError::BucketNotFound),
        ("accessDenied", PakerError::AccessDenied),
        ("network", PakerError::Network),
        ("invalidInput", PakerError::InvalidInput("x".into())),
        ("invalidEndpoint", PakerError::InvalidEndpoint),
        ("pathNotAllowed", PakerError::PathNotAllowed),
        ("indexNotReady", PakerError::IndexNotReady),
        ("transferNotFound", PakerError::TransferNotFound),
        ("internal", PakerError::Internal),
        ("vaultLocked", PakerError::VaultLocked),
        ("vaultAuthFailed", PakerError::VaultAuthFailed),
        ("vaultUnlockBlocked", PakerError::VaultUnlockBlocked),
        ("policyViolation", PakerError::PolicyViolation("x".into())),
        ("proposalNotFound", PakerError::ProposalNotFound),
        ("proposalAlreadyClaimed", PakerError::ProposalAlreadyClaimed),
        ("proposalExpired", PakerError::ProposalExpired),
    ];
    for (code, err) in expected {
        assert_eq!(err.code(), code);
    }
}

#[test]
fn user_action_is_none_only_for_selected_variants() {
    assert!(PakerError::InvalidInput("x".into()).user_action().is_none());
    assert!(PakerError::TransferNotFound.user_action().is_none());
    for err in all_variants() {
        if matches!(
            err,
            PakerError::InvalidInput(_) | PakerError::TransferNotFound | PakerError::PolicyViolation(_)
        ) {
            continue;
        }
        assert!(err.user_action().is_some(), "{err:?} should include user_action");
    }
}

#[test]
fn into_ipc_error_preserves_paker_error() {
    let carried = PakerError::BucketNotFound;
    let mapped = into_ipc_error(Some(carried.clone()));
    assert_eq!(mapped.code(), carried.code());
    assert_eq!(mapped.message(), carried.message());
}

#[test]
fn into_ipc_error_maps_unknown_errors_to_internal() {
    let mapped = into_ipc_error(None);
    assert!(matches!(mapped, PakerError::Internal));
}

#[test]
fn serialize_includes_camel_case_user_action() {
    let err = PakerError::AccessDenied;
    let payload = err.to_ipc_payload();
    assert_eq!(payload.code, "accessDenied");
    assert_eq!(payload.user_action.as_deref(), err.user_action());
    assert!(!payload.message.is_empty());
}

#[test]
fn validate_endpoint_url_accepts_empty_and_http_https() {
    assert!(validate_endpoint_url("").is_ok());
    assert!(validate_endpoint_url("  ").is_ok());
    assert!(validate_endpoint_url("https://s3.amazonaws.com").is_ok());
    assert!(validate_endpoint_url("http://localhost:9000").is_ok());
}

#[test]
fn validate_endpoint_url_rejects_invalid_urls() {
    for endpoint in ["ftp://example.com", "https://", "http://has space"] {
        let err = validate_endpoint_url(endpoint).expect_err(endpoint);
        assert!(matches!(err, PakerError::InvalidEndpoint));
    }
}

#[test]
fn map_s3_service_error_message_classifies_known_codes() {
    assert!(matches!(
        map_s3_service_error_message("NoSuchBucket: bucket missing"),
        PakerError::BucketNotFound
    ));
    assert!(matches!(map_s3_service_error_message("404 NotFound"), PakerError::BucketNotFound));
    assert!(matches!(map_s3_service_error_message("AccessDenied: denied"), PakerError::AccessDenied));
    assert!(matches!(map_s3_service_error_message("SignatureDoesNotMatch"), PakerError::AccessDenied));
    assert!(matches!(map_s3_service_error_message("SlowDown"), PakerError::Internal));
}

#[test]
fn clamp_presign_expiry_secs_enforces_bounds() {
    assert_eq!(clamp_presign_expiry_secs(1), 60);
    assert_eq!(clamp_presign_expiry_secs(3600), 3600);
    assert_eq!(clamp_presign_expiry_secs(1_000_000), 604_800);
}

#[test]
fn explains_access_denied_with_detail() {
    let exp = explain_error_code("accessDenied");
    assert_eq!(exp.code, "accessDenied");
    assert!(exp.detail.contains("IAM"));
}

#[test]
fn explain_unknown_code_is_invalid_input() {
    let exp = explain_error_code("noSuchCode");
    assert_eq!(exp.code, "invalidInput");
    assert_eq!(exp.message, "Unknown error code: noSuchCode");
}

const SAVE_DIR: &str = "/tmp/paker-save";

#[test]
fn allows_nested_relative_key() {
    let dest = sanitize_object_key_for_local_path(SAVE_DIR, "photos/2024/cat.jpg").expect("valid key");
    assert_eq!(dest, "/tmp/paker-save/photos/2024/cat.jpg");
}

#[test]
fn normalizes_backslashes() {
    let dest = sanitize_object_key_for_local_path(SAVE_DIR, "photos\\2024\\cat.jpg").expect("valid");
    assert_eq!(dest, "/tmp/paker-save/photos/2024/cat.jpg");
}

#[test]
fn rejects_parent_dir_segments() {
    let err = sanitize_object_key_for_local_path(SAVE_DIR, "foo/../../secret.txt").expect_err("traversal");
    assert!(err.message().contains("path traversal"));
}

#[test]
fn rejects_leading_parent_dir() {
    let err = sanitize_object_key_for_local_path(SAVE_DIR, "../secret.txt").expect_err("traversal");
    assert!(err.message().contains("path traversal"));
}

#[test]
fn rejects_absolute_unix_path() {
    let err = sanitize_object_key_for_local_path(SAVE_DIR, "/etc/passwd").expect_err("absolute");
    assert!(err.message().contains("relative"));
}

#[test]
fn rejects_windows_drive_prefix() {
    let err = sanitize_object_key_for_local_path(SAVE_DIR, "C:\\Windows\\win.ini").expect_err("drive");
    assert!(err.message().contains("Windows drive"));
}

#[test]
fn rejects_empty_key() {
    let err = sanitize_object_key_for_local_path(SAVE_DIR, "").expect_err("empty");
    assert!(err.message().contains("empty"));
}

#[test]
fn rejects_invalid_s3_key_segment() {
    assert!(validate_s3_key_segment("..").is_err());
    assert!(validate_s3_key_segment("").is_err());
    assert!(validate_s3_object_key("foo/../bar").is_err());
}

#[test]
fn accepts_plain_s3_key() {
    assert!(validate_s3_key_segment("photos").is_ok());
    assert!(validate_s3_object_key("photos/2024/cat.jpg").is_ok());
}

#[test]
fn endpoint_uses_https_detects_https_scheme() {
    assert!(endpoint_uses_https(Some("https://minio.local:9000")));
    assert!(endpoint_uses_https(Some("  https://example.com  ")));
}

#[test]
fn endpoint_uses_https_rejects_http_empty_and_missing() {
    assert!(!endpoint_uses_https(Some("http://127.0.0.1:9000")));
    assert!(!endpoint_uses_https(Some("")));
    assert!(!endpoint_uses_https(Some("   ")));
    assert!(!endpoint_uses_https(None));
}

#[test]
fn explain_covers_policy_and_proposal_codes() {
    for e in all_variants() {
        let e = match e {
            PakerError::InvalidInput(_) => PakerError::InvalidInput(String::new()),
            PakerError::PolicyViolation(_) => PakerError::PolicyViolation(String::new()),
            other => other,
        };
        let exp = explain_error_code(e.code());
        assert_eq!(exp.code, e.code());
        assert_eq!(exp.message, e.message());
        assert_eq!(exp.user_action, e.user_action().map(String::from));
    }
    let exp = explain_error_code("proposalExpired");
    assert_eq!(exp.code, "proposalExpired");
    assert!(exp.detail.contains("approval window"));
    let exp = explain_error_code("policyViolation");
    assert_eq!(exp.code, "policyViolation");
    assert_eq!(exp.detail, "The operation was rejected due to a policy violation.");
}

#[test]
fn canonical_check_blocks_symlink_escape() {
    // `escape` in the save folder is a link to a folder outside it: the key
    // passes the lexical check, and its resolved target leaves the folder.
    let dir = "/tmp/paker-symlink-base";
    let joined = sanitize_object_key_for_local_path(dir, "escape/secret.txt").expect("lexically fine");
    assert_eq!(joined, "/tmp/paker-symlink-base/escape/secret.txt");
    let err = ensure_resolved_under(Some(dir), Some("/tmp/paker-symlink-outside/secret.txt"))
        .expect_err("symlink escape");
    assert!(err.message().contains("escapes save directory"));
    assert!(ensure_resolved_under(Some(dir), Some("/tmp/paker-symlink-base/real/secret.txt")).is_ok());
    assert!(ensure_resolved_under(Some(dir), None).is_ok());
    assert!(ensure_resolved_under(None, Some("/elsewhere")).is_ok());
    assert!(ensure_resolved_under(Some(dir), Some("/tmp/paker-symlink-base-other/x")).is_err());
}

#[test]
fn escape_like_escapes_each_special_character() {
    assert_eq!(escape_like(r"50%_a\b"), r"50\%\_a\\b");
    assert_eq!(escape_like("plain"), "plain");
    assert_eq!(escape_like(""), "");
}
