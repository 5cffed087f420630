use paker::crypto::{
    decrypt_secrets, encrypt_secrets, hash_master_password, new_vault_key, new_verifier_salt, open_escrow,
    seal_escrow, unwrap_vault_key, verify_master_password, wrap_vault_key,
};
use paker::error::PakerError;
use paker::secrets::{parse_keyring_value, serialize_keyring_value, ConnectionSecrets, FileAction, SecretsFile};
use paker::vault::{VaultManager, VaultMeta};

#[test]
fn wrap_unwrap_vault_key_round_trip() {
    let vault_key = vec![42u8; 32];
    let salt = new_verifier_salt();
    let password = "test-password-123";
    let wrapped = wrap_vault_key(&vault_key, password, &salt).expect("wrap");
    let unwrapped = unwrap_vault_key(&wrapped, password, &salt).expect("unwrap");
    assert_eq!(unwrapped, vault_key);
}

#[test]
fn unwrap_with_wrong_password_fails() {
    let vault_key = vec![7u8; 32];
    let salt = new_verifier_salt();
    let wrapped = wrap_vault_key(&vault_key, "right-password", &salt).expect("wrap");
    let err = unwrap_vault_key(&wrapped, "wrong-password", &salt).unwrap_err();
    assert_eq!(err, "vault key unwrap failed: aead::Error");
    assert_eq!(
        unwrap_vault_key("not base64!", "right-password", &salt).unwrap_err(),
        "invalid wrapped vault key encoding"
    );
    assert_eq!(unwrap_vault_key("AAAA", "right-password", &salt).unwrap_err(), "wrapped vault key is too short");
}

#[test]
fn verify_master_password_accepts_correct_password() {
    let password = "correct-horse-battery";
    let salt = new_verifier_salt();
    let hash = hash_master_password(password, &salt).expect("hash");
    assert!(verify_master_password(password, &salt, &hash).expect("verify"));
    assert!(!verify_master_password("wrong", &salt, &hash).expect("verify wrong"));
    assert!(verify_master_password(password, &salt, "not a phc string").is_err());
}

#[test]
fn portable_encrypt_decrypt_round_trip() {
    let plaintext =
        br#"{"secrets":{"conn-1":{"secret_access_key":"secret-key","session_token":"session"}}}"#.to_vec();
    let encrypted = encrypt_secrets(&plaintext).expect("encrypt");
    assert_eq!(encrypted.len(), plaintext.len() + 28);
    let decrypted = decrypt_secrets(&encrypted).expect("decrypt");
    assert_eq!(decrypted, plaintext);
}

#[test]
fn portable_encrypt_decrypt_plain_secret_round_trip() {
    let plaintext = br#"{"secrets":{"conn-2":{"secret_access_key":"only-secret"}}}"#.to_vec();
    let encrypted = encrypt_secrets(&plaintext).expect("encrypt");
    let decrypted = decrypt_secrets(&encrypted).expect("decrypt");
    assert_eq!(decrypted, plaintext);
}

#[test]
fn decrypt_rejects_short_ciphertext() {
    let err = decrypt_secrets(&[0u8; 12]).unwrap_err();
    assert!(err.contains("too short"));
    let mut tampered = encrypt_secrets(b"{}").expect("encrypt");
    let last = tampered.len() - 1;
    tampered[last] ^= 1;
    assert_eq!(decrypt_secrets(&tampered).unwrap_err(), "decryption failed: aead::Error");
}

#[test]
fn escrow_round_trip() {
    let vault_key = new_vault_key();
    let (escrow_key, wrapped) = seal_escrow(&vault_key).expect("seal");
    assert_eq!(open_escrow(&escrow_key, &wrapped).expect("open"), vault_key);
    assert_eq!(open_escrow("AAAA", &wrapped).unwrap_err(), "invalid escrow key length");
}

#[test]
fn parse_keyring_plain_value() {
    let parsed = parse_keyring_value("my-secret", None);
    assert_eq!(parsed.secret_access_key, "my-secret");
    assert!(parsed.session_token.is_none());
}

#[test]
fn parse_keyring_json_value_with_session_token() {
    let decoded = ConnectionSecrets { secret_access_key: "key".to_string(), session_token: Some("tok".to_string()) };
    let value = r#"{"secret_access_key":"key","session_token":"tok"}"#;
    let parsed = parse_keyring_value(value, Some(decoded));
    assert_eq!(parsed.secret_access_key, "key");
    assert_eq!(parsed.session_token.as_deref(), Some("tok"));
}

#[test]
fn serialize_keyring_plain_when_no_session_token() {
    let secrets = ConnectionSecrets { secret_access_key: "plain".to_string(), session_token: None };
    assert_eq!(serialize_keyring_value(&secrets), "plain");
}

#[test]
fn serialize_keyring_json_when_session_token_present() {
    let secrets = ConnectionSecrets { secret_access_key: "key".to_string(), session_token: Some("tok".to_string()) };
    assert_eq!(serialize_keyring_value(&secrets), r#"{"secret_access_key":"key","session_token":"tok"}"#);
    let quoted = ConnectionSecrets { secret_access_key: "a\"b".to_string(), session_token: Some("t\n".to_string()) };
    assert_eq!(serialize_keyring_value(&quoted), r#"{"secret_access_key":"a\"b","session_token":"t\n"}"#);
}

#[test]
fn secrets_file_removal_says_what_to_do_with_the_file() {
    let mut file = SecretsFile::new();
    assert!(file.is_empty());
    file.set("a", ConnectionSecrets { secret_access_key: "ka".to_string(), session_token: None });
    file.set("b", ConnectionSecrets { secret_access_key: "kb".to_string(), session_token: None });
    assert_eq!(file.get("a").unwrap().secret_access_key, "ka");
    assert_eq!(file.remove("missing"), FileAction::Keep);
    assert_eq!(file.remove("a"), FileAction::Write);
    assert_eq!(file.remove("b"), FileAction::Remove);
    assert!(file.is_empty());
}

#[test]
fn vault_setup_lock_unlock_cycle() {
    let mut vault = VaultManager::new();
    assert!(!vault.is_enabled());
    assert!(vault.ensure_unlocked().is_ok());
    let err = VaultManager::prepare_setup("short", 15, false).unwrap_err();
    assert_eq!(err, "master key must be at least 8 characters");
    let (meta, key) = VaultManager::prepare_setup("long-enough-key", 15, false).expect("setup");
    vault.finish_setup(meta, key.clone(), 1_000);
    assert!(vault.is_enabled());
    assert!(!vault.is_locked());
    assert!(vault.lock());
    assert!(vault.is_locked());
    assert!(matches!(vault.ensure_unlocked(), Err(PakerError::VaultLocked)));
    assert!(vault.vault_key().is_none());
    assert!(matches!(vault.unlock("wrong-key-here", 2_000), Err(PakerError::VaultAuthFailed)));
    assert_eq!(vault.failed_unlock_attempts(), 1);
    vault.unlock("long-enough-key", 3_000).expect("unlock");
    assert_eq!(vault.vault_key(), Some(key));
    assert_eq!(vault.failed_unlock_attempts(), 0);
}

#[test]
fn vault_blocks_after_repeated_failures() {
    let mut vault = VaultManager::new();
    let (meta, key) = VaultManager::prepare_setup("long-enough-key", 15, false).expect("setup");
    vault.finish_setup(meta, key, 0);
    vault.lock();
    for _ in 0..5 {
        assert!(matches!(vault.unlock("nope-nope-nope", 10_000), Err(PakerError::VaultAuthFailed)));
    }
    // Blocked for 30 s from the fifth failure, even for the right key.
    assert!(matches!(vault.unlock("long-enough-key", 20_000), Err(PakerError::VaultUnlockBlocked)));
    assert_eq!(vault.status(false, false, 20_000).unlock_blocked_secs, 20);
    vault.unlock("long-enough-key", 40_000).expect("unlock after the block");
}

#[test]
fn change_master_key_rewraps_the_vault_key() {
    let mut vault = VaultManager::new();
    let (meta, key) = VaultManager::prepare_setup("first-master-key", 5, true).expect("setup");
    vault.finish_setup(meta, key.clone(), 0);
    assert!(matches!(
        vault.change_master_key("first-master-key", "short"),
        Err(PakerError::InvalidInput(m)) if m == "master key must be at least 8 characters"
    ));
    assert!(matches!(
        vault.change_master_key("not-the-master", "second-master-key"),
        Err(PakerError::VaultAuthFailed)
    ));
    let (new_meta, same_key) = vault.change_master_key("first-master-key", "second-master-key").expect("change");
    assert_eq!(same_key, key);
    assert_eq!(new_meta.auto_lock_minutes, 5);
    assert!(new_meta.lock_on_blur);
    vault.lock();
    assert!(matches!(vault.unlock("first-master-key", 1), Err(PakerError::VaultAuthFailed)));
    vault.unlock("second-master-key", 2).expect("new key unlocks");
    assert_eq!(vault.vault_key(), Some(key));
}

#[test]
fn preferences_need_an_enabled_vault() {
    let mut vault = VaultManager::new();
    assert!(matches!(
        vault.set_preferences(10, true),
        Err(PakerError::InvalidInput(m)) if m == "Vault is not enabled"
    ));
    let disabled = VaultMeta {
        version: 1,
        enabled: false,
        verifier_salt: String::new(),
        verifier_hash: String::new(),
        wrapped_vault_key: String::new(),
        auto_lock_minutes: 15,
        lock_on_blur: false,
    };
    vault.load(Some(disabled), 0);
    assert!(!vault.is_locked());
    let status = vault.status(false, true, 0);
    assert!(!status.enabled);
    assert_eq!(status.auto_lock_minutes, 15);
    assert!(status.recovery_available);
}

#[test]
fn recording_activity_never_locks() {
    let mut vault = VaultManager::new();
    let (meta, key) = VaultManager::prepare_setup("long-enough-key", 1, false).expect("setup");
    vault.finish_setup(meta, key, 0);
    // Long past the one-minute delay, noting activity resets the idle time first.
    assert!(!vault.record_vault_activity(10 * 60 * 1000));
    assert!(!vault.is_locked());
    assert!(!vault.idle_lock_elapsed(1, 10 * 60 * 1000 + 59_999));
    assert!(vault.idle_lock_elapsed(1, 10 * 60 * 1000 + 60_000));
}

#[test]
fn verifier_salts_are_22_b64_characters_and_fresh() {
    let a = new_verifier_salt();
    let b = new_verifier_salt();
    for s in [&a, &b] {
        assert_eq!(s.chars().count(), 22);
        assert!(s.chars().all(|c| c.is_ascii_alphanumeric() || c == '+' || c == '/'));
    }
    assert_ne!(a, b);
}

#[test]
fn keyring_json_escapes_as_serde_json_does() {
    let odd = "q\"b\\s\u{8}\t\n\u{c}\r\u{1}\u{1f}\u{7f}é✓";
    let secrets = ConnectionSecrets { secret_access_key: odd.to_string(), session_token: Some("\u{0}x".to_string()) };
    let expected = format!(
        "{{\"secret_access_key\":{},\"session_token\":{}}}",
        serde_json::to_string(odd).unwrap(),
        serde_json::to_string("\u{0}x").unwrap()
    );
    assert_eq!(serialize_keyring_value(&secrets), expected);
    assert!(expected.contains("\\u0001") && expected.contains("\\u001f") && expected.contains("\\u0000"));
}
