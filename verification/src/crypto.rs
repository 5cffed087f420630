use vstd::prelude::*;

use aes_gcm::aead::{Aead, KeyInit};
use argon2::password_hash::{PasswordHasher, PasswordVerifier};
use base64::Engine;
use rand::RngCore;

use crate::text::{chars_of, push_str, string_of, trim, trim_spec, utf8_len};

verus! {

// ---------------------------------------------------------------------------
// Names for what the cryptographic crates compute
// ---------------------------------------------------------------------------

/// AES-256-GCM encryption of `plaintext` under `key` and `nonce`, with no
/// associated data: the ciphertext followed by the 16-byte tag.
pub uninterp spec fn aead_seal(key: Seq<u8>, nonce: Seq<u8>, plaintext: Seq<u8>) -> Seq<u8>;

/// AES-256-GCM decryption of `sealed` under `key` and `nonce`, with no
/// associated data; `None` where the tag does not check.
pub uninterp spec fn aead_open(key: Seq<u8>, nonce: Seq<u8>, sealed: Seq<u8>) -> Option<Seq<u8>>;

/// The 32-byte Argon2id (version 0x13) key of the UTF-8 bytes of `password`
/// and `salt`, with memory `m` KiB, `t` passes and `p` lanes; `None` where
/// argon2 refuses the inputs.
pub uninterp spec fn argon2id_key(password: Seq<char>, salt: Seq<char>, m: u32, t: u32, p: u32) -> Option<Seq<u8>>;

/// The PHC string of the Argon2id hash of `password` with the B64 salt
/// `salt`, memory `m` KiB, `t` passes and `p` lanes; `None` where argon2
/// refuses the inputs.
pub uninterp spec fn argon2_phc(password: Seq<char>, salt: Seq<char>, m: u32, t: u32, p: u32) -> Option<Seq<char>>;

/// Memory cost of the key derivations and master key hashes, in KiB.
pub const KDF_M_COST: u32 = 19_456;

/// Passes of the key derivations and master key hashes.
pub const KDF_T_COST: u32 = 2;

/// Lanes of the key derivations and master key hashes.
pub const KDF_P_COST: u32 = 1;

/// Costs that argon2's `Params::new` accepts.
pub open spec fn argon2_costs_valid(m: u32, t: u32, p: u32) -> bool {
    8 <= m && 8 * p <= m && 1 <= t && 1 <= p <= 0xFF_FFFF
}

/// The 32-byte key the library derives from a password and salt.
pub open spec fn kdf_key(password: Seq<char>, salt: Seq<char>) -> Option<Seq<u8>> {
    argon2id_key(password, salt, KDF_M_COST, KDF_T_COST, KDF_P_COST)
}

/// The PHC string the library stores for a master key and salt.
pub open spec fn kdf_phc(password: Seq<char>, salt: Seq<char>) -> Option<Seq<char>> {
    argon2_phc(password, salt, KDF_M_COST, KDF_T_COST, KDF_P_COST)
}

/// Whether `password` matches the PHC string `phc`; `None` where `phc`
/// does not parse.
pub uninterp spec fn argon2_phc_check(password: Seq<char>, phc: Seq<char>) -> Option<bool>;

/// The standard, padded base64 text of `bytes`.
pub uninterp spec fn base64_std(bytes: Seq<u8>) -> Seq<char>;

/// The bytes that standard, padded base64 text decodes to, if it is valid.
pub uninterp spec fn base64_std_decode(text: Seq<char>) -> Option<Seq<u8>>;

/// A character of the standard base64 alphabet, padding included.
pub open spec fn is_base64_char(c: char) -> bool {
    ('A' <= c && c <= 'Z') || ('a' <= c && c <= 'z') || ('0' <= c && c <= '9') || c == '+' || c
        == '/' || c == '='
}

// ---------------------------------------------------------------------------
// Wrappers
// ---------------------------------------------------------------------------

/// rand: `N` bytes filled by `RngCore::fill_bytes` from `rand::rng()`.
/// Nothing is claimed of the bytes.
#[verifier::external_body]
pub(crate) fn random_array<const N: usize>() -> (r: [u8; N]) {
    let mut bytes = [0u8; N];
    rand::rng().fill_bytes(&mut bytes);
    bytes
}

/// aes-gcm: `Aes256Gcm::new_from_slice(key)` (a 32-byte key is always
/// accepted), then `Aead::encrypt` with a 12-byte nonce.  It fails exactly
/// when the plaintext is longer than 2^36 bytes; the ciphertext is the
/// plaintext's length plus a 16-byte tag, and decrypting it under the same
/// key and nonce gives the plaintext back.
#[verifier::external_body]
fn aes256gcm_seal(key: &[u8], nonce: &[u8], plaintext: &[u8]) -> (r: Option<Vec<u8>>)
    requires
        key.len() == 32,
        nonce.len() == 12,
    ensures
        r is Some <==> plaintext.len() <= 0x10_0000_0000,
        r matches Some(c) ==> c@ == aead_seal(key@, nonce@, plaintext@) && c.len()
            == plaintext.len() + 16 && aead_open(key@, nonce@, c@) == Some(plaintext@),
{
    let cipher = aes_gcm::Aes256Gcm::new_from_slice(key).expect("32-byte key");
    cipher.encrypt(aes_gcm::Nonce::from_slice(nonce), plaintext).ok()
}

/// aes-gcm: `Aes256Gcm::new_from_slice(key)`, then `Aead::decrypt` with a
/// 12-byte nonce; `None` where it reports an error.
#[verifier::external_body]
fn aes256gcm_open(key: &[u8], nonce: &[u8], sealed: &[u8]) -> (r: Option<Vec<u8>>)
    requires
        key.len() == 32,
        nonce.len() == 12,
    ensures
        match r {
            Some(p) => aead_open(key@, nonce@, sealed@) == Some(p@),
            None => aead_open(key@, nonce@, sealed@) is None,
        },
{
    let cipher = aes_gcm::Aes256Gcm::new_from_slice(key).expect("32-byte key");
    cipher.decrypt(aes_gcm::Nonce::from_slice(nonce), sealed).ok()
}

/// argon2: `Argon2::new(Argon2id, V0x13, Params::new(m, t, p, Some(32)))`
/// and `hash_password_into` a 32-byte buffer.  With costs that `Params::new`
/// accepts, it refuses only a password over 2^32 - 1 bytes and a salt under
/// 8 or over 2^32 - 1 bytes; the error text is argon2's.
#[verifier::external_body]
fn argon2id_derive(password: &str, salt: &str, m: u32, t: u32, p: u32) -> (r: Result<Vec<u8>, String>)
    requires
        argon2_costs_valid(m, t, p),
    ensures
        r is Ok <==> (utf8_len(password@) <= 0xFFFF_FFFF && 8 <= utf8_len(salt@) <= 0xFFFF_FFFF),
        r matches Ok(k) ==> k.len() == 32 && argon2id_key(password@, salt@, m, t, p) == Some(k@),
        r is Err ==> argon2id_key(password@, salt@, m, t, p) is None,
{
    let params = argon2::Params::new(m, t, p, Some(32)).map_err(|e| e.to_string())?;
    let argon2 = argon2::Argon2::new(argon2::Algorithm::Argon2id, argon2::Version::V0x13, params);
    let mut key = vec![0u8; 32];
    match argon2.hash_password_into(password.as_bytes(), salt.as_bytes(), &mut key) {
        Ok(()) => Ok(key),
        Err(e) => Err(e.to_string()),
    }
}

/// A character of the B64 alphabet of PHC strings (standard base64 without
/// padding).
pub open spec fn is_b64_char(c: char) -> bool {
    ('A' <= c && c <= 'Z') || ('a' <= c && c <= 'z') || ('0' <= c && c <= '9') || c == '+' || c
        == '/'
}

/// The shape of a freshly generated salt: 16 bytes in unpadded B64, that is
/// 22 characters of the B64 alphabet.
pub open spec fn fresh_salt_shape(s: Seq<char>) -> bool {
    s.len() == 22 && forall|i: int| 0 <= i < s.len() ==> is_b64_char(#[trigger] s[i])
}

/// argon2 / password-hash: `SaltString::generate(&mut OsRng)`, which encodes
/// 16 random bytes (`Salt::RECOMMENDED_LENGTH`) in unpadded B64: 22
/// characters of that alphabet.  Nothing is claimed of which ones.
#[verifier::external_body]
fn random_salt() -> (r: String)
    ensures
        fresh_salt_shape(r@),
{
    argon2::password_hash::SaltString::generate(&mut argon2::password_hash::rand_core::OsRng)
        .to_string()
}

/// argon2 / password-hash: `SaltString::from_b64(salt)` and
/// `PasswordHasher::hash_password` with Argon2id (version 0x13) and
/// `Params::new(m, t, p, Some(32))`, rendered as its PHC string; `None`
/// where a step reports an error.  A hash made this way verifies against
/// the same password.
#[verifier::external_body]
fn argon2_phc_hash(password: &str, salt: &str, m: u32, t: u32, p: u32) -> (r: Option<String>)
    requires
        argon2_costs_valid(m, t, p),
    ensures
        crate::rule_parser::str_opt_view(r) == argon2_phc(password@, salt@, m, t, p),
        r matches Some(h) ==> argon2_phc_check(password@, h@) == Some(true),
{
    let params = argon2::Params::new(m, t, p, Some(32)).ok()?;
    let argon2 = argon2::Argon2::new(argon2::Algorithm::Argon2id, argon2::Version::V0x13, params);
    let salt = argon2::password_hash::SaltString::from_b64(salt).ok()?;
    argon2.hash_password(password.as_bytes(), &salt).ok().map(|h| h.to_string())
}

/// argon2 / password-hash: `PasswordHash::new(phc)` and
/// `PasswordVerifier::verify_password` (which hashes with the algorithm,
/// version, costs and salt the PHC string names); `Err` with
/// password-hash's text where the PHC string does not parse.
#[verifier::external_body]
fn argon2_phc_verify(password: &str, phc: &str, m: u32, t: u32, p: u32) -> (r: Result<bool, String>)
    requires
        argon2_costs_valid(m, t, p),
    ensures
        match r {
            Ok(b) => argon2_phc_check(password@, phc@) == Some(b),
            Err(_) => argon2_phc_check(password@, phc@) is None,
        },
{
    let params = argon2::Params::new(m, t, p, Some(32)).map_err(|e| e.to_string())?;
    let argon2 = argon2::Argon2::new(argon2::Algorithm::Argon2id, argon2::Version::V0x13, params);
    let parsed = argon2::password_hash::PasswordHash::new(phc).map_err(|e| e.to_string())?;
    Ok(argon2.verify_password(password.as_bytes(), &parsed).is_ok())
}

/// base64: `STANDARD.encode`.  The text uses only the base64 alphabet and
/// `=`, and decoding it gives the bytes back.
#[verifier::external_body]
fn base64_std_encode(bytes: &[u8]) -> (r: String)
    ensures
        r@ == base64_std(bytes@),
        base64_std_decode(r@) == Some(bytes@),
        forall|i: int| 0 <= i < r@.len() ==> is_base64_char(#[trigger] r@[i]),
{
    base64::engine::general_purpose::STANDARD.encode(bytes)
}

/// base64: `STANDARD.decode`, `None` where it reports an error.
#[verifier::external_body]
fn base64_std_decode_text(text: &str) -> (r: Option<Vec<u8>>)
    ensures
        match r {
            Some(v) => base64_std_decode(text@) == Some(v@),
            None => base64_std_decode(text@) is None,
        },
{
    base64::engine::general_purpose::STANDARD.decode(text).ok()
}

// ---------------------------------------------------------------------------
// Sealed blobs: a 12-byte nonce followed by the AES-GCM ciphertext
// ---------------------------------------------------------------------------

/// What a blob of nonce and ciphertext opens to under `key`.
pub open spec fn blob_plaintext(key: Seq<u8>, blob: Seq<u8>) -> Option<Seq<u8>> {
    if blob.len() <= 12 {
        None
    } else {
        aead_open(key, blob.subrange(0, 12), blob.subrange(12, blob.len() as int))
    }
}

fn concat_bytes(a: &[u8], b: &[u8]) -> (r: Vec<u8>)
    ensures
        r@ == a@ + b@,
{
    let mut out: Vec<u8> = Vec::new();
    let mut i: usize = 0;
    while i < a.len()
        invariant
            i <= a.len(),
            out@ == a@.subrange(0, i as int),
        decreases a.len() - i,
    {
        out.push(a[i]);
        i += 1;
        assert(out@ =~= a@.subrange(0, i as int));
    }
    let mut j: usize = 0;
    while j < b.len()
        invariant
            j <= b.len(),
            i == a.len(),
            out@ == a@ + b@.subrange(0, j as int),
        decreases b.len() - j,
    {
        out.push(b[j]);
        j += 1;
        assert(out@ =~= a@ + b@.subrange(0, j as int));
    }
    assert(b@.subrange(0, j as int) =~= b@);
    out
}

fn split_bytes(a: &[u8], at: usize) -> (r: (Vec<u8>, Vec<u8>))
    requires
        at <= a.len(),
    ensures
        r.0@ == a@.subrange(0, at as int),
        r.1@ == a@.subrange(at as int, a.len() as int),
{
    let mut x: Vec<u8> = Vec::new();
    let mut y: Vec<u8> = Vec::new();
    let mut i: usize = 0;
    while i < a.len()
        invariant
            i <= a.len(),
            at <= a.len(),
            i <= at ==> x@ == a@.subrange(0, i as int) && y.len() == 0,
            i > at ==> x@ == a@.subrange(0, at as int) && y@ == a@.subrange(at as int, i as int),
        decreases a.len() - i,
    {
        if i < at {
            x.push(a[i]);
            assert(x@ =~= a@.subrange(0, i + 1));
        } else {
            y.push(a[i]);
            assert(y@ =~= a@.subrange(at as int, i + 1));
        }
        i += 1;
    }
    if a.len() == at {
        assert(y@ =~= a@.subrange(at as int, a.len() as int));
    }
    (x, y)
}

/// Seals `plaintext` under a 32-byte key with a fresh random nonce: the
/// nonce followed by the ciphertext, which opens to the plaintext again.
/// Fails only for a plaintext over 2^36 bytes.
pub fn seal_with_key(plaintext: &[u8], key: &[u8]) -> (r: Result<Vec<u8>, String>)
    requires
        key.len() == 32,
    ensures
        r is Ok <==> plaintext.len() <= 0x10_0000_0000,
        r matches Ok(blob) ==> blob.len() == plaintext.len() + 28 && blob@.subrange(12, blob.len() as int)
            == aead_seal(key@, blob@.subrange(0, 12), plaintext@) && blob_plaintext(key@, blob@)
            == Some(plaintext@),
        r matches Err(m) ==> m@ == "encryption failed: aead::Error"@,
{
    let nonce: [u8; 12] = random_array::<12>();
    let nonce_v = concat_bytes(&nonce, &[]);
    assert(nonce_v@.len() == 12);
    match aes256gcm_seal(key, &nonce_v, plaintext) {
        None => Err(string_of(&chars_of("encryption failed: aead::Error"))),
        Some(c) => {
            let out = concat_bytes(&nonce_v, &c);
            assert(out@.subrange(0, 12) =~= nonce_v@);
            assert(out@.subrange(12, out@.len() as int) =~= c@);
            Ok(out)
        },
    }
}

/// Opens a blob of nonce and ciphertext under a 32-byte key: refused as
/// `too_short` where it holds no more than the nonce, as `failed` where the
/// tag does not check.
pub fn open_with_key(data: &[u8], key: &[u8], too_short: &str, failed: &str) -> (r: Result<
    Vec<u8>,
    String,
>)
    requires
        key.len() == 32,
    ensures
        data.len() <= 12 ==> (r matches Err(m) && m@ == too_short@),
        data.len() > 12 ==> match blob_plaintext(key@, data@) {
            Some(p) => r matches Ok(v) && v@ == p,
            None => r matches Err(m) && m@ == failed@,
        },
{
    if data.len() <= 12 {
        return Err(string_of(&chars_of(too_short)));
    }
    let (nonce, sealed) = split_bytes(data, 12);
    match aes256gcm_open(key, &nonce, &sealed) {
        Some(p) => Ok(p),
        None => Err(string_of(&chars_of(failed))),
    }
}

// ---------------------------------------------------------------------------
// The portable secrets file
// ---------------------------------------------------------------------------

/// The text the portable key is derived from.
pub open spec fn portable_material() -> Seq<char> {
    "paker-portable-v1"@
}

/// The salt of the portable key.
pub open spec fn portable_salt() -> Seq<char> {
    "paker-portable-salt-v1"@
}

/// Every character is ASCII.
pub open spec fn all_ascii(s: Seq<char>) -> bool {
    forall|i: int| 0 <= i < s.len() ==> (s[i] as u32) < 0x80
}

pub proof fn lemma_ascii_utf8_len(s: Seq<char>)
    requires
        all_ascii(s),
    ensures
        utf8_len(s) == s.len(),
    decreases s.len(),
{
    if s.len() > 0 {
        assert(all_ascii(s.drop_last()));
        lemma_ascii_utf8_len(s.drop_last());
    }
}

pub proof fn lemma_utf8_len_concat(a: Seq<char>, b: Seq<char>)
    ensures
        utf8_len(a + b) == utf8_len(a) + utf8_len(b),
    decreases b.len(),
{
    if b.len() > 0 {
        assert((a + b).drop_last() =~= a + b.drop_last());
        lemma_utf8_len_concat(a, b.drop_last());
    }
}

/// The key the portable secrets file is sealed with.
pub fn derive_portable_key() -> (r: Result<Vec<u8>, String>)
    ensures
        r matches Ok(k) && k.len() == 32 && kdf_key(portable_material(), portable_salt())
            == Some(k@),
{
    let material = "paker-portable-v1";
    let salt = "paker-portable-salt-v1";
    proof {
        reveal_strlit("paker-portable-v1");
        reveal_strlit("paker-portable-salt-v1");
        lemma_ascii_utf8_len(material@);
        lemma_ascii_utf8_len(salt@);
    }
    match argon2id_derive(material, salt, KDF_M_COST, KDF_T_COST, KDF_P_COST) {
        Ok(k) => Ok(k),
        Err(e) => {
            let mut m = chars_of("argon2 key derivation failed: ");
            push_str(&mut m, e.as_str());
            Err(string_of(&m))
        },
    }
}

/// Seals the serialized secrets file with the portable key.
pub fn encrypt_secrets(plaintext: &[u8]) -> (r: Result<Vec<u8>, String>)
    ensures
        r is Ok <==> plaintext.len() <= 0x10_0000_0000,
        r matches Ok(blob) ==> blob_plaintext(kdf_key(portable_material(), portable_salt())->0, blob@)
            == Some(plaintext@),
        r matches Err(m) ==> m@ == "encryption failed: aead::Error"@,
{
    let key = match derive_portable_key() {
        Ok(k) => k,
        Err(e) => {
            return Err(e);
        },
    };
    seal_with_key(plaintext, &key)
}

/// Opens a portable secrets file: too short where it holds no more than a
/// nonce, failed where it does not open under the portable key.
pub fn decrypt_secrets(data: &[u8]) -> (r: Result<Vec<u8>, String>)
    ensures
        data.len() <= 12 ==> (r matches Err(m) && m@ == "encrypted secrets file is too short"@),
        data.len() > 12 ==> match blob_plaintext(
            kdf_key(portable_material(), portable_salt())->0,
            data@,
        ) {
            Some(p) => r matches Ok(v) && v@ == p,
            None => r matches Err(m) && m@ == "decryption failed: aead::Error"@,
        },
{
    if data.len() <= 12 {
        return Err(string_of(&chars_of("encrypted secrets file is too short")));
    }
    let key = match derive_portable_key() {
        Ok(k) => k,
        Err(e) => {
            return Err(e);
        },
    };
    open_with_key(data, &key, "encrypted secrets file is too short", "decryption failed: aead::Error")
}

// ---------------------------------------------------------------------------
// The master key and the vault key
// ---------------------------------------------------------------------------

/// A fresh random salt for a master key hash: 22 characters of the B64
/// alphabet, whichever they are.
pub fn new_verifier_salt() -> (r: String)
    ensures
        fresh_salt_shape(r@),
{
    random_salt()
}

/// A salt of fresh shape is ASCII: its UTF-8 length is its length.
pub proof fn lemma_fresh_salt_utf8_len(s: Seq<char>)
    requires
        fresh_salt_shape(s),
    ensures
        utf8_len(s) == 22,
{
    assert(all_ascii(s)) by {
        assert forall|i: int| 0 <= i < s.len() implies (s[i] as u32) < 0x80 by {
            assert(is_b64_char(s[i]));
        }
    }
    lemma_ascii_utf8_len(s);
}

/// The PHC hash of a master key with the given salt.
pub fn hash_master_password(password: &str, salt: &str) -> (r: Result<String, String>)
    ensures
        match kdf_phc(password@, salt@) {
            Some(h) => r matches Ok(s) && s@ == h,
            None => r matches Err(m) && m@ == "failed to hash master password"@,
        },
        r matches Ok(h) ==> argon2_phc_check(password@, h@) == Some(true),
{
    match argon2_phc_hash(password, salt, KDF_M_COST, KDF_T_COST, KDF_P_COST) {
        Some(h) => Ok(h),
        None => Err(string_of(&chars_of("failed to hash master password"))),
    }
}

/// Whether a master key matches its stored hash; an error where the hash
/// does not parse.
pub fn verify_master_password(password: &str, _salt: &str, hash: &str) -> (r: Result<bool, String>)
    ensures
        match argon2_phc_check(password@, hash@) {
            Some(b) => r == Ok::<bool, String>(b),
            None => r is Err,
        },
{
    match argon2_phc_verify(password, hash, KDF_M_COST, KDF_T_COST, KDF_P_COST) {
        Ok(b) => Ok(b),
        Err(e) => {
            let mut m = chars_of("invalid hash: ");
            push_str(&mut m, e.as_str());
            Err(string_of(&m))
        },
    }
}

/// The salt text the key-wrapping key is derived with.
pub open spec fn wrap_salt(salt: Seq<char>) -> Seq<char> {
    "paker-vault-key-wrap:"@ + salt
}

/// The key that wraps the vault key for a master key and salt.
pub fn derive_wrap_key(password: &str, salt: &str) -> (r: Result<Vec<u8>, String>)
    ensures
        r is Ok <==> (utf8_len(password@) <= 0xFFFF_FFFF && utf8_len(salt@) + 21 <= 0xFFFF_FFFF),
        r matches Ok(k) ==> k.len() == 32 && kdf_key(password@, wrap_salt(salt@)) == Some(k@),
        r is Err ==> kdf_key(password@, wrap_salt(salt@)) is None,
{
    let mut s = chars_of("paker-vault-key-wrap:");
    push_str(&mut s, salt);
    let full = string_of(&s);
    proof {
        reveal_strlit("paker-vault-key-wrap:");
        lemma_ascii_utf8_len("paker-vault-key-wrap:"@);
        lemma_utf8_len_concat("paker-vault-key-wrap:"@, salt@);
    }
    match argon2id_derive(password, full.as_str(), KDF_M_COST, KDF_T_COST, KDF_P_COST) {
        Ok(k) => Ok(k),
        Err(e) => {
            let mut m = chars_of("wrap key derivation failed: ");
            push_str(&mut m, e.as_str());
            Err(string_of(&m))
        },
    }
}

proof fn lemma_base64_trim(t: Seq<char>)
    requires
        forall|i: int| 0 <= i < t.len() ==> is_base64_char(#[trigger] t[i]),
    ensures
        trim_spec(t) == t,
{
    if t.len() > 0 {
        assert(is_base64_char(t[0]));
        assert(is_base64_char(t[t.len() - 1]));
    }
    assert(crate::text::lead_ws(t) == 0);
    assert(t.subrange(0, t.len() as int) =~= t);
    assert(crate::text::trail_ws(t) == 0);
}

/// What a wrapped vault key (base64 of nonce and ciphertext) unwraps to
/// under a master key and salt, if anything.
pub open spec fn unwrapped_key(wrapped: Seq<char>, password: Seq<char>, salt: Seq<char>) -> Option<
    Seq<u8>,
> {
    match base64_std_decode(trim_spec(wrapped)) {
        None => None,
        Some(data) => match kdf_key(password, wrap_salt(salt)) {
            None => None,
            Some(wk) => if data.len() <= 12 {
                None
            } else {
                match blob_plaintext(wk, data) {
                    Some(k) => if k.len() == 32 {
                        Some(k)
                    } else {
                        None
                    },
                    None => None,
                }
            },
        },
    }
}

/// Wraps the 32-byte vault key under a key derived from the master key:
/// base64 of a fresh nonce and the ciphertext.  What it returns unwraps to
/// the same vault key under the same master key and salt.
pub fn wrap_vault_key(vault_key: &[u8], password: &str, salt: &str) -> (r: Result<String, String>)
    requires
        vault_key.len() == 32,
    ensures
        r is Ok <==> (utf8_len(password@) <= 0xFFFF_FFFF && utf8_len(salt@) + 21 <= 0xFFFF_FFFF),
        r matches Ok(w) ==> unwrapped_key(w@, password@, salt@) == Some(vault_key@),
{
    let wk = match derive_wrap_key(password, salt) {
        Ok(k) => k,
        Err(e) => {
            return Err(e);
        },
    };
    let blob = match seal_with_key(vault_key, &wk) {
        Ok(b) => b,
        Err(e) => {
            return Err(e);
        },
    };
    let text = base64_std_encode(&blob);
    proof {
        lemma_base64_trim(text@);
    }
    Ok(text)
}

/// Unwraps a stored vault key with the master key and salt; each step that
/// can fail has its own message.
pub fn unwrap_vault_key(wrapped: &str, password: &str, salt: &str) -> (r: Result<Vec<u8>, String>)
    ensures
        r is Ok <==> unwrapped_key(wrapped@, password@, salt@) is Some,
        r matches Ok(k) ==> unwrapped_key(wrapped@, password@, salt@) == Some(k@) && k.len() == 32,
        base64_std_decode(trim_spec(wrapped@)) is None ==> (r matches Err(m) && m@
            == "invalid wrapped vault key encoding"@),
{
    let t = string_of(&trim(&chars_of(wrapped)));
    let data = match base64_std_decode_text(t.as_str()) {
        Some(d) => d,
        None => {
            return Err(string_of(&chars_of("invalid wrapped vault key encoding")));
        },
    };
    if data.len() <= 12 {
        return Err(string_of(&chars_of("wrapped vault key is too short")));
    }
    let wk = match derive_wrap_key(password, salt) {
        Ok(k) => k,
        Err(e) => {
            return Err(e);
        },
    };
    let key = match open_with_key(&data, &wk, "wrapped vault key is too short", "vault key unwrap failed: aead::Error") {
        Ok(k) => k,
        Err(e) => {
            return Err(e);
        },
    };
    if key.len() != 32 {
        return Err(string_of(&chars_of("unexpected vault key length")));
    }
    Ok(key)
}

// ---------------------------------------------------------------------------
// Recovery escrow
// ---------------------------------------------------------------------------

/// What an escrow (base64 escrow key, base64 nonce and ciphertext) opens
/// to, if anything.
pub open spec fn escrowed_key(escrow_key: Seq<char>, wrapped: Seq<char>) -> Option<Seq<u8>> {
    match base64_std_decode(trim_spec(escrow_key)) {
        None => None,
        Some(ek) => if ek.len() != 32 {
            None
        } else {
            match base64_std_decode(trim_spec(wrapped)) {
                None => None,
                Some(data) => if data.len() <= 12 {
                    None
                } else {
                    match blob_plaintext(ek, data) {
                        Some(k) => if k.len() == 32 {
                            Some(k)
                        } else {
                            None
                        },
                        None => None,
                    }
                },
            }
        },
    }
}

/// Seals the vault key under a fresh random escrow key, for recovery after
/// OS authentication: the base64 escrow key and the base64 sealed key.  The
/// pair opens to the same vault key.
pub fn seal_escrow(vault_key: &[u8]) -> (r: Result<(String, String), String>)
    requires
        vault_key.len() == 32,
    ensures
        r matches Ok((e, w)) && escrowed_key(e@, w@) == Some(vault_key@),
{
    let ek_arr: [u8; 32] = random_array::<32>();
    let ek = concat_bytes(&ek_arr, &[]);
    assert(ek@.len() == 32);
    let blob = match seal_with_key(vault_key, &ek) {
        Ok(b) => b,
        Err(e) => {
            return Err(e);
        },
    };
    let e = base64_std_encode(&ek);
    let w = base64_std_encode(&blob);
    proof {
        lemma_base64_trim(e@);
        lemma_base64_trim(w@);
    }
    Ok((e, w))
}

/// Opens an escrow read back from the keychain; each step that can fail
/// has its own message.
pub fn open_escrow(escrow_key: &str, wrapped: &str) -> (r: Result<Vec<u8>, String>)
    ensures
        r is Ok <==> escrowed_key(escrow_key@, wrapped@) is Some,
        r matches Ok(k) ==> escrowed_key(escrow_key@, wrapped@) == Some(k@) && k.len() == 32,
{
    let et = string_of(&trim(&chars_of(escrow_key)));
    let ek = match base64_std_decode_text(et.as_str()) {
        Some(d) => d,
        None => {
            return Err(string_of(&chars_of("invalid escrow key")));
        },
    };
    if ek.len() != 32 {
        return Err(string_of(&chars_of("invalid escrow key length")));
    }
    let wt = string_of(&trim(&chars_of(wrapped)));
    let data = match base64_std_decode_text(wt.as_str()) {
        Some(d) => d,
        None => {
            return Err(string_of(&chars_of("invalid escrow wrap")));
        },
    };
    let key = match open_with_key(&data, &ek, "escrow wrap too short", "escrow decrypt failed: aead::Error") {
        Ok(k) => k,
        Err(e) => {
            return Err(e);
        },
    };
    if key.len() != 32 {
        return Err(string_of(&chars_of("unexpected vault key length from escrow")));
    }
    Ok(key)
}

/// A fresh random 32-byte vault key.
pub fn new_vault_key() -> (r: Vec<u8>)
    ensures
        r.len() == 32,
{
    let a: [u8; 32] = random_array::<32>();
    concat_bytes(&a, &[])
}

} // verus!
