use vstd::prelude::*;

use base64::Engine;
use hmac::Mac;

use crate::error::PakerError;
use crate::text::{
    chars_of, decimal_int, eq_chars, find, find_spec, i64_to_decimal, push_all, push_str,
    slice_of, string_of,
};

verus! {

/// The HMAC-SHA256 tag of the UTF-8 bytes of `msg` under `key`.
pub uninterp spec fn hmac_sha256_spec(key: Seq<u8>, msg: Seq<char>) -> Seq<u8>;

/// The URL-safe, unpadded base64 text of `bytes`.
pub uninterp spec fn base64url_spec(bytes: Seq<u8>) -> Seq<char>;

/// The bytes that URL-safe, unpadded base64 text decodes to, if it is valid.
pub uninterp spec fn base64url_decode_spec(text: Seq<char>) -> Option<Seq<u8>>;

/// A 256-bit key that signs proposal tokens.
pub struct HmacKey(pub [u8; 32]);

/// hmac/sha2: `Hmac::<Sha256>::new_from_slice(key)` (which accepts a key of
/// any length), `update` with the UTF-8 bytes of `msg`, `finalize`.  The tag
/// is named by [`hmac_sha256_spec`].
#[verifier::external_body]
fn hmac_tag(key: &[u8], msg: &str) -> (r: Vec<u8>)
    ensures
        r@ == hmac_sha256_spec(key@, msg@),
{
    let mut mac = hmac::Hmac::<sha2::Sha256>::new_from_slice(key).expect("any key length");
    mac.update(msg.as_bytes());
    mac.finalize().into_bytes().to_vec()
}

/// hmac: `Mac::verify_slice`, which accepts `tag` exactly when it is the
/// whole HMAC-SHA256 tag of `msg` under `key` (compared in constant time).
#[verifier::external_body]
fn hmac_matches(key: &[u8], msg: &str, tag: &[u8]) -> (r: bool)
    ensures
        r == (tag@ == hmac_sha256_spec(key@, msg@)),
{
    let mut mac = hmac::Hmac::<sha2::Sha256>::new_from_slice(key).expect("any key length");
    mac.update(msg.as_bytes());
    mac.verify_slice(tag).is_ok()
}

/// base64: `URL_SAFE_NO_PAD.encode`.  Decoding what it produces gives the
/// bytes back.
#[verifier::external_body]
fn base64url_encode(bytes: &[u8]) -> (r: String)
    ensures
        r@ == base64url_spec(bytes@),
        base64url_decode_spec(r@) == Some(bytes@),
{
    base64::engine::general_purpose::URL_SAFE_NO_PAD.encode(bytes)
}

/// base64: `URL_SAFE_NO_PAD.decode`, `None` where it reports an error.  It
/// takes only canonical text (no padding, and the `NO_PAD` configuration
/// leaves `decode_allow_trailing_bits` off, so no stray bits after the last
/// byte): text it accepts is the encoding of the bytes it decodes to.
#[verifier::external_body]
fn base64url_decode(text: &str) -> (r: Option<Vec<u8>>)
    ensures
        match r {
            Some(v) => base64url_decode_spec(text@) == Some(v@),
            None => base64url_decode_spec(text@) is None,
        },
        r matches Some(v) ==> base64url_spec(v@) == text@,
{
    match base64::engine::general_purpose::URL_SAFE_NO_PAD.decode(text) {
        Ok(v) => Some(v),
        Err(_) => None,
    }
}

impl HmacKey {
    /// A fresh random key.
    pub fn generate() -> HmacKey {
        HmacKey(crate::crypto::random_array::<32>())
    }
}

/// The signed message: the fields joined by `:`.
pub open spec fn message_spec(
    proposal_id: Seq<char>,
    connection_id: Seq<char>,
    bucket: Seq<char>,
    kind: Seq<char>,
    created_at: i64,
) -> Seq<char> {
    proposal_id + ":"@ + connection_id + ":"@ + bucket + ":"@ + kind + ":"@ + decimal_int(
        created_at as int,
    )
}

/// The token for these fields: `v1.<proposal id>.<base64url HMAC tag>`.
pub open spec fn token_spec(
    key: Seq<u8>,
    proposal_id: Seq<char>,
    connection_id: Seq<char>,
    bucket: Seq<char>,
    kind: Seq<char>,
    created_at: i64,
) -> Seq<char> {
    "v1."@ + proposal_id + "."@ + base64url_spec(
        hmac_sha256_spec(key, message_spec(proposal_id, connection_id, bucket, kind, created_at)),
    )
}

/// How a token fares against the fields it should sign.
#[derive(Debug, Clone, Copy, PartialEq, Eq, Structural)]
pub enum TokenCheck {
    Malformed,
    IdMismatch,
    BadEncoding,
    BadSignature,
    Valid,
}

/// The three `.`-separated parts of a token (`str::splitn(3, '.')`), if it
/// has at least two dots.
pub open spec fn token_parts(t: Seq<char>) -> Option<(Seq<char>, Seq<char>, Seq<char>)> {
    match find_spec(t, seq!['.']) {
        None => None,
        Some(a) => {
            let rest = t.subrange(a + 1, t.len() as int);
            match find_spec(rest, seq!['.']) {
                None => None,
                Some(b) => Some(
                    (
                        t.subrange(0, a),
                        rest.subrange(0, b),
                        rest.subrange(b + 1, rest.len() as int),
                    ),
                ),
            }
        },
    }
}

/// The verdict on `token` for these fields under `key`.
pub open spec fn token_check(
    key: Seq<u8>,
    token: Seq<char>,
    proposal_id: Seq<char>,
    connection_id: Seq<char>,
    bucket: Seq<char>,
    kind: Seq<char>,
    created_at: i64,
) -> TokenCheck {
    match token_parts(token) {
        None => TokenCheck::Malformed,
        Some((v, id, sig)) => if v != "v1"@ {
            TokenCheck::Malformed
        } else if id != proposal_id {
            TokenCheck::IdMismatch
        } else {
            match base64url_decode_spec(sig) {
                None => TokenCheck::BadEncoding,
                Some(bytes) => if bytes == hmac_sha256_spec(
                    key,
                    message_spec(proposal_id, connection_id, bucket, kind, created_at),
                ) {
                    TokenCheck::Valid
                } else {
                    TokenCheck::BadSignature
                },
            }
        },
    }
}

fn make_message(
    proposal_id: &str,
    connection_id: &str,
    bucket: &str,
    kind: &str,
    created_at: i64,
) -> (r: String)
    ensures
        r@ == message_spec(proposal_id@, connection_id@, bucket@, kind@, created_at),
{
    let mut m = chars_of(proposal_id);
    push_str(&mut m, ":");
    push_str(&mut m, connection_id);
    push_str(&mut m, ":");
    push_str(&mut m, bucket);
    push_str(&mut m, ":");
    push_str(&mut m, kind);
    push_str(&mut m, ":");
    push_all(&mut m, &i64_to_decimal(created_at));
    string_of(&m)
}

proof fn lemma_split_signed(id: Seq<char>, sig: Seq<char>)
    requires
        !id.contains('.'),
    ensures
        token_parts("v1."@ + id + "."@ + sig) == Some(("v1"@, id, sig)),
{
    reveal_strlit("v1.");
    reveal_strlit(".");
    reveal_strlit("v1");
    let t = "v1."@ + id + "."@ + sig;
    let dot = seq!['.'];
    crate::text::lemma_find(t, dot);
    assert(crate::text::occurs_at(t, dot, 2)) by {
        assert(t.subrange(2, 3) =~= dot);
    }
    assert forall|j: int| 0 <= j < 2 implies !crate::text::occurs_at(t, dot, j) by {
        assert(t.subrange(j, j + 1)[0] == t[j]);
    }
    let rest = t.subrange(3, t.len() as int);
    assert(rest =~= id + "."@ + sig);
    crate::text::lemma_find(rest, dot);
    let n = id.len() as int;
    assert(crate::text::occurs_at(rest, dot, n)) by {
        assert(rest.subrange(n, n + 1) =~= dot);
    }
    assert forall|j: int| 0 <= j < n implies !crate::text::occurs_at(rest, dot, j) by {
        assert(rest.subrange(j, j + 1)[0] == id[j]);
    }
    match find_spec(t, dot) {
        Some(a) => {
            assert(a == 2);
        },
        None => {},
    }
    match find_spec(rest, dot) {
        Some(b) => {
            assert(b == n);
        },
        None => {},
    }
    assert(t.subrange(0, 2) =~= "v1"@);
    assert(rest.subrange(0, n) =~= id);
    assert(rest.subrange(n + 1, rest.len() as int) =~= sig);
}

proof fn lemma_token_parts_join(t: Seq<char>)
    requires
        token_parts(t) is Some,
    ensures
        ({
            let (a, b, c) = token_parts(t)->0;
            t == a + "."@ + b + "."@ + c
        }),
{
    reveal_strlit(".");
    let dot = seq!['.'];
    crate::text::lemma_find(t, dot);
    let i = find_spec(t, dot)->0;
    let rest = t.subrange(i + 1, t.len() as int);
    crate::text::lemma_find(rest, dot);
    let j = find_spec(rest, dot)->0;
    assert("."@ =~= dot);
    assert(t.subrange(i, i + 1) =~= dot);
    assert(t[i] == t.subrange(i, i + 1)[0]);
    assert(rest.subrange(j, j + 1) =~= dot);
    assert(rest[j] == rest.subrange(j, j + 1)[0]);
    assert(rest =~= rest.subrange(0, j) + "."@ + rest.subrange(j + 1, rest.len() as int));
    assert(t =~= t.subrange(0, i) + "."@ + rest);
}

/// Signs the fields of a proposal.  When the proposal id holds no `.`, the
/// token returned verifies against the same fields and key.
pub fn sign(
    key: &HmacKey,
    proposal_id: &str,
    connection_id: &str,
    bucket: &str,
    kind: &str,
    created_at: i64,
) -> (r: String)
    ensures
        r@ == token_spec(key.0@, proposal_id@, connection_id@, bucket@, kind@, created_at),
        !proposal_id@.contains('.') ==> token_check(
            key.0@,
            r@,
            proposal_id@,
            connection_id@,
            bucket@,
            kind@,
            created_at,
        ) == TokenCheck::Valid,
{
    let message = make_message(proposal_id, connection_id, bucket, kind, created_at);
    let tag = hmac_tag(&key.0, message.as_str());
    let sig = base64url_encode(&tag);
    let mut t = chars_of("v1.");
    push_str(&mut t, proposal_id);
    push_str(&mut t, ".");
    push_str(&mut t, sig.as_str());
    proof {
        if !proposal_id@.contains('.') {
            lemma_split_signed(proposal_id@, sig@);
        }
    }
    string_of(&t)
}

fn split3(t: &[char]) -> (r: Option<(Vec<char>, Vec<char>, Vec<char>)>)
    ensures
        match r {
            Some((a, b, c)) => token_parts(t@) == Some((a@, b@, c@)),
            None => token_parts(t@) is None,
        },
{
    let dot = vec!['.'];
    assert(dot@ =~= seq!['.']);
    match find(t, &dot) {
        None => None,
        Some(a) => {
            assert(a + 1 <= t.len());
            let rest = slice_of(t, a + 1, t.len());
            match find(&rest, &dot) {
                None => None,
                Some(b) => {
                    assert(b + 1 <= rest.len());
                    Some(
                    (slice_of(t, 0, a), slice_of(&rest, 0, b), slice_of(&rest, b + 1, rest.len())),
                )
                },
            }
        },
    }
}

fn invalid(msg: &str) -> (e: PakerError)
    ensures
        e matches PakerError::InvalidInput(m) && m@ == msg@,
{
    PakerError::InvalidInput(string_of(&chars_of(msg)))
}

/// Checks a token against the fields it should sign.  It accepts only the
/// very token [`sign`] makes of these fields under this key, so a token
/// changed in any character is refused.
pub fn verify(
    key: &HmacKey,
    token: &str,
    proposal_id: &str,
    connection_id: &str,
    bucket: &str,
    kind: &str,
    created_at: i64,
) -> (r: Result<(), PakerError>)
    ensures
        match token_check(key.0@, token@, proposal_id@, connection_id@, bucket@, kind@, created_at) {
            TokenCheck::Valid => r is Ok,
            TokenCheck::Malformed => r matches Err(PakerError::InvalidInput(m)) && m@
                == "Malformed HMAC token"@,
            TokenCheck::IdMismatch => r matches Err(PakerError::InvalidInput(m)) && m@
                == "Token proposal ID mismatch"@,
            TokenCheck::BadEncoding => r matches Err(PakerError::InvalidInput(m)) && m@
                == "Invalid token signature encoding"@,
            TokenCheck::BadSignature => r matches Err(PakerError::InvalidInput(m)) && m@
                == "Token signature verification failed"@,
        },
        r is Ok ==> token@ == token_spec(key.0@, proposal_id@, connection_id@, bucket@, kind@, created_at),
{
    let (v, id, sig) = match split3(&chars_of(token)) {
        None => {
            return Err(invalid("Malformed HMAC token"));
        },
        Some(p) => p,
    };
    if !eq_chars(&v, &chars_of("v1")) {
        return Err(invalid("Malformed HMAC token"));
    }
    if !eq_chars(&id, &chars_of(proposal_id)) {
        return Err(invalid("Token proposal ID mismatch"));
    }
    let bytes = match base64url_decode(string_of(&sig).as_str()) {
        None => {
            return Err(invalid("Invalid token signature encoding"));
        },
        Some(b) => b,
    };
    let message = make_message(proposal_id, connection_id, bucket, kind, created_at);
    if !hmac_matches(&key.0, message.as_str(), &bytes) {
        return Err(invalid("Token signature verification failed"));
    }
    proof {
        lemma_token_parts_join(token@);
        reveal_strlit("v1");
        reveal_strlit("v1.");
        reveal_strlit(".");
        assert("v1"@ + "."@ =~= "v1."@);
        assert(token@ =~= "v1."@ + proposal_id@ + "."@ + sig@);
    }
    Ok(())
}

/// A token is accepted only for the exact fields it was made from: any
/// valid token carries the proposal id and decodes to the HMAC tag of
/// precisely these fields under the key.
pub proof fn law_valid_token_binds_fields(
    key: Seq<u8>,
    token: Seq<char>,
    proposal_id: Seq<char>,
    connection_id: Seq<char>,
    bucket: Seq<char>,
    kind: Seq<char>,
    created_at: i64,
)
    requires
        token_check(key, token, proposal_id, connection_id, bucket, kind, created_at)
            == TokenCheck::Valid,
    ensures
        token_parts(token) matches Some((v, id, sig)) && v == "v1"@ && id == proposal_id
            && base64url_decode_spec(sig) == Some(
            hmac_sha256_spec(key, message_spec(proposal_id, connection_id, bucket, kind, created_at)),
        ),
{
}

} // verus!
