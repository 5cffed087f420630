use vstd::prelude::*;

use crate::text::{
    chars_of, contains, contains_seq, has_prefix, is_whitespace, is_ws, slice_of, starts_with,
    string_from, string_of, trim, trim_spec,
};

verus! {

/// Errors reported across the IPC boundary to the user interface.
#[derive(Debug, Clone)]
pub enum PakerError {
    ConnectionNotFound,
    BucketNotFound,
    AccessDenied,
    Network,
    InvalidInput(String),
    InvalidEndpoint,
    PathNotAllowed,
    IndexNotReady,
    TransferNotFound,
    Internal,
    VaultLocked,
    VaultAuthFailed,
    VaultUnlockBlocked,
    PolicyViolation(String),
    ProposalNotFound,
    ProposalAlreadyClaimed,
    ProposalExpired,
}

/// The serialisable shape of a [`PakerError`].
pub struct IpcErrorPayload {
    pub code: String,
    pub message: String,
    pub user_action: Option<String>,
}

/// Stable machine-readable code of each error variant.
pub open spec fn code_spec(e: PakerError) -> Seq<char> {
    match e {
        PakerError::ConnectionNotFound => "connectionNotFound"@,
        PakerError::BucketNotFound => "bucketNotFound"@,
        PakerError::AccessDenied => "accessDenied"@,
        PakerError::Network => "network"@,
        PakerError::InvalidInput(_) => "invalidInput"@,
        PakerError::InvalidEndpoint => "invalidEndpoint"@,
        PakerError::PathNotAllowed => "pathNotAllowed"@,
        PakerError::IndexNotReady => "indexNotReady"@,
        PakerError::TransferNotFound => "transferNotFound"@,
        PakerError::Internal => "internal"@,
        PakerError::VaultLocked => "vaultLocked"@,
        PakerError::VaultAuthFailed => "vaultAuthFailed"@,
        PakerError::VaultUnlockBlocked => "vaultUnlockBlocked"@,
        PakerError::PolicyViolation(_) => "policyViolation"@,
        PakerError::ProposalNotFound => "proposalNotFound"@,
        PakerError::ProposalAlreadyClaimed => "proposalAlreadyClaimed"@,
        PakerError::ProposalExpired => "proposalExpired"@,
    }
}

/// Human-readable message of each error variant.
pub open spec fn message_spec(e: PakerError) -> Seq<char> {
    match e {
        PakerError::ConnectionNotFound => "Connection not found"@,
        PakerError::BucketNotFound => "Bucket not found or inaccessible"@,
        PakerError::AccessDenied => "Access denied — check credentials and permissions"@,
        PakerError::Network => "Network error — could not reach the storage endpoint"@,
        PakerError::InvalidInput(m) => m@,
        PakerError::InvalidEndpoint => "Invalid endpoint URL — use http:// or https://"@,
        PakerError::PathNotAllowed => "Path is not allowed"@,
        PakerError::IndexNotReady => "Bucket index is not ready"@,
        PakerError::TransferNotFound => "Transfer not found"@,
        PakerError::Internal => "An internal error occurred"@,
        PakerError::VaultLocked => "Vault is locked — enter your master key to continue"@,
        PakerError::VaultAuthFailed => "Master key verification failed"@,
        PakerError::VaultUnlockBlocked => "Vault unlock is temporarily blocked — try again later"@,
        PakerError::PolicyViolation(m) => "Policy violation: "@ + m@,
        PakerError::ProposalNotFound => "Proposal not found"@,
        PakerError::ProposalAlreadyClaimed => "Proposal already claimed"@,
        PakerError::ProposalExpired => "Proposal has expired"@,
    }
}

/// The suggested next step for the user, where there is one.
pub open spec fn user_action_spec(e: PakerError) -> Option<Seq<char>> {
    match e {
        PakerError::ConnectionNotFound => Some("Open Connections and add or select a profile."@),
        PakerError::BucketNotFound => Some(
            "Verify the bucket name and that your account can access it."@,
        ),
        PakerError::AccessDenied => Some(
            "Check your access key, secret key, session token, and IAM permissions."@,
        ),
        PakerError::Network => Some(
            "Check your network connection and that the endpoint is reachable."@,
        ),
        PakerError::InvalidInput(_) => None,
        PakerError::InvalidEndpoint => Some(
            "Enter a full http:// or https:// URL for the S3-compatible endpoint."@,
        ),
        PakerError::PathNotAllowed => Some(
            "Choose a file or folder from your home directory or use the file picker."@,
        ),
        PakerError::IndexNotReady => Some(
            "Wait for indexing to finish or start a new index for this bucket."@,
        ),
        PakerError::TransferNotFound => None,
        PakerError::Internal => Some("Try again. If the problem persists, restart the app."@),
        PakerError::VaultLocked => Some("Unlock the vault from the lock screen."@),
        PakerError::VaultAuthFailed => Some(
            "Check your master key or use OS recovery if you forgot it."@,
        ),
        PakerError::VaultUnlockBlocked => Some("Wait for the cooldown period before trying again."@),
        PakerError::PolicyViolation(_) => None,
        PakerError::ProposalNotFound => Some(
            "The proposal may have expired. Build a new proposal."@,
        ),
        PakerError::ProposalAlreadyClaimed => Some(
            "This proposal was already executed or rejected."@,
        ),
        PakerError::ProposalExpired => Some("Build a new proposal and approve within 15 minutes."@),
    }
}

impl PakerError {
    /// The stable IPC code of this error.
    pub fn code(&self) -> (r: &'static str)
        ensures
            r@ == code_spec(*self),
    {
        match self {
            PakerError::ConnectionNotFound => "connectionNotFound",
            PakerError::BucketNotFound => "bucketNotFound",
            PakerError::AccessDenied => "accessDenied",
            PakerError::Network => "network",
            PakerError::InvalidInput(_) => "invalidInput",
            PakerError::InvalidEndpoint => "invalidEndpoint",
            PakerError::PathNotAllowed => "pathNotAllowed",
            PakerError::IndexNotReady => "indexNotReady",
            PakerError::TransferNotFound => "transferNotFound",
            PakerError::Internal => "internal",
            PakerError::VaultLocked => "vaultLocked",
            PakerError::VaultAuthFailed => "vaultAuthFailed",
            PakerError::VaultUnlockBlocked => "vaultUnlockBlocked",
            PakerError::PolicyViolation(_) => "policyViolation",
            PakerError::ProposalNotFound => "proposalNotFound",
            PakerError::ProposalAlreadyClaimed => "proposalAlreadyClaimed",
            PakerError::ProposalExpired => "proposalExpired",
        }
    }

    /// The suggested user action, absent for invalid input, unknown transfers
    /// and policy violations.
    pub fn user_action(&self) -> (r: Option<&'static str>)
        ensures
            r matches Some(s) ==> user_action_spec(*self) == Some(s@),
            r is None ==> user_action_spec(*self) is None,
    {
        match self {
            PakerError::ConnectionNotFound => Some("Open Connections and add or select a profile."),
            PakerError::BucketNotFound => Some(
                "Verify the bucket name and that your account can access it.",
            ),
            PakerError::AccessDenied => Some(
                "Check your access key, secret key, session token, and IAM permissions.",
            ),
            PakerError::Network => Some(
                "Check your network connection and that the endpoint is reachable.",
            ),
            PakerError::InvalidInput(_) => None,
            PakerError::InvalidEndpoint => Some(
                "Enter a full http:// or https:// URL for the S3-compatible endpoint.",
            ),
            PakerError::PathNotAllowed => Some(
                "Choose a file or folder from your home directory or use the file picker.",
            ),
            PakerError::IndexNotReady => Some(
                "Wait for indexing to finish or start a new index for this bucket.",
            ),
            PakerError::TransferNotFound => None,
            PakerError::Internal => Some("Try again. If the problem persists, restart the app."),
            PakerError::VaultLocked => Some("Unlock the vault from the lock screen."),
            PakerError::VaultAuthFailed => Some(
                "Check your master key or use OS recovery if you forgot it.",
            ),
            PakerError::VaultUnlockBlocked => Some(
                "Wait for the cooldown period before trying again.",
            ),
            PakerError::PolicyViolation(_) => None,
            PakerError::ProposalNotFound => Some(
                "The proposal may have expired. Build a new proposal.",
            ),
            PakerError::ProposalAlreadyClaimed => Some(
                "This proposal was already executed or rejected.",
            ),
            PakerError::ProposalExpired => Some(
                "Build a new proposal and approve within 15 minutes.",
            ),
        }
    }

    /// The human-readable message of this error (its display text).
    pub fn message(&self) -> (r: String)
        ensures
            r@ == message_spec(*self),
    {
        match self {
            PakerError::InvalidInput(m) => string_from(m.as_str()),
            PakerError::PolicyViolation(m) => {
                let mut v = chars_of("Policy violation: ");
                crate::text::push_str(&mut v, m.as_str());
                string_of(&v)
            },
            PakerError::ConnectionNotFound => string_from("Connection not found"),
            PakerError::BucketNotFound => string_from("Bucket not found or inaccessible"),
            PakerError::AccessDenied => string_from(
                "Access denied — check credentials and permissions",
            ),
            PakerError::Network => string_from(
                "Network error — could not reach the storage endpoint",
            ),
            PakerError::InvalidEndpoint => string_from(
                "Invalid endpoint URL — use http:// or https://",
            ),
            PakerError::PathNotAllowed => string_from("Path is not allowed"),
            PakerError::IndexNotReady => string_from("Bucket index is not ready"),
            PakerError::TransferNotFound => string_from("Transfer not found"),
            PakerError::Internal => string_from("An internal error occurred"),
            PakerError::VaultLocked => string_from(
                "Vault is locked — enter your master key to continue",
            ),
            PakerError::VaultAuthFailed => string_from("Master key verification failed"),
            PakerError::VaultUnlockBlocked => string_from(
                "Vault unlock is temporarily blocked — try again later",
            ),
            PakerError::ProposalNotFound => string_from("Proposal not found"),
            PakerError::ProposalAlreadyClaimed => string_from("Proposal already claimed"),
            PakerError::ProposalExpired => string_from("Proposal has expired"),
        }
    }

    /// The payload sent to the user interface for this error.
    pub fn to_ipc_payload(&self) -> (r: IpcErrorPayload)
        ensures
            r.code@ == code_spec(*self),
            r.message@ == message_spec(*self),
            r.user_action matches Some(a) ==> user_action_spec(*self) == Some(a@),
            r.user_action is None ==> user_action_spec(*self) is None,
    {
        let action = match self.user_action() {
            Some(a) => Some(string_from(a)),
            None => None,
        };
        IpcErrorPayload { code: string_from(self.code()), message: self.message(), user_action: action }
    }

    /// A copy of this error.
    pub fn duplicate(&self) -> (r: PakerError)
        ensures
            r == *self,
    {
        match self {
            PakerError::InvalidInput(m) => PakerError::InvalidInput(m.clone()),
            PakerError::PolicyViolation(m) => PakerError::PolicyViolation(m.clone()),
            PakerError::ConnectionNotFound => PakerError::ConnectionNotFound,
            PakerError::BucketNotFound => PakerError::BucketNotFound,
            PakerError::AccessDenied => PakerError::AccessDenied,
            PakerError::Network => PakerError::Network,
            PakerError::InvalidEndpoint => PakerError::InvalidEndpoint,
            PakerError::PathNotAllowed => PakerError::PathNotAllowed,
            PakerError::IndexNotReady => PakerError::IndexNotReady,
            PakerError::TransferNotFound => PakerError::TransferNotFound,
            PakerError::Internal => PakerError::Internal,
            PakerError::VaultLocked => PakerError::VaultLocked,
            PakerError::VaultAuthFailed => PakerError::VaultAuthFailed,
            PakerError::VaultUnlockBlocked => PakerError::VaultUnlockBlocked,
            PakerError::ProposalNotFound => PakerError::ProposalNotFound,
            PakerError::ProposalAlreadyClaimed => PakerError::ProposalAlreadyClaimed,
            PakerError::ProposalExpired => PakerError::ProposalExpired,
        }
    }
}

/// Whether `s` contains a whitespace character.
pub open spec fn has_ws(s: Seq<char>) -> bool {
    exists|i: int| 0 <= i < s.len() && is_ws(#[trigger] s[i])
}

/// The part of a (trimmed) endpoint after its `https://` or `http://` scheme.
pub open spec fn endpoint_rest(t: Seq<char>) -> Option<Seq<char>> {
    if starts_with(t, "https://"@) {
        Some(t.subrange("https://"@.len() as int, t.len() as int))
    } else if starts_with(t, "http://"@) {
        Some(t.subrange("http://"@.len() as int, t.len() as int))
    } else {
        None
    }
}

/// An endpoint is acceptable when it is blank, or an `http(s)://` URL with a
/// non-empty remainder free of whitespace.
pub open spec fn endpoint_valid(s: Seq<char>) -> bool {
    let t = trim_spec(s);
    t.len() == 0 || match endpoint_rest(t) {
        Some(rest) => rest.len() > 0 && !has_ws(rest),
        None => false,
    }
}

/// Check an S3 endpoint URL entered by the user.
pub fn validate_endpoint_url(endpoint: &str) -> (r: Result<(), PakerError>)
    ensures
        r is Ok <==> endpoint_valid(endpoint@),
        r matches Err(e) ==> e == PakerError::InvalidEndpoint,
{
    let raw = chars_of(endpoint);
    let t = trim(&raw);
    if t.len() == 0 {
        return Ok(());
    }
    let https = chars_of("https://");
    let http = chars_of("http://");
    let rest = if has_prefix(&t, &https) {
        slice_of(&t, https.len(), t.len())
    } else if has_prefix(&t, &http) {
        slice_of(&t, http.len(), t.len())
    } else {
        return Err(PakerError::InvalidEndpoint);
    };
    assert(endpoint_rest(t@) == Some(rest@));
    if rest.len() == 0 {
        return Err(PakerError::InvalidEndpoint);
    }
    let mut i: usize = 0;
    while i < rest.len()
        invariant
            i <= rest.len(),
            t@ == trim_spec(endpoint@),
            t@.len() > 0,
            rest@.len() > 0,
            endpoint_rest(t@) == Some(rest@),
            forall|j: int| 0 <= j < i ==> !is_ws(#[trigger] rest@[j]),
        decreases rest.len() - i,
    {
        if is_whitespace(rest[i]) {
            assert(is_ws(rest@[i as int]));
            assert(has_ws(rest@));
            return Err(PakerError::InvalidEndpoint);
        }
        i += 1;
    }
    Ok(())
}

/// Classification of an S3 service error by its message text.
pub open spec fn service_error_spec(m: Seq<char>) -> PakerError {
    if contains_seq(m, "NoSuchBucket"@) || contains_seq(m, "NotFound"@) {
        PakerError::BucketNotFound
    } else if contains_seq(m, "AccessDenied"@) || contains_seq(m, "Forbidden"@) || contains_seq(
        m,
        "InvalidAccessKeyId"@,
    ) || contains_seq(m, "SignatureDoesNotMatch"@) || contains_seq(m, "AllAccessDisabled"@) {
        PakerError::AccessDenied
    } else {
        PakerError::Internal
    }
}

fn contains_lit(m: &[char], pat: &str) -> (b: bool)
    ensures
        b == contains_seq(m@, pat@),
{
    let p = chars_of(pat);
    contains(m, &p)
}

/// Map the message of an S3 service error to an IPC error.
pub fn map_s3_service_error_message(message: &str) -> (r: PakerError)
    ensures
        r == service_error_spec(message@),
{
    let m = chars_of(message);
    if contains_lit(&m, "NoSuchBucket") || contains_lit(&m, "NotFound") {
        PakerError::BucketNotFound
    } else if contains_lit(&m, "AccessDenied") || contains_lit(&m, "Forbidden") || contains_lit(
        &m,
        "InvalidAccessKeyId",
    ) || contains_lit(&m, "SignatureDoesNotMatch") || contains_lit(&m, "AllAccessDisabled") {
        PakerError::AccessDenied
    } else {
        PakerError::Internal
    }
}

/// Map a failure to an IPC error: a carried [`PakerError`] is kept, anything
/// else becomes [`PakerError::Internal`].
pub fn into_ipc_error(carried: Option<PakerError>) -> (r: PakerError)
    ensures
        carried matches Some(e) ==> r == e,
        carried is None ==> r == PakerError::Internal,
{
    match carried {
        Some(e) => e,
        None => PakerError::Internal,
    }
}

/// Clamp presigned URL expiry to 60 seconds .. 7 days.
pub fn clamp_presign_expiry_secs(expires_secs: u64) -> (r: u64)
    ensures
        r == (if expires_secs < 60 { 60 } else if expires_secs > 604_800 { 604_800 } else { expires_secs }),
{
    if expires_secs < 60 {
        60
    } else if expires_secs > 604_800 {
        604_800
    } else {
        expires_secs
    }
}

/// A service error message that carries a credential or permission failure
/// code (AccessDenied, Forbidden, InvalidAccessKeyId, SignatureDoesNotMatch
/// or AllAccessDisabled) is an access denial, unless it names a missing
/// bucket or object (NoSuchBucket, NotFound); a message is classed as an
/// internal error only when it carries none of these codes.
pub proof fn law_credential_failures_are_access_denied(m: Seq<char>)
    ensures
        ({
            let missing = contains_seq(m, "NoSuchBucket"@) || contains_seq(m, "NotFound"@);
            let denied = contains_seq(m, "AccessDenied"@) || contains_seq(m, "Forbidden"@)
                || contains_seq(m, "InvalidAccessKeyId"@) || contains_seq(m, "SignatureDoesNotMatch"@)
                || contains_seq(m, "AllAccessDisabled"@);
            &&& missing ==> service_error_spec(m) == PakerError::BucketNotFound
            &&& (denied && !missing) ==> service_error_spec(m) == PakerError::AccessDenied
            &&& service_error_spec(m) == PakerError::Internal <==> (!missing && !denied)
        }),
{
}

} // verus!
