use vstd::prelude::*;

use crate::error::{code_spec, message_spec, user_action_spec, PakerError};
use crate::text::{chars_of, eq_chars, push_str, string_from, string_of};

verus! {

/// A user-facing explanation of an error code.
pub struct ErrorExplanation {
    pub code: String,
    pub message: String,
    pub user_action: Option<String>,
    pub detail: String,
}

/// The IPC codes that name an error kind.
pub open spec fn code_known(c: Seq<char>) -> bool {
    ||| c == "connectionNotFound"@
    ||| c == "bucketNotFound"@
    ||| c == "accessDenied"@
    ||| c == "network"@
    ||| c == "invalidInput"@
    ||| c == "invalidEndpoint"@
    ||| c == "pathNotAllowed"@
    ||| c == "indexNotReady"@
    ||| c == "transferNotFound"@
    ||| c == "internal"@
    ||| c == "vaultLocked"@
    ||| c == "vaultAuthFailed"@
    ||| c == "vaultUnlockBlocked"@
    ||| c == "policyViolation"@
    ||| c == "proposalNotFound"@
    ||| c == "proposalAlreadyClaimed"@
    ||| c == "proposalExpired"@
}

/// `e` is the error that the code `c` names: the variant whose code is `c`
/// (with an empty message for `invalidInput` and `policyViolation`), or,
/// for an unknown code,
/// invalid input that names the code.
pub open spec fn code_names(c: Seq<char>, e: PakerError) -> bool {
    match e {
        PakerError::InvalidInput(m) => (c == "invalidInput"@ && m@ == Seq::<char>::empty()) || (
        !code_known(c) && m@ == "Unknown error code: "@ + c),
        PakerError::PolicyViolation(m) => c == "policyViolation"@ && m@ == Seq::<char>::empty(),
        _ => code_known(c) && code_spec(e) == c,
    }
}

/// The longer explanation shown for each error.
pub open spec fn detail_spec(e: PakerError) -> Seq<char> {
    match e {
        PakerError::ConnectionNotFound => "The selected connection profile was removed or its ID is invalid. Open the Connections panel and pick a saved profile, or create a new one."@,
        PakerError::BucketNotFound => "S3 returned 404 or the bucket name is wrong for this account/endpoint. Confirm the bucket exists in the AWS console or your provider dashboard, and that the profile region matches."@,
        PakerError::AccessDenied => "Credentials are valid but IAM policy denies the operation. For listing, ensure s3:ListBucket on the bucket ARN. For objects, ensure s3:GetObject/s3:PutObject on the object prefix. Session tokens expire — re-save the profile if using STS."@,
        PakerError::Network => "Paker could not reach the endpoint. Check VPN/firewall, DNS for custom endpoints, and that the URL includes https://. MinIO and local endpoints must be reachable from this machine."@,
        PakerError::InvalidInput(m) => if m@.len() > 0 {
            m@
        } else {
            "The request had invalid parameters (empty path, bad rename target, etc.)."@
        },
        PakerError::InvalidEndpoint => "Endpoint URLs must start with http:// or https://. Path-style vs virtual-hosted-style is handled automatically; do not append bucket names to the endpoint field."@,
        PakerError::PathNotAllowed => "Local paths must stay within allowed directories (home, picked folders). Use the folder picker instead of typing arbitrary system paths."@,
        PakerError::IndexNotReady => "Bucket indexing is idle, running, or failed. Open Index bucket, wait for completion, or rebuild if the index is stale after many changes."@,
        PakerError::TransferNotFound => "The transfer ID is no longer in the queue — it may have finished or been cancelled."@,
        PakerError::Internal => "An unexpected Rust-side failure occurred. Restart Paker. If portable mode, ensure ./data/ is writable."@,
        PakerError::VaultLocked => "Secrets are encrypted with your vault master key. Unlock from the lock screen before connecting or transferring."@,
        PakerError::VaultAuthFailed => "The master password did not match vault.meta. Use OS recovery (Touch ID / Windows Hello) if configured, or restore from backup."@,
        PakerError::VaultUnlockBlocked => "Too many failed unlock attempts triggered a cooldown to slow guessing attacks."@,
        PakerError::PolicyViolation(m) => if m@.len() > 0 {
            m@
        } else {
            "The operation was rejected due to a policy violation."@
        },
        PakerError::ProposalNotFound => "The approval proposal was not found. It may have expired or been cancelled."@,
        PakerError::ProposalAlreadyClaimed => "This proposal was already executed or rejected by another approver."@,
        PakerError::ProposalExpired => "The approval window elapsed. Build a new proposal and approve within the required time."@,
    }
}

fn eq_lit(c: &[char], lit: &str) -> (b: bool)
    ensures
        b == (c@ == lit@),
{
    let l = chars_of(lit);
    eq_chars(c, &l)
}

/// The error named by an IPC code.
pub fn paker_error_from_code(code: &str) -> (r: PakerError)
    ensures
        code_names(code@, r),
{
    let c = chars_of(code);
    if eq_lit(&c, "connectionNotFound") {
        PakerError::ConnectionNotFound
    } else if eq_lit(&c, "bucketNotFound") {
        PakerError::BucketNotFound
    } else if eq_lit(&c, "accessDenied") {
        PakerError::AccessDenied
    } else if eq_lit(&c, "network") {
        PakerError::Network
    } else if eq_lit(&c, "invalidInput") {
        PakerError::InvalidInput(String::new())
    } else if eq_lit(&c, "invalidEndpoint") {
        PakerError::InvalidEndpoint
    } else if eq_lit(&c, "pathNotAllowed") {
        PakerError::PathNotAllowed
    } else if eq_lit(&c, "indexNotReady") {
        PakerError::IndexNotReady
    } else if eq_lit(&c, "transferNotFound") {
        PakerError::TransferNotFound
    } else if eq_lit(&c, "internal") {
        PakerError::Internal
    } else if eq_lit(&c, "vaultLocked") {
        PakerError::VaultLocked
    } else if eq_lit(&c, "vaultAuthFailed") {
        PakerError::VaultAuthFailed
    } else if eq_lit(&c, "vaultUnlockBlocked") {
        PakerError::VaultUnlockBlocked
    } else if eq_lit(&c, "policyViolation") {
        PakerError::PolicyViolation(String::new())
    } else if eq_lit(&c, "proposalNotFound") {
        PakerError::ProposalNotFound
    } else if eq_lit(&c, "proposalAlreadyClaimed") {
        PakerError::ProposalAlreadyClaimed
    } else if eq_lit(&c, "proposalExpired") {
        PakerError::ProposalExpired
    } else {
        let mut m = chars_of("Unknown error code: ");
        push_str(&mut m, code);
        PakerError::InvalidInput(string_of(&m))
    }
}

/// The longer explanation of an error.
pub fn detail_for(err: &PakerError) -> (r: String)
    ensures
        r@ == detail_spec(*err),
{
    match err {
        PakerError::ConnectionNotFound => string_from("The selected connection profile was removed or its ID is invalid. Open the Connections panel and pick a saved profile, or create a new one."),
        PakerError::BucketNotFound => string_from("S3 returned 404 or the bucket name is wrong for this account/endpoint. Confirm the bucket exists in the AWS console or your provider dashboard, and that the profile region matches."),
        PakerError::AccessDenied => string_from("Credentials are valid but IAM policy denies the operation. For listing, ensure s3:ListBucket on the bucket ARN. For objects, ensure s3:GetObject/s3:PutObject on the object prefix. Session tokens expire — re-save the profile if using STS."),
        PakerError::Network => string_from("Paker could not reach the endpoint. Check VPN/firewall, DNS for custom endpoints, and that the URL includes https://. MinIO and local endpoints must be reachable from this machine."),
        PakerError::InvalidInput(m) => if m.as_str().is_empty() {
            string_from("The request had invalid parameters (empty path, bad rename target, etc.).")
        } else {
            string_from(m.as_str())
        },
        PakerError::InvalidEndpoint => string_from("Endpoint URLs must start with http:// or https://. Path-style vs virtual-hosted-style is handled automatically; do not append bucket names to the endpoint field."),
        PakerError::PathNotAllowed => string_from("Local paths must stay within allowed directories (home, picked folders). Use the folder picker instead of typing arbitrary system paths."),
        PakerError::IndexNotReady => string_from("Bucket indexing is idle, running, or failed. Open Index bucket, wait for completion, or rebuild if the index is stale after many changes."),
        PakerError::TransferNotFound => string_from("The transfer ID is no longer in the queue — it may have finished or been cancelled."),
        PakerError::Internal => string_from("An unexpected Rust-side failure occurred. Restart Paker. If portable mode, ensure ./data/ is writable."),
        PakerError::VaultLocked => string_from("Secrets are encrypted with your vault master key. Unlock from the lock screen before connecting or transferring."),
        PakerError::VaultAuthFailed => string_from("The master password did not match vault.meta. Use OS recovery (Touch ID / Windows Hello) if configured, or restore from backup."),
        PakerError::VaultUnlockBlocked => string_from("Too many failed unlock attempts triggered a cooldown to slow guessing attacks."),
        PakerError::PolicyViolation(m) => if m.as_str().is_empty() {
            string_from("The operation was rejected due to a policy violation.")
        } else {
            string_from(m.as_str())
        },
        PakerError::ProposalNotFound => string_from("The approval proposal was not found. It may have expired or been cancelled."),
        PakerError::ProposalAlreadyClaimed => string_from("This proposal was already executed or rejected by another approver."),
        PakerError::ProposalExpired => string_from("The approval window elapsed. Build a new proposal and approve within the required time."),
    }
}

/// Explain an IPC error code: its canonical code, message, user action and
/// detail.
pub fn explain_error_code(code: &str) -> (r: ErrorExplanation)
    ensures
        exists|e: PakerError| #![auto]
            code_names(code@, e) && r.code@ == code_spec(e) && r.message@ == message_spec(e)
                && r.detail@ == detail_spec(e) && (r.user_action matches Some(a)
                ==> user_action_spec(e) == Some(a@)) && (r.user_action is None
                ==> user_action_spec(e) is None),
{
    let err = paker_error_from_code(code);
    let action = match err.user_action() {
        Some(a) => Some(string_from(a)),
        None => None,
    };
    let r = ErrorExplanation {
        code: string_from(err.code()),
        message: err.message(),
        user_action: action,
        detail: detail_for(&err),
    };
    assert(code_names(code@, err));
    r
}

/// An error whose message part, if it has one, is empty: what an IPC code
/// alone can name.
pub open spec fn bare(e: PakerError) -> bool {
    match e {
        PakerError::InvalidInput(m) => m@.len() == 0,
        PakerError::PolicyViolation(m) => m@.len() == 0,
        _ => true,
    }
}

/// The position of an error's kind in the list of kinds.
pub open spec fn kind_index(e: PakerError) -> int {
    match e {
        PakerError::ConnectionNotFound => 0,
        PakerError::BucketNotFound => 1,
        PakerError::AccessDenied => 2,
        PakerError::Network => 3,
        PakerError::InvalidInput(_) => 4,
        PakerError::InvalidEndpoint => 5,
        PakerError::PathNotAllowed => 6,
        PakerError::IndexNotReady => 7,
        PakerError::TransferNotFound => 8,
        PakerError::Internal => 9,
        PakerError::VaultLocked => 10,
        PakerError::VaultAuthFailed => 11,
        PakerError::VaultUnlockBlocked => 12,
        PakerError::PolicyViolation(_) => 13,
        PakerError::ProposalNotFound => 14,
        PakerError::ProposalAlreadyClaimed => 15,
        PakerError::ProposalExpired => 16,
    }
}

/// The kind a known code stands for.
pub open spec fn code_kind(c: Seq<char>) -> int {
    if c == "connectionNotFound"@ {
        0
    } else if c == "bucketNotFound"@ {
        1
    } else if c == "accessDenied"@ {
        2
    } else if c == "network"@ {
        3
    } else if c == "invalidInput"@ {
        4
    } else if c == "invalidEndpoint"@ {
        5
    } else if c == "pathNotAllowed"@ {
        6
    } else if c == "indexNotReady"@ {
        7
    } else if c == "transferNotFound"@ {
        8
    } else if c == "internal"@ {
        9
    } else if c == "vaultLocked"@ {
        10
    } else if c == "vaultAuthFailed"@ {
        11
    } else if c == "vaultUnlockBlocked"@ {
        12
    } else if c == "policyViolation"@ {
        13
    } else if c == "proposalNotFound"@ {
        14
    } else if c == "proposalAlreadyClaimed"@ {
        15
    } else {
        16
    }
}

/// Each error's code is known and stands for its own kind.
proof fn lemma_code_kind(e: PakerError)
    ensures
        code_known(code_spec(e)),
        code_kind(code_spec(e)) == kind_index(e),
{
    reveal_strlit("connectionNotFound");
    reveal_strlit("bucketNotFound");
    reveal_strlit("accessDenied");
    reveal_strlit("network");
    reveal_strlit("invalidInput");
    reveal_strlit("invalidEndpoint");
    reveal_strlit("pathNotAllowed");
    reveal_strlit("indexNotReady");
    reveal_strlit("transferNotFound");
    reveal_strlit("internal");
    reveal_strlit("vaultLocked");
    reveal_strlit("vaultAuthFailed");
    reveal_strlit("vaultUnlockBlocked");
    reveal_strlit("policyViolation");
    reveal_strlit("proposalNotFound");
    reveal_strlit("proposalAlreadyClaimed");
    reveal_strlit("proposalExpired");

    match e {
        PakerError::ConnectionNotFound => {
        },
        PakerError::BucketNotFound => {
            assert("bucketNotFound"@.len() != "connectionNotFound"@.len());
        },
        PakerError::AccessDenied => {
            assert("accessDenied"@.len() != "connectionNotFound"@.len());
            assert("accessDenied"@.len() != "bucketNotFound"@.len());
        },
        PakerError::Network => {
            assert("network"@.len() != "connectionNotFound"@.len());
            assert("network"@.len() != "bucketNotFound"@.len());
            assert("network"@.len() != "accessDenied"@.len());
        },
        PakerError::InvalidInput(_) => {
            assert("invalidInput"@.len() != "connectionNotFound"@.len());
            assert("invalidInput"@.len() != "bucketNotFound"@.len());
            assert("invalidInput"@[0] != "accessDenied"@[0]);
            assert("invalidInput"@.len() != "network"@.len());
        },
        PakerError::InvalidEndpoint => {
            assert("invalidEndpoint"@.len() != "connectionNotFound"@.len());
            assert("invalidEndpoint"@.len() != "bucketNotFound"@.len());
            assert("invalidEndpoint"@.len() != "accessDenied"@.len());
            assert("invalidEndpoint"@.len() != "network"@.len());
            assert("invalidEndpoint"@.len() != "invalidInput"@.len());
        },
        PakerError::PathNotAllowed => {
            assert("pathNotAllowed"@.len() != "connectionNotFound"@.len());
            assert("pathNotAllowed"@[0] != "bucketNotFound"@[0]);
            assert("pathNotAllowed"@.len() != "accessDenied"@.len());
            assert("pathNotAllowed"@.len() != "network"@.len());
            assert("pathNotAllowed"@.len() != "invalidInput"@.len());
            assert("pathNotAllowed"@.len() != "invalidEndpoint"@.len());
        },
        PakerError::IndexNotReady => {
            assert("indexNotReady"@.len() != "connectionNotFound"@.len());
            assert("indexNotReady"@.len() != "bucketNotFound"@.len());
            assert("indexNotReady"@.len() != "accessDenied"@.len());
            assert("indexNotReady"@.len() != "network"@.len());
            assert("indexNotReady"@.len() != "invalidInput"@.len());
            assert("indexNotReady"@.len() != "invalidEndpoint"@.len());
            assert("indexNotReady"@.len() != "pathNotAllowed"@.len());
        },
        PakerError::TransferNotFound => {
            assert("transferNotFound"@.len() != "connectionNotFound"@.len());
            assert("transferNotFound"@.len() != "bucketNotFound"@.len());
            assert("transferNotFound"@.len() != "accessDenied"@.len());
            assert("transferNotFound"@.len() != "network"@.len());
            assert("transferNotFound"@.len() != "invalidInput"@.len());
            assert("transferNotFound"@.len() != "invalidEndpoint"@.len());
            assert("transferNotFound"@.len() != "pathNotAllowed"@.len());
            assert("transferNotFound"@.len() != "indexNotReady"@.len());
        },
        PakerError::Internal => {
            assert("internal"@.len() != "connectionNotFound"@.len());
            assert("internal"@.len() != "bucketNotFound"@.len());
            assert("internal"@.len() != "accessDenied"@.len());
            assert("internal"@.len() != "network"@.len());
            assert("internal"@.len() != "invalidInput"@.len());
            assert("internal"@.len() != "invalidEndpoint"@.len());
            assert("internal"@.len() != "pathNotAllowed"@.len());
            assert("internal"@.len() != "indexNotReady"@.len());
            assert("internal"@.len() != "transferNotFound"@.len());
        },
        PakerError::VaultLocked => {
            assert("vaultLocked"@.len() != "connectionNotFound"@.len());
            assert("vaultLocked"@.len() != "bucketNotFound"@.len());
            assert("vaultLocked"@.len() != "accessDenied"@.len());
            assert("vaultLocked"@.len() != "network"@.len());
            assert("vaultLocked"@.len() != "invalidInput"@.len());
            assert("vaultLocked"@.len() != "invalidEndpoint"@.len());
            assert("vaultLocked"@.len() != "pathNotAllowed"@.len());
            assert("vaultLocked"@.len() != "indexNotReady"@.len());
            assert("vaultLocked"@.len() != "transferNotFound"@.len());
            assert("vaultLocked"@.len() != "internal"@.len());
        },
        PakerError::VaultAuthFailed => {
            assert("vaultAuthFailed"@.len() != "connectionNotFound"@.len());
            assert("vaultAuthFailed"@.len() != "bucketNotFound"@.len());
            assert("vaultAuthFailed"@.len() != "accessDenied"@.len());
            assert("vaultAuthFailed"@.len() != "network"@.len());
            assert("vaultAuthFailed"@.len() != "invalidInput"@.len());
            assert("vaultAuthFailed"@[0] != "invalidEndpoint"@[0]);
            assert("vaultAuthFailed"@.len() != "pathNotAllowed"@.len());
            assert("vaultAuthFailed"@.len() != "indexNotReady"@.len());
            assert("vaultAuthFailed"@.len() != "transferNotFound"@.len());
            assert("vaultAuthFailed"@.len() != "internal"@.len());
            assert("vaultAuthFailed"@.len() != "vaultLocked"@.len());
        },
        PakerError::VaultUnlockBlocked => {
            assert("vaultUnlockBlocked"@[0] != "connectionNotFound"@[0]);
            assert("vaultUnlockBlocked"@.len() != "bucketNotFound"@.len());
            assert("vaultUnlockBlocked"@.len() != "accessDenied"@.len());
            assert("vaultUnlockBlocked"@.len() != "network"@.len());
            assert("vaultUnlockBlocked"@.len() != "invalidInput"@.len());
            assert("vaultUnlockBlocked"@.len() != "invalidEndpoint"@.len());
            assert("vaultUnlockBlocked"@.len() != "pathNotAllowed"@.len());
            assert("vaultUnlockBlocked"@.len() != "indexNotReady"@.len());
            assert("vaultUnlockBlocked"@.len() != "transferNotFound"@.len());
            assert("vaultUnlockBlocked"@.len() != "internal"@.len());
            assert("vaultUnlockBlocked"@.len() != "vaultLocked"@.len());
            assert("vaultUnlockBlocked"@.len() != "vaultAuthFailed"@.len());
        },
        PakerError::PolicyViolation(_) => {
            assert("policyViolation"@.len() != "connectionNotFound"@.len());
            assert("policyViolation"@.len() != "bucketNotFound"@.len());
            assert("policyViolation"@.len() != "accessDenied"@.len());
            assert("policyViolation"@.len() != "network"@.len());
            assert("policyViolation"@.len() != "invalidInput"@.len());
            assert("policyViolation"@[0] != "invalidEndpoint"@[0]);
            assert("policyViolation"@.len() != "pathNotAllowed"@.len());
            assert("policyViolation"@.len() != "indexNotReady"@.len());
            assert("policyViolation"@.len() != "transferNotFound"@.len());
            assert("policyViolation"@.len() != "internal"@.len());
            assert("policyViolation"@.len() != "vaultLocked"@.len());
            assert("policyViolation"@[0] != "vaultAuthFailed"@[0]);
            assert("policyViolation"@.len() != "vaultUnlockBlocked"@.len());
        },
        PakerError::ProposalNotFound => {
            assert("proposalNotFound"@.len() != "connectionNotFound"@.len());
            assert("proposalNotFound"@.len() != "bucketNotFound"@.len());
            assert("proposalNotFound"@.len() != "accessDenied"@.len());
            assert("proposalNotFound"@.len() != "network"@.len());
            assert("proposalNotFound"@.len() != "invalidInput"@.len());
            assert("proposalNotFound"@.len() != "invalidEndpoint"@.len());
            assert("proposalNotFound"@.len() != "pathNotAllowed"@.len());
            assert("proposalNotFound"@.len() != "indexNotReady"@.len());
            assert("proposalNotFound"@[0] != "transferNotFound"@[0]);
            assert("proposalNotFound"@.len() != "internal"@.len());
            assert("proposalNotFound"@.len() != "vaultLocked"@.len());
            assert("proposalNotFound"@.len() != "vaultAuthFailed"@.len());
            assert("proposalNotFound"@.len() != "vaultUnlockBlocked"@.len());
            assert("proposalNotFound"@.len() != "policyViolation"@.len());
        },
        PakerError::ProposalAlreadyClaimed => {
            assert("proposalAlreadyClaimed"@.len() != "connectionNotFound"@.len());
            assert("proposalAlreadyClaimed"@.len() != "bucketNotFound"@.len());
            assert("proposalAlreadyClaimed"@.len() != "accessDenied"@.len());
            assert("proposalAlreadyClaimed"@.len() != "network"@.len());
            assert("proposalAlreadyClaimed"@.len() != "invalidInput"@.len());
            assert("proposalAlreadyClaimed"@.len() != "invalidEndpoint"@.len());
            assert("proposalAlreadyClaimed"@.len() != "pathNotAllowed"@.len());
            assert("proposalAlreadyClaimed"@.len() != "indexNotReady"@.len());
            assert("proposalAlreadyClaimed"@.len() != "transferNotFound"@.len());
            assert("proposalAlreadyClaimed"@.len() != "internal"@.len());
            assert("proposalAlreadyClaimed"@.len() != "vaultLocked"@.len());
            assert("proposalAlreadyClaimed"@.len() != "vaultAuthFailed"@.len());
            assert("proposalAlreadyClaimed"@.len() != "vaultUnlockBlocked"@.len());
            assert("proposalAlreadyClaimed"@.len() != "policyViolation"@.len());
            assert("proposalAlreadyClaimed"@.len() != "proposalNotFound"@.len());
        },
        PakerError::ProposalExpired => {
            assert("proposalExpired"@.len() != "connectionNotFound"@.len());
            assert("proposalExpired"@.len() != "bucketNotFound"@.len());
            assert("proposalExpired"@.len() != "accessDenied"@.len());
            assert("proposalExpired"@.len() != "network"@.len());
            assert("proposalExpired"@.len() != "invalidInput"@.len());
            assert("proposalExpired"@[0] != "invalidEndpoint"@[0]);
            assert("proposalExpired"@.len() != "pathNotAllowed"@.len());
            assert("proposalExpired"@.len() != "indexNotReady"@.len());
            assert("proposalExpired"@.len() != "transferNotFound"@.len());
            assert("proposalExpired"@.len() != "internal"@.len());
            assert("proposalExpired"@.len() != "vaultLocked"@.len());
            assert("proposalExpired"@[0] != "vaultAuthFailed"@[0]);
            assert("proposalExpired"@.len() != "vaultUnlockBlocked"@.len());
            assert("proposalExpired"@[1] != "policyViolation"@[1]);
            assert("proposalExpired"@.len() != "proposalNotFound"@.len());
            assert("proposalExpired"@.len() != "proposalAlreadyClaimed"@.len());
        },
    }
}

/// Explaining the code of an error gives that error back: the code names
/// the error, and any error it names has the same code, message, user
/// action and detail (so [`explain_error_code`] of `e`'s code describes `e`).
pub proof fn law_explain_round_trip(e: PakerError)
    requires
        bare(e),
    ensures
        code_names(code_spec(e), e),
        forall|n: PakerError|
            #[trigger] code_names(code_spec(e), n) ==> code_spec(n) == code_spec(e) && message_spec(n)
                == message_spec(e) && user_action_spec(n) == user_action_spec(e) && detail_spec(n)
                == detail_spec(e),
{
    lemma_code_kind(e);
    match e {
        PakerError::InvalidInput(m) => {
            assert(m@ =~= Seq::<char>::empty());
        },
        PakerError::PolicyViolation(m) => {
            assert(m@ =~= Seq::<char>::empty());
        },
        _ => {},
    }
    assert forall|n: PakerError| #[trigger] code_names(code_spec(e), n) implies code_spec(n)
        == code_spec(e) && message_spec(n) == message_spec(e) && user_action_spec(n)
        == user_action_spec(e) && detail_spec(n) == detail_spec(e) by {
        lemma_code_kind(n);
        assert(code_spec(n) == code_spec(e));
        assert(kind_index(n) == kind_index(e));
        match n {
            PakerError::InvalidInput(m) => {
                assert(m@ =~= Seq::<char>::empty());
                match e {
                    PakerError::InvalidInput(m2) => {
                        assert(m2@ =~= m@);
                    },
                    _ => {},
                }
            },
            PakerError::PolicyViolation(m) => {
                assert(m@ =~= Seq::<char>::empty());
                match e {
                    PakerError::PolicyViolation(m2) => {
                        assert(m2@ =~= m@);
                    },
                    _ => {},
                }
            },
            _ => {},
        }
    }
}

} // verus!
