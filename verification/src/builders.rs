use vstd::prelude::*;

use crate::text::{chars_of, string_of};

verus! {

/// At most this many items of a proposal are shown for review.
pub const MAX_PREVIEW_ITEMS: usize = 200;

/// The kinds of bulk action that the assistant can propose.
#[derive(Debug, Clone, Copy, PartialEq, Eq, Structural)]
pub enum ActionKind {
    DeleteByQuery,
    RenamePattern,
    SyncPlan,
}

/// The wire name of an action kind.
pub open spec fn kind_name(k: ActionKind) -> Seq<char> {
    match k {
        ActionKind::DeleteByQuery => "deleteByQuery"@,
        ActionKind::RenamePattern => "renamePattern"@,
        ActionKind::SyncPlan => "syncPlan"@,
    }
}

impl ActionKind {
    /// The wire name: `deleteByQuery`, `renamePattern` or `syncPlan`.
    pub fn to_string(&self) -> (r: String)
        ensures
            r@ == kind_name(*self),
    {
        let s = match self {
            ActionKind::DeleteByQuery => "deleteByQuery",
            ActionKind::RenamePattern => "renamePattern",
            ActionKind::SyncPlan => "syncPlan",
        };
        string_of(&chars_of(s))
    }
}

/// One object that a proposal would act on, as shown for review.
pub struct ProposalItem {
    pub key: String,
    pub size_bytes: u64,
    pub storage_class: Option<String>,
    pub action_description: String,
    /// Extra key/value details, such as a rename's destination.
    pub metadata: Option<Vec<(String, String)>>,
}

/// A reviewed bulk action waiting for the user's confirmation.
pub struct ActionProposal {
    pub id: String,
    pub kind: ActionKind,
    pub connection_id: String,
    pub bucket: String,
    pub preview_items: Vec<ProposalItem>,
    pub total_affected: usize,
    pub total_bytes: u64,
    pub warnings: Vec<String>,
    pub token: String,
    pub expires_at: String,
    pub cli_suggestions: Option<Vec<crate::templates::CliCommandSuggestion>>,
}

/// What running a proposal did.
pub struct ExecutionResult {
    pub proposal_id: String,
    pub kind: ActionKind,
    pub objects_affected: usize,
    pub bytes_affected: u64,
    pub errors: Vec<PartialError>,
}

/// A key that an action failed on, with the reason.
pub struct PartialError {
    pub key: String,
    pub message: String,
}

/// The request to build a proposal, by kind.
pub enum BuildProposalInput {
    DeleteByQuery(crate::plans::DeleteByQueryInput),
    RenamePattern(crate::rename_pattern::RenamePatternInput),
    SyncPlan(crate::plans::SyncPlanInput),
}

} // verus!
