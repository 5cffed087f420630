use vstd::prelude::*;

pub mod text;
pub mod scan;
pub mod error;
pub mod explain;
pub mod path_safety;
pub mod index_query;
pub mod rename_pattern;
pub mod rule_parser;
pub mod templates;
pub mod builders;
pub mod policy;
pub mod proposal_store;
pub mod hmac_token;
pub mod plans;
pub mod execute;
pub mod jobs;
pub mod transfer;
pub mod transfer_run;
pub mod s3_ops;
pub mod llm;
pub mod local_fs;
pub mod vault;
pub mod update;
pub mod records;
pub mod indexing;
pub mod keyed;
pub mod ui_state;
pub mod crypto;
pub mod secrets;
pub mod listing_cache;

verus! {

} // verus!
