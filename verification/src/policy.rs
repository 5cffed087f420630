use vstd::prelude::*;

use crate::builders::ActionKind;
use crate::index_query::str_views;
use crate::text::{
    ascii_lower_seq, chars_of, decimal, eq_ignore_ascii_case, push_all, push_str, str_eq,
    string_of, u64_to_decimal,
};

verus! {

/// No proposal may touch more objects than this.
pub const MAX_OBJECTS_HARD_LIMIT: usize = 10_000;

/// Index age (seconds) beyond which a destructive action is refused.
pub const STALE_INDEX_AGE_SECS: u64 = 86_400;

/// The outcome of checking a proposal against the safety policy.
pub struct PolicyResult {
    /// Hard-stop violations; any one of them aborts the proposal.
    pub violations: Vec<String>,
    /// Soft warnings shown in the review dialog.
    pub warnings: Vec<String>,
}

/// What the policy looks at.
pub struct PolicyContext {
    pub kind: ActionKind,
    pub affected_count: usize,
    pub has_glacier: bool,
    pub bucket_versioned: bool,
    pub index_age_secs: Option<u64>,
}

impl PolicyResult {
    /// No violation was found.
    pub fn is_clean(&self) -> (b: bool)
        ensures
            b == (self.violations.len() == 0),
    {
        self.violations.len() == 0
    }

    /// A copy of the warnings.
    pub fn warning_messages(&self) -> (r: Vec<String>)
        ensures
            str_views(r@) == str_views(self.warnings@),
    {
        let mut r: Vec<String> = Vec::new();
        let mut i: usize = 0;
        while i < self.warnings.len()
            invariant
                i <= self.warnings.len(),
                str_views(r@) =~= str_views(self.warnings@).subrange(0, i as int),
            decreases self.warnings.len() - i,
        {
            let ghost before = str_views(r@);
            r.push(string_of(&chars_of(self.warnings[i].as_str())));
            assert(str_views(r@) =~= before.push(self.warnings@[i as int]@));
            i += 1;
        }
        assert(str_views(self.warnings@).subrange(0, i as int) =~= str_views(self.warnings@));
        r
    }
}

/// Deletes and renames change objects; a sync plan only proposes.
pub open spec fn is_mutative(k: ActionKind) -> bool {
    k == ActionKind::DeleteByQuery || k == ActionKind::RenamePattern
}

/// The dry-run switch is on: its value is `1` or, ignoring ASCII case, `true`.
pub open spec fn dry_run_on(v: Option<Seq<char>>) -> bool {
    match v {
        Some(s) => s == "1"@ || ascii_lower_seq(s) == ascii_lower_seq("true"@),
        None => false,
    }
}

pub open spec fn too_many_message(n: nat) -> Seq<char> {
    "proposal would affect "@ + decimal(n) + " objects; limit is 10000"@
}

pub open spec fn stale_absent_message() -> Seq<char> {
    "bucket index is stale or absent — re-index before running destructive actions"@
}

pub open spec fn stale_age_message(age: nat) -> Seq<char> {
    "bucket index is "@ + decimal(age)
        + "s old (limit 86400s); re-index before running destructive actions"@
}

pub open spec fn dry_run_message() -> Seq<char> {
    "dry-run mode active (PAKER_POLICY_DRY_RUN=1); no mutations allowed"@
}

pub open spec fn glacier_warning() -> Seq<char> {
    "Some objects are in GLACIER or DEEP_ARCHIVE storage class. Restoring them may incur additional costs."@
}

pub open spec fn versioning_warning() -> Seq<char> {
    "This bucket has versioning enabled. Only current object versions will be deleted; previous versions remain."@
}

pub open spec fn opt_seq(b: bool, s: Seq<char>) -> Seq<Seq<char>> {
    if b {
        seq![s]
    } else {
        Seq::empty()
    }
}

/// The violations of a context, in the order they are checked.
pub open spec fn violations_spec(ctx: PolicyContext, dry_run: Option<Seq<char>>) -> Seq<Seq<char>> {
    let m = is_mutative(ctx.kind);
    opt_seq(ctx.affected_count > 10_000, too_many_message(ctx.affected_count as nat)) + (
    if m {
        match ctx.index_age_secs {
            None => seq![stale_absent_message()],
            Some(age) => opt_seq(age > 86_400, stale_age_message(age as nat)),
        }
    } else {
        Seq::empty()
    }) + opt_seq(m && dry_run_on(dry_run), dry_run_message())
}

/// The warnings of a context.
pub open spec fn warnings_spec(ctx: PolicyContext) -> Seq<Seq<char>> {
    opt_seq(ctx.has_glacier, glacier_warning()) + opt_seq(
        ctx.bucket_versioned && ctx.kind == ActionKind::DeleteByQuery,
        versioning_warning(),
    )
}

pub open spec fn str_opt(o: Option<&str>) -> Option<Seq<char>> {
    match o {
        Some(s) => Some(s@),
        None => None,
    }
}

fn dry_run_active(v: Option<&str>) -> (b: bool)
    ensures
        b == dry_run_on(str_opt(v)),
{
    match v {
        Some(s) => {
            let c = chars_of(s);
            str_eq("1", &c) || eq_ignore_ascii_case(&c, &chars_of("true"))
        },
        None => false,
    }
}

fn push_text(v: &mut Vec<String>, s: Vec<char>)
    ensures
        str_views(final(v)@) == str_views(old(v)@).push(s@),
{
    let ghost before = str_views(v@);
    v.push(string_of(&s));
    assert(str_views(v@) =~= before.push(s@));
}

/// Checks a proposal against the safety policy.  `dry_run_env` is the value
/// of the `PAKER_POLICY_DRY_RUN` environment variable, if it is set.
///
/// A context is clean exactly when it affects at most the hard limit of
/// objects and, for a delete or rename, the index is known, at most a day
/// old, and dry-run mode is off.
pub fn check(ctx: &PolicyContext, dry_run_env: Option<&str>) -> (r: PolicyResult)
    ensures
        str_views(r.violations@) == violations_spec(*ctx, str_opt(dry_run_env)),
        str_views(r.warnings@) == warnings_spec(*ctx),
        r.violations.len() == 0 <==> (ctx.affected_count <= MAX_OBJECTS_HARD_LIMIT && (
        !is_mutative(ctx.kind) || (ctx.index_age_secs matches Some(a) && a <= STALE_INDEX_AGE_SECS
            && !dry_run_on(str_opt(dry_run_env))))),
{
    let mut violations: Vec<String> = Vec::new();
    let mut warnings: Vec<String> = Vec::new();
    if ctx.affected_count > MAX_OBJECTS_HARD_LIMIT {
        let mut m = chars_of("proposal would affect ");
        push_all(&mut m, &u64_to_decimal(ctx.affected_count as u64));
        push_str(&mut m, " objects; limit is 10000");
        push_text(&mut violations, m);
    }
    let mutative = match ctx.kind {
        ActionKind::DeleteByQuery | ActionKind::RenamePattern => true,
        ActionKind::SyncPlan => false,
    };
    if mutative {
        match ctx.index_age_secs {
            None => {
                push_text(
                    &mut violations,
                    chars_of(
                        "bucket index is stale or absent — re-index before running destructive actions",
                    ),
                );
            },
            Some(age) => {
                if age > STALE_INDEX_AGE_SECS {
                    let mut m = chars_of("bucket index is ");
                    push_all(&mut m, &u64_to_decimal(age));
                    push_str(
                        &mut m,
                        "s old (limit 86400s); re-index before running destructive actions",
                    );
                    push_text(&mut violations, m);
                }
            },
        }
    }
    if mutative && dry_run_active(dry_run_env) {
        push_text(
            &mut violations,
            chars_of("dry-run mode active (PAKER_POLICY_DRY_RUN=1); no mutations allowed"),
        );
    }
    if ctx.has_glacier {
        push_text(
            &mut warnings,
            chars_of(
                "Some objects are in GLACIER or DEEP_ARCHIVE storage class. Restoring them may incur additional costs.",
            ),
        );
    }
    if ctx.bucket_versioned && ctx.kind == ActionKind::DeleteByQuery {
        push_text(
            &mut warnings,
            chars_of(
                "This bucket has versioning enabled. Only current object versions will be deleted; previous versions remain.",
            ),
        );
    }
    let r = PolicyResult { violations, warnings };
    assert(str_views(r.violations@) =~= violations_spec(*ctx, str_opt(dry_run_env)));
    assert(str_views(r.warnings@) =~= warnings_spec(*ctx));
    r
}

/// The policy blocks a proposal exactly when it would touch more than
/// 10 000 objects, or it deletes or renames while the index is absent or
/// more than a day old, or while dry-run mode is on; a sync plan is blocked
/// only by its size.  Archived objects always bring the restore-cost
/// warning, and deleting in a versioned bucket the versioning warning.
pub proof fn law_policy_blocks_exactly_the_unsafe(ctx: PolicyContext, dry_run: Option<Seq<char>>)
    ensures
        violations_spec(ctx, dry_run).len() == 0 <==> (ctx.affected_count <= 10_000 && (is_mutative(
            ctx.kind,
        ) ==> (ctx.index_age_secs matches Some(age) && age <= 86_400 && !dry_run_on(dry_run)))),
        ctx.kind == ActionKind::SyncPlan ==> (violations_spec(ctx, dry_run).len() == 0
            <==> ctx.affected_count <= 10_000),
        ctx.has_glacier ==> warnings_spec(ctx).contains(glacier_warning()),
        (ctx.bucket_versioned && ctx.kind == ActionKind::DeleteByQuery) ==> warnings_spec(
            ctx,
        ).contains(versioning_warning()),
        !ctx.has_glacier && !(ctx.bucket_versioned && ctx.kind == ActionKind::DeleteByQuery)
            ==> warnings_spec(ctx).len() == 0,
{
    let w = warnings_spec(ctx);
    if ctx.has_glacier {
        assert(w[0] == glacier_warning());
    }
    if ctx.bucket_versioned && ctx.kind == ActionKind::DeleteByQuery {
        assert(w[w.len() - 1] == versioning_warning());
    }
}

} // verus!
