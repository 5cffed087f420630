use vstd::prelude::*;

use crate::builders::{kind_name, ActionKind, ActionProposal, ProposalItem, MAX_PREVIEW_ITEMS};
use crate::error::PakerError;
use crate::hmac_token::{sign, token_spec, HmacKey};
use crate::index_query::{opt_str_view, str_views, IndexQuery};
use crate::policy::{check, str_opt, violations_spec, warnings_spec, PolicyContext};
use crate::proposal_store::{
    after_insert, ProposalEntry, ProposalStatus, ProposalStore, UtcTime,
};
use crate::templates::CliCommandSuggestion;
use crate::text::{
    chars_of, contains, contains_seq, join, join_spec, push_all, push_str, string_of, views,
};

verus! {

// ---------------------------------------------------------------------------
// Indexed objects
// ---------------------------------------------------------------------------

/// An object as the bucket index records it.
pub struct IndexedObject {
    pub key: String,
    pub size: i64,
    pub last_modified: Option<String>,
    pub etag: Option<String>,
    pub storage_class: Option<String>,
}

/// The mathematical value of an [`IndexedObject`].
pub struct ObjView {
    pub key: Seq<char>,
    pub size: i64,
    pub last_modified: Option<Seq<char>>,
    pub etag: Option<Seq<char>>,
    pub storage_class: Option<Seq<char>>,
}

impl View for IndexedObject {
    type V = ObjView;

    open spec fn view(&self) -> ObjView {
        ObjView {
            key: self.key@,
            size: self.size,
            last_modified: opt_str_view(self.last_modified),
            etag: opt_str_view(self.etag),
            storage_class: opt_str_view(self.storage_class),
        }
    }
}

pub open spec fn obj_views(v: Seq<IndexedObject>) -> Seq<ObjView> {
    Seq::new(v.len(), |i: int| v[i]@)
}

/// The byte count of an object, negative sizes counting as zero.
pub open spec fn size_of(o: ObjView) -> nat {
    if o.size > 0 {
        o.size as nat
    } else {
        0
    }
}

/// The total byte count of some objects.
pub open spec fn total_size(s: Seq<ObjView>) -> nat
    decreases s.len(),
{
    if s.len() == 0 {
        0
    } else {
        total_size(s.drop_last()) + size_of(s.last())
    }
}

pub fn object_size(o: &IndexedObject) -> (r: u64)
    ensures
        r == size_of(o@),
{
    if o.size > 0 {
        o.size as u64
    } else {
        0
    }
}

pub fn copy_opt(o: &Option<String>) -> (r: Option<String>)
    ensures
        opt_str_view(r) == opt_str_view(*o),
{
    match o {
        Some(s) => Some(string_of(&chars_of(s.as_str()))),
        None => None,
    }
}

// ---------------------------------------------------------------------------
// Storage classes
// ---------------------------------------------------------------------------

/// What `str::to_uppercase` returns for a string with these characters.
pub uninterp spec fn uppercase_spec(s: Seq<char>) -> Seq<char>;

/// `str::to_uppercase`: the Unicode upper-case mapping of the whole string.
/// Its result is named by [`uppercase_spec`]; nothing more is claimed of it.
#[verifier::external_body]
fn uppercase_str(s: &str) -> (r: String)
    ensures
        r@ == uppercase_spec(s@),
{
    s.to_uppercase()
}

/// A storage class that needs a restore before reading: its upper-cased name
/// contains `GLACIER` or `DEEP_ARCHIVE`.
pub open spec fn is_archive_class(c: Option<Seq<char>>) -> bool {
    match c {
        Some(s) => contains_seq(uppercase_spec(s), "GLACIER"@) || contains_seq(
            uppercase_spec(s),
            "DEEP_ARCHIVE"@,
        ),
        None => false,
    }
}

pub fn archive_class(c: &Option<String>) -> (b: bool)
    ensures
        b == is_archive_class(opt_str_view(*c)),
{
    match c {
        Some(s) => {
            let up = chars_of(uppercase_str(s.as_str()).as_str());
            contains(&up, &chars_of("GLACIER")) || contains(&up, &chars_of("DEEP_ARCHIVE"))
        },
        None => false,
    }
}

/// Some object is in an archive storage class.
pub open spec fn any_archive(s: Seq<ObjView>) -> bool {
    exists|i: int| 0 <= i < s.len() && is_archive_class(#[trigger] s[i].storage_class)
}

pub fn has_glacier(objects: &Vec<IndexedObject>) -> (b: bool)
    ensures
        b == any_archive(obj_views(objects@)),
{
    let mut i: usize = 0;
    while i < objects.len()
        invariant
            i <= objects.len(),
            forall|j: int|
                0 <= j < i ==> !is_archive_class(#[trigger] obj_views(objects@)[j].storage_class),
        decreases objects.len() - i,
    {
        if archive_class(&objects[i].storage_class) {
            assert(obj_views(objects@)[i as int].storage_class == opt_str_view(
                objects@[i as int].storage_class,
            ));
            return true;
        }
        i += 1;
    }
    false
}

// ---------------------------------------------------------------------------
// Preview items and drafts
// ---------------------------------------------------------------------------

/// The mathematical value of a [`ProposalItem`].
pub struct ItemView {
    pub key: Seq<char>,
    pub size_bytes: u64,
    pub storage_class: Option<Seq<char>>,
    pub action_description: Seq<char>,
    pub metadata: Option<Seq<(Seq<char>, Seq<char>)>>,
}

pub open spec fn pair_views(v: Seq<(String, String)>) -> Seq<(Seq<char>, Seq<char>)> {
    Seq::new(v.len(), |i: int| (v[i].0@, v[i].1@))
}

pub open spec fn item_view(it: ProposalItem) -> ItemView {
    ItemView {
        key: it.key@,
        size_bytes: it.size_bytes,
        storage_class: opt_str_view(it.storage_class),
        action_description: it.action_description@,
        metadata: match it.metadata {
            Some(m) => Some(pair_views(m@)),
            None => None,
        },
    }
}

pub open spec fn item_views(v: Seq<ProposalItem>) -> Seq<ItemView> {
    Seq::new(v.len(), |i: int| item_view(v[i]))
}

/// What a builder computes before the proposal is signed and stored.
pub struct PlanDraft {
    pub preview_items: Vec<ProposalItem>,
    pub total_affected: usize,
    pub total_bytes: u64,
    pub warnings: Vec<String>,
}

/// The refusal for a context that breaks the policy: its violations joined
/// by `; `.
pub open spec fn violation_text(ctx: PolicyContext, dry_run: Option<Seq<char>>) -> Seq<char> {
    join_spec(violations_spec(ctx, dry_run), "; "@)
}

/// Runs the policy; `Err` carries the joined violations.
fn enforce(ctx: &PolicyContext, dry_run_env: Option<&str>) -> (r: Result<Vec<String>, PakerError>)
    ensures
        violations_spec(*ctx, str_opt(dry_run_env)).len() == 0 ==> (r matches Ok(w) && str_views(
            w@,
        ) == warnings_spec(*ctx)),
        violations_spec(*ctx, str_opt(dry_run_env)).len() > 0 ==> (r matches Err(
            PakerError::PolicyViolation(m),
        ) && m@ == violation_text(*ctx, str_opt(dry_run_env))),
{
    let res = check(ctx, dry_run_env);
    if !res.is_clean() {
        let mut parts: Vec<Vec<char>> = Vec::new();
        let mut i: usize = 0;
        while i < res.violations.len()
            invariant
                i <= res.violations.len(),
                views(parts@) =~= str_views(res.violations@).subrange(0, i as int),
            decreases res.violations.len() - i,
        {
            let ghost before = views(parts@);
            parts.push(chars_of(res.violations[i].as_str()));
            assert(views(parts@) =~= before.push(res.violations@[i as int]@));
            i += 1;
        }
        assert(str_views(res.violations@).subrange(0, i as int) =~= str_views(res.violations@));
        let j = join(&parts, &chars_of("; "));
        return Err(PakerError::PolicyViolation(string_of(&j)));
    }
    Ok(res.warnings)
}

// ---------------------------------------------------------------------------
// Delete by query
// ---------------------------------------------------------------------------

/// Input of a delete-by-query proposal.
pub struct DeleteByQueryInput {
    pub connection_id: String,
    pub bucket: String,
    pub query: IndexQuery,
    pub dry_run: bool,
}

pub open spec fn delete_item(bucket: Seq<char>, o: ObjView) -> ItemView {
    ItemView {
        key: o.key,
        size_bytes: size_of(o) as u64,
        storage_class: o.storage_class,
        action_description: "Delete s3://"@ + bucket + "/"@ + o.key,
        metadata: None,
    }
}

pub open spec fn min_nat(a: nat, b: nat) -> nat {
    if a < b {
        a
    } else {
        b
    }
}

pub open spec fn delete_context(s: Seq<ObjView>, index_age_secs: Option<u64>) -> PolicyContext {
    PolicyContext {
        kind: ActionKind::DeleteByQuery,
        affected_count: s.len() as usize,
        has_glacier: any_archive(s),
        bucket_versioned: false,
        index_age_secs,
    }
}

/// Plans deleting the objects that a query matched: the policy decides
/// first; then every object counts, and the first
/// [`MAX_PREVIEW_ITEMS`] are shown.
pub fn delete_plan(
    bucket: &str,
    objects: &Vec<IndexedObject>,
    index_age_secs: Option<u64>,
    dry_run_env: Option<&str>,
) -> (r: Result<PlanDraft, PakerError>)
    requires
        total_size(obj_views(objects@)) <= u64::MAX,
    ensures
        ({
            let s = obj_views(objects@);
            let ctx = delete_context(s, index_age_secs);
            &&& violations_spec(ctx, str_opt(dry_run_env)).len() > 0 ==> (r matches Err(
                PakerError::PolicyViolation(m),
            ) && m@ == violation_text(ctx, str_opt(dry_run_env)))
            &&& violations_spec(ctx, str_opt(dry_run_env)).len() == 0 ==> (r matches Ok(d) && {
                &&& d.total_affected == s.len()
                &&& d.total_bytes == total_size(s)
                &&& str_views(d.warnings@) == warnings_spec(ctx)
                &&& item_views(d.preview_items@) == Seq::new(
                    min_nat(s.len(), 200),
                    |i: int| delete_item(bucket@, s[i]),
                )
            })
        }),
{
    let glacier = has_glacier(objects);
    let ctx = PolicyContext {
        kind: ActionKind::DeleteByQuery,
        affected_count: objects.len(),
        has_glacier: glacier,
        bucket_versioned: false,
        index_age_secs,
    };
    let ghost s = obj_views(objects@);
    assert(ctx == delete_context(s, index_age_secs));
    let warnings = match enforce(&ctx, dry_run_env) {
        Err(e) => {
            return Err(e);
        },
        Ok(w) => w,
    };
    let mut total: u64 = 0;
    let mut items: Vec<ProposalItem> = Vec::new();
    let mut i: usize = 0;
    while i < objects.len()
        invariant
            i <= objects.len(),
            s == obj_views(objects@),
            total_size(s) <= u64::MAX,
            total == total_size(s.subrange(0, i as int)),
            items.len() == min_nat(i as nat, 200),
            item_views(items@) =~= Seq::new(
                min_nat(i as nat, 200),
                |j: int| delete_item(bucket@, s[j]),
            ),
        decreases objects.len() - i,
    {
        let o = &objects[i];
        assert(s.subrange(0, i + 1).drop_last() =~= s.subrange(0, i as int));
        proof {
            lemma_total_size_prefix(s, i + 1);
        }
        total = total + object_size(o);
        if items.len() < MAX_PREVIEW_ITEMS {
            let mut desc = chars_of("Delete s3://");
            push_str(&mut desc, bucket);
            push_str(&mut desc, "/");
            push_str(&mut desc, o.key.as_str());
            let ghost before = item_views(items@);
            items.push(
                ProposalItem {
                    key: string_of(&chars_of(o.key.as_str())),
                    size_bytes: object_size(o),
                    storage_class: copy_opt(&o.storage_class),
                    action_description: string_of(&desc),
                    metadata: None,
                },
            );
            assert(item_views(items@) =~= before.push(delete_item(bucket@, s[i as int])));
        }
        i += 1;
    }
    assert(s.subrange(0, objects.len() as int) =~= s);
    Ok(
        PlanDraft {
            preview_items: items,
            total_affected: objects.len(),
            total_bytes: total,
            warnings,
        },
    )
}

pub proof fn lemma_total_size_prefix(s: Seq<ObjView>, n: int)
    requires
        0 <= n <= s.len(),
    ensures
        total_size(s.subrange(0, n)) <= total_size(s),
    decreases s.len() - n,
{
    if n < s.len() {
        lemma_total_size_prefix(s, n + 1);
        assert(s.subrange(0, n + 1).drop_last() =~= s.subrange(0, n));
    } else {
        assert(s.subrange(0, n) =~= s);
    }
}

// ---------------------------------------------------------------------------
// Signing and storing a proposal
// ---------------------------------------------------------------------------

/// The RFC 3339 rendering of a UTC instant; `None` when it is not a valid
/// `DateTime<Utc>`.
pub uninterp spec fn rfc3339_spec(secs: i64, nanos: u32) -> Option<Seq<char>>;

/// chrono: `DateTime::<Utc>::from_timestamp(secs, nanos)` rendered by
/// `DateTime::to_rfc3339`; `None` where `from_timestamp` rejects the instant.
#[verifier::external_body]
fn rfc3339_at(secs: i64, nanos: u32) -> (r: Option<String>)
    ensures
        crate::rule_parser::str_opt_view(r) == rfc3339_spec(secs, nanos),
{
    match chrono::DateTime::from_timestamp(secs, nanos) {
        Some(t) => Some(t.to_rfc3339()),
        None => None,
    }
}

/// The instant a proposal made at `now` expires.
pub open spec fn expiry_of(now: UtcTime) -> UtcTime {
    UtcTime { secs: (now.secs + 900) as i64, nanos: now.nanos }
}

/// Signs a planned proposal, stores it as pending and returns it for review.
/// `id` is the new proposal's id and `now` the current time; `payload` is
/// the JSON text the executor will read.  `Err(Internal)` only where the
/// expiry cannot be rendered as a date.
pub fn finish_proposal(
    kind: ActionKind,
    connection_id: &str,
    bucket: &str,
    draft: PlanDraft,
    cli_suggestions: Option<Vec<CliCommandSuggestion>>,
    payload: String,
    id: String,
    now: UtcTime,
    key: &HmacKey,
    store: &mut ProposalStore,
) -> (r: Result<ActionProposal, PakerError>)
    requires
        old(store).wf(),
        now.secs <= i64::MAX - 900,
    ensures
        final(store).wf(),
        rfc3339_spec(expiry_of(now).secs, now.nanos) is None ==> (r matches Err(PakerError::Internal)
            && final(store)@ == old(store)@),
        rfc3339_spec(expiry_of(now).secs, now.nanos) matches Some(text) ==> (r matches Ok(p) && {
            let token = token_spec(key.0@, id@, connection_id@, bucket@, kind_name(kind), now.secs);
            &&& p.id@ == id@
            &&& p.kind == kind
            &&& p.connection_id@ == connection_id@
            &&& p.bucket@ == bucket@
            &&& item_views(p.preview_items@) == item_views(draft.preview_items@)
            &&& p.total_affected == draft.total_affected
            &&& p.total_bytes == draft.total_bytes
            &&& str_views(p.warnings@) == str_views(draft.warnings@)
            &&& p.token@ == token
            &&& p.expires_at@ == text
            &&& p.cli_suggestions == cli_suggestions
            &&& final(store)@ == after_insert(
                old(store)@,
                crate::proposal_store::EntryView {
                    id: id@,
                    kind,
                    connection_id: connection_id@,
                    bucket: bucket@,
                    payload: payload@,
                    token,
                    status: ProposalStatus::Pending,
                    created_at: now,
                    expires_at: expiry_of(now),
                },
                now,
            )
        }),
{
    let expires_at = crate::proposal_store::proposal_expires_at(now);
    let expires_text = match rfc3339_at(expires_at.secs, expires_at.nanos) {
        None => {
            return Err(PakerError::Internal);
        },
        Some(t) => t,
    };
    let kind_str = kind.to_string();
    let token = sign(key, id.as_str(), connection_id, bucket, kind_str.as_str(), now.secs);
    let entry = ProposalEntry {
        id: string_of(&chars_of(id.as_str())),
        kind,
        connection_id: string_of(&chars_of(connection_id)),
        bucket: string_of(&chars_of(bucket)),
        payload,
        token: string_of(&chars_of(token.as_str())),
        status: ProposalStatus::Pending,
        created_at: now,
        expires_at,
    };
    store.insert(entry, now);
    Ok(
        ActionProposal {
            id,
            kind,
            connection_id: string_of(&chars_of(connection_id)),
            bucket: string_of(&chars_of(bucket)),
            preview_items: draft.preview_items,
            total_affected: draft.total_affected,
            total_bytes: draft.total_bytes,
            warnings: draft.warnings,
            token,
            expires_at: expires_text,
            cli_suggestions,
        },
    )
}

// ---------------------------------------------------------------------------
// Rename by pattern
// ---------------------------------------------------------------------------

/// Where an object goes under a rename: the template filled with the
/// wildcard captures of its key, unless the key does not match the pattern
/// or the rename would leave it in place.
pub open spec fn rename_dest(pattern: Seq<char>, template: Seq<char>, o: ObjView) -> Option<
    Seq<char>,
> {
    match crate::rename_pattern::extract_spec(pattern, o.key) {
        None => None,
        Some(caps) => {
            let d = crate::rename_pattern::substitute_spec(o.key, caps, template);
            if d == o.key {
                None
            } else {
                Some(d)
            }
        },
    }
}

/// The objects that a rename moves, each with its destination, in order.
pub open spec fn rename_pairs(pattern: Seq<char>, template: Seq<char>, s: Seq<ObjView>) -> Seq<
    (ObjView, Seq<char>),
>
    decreases s.len(),
{
    if s.len() == 0 {
        Seq::empty()
    } else {
        let p = rename_pairs(pattern, template, s.drop_last());
        match rename_dest(pattern, template, s.last()) {
            Some(d) => p.push((s.last(), d)),
            None => p,
        }
    }
}

pub open spec fn pair_objs(p: Seq<(ObjView, Seq<char>)>) -> Seq<ObjView> {
    Seq::new(p.len(), |i: int| p[i].0)
}

pub open spec fn rename_item(bucket: Seq<char>, copy_only: bool, src: ObjView, dest: Seq<char>) -> ItemView {
    ItemView {
        key: src.key,
        size_bytes: size_of(src) as u64,
        storage_class: src.storage_class,
        action_description: if copy_only {
            "Copy → s3://"@ + bucket + "/"@ + dest
        } else {
            "Rename: "@ + src.key + " → "@ + dest
        },
        metadata: Some(seq![("destKey"@, dest)]),
    }
}

pub open spec fn rename_context(p: Seq<(ObjView, Seq<char>)>, index_age_secs: Option<u64>) -> PolicyContext {
    PolicyContext {
        kind: ActionKind::RenamePattern,
        affected_count: p.len() as usize,
        has_glacier: any_archive(pair_objs(p)),
        bucket_versioned: false,
        index_age_secs,
    }
}

/// A rename plan: the draft for review and the `(source, destination)`
/// pairs the executor will move.
pub struct RenamePlan {
    pub draft: PlanDraft,
    pub pairs: Vec<(String, String)>,
}

/// Plans a rename of the indexed objects whose keys match the input's
/// pattern: the policy decides on the moved objects, all of them count, and
/// the first [`MAX_PREVIEW_ITEMS`] are shown.
pub fn rename_plan(
    input: &crate::rename_pattern::RenamePatternInput,
    objects: &Vec<IndexedObject>,
    index_age_secs: Option<u64>,
    dry_run_env: Option<&str>,
) -> (r: Result<RenamePlan, PakerError>)
    requires
        total_size(obj_views(objects@)) <= u64::MAX,
    ensures
        ({
            let pp = rename_pairs(input.source_pattern@, input.dest_template@, obj_views(objects@));
            let ctx = rename_context(pp, index_age_secs);
            let problem = crate::rename_pattern::rename_input_problem(
                input.source_pattern@,
                input.dest_template@,
            );
            &&& problem matches Some(m) ==> (r matches Err(PakerError::InvalidInput(e)) && e@ == m)
            &&& problem is None && violations_spec(ctx, str_opt(dry_run_env)).len() > 0 ==> (
            r matches Err(PakerError::PolicyViolation(m)) && m@ == violation_text(
                ctx,
                str_opt(dry_run_env),
            ))
            &&& problem is None && violations_spec(ctx, str_opt(dry_run_env)).len() == 0 ==> (
            r matches Ok(plan) && {
                &&& plan.draft.total_affected == pp.len()
                &&& plan.draft.total_bytes == total_size(pair_objs(pp))
                &&& str_views(plan.draft.warnings@) == warnings_spec(ctx)
                &&& item_views(plan.draft.preview_items@) == Seq::new(
                    min_nat(pp.len(), 200),
                    |i: int| rename_item(input.bucket@, input.copy_only, pp[i].0, pp[i].1),
                )
                &&& pair_views(plan.pairs@) == Seq::new(pp.len(), |i: int| (pp[i].0.key, pp[i].1))
            })
        }),
{
    match crate::rename_pattern::validate_input(input) {
        Err(e) => {
            return Err(e);
        },
        Ok(()) => {},
    }
    let ghost s = obj_views(objects@);
    let ghost pat = input.source_pattern@;
    let ghost tmpl = input.dest_template@;
    let mut chosen: Vec<IndexedObject> = Vec::new();
    let mut dests: Vec<String> = Vec::new();
    let mut i: usize = 0;
    while i < objects.len()
        invariant
            i <= objects.len(),
            s == obj_views(objects@),
            pat == input.source_pattern@,
            tmpl == input.dest_template@,
            chosen.len() == dests.len(),
            obj_views(chosen@) =~= pair_objs(rename_pairs(pat, tmpl, s.subrange(0, i as int))),
            forall|j: int|
                0 <= j < dests.len() ==> #[trigger] dests@[j]@ == rename_pairs(
                    pat,
                    tmpl,
                    s.subrange(0, i as int),
                )[j].1,
            rename_pairs(pat, tmpl, s.subrange(0, i as int)).len() == chosen.len(),
        decreases objects.len() - i,
    {
        let o = &objects[i];
        assert(s.subrange(0, i + 1).drop_last() =~= s.subrange(0, i as int));
        assert(s.subrange(0, i + 1).last() == o@);
        match crate::rename_pattern::extract_captures(input.source_pattern.as_str(), o.key.as_str()) {
            None => {},
            Some(caps) => {
                let dest = crate::rename_pattern::substitute_template(
                    o.key.as_str(),
                    caps.as_slice(),
                    input.dest_template.as_str(),
                );
                if !crate::text::eq_chars(&chars_of(dest.as_str()), &chars_of(o.key.as_str())) {
                    let ghost before = obj_views(chosen@);
                    chosen.push(
                        IndexedObject {
                            key: string_of(&chars_of(o.key.as_str())),
                            size: o.size,
                            last_modified: copy_opt(&o.last_modified),
                            etag: copy_opt(&o.etag),
                            storage_class: copy_opt(&o.storage_class),
                        },
                    );
                    dests.push(dest);
                    assert(obj_views(chosen@) =~= before.push(o@));
                }
            },
        }
        i += 1;
    }
    assert(s.subrange(0, objects.len() as int) =~= s);
    let ghost pp = rename_pairs(pat, tmpl, s);
    let glacier = has_glacier(&chosen);
    let ctx = PolicyContext {
        kind: ActionKind::RenamePattern,
        affected_count: chosen.len(),
        has_glacier: glacier,
        bucket_versioned: false,
        index_age_secs,
    };
    assert(ctx == rename_context(pp, index_age_secs));
    let warnings = match enforce(&ctx, dry_run_env) {
        Err(e) => {
            return Err(e);
        },
        Ok(w) => w,
    };
    proof {
        lemma_pairs_total(pat, tmpl, s);
    }
    let mut total: u64 = 0;
    let mut items: Vec<ProposalItem> = Vec::new();
    let mut pairs: Vec<(String, String)> = Vec::new();
    let mut k: usize = 0;
    while k < chosen.len()
        invariant
            k <= chosen.len(),
            chosen.len() == dests.len(),
            pp.len() == chosen.len(),
            obj_views(chosen@) =~= pair_objs(pp),
            forall|j: int| 0 <= j < dests.len() ==> #[trigger] dests@[j]@ == pp[j].1,
            total_size(pair_objs(pp)) <= u64::MAX,
            total == total_size(pair_objs(pp).subrange(0, k as int)),
            items.len() == min_nat(k as nat, 200),
            item_views(items@) =~= Seq::new(
                min_nat(k as nat, 200),
                |j: int| rename_item(input.bucket@, input.copy_only, pp[j].0, pp[j].1),
            ),
            pair_views(pairs@) =~= Seq::new(k as nat, |j: int| (pp[j].0.key, pp[j].1)),
        decreases chosen.len() - k,
    {
        let o = &chosen[k];
        let d = &dests[k];
        assert(obj_views(chosen@)[k as int] == pair_objs(pp)[k as int]);
        assert(o@ == pp[k as int].0);
        assert(d@ == pp[k as int].1);
        let ghost po = pair_objs(pp);
        assert(po.subrange(0, k + 1).drop_last() =~= po.subrange(0, k as int));
        proof {
            lemma_total_size_prefix(po, k + 1);
        }
        total = total + object_size(o);
        if items.len() < MAX_PREVIEW_ITEMS {
            let desc = if input.copy_only {
                let mut t = chars_of("Copy → s3://");
                push_str(&mut t, input.bucket.as_str());
                push_str(&mut t, "/");
                push_str(&mut t, d.as_str());
                t
            } else {
                let mut t = chars_of("Rename: ");
                push_str(&mut t, o.key.as_str());
                push_str(&mut t, " → ");
                push_str(&mut t, d.as_str());
                t
            };
            let mut meta: Vec<(String, String)> = Vec::new();
            meta.push((string_of(&chars_of("destKey")), string_of(&chars_of(d.as_str()))));
            assert(pair_views(meta@) =~= seq![("destKey"@, d@)]);
            let ghost before = item_views(items@);
            items.push(
                ProposalItem {
                    key: string_of(&chars_of(o.key.as_str())),
                    size_bytes: object_size(o),
                    storage_class: copy_opt(&o.storage_class),
                    action_description: string_of(&desc),
                    metadata: Some(meta),
                },
            );
            assert(item_views(items@) =~= before.push(
                rename_item(input.bucket@, input.copy_only, pp[k as int].0, pp[k as int].1),
            ));
        }
        let ghost pbefore = pair_views(pairs@);
        pairs.push((string_of(&chars_of(o.key.as_str())), string_of(&chars_of(d.as_str()))));
        assert(pair_views(pairs@) =~= pbefore.push((pp[k as int].0.key, pp[k as int].1)));
        k += 1;
    }
    assert(pair_objs(pp).subrange(0, k as int) =~= pair_objs(pp));
    Ok(
        RenamePlan {
            draft: PlanDraft {
                preview_items: items,
                total_affected: chosen.len(),
                total_bytes: total,
                warnings,
            },
            pairs,
        },
    )
}

/// The moved objects weigh no more than all the objects.
pub proof fn lemma_pairs_total(pattern: Seq<char>, template: Seq<char>, s: Seq<ObjView>)
    ensures
        total_size(pair_objs(rename_pairs(pattern, template, s))) <= total_size(s),
    decreases s.len(),
{
    if s.len() > 0 {
        lemma_pairs_total(pattern, template, s.drop_last());
        let p = rename_pairs(pattern, template, s.drop_last());
        match rename_dest(pattern, template, s.last()) {
            Some(d) => {
                assert(pair_objs(p.push((s.last(), d))).drop_last() =~= pair_objs(p));
            },
            None => {},
        }
    }
}

// ---------------------------------------------------------------------------
// Sync plans
// ---------------------------------------------------------------------------

/// Whether a sync also deletes what the source lacks.
#[derive(Debug, Clone, Copy, PartialEq, Eq, Structural)]
pub enum SyncMode {
    AddOnly,
    Mirror,
}

/// Input of a sync-plan proposal: copy `source_prefix` onto `dest_prefix`.
pub struct SyncPlanInput {
    pub connection_id: String,
    pub bucket: String,
    pub source_prefix: String,
    pub dest_prefix: String,
    pub mode: SyncMode,
    pub generate_cli: bool,
}

/// A key relative to a prefix: the key without the prefix when it starts
/// with it (an empty prefix takes nothing off).
pub open spec fn rel_key(key: Seq<char>, prefix: Seq<char>) -> Seq<char> {
    if prefix.len() > 0 && crate::text::starts_with(key, prefix) {
        key.subrange(prefix.len() as int, key.len() as int)
    } else {
        key
    }
}

/// `key` relative to `prefix`.
pub fn strip_prefix(key: &str, prefix: &str) -> (r: String)
    ensures
        r@ == rel_key(key@, prefix@),
{
    let k = chars_of(key);
    let p = chars_of(prefix);
    if p.len() > 0 && crate::text::has_prefix(&k, &p) {
        string_of(&crate::text::slice_of(&k, p.len(), k.len()))
    } else {
        string_of(&k)
    }
}

/// `a` sorts before `b` (the order of `String`, which is that of the
/// characters' code points).
pub open spec fn str_lt(a: Seq<char>, b: Seq<char>) -> bool
    decreases a.len(),
{
    if a.len() == 0 {
        b.len() > 0
    } else if b.len() == 0 {
        false
    } else if a[0] != b[0] {
        a[0] < b[0]
    } else {
        str_lt(a.subrange(1, a.len() as int), b.subrange(1, b.len() as int))
    }
}

/// Whether `a` sorts before `b`.
pub fn less_than(a: &[char], b: &[char]) -> (r: bool)
    ensures
        r == str_lt(a@, b@),
{
    let mut i: usize = 0;
    assert(a@.subrange(0, a.len() as int) =~= a@);
    assert(b@.subrange(0, b.len() as int) =~= b@);
    while i < a.len() && i < b.len() && a[i] == b[i]
        invariant
            i <= a.len(),
            i <= b.len(),
            str_lt(a@, b@) == str_lt(
                a@.subrange(i as int, a.len() as int),
                b@.subrange(i as int, b.len() as int),
            ),
        decreases a.len() - i,
    {
        assert(a@.subrange(i as int, a.len() as int).subrange(1, a.len() - i) =~= a@.subrange(
            i + 1,
            a.len() as int,
        ));
        assert(b@.subrange(i as int, b.len() as int).subrange(1, b.len() - i) =~= b@.subrange(
            i + 1,
            b.len() as int,
        ));
        i += 1;
    }
    if i == a.len() {
        i < b.len()
    } else if i == b.len() {
        false
    } else {
        assert(a@.subrange(i as int, a.len() as int)[0] == a@[i as int]);
        assert(b@.subrange(i as int, b.len() as int)[0] == b@[i as int]);
        a[i] < b[i]
    }
}

/// The source object is newer than the destination one: both carry a
/// modification time and the source's sorts after.
pub open spec fn newer(a: Option<Seq<char>>, b: Option<Seq<char>>) -> bool {
    match (a, b) {
        (Some(x), Some(y)) => str_lt(y, x),
        _ => false,
    }
}

pub open spec fn rels(s: Seq<ObjView>, p: Seq<char>) -> Seq<Seq<char>> {
    Seq::new(s.len(), |i: int| rel_key(s[i].key, p))
}

/// Entry `i` is the last one with its relative key (a later object with the
/// same relative key takes its place).
pub open spec fn is_last_rel(r: Seq<Seq<char>>, i: int) -> bool {
    forall|j: int| i < j < r.len() ==> r[j] != r[i]
}

pub open spec fn has_rel(r: Seq<Seq<char>>, k: Seq<char>) -> bool {
    exists|j: int| 0 <= j < r.len() && r[j] == k
}

/// The index of the last entry with relative key `k`.
pub open spec fn last_rel(r: Seq<Seq<char>>, k: Seq<char>) -> int {
    choose|j: int| 0 <= j < r.len() && r[j] == k && forall|l: int| j < l < r.len() ==> r[l] != k
}

/// The indices below `n` that satisfy `pred`, in order.
pub open spec fn select(n: nat, pred: spec_fn(int) -> bool) -> Seq<int>
    decreases n,
{
    if n == 0 {
        Seq::empty()
    } else {
        select((n - 1) as nat, pred) + (if pred(n - 1) {
            seq![n - 1]
        } else {
            Seq::empty()
        })
    }
}

pub open spec fn add_at(sr: Seq<Seq<char>>, dr: Seq<Seq<char>>, i: int) -> bool {
    is_last_rel(sr, i) && !has_rel(dr, sr[i])
}

pub open spec fn update_at(
    src: Seq<ObjView>,
    dst: Seq<ObjView>,
    sr: Seq<Seq<char>>,
    dr: Seq<Seq<char>>,
    i: int,
) -> bool {
    is_last_rel(sr, i) && has_rel(dr, sr[i]) && newer(
        src[i].last_modified,
        dst[last_rel(dr, sr[i])].last_modified,
    )
}

pub open spec fn delete_at(sr: Seq<Seq<char>>, dr: Seq<Seq<char>>, j: int) -> bool {
    is_last_rel(dr, j) && !has_rel(sr, dr[j])
}

pub open spec fn sync_item(o: ObjView, desc: Seq<char>) -> ItemView {
    ItemView {
        key: o.key,
        size_bytes: size_of(o) as u64,
        storage_class: o.storage_class,
        action_description: desc,
        metadata: None,
    }
}

pub open spec fn add_pred(sr: Seq<Seq<char>>, dr: Seq<Seq<char>>) -> spec_fn(int) -> bool {
    |i: int| add_at(sr, dr, i)
}

pub open spec fn update_pred(
    src: Seq<ObjView>,
    dst: Seq<ObjView>,
    sr: Seq<Seq<char>>,
    dr: Seq<Seq<char>>,
) -> spec_fn(int) -> bool {
    |i: int| update_at(src, dst, sr, dr, i)
}

pub open spec fn delete_pred(sr: Seq<Seq<char>>, dr: Seq<Seq<char>>) -> spec_fn(int) -> bool {
    |j: int| delete_at(sr, dr, j)
}

pub open spec fn objs_at(s: Seq<ObjView>, idx: Seq<int>) -> Seq<ObjView> {
    Seq::new(idx.len(), |k: int| s[idx[k]])
}

pub open spec fn add_items(s: Seq<ObjView>, sr: Seq<Seq<char>>, dp: Seq<char>, idx: Seq<int>) -> Seq<ItemView> {
    Seq::new(idx.len(), |k: int| sync_item(s[idx[k]], "Add → "@ + dp + sr[idx[k]]))
}

pub open spec fn update_items(s: Seq<ObjView>, sr: Seq<Seq<char>>, dp: Seq<char>, idx: Seq<int>) -> Seq<ItemView> {
    Seq::new(idx.len(), |k: int| sync_item(s[idx[k]], "Update → "@ + dp + sr[idx[k]]))
}

pub open spec fn delete_items(d: Seq<ObjView>, idx: Seq<int>) -> Seq<ItemView> {
    Seq::new(idx.len(), |k: int| sync_item(d[idx[k]], "Delete "@ + d[idx[k]].key))
}

/// Every change of a sync, in order: additions, updates, then (mirroring)
/// deletions.
pub open spec fn sync_items(
    src: Seq<ObjView>,
    dst: Seq<ObjView>,
    sp: Seq<char>,
    dp: Seq<char>,
    mirror: bool,
) -> Seq<ItemView> {
    let sr = rels(src, sp);
    let dr = rels(dst, dp);
    add_items(src, sr, dp, select(src.len(), add_pred(sr, dr))) + update_items(
        src,
        sr,
        dp,
        select(src.len(), update_pred(src, dst, sr, dr)),
    ) + if mirror {
        delete_items(dst, select(dst.len(), delete_pred(sr, dr)))
    } else {
        Seq::empty()
    }
}

/// The bytes a sync copies: those of its additions and updates.
pub open spec fn sync_bytes(src: Seq<ObjView>, dst: Seq<ObjView>, sp: Seq<char>, dp: Seq<char>) -> nat {
    let sr = rels(src, sp);
    let dr = rels(dst, dp);
    total_size(objs_at(src, select(src.len(), add_pred(sr, dr)))) + total_size(
        objs_at(src, select(src.len(), update_pred(src, dst, sr, dr))),
    )
}

/// Selecting over fewer indices gives a prefix.
pub proof fn lemma_select_prefix(i: nat, n: nat, p: spec_fn(int) -> bool)
    requires
        i <= n,
    ensures
        select(i, p).len() <= select(n, p).len(),
        select(i, p) == select(n, p).subrange(0, select(i, p).len() as int),
    decreases n,
{
    if i < n {
        lemma_select_prefix(i, (n - 1) as nat, p);
        let a = select((n - 1) as nat, p);
        assert(select(n, p).subrange(0, a.len() as int) =~= a);
        assert(a.subrange(0, select(i, p).len() as int) =~= select(n, p).subrange(
            0,
            select(i, p).len() as int,
        ));
    } else {
        assert(select(n, p).subrange(0, select(n, p).len() as int) =~= select(n, p));
    }
}

/// The selected indices are below the bound.
pub proof fn lemma_select_bound(n: nat, p: spec_fn(int) -> bool)
    ensures
        forall|k: int| 0 <= k < select(n, p).len() ==> 0 <= #[trigger] select(n, p)[k] < n,
    decreases n,
{
    if n > 0 {
        lemma_select_bound((n - 1) as nat, p);
        let a = select((n - 1) as nat, p);
        assert forall|k: int| 0 <= k < select(n, p).len() implies 0 <= #[trigger] select(n, p)[k]
            < n by {
            if k < a.len() {
                assert(select(n, p)[k] == a[k]);
            }
        }
    }
}

/// The bytes of the first selections never exceed those of all of them.
pub proof fn lemma_selected_bytes(s: Seq<ObjView>, i: nat, n: nat, p: spec_fn(int) -> bool)
    requires
        i <= n,
    ensures
        total_size(objs_at(s, select(i, p))) <= total_size(objs_at(s, select(n, p))),
{
    lemma_select_prefix(i, n, p);
    let all = objs_at(s, select(n, p));
    let m = select(i, p).len() as int;
    assert(objs_at(s, select(i, p)) =~= all.subrange(0, m));
    lemma_total_size_prefix(all, m);
}

fn rel_keys(objs: &Vec<IndexedObject>, prefix: &str) -> (r: Vec<Vec<char>>)
    ensures
        views(r@) == rels(obj_views(objs@), prefix@),
{
    let mut r: Vec<Vec<char>> = Vec::new();
    let mut i: usize = 0;
    while i < objs.len()
        invariant
            i <= objs.len(),
            views(r@) =~= rels(obj_views(objs@), prefix@).subrange(0, i as int),
        decreases objs.len() - i,
    {
        let ghost before = views(r@);
        r.push(chars_of(strip_prefix(objs[i].key.as_str(), prefix).as_str()));
        assert(views(r@) =~= before.push(rels(obj_views(objs@), prefix@)[i as int]));
        i += 1;
    }
    r
}

fn is_last_at(r: &Vec<Vec<char>>, i: usize) -> (b: bool)
    requires
        i < r.len(),
    ensures
        b == is_last_rel(views(r@), i as int),
{
    let mut j: usize = i + 1;
    while j < r.len()
        invariant
            i < j <= r.len(),
            forall|l: int| i < l < j ==> views(r@)[l] != views(r@)[i as int],
        decreases r.len() - j,
    {
        if crate::text::eq_chars(&r[j], &r[i]) {
            assert(views(r@)[j as int] == views(r@)[i as int]);
            return false;
        }
        j += 1;
    }
    true
}

fn last_index(r: &Vec<Vec<char>>, k: &[char]) -> (res: Option<usize>)
    ensures
        match res {
            Some(j) => j < r.len() && views(r@)[j as int] == k@ && has_rel(views(r@), k@) && last_rel(
                views(r@),
                k@,
            ) == j,
            None => !has_rel(views(r@), k@),
        },
{
    let mut j: usize = r.len();
    while j > 0
        invariant
            j <= r.len(),
            forall|l: int| j <= l < r.len() ==> views(r@)[l] != k@,
        decreases j,
    {
        if crate::text::eq_chars(&r[j - 1], k) {
            let ghost w = (j - 1) as int;
            assert(views(r@)[w] == k@);
            proof {
                let c = last_rel(views(r@), k@);
                assert(0 <= w < r.len() && views(r@)[w] == k@ && forall|l: int|
                    w < l < r.len() ==> views(r@)[l] != k@);
                if c < w {
                    assert(views(r@)[w] != k@);
                }
            }
            return Some(j - 1);
        }
        j -= 1;
    }
    None
}

/// A planned sync: the draft for review and, when asked for, command lines
/// that do the same with outside tools.
pub struct SyncPlan {
    pub draft: PlanDraft,
    pub cli_suggestions: Option<Vec<CliCommandSuggestion>>,
}

fn sync_push(
    items: &mut Vec<ProposalItem>,
    o: &IndexedObject,
    desc: Vec<char>,
)
    requires
        old(items).len() < 200,
    ensures
        item_views(final(items)@) == item_views(old(items)@).push(sync_item(o@, desc@)),
{
    let ghost before = item_views(items@);
    items.push(
        ProposalItem {
            key: string_of(&chars_of(o.key.as_str())),
            size_bytes: object_size(o),
            storage_class: copy_opt(&o.storage_class),
            action_description: string_of(&desc),
            metadata: None,
        },
    );
    assert(item_views(items@) =~= before.push(sync_item(o@, desc@)));
}

pub open spec fn take_nat(s: Seq<ItemView>, n: nat) -> Seq<ItemView> {
    if n < s.len() {
        s.subrange(0, n as int)
    } else {
        s
    }
}

pub proof fn lemma_take_push(acc: Seq<ItemView>, x: ItemView)
    ensures
        acc.len() < 200 ==> take_nat(acc.push(x), 200) == take_nat(acc, 200).push(x),
        acc.len() >= 200 ==> take_nat(acc.push(x), 200) == take_nat(acc, 200),
{
    if acc.len() >= 200 {
        assert(acc.push(x).subrange(0, 200) =~= acc.subrange(0, 200));
    } else if acc.len() == 199 {
        assert(acc.push(x).len() == 200);
        assert(take_nat(acc.push(x), 200) =~= acc.push(x));
    }
}

pub proof fn lemma_select_step(i: nat, p: spec_fn(int) -> bool)
    ensures
        p(i as int) ==> select(i + 1, p) == select(i, p).push(i as int),
        !p(i as int) ==> select(i + 1, p) == select(i, p),
{
    assert(select(i + 1, p) == select(i, p) + (if p(i as int) {
        seq![i as int]
    } else {
        Seq::<int>::empty()
    }));
    if p(i as int) {
        assert(select(i, p) + seq![i as int] =~= select(i, p).push(i as int));
    } else {
        assert(select(i, p) + Seq::<int>::empty() =~= select(i, p));
    }
}

/// The command-line request a sync plan makes: both tools, for the source
/// prefix.
pub open spec fn sync_cli_input(input: SyncPlanInput) -> crate::templates::CliInputView {
    crate::templates::CliInputView {
        tool: None,
        connection_id: input.connection_id@,
        connection_name: None,
        endpoint: None,
        bucket: input.bucket@,
        prefix: Some(input.source_prefix@),
        keys: Seq::empty(),
    }
}

/// Plans a sync from the indexed objects under the source prefix onto those
/// under the destination prefix, matched by their keys relative to each
/// prefix: objects missing at the destination are added, newer ones are
/// updated, and in mirror mode objects missing at the source are deleted.
/// The first [`MAX_PREVIEW_ITEMS`] changes are shown and counted; the bytes
/// of all additions and updates are totalled.
pub fn sync_plan(
    input: &SyncPlanInput,
    source_objects: &Vec<IndexedObject>,
    dest_objects: &Vec<IndexedObject>,
) -> (r: SyncPlan)
    requires
        sync_bytes(
            obj_views(source_objects@),
            obj_views(dest_objects@),
            input.source_prefix@,
            input.dest_prefix@,
        ) <= u64::MAX,
    ensures
        item_views(r.draft.preview_items@) == take_nat(
            sync_items(
                obj_views(source_objects@),
                obj_views(dest_objects@),
                input.source_prefix@,
                input.dest_prefix@,
                input.mode == SyncMode::Mirror,
            ),
            200,
        ),
        r.draft.total_affected == r.draft.preview_items.len(),
        r.draft.total_bytes == sync_bytes(
            obj_views(source_objects@),
            obj_views(dest_objects@),
            input.source_prefix@,
            input.dest_prefix@,
        ),
        r.draft.warnings.len() == 0,
        input.generate_cli ==> (r.cli_suggestions matches Some(v)
            && crate::templates::sugg_views(v@) == crate::templates::cli_spec(
            sync_cli_input(*input),
        )),
        !input.generate_cli ==> r.cli_suggestions is None,
{
    let sr = rel_keys(source_objects, input.source_prefix.as_str());
    let dr = rel_keys(dest_objects, input.dest_prefix.as_str());
    let ghost s = obj_views(source_objects@);
    let ghost d = obj_views(dest_objects@);
    let ghost srv = views(sr@);
    let ghost drv = views(dr@);
    let ghost ap = add_pred(srv, drv);
    let ghost up = update_pred(s, d, srv, drv);
    let ghost dpr = delete_pred(srv, drv);
    let dp = chars_of(input.dest_prefix.as_str());
    assert(sr.len() == srv.len() && dr.len() == drv.len());
    let mut items: Vec<ProposalItem> = Vec::new();
    let ghost mut acc: Seq<ItemView> = Seq::empty();
    let mut total: u64 = 0;
    let n = source_objects.len();
    proof {
        lemma_selected_bytes(s, 0, n as nat, ap);
    }
    let mut i: usize = 0;
    while i < n
        invariant
            i <= n,
            n == source_objects.len(),
            sr.len() == n,
            dr.len() == dest_objects.len(),
            s == obj_views(source_objects@),
            d == obj_views(dest_objects@),
            srv == views(sr@),
            drv == views(dr@),
            srv == rels(s, input.source_prefix@),
            drv == rels(d, input.dest_prefix@),
            ap == add_pred(srv, drv),
            dp@ == input.dest_prefix@,
            acc == add_items(s, srv, dp@, select(i as nat, ap)),
            items.len() == min_nat(acc.len(), 200),
            item_views(items@) == take_nat(acc, 200),
            total == total_size(objs_at(s, select(i as nat, ap))),
            sync_bytes(s, d, input.source_prefix@, input.dest_prefix@) <= u64::MAX,
        decreases n - i,
    {
        assert(srv[i as int] == sr@[i as int]@);
        let add = is_last_at(&sr, i) && last_index(&dr, &sr[i]).is_none();
        assert(add == ap(i as int));
        proof {
            lemma_select_step(i as nat, ap);
            lemma_selected_bytes(s, (i + 1) as nat, n as nat, ap);
        }
        if add {
            let o = &source_objects[i];
            assert(objs_at(s, select((i + 1) as nat, ap)) =~= objs_at(s, select(i as nat, ap)).push(
                s[i as int],
            ));
            assert(objs_at(s, select((i + 1) as nat, ap)).drop_last() =~= objs_at(
                s,
                select(i as nat, ap),
            ));
            total = total + object_size(o);
            let mut desc = chars_of("Add → ");
            push_all(&mut desc, &dp);
            push_all(&mut desc, &sr[i]);
            proof {
                lemma_take_push(acc, sync_item(s[i as int], desc@));
            }
            if items.len() < MAX_PREVIEW_ITEMS {
                sync_push(&mut items, o, desc);
            }
            proof {
                let old_acc = acc;
                acc = acc.push(sync_item(s[i as int], "Add → "@ + dp@ + srv[i as int]));
                assert(acc =~= add_items(s, srv, dp@, select((i + 1) as nat, ap)));
            }
        } else {
            assert(add_items(s, srv, dp@, select((i + 1) as nat, ap)) == acc);
        }
        i += 1;
    }
    let ghost adds_total = total;
    proof {
        lemma_selected_bytes(s, 0, n as nat, up);
    }
    let mut i: usize = 0;
    while i < n
        invariant
            i <= n,
            n == source_objects.len(),
            sr.len() == n,
            dr.len() == dest_objects.len(),
            s == obj_views(source_objects@),
            d == obj_views(dest_objects@),
            srv == views(sr@),
            drv == views(dr@),
            srv == rels(s, input.source_prefix@),
            drv == rels(d, input.dest_prefix@),
            ap == add_pred(srv, drv),
            up == update_pred(s, d, srv, drv),
            dp@ == input.dest_prefix@,
            acc == add_items(s, srv, dp@, select(n as nat, ap)) + update_items(
                s,
                srv,
                dp@,
                select(i as nat, up),
            ),
            items.len() == min_nat(acc.len(), 200),
            item_views(items@) == take_nat(acc, 200),
            adds_total == total_size(objs_at(s, select(n as nat, ap))),
            total == adds_total + total_size(objs_at(s, select(i as nat, up))),
            sync_bytes(s, d, input.source_prefix@, input.dest_prefix@) <= u64::MAX,
        decreases n - i,
    {
        assert(srv[i as int] == sr@[i as int]@);
        let upd = if is_last_at(&sr, i) {
            match last_index(&dr, &sr[i]) {
                None => false,
                Some(j) => {
                    assert(d[j as int] == dest_objects@[j as int]@);
                    match (&source_objects[i].last_modified, &dest_objects[j].last_modified) {
                        (Some(x), Some(y)) => less_than(
                            &chars_of(y.as_str()),
                            &chars_of(x.as_str()),
                        ),
                        _ => false,
                    }
                },
            }
        } else {
            false
        };
        assert(upd == up(i as int));
        proof {
            lemma_select_step(i as nat, up);
            lemma_selected_bytes(s, (i + 1) as nat, n as nat, up);
        }
        let ghost before = acc;
        if upd {
            let o = &source_objects[i];
            assert(objs_at(s, select((i + 1) as nat, up)).drop_last() =~= objs_at(
                s,
                select(i as nat, up),
            ));
            total = total + object_size(o);
            let mut desc = chars_of("Update → ");
            push_all(&mut desc, &dp);
            push_all(&mut desc, &sr[i]);
            proof {
                lemma_take_push(acc, sync_item(s[i as int], desc@));
            }
            if items.len() < MAX_PREVIEW_ITEMS {
                sync_push(&mut items, o, desc);
            }
            proof {
                acc = acc.push(sync_item(s[i as int], "Update → "@ + dp@ + srv[i as int]));
                assert(update_items(s, srv, dp@, select((i + 1) as nat, up)) =~= update_items(
                    s,
                    srv,
                    dp@,
                    select(i as nat, up),
                ).push(sync_item(s[i as int], "Update → "@ + dp@ + srv[i as int])));
                assert(acc =~= add_items(s, srv, dp@, select(n as nat, ap)) + update_items(
                    s,
                    srv,
                    dp@,
                    select((i + 1) as nat, up),
                ));
            }
        }
        i += 1;
    }
    if input.mode == SyncMode::Mirror {
        let m = dest_objects.len();
        let mut j: usize = 0;
        while j < m
            invariant
                j <= m,
                m == dest_objects.len(),
                n == source_objects.len(),
                sr.len() == n,
                dr.len() == m,
                d == obj_views(dest_objects@),
                srv == views(sr@),
                drv == views(dr@),
                dpr == delete_pred(srv, drv),
                acc == add_items(s, srv, dp@, select(n as nat, ap)) + update_items(
                    s,
                    srv,
                    dp@,
                    select(n as nat, up),
                ) + delete_items(d, select(j as nat, dpr)),
                items.len() == min_nat(acc.len(), 200),
                item_views(items@) == take_nat(acc, 200),
            decreases m - j,
        {
            assert(drv[j as int] == dr@[j as int]@);
            let del = is_last_at(&dr, j) && last_index(&sr, &dr[j]).is_none();
            assert(del == dpr(j as int));
            proof {
                lemma_select_step(j as nat, dpr);
            }
            if del {
                let o = &dest_objects[j];
                let mut desc = chars_of("Delete ");
                push_str(&mut desc, o.key.as_str());
                proof {
                    lemma_take_push(acc, sync_item(d[j as int], desc@));
                }
                if items.len() < MAX_PREVIEW_ITEMS {
                    sync_push(&mut items, o, desc);
                }
                proof {
                    let a = add_items(s, srv, dp@, select(n as nat, ap));
                    let u = update_items(s, srv, dp@, select(n as nat, up));
                    let x = sync_item(d[j as int], "Delete "@ + d[j as int].key);
                    assert(delete_items(d, select((j + 1) as nat, dpr)) =~= delete_items(
                        d,
                        select(j as nat, dpr),
                    ).push(x));
                    acc = acc.push(x);
                    assert(acc =~= a + u + delete_items(d, select((j + 1) as nat, dpr)));
                }
            }
            j += 1;
        }
    } else {
        proof {
            assert(acc =~= acc + Seq::<ItemView>::empty());
        }
    }
    assert(acc == sync_items(s, d, input.source_prefix@, input.dest_prefix@, input.mode == SyncMode::Mirror));
    let ctx = PolicyContext {
        kind: ActionKind::SyncPlan,
        affected_count: items.len(),
        has_glacier: false,
        bucket_versioned: false,
        index_age_secs: Some(0),
    };
    let res = check(&ctx, None);
    assert(str_views(res.warnings@) =~= Seq::<Seq<char>>::empty());
    let cli = if input.generate_cli {
        let cli_in = crate::templates::CliGenerateInput {
            tool: None,
            connection_id: string_of(&chars_of(input.connection_id.as_str())),
            connection_name: None,
            endpoint: None,
            bucket: string_of(&chars_of(input.bucket.as_str())),
            prefix: Some(string_of(&chars_of(input.source_prefix.as_str()))),
            keys: Vec::new(),
        };
        assert(cli_in@ =~= sync_cli_input(*input));
        Some(crate::templates::generate_cli_commands(&cli_in))
    } else {
        None
    };
    let count = items.len();
    SyncPlan {
        draft: PlanDraft {
            preview_items: items,
            total_affected: count,
            total_bytes: total,
            warnings: res.warnings,
        },
        cli_suggestions: cli,
    }
}

/// A sync that does not mirror never deletes: every item it previews adds or
/// updates a source object (its description starts `Add → ` or
/// `Update → ` and its key is the key of a source object).
pub proof fn law_add_only_sync_never_deletes(
    src: Seq<ObjView>,
    dst: Seq<ObjView>,
    sp: Seq<char>,
    dp: Seq<char>,
)
    ensures
        forall|k: int|
            0 <= k < take_nat(sync_items(src, dst, sp, dp, false), 200).len() ==> {
                let it = #[trigger] take_nat(sync_items(src, dst, sp, dp, false), 200)[k];
                &&& (crate::text::starts_with(it.action_description, "Add → "@) || crate::text::starts_with(
                    it.action_description,
                    "Update → "@,
                ))
                &&& exists|i: int| 0 <= i < src.len() && it.key == #[trigger] src[i].key
            },
{
    let sr = rels(src, sp);
    let dr = rels(dst, dp);
    let ai = select(src.len(), add_pred(sr, dr));
    let ui = select(src.len(), update_pred(src, dst, sr, dr));
    lemma_select_bound(src.len(), add_pred(sr, dr));
    lemma_select_bound(src.len(), update_pred(src, dst, sr, dr));
    let adds = add_items(src, sr, dp, ai);
    let ups = update_items(src, sr, dp, ui);
    let all = sync_items(src, dst, sp, dp, false);
    assert(all =~= adds + ups);
    assert forall|k: int| 0 <= k < take_nat(all, 200).len() implies {
        let it = #[trigger] take_nat(all, 200)[k];
        &&& (crate::text::starts_with(it.action_description, "Add → "@) || crate::text::starts_with(
            it.action_description,
            "Update → "@,
        ))
        &&& exists|i: int| 0 <= i < src.len() && it.key == #[trigger] src[i].key
    } by {
        let it = take_nat(all, 200)[k];
        assert(it == all[k]);
        if k < adds.len() {
            let i = ai[k];
            assert(it == sync_item(src[i], "Add → "@ + dp + sr[i]));
            assert(("Add → "@ + dp + sr[i]).subrange(0, ("Add → "@).len() as int) =~= "Add → "@);
            assert(it.key == src[i].key);
        } else {
            let j = k - adds.len();
            let i = ui[j];
            assert(it == sync_item(src[i], "Update → "@ + dp + sr[i]));
            assert(("Update → "@ + dp + sr[i]).subrange(0, ("Update → "@).len() as int)
                =~= "Update → "@);
            assert(it.key == src[i].key);
        }
    }
}

/// Every index that `select` picks satisfies its predicate.
pub proof fn lemma_select_satisfies(n: nat, p: spec_fn(int) -> bool)
    ensures
        forall|k: int| 0 <= k < select(n, p).len() ==> p(#[trigger] select(n, p)[k]),
    decreases n,
{
    if n > 0 {
        lemma_select_satisfies((n - 1) as nat, p);
        let a = select((n - 1) as nat, p);
        assert forall|k: int| 0 <= k < select(n, p).len() implies p(#[trigger] select(n, p)[k]) by {
            if k < a.len() {
                assert(select(n, p)[k] == a[k]);
            }
        }
    }
}

/// What each change of a sync does and why: an addition copies a source
/// object whose relative key the destination lacks; an update copies a
/// source object whose relative key the destination has, with an older
/// modification time; a deletion (only when mirroring) removes a
/// destination object whose relative key no source object has.
pub proof fn law_sync_changes_are_justified(
    src: Seq<ObjView>,
    dst: Seq<ObjView>,
    sp: Seq<char>,
    dp: Seq<char>,
    mirror: bool,
)
    ensures
        forall|k: int|
            0 <= k < sync_items(src, dst, sp, dp, mirror).len() ==> {
                let it = #[trigger] sync_items(src, dst, sp, dp, mirror)[k];
                let sr = rels(src, sp);
                let dr = rels(dst, dp);
                ||| exists|i: int|
                    0 <= i < src.len() && it.key == #[trigger] src[i].key
                        && it.action_description == "Add → "@ + dp + sr[i] && !has_rel(dr, sr[i])
                ||| exists|i: int|
                    0 <= i < src.len() && it.key == #[trigger] src[i].key
                        && it.action_description == "Update → "@ + dp + sr[i] && has_rel(dr, sr[i])
                        && newer(src[i].last_modified, dst[last_rel(dr, sr[i])].last_modified)
                ||| mirror && exists|j: int|
                    0 <= j < dst.len() && it.key == #[trigger] dst[j].key
                        && it.action_description == "Delete "@ + dst[j].key && !has_rel(sr, dr[j])
            },
{
    let sr = rels(src, sp);
    let dr = rels(dst, dp);
    let ap = add_pred(sr, dr);
    let up = update_pred(src, dst, sr, dr);
    let dpred = delete_pred(sr, dr);
    let ai = select(src.len(), ap);
    let ui = select(src.len(), up);
    let di = select(dst.len(), dpred);
    lemma_select_bound(src.len(), ap);
    lemma_select_bound(src.len(), up);
    lemma_select_bound(dst.len(), dpred);
    lemma_select_satisfies(src.len(), ap);
    lemma_select_satisfies(src.len(), up);
    lemma_select_satisfies(dst.len(), dpred);
    let adds = add_items(src, sr, dp, ai);
    let ups = update_items(src, sr, dp, ui);
    let dels: Seq<ItemView> = if mirror {
        delete_items(dst, di)
    } else {
        Seq::empty()
    };
    let all = sync_items(src, dst, sp, dp, mirror);
    assert(all =~= adds + ups + dels);
    assert forall|k: int| 0 <= k < all.len() implies {
        let it = #[trigger] all[k];
        ||| exists|i: int|
            0 <= i < src.len() && it.key == #[trigger] src[i].key
                && it.action_description == "Add → "@ + dp + sr[i] && !has_rel(dr, sr[i])
        ||| exists|i: int|
            0 <= i < src.len() && it.key == #[trigger] src[i].key
                && it.action_description == "Update → "@ + dp + sr[i] && has_rel(dr, sr[i])
                && newer(src[i].last_modified, dst[last_rel(dr, sr[i])].last_modified)
        ||| mirror && exists|j: int|
            0 <= j < dst.len() && it.key == #[trigger] dst[j].key
                && it.action_description == "Delete "@ + dst[j].key && !has_rel(sr, dr[j])
    } by {
        if k < adds.len() {
            let i = ai[k];
            assert(ap(i));
            assert(all[k] == adds[k]);
        } else if k < adds.len() + ups.len() {
            let i = ui[k - adds.len()];
            assert(up(i));
            assert(all[k] == ups[k - adds.len()]);
        } else {
            let j = di[k - adds.len() - ups.len()];
            assert(dpred(j));
            assert(all[k] == dels[k - adds.len() - ups.len()]);
        }
    }
}

} // verus!
