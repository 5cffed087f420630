use vstd::prelude::*;

use crate::builders::{ActionKind, PartialError};
use crate::path_safety::{join_dir, join_path};
use crate::index_query::str_views;
use crate::text::{
    chars_of, decimal_int, eq_chars, i64_to_decimal, push_all, push_str, split_char, split_spec,
    string_of, trim, trim_spec, views,
};

verus! {

// ---------------------------------------------------------------------------
// Connection profiles
// ---------------------------------------------------------------------------

/// A saved S3 connection (its secrets are stored apart).
pub struct ConnectionProfile {
    pub id: String,
    pub name: String,
    pub endpoint: Option<String>,
    pub region: String,
    pub access_key_id: String,
    pub force_path_style: bool,
    pub default_bucket: Option<String>,
}

/// The form that creates or edits a connection.
pub struct SaveConnectionInput {
    pub id: Option<String>,
    pub name: String,
    pub endpoint: Option<String>,
    pub region: String,
    pub access_key_id: String,
    pub secret_access_key: Option<String>,
    pub session_token: Option<String>,
    pub force_path_style: bool,
    pub default_bucket: Option<String>,
}

/// The first profile with the given id, from the profiles read from a data
/// folder.
pub fn get_connection_from(profiles: Vec<ConnectionProfile>, id: &str) -> (r: Option<
    ConnectionProfile,
>)
    ensures
        match r {
            Some(p) => p.id@ == id@ && exists|i: int|
                0 <= i < profiles.len() && profiles@[i] == p && forall|j: int|
                    0 <= j < i ==> profiles@[j].id@ != id@,
            None => forall|i: int| 0 <= i < profiles.len() ==> profiles@[i].id@ != id@,
        },
{
    let t = chars_of(id);
    let ghost all = profiles@;
    let mut rest = profiles;
    let mut i: usize = 0;
    let n = rest.len();
    while i < n
        invariant
            i <= n,
            n == all.len(),
            all == profiles@,
            rest@ == all,
            t@ == id@,
            forall|j: int| 0 <= j < i ==> all[j].id@ != id@,
        decreases n - i,
    {
        if eq_chars(&chars_of(rest[i].id.as_str()), &t) {
            assert(all[i as int].id@ == id@);
            let p = rest.swap_remove(i);
            assert(p == all[i as int]);
            assert(0 <= i < all.len() && all[i as int] == p && forall|j: int|
                0 <= j < i ==> all[j].id@ != id@);
            return Some(p);
        }
        i += 1;
    }
    None
}

/// The profile a save makes: the form's fields under its id, or under
/// `fresh_id` for a new connection.
pub open spec fn saved_profile_matches(p: ConnectionProfile, input: SaveConnectionInput, fresh_id: Seq<char>) -> bool {
    &&& p.id@ == match input.id {
        Some(i) => i@,
        None => fresh_id,
    }
    &&& p.name == input.name
    &&& p.endpoint == input.endpoint
    &&& p.region == input.region
    &&& p.access_key_id == input.access_key_id
    &&& p.force_path_style == input.force_path_style
    &&& p.default_bucket == input.default_bucket
}

/// The profile saved from a connection form; a new connection gets a fresh
/// random id.  The secrets of the form are kept apart.
pub fn profile_from_input(input: SaveConnectionInput) -> (r: ConnectionProfile)
    ensures
        input.id is Some ==> saved_profile_matches(r, input, Seq::empty()),
        input.id is None ==> r.id@.len() == 36 && saved_profile_matches(r, input, r.id@),
{
    let id = match input.id {
        Some(i) => i,
        None => crate::proposal_store::uuid_v4_text(),
    };
    ConnectionProfile {
        id,
        name: input.name,
        endpoint: input.endpoint,
        region: input.region,
        access_key_id: input.access_key_id,
        force_path_style: input.force_path_style,
        default_bucket: input.default_bucket,
    }
}

/// The first position of a profile with the given id.
pub open spec fn first_with_id(profiles: Seq<ConnectionProfile>, id: Seq<char>) -> Option<int> {
    if exists|i: int| 0 <= i < profiles.len() && profiles[i].id@ == id {
        let i = choose|i: int|
            0 <= i < profiles.len() && profiles[i].id@ == id && forall|j: int|
                0 <= j < i ==> profiles[j].id@ != id;
        Some(i)
    } else {
        None
    }
}

/// Saves a profile into the list: it replaces the first profile with its
/// id, else it is appended.
pub fn upsert_profile(profiles: &mut Vec<ConnectionProfile>, profile: ConnectionProfile)
    ensures
        ({
            let at = first_with_id(old(profiles)@, profile.id@);
            match at {
                Some(i) => final(profiles)@ == old(profiles)@.update(i, profile),
                None => final(profiles)@ == old(profiles)@.push(profile),
            }
        }),
{
    let t = chars_of(profile.id.as_str());
    let ghost all = profiles@;
    let mut i: usize = 0;
    while i < profiles.len()
        invariant
            i <= profiles.len(),
            profiles@ == all,
            all == old(profiles)@,
            t@ == profile.id@,
            forall|j: int| 0 <= j < i ==> profiles@[j].id@ != profile.id@,
        decreases profiles.len() - i,
    {
        if eq_chars(&chars_of(profiles[i].id.as_str()), &t) {
            proof {
                assert(0 <= i < all.len() && all[i as int].id@ == profile.id@ && forall|j: int|
                    0 <= j < i ==> all[j].id@ != profile.id@);
                let k = choose|k: int|
                    0 <= k < all.len() && all[k].id@ == profile.id@ && forall|j: int|
                        0 <= j < k ==> all[j].id@ != profile.id@;
                assert(k == i) by {
                    if k < i {
                        assert(all[k].id@ != profile.id@);
                    }
                    if k > i {
                        assert(all[i as int].id@ != profile.id@);
                    }
                }
            }
            profiles.set(i, profile);
            return;
        }
        i += 1;
    }
    profiles.push(profile);
}

/// The profiles whose id is not `id`, in order.
pub open spec fn profiles_without(profiles: Seq<ConnectionProfile>, id: Seq<char>) -> Seq<
    ConnectionProfile,
>
    decreases profiles.len(),
{
    if profiles.len() == 0 {
        Seq::empty()
    } else {
        let rest = profiles_without(profiles.drop_last(), id);
        if profiles.last().id@ == id {
            rest
        } else {
            rest.push(profiles.last())
        }
    }
}

proof fn lemma_profiles_without_len(profiles: Seq<ConnectionProfile>, id: Seq<char>)
    ensures
        profiles_without(profiles, id).len() <= profiles.len(),
        profiles_without(profiles, id).len() == profiles.len() <==> forall|i: int|
            0 <= i < profiles.len() ==> profiles[i].id@ != id,
    decreases profiles.len(),
{
    if profiles.len() > 0 {
        let init = profiles.drop_last();
        lemma_profiles_without_len(init, id);
        if profiles_without(profiles, id).len() == profiles.len() {
            assert forall|i: int| 0 <= i < profiles.len() implies profiles[i].id@ != id by {
                if i < profiles.len() - 1 {
                    assert(profiles[i] == init[i]);
                }
            }
        }
        if forall|i: int| 0 <= i < profiles.len() ==> profiles[i].id@ != id {
            assert forall|i: int| 0 <= i < init.len() implies init[i].id@ != id by {
                assert(init[i] == profiles[i]);
            }
            assert(profiles[profiles.len() - 1].id@ != id);
        }
    }
}

/// Deletes the profiles with the given id; says whether any was there.
pub fn remove_profile(profiles: &mut Vec<ConnectionProfile>, id: &str) -> (r: bool)
    ensures
        final(profiles)@ == profiles_without(old(profiles)@, id@),
        r == exists|i: int| 0 <= i < old(profiles)@.len() && old(profiles)@[i].id@ == id@,
{
    let ghost all = profiles@;
    let t = chars_of(id);
    let n = profiles.len();
    let mut kept: Vec<ConnectionProfile> = Vec::new();
    let mut i: usize = 0;
    while i < n
        invariant
            i <= n,
            n == all.len(),
            t@ == id@,
            profiles@ == all.subrange(i as int, n as int),
            kept@ == profiles_without(all.subrange(0, i as int), id@),
        decreases n - i,
    {
        let p = profiles.remove(0);
        assert(p == all[i as int]);
        assert(profiles@ =~= all.subrange(i + 1, n as int));
        assert(all.subrange(0, i + 1).drop_last() =~= all.subrange(0, i as int));
        if !eq_chars(&chars_of(p.id.as_str()), &t) {
            kept.push(p);
        }
        i += 1;
    }
    assert(all.subrange(0, n as int) =~= all);
    let removed = kept.len() < n;
    proof {
        lemma_profiles_without_len(all, id@);
    }
    *profiles = kept;
    removed
}

/// Portable mode is asked for: the setting is `1` or, in any case, `true`.
pub open spec fn portable_requested(v: Option<Seq<char>>) -> bool {
    match v {
        None => false,
        Some(s) => s == "1"@ || crate::text::ascii_lower_seq(s) == "true"@,
    }
}

/// Whether the portable-mode setting asks for portable mode.
pub fn portable_flag(value: Option<&str>) -> (b: bool)
    ensures
        b == portable_requested(crate::policy::str_opt(value)),
{
    match value {
        None => false,
        Some(v) => {
            let c = chars_of(v);
            let one = chars_of("1");
            let t = chars_of("true");
            proof {
                reveal_strlit("true");
                assert(crate::text::ascii_lower_seq("true"@) =~= "true"@);
            }
            eq_chars(&c, &one) || crate::text::eq_ignore_ascii_case(&c, &t)
        },
    }
}

/// The trimmed, non-empty pieces of a comma-separated list, in order.
pub open spec fn id_list(pieces: Seq<Seq<char>>) -> Seq<Seq<char>>
    decreases pieces.len(),
{
    if pieces.len() == 0 {
        Seq::empty()
    } else {
        let rest = id_list(pieces.drop_last());
        let t = trim_spec(pieces.last());
        if t.len() > 0 {
            rest.push(t)
        } else {
            rest
        }
    }
}

/// The connection ids of a comma-separated allow-list, each trimmed, empty
/// ones left out.
pub fn parse_allowed_ids(list: &str) -> (r: Vec<String>)
    ensures
        str_views(r@) == id_list(split_spec(list@, ',')),
{
    let pieces = split_char(&chars_of(list), ',');
    let ghost ps = views(pieces@);
    let mut out: Vec<String> = Vec::new();
    let mut i: usize = 0;
    while i < pieces.len()
        invariant
            i <= pieces.len(),
            ps == views(pieces@),
            ps == split_spec(list@, ','),
            str_views(out@) == id_list(ps.subrange(0, i as int)),
        decreases pieces.len() - i,
    {
        assert(ps.subrange(0, i + 1).drop_last() =~= ps.subrange(0, i as int));
        assert(ps[i as int] == pieces@[i as int]@);
        let t = trim(&pieces[i]);
        if t.len() > 0 {
            let ghost before = str_views(out@);
            out.push(string_of(&t));
            assert(str_views(out@) =~= before.push(t@));
        }
        i += 1;
    }
    assert(ps.subrange(0, i as int) =~= ps);
    out
}

/// `ids` holds `x`.
pub open spec fn lists(ids: Seq<Seq<char>>, x: Seq<char>) -> bool {
    exists|j: int| 0 <= j < ids.len() && ids[j] == x
}

/// The profiles kept by an allow-list, in order: those whose id it holds,
/// or every profile where there is no list.
pub open spec fn kept_profiles(
    profiles: Seq<ConnectionProfile>,
    allowed: Option<Seq<Seq<char>>>,
) -> Seq<ConnectionProfile>
    decreases profiles.len(),
{
    if profiles.len() == 0 {
        Seq::empty()
    } else {
        let rest = kept_profiles(profiles.drop_last(), allowed);
        match allowed {
            None => rest.push(profiles.last()),
            Some(ids) => if lists(ids, profiles.last().id@) {
                rest.push(profiles.last())
            } else {
                rest
            },
        }
    }
}

/// Keeps the profiles that an allow-list permits (all of them for `None`).
pub fn filter_profiles(profiles: Vec<ConnectionProfile>, allowed: &Option<Vec<String>>) -> (r: Vec<
    ConnectionProfile,
>)
    ensures
        r@ == kept_profiles(
            profiles@,
            match allowed {
                Some(ids) => Some(str_views(ids@)),
                None => None,
            },
        ),
{
    let ghost all = profiles@;
    let ghost a = match allowed {
        Some(ids) => Some(str_views(ids@)),
        None => None,
    };
    let mut out: Vec<ConnectionProfile> = Vec::new();
    let mut rest = profiles;
    let n = rest.len();
    let mut i: usize = 0;
    while i < n
        invariant
            i <= n,
            n == all.len(),
            rest@ == all.subrange(i as int, n as int),
            out@ == kept_profiles(all.subrange(0, i as int), a),
            a == match allowed {
                Some(ids) => Some(str_views(ids@)),
                None => None,
            },
        decreases n - i,
    {
        let p = rest.remove(0);
        assert(p == all[i as int]);
        assert(rest@ =~= all.subrange(i + 1, n as int));
        assert(all.subrange(0, i + 1).drop_last() =~= all.subrange(0, i as int));
        let keep = match allowed {
            None => true,
            Some(ids) => {
                let t = chars_of(p.id.as_str());
                let mut found = false;
                let mut j: usize = 0;
                while j < ids.len()
                    invariant
                        j <= ids.len(),
                        t@ == p.id@,
                        found == lists(str_views(ids@).subrange(0, j as int), p.id@),
                    decreases ids.len() - j,
                {
                    let ghost pre = str_views(ids@).subrange(0, j as int);
                    let ghost post = str_views(ids@).subrange(0, j + 1);
                    assert(post =~= pre.push(ids@[j as int]@));
                    let hit = eq_chars(&chars_of(ids[j].as_str()), &t);
                    proof {
                        if lists(post, p.id@) && !lists(pre, p.id@) {
                            let w = choose|w: int| 0 <= w < post.len() && post[w] == p.id@;
                            assert(w == j);
                        }
                        if lists(pre, p.id@) {
                            let w = choose|w: int| 0 <= w < pre.len() && pre[w] == p.id@;
                            assert(post[w] == p.id@);
                        }
                        if hit {
                            assert(post[j as int] == p.id@);
                        }
                    }
                    found = found || hit;
                    j += 1;
                }
                assert(str_views(ids@).subrange(0, j as int) =~= str_views(ids@));
                found
            },
        };
        if keep {
            out.push(p);
        }
        i += 1;
    }
    assert(all.subrange(0, n as int) =~= all);
    out
}

// ---------------------------------------------------------------------------
// UI state
// ---------------------------------------------------------------------------

/// Where the browser was for a connection.
pub struct ConnectionNav {
    pub bucket: Option<String>,
    pub prefix: Option<String>,
}

/// A saved prefix.
pub struct PrefixBookmark {
    pub id: String,
    pub label: String,
    pub bucket: String,
    pub prefix: String,
}

/// Layout preferences of the main window.
pub struct UiPreferences {
    pub local_panel_open: bool,
    pub details_pane_open: bool,
    pub connections_collapsed: bool,
    pub buckets_collapsed: bool,
}

/// The details pane starts open.
pub fn default_details_open() -> (b: bool)
    ensures
        b,
{
    true
}

/// A preference that defaults to on.
pub fn default_true() -> (b: bool)
    ensures
        b,
{
    true
}

/// Transfer settings shown in the UI.
pub struct TransferSettings {
    pub max_concurrent_transfers: u32,
}

/// A past assistant query.
pub struct QueryHistoryItem {
    pub id: i64,
    pub raw_text: String,
    pub summary: String,
    pub confidence: String,
    pub result_count: u64,
    pub created_at: String,
}

// ---------------------------------------------------------------------------
// Bucket index records
// ---------------------------------------------------------------------------

/// The state of a bucket's index.
pub struct BucketIndexMeta {
    pub connection_id: String,
    pub bucket: String,
    pub status: String,
    pub object_count: u64,
    pub started_at: Option<String>,
    pub completed_at: Option<String>,
    pub error: Option<String>,
}

/// Progress of indexing a bucket.
pub struct BucketIndexProgress {
    pub connection_id: String,
    pub bucket: String,
    pub object_count: u64,
    pub status: String,
    pub done: bool,
    pub error: Option<String>,
}

// ---------------------------------------------------------------------------
// Audit log
// ---------------------------------------------------------------------------

/// The size (bytes) beyond which the audit log is rotated.
pub const ROTATION_SIZE_BYTES: u64 = 52_428_800;

/// What became of a proposal.
#[derive(Debug, Clone, Copy, PartialEq, Eq, Structural)]
pub enum AuditOutcome {
    Executed,
    Rejected,
    ExpiredAbandoned,
}

/// One line of the audit log.
pub struct AuditEntry {
    pub ts: String,
    pub proposal_id: String,
    pub kind: ActionKind,
    pub outcome: AuditOutcome,
    pub connection_id: String,
    pub bucket: String,
    pub objects_affected: usize,
    pub bytes_affected: u64,
    pub errors: Vec<PartialError>,
    pub app_version: String,
}

impl AuditEntry {
    /// An entry stamped `ts` (the current time) by app version `app_version`.
    pub fn new(
        ts: String,
        proposal_id: String,
        kind: ActionKind,
        outcome: AuditOutcome,
        connection_id: String,
        bucket: String,
        objects_affected: usize,
        bytes_affected: u64,
        errors: Vec<PartialError>,
        app_version: String,
    ) -> (r: AuditEntry)
        ensures
            r.ts == ts,
            r.proposal_id == proposal_id,
            r.kind == kind,
            r.outcome == outcome,
            r.connection_id == connection_id,
            r.bucket == bucket,
            r.objects_affected == objects_affected,
            r.bytes_affected == bytes_affected,
            r.errors == errors,
            r.app_version == app_version,
    {
        AuditEntry {
            ts,
            proposal_id,
            kind,
            outcome,
            connection_id,
            bucket,
            objects_affected,
            bytes_affected,
            errors,
            app_version,
        }
    }
}

/// The audit log file of a data folder.
pub struct AuditLog {
    dir: String,
}

impl AuditLog {
    /// The folder the log lives in.
    pub closed spec fn dir_spec(&self) -> Seq<char> {
        self.dir@
    }

    /// The log of a data folder.
    pub fn new(data_dir: &str) -> (r: AuditLog)
        ensures
            r.dir_spec() == data_dir@,
    {
        AuditLog { dir: string_of(&chars_of(data_dir)) }
    }

    /// The log file: `paker-audit.ndjson` in the data folder.
    pub fn path(&self) -> (r: String)
        ensures
            r@ == join_path(self.dir_spec(), "paker-audit.ndjson"@),
    {
        string_of(&join_dir(&chars_of(self.dir.as_str()), &chars_of("paker-audit.ndjson")))
    }

    /// A log this large is rotated before the next append.
    pub fn needs_rotation(&self, size: u64) -> (b: bool)
        ensures
            b == (size > 52_428_800),
    {
        size > ROTATION_SIZE_BYTES
    }

    /// Where a rotated log goes: `paker-audit.<ts>.ndjson.bak` beside it.
    pub fn backup_path(&self, ts: i64) -> (r: String)
        ensures
            r@ == join_path(
                self.dir_spec(),
                "paker-audit."@ + decimal_int(ts as int) + ".ndjson.bak"@,
            ),
    {
        let mut name = chars_of("paker-audit.");
        push_all(&mut name, &i64_to_decimal(ts));
        push_str(&mut name, ".ndjson.bak");
        string_of(&join_dir(&chars_of(self.dir.as_str()), &name))
    }
}

} // verus!
