use vstd::prelude::*;

use crate::builders::ActionKind;
use crate::error::PakerError;
use crate::text::{chars_of, eq_chars, string_of};

verus! {

/// How long a proposal may wait for confirmation, in seconds.
pub const PROPOSAL_TTL_SECS: u64 = 900;

/// A hex digit of a UUID's text or one of its hyphens.
pub open spec fn uuid_char(c: char) -> bool {
    ('0' <= c && c <= '9') || ('a' <= c && c <= 'f') || c == '-'
}

/// uuid: `Uuid::new_v4().to_string()`, a random version-4 UUID in its
/// hyphenated lower-case form: 36 characters, hex digits and hyphens.
#[verifier::external_body]
pub(crate) fn uuid_v4_text() -> (r: String)
    ensures
        r@.len() == 36,
        forall|i: int| 0 <= i < r@.len() ==> uuid_char(#[trigger] r@[i]),
{
    uuid::Uuid::new_v4().to_string()
}

/// A fresh random proposal id (a UUID, so it holds no `.`).
pub fn new_proposal_id() -> (r: String)
    ensures
        r@.len() == 36,
        forall|i: int| 0 <= i < r@.len() ==> uuid_char(#[trigger] r@[i]),
{
    uuid_v4_text()
}

/// A UTC instant: seconds and nanoseconds since the Unix epoch.
#[derive(Debug, Clone, Copy, PartialEq, Eq, Structural)]
pub struct UtcTime {
    pub secs: i64,
    pub nanos: u32,
}

/// `a` is strictly after `b`.
pub open spec fn later(a: UtcTime, b: UtcTime) -> bool {
    a.secs > b.secs || (a.secs == b.secs && a.nanos > b.nanos)
}

/// When a proposal made at `now` expires: [`PROPOSAL_TTL_SECS`] later.
pub fn proposal_expires_at(now: UtcTime) -> (r: UtcTime)
    requires
        now.secs <= i64::MAX - 900,
    ensures
        r == (UtcTime { secs: (now.secs + 900) as i64, nanos: now.nanos }),
{
    UtcTime { secs: now.secs + PROPOSAL_TTL_SECS as i64, nanos: now.nanos }
}

/// Whether `a` is strictly after `b`.
pub fn is_later(a: UtcTime, b: UtcTime) -> (r: bool)
    ensures
        r == later(a, b),
{
    a.secs > b.secs || (a.secs == b.secs && a.nanos > b.nanos)
}

/// Where a proposal is in its life.
#[derive(Debug, Clone, Copy, PartialEq, Eq, Structural)]
pub enum ProposalStatus {
    Pending,
    Executed,
    Rejected,
}

/// A proposal as the store keeps it.  `payload` is the JSON text of what the
/// executor needs.
#[derive(Debug, Clone)]
pub struct ProposalEntry {
    pub id: String,
    pub kind: ActionKind,
    pub connection_id: String,
    pub bucket: String,
    pub payload: String,
    pub token: String,
    pub status: ProposalStatus,
    pub created_at: UtcTime,
    pub expires_at: UtcTime,
}

/// The mathematical value of a [`ProposalEntry`].
pub struct EntryView {
    pub id: Seq<char>,
    pub kind: ActionKind,
    pub connection_id: Seq<char>,
    pub bucket: Seq<char>,
    pub payload: Seq<char>,
    pub token: Seq<char>,
    pub status: ProposalStatus,
    pub created_at: UtcTime,
    pub expires_at: UtcTime,
}

impl View for ProposalEntry {
    type V = EntryView;

    open spec fn view(&self) -> EntryView {
        EntryView {
            id: self.id@,
            kind: self.kind,
            connection_id: self.connection_id@,
            bucket: self.bucket@,
            payload: self.payload@,
            token: self.token@,
            status: self.status,
            created_at: self.created_at,
            expires_at: self.expires_at,
        }
    }
}

pub open spec fn with_status(e: EntryView, s: ProposalStatus) -> EntryView {
    EntryView { status: s, ..e }
}

impl ProposalEntry {
    /// A field-by-field copy.
    pub fn duplicate(&self) -> (r: ProposalEntry)
        ensures
            r@ == self@,
    {
        ProposalEntry {
            id: string_of(&chars_of(self.id.as_str())),
            kind: self.kind,
            connection_id: string_of(&chars_of(self.connection_id.as_str())),
            bucket: string_of(&chars_of(self.bucket.as_str())),
            payload: string_of(&chars_of(self.payload.as_str())),
            token: string_of(&chars_of(self.token.as_str())),
            status: self.status,
            created_at: self.created_at,
            expires_at: self.expires_at,
        }
    }
}

// ---------------------------------------------------------------------------
// The store as a map from proposal id to entry
// ---------------------------------------------------------------------------

pub open spec fn entry_views(v: Seq<ProposalEntry>) -> Seq<EntryView> {
    Seq::new(v.len(), |i: int| v[i]@)
}

pub open spec fn ids_unique(s: Seq<EntryView>) -> bool {
    forall|i: int, j: int| 0 <= i < s.len() && 0 <= j < s.len() && i != j ==> s[i].id != s[j].id
}

/// The map from id to entry that a sequence of entries with distinct ids
/// stands for.
pub open spec fn map_of(s: Seq<EntryView>) -> Map<Seq<char>, EntryView> {
    Map::new(
        |k: Seq<char>| exists|i: int| 0 <= i < s.len() && s[i].id == k,
        |k: Seq<char>| s[choose|i: int| 0 <= i < s.len() && s[i].id == k],
    )
}

pub proof fn lemma_map_of_at(s: Seq<EntryView>, i: int)
    requires
        ids_unique(s),
        0 <= i < s.len(),
    ensures
        map_of(s).dom().contains(s[i].id),
        map_of(s)[s[i].id] == s[i],
{
    let k = s[i].id;
    assert(0 <= i < s.len() && s[i].id == k);
    let j = choose|j: int| 0 <= j < s.len() && s[j].id == k;
    assert(j == i);
}

/// A proposal is listed for a connection filter: any with no filter, else
/// those of that connection.
pub open spec fn listed_for(e: EntryView, connection_id: Option<Seq<char>>) -> bool {
    match connection_id {
        None => true,
        Some(c) => e.connection_id == c,
    }
}

/// What a claim finds.
#[derive(Debug, Clone, Copy, PartialEq, Eq, Structural)]
pub enum ClaimOutcome {
    NotFound,
    AlreadyClaimed,
    Expired,
    TokenMismatch,
    Claimed,
}

/// The outcome of claiming `id` with `token` at `now`.
pub open spec fn claim_outcome(
    m: Map<Seq<char>, EntryView>,
    id: Seq<char>,
    token: Seq<char>,
    now: UtcTime,
) -> ClaimOutcome {
    if !m.dom().contains(id) {
        ClaimOutcome::NotFound
    } else if m[id].status != ProposalStatus::Pending {
        ClaimOutcome::AlreadyClaimed
    } else if later(now, m[id].expires_at) {
        ClaimOutcome::Expired
    } else if m[id].token != token {
        ClaimOutcome::TokenMismatch
    } else {
        ClaimOutcome::Claimed
    }
}

/// The store after such a claim: a successful one marks the entry executed.
pub open spec fn after_claim(
    m: Map<Seq<char>, EntryView>,
    id: Seq<char>,
    token: Seq<char>,
    now: UtcTime,
) -> Map<Seq<char>, EntryView> {
    if claim_outcome(m, id, token, now) == ClaimOutcome::Claimed {
        m.insert(id, with_status(m[id], ProposalStatus::Executed))
    } else {
        m
    }
}

/// The store after rejecting `id`: a pending entry becomes rejected.
pub open spec fn after_reject(m: Map<Seq<char>, EntryView>, id: Seq<char>) -> Map<
    Seq<char>,
    EntryView,
> {
    if m.dom().contains(id) && m[id].status == ProposalStatus::Pending {
        m.insert(id, with_status(m[id], ProposalStatus::Rejected))
    } else {
        m
    }
}

/// The store after inserting `e` at `now`: entries that expired by `now` are
/// dropped and `e` is stored under its id.
pub open spec fn after_insert(m: Map<Seq<char>, EntryView>, e: EntryView, now: UtcTime) -> Map<
    Seq<char>,
    EntryView,
> {
    Map::new(|k: Seq<char>| m.dom().contains(k) && later(m[k].expires_at, now), |k: Seq<char>| m[k]).insert(
        e.id,
        e,
    )
}

/// The proposals built in this session, waiting for confirmation.
pub struct ProposalStore {
    entries: Vec<ProposalEntry>,
}

impl View for ProposalStore {
    type V = Map<Seq<char>, EntryView>;

    closed spec fn view(&self) -> Map<Seq<char>, EntryView> {
        map_of(entry_views(self.entries@))
    }
}

impl ProposalStore {
    /// No two stored entries share an id.
    pub closed spec fn wf(&self) -> bool {
        ids_unique(entry_views(self.entries@))
    }

    /// An empty store.
    pub fn new() -> (r: ProposalStore)
        ensures
            r.wf(),
            r@ == Map::<Seq<char>, EntryView>::empty(),
    {
        let r = ProposalStore { entries: Vec::new() };
        assert(r@ =~= Map::<Seq<char>, EntryView>::empty());
        r
    }

    fn index_of(&self, id: &str) -> (r: Option<usize>)
        requires
            self.wf(),
        ensures
            match r {
                Some(i) => i < self.entries.len() && self.entries@[i as int]@.id == id@
                    && self@.dom().contains(id@) && self@[id@] == self.entries@[i as int]@,
                None => !self@.dom().contains(id@),
            },
    {
        let target = chars_of(id);
        let mut i: usize = 0;
        while i < self.entries.len()
            invariant
                self.wf(),
                i <= self.entries.len(),
                target@ == id@,
                forall|j: int| 0 <= j < i ==> #[trigger] self.entries@[j]@.id != id@,
            decreases self.entries.len() - i,
        {
            if eq_chars(&chars_of(self.entries[i].id.as_str()), &target) {
                proof {
                    assert(entry_views(self.entries@)[i as int] == self.entries@[i as int]@);
                    lemma_map_of_at(entry_views(self.entries@), i as int);
                }
                return Some(i);
            }
            i += 1;
        }
        proof {
            let s = entry_views(self.entries@);
            if self@.dom().contains(id@) {
                let j = choose|j: int| 0 <= j < s.len() && s[j].id == id@;
                assert(self.entries@[j]@.id == id@);
            }
        }
        None
    }

    proof fn lemma_set_entry(
        s: Seq<ProposalEntry>,
        i: int,
        e: ProposalEntry,
    )
        requires
            ids_unique(entry_views(s)),
            0 <= i < s.len(),
            e@.id == s[i]@.id,
        ensures
            ids_unique(entry_views(s.update(i, e))),
            map_of(entry_views(s.update(i, e))) == map_of(entry_views(s)).insert(e@.id, e@),
    {
        let a = entry_views(s);
        let b = entry_views(s.update(i, e));
        assert(b =~= a.update(i, e@));
        assert forall|x: int, y: int|
            0 <= x < b.len() && 0 <= y < b.len() && x != y implies b[x].id != b[y].id by {
            assert(a[x].id != a[y].id);
        }
        assert forall|k: Seq<char>| #![auto] map_of(b).dom().contains(k) <==> map_of(a).insert(
            e@.id,
            e@,
        ).dom().contains(k) by {
            if map_of(b).dom().contains(k) {
                let j = choose|j: int| 0 <= j < b.len() && b[j].id == k;
                assert(a[j].id == k);
            }
            if map_of(a).dom().contains(k) {
                let j = choose|j: int| 0 <= j < a.len() && a[j].id == k;
                assert(b[j].id == k);
            }
            if k == e@.id {
                assert(b[i].id == k);
            }
        }
        assert forall|k: Seq<char>| #[trigger] map_of(b).dom().contains(k) implies map_of(b)[k]
            == map_of(a).insert(e@.id, e@)[k] by {
            let j = choose|j: int| 0 <= j < b.len() && b[j].id == k;
            lemma_map_of_at(b, j);
            if j != i {
                lemma_map_of_at(a, j);
            }
        }
        assert(map_of(b) =~= map_of(a).insert(e@.id, e@));
    }

    /// Claims a pending, unexpired proposal for execution with its token,
    /// marking it executed; every refusal leaves the store unchanged.
    pub fn claim(&mut self, id: &str, token: &str, now: UtcTime) -> (r: Result<
        ProposalEntry,
        PakerError,
    >)
        requires
            old(self).wf(),
        ensures
            final(self).wf(),
            final(self)@ == after_claim(old(self)@, id@, token@, now),
            match claim_outcome(old(self)@, id@, token@, now) {
                ClaimOutcome::NotFound => r matches Err(PakerError::ProposalNotFound),
                ClaimOutcome::AlreadyClaimed => r matches Err(PakerError::ProposalAlreadyClaimed),
                ClaimOutcome::Expired => r matches Err(PakerError::ProposalExpired),
                ClaimOutcome::TokenMismatch => r matches Err(PakerError::InvalidInput(m)) && m@
                    == "token mismatch"@,
                ClaimOutcome::Claimed => r matches Ok(e) && e@ == final(self)@[id@],
            },
    {
        let i = match self.index_of(id) {
            None => {
                return Err(PakerError::ProposalNotFound);
            },
            Some(i) => i,
        };
        if self.entries[i].status != ProposalStatus::Pending {
            return Err(PakerError::ProposalAlreadyClaimed);
        }
        if is_later(now, self.entries[i].expires_at) {
            return Err(PakerError::ProposalExpired);
        }
        if !eq_chars(&chars_of(self.entries[i].token.as_str()), &chars_of(token)) {
            return Err(PakerError::InvalidInput(string_of(&chars_of("token mismatch"))));
        }
        let mut e = self.entries[i].duplicate();
        e.status = ProposalStatus::Executed;
        proof {
            Self::lemma_set_entry(self.entries@, i as int, e);
            assert(e@ == with_status(self@[id@], ProposalStatus::Executed));
        }
        let out = e.duplicate();
        self.entries.set(i, e);
        proof {
            lemma_map_of_at(entry_views(self.entries@), i as int);
        }
        Ok(out)
    }

    /// Rejects a pending proposal; one that was already executed or rejected
    /// is refused.
    pub fn reject(&mut self, id: &str) -> (r: Result<ProposalEntry, PakerError>)
        requires
            old(self).wf(),
        ensures
            final(self).wf(),
            final(self)@ == after_reject(old(self)@, id@),
            !old(self)@.dom().contains(id@) ==> r matches Err(PakerError::ProposalNotFound),
            old(self)@.dom().contains(id@) && old(self)@[id@].status != ProposalStatus::Pending
                ==> r matches Err(PakerError::ProposalAlreadyClaimed),
            old(self)@.dom().contains(id@) && old(self)@[id@].status == ProposalStatus::Pending
                ==> (r matches Ok(e) && e@ == final(self)@[id@]),
    {
        let i = match self.index_of(id) {
            None => {
                return Err(PakerError::ProposalNotFound);
            },
            Some(i) => i,
        };
        if self.entries[i].status != ProposalStatus::Pending {
            return Err(PakerError::ProposalAlreadyClaimed);
        }
        let mut e = self.entries[i].duplicate();
        e.status = ProposalStatus::Rejected;
        proof {
            Self::lemma_set_entry(self.entries@, i as int, e);
        }
        let out = e.duplicate();
        self.entries.set(i, e);
        proof {
            lemma_map_of_at(entry_views(self.entries@), i as int);
        }
        Ok(out)
    }

    /// The proposals of a connection (all of them for `None`), newest
    /// first, at most 50: when more match, the ones left out are no newer
    /// than the last one listed.
    pub fn list(&self, connection_id: Option<&str>) -> (r: Vec<ProposalEntry>)
        requires
            self.wf(),
        ensures
            r.len() <= 50,
            forall|j: int|
                0 <= j < r.len() ==> self@.dom().contains(#[trigger] r@[j]@.id) && self@[r@[j]@.id]
                    == r@[j]@ && listed_for(r@[j]@, crate::policy::str_opt(connection_id)),
            forall|a: int, b: int|
                0 <= a < b < r.len() ==> r@[a]@.id != r@[b]@.id && !later(
                    r@[b]@.created_at,
                    r@[a]@.created_at,
                ),
            forall|k: Seq<char>|
                self@.dom().contains(k) && listed_for(self@[k], crate::policy::str_opt(connection_id))
                    && !(exists|j: int| 0 <= j < r.len() && #[trigger] r@[j]@.id == k) ==> r.len()
                    == 50 && !later(self@[k].created_at, r@[49]@.created_at),
    {
        let ghost s = entry_views(self.entries@);
        let ghost c = crate::policy::str_opt(connection_id);
        let target = match connection_id {
            Some(x) => Some(chars_of(x)),
            None => None,
        };
        let n = self.entries.len();
        let mut taken: Vec<bool> = Vec::new();
        let mut t: usize = 0;
        while t < n
            invariant
                t <= n,
                taken.len() == t,
                forall|i: int| 0 <= i < t ==> !taken@[i],
            decreases n - t,
        {
            taken.push(false);
            t += 1;
        }
        let mut r: Vec<ProposalEntry> = Vec::new();
        let ghost mut src: Seq<int> = Seq::empty();
        loop
            invariant
                self.wf(),
                n == self.entries.len(),
                s == entry_views(self.entries@),
                c == crate::policy::str_opt(connection_id),
                match connection_id {
                    Some(x) => target matches Some(tv) && tv@ == x@,
                    None => target is None,
                },
                taken.len() == n,
                r.len() <= 50,
                src.len() == r.len(),
                forall|j: int|
                    0 <= j < r.len() ==> 0 <= #[trigger] src[j] < n && r@[j]@ == s[src[j]]
                        && taken@[src[j]] && listed_for(s[src[j]], c),
                forall|a: int, b: int| 0 <= a < b < src.len() ==> src[a] != src[b],
                forall|i: int| 0 <= i < n && #[trigger] taken@[i] ==> src.contains(i),
                forall|a: int, b: int|
                    0 <= a < b < r.len() ==> !later(r@[b]@.created_at, r@[a]@.created_at),
                r.len() > 0 ==> forall|i: int|
                    0 <= i < n && !#[trigger] taken@[i] && listed_for(s[i], c) ==> !later(
                        s[i].created_at,
                        r@[r.len() - 1]@.created_at,
                    ),
            ensures
                r.len() == 50 || forall|i: int|
                    0 <= i < n && listed_for(s[i], c) ==> #[trigger] taken@[i],
            decreases 50 - r.len(),
        {
            if r.len() >= 50 {
                break;
            }
            let mut best: Option<usize> = None;
            let mut i: usize = 0;
            while i < n
                invariant
                    i <= n,
                    n == self.entries.len(),
                    s == entry_views(self.entries@),
                    c == crate::policy::str_opt(connection_id),
                    match connection_id {
                        Some(x) => target matches Some(tv) && tv@ == x@,
                        None => target is None,
                    },
                    taken.len() == n,
                    match best {
                        Some(b) => b < i && !taken@[b as int] && listed_for(s[b as int], c)
                            && forall|k: int|
                            0 <= k < i && !#[trigger] taken@[k] && listed_for(s[k], c) ==> !later(
                                s[k].created_at,
                                s[b as int].created_at,
                            ),
                        None => forall|k: int|
                            0 <= k < i ==> #[trigger] taken@[k] || !listed_for(s[k], c),
                    },
                decreases n - i,
            {
                assert(s[i as int] == self.entries@[i as int]@);
                let eligible = !taken[i] && match &target {
                    None => true,
                    Some(tv) => eq_chars(&chars_of(self.entries[i].connection_id.as_str()), tv),
                };
                if eligible {
                    match best {
                        None => {
                            best = Some(i);
                        },
                        Some(b) => {
                            if is_later(self.entries[i].created_at, self.entries[b].created_at) {
                                best = Some(i);
                            }
                        },
                    }
                }
                i += 1;
            }
            match best {
                None => {
                    break;
                },
                Some(b) => {
                    let ghost old_taken = taken@;
                    let ghost old_r = r@;
                    taken.set(b, true);
                    r.push(self.entries[b].duplicate());
                    proof {
                        let old_src = src;
                        if old_r.len() > 0 {
                            assert(!old_taken[b as int]);
                            assert(!later(s[b as int].created_at, old_r[old_r.len() - 1]@.created_at));
                        }
                        src = src.push(b as int);
                        assert(r@[r.len() - 1]@ == s[b as int]);
                        assert forall|j: int| 0 <= j < r.len() implies 0 <= #[trigger] src[j] < n
                            && r@[j]@ == s[src[j]] && taken@[src[j]] && listed_for(
                            s[src[j]],
                            c,
                        ) by {
                            if j < old_r.len() {
                                assert(r@[j] == old_r[j]);
                            }
                        }
                        assert forall|a: int, bb: int| 0 <= a < bb < src.len() implies src[a]
                            != src[bb] by {
                            if bb == src.len() - 1 {
                                assert(old_taken[src[a]]);
                            }
                        }
                        assert forall|k: int| 0 <= k < n && #[trigger] taken@[k] implies src.contains(
                            k,
                        ) by {
                            if k == b {
                                assert(src[src.len() - 1] == k);
                            } else {
                                assert(old_taken[k]);
                                assert(old_src.contains(k));
                                let w = choose|w: int| 0 <= w < old_src.len() && old_src[w] == k;
                                assert(src[w] == k);
                            }
                        }
                        assert forall|a: int, bb: int| 0 <= a < bb < r.len() implies !later(
                            r@[bb]@.created_at,
                            r@[a]@.created_at,
                        ) by {
                            assert(r@[a] == old_r[a]);
                            if bb == r.len() - 1 {
                                assert(r@[bb]@ == s[b as int]);
                                let last = old_r[old_r.len() - 1]@.created_at;
                                assert(!later(s[b as int].created_at, last));
                                if a < old_r.len() - 1 {
                                    assert(!later(last, old_r[a]@.created_at));
                                }
                            } else {
                                assert(r@[bb] == old_r[bb]);
                                assert(!later(old_r[bb]@.created_at, old_r[a]@.created_at));
                            }
                        }
                    }
                },
            }
        }
        proof {
            assert forall|j: int| 0 <= j < r.len() implies self@.dom().contains(
                #[trigger] r@[j]@.id,
            ) && self@[r@[j]@.id] == r@[j]@ && listed_for(r@[j]@, c) by {
                lemma_map_of_at(s, src[j]);
            }
            assert forall|a: int, b: int| 0 <= a < b < r.len() implies r@[a]@.id != r@[b]@.id by {
                assert(src[a] != src[b]);
            }
            assert forall|k: Seq<char>|
                self@.dom().contains(k) && listed_for(self@[k], c) && !(exists|j: int|
                    0 <= j < r.len() && #[trigger] r@[j]@.id == k) implies r.len() == 50 && !later(
                self@[k].created_at,
                r@[49]@.created_at,
            ) by {
                let i = choose|i: int| 0 <= i < s.len() && s[i].id == k;
                lemma_map_of_at(s, i);
                if taken@[i] {
                    let w = choose|w: int| 0 <= w < src.len() && src[w] == i;
                    assert(r@[w]@.id == k);
                }
            }
        }
        r
    }

    /// Stores a freshly built proposal, first dropping the entries that
    /// expired by `now`; returns a copy of it.
    pub fn insert(&mut self, entry: ProposalEntry, now: UtcTime) -> (r: ProposalEntry)
        requires
            old(self).wf(),
        ensures
            final(self).wf(),
            final(self)@ == after_insert(old(self)@, entry@, now),
            r@ == entry@,
    {
        let ghost s = entry_views(self.entries@);
        let ghost m = self@;
        let new_id = chars_of(entry.id.as_str());
        let mut kept: Vec<ProposalEntry> = Vec::new();
        let ghost mut src: Seq<int> = Seq::empty();
        let mut i: usize = 0;
        while i < self.entries.len()
            invariant
                i <= self.entries.len(),
                s == entry_views(self.entries@),
                m == map_of(s),
                ids_unique(s),
                new_id@ == entry@.id,
                src.len() == kept.len(),
                ids_unique(entry_views(kept@)),
                forall|j: int|
                    0 <= j < kept.len() ==> 0 <= #[trigger] src[j] < i && kept@[j]@ == s[src[j]]
                        && later(s[src[j]].expires_at, now) && s[src[j]].id != entry@.id,
                forall|a: int|
                    0 <= a < i && #[trigger] later(s[a].expires_at, now) && s[a].id != entry@.id
                        ==> map_of(entry_views(kept@)).dom().contains(s[a].id),
            decreases self.entries.len() - i,
        {
            let keep = is_later(self.entries[i].expires_at, now) && !eq_chars(
                &chars_of(self.entries[i].id.as_str()),
                &new_id,
            );
            if keep {
                let ghost before = entry_views(kept@);
                let e = self.entries[i].duplicate();
                kept.push(e);
                proof {
                    let after = entry_views(kept@);
                    assert(after =~= before.push(s[i as int]));
                    assert forall|x: int, y: int|
                        0 <= x < after.len() && 0 <= y < after.len() && x != y implies after[x].id
                        != after[y].id by {
                        if x < before.len() && y < before.len() {
                            assert(before[x].id != before[y].id);
                        } else if x < before.len() {
                            assert(src[x] != i);
                        } else {
                            assert(src[y] != i);
                        }
                    }
                    src = src.push(i as int);
                    assert forall|a: int|
                        0 <= a <= i && #[trigger] later(s[a].expires_at, now) && s[a].id
                            != entry@.id implies map_of(after).dom().contains(s[a].id) by {
                        if a == i {
                            assert(after[after.len() - 1].id == s[a].id);
                        } else {
                            let w = choose|w: int| 0 <= w < before.len() && before[w].id == s[a].id;
                            assert(after[w].id == s[a].id);
                        }
                    }
                }
            }
            i += 1;
        }
        let out = entry.duplicate();
        let ghost before = entry_views(kept@);
        kept.push(entry);
        proof {
            let after = entry_views(kept@);
            assert(after =~= before.push(out@));
            assert forall|x: int, y: int|
                0 <= x < after.len() && 0 <= y < after.len() && x != y implies after[x].id
                != after[y].id by {
                if x < before.len() && y < before.len() {
                    assert(before[x].id != before[y].id);
                } else if x < before.len() {
                    assert(kept@[x]@ == s[src[x]]);
                } else {
                    assert(kept@[y]@ == s[src[y]]);
                }
            }
            let target = after_insert(m, out@, now);
            assert forall|k: Seq<char>| #![auto] map_of(after).dom().contains(k)
                <==> target.dom().contains(k) by {
                if map_of(after).dom().contains(k) && k != out@.id {
                    let j = choose|j: int| 0 <= j < after.len() && after[j].id == k;
                    assert(j < before.len());
                    lemma_map_of_at(s, src[j]);
                }
                if target.dom().contains(k) && k != out@.id {
                    let a = choose|a: int| 0 <= a < s.len() && s[a].id == k;
                    lemma_map_of_at(s, a);
                    assert(later(s[a].expires_at, now));
                    let w = choose|w: int| 0 <= w < before.len() && before[w].id == s[a].id;
                    assert(after[w].id == k);
                }
                if k == out@.id {
                    assert(after[after.len() - 1].id == k);
                }
            }
            assert forall|k: Seq<char>| #[trigger] map_of(after).dom().contains(k) implies map_of(
                after,
            )[k] == target[k] by {
                let j = choose|j: int| 0 <= j < after.len() && after[j].id == k;
                lemma_map_of_at(after, j);
                if j < before.len() {
                    lemma_map_of_at(s, src[j]);
                }
            }
            assert(map_of(after) =~= target);
        }
        self.entries = kept;
        out
    }
}

// ---------------------------------------------------------------------------
// Laws
// ---------------------------------------------------------------------------

/// A proposal can be executed only once: after a successful claim, claiming
/// it again, with any token and at any time, finds it already claimed.
pub proof fn law_claim_once(
    m: Map<Seq<char>, EntryView>,
    id: Seq<char>,
    token: Seq<char>,
    now: UtcTime,
    token2: Seq<char>,
    now2: UtcTime,
)
    requires
        claim_outcome(m, id, token, now) == ClaimOutcome::Claimed,
    ensures
        claim_outcome(after_claim(m, id, token, now), id, token2, now2)
            == ClaimOutcome::AlreadyClaimed,
{
}

/// A rejected proposal can no longer be claimed.
pub proof fn law_rejected_not_claimable(
    m: Map<Seq<char>, EntryView>,
    id: Seq<char>,
    token: Seq<char>,
    now: UtcTime,
)
    requires
        m.dom().contains(id),
        m[id].status == ProposalStatus::Pending,
    ensures
        claim_outcome(after_reject(m, id), id, token, now) == ClaimOutcome::AlreadyClaimed,
{
}

/// A freshly inserted pending proposal is claimed with its own token at any
/// time up to its expiry, and is expired after it.
pub proof fn law_insert_then_claim(
    m: Map<Seq<char>, EntryView>,
    e: EntryView,
    inserted_at: UtcTime,
    now: UtcTime,
)
    requires
        e.status == ProposalStatus::Pending,
    ensures
        claim_outcome(after_insert(m, e, inserted_at), e.id, e.token, now) == (if later(
            now,
            e.expires_at,
        ) {
            ClaimOutcome::Expired
        } else {
            ClaimOutcome::Claimed
        }),
{
}

/// A claim, successful or not, leaves every other proposal as it was.
pub proof fn law_claim_is_local(
    m: Map<Seq<char>, EntryView>,
    id: Seq<char>,
    token: Seq<char>,
    now: UtcTime,
    other: Seq<char>,
)
    requires
        other != id,
    ensures
        after_claim(m, id, token, now).dom().contains(other) == m.dom().contains(other),
        m.dom().contains(other) ==> after_claim(m, id, token, now)[other] == m[other],
{
}

} // verus!
