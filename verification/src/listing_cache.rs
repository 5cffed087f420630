use vstd::prelude::*;

use crate::index_query::{opt_str_view, str_views};
use crate::s3_ops::{ListObjectsResult, ObjectInfo};
use crate::text::{chars_of, eq_chars, has_prefix, starts_with, string_of};

verus! {

// ---------------------------------------------------------------------------
// Listings and their values
// ---------------------------------------------------------------------------

/// The mathematical value of an [`ObjectInfo`].
pub struct ObjectInfoView {
    pub key: Seq<char>,
    pub size: i64,
    pub last_modified: Option<Seq<char>>,
    pub etag: Option<Seq<char>>,
    pub storage_class: Option<Seq<char>>,
    pub is_prefix: bool,
}

impl View for ObjectInfo {
    type V = ObjectInfoView;

    open spec fn view(&self) -> ObjectInfoView {
        ObjectInfoView {
            key: self.key@,
            size: self.size,
            last_modified: opt_str_view(self.last_modified),
            etag: opt_str_view(self.etag),
            storage_class: opt_str_view(self.storage_class),
            is_prefix: self.is_prefix,
        }
    }
}

/// The mathematical value of a [`ListObjectsResult`].
pub struct ListingView {
    pub objects: Seq<ObjectInfoView>,
    pub common_prefixes: Seq<Seq<char>>,
    pub continuation_token: Option<Seq<char>>,
    pub is_truncated: bool,
}

impl View for ListObjectsResult {
    type V = ListingView;

    open spec fn view(&self) -> ListingView {
        ListingView {
            objects: Seq::new(self.objects.len() as nat, |i: int| self.objects@[i]@),
            common_prefixes: str_views(self.common_prefixes@),
            continuation_token: opt_str_view(self.continuation_token),
            is_truncated: self.is_truncated,
        }
    }
}

fn copy_object(o: &ObjectInfo) -> (r: ObjectInfo)
    ensures
        r@ == o@,
{
    ObjectInfo {
        key: string_of(&chars_of(o.key.as_str())),
        size: o.size,
        last_modified: crate::plans::copy_opt(&o.last_modified),
        etag: crate::plans::copy_opt(&o.etag),
        storage_class: crate::plans::copy_opt(&o.storage_class),
        is_prefix: o.is_prefix,
    }
}

/// A copy of a listing.
pub fn copy_listing(l: &ListObjectsResult) -> (r: ListObjectsResult)
    ensures
        r@ == l@,
{
    let mut objects: Vec<ObjectInfo> = Vec::new();
    let mut i: usize = 0;
    while i < l.objects.len()
        invariant
            i <= l.objects.len(),
            objects.len() == i,
            forall|k: int| 0 <= k < i ==> #[trigger] objects@[k]@ == l.objects@[k]@,
        decreases l.objects.len() - i,
    {
        objects.push(copy_object(&l.objects[i]));
        i += 1;
    }
    let mut prefixes: Vec<String> = Vec::new();
    let mut j: usize = 0;
    while j < l.common_prefixes.len()
        invariant
            j <= l.common_prefixes.len(),
            prefixes.len() == j,
            forall|k: int| 0 <= k < j ==> #[trigger] prefixes@[k]@ == l.common_prefixes@[k]@,
        decreases l.common_prefixes.len() - j,
    {
        prefixes.push(string_of(&chars_of(l.common_prefixes[j].as_str())));
        j += 1;
    }
    let r = ListObjectsResult {
        objects,
        common_prefixes: prefixes,
        continuation_token: crate::plans::copy_opt(&l.continuation_token),
        is_truncated: l.is_truncated,
    };
    assert(r@.objects =~= l@.objects);
    assert(r@.common_prefixes =~= l@.common_prefixes);
    r
}

/// A listing kept in memory, with the time it was fetched.
pub struct CachedListing {
    pub result: ListObjectsResult,
    pub fetched_at: String,
}

/// The mathematical value of a [`CachedListing`].
pub struct CachedView {
    pub result: ListingView,
    pub fetched_at: Seq<char>,
}

impl View for CachedListing {
    type V = CachedView;

    open spec fn view(&self) -> CachedView {
        CachedView { result: self.result@, fetched_at: self.fetched_at@ }
    }
}

/// A cached listing's key: connection id, bucket, prefix.
pub type ListingKey = (String, String, String);

/// The value of a [`ListingKey`].
pub open spec fn key_view(k: ListingKey) -> (Seq<char>, Seq<char>, Seq<char>) {
    (k.0@, k.1@, k.2@)
}

// ---------------------------------------------------------------------------
// The LRU cache of the lru crate
// ---------------------------------------------------------------------------

#[verifier::external_type_specification]
#[verifier::external_body]
#[verifier::reject_recursive_types(K)]
#[verifier::reject_recursive_types(V)]
#[verifier::reject_recursive_types(S)]
pub struct ExLruCache<K, V, S>(lru::LruCache<K, V, S>);

#[verifier::external_type_specification]
#[verifier::external_body]
pub struct ExLruHasher(lru::DefaultHasher);

/// The entries of a listing cache, most recently used first.
pub uninterp spec fn lru_entries(c: lru::LruCache<ListingKey, CachedListing>) -> Seq<
    ((Seq<char>, Seq<char>, Seq<char>), CachedView),
>;

/// The number of entries a listing cache was made to hold.
pub uninterp spec fn lru_cap(c: lru::LruCache<ListingKey, CachedListing>) -> nat;

/// The position of the entry with key `k`, if any.
pub open spec fn lru_find(
    s: Seq<((Seq<char>, Seq<char>, Seq<char>), CachedView)>,
    k: (Seq<char>, Seq<char>, Seq<char>),
) -> Option<int> {
    if exists|i: int| 0 <= i < s.len() && s[i].0 == k {
        Some(choose|i: int| 0 <= i < s.len() && s[i].0 == k)
    } else {
        None
    }
}

/// lru: `LruCache::new(NonZeroUsize::new(cap))`: an empty cache holding at
/// most `cap` entries.
#[verifier::external_body]
fn lru_new(cap: usize) -> (r: lru::LruCache<ListingKey, CachedListing>)
    requires
        cap > 0,
    ensures
        lru_entries(r) == Seq::<((Seq<char>, Seq<char>, Seq<char>), CachedView)>::empty(),
        lru_cap(r) == cap,
{
    lru::LruCache::new(std::num::NonZeroUsize::new(cap).expect("positive capacity"))
}

/// lru: `LruCache::get`, which moves the entry it finds to the front.
#[verifier::external_body]
fn lru_get<'a>(c: &'a mut lru::LruCache<ListingKey, CachedListing>, k: &ListingKey) -> (r: Option<&'a CachedListing>)
    ensures
        lru_cap(*final(c)) == lru_cap(*old(c)),
        match lru_find(lru_entries(*old(c)), key_view(*k)) {
            None => r is None && lru_entries(*final(c)) == lru_entries(*old(c)),
            Some(i) => r matches Some(v) && v@ == lru_entries(*old(c))[i].1 && lru_entries(*final(c))
                == seq![lru_entries(*old(c))[i]] + lru_entries(*old(c)).remove(i),
        },
{
    c.get(k)
}

/// lru: `LruCache::put`: an entry with the key is replaced and moved to the
/// front (its old value returned); a new entry goes to the front, after the
/// least recently used one is evicted from a full cache.
#[verifier::external_body]
fn lru_put(c: &mut lru::LruCache<ListingKey, CachedListing>, k: ListingKey, v: CachedListing) -> (r: Option<CachedListing>)
    ensures
        lru_cap(*final(c)) == lru_cap(*old(c)),
        ({
            let s = lru_entries(*old(c));
            let e = (key_view(k), v@);
            match lru_find(s, key_view(k)) {
                Some(i) => r matches Some(o) && o@ == s[i].1 && lru_entries(*final(c)) == seq![e] + s.remove(i),
                None => r is None && lru_entries(*final(c)) == if s.len() >= lru_cap(*old(c)) {
                    seq![e] + s.drop_last()
                } else {
                    seq![e] + s
                },
            }
        }),
{
    c.put(k, v)
}

/// lru: `LruCache::pop`: removes the entry with the key, if any, and
/// returns its value.
#[verifier::external_body]
fn lru_pop(c: &mut lru::LruCache<ListingKey, CachedListing>, k: &ListingKey) -> (r: Option<CachedListing>)
    ensures
        lru_cap(*final(c)) == lru_cap(*old(c)),
        match lru_find(lru_entries(*old(c)), key_view(*k)) {
            None => r is None && lru_entries(*final(c)) == lru_entries(*old(c)),
            Some(i) => r matches Some(v) && v@ == lru_entries(*old(c))[i].1 && lru_entries(*final(c))
                == lru_entries(*old(c)).remove(i),
        },
{
    c.pop(k)
}

/// lru: the keys that `LruCache::iter` visits, most recently used first.
#[verifier::external_body]
fn lru_keys(c: &lru::LruCache<ListingKey, CachedListing>) -> (r: Vec<ListingKey>)
    ensures
        r.len() == lru_entries(*c).len(),
        forall|i: int| 0 <= i < r.len() ==> key_view(#[trigger] r@[i]) == lru_entries(*c)[i].0,
{
    c.iter().map(|(k, _)| k.clone()).collect()
}

// ---------------------------------------------------------------------------
// The in-memory cache of first listing pages
// ---------------------------------------------------------------------------

/// How many first pages of listings are kept in memory.
pub const LISTINGS_LRU_CAPACITY: usize = 64;

pub type Entry = ((Seq<char>, Seq<char>, Seq<char>), CachedView);

/// No two entries share a key.
pub open spec fn keys_distinct(s: Seq<Entry>) -> bool {
    forall|i: int, j: int| 0 <= i < j < s.len() ==> s[i].0 != s[j].0
}

/// A cache key lies under `prefix` of the given connection and bucket.
pub open spec fn under(
    k: (Seq<char>, Seq<char>, Seq<char>),
    connection_id: Seq<char>,
    bucket: Seq<char>,
    prefix: Seq<char>,
) -> bool {
    k.0 == connection_id && k.1 == bucket && starts_with(k.2, prefix)
}

/// The entries not under `prefix` of the connection and bucket, in order.
pub open spec fn outside(
    s: Seq<Entry>,
    connection_id: Seq<char>,
    bucket: Seq<char>,
    prefix: Seq<char>,
) -> Seq<Entry>
    decreases s.len(),
{
    if s.len() == 0 {
        s
    } else {
        let r = outside(s.drop_last(), connection_id, bucket, prefix);
        if under(s.last().0, connection_id, bucket, prefix) {
            r
        } else {
            r.push(s.last())
        }
    }
}

/// The entries whose key is not in `ks`, in order.
pub open spec fn drop_keys(s: Seq<Entry>, ks: Set<(Seq<char>, Seq<char>, Seq<char>)>) -> Seq<Entry>
    decreases s.len(),
{
    if s.len() == 0 {
        s
    } else {
        let r = drop_keys(s.drop_last(), ks);
        if ks.contains(s.last().0) {
            r
        } else {
            r.push(s.last())
        }
    }
}

proof fn lemma_drop_keys_keys(s: Seq<Entry>, ks: Set<(Seq<char>, Seq<char>, Seq<char>)>, k: (Seq<char>, Seq<char>, Seq<char>))
    ensures
        (exists|j: int| 0 <= j < drop_keys(s, ks).len() && drop_keys(s, ks)[j].0 == k) ==> (
        !ks.contains(k) && exists|i: int| 0 <= i < s.len() && s[i].0 == k),
        keys_distinct(s) ==> keys_distinct(drop_keys(s, ks)),
    decreases s.len(),
{
    if s.len() > 0 {
        let init = s.drop_last();
        lemma_drop_keys_keys(init, ks, k);
        let r = drop_keys(init, ks);
        if exists|j: int| 0 <= j < drop_keys(s, ks).len() && drop_keys(s, ks)[j].0 == k {
            let j = choose|j: int| 0 <= j < drop_keys(s, ks).len() && drop_keys(s, ks)[j].0 == k;
            if j < r.len() {
                assert(drop_keys(s, ks)[j] == r[j]);
                let i = choose|i: int| 0 <= i < init.len() && init[i].0 == k;
                assert(s[i] == init[i]);
            } else {
                assert(s[s.len() - 1].0 == k);
            }
        }
        if keys_distinct(s) {
            assert(keys_distinct(init)) by {
                assert forall|a: int, b: int| 0 <= a < b < init.len() implies init[a].0 != init[b].0 by {
                    assert(init[a] == s[a] && init[b] == s[b]);
                }
            }
            if !ks.contains(s.last().0) {
                let t = r.push(s.last());
                assert forall|a: int, b: int| 0 <= a < b < t.len() implies t[a].0 != t[b].0 by {
                    if b == t.len() - 1 {
                        assert(t[a] == r[a]);
                        lemma_drop_keys_keys(init, ks, s.last().0);
                        if r[a].0 == s.last().0 {
                            let i = choose|i: int| 0 <= i < init.len() && init[i].0 == s.last().0;
                            assert(s[i] == init[i]);
                        }
                    } else {
                        assert(t[a] == r[a] && t[b] == r[b]);
                    }
                }
            }
        }
    }
}

proof fn lemma_drop_keys_absent(s: Seq<Entry>, ks: Set<(Seq<char>, Seq<char>, Seq<char>)>, k: (Seq<char>, Seq<char>, Seq<char>))
    requires
        forall|i: int| 0 <= i < s.len() ==> s[i].0 != k,
    ensures
        drop_keys(s, ks.insert(k)) == drop_keys(s, ks),
    decreases s.len(),
{
    if s.len() > 0 {
        lemma_drop_keys_absent(s.drop_last(), ks, k);
    }
}

proof fn lemma_drop_keys_remove(s: Seq<Entry>, ks: Set<(Seq<char>, Seq<char>, Seq<char>)>, k: (Seq<char>, Seq<char>, Seq<char>))
    requires
        keys_distinct(s),
        !ks.contains(k),
        exists|i: int| 0 <= i < s.len() && s[i].0 == k,
    ensures
        lru_find(drop_keys(s, ks), k) matches Some(j) && drop_keys(s, ks).remove(j) == drop_keys(
            s,
            ks.insert(k),
        ),
    decreases s.len(),
{
    let init = s.drop_last();
    let r = drop_keys(init, ks);
    lemma_drop_keys_keys(s, ks, k);
    lemma_drop_keys_keys(init, ks, k);
    let t = drop_keys(s, ks);
    if s.last().0 == k {
        assert forall|i: int| 0 <= i < init.len() implies init[i].0 != k by {
            assert(init[i] == s[i]);
        }
        lemma_drop_keys_absent(init, ks, k);
        assert(t == r.push(s.last()));
        assert(t[r.len() as int].0 == k);
        let j = choose|j: int| 0 <= j < t.len() && t[j].0 == k;
        if j < r.len() {
            assert(t[j] == r[j]);
        }
        assert(j == r.len());
        assert(t.remove(j) =~= r);
    } else {
        let i0 = choose|i: int| 0 <= i < s.len() && s[i].0 == k;
        assert(init[i0] == s[i0]);
        assert(keys_distinct(init)) by {
            assert forall|a: int, b: int| 0 <= a < b < init.len() implies init[a].0 != init[b].0 by {
                assert(init[a] == s[a] && init[b] == s[b]);
            }
        }
        lemma_drop_keys_remove(init, ks, k);
        let j = lru_find(r, k)->0;
        assert(r[j].0 == k);
        if ks.contains(s.last().0) {
            assert(t == r);
        } else {
            assert(t == r.push(s.last()));
            assert(t[j] == r[j]);
            let jj = choose|x: int| 0 <= x < t.len() && t[x].0 == k;
            assert(jj == j) by {
                if jj != j {
                    if jj < r.len() {
                        assert(t[jj] == r[jj]);
                        assert(keys_distinct(r));
                    } else {
                        assert(t[jj] == s.last());
                    }
                }
            }
            assert(t.remove(j) =~= r.remove(j).push(s.last()));
        }
    }
}

proof fn lemma_outside_is_drop_keys(
    s: Seq<Entry>,
    ks: Set<(Seq<char>, Seq<char>, Seq<char>)>,
    c: Seq<char>,
    b: Seq<char>,
    p: Seq<char>,
)
    requires
        forall|i: int| 0 <= i < s.len() ==> (ks.contains(#[trigger] s[i].0) <==> under(s[i].0, c, b, p)),
    ensures
        drop_keys(s, ks) == outside(s, c, b, p),
    decreases s.len(),
{
    if s.len() > 0 {
        let init = s.drop_last();
        assert forall|i: int| 0 <= i < init.len() implies (ks.contains(#[trigger] init[i].0) <==> under(
            init[i].0,
            c,
            b,
            p,
        )) by {
            assert(init[i] == s[i]);
        }
        lemma_outside_is_drop_keys(init, ks, c, b, p);
        assert(ks.contains(s[s.len() - 1].0) <==> under(s[s.len() - 1].0, c, b, p));
    }
}

/// The entries after keeping `e` as the most recently used, in a cache of
/// `cap` entries: an entry with its key is replaced, else the least recently
/// used one makes room in a full cache.
pub open spec fn after_remember(s: Seq<Entry>, e: Entry, cap: nat) -> Seq<Entry> {
    match lru_find(s, e.0) {
        Some(i) => seq![e] + s.remove(i),
        None => if s.len() >= cap {
            seq![e] + s.drop_last()
        } else {
            seq![e] + s
        },
    }
}

/// A page just kept is what a lookup of its key finds, whatever the cache
/// held before.
pub proof fn law_remember_then_get(s: Seq<Entry>, e: Entry, cap: nat)
    requires
        keys_distinct(s),
        s.len() <= cap,
        cap > 0,
    ensures
        lru_find(after_remember(s, e, cap), e.0) == Some(0int),
        after_remember(s, e, cap)[0] == e,
        after_remember(s, e, cap).len() <= cap,
{
    let t = after_remember(s, e, cap);
    match lru_find(s, e.0) {
        Some(i) => {
            lemma_front_keeps_distinct(s, i, e);
        },
        None => {
            if s.len() >= cap {
                assert forall|i: int| 0 <= i < s.drop_last().len() implies s.drop_last()[i].0 != e.0 by {
                    assert(s.drop_last()[i] == s[i]);
                }
                lemma_push_front_distinct(s.drop_last(), e);
            } else {
                lemma_push_front_distinct(s, e);
            }
        },
    }
    assert(t[0].0 == e.0);
    let j = choose|j: int| 0 <= j < t.len() && t[j].0 == e.0;
    assert(j == 0) by {
        if j != 0 {
            assert(t[0].0 != t[j].0);
        }
    }
}

/// After invalidating a prefix, no page of the connection and bucket under
/// it is left.
pub proof fn law_invalidated_prefix_is_gone(s: Seq<Entry>, c: Seq<char>, b: Seq<char>, p: Seq<char>)
    ensures
        forall|i: int| 0 <= i < outside(s, c, b, p).len() ==> !under(#[trigger] outside(s, c, b, p)[i].0, c, b, p),
    decreases s.len(),
{
    if s.len() > 0 {
        law_invalidated_prefix_is_gone(s.drop_last(), c, b, p);
        let r = outside(s.drop_last(), c, b, p);
        assert forall|i: int| 0 <= i < outside(s, c, b, p).len() implies !under(
            #[trigger] outside(s, c, b, p)[i].0,
            c,
            b,
            p,
        ) by {
            if i < r.len() {
                assert(outside(s, c, b, p)[i] == r[i]);
            }
        }
    }
}

/// The first pages of recently used listings, by connection, bucket and
/// prefix, least recently used evicted first.
pub struct ListingCache {
    lru: lru::LruCache<ListingKey, CachedListing>,
}

impl ListingCache {
    /// The cached pages, most recently used first.
    pub closed spec fn entries(&self) -> Seq<Entry> {
        lru_entries(self.lru)
    }

    /// How many pages it keeps at most.
    pub closed spec fn capacity(&self) -> nat {
        lru_cap(self.lru)
    }

    /// Keys are distinct and the cache holds no more than its capacity.
    pub closed spec fn wf(&self) -> bool {
        keys_distinct(self.entries()) && self.entries().len() <= self.capacity() && self.capacity()
            > 0
    }

    /// An empty cache of `cap` pages.
    pub fn with_capacity(cap: usize) -> (r: ListingCache)
        requires
            cap > 0,
        ensures
            r.wf(),
            r.entries().len() == 0,
            r.capacity() == cap,
    {
        ListingCache { lru: lru_new(cap) }
    }

    /// An empty cache of [`LISTINGS_LRU_CAPACITY`] pages.
    pub fn new() -> (r: ListingCache)
        ensures
            r.wf(),
            r.entries().len() == 0,
            r.capacity() == 64,
    {
        Self::with_capacity(LISTINGS_LRU_CAPACITY)
    }

    /// The cached first page of a listing, made the most recently used;
    /// later pages (a non-empty continuation token) are never kept here.
    pub fn get(&mut self, connection_id: &str, bucket: &str, prefix: &str, continuation_token: &str) -> (r: Option<
        (ListObjectsResult, String),
    >)
        requires
            old(self).wf(),
        ensures
            final(self).wf(),
            final(self).capacity() == old(self).capacity(),
            continuation_token@.len() > 0 ==> r is None && final(self).entries() == old(self).entries(),
            continuation_token@.len() == 0 ==> match lru_find(
                old(self).entries(),
                (connection_id@, bucket@, prefix@),
            ) {
                None => r is None && final(self).entries() == old(self).entries(),
                Some(i) => r matches Some((l, t)) && l@ == old(self).entries()[i].1.result && t@
                    == old(self).entries()[i].1.fetched_at && final(self).entries() == seq![
                    old(self).entries()[i]] + old(self).entries().remove(i),
            },
    {
        if chars_of(continuation_token).len() > 0 {
            return None;
        }
        let key = (
            string_of(&chars_of(connection_id)),
            string_of(&chars_of(bucket)),
            string_of(&chars_of(prefix)),
        );
        let ghost s = self.entries();
        let found = lru_get(&mut self.lru, &key);
        let out = match found {
            Some(c) => Some((copy_listing(&c.result), string_of(&chars_of(c.fetched_at.as_str())))),
            None => None,
        };
        proof {
            if let Some(i) = lru_find(s, key_view(key)) {
                lemma_front_keeps_distinct(s, i, s[i]);
            }
        }
        out
    }

    /// Keeps the first page of a listing as the most recently used; later
    /// pages are not kept.
    pub fn remember(
        &mut self,
        connection_id: &str,
        bucket: &str,
        prefix: &str,
        continuation_token: &str,
        result: &ListObjectsResult,
        fetched_at: &str,
    )
        requires
            old(self).wf(),
        ensures
            final(self).wf(),
            final(self).capacity() == old(self).capacity(),
            continuation_token@.len() > 0 ==> final(self).entries() == old(self).entries(),
            continuation_token@.len() == 0 ==> final(self).entries() == after_remember(
                old(self).entries(),
                ((connection_id@, bucket@, prefix@), CachedView { result: result@, fetched_at: fetched_at@ }),
                old(self).capacity(),
            ),
    {
        if chars_of(continuation_token).len() > 0 {
            return;
        }
        let key = (
            string_of(&chars_of(connection_id)),
            string_of(&chars_of(bucket)),
            string_of(&chars_of(prefix)),
        );
        let value = CachedListing { result: copy_listing(result), fetched_at: string_of(&chars_of(fetched_at)) };
        let ghost s = self.entries();
        let ghost e = (key_view(key), value@);
        let _ = lru_put(&mut self.lru, key, value);
        proof {
            match lru_find(s, e.0) {
                Some(i) => {
                    lemma_front_keeps_distinct(s, i, e);
                },
                None => {
                    if s.len() >= lru_cap(self.lru) {
                        lemma_push_front_distinct(s.drop_last(), e);
                    } else {
                        lemma_push_front_distinct(s, e);
                    }
                },
            }
        }
    }

    /// Drops the cached page of exactly this prefix.
    pub fn invalidate_exact(&mut self, connection_id: &str, bucket: &str, prefix: &str)
        requires
            old(self).wf(),
        ensures
            final(self).wf(),
            final(self).capacity() == old(self).capacity(),
            match lru_find(old(self).entries(), (connection_id@, bucket@, prefix@)) {
                None => final(self).entries() == old(self).entries(),
                Some(i) => final(self).entries() == old(self).entries().remove(i),
            },
    {
        let key = (
            string_of(&chars_of(connection_id)),
            string_of(&chars_of(bucket)),
            string_of(&chars_of(prefix)),
        );
        let ghost s = self.entries();
        let _ = lru_pop(&mut self.lru, &key);
        proof {
            if let Some(i) = lru_find(s, key_view(key)) {
                lemma_remove_keeps_distinct(s, i);
            }
        }
    }

    /// Drops every cached page of the connection and bucket whose prefix
    /// starts with `prefix`; the others keep their order.
    pub fn invalidate_under_prefix(&mut self, connection_id: &str, bucket: &str, prefix: &str)
        requires
            old(self).wf(),
        ensures
            final(self).wf(),
            final(self).capacity() == old(self).capacity(),
            final(self).entries() == outside(old(self).entries(), connection_id@, bucket@, prefix@),
    {
        let ghost s0 = self.entries();
        let keys = lru_keys(&self.lru);
        let c = chars_of(connection_id);
        let b = chars_of(bucket);
        let p = chars_of(prefix);
        let ghost mut popped: Set<(Seq<char>, Seq<char>, Seq<char>)> = Set::empty();
        assert(drop_keys(s0, popped) == s0) by {
            lemma_drop_keys_empty(s0);
        }
        let mut i: usize = 0;
        while i < keys.len()
            invariant
                i <= keys.len(),
                keys.len() == s0.len(),
                forall|k: int| 0 <= k < keys.len() ==> key_view(#[trigger] keys@[k]) == s0[k].0,
                keys_distinct(s0),
                c@ == connection_id@,
                b@ == bucket@,
                p@ == prefix@,
                self.wf(),
                self.capacity() == old(self).capacity(),
                s0 == old(self).entries(),
                self.entries() == drop_keys(s0, popped),
                forall|k: (Seq<char>, Seq<char>, Seq<char>)|
                    #[trigger] popped.contains(k) <==> (under(k, connection_id@, bucket@, prefix@) && exists|j: int|
                        0 <= j < i && s0[j].0 == k),
            decreases keys.len() - i,
        {
            let k = &keys[i];
            let hit = eq_chars(&chars_of(k.0.as_str()), &c) && eq_chars(&chars_of(k.1.as_str()), &b)
                && has_prefix(&chars_of(k.2.as_str()), &p);
            let ghost kv = key_view(*k);
            assert(kv == s0[i as int].0);
            if hit {
                proof {
                    assert(!popped.contains(kv)) by {
                        if popped.contains(kv) {
                            let j = choose|j: int| 0 <= j < i && s0[j].0 == kv;
                            assert(s0[j].0 != s0[i as int].0);
                        }
                    }
                    lemma_drop_keys_remove(s0, popped, kv);
                    lemma_remove_keeps_distinct(drop_keys(s0, popped), lru_find(drop_keys(s0, popped), kv)->0);
                }
                let _ = lru_pop(&mut self.lru, k);
                proof {
                    popped = popped.insert(kv);
                }
            }
            proof {
                assert forall|kk: (Seq<char>, Seq<char>, Seq<char>)|
                    #[trigger] popped.contains(kk) <==> (under(kk, connection_id@, bucket@, prefix@) && exists|j: int|
                        0 <= j < i + 1 && s0[j].0 == kk) by {
                    if under(kk, connection_id@, bucket@, prefix@) && exists|j: int| 0 <= j < i + 1 && s0[j].0 == kk {
                        let j = choose|j: int| 0 <= j < i + 1 && s0[j].0 == kk;
                        if j == i {
                            assert(hit);
                        }
                    }
                }
            }
            i += 1;
        }
        proof {
            assert forall|j: int| 0 <= j < s0.len() implies (popped.contains(#[trigger] s0[j].0) <==> under(
                s0[j].0,
                connection_id@,
                bucket@,
                prefix@,
            )) by {
                if under(s0[j].0, connection_id@, bucket@, prefix@) {
                    assert(0 <= j < keys.len() && s0[j].0 == s0[j].0);
                }
            }
            lemma_outside_is_drop_keys(s0, popped, connection_id@, bucket@, prefix@);
        }
    }
}

proof fn lemma_drop_keys_empty(s: Seq<Entry>)
    ensures
        drop_keys(s, Set::empty()) == s,
    decreases s.len(),
{
    if s.len() > 0 {
        lemma_drop_keys_empty(s.drop_last());
        assert(s.drop_last().push(s.last()) =~= s);
    }
}

proof fn lemma_remove_keeps_distinct(s: Seq<Entry>, i: int)
    requires
        keys_distinct(s),
        0 <= i < s.len(),
    ensures
        keys_distinct(s.remove(i)),
{
    let t = s.remove(i);
    assert forall|a: int, b: int| 0 <= a < b < t.len() implies t[a].0 != t[b].0 by {
        let aa = if a < i { a } else { a + 1 };
        let bb = if b < i { b } else { b + 1 };
        assert(t[a] == s[aa] && t[b] == s[bb]);
    }
}

proof fn lemma_front_keeps_distinct(s: Seq<Entry>, i: int, e: Entry)
    requires
        keys_distinct(s),
        0 <= i < s.len(),
        e.0 == s[i].0,
    ensures
        keys_distinct(seq![e] + s.remove(i)),
        (seq![e] + s.remove(i)).len() == s.len(),
{
    lemma_remove_keeps_distinct(s, i);
    let t = seq![e] + s.remove(i);
    let r = s.remove(i);
    assert forall|a: int, b: int| 0 <= a < b < t.len() implies t[a].0 != t[b].0 by {
        if a == 0 {
            let bb = if b - 1 < i { b - 1 } else { b };
            assert(t[b] == r[b - 1] && r[b - 1] == s[bb]);
        } else {
            assert(t[a] == r[a - 1] && t[b] == r[b - 1]);
        }
    }
}

proof fn lemma_push_front_distinct(s: Seq<Entry>, e: Entry)
    requires
        keys_distinct(s),
        forall|i: int| 0 <= i < s.len() ==> s[i].0 != e.0,
    ensures
        keys_distinct(seq![e] + s),
{
    let t = seq![e] + s;
    assert forall|a: int, b: int| 0 <= a < b < t.len() implies t[a].0 != t[b].0 by {
        if a == 0 {
            assert(t[b] == s[b - 1]);
        } else {
            assert(t[a] == s[a - 1] && t[b] == s[b - 1]);
        }
    }
}

} // verus!
