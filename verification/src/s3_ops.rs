use vstd::prelude::*;
use vstd::std_specs::hash::DefaultHasherAdditionalSpecFns;
use std::hash::Hasher;

use crate::error::PakerError;
use crate::index_query::{opt_str_view, str_views};
use crate::path_safety::{dot, dotdot, is_dot, is_dotdot, parse_path, path_comps, sanitize_spec, PathSafetyError};
use crate::plans::{obj_views, str_lt, IndexedObject, ObjView};
use crate::text::{
    chars_of, contains_char, decimal_int, i64_to_decimal, join, join_spec, push_all, push_str,
    replace, replace_spec, rfind, slice_of, starts_with, string_of, trim, trim_spec, views,
};

verus! {

/// Progress of one upload, download or copy.
pub struct TransferProgress {
    pub transfer_id: String,
    pub file_name: String,
    pub direction: String,
    pub bytes: u64,
    pub total: u64,
    pub status: String,
}

pub struct BucketInfo {
    pub name: String,
    pub creation_date: Option<String>,
}

/// An entry of a listing: an object, or a common prefix when `is_prefix`.
pub struct ObjectInfo {
    pub key: String,
    pub size: i64,
    pub last_modified: Option<String>,
    pub etag: Option<String>,
    pub storage_class: Option<String>,
    pub is_prefix: bool,
}

pub struct ListObjectsResult {
    pub objects: Vec<ObjectInfo>,
    pub common_prefixes: Vec<String>,
    pub continuation_token: Option<String>,
    pub is_truncated: bool,
}

pub struct PrefixSizeResult {
    pub prefix: String,
    pub object_count: u64,
    pub total_bytes: u64,
}

pub struct PrefixSizeProgress {
    pub prefix: String,
    pub object_count: u64,
    pub total_bytes: u64,
    pub done: bool,
    pub error: Option<String>,
}

pub struct BucketMetadata {
    pub name: String,
    pub creation_date: Option<String>,
    pub location: Option<String>,
    pub versioning: Option<String>,
    pub connection_name: Option<String>,
    pub endpoint: Option<String>,
    pub region: Option<String>,
    pub force_path_style: Option<bool>,
}

/// The head of an object; `metadata` holds its user metadata pairs.
pub struct ObjectHeadResult {
    pub key: String,
    pub content_type: Option<String>,
    pub content_length: Option<i64>,
    pub last_modified: Option<String>,
    pub etag: Option<String>,
    pub metadata: Vec<(String, String)>,
    pub storage_class: Option<String>,
}

pub struct CachedListResponse {
    pub result: ListObjectsResult,
    pub fetched_at: String,
}

pub struct ListObjectsResponse {
    pub result: ListObjectsResult,
    pub from_cache: bool,
    pub fetched_at: Option<String>,
}

pub struct ObjectHeadResponse {
    pub result: ObjectHeadResult,
    pub from_cache: bool,
    pub fetched_at: Option<String>,
}

/// A copy from one key to another.
pub struct CopyItem {
    pub src_key: String,
    pub dest_key: String,
}

/// A copy or move request for one object; without a destination key the
/// object keeps its file name under the destination prefix.
pub struct CopyMoveItem {
    pub src_key: String,
    pub dest_key: Option<String>,
}

/// The head that a listing entry already tells: its size as content length,
/// no content type and no user metadata.
pub fn object_info_to_head(obj: &ObjectInfo) -> (r: ObjectHeadResult)
    ensures
        r.key@ == obj.key@,
        r.content_type is None,
        r.content_length == Some(obj.size),
        opt_str_view(r.last_modified) == opt_str_view(obj.last_modified),
        opt_str_view(r.etag) == opt_str_view(obj.etag),
        r.metadata.len() == 0,
        opt_str_view(r.storage_class) == opt_str_view(obj.storage_class),
{
    ObjectHeadResult {
        key: string_of(&chars_of(obj.key.as_str())),
        content_type: None,
        content_length: Some(obj.size),
        last_modified: crate::plans::copy_opt(&obj.last_modified),
        etag: crate::plans::copy_opt(&obj.etag),
        metadata: Vec::new(),
        storage_class: crate::plans::copy_opt(&obj.storage_class),
    }
}

/// `h` is the head that [`object_info_to_head`] makes of `obj`.
pub open spec fn head_of(h: ObjectHeadResult, obj: ObjectInfo) -> bool {
    &&& h.key@ == obj.key@
    &&& h.content_type is None
    &&& h.content_length == Some(obj.size)
    &&& opt_str_view(h.last_modified) == opt_str_view(obj.last_modified)
    &&& opt_str_view(h.etag) == opt_str_view(obj.etag)
    &&& h.metadata.len() == 0
    &&& opt_str_view(h.storage_class) == opt_str_view(obj.storage_class)
}

/// The listed objects that stand for real objects: neither a common prefix
/// nor a key ending in `/`, in listing order.
pub open spec fn seedable(objs: Seq<ObjectInfo>) -> Seq<ObjectInfo>
    decreases objs.len(),
{
    if objs.len() == 0 {
        Seq::empty()
    } else {
        let rest = seedable(objs.drop_last());
        let o = objs.last();
        if o.is_prefix || (o.key@.len() > 0 && o.key@.last() == '/') {
            rest
        } else {
            rest.push(o)
        }
    }
}

/// The heads a listing already tells, one per real object listed, so that
/// they can be cached without asking the server.
pub fn heads_to_seed(listing: &ListObjectsResult) -> (r: Vec<ObjectHeadResult>)
    ensures
        r.len() == seedable(listing.objects@).len(),
        forall|i: int| 0 <= i < r.len() ==> head_of(#[trigger] r@[i], seedable(listing.objects@)[i]),
{
    let objs = &listing.objects;
    let mut out: Vec<ObjectHeadResult> = Vec::new();
    let mut i: usize = 0;
    while i < objs.len()
        invariant
            i <= objs.len(),
            out.len() == seedable(objs@.subrange(0, i as int)).len(),
            forall|k: int|
                0 <= k < out.len() ==> head_of(
                    #[trigger] out@[k],
                    seedable(objs@.subrange(0, i as int))[k],
                ),
        decreases objs.len() - i,
    {
        assert(objs@.subrange(0, i + 1).drop_last() =~= objs@.subrange(0, i as int));
        let o = &objs[i];
        let k = chars_of(o.key.as_str());
        let folder = k.len() > 0 && k[k.len() - 1] == '/';
        if !o.is_prefix && !folder {
            out.push(object_info_to_head(o));
        }
        i += 1;
    }
    assert(objs@.subrange(0, i as int) =~= objs@);
    out
}

/// A prefix ending in `/` (the empty prefix stays empty).
pub open spec fn normalize_prefix_spec(p: Seq<char>) -> Seq<char> {
    if p.len() == 0 || p.last() == '/' {
        p
    } else {
        p.push('/')
    }
}

/// A prefix ending in `/` (the empty prefix stays empty).
pub fn normalize_prefix(prefix: &str) -> (r: String)
    ensures
        r@ == normalize_prefix_spec(prefix@),
{
    let mut p = chars_of(prefix);
    if p.len() > 0 && p[p.len() - 1] != '/' {
        p.push('/');
    }
    string_of(&p)
}

/// The last component of a path, if it names a file or directory
/// (`Path::file_name`).
pub open spec fn file_name_spec(path: Seq<char>) -> Option<Seq<char>> {
    let c = path_comps(path);
    if c.len() == 0 || c.last() == dot() || c.last() == dotdot() {
        None
    } else {
        Some(c.last())
    }
}

/// The last component of a path, if it names a file or directory.
pub fn file_name_of(path: &str) -> (r: Option<String>)
    ensures
        match r {
            Some(n) => file_name_spec(path@) == Some(n@),
            None => file_name_spec(path@) is None,
        },
{
    let p = chars_of(path);
    let comps = parse_path(&p);
    if comps.len() == 0 {
        return None;
    }
    let last = &comps[comps.len() - 1];
    assert(last@ == views(comps@).last());
    if is_dot(last) || is_dotdot(last) {
        None
    } else {
        Some(string_of(&slice_of(last, 0, last.len())))
    }
}

fn file_name_or_self(path: &str) -> (r: Vec<char>)
    ensures
        r@ == match file_name_spec(path@) {
            Some(n) => n,
            None => path@,
        },
{
    let p = chars_of(path);
    let comps = parse_path(&p);
    if comps.len() == 0 {
        return p;
    }
    let last = &comps[comps.len() - 1];
    assert(last@ == views(comps@).last());
    if is_dot(last) || is_dotdot(last) {
        p
    } else {
        slice_of(last, 0, last.len())
    }
}

/// The key for uploading `file_name` under `prefix`: its file name appended
/// to the prefix, with a `/` between them when the prefix lacks one.
pub open spec fn join_prefix_spec(prefix: Seq<char>, file_name: Seq<char>) -> Seq<char> {
    normalize_prefix_spec(prefix) + match file_name_spec(file_name) {
        Some(n) => n,
        None => file_name,
    }
}

/// The key for uploading `file_name` under `prefix`.
pub fn join_prefix(prefix: &str, file_name: &str) -> (r: String)
    ensures
        r@ == join_prefix_spec(prefix@, file_name@),
{
    let mut key = chars_of(normalize_prefix(prefix).as_str());
    push_all(&mut key, &file_name_or_self(file_name));
    string_of(&key)
}

/// Where to save an object locally (see [`crate::path_safety::local_dest_path`]).
pub fn local_dest_path(save_dir: &str, key: &str) -> (r: Result<String, PathSafetyError>)
    ensures
        match r {
            Ok(p) => sanitize_spec(save_dir@, key@) == Ok::<Seq<char>, PathSafetyError>(p@),
            Err(e) => sanitize_spec(save_dir@, key@) == Err::<Seq<char>, PathSafetyError>(e),
        },
{
    crate::path_safety::local_dest_path(save_dir, key)
}

/// The file that remembers the ETag of a cached preview.
pub fn preview_etag_sidecar(dest: &str) -> (r: String)
    ensures
        r@ == dest@ + ".etag"@,
{
    let mut p = chars_of(dest);
    push_str(&mut p, ".etag");
    string_of(&p)
}

/// Whether an endpoint URL, once trimmed, is non-empty and uses HTTPS.
pub open spec fn uses_https(endpoint: Option<Seq<char>>) -> bool {
    match endpoint {
        Some(e) => trim_spec(e).len() > 0 && starts_with(trim_spec(e), "https://"@),
        None => false,
    }
}

/// Whether the endpoint URL uses HTTPS.
pub fn endpoint_uses_https(endpoint: Option<&str>) -> (b: bool)
    ensures
        b == uses_https(crate::policy::str_opt(endpoint)),
{
    match endpoint {
        None => false,
        Some(e) => {
            let t = trim(&chars_of(e));
            t.len() > 0 && crate::text::has_prefix(&t, &chars_of("https://"))
        },
    }
}

/// The listing prefix that holds a key: everything up to its last `/`
/// (nothing for a key without one, or whose only `/` leads).
pub open spec fn parent_prefix_spec(key: Seq<char>) -> Seq<char> {
    if exists|i: int| 0 < i < key.len() && key[i] == '/' {
        let i = choose|i: int|
            0 < i < key.len() && key[i] == '/' && forall|j: int| i < j < key.len() ==> key[j] != '/';
        key.subrange(0, i + 1)
    } else {
        Seq::empty()
    }
}

/// The listing prefix that holds a key.
pub fn parent_prefix_from_key(key: &str) -> (r: String)
    ensures
        r@ == parent_prefix_spec(key@),
{
    let k = chars_of(key);
    let slash = vec!['/'];
    assert(slash@ =~= seq!['/']);
    match rfind(&k, &slash) {
        None => {
            proof {
                assert forall|i: int| 0 < i < k@.len() implies k@[i] != '/' by {
                    if k@[i] == '/' {
                        assert(k@.subrange(i, i + 1) =~= seq!['/']);
                        assert(crate::text::occurs_at(k@, seq!['/'], i));
                    }
                }
            }
            string_of(&Vec::new())
        },
        Some(i) => {
            assert(i + 1 <= k.len());
            assert(k@.subrange(i as int, i + 1)[0] == k@[i as int]);
            if i == 0 {
                proof {
                    assert forall|j: int| 0 < j < k@.len() implies k@[j] != '/' by {
                        if k@[j] == '/' {
                            assert(k@.subrange(j, j + 1) =~= seq!['/']);
                            assert(crate::text::occurs_at(k@, slash@, j));
                        }
                    }
                }
                string_of(&Vec::new())
            } else {
                proof {
                    assert forall|j: int| i < j < k@.len() implies k@[j] != '/' by {
                        if k@[j] == '/' {
                            assert(k@.subrange(j, j + 1) =~= seq!['/']);
                            assert(crate::text::occurs_at(k@, slash@, j));
                        }
                    }
                    let c = choose|c: int|
                        0 < c < k@.len() && k@[c] == '/' && forall|j: int|
                            c < j < k@.len() ==> k@[j] != '/';
                    assert(c == i);
                }
                string_of(&slice_of(&k, 0, i + 1))
            }
        },
    }
}

/// The destination key of a copy or move: the given key, else the source's
/// file name under the (non-empty) destination prefix, else the file name.
pub open spec fn dest_key_spec(src: Seq<char>, dest: Option<Seq<char>>, prefix: Option<Seq<char>>) -> Seq<char> {
    let name = match file_name_spec(src) {
        Some(n) => n,
        None => src,
    };
    match dest {
        Some(k) => k,
        None => match prefix {
            Some(p) => if p.len() > 0 {
                normalize_prefix_spec(p) + name
            } else {
                name
            },
            None => name,
        },
    }
}

/// The destination key of a copy or move.
pub fn resolve_dest_key(src_key: &str, dest_key: Option<&str>, dest_prefix: Option<&str>) -> (r: String)
    ensures
        r@ == dest_key_spec(src_key@, crate::policy::str_opt(dest_key), crate::policy::str_opt(dest_prefix)),
{
    match dest_key {
        Some(k) => string_of(&chars_of(k)),
        None => {
            let name = file_name_or_self(src_key);
            match dest_prefix {
                Some(p) => {
                    if chars_of(p).len() > 0 {
                        let mut key = chars_of(normalize_prefix(p).as_str());
                        push_all(&mut key, &name);
                        string_of(&key)
                    } else {
                        string_of(&name)
                    }
                },
                None => string_of(&name),
            }
        },
    }
}

/// The copies that copy or move requests stand for, in order.
pub fn resolve_items(items: Vec<CopyMoveItem>, dest_prefix: Option<&str>) -> (r: Vec<CopyItem>)
    ensures
        r.len() == items.len(),
        forall|i: int|
            0 <= i < items.len() ==> #[trigger] r@[i].src_key@ == items@[i].src_key@ && r@[i].dest_key@
                == dest_key_spec(
                items@[i].src_key@,
                opt_str_view(items@[i].dest_key),
                crate::policy::str_opt(dest_prefix),
            ),
{
    let mut r: Vec<CopyItem> = Vec::new();
    let mut i: usize = 0;
    while i < items.len()
        invariant
            i <= items.len(),
            r.len() == i,
            forall|j: int|
                0 <= j < i ==> #[trigger] r@[j].src_key@ == items@[j].src_key@ && r@[j].dest_key@
                    == dest_key_spec(
                    items@[j].src_key@,
                    opt_str_view(items@[j].dest_key),
                    crate::policy::str_opt(dest_prefix),
                ),
        decreases items.len() - i,
    {
        let item = &items[i];
        let dest = match &item.dest_key {
            Some(k) => resolve_dest_key(item.src_key.as_str(), Some(k.as_str()), dest_prefix),
            None => resolve_dest_key(item.src_key.as_str(), None, dest_prefix),
        };
        let ghost before = r@;
        r.push(CopyItem { src_key: string_of(&chars_of(item.src_key.as_str())), dest_key: dest });
        assert(forall|j: int| 0 <= j < i ==> r@[j] == before[j]);
        assert(r@[i as int].dest_key@ == dest_key_spec(
            items@[i as int].src_key@,
            opt_str_view(items@[i as int].dest_key),
            crate::policy::str_opt(dest_prefix),
        ));
        i += 1;
    }
    r
}

/// The prefix whose listing shows `prefix` as an entry: `None` for the
/// root, else everything up to the `/` before its last segment.
pub open spec fn parent_listing_spec(prefix: Seq<char>) -> Option<Seq<char>> {
    if prefix.len() == 0 {
        None
    } else {
        let w = if prefix.last() == '/' {
            prefix.drop_last()
        } else {
            prefix
        };
        Some(parent_prefix_spec(w))
    }
}

/// The prefix whose listing shows `prefix` as an entry.
pub fn parent_listing_prefix(prefix: &str) -> (r: Option<String>)
    ensures
        crate::rule_parser::str_opt_view(r) == parent_listing_spec(prefix@),
{
    let p = chars_of(prefix);
    if p.len() == 0 {
        return None;
    }
    let w = if p[p.len() - 1] == '/' {
        slice_of(&p, 0, p.len() - 1)
    } else {
        p
    };
    assert(p@.last() == '/' ==> w@ =~= p@.drop_last());
    Some(parent_prefix_from_key(string_of(&w).as_str()))
}

/// The SQL `LIKE` pattern of the keys under a prefix.
pub fn prefix_like_pattern(prefix: &str) -> (r: String)
    ensures
        r@ == prefix@ + "%"@,
{
    let mut p = chars_of(prefix);
    push_str(&mut p, "%");
    string_of(&p)
}

/// The bucket-index job of a bucket.
pub fn bucket_index_job_id(connection_id: &str, bucket: &str) -> (r: String)
    ensures
        r@ == "index:"@ + connection_id@ + ":"@ + bucket@,
{
    let mut p = chars_of("index:");
    push_str(&mut p, connection_id);
    push_str(&mut p, ":");
    push_str(&mut p, bucket);
    string_of(&p)
}

/// A CSV field: quoted, with quotes doubled, when it holds a comma, a quote
/// or a newline.
pub open spec fn csv_escape_spec(v: Seq<char>) -> Seq<char> {
    if v.contains(',') || v.contains('"') || v.contains('\n') {
        seq!['"'] + replace_spec(v, seq!['"'], seq!['"', '"']) + seq!['"']
    } else {
        v
    }
}

/// A CSV field.
pub fn csv_escape(value: &str) -> (r: String)
    ensures
        r@ == csv_escape_spec(value@),
{
    let v = chars_of(value);
    if contains_char(&v, ',') || contains_char(&v, '"') || contains_char(&v, '\n') {
        let q = vec!['"'];
        let qq = vec!['"', '"'];
        assert(q@ =~= seq!['"']);
        assert(qq@ =~= seq!['"', '"']);
        let mut out = vec!['"'];
        push_all(&mut out, &replace(&v, &q, &qq));
        out.push('"');
        assert(out@ =~= seq!['"'] + replace_spec(v@, seq!['"'], seq!['"', '"']) + seq!['"']);
        string_of(&out)
    } else {
        string_of(&v)
    }
}

/// The prefixes holding some keys, sorted, each once.
pub open spec fn sorted_distinct(v: Seq<Seq<char>>) -> bool {
    forall|i: int, j: int| 0 <= i < j < v.len() ==> str_lt(v[i], v[j])
}

/// The listing prefixes that hold the keys: sorted, each once.
pub fn prefixes_for_keys(keys: &Vec<String>) -> (r: Vec<String>)
    ensures
        sorted_distinct(str_views(r@)),
        forall|p: Seq<char>|
            str_views(r@).contains(p) <==> exists|i: int|
                0 <= i < keys.len() && p == parent_prefix_spec(#[trigger] keys@[i]@),
{
    let mut out: Vec<Vec<char>> = Vec::new();
    let mut i: usize = 0;
    while i < keys.len()
        invariant
            i <= keys.len(),
            sorted_distinct(views(out@)),
            forall|p: Seq<char>|
                views(out@).contains(p) <==> exists|j: int|
                    0 <= j < i && p == parent_prefix_spec(#[trigger] keys@[j]@),
        decreases keys.len() - i,
    {
        let p = chars_of(parent_prefix_from_key(keys[i].as_str()).as_str());
        let ghost before = views(out@);
        insert_sorted(&mut out, p);
        assert forall|q: Seq<char>| views(out@).contains(q) <==> exists|j: int|
            0 <= j < i + 1 && q == parent_prefix_spec(#[trigger] keys@[j]@) by {
            if views(out@).contains(q) && q != parent_prefix_spec(keys@[i as int]@) {
                assert(before.contains(q));
                let j = choose|j: int| 0 <= j < i && q == parent_prefix_spec(#[trigger] keys@[j]@);
                assert(0 <= j < i + 1 && q == parent_prefix_spec(keys@[j]@));
            }
            if exists|j: int| 0 <= j < i + 1 && q == parent_prefix_spec(#[trigger] keys@[j]@) {
                let j = choose|j: int| 0 <= j < i + 1 && q == parent_prefix_spec(#[trigger] keys@[j]@);
                if j < i {
                    assert(before.contains(q));
                }
            }
        }
        i += 1;
    }
    let mut r: Vec<String> = Vec::new();
    let mut k: usize = 0;
    while k < out.len()
        invariant
            k <= out.len(),
            str_views(r@) =~= views(out@).subrange(0, k as int),
        decreases out.len() - k,
    {
        let ghost before = str_views(r@);
        r.push(string_of(&out[k]));
        assert(str_views(r@) =~= before.push(views(out@)[k as int]));
        k += 1;
    }
    assert(views(out@).subrange(0, k as int) =~= views(out@));
    r
}

pub proof fn lemma_str_lt_irreflexive(a: Seq<char>)
    ensures
        !str_lt(a, a),
    decreases a.len(),
{
    if a.len() > 0 {
        lemma_str_lt_irreflexive(a.subrange(1, a.len() as int));
    }
}

pub proof fn lemma_str_lt_total(a: Seq<char>, b: Seq<char>)
    ensures
        a == b || str_lt(a, b) || str_lt(b, a),
    decreases a.len(),
{
    if a.len() > 0 && b.len() > 0 && a[0] == b[0] {
        lemma_str_lt_total(a.subrange(1, a.len() as int), b.subrange(1, b.len() as int));
        if a.subrange(1, a.len() as int) == b.subrange(1, b.len() as int) {
            assert(a =~= seq![a[0]] + a.subrange(1, a.len() as int));
            assert(b =~= seq![b[0]] + b.subrange(1, b.len() as int));
        }
    } else if a.len() == 0 && b.len() == 0 {
        assert(a =~= b);
    }
}

pub proof fn lemma_str_lt_trans(a: Seq<char>, b: Seq<char>, c: Seq<char>)
    requires
        str_lt(a, b),
        str_lt(b, c),
    ensures
        str_lt(a, c),
    decreases a.len(),
{
    if a.len() > 0 && b.len() > 0 && c.len() > 0 && a[0] == b[0] && b[0] == c[0] {
        lemma_str_lt_trans(
            a.subrange(1, a.len() as int),
            b.subrange(1, b.len() as int),
            c.subrange(1, c.len() as int),
        );
    }
}

fn insert_sorted(out: &mut Vec<Vec<char>>, p: Vec<char>)
    requires
        sorted_distinct(views(old(out)@)),
    ensures
        sorted_distinct(views(final(out)@)),
        forall|q: Seq<char>|
            views(final(out)@).contains(q) <==> (views(old(out)@).contains(q) || q == p@),
{
    let ghost before = views(out@);
    let mut i: usize = 0;
    while i < out.len() && crate::plans::less_than(&out[i], &p)
        invariant
            i <= out.len(),
            out@ == old(out)@,
            before == views(old(out)@),
            sorted_distinct(before),
            forall|j: int| 0 <= j < i ==> str_lt(before[j], p@),
        decreases out.len() - i,
    {
        i += 1;
    }
    if i < out.len() && crate::text::eq_chars(&out[i], &p) {
        assert(before[i as int] == p@);
        return;
    }
    proof {
        if i < out.len() {
            lemma_str_lt_total(before[i as int], p@);
        }
    }
    out.insert(i, p);
    proof {
        let after = views(out@);
        assert(after =~= before.subrange(0, i as int).push(p@) + before.subrange(
            i as int,
            before.len() as int,
        ));
        assert forall|a: int, b: int| 0 <= a < b < after.len() implies str_lt(after[a], after[b]) by {
            if b < i {
            } else if b == i {
                assert(str_lt(before[a], p@));
            } else if a < i {
                assert(after[b] == before[b - 1]);
                if b - 1 > i {
                    lemma_str_lt_trans(before[a], before[i as int], before[b - 1]);
                }
                lemma_str_lt_trans(before[a], p@, before[i as int]);
                if b - 1 > i {
                    lemma_str_lt_trans(before[a], before[i as int], before[b - 1]);
                }
            } else if a == i {
                assert(after[b] == before[b - 1]);
                if b - 1 > i {
                    lemma_str_lt_trans(p@, before[i as int], before[b - 1]);
                }
            } else {
                assert(after[a] == before[a - 1]);
                assert(after[b] == before[b - 1]);
            }
        }
        assert forall|q: Seq<char>| after.contains(q) <==> (before.contains(q) || q == p@) by {
            if after.contains(q) {
                let w = choose|w: int| 0 <= w < after.len() && after[w] == q;
                if w < i {
                    assert(before[w] == q);
                } else if w > i {
                    assert(before[w - 1] == q);
                }
            }
            if before.contains(q) {
                let w = choose|w: int| 0 <= w < before.len() && before[w] == q;
                if w < i {
                    assert(after[w] == q);
                } else {
                    assert(after[w + 1] == q);
                }
            }
            if q == p@ {
                assert(after[i as int] == q);
            }
        }
    }
}

/// How a pack of selected keys is exported.
#[derive(Debug, Clone, Copy, PartialEq, Eq, Structural)]
pub enum ExportFormat {
    Csv,
    Json,
    Clipboard,
}

/// The JSON text of a list of strings as `serde_json::to_string_pretty`
/// writes it: `[]` when empty, else each string quoted on a line of its
/// own, indented by two spaces, the lines joined by `,` and the brackets on
/// lines of their own.
pub open spec fn json_pretty_spec(v: Seq<Seq<char>>) -> Seq<char> {
    if v.len() == 0 {
        "[]"@
    } else {
        "[\n"@ + join_spec(
            Seq::new(v.len(), |i: int| "  "@ + crate::secrets::json_quote(v[i])),
            ",\n"@,
        ) + "\n]"@
    }
}

/// The pretty JSON text of a list of strings (see [`json_pretty_spec`]).
fn json_pretty(v: &Vec<String>) -> (r: String)
    ensures
        r@ == json_pretty_spec(str_views(v@)),
{
    if v.len() == 0 {
        return string_of(&chars_of("[]"));
    }
    let mut lines: Vec<Vec<char>> = Vec::new();
    let mut i: usize = 0;
    while i < v.len()
        invariant
            i <= v.len(),
            lines.len() == i,
            forall|j: int|
                0 <= j < i ==> #[trigger] lines@[j]@ == "  "@ + crate::secrets::json_quote(
                    v@[j]@,
                ),
        decreases v.len() - i,
    {
        let mut line = chars_of("  ");
        push_str(&mut line, crate::secrets::json_string(v[i].as_str()).as_str());
        lines.push(line);
        i += 1;
    }
    let mut out = chars_of("[\n");
    let body = join(&lines, &chars_of(",\n"));
    push_all(&mut out, &body);
    push_str(&mut out, "\n]");
    proof {
        let want = Seq::new(v.len() as nat, |k: int| "  "@ + crate::secrets::json_quote(str_views(v@)[k]));
        assert(views(lines@) =~= want);
    }
    string_of(&out)
}

pub open spec fn or_blank(o: Option<Seq<char>>) -> Seq<char> {
    match o {
        Some(s) => s,
        None => Seq::empty(),
    }
}

/// One CSV row of an indexed object.
pub open spec fn csv_row(o: ObjView) -> Seq<char> {
    csv_escape_spec(o.key) + ","@ + decimal_int(o.size as int) + ","@ + csv_escape_spec(
        or_blank(o.last_modified),
    ) + ","@ + csv_escape_spec(or_blank(o.storage_class)) + "\n"@
}

pub open spec fn csv_rows(s: Seq<ObjView>) -> Seq<char>
    decreases s.len(),
{
    if s.len() == 0 {
        Seq::empty()
    } else {
        csv_rows(s.drop_last()) + csv_row(s.last())
    }
}

pub open spec fn indexed(s: Seq<ObjView>, k: Seq<char>) -> bool {
    exists|i: int| 0 <= i < s.len() && s[i].key == k
}

/// Rows for the selected keys that the index does not know.
pub open spec fn csv_missing(s: Seq<ObjView>, keys: Seq<Seq<char>>) -> Seq<char>
    decreases keys.len(),
{
    if keys.len() == 0 {
        Seq::empty()
    } else {
        csv_missing(s, keys.drop_last()) + if indexed(s, keys.last()) {
            Seq::empty()
        } else {
            csv_escape_spec(keys.last()) + ",,,\n"@
        }
    }
}

/// The exported text: the keys one per line for the clipboard, their JSON
/// list, or a CSV of the indexed objects followed by the unknown keys.
pub open spec fn export_spec(s: Seq<ObjView>, keys: Seq<Seq<char>>, format: ExportFormat) -> Seq<char> {
    match format {
        ExportFormat::Clipboard => join_spec(keys, "\n"@),
        ExportFormat::Json => json_pretty_spec(keys),
        ExportFormat::Csv => "key,size,last_modified,storage_class\n"@ + csv_rows(s) + csv_missing(
            s,
            keys,
        ),
    }
}

fn is_indexed(objects: &Vec<IndexedObject>, k: &str) -> (b: bool)
    ensures
        b == indexed(obj_views(objects@), k@),
{
    let target = chars_of(k);
    let mut i: usize = 0;
    while i < objects.len()
        invariant
            i <= objects.len(),
            target@ == k@,
            forall|j: int| 0 <= j < i ==> obj_views(objects@)[j].key != k@,
        decreases objects.len() - i,
    {
        if crate::text::eq_chars(&chars_of(objects[i].key.as_str()), &target) {
            assert(obj_views(objects@)[i as int].key == k@);
            return true;
        }
        i += 1;
    }
    false
}

fn blank_or(o: &Option<String>) -> (r: String)
    ensures
        r@ == or_blank(opt_str_view(*o)),
{
    match o {
        Some(s) => string_of(&chars_of(s.as_str())),
        None => string_of(&Vec::new()),
    }
}

/// The text of an export of selected keys.
#[verifier::spinoff_prover]
#[verifier::rlimit(30)]
pub fn build_export_content(
    objects: &Vec<IndexedObject>,
    keys_only: &Vec<String>,
    format: ExportFormat,
) -> (r: String)
    ensures
        r@ == export_spec(obj_views(objects@), str_views(keys_only@), format),
{
    match format {
        ExportFormat::Clipboard => {
            let mut parts: Vec<Vec<char>> = Vec::new();
            let mut i: usize = 0;
            while i < keys_only.len()
                invariant
                    i <= keys_only.len(),
                    views(parts@) =~= str_views(keys_only@).subrange(0, i as int),
                decreases keys_only.len() - i,
            {
                let ghost before = views(parts@);
                parts.push(chars_of(keys_only[i].as_str()));
                assert(views(parts@) =~= before.push(keys_only@[i as int]@));
                i += 1;
            }
            assert(str_views(keys_only@).subrange(0, i as int) =~= str_views(keys_only@));
            string_of(&join(&parts, &chars_of("\n")))
        },
        ExportFormat::Json => json_pretty(keys_only),
        ExportFormat::Csv => {
            let ghost s = obj_views(objects@);
            let mut csv = chars_of("key,size,last_modified,storage_class\n");
            let ghost head = csv@;
            let mut i: usize = 0;
            while i < objects.len()
                invariant
                    i <= objects.len(),
                    s == obj_views(objects@),
                    head == "key,size,last_modified,storage_class\n"@,
                    csv@ == head + csv_rows(s.subrange(0, i as int)),
                decreases objects.len() - i,
            {
                let o = &objects[i];
                assert(s.subrange(0, i + 1).drop_last() =~= s.subrange(0, i as int));
                push_str(&mut csv, csv_escape(o.key.as_str()).as_str());
                push_str(&mut csv, ",");
                push_all(&mut csv, &i64_to_decimal(o.size));
                push_str(&mut csv, ",");
                push_str(&mut csv, csv_escape(blank_or(&o.last_modified).as_str()).as_str());
                push_str(&mut csv, ",");
                push_str(&mut csv, csv_escape(blank_or(&o.storage_class).as_str()).as_str());
                push_str(&mut csv, "\n");
                assert(csv@ =~= head + csv_rows(s.subrange(0, i + 1)));
                i += 1;
            }
            assert(s.subrange(0, i as int) =~= s);
            let ghost ks = str_views(keys_only@);
            let mut k: usize = 0;
            while k < keys_only.len()
                invariant
                    k <= keys_only.len(),
                    s == obj_views(objects@),
                    ks == str_views(keys_only@),
                    csv@ == head + csv_rows(s) + csv_missing(s, ks.subrange(0, k as int)),
                decreases keys_only.len() - k,
            {
                assert(ks.subrange(0, k + 1).drop_last() =~= ks.subrange(0, k as int));
                let key = keys_only[k].as_str();
                if !is_indexed(objects, key) {
                    push_str(&mut csv, csv_escape(key).as_str());
                    push_str(&mut csv, ",,,\n");
                }
                assert(csv@ =~= head + csv_rows(s) + csv_missing(s, ks.subrange(0, k + 1)));
                k += 1;
            }
            assert(ks.subrange(0, k as int) =~= ks);
            string_of(&csv)
        },
    }
}

/// The position of the first failed outcome, if any.
pub open spec fn first_failure(outcomes: Seq<Result<String, PakerError>>) -> Option<int> {
    if exists|i: int| 0 <= i < outcomes.len() && outcomes[i] is Err {
        Some(
            choose|i: int|
                0 <= i < outcomes.len() && outcomes[i] is Err && forall|j: int|
                    0 <= j < i ==> outcomes[j] is Ok,
        )
    } else {
        None
    }
}

/// The outcomes of a batch of transfers, in the order they finished (a task
/// that could not be joined counts as an internal error): the first error,
/// else every value in order.
pub fn collect_results(outcomes: Vec<Result<String, PakerError>>) -> (r: Result<Vec<String>, PakerError>)
    ensures
        match first_failure(outcomes@) {
            Some(i) => r matches Err(e) && outcomes@[i] == Err::<String, PakerError>(e),
            None => r matches Ok(v) && v.len() == outcomes.len() && forall|k: int|
                0 <= k < v.len() ==> outcomes@[k] == Ok::<String, PakerError>(#[trigger] v@[k]),
        },
{
    let ghost all = outcomes@;
    let n = outcomes.len();
    let mut rest = outcomes;
    let mut values: Vec<String> = Vec::new();
    let mut i: usize = 0;
    while i < n
        invariant
            i <= n,
            n == all.len(),
            all == outcomes@,
            rest@ == all.subrange(i as int, n as int),
            values.len() == i,
            forall|k: int| 0 <= k < i ==> all[k] == Ok::<String, PakerError>(#[trigger] values@[k]),
        decreases n - i,
    {
        let o = rest.remove(0);
        assert(o == all[i as int]);
        assert(rest@ =~= all.subrange(i + 1, n as int));
        match o {
            Ok(v) => {
                values.push(v);
            },
            Err(e) => {
                proof {
                    assert forall|j: int| 0 <= j < i implies all[j] is Ok by {
                        assert(all[j] == Ok::<String, PakerError>(values@[j]));
                    }
                    assert(all[i as int] == Err::<String, PakerError>(e));
                    let k = choose|k: int|
                        0 <= k < all.len() && all[k] is Err && forall|j: int|
                            0 <= j < k ==> all[j] is Ok;
                    assert(k == i) by {
                        if k < i {
                            assert(all[k] == Ok::<String, PakerError>(values@[k]));
                        }
                        if k > i {
                            assert(all[i as int] is Ok);
                        }
                    }
                }
                return Err(e);
            },
        }
        i += 1;
    }
    proof {
        assert forall|k: int| 0 <= k < all.len() implies !(all[k] is Err) by {
            assert(all[k] == Ok::<String, PakerError>(values@[k]));
        }
    }
    Ok(values)
}

/// What a `DefaultHasher::new()` fed `bucket` then `key` with `Hash::hash`
/// finishes with.  Hashing a `str` writes its UTF-8 bytes and then the byte
/// `0xff`, so the hasher sees these four writes.
pub open spec fn preview_hash(bucket: Seq<char>, key: Seq<char>) -> u64 {
    std::collections::hash_map::DefaultHasher::spec_finish(
        seq![
            vstd::utf8::encode_utf8(bucket),
            seq![0xffu8],
            vstd::utf8::encode_utf8(key),
            seq![0xffu8],
        ],
    )
}

/// The hash of a bucket and key, as `Hash::hash` of each into one
/// `DefaultHasher::new()`.
fn hash_bucket_key(bucket: &str, key: &str) -> (r: u64)
    ensures
        r == preview_hash(bucket@, key@),
{
    let mut hasher = std::collections::hash_map::DefaultHasher::new();
    let end: [u8; 1] = [0xff];
    hasher.write(bucket.as_bytes());
    hasher.write(&end);
    hasher.write(key.as_bytes());
    hasher.write(&end);
    let r = hasher.finish();
    proof {
        assert(end@ =~= seq![0xffu8]);
        assert(hasher@ =~= seq![
            vstd::utf8::encode_utf8(bucket@),
            seq![0xffu8],
            vstd::utf8::encode_utf8(key@),
            seq![0xffu8],
        ]);
    }
    r
}

/// The last position of `c` in `s`, or -1 where it does not occur.
pub open spec fn last_index_of(s: Seq<char>, c: char) -> int
    decreases s.len(),
{
    if s.len() == 0 {
        -1
    } else if s.last() == c {
        s.len() - 1
    } else {
        last_index_of(s.drop_last(), c)
    }
}

/// What `Path::extension` gives for a key read as a path: the part of its
/// file name after the last `.`, where that `.` is not the name's first
/// character (`Path::extension`).
pub open spec fn path_extension(key: Seq<char>) -> Option<Seq<char>> {
    match file_name_spec(key) {
        None => None,
        Some(n) => {
            let i = last_index_of(n, '.');
            if i <= 0 {
                None
            } else {
                Some(n.subrange(i + 1, n.len() as int))
            }
        },
    }
}

proof fn lemma_last_index_prefix(s: Seq<char>, c: char, i: int)
    requires
        0 <= i <= s.len(),
        forall|j: int| i <= j < s.len() ==> s[j] != c,
    ensures
        last_index_of(s, c) == last_index_of(s.subrange(0, i), c),
    decreases s.len(),
{
    if i < s.len() {
        assert(s.last() != c);
        assert(s.drop_last().subrange(0, i) =~= s.subrange(0, i));
        lemma_last_index_prefix(s.drop_last(), c, i);
    } else {
        assert(s.subrange(0, i) =~= s);
    }
}

/// The extension of a key read as a path (see [`path_extension`]).
fn key_extension(key: &str) -> (r: Option<String>)
    ensures
        crate::rule_parser::str_opt_view(r) == path_extension(key@),
{
    let name = match file_name_of(key) {
        None => {
            return None;
        },
        Some(n) => n,
    };
    let v = chars_of(name.as_str());
    let mut i: usize = v.len();
    while i > 0 && v[i - 1] != '.'
        invariant
            i <= v.len(),
            forall|j: int| i <= j < v.len() ==> v@[j] != '.',
        decreases i,
    {
        i = i - 1;
    }
    proof {
        lemma_last_index_prefix(v@, '.', i as int);
        if i > 0 {
            assert(v@.subrange(0, i as int).last() == '.');
        } else {
            assert(v@.subrange(0, 0) =~= Seq::<char>::empty());
        }
    }
    if i <= 1 {
        None
    } else {
        Some(string_of(&slice_of(&v, i, v.len())))
    }
}

/// The name a previewed object is cached under: the hex hash of its bucket
/// and key, with the key's extension when it has a non-empty one.
pub open spec fn preview_file_name(bucket: Seq<char>, key: Seq<char>) -> Seq<char> {
    let h = crate::text::hex(preview_hash(bucket, key) as nat);
    match path_extension(key) {
        Some(e) => if e.len() > 0 {
            h + "."@ + e
        } else {
            h
        },
        None => h,
    }
}

/// The cache file name of a previewed object (see [`preview_file_name`]).
pub fn preview_cache_file_name(bucket: &str, key: &str) -> (r: String)
    ensures
        r@ == preview_file_name(bucket@, key@),
{
    let h = hash_bucket_key(bucket, key);
    let mut out = crate::text::u64_to_hex(h);
    match key_extension(key) {
        Some(e) => {
            let ev = chars_of(e.as_str());
            if ev.len() > 0 {
                out.push('.');
                push_all(&mut out, &ev);
                proof {
                    reveal_strlit(".");
                }
            }
        },
        None => {},
    }
    string_of(&out)
}

} // verus!
