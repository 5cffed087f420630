use vstd::prelude::*;

use crate::text::{chars_of, parse_u64, parse_u64_spec, push_str, slice_of, string_of, views};

verus! {

/// What the update check reports.
pub struct UpdateInfo {
    pub current_version: String,
    pub latest_version: String,
    pub update_available: bool,
    pub release_url: String,
    pub release_name: String,
}

/// The `User-Agent` of update requests.
pub fn user_agent(version: &str) -> (r: String)
    ensures
        r@ == "Paker/"@ + version@,
{
    let mut s = chars_of("Paker/");
    push_str(&mut s, version);
    string_of(&s)
}

/// The report when no newer release is known: the current version on both
/// sides, no release.
pub fn no_update_info(version: &str) -> (r: UpdateInfo)
    ensures
        r.current_version@ == version@,
        r.latest_version@ == version@,
        !r.update_available,
        r.release_url@.len() == 0,
        r.release_name@.len() == 0,
{
    UpdateInfo {
        current_version: string_of(&chars_of(version)),
        latest_version: string_of(&chars_of(version)),
        update_available: false,
        release_url: string_of(&Vec::new()),
        release_name: string_of(&Vec::new()),
    }
}

/// A release tag without one leading `v` or `V`.
pub open spec fn strip_v_spec(tag: Seq<char>) -> Seq<char> {
    if tag.len() > 0 && (tag[0] == 'v' || tag[0] == 'V') {
        tag.subrange(1, tag.len() as int)
    } else {
        tag
    }
}

/// A release tag without one leading `v` or `V`.
pub fn strip_version_prefix(tag: &str) -> (r: String)
    ensures
        r@ == strip_v_spec(tag@),
{
    let t = chars_of(tag);
    if t.len() > 0 && (t[0] == 'v' || t[0] == 'V') {
        string_of(&slice_of(&t, 1, t.len()))
    } else {
        string_of(&t)
    }
}

pub open spec fn is_vsep(c: char) -> bool {
    c == '.' || c == '-' || c == '+'
}

/// The pieces of a version between `.`, `-` and `+`.
pub open spec fn version_pieces(s: Seq<char>) -> Seq<Seq<char>>
    decreases s.len(),
{
    if s.len() == 0 {
        seq![Seq::empty()]
    } else {
        let r = version_pieces(s.drop_last());
        if is_vsep(s.last()) {
            r.push(Seq::empty())
        } else {
            r.update(r.len() - 1, r.last().push(s.last()))
        }
    }
}

pub proof fn lemma_version_pieces_len(s: Seq<char>)
    ensures
        version_pieces(s).len() >= 1,
    decreases s.len(),
{
    if s.len() > 0 {
        lemma_version_pieces_len(s.drop_last());
    }
}

/// The pieces that read as numbers, as numbers.
pub open spec fn numeric_parts(pieces: Seq<Seq<char>>) -> Seq<u64>
    decreases pieces.len(),
{
    if pieces.len() == 0 {
        Seq::empty()
    } else {
        let r = numeric_parts(pieces.drop_last());
        match parse_u64_spec(pieces.last()) {
            Some(n) => r.push(n),
            None => r,
        }
    }
}

/// The numeric parts of a version string.
pub open spec fn version_parts_spec(v: Seq<char>) -> Seq<u64> {
    numeric_parts(version_pieces(v))
}

/// The numeric parts of a version string.
pub fn version_parts(version: &str) -> (r: Vec<u64>)
    ensures
        r@ == version_parts_spec(version@),
{
    let s = chars_of(version);
    let mut done: Vec<Vec<char>> = Vec::new();
    let mut cur: Vec<char> = Vec::new();
    let mut i: usize = 0;
    assert(views(done@).push(cur@) =~= version_pieces(s@.subrange(0, 0)));
    while i < s.len()
        invariant
            i <= s.len(),
            views(done@).push(cur@) == version_pieces(s@.subrange(0, i as int)),
        decreases s.len() - i,
    {
        assert(s@.subrange(0, i + 1).drop_last() =~= s@.subrange(0, i as int));
        let c = s[i];
        if c == '.' || c == '-' || c == '+' {
            let ghost d = views(done@);
            done.push(cur);
            cur = Vec::new();
            assert(views(done@) =~= d.push(views(done@).last()));
            assert(views(done@).push(cur@) =~= version_pieces(s@.subrange(0, i + 1)));
        } else {
            cur.push(c);
            assert(views(done@).push(cur@) =~= version_pieces(s@.subrange(0, i + 1)));
        }
        i += 1;
    }
    assert(s@.subrange(0, s.len() as int) =~= s@);
    done.push(cur);
    let ghost ps = views(done@);
    let mut out: Vec<u64> = Vec::new();
    let mut k: usize = 0;
    while k < done.len()
        invariant
            k <= done.len(),
            ps == views(done@),
            ps == version_pieces(version@),
            out@ == numeric_parts(ps.subrange(0, k as int)),
        decreases done.len() - k,
    {
        assert(ps.subrange(0, k + 1).drop_last() =~= ps.subrange(0, k as int));
        match parse_u64(&done[k]) {
            Some(n) => out.push(n),
            None => {},
        }
        k += 1;
    }
    assert(ps.subrange(0, k as int) =~= ps);
    out
}

/// How two versions compare.
#[derive(Debug, Clone, Copy, PartialEq, Eq, Structural)]
pub enum VersionOrder {
    Less,
    Equal,
    Greater,
}

pub open spec fn part_at(p: Seq<u64>, i: int) -> u64 {
    if 0 <= i < p.len() {
        p[i]
    } else {
        0
    }
}

pub open spec fn compare_from(a: Seq<u64>, b: Seq<u64>, i: int, n: int) -> VersionOrder
    decreases n - i,
{
    if i >= n {
        VersionOrder::Equal
    } else if part_at(a, i) < part_at(b, i) {
        VersionOrder::Less
    } else if part_at(a, i) > part_at(b, i) {
        VersionOrder::Greater
    } else {
        compare_from(a, b, i + 1, n)
    }
}

/// The versions compared part by part, missing parts counting as zero.
pub open spec fn compare_spec(latest: Seq<char>, current: Seq<char>) -> VersionOrder {
    let a = version_parts_spec(latest);
    let b = version_parts_spec(current);
    compare_from(a, b, 0, if a.len() > b.len() { a.len() as int } else { b.len() as int })
}

/// Compares two versions part by part, missing parts counting as zero.
pub fn compare_versions(latest: &str, current: &str) -> (r: VersionOrder)
    ensures
        r == compare_spec(latest@, current@),
{
    let a = version_parts(latest);
    let b = version_parts(current);
    let n = if a.len() > b.len() {
        a.len()
    } else {
        b.len()
    };
    let mut i: usize = 0;
    while i < n
        invariant
            i <= n,
            a@ == version_parts_spec(latest@),
            b@ == version_parts_spec(current@),
            n == if a.len() > b.len() {
                a.len()
            } else {
                b.len()
            },
            compare_spec(latest@, current@) == compare_from(a@, b@, i as int, n as int),
        decreases n - i,
    {
        let left = if i < a.len() {
            a[i]
        } else {
            0
        };
        let right = if i < b.len() {
            b[i]
        } else {
            0
        };
        if left < right {
            return VersionOrder::Less;
        }
        if left > right {
            return VersionOrder::Greater;
        }
        i += 1;
    }
    VersionOrder::Equal
}

/// Whether `latest` is a newer version than `current`.
pub fn is_newer_version(latest: &str, current: &str) -> (b: bool)
    ensures
        b == (compare_spec(latest@, current@) == VersionOrder::Greater),
{
    compare_versions(latest, current) == VersionOrder::Greater
}

/// Versions compare lexicographically by their parts (missing parts as
/// zero): one is greater exactly when, at the first part where they differ,
/// its part is the larger, and they are equal exactly when no part differs.
pub proof fn law_compare_is_lexicographic(a: Seq<u64>, b: Seq<u64>, i: int, n: int)
    ensures
        (compare_from(a, b, i, n) == VersionOrder::Greater) <==> exists|j: int|
            i <= j < n && part_at(a, j) > part_at(b, j) && forall|k: int|
                i <= k < j ==> #[trigger] part_at(a, k) == part_at(b, k),
        (compare_from(a, b, i, n) == VersionOrder::Equal) <==> forall|k: int|
            i <= k < n ==> #[trigger] part_at(a, k) == part_at(b, k),
    decreases n - i,
{
    if i < n {
        law_compare_is_lexicographic(a, b, i + 1, n);
        if part_at(a, i) == part_at(b, i) {
            if compare_from(a, b, i + 1, n) == VersionOrder::Greater {
                let j = choose|j: int|
                    i + 1 <= j < n && part_at(a, j) > part_at(b, j) && forall|k: int|
                        i + 1 <= k < j ==> #[trigger] part_at(a, k) == part_at(b, k);
                assert forall|k: int| i <= k < j implies #[trigger] part_at(a, k) == part_at(b, k) by {
                    if k > i {
                    }
                }
            }
            assert forall|j: int|
                i <= j < n && part_at(a, j) > part_at(b, j) && (forall|k: int|
                    i <= k < j ==> #[trigger] part_at(a, k) == part_at(b, k)) implies (i + 1 <= j
                && forall|k: int| i + 1 <= k < j ==> #[trigger] part_at(a, k) == part_at(b, k)) by {
            }
        } else {
            assert(!(forall|k: int| i <= k < n ==> #[trigger] part_at(a, k) == part_at(b, k)));
            if part_at(a, i) > part_at(b, i) {
                assert(forall|k: int| i <= k < i ==> #[trigger] part_at(a, k) == part_at(b, k));
            } else {
                assert forall|j: int|
                    i <= j < n && part_at(a, j) > part_at(b, j) implies !(forall|k: int|
                    i <= k < j ==> #[trigger] part_at(a, k) == part_at(b, k)) by {
                    if j > i {
                        assert(part_at(a, i) != part_at(b, i));
                    }
                }
            }
        }
    }
}

/// Comparing versions is antisymmetric: `a` is newer than `b` exactly when
/// `b` compares as older than `a`.
pub proof fn law_compare_antisymmetric(a: Seq<u64>, b: Seq<u64>, i: int, n: int)
    ensures
        (compare_from(a, b, i, n) == VersionOrder::Greater) == (compare_from(b, a, i, n)
            == VersionOrder::Less),
        (compare_from(a, b, i, n) == VersionOrder::Equal) == (compare_from(b, a, i, n)
            == VersionOrder::Equal),
    decreases n - i,
{
    if i < n && part_at(a, i) == part_at(b, i) {
        law_compare_antisymmetric(a, b, i + 1, n);
    }
}

/// How long a stored update check stays valid, in seconds.
pub const CACHE_TTL_SECS: u64 = 86_400;

/// A stored check made at `checked_at_secs` is still valid at `now_secs`:
/// less than a day has passed (a check stamped in the future counts as just
/// made).
pub fn cache_is_fresh(checked_at_secs: u64, now_secs: u64) -> (b: bool)
    ensures
        b == ((if now_secs >= checked_at_secs { now_secs - checked_at_secs } else { 0 }) < 86_400),
{
    let age = if now_secs >= checked_at_secs {
        now_secs - checked_at_secs
    } else {
        0
    };
    age < CACHE_TTL_SECS
}

/// The report for the latest release: its tag without the `v`, whether it
/// is newer than the running version, its page and name.
pub fn update_info_for(current: &str, tag_name: &str, html_url: String, name: String) -> (r: UpdateInfo)
    ensures
        r.current_version@ == current@,
        r.latest_version@ == strip_v_spec(tag_name@),
        r.update_available == (compare_spec(strip_v_spec(tag_name@), current@) == VersionOrder::Greater),
        r.release_url == html_url,
        r.release_name == name,
{
    let latest = strip_version_prefix(tag_name);
    let newer = is_newer_version(latest.as_str(), current);
    UpdateInfo {
        current_version: string_of(&chars_of(current)),
        latest_version: latest,
        update_available: newer,
        release_url: html_url,
        release_name: name,
    }
}

} // verus!
