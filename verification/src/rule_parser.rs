use vstd::prelude::*;

use crate::index_query::{
    describe_index_query, describe_spec, escape_like_chars, escape_like_spec, str_views,
    IndexQuery, IndexQueryView,
};
use crate::scan::{
    after_keyword, after_lowered, before_keyword, before_lowered, byte_equals, byte_is, byte_len,
    head_at, head_to_byte, lowercase, lowercase_spec, run_len, run_of, split_words, strip_class,
    strip_of, vopt, vopt2, words, CharClass,
};
use crate::text::{
    ascii_lower_seq, chars_of, contains, contains_char, contains_seq, digits_value,
    find, find_spec, has_prefix, join, join_spec, parse_u64, push_all, replace,
    replace_spec, slice_of, starts_with, str_eq, string_of, to_ascii_lower_all, trim, trim_spec,
    trim_start, trim_start_spec, utf8_len, views,
};

verus! {

/// How sure the parser is that it understood the request.
#[derive(Debug, Clone, Copy, PartialEq, Eq, Structural)]
pub enum ParseConfidence {
    High,
    Medium,
    Low,
}

/// An index query read from a natural-language request, with a summary.
pub struct ParsedAssistantQuery {
    pub query: IndexQuery,
    pub summary: String,
    pub confidence: ParseConfidence,
}

// ---------------------------------------------------------------------------
// Vocabulary
// ---------------------------------------------------------------------------

/// Phrases that introduce a size; the first one found in the request wins.
pub open spec fn size_keywords() -> Seq<Seq<char>> {
    seq![
        "greater than"@,
        "larger than"@,
        "more than"@,
        "at least"@,
        "over"@,
        "bigger than"@,
        "less than"@,
        "smaller than"@,
        "under"@,
        "at most"@,
        "below"@,
        ">"@,
        "<"@,
    ]
}

/// Phrases that introduce a key prefix, tried in this order.
pub open spec fn prefix_keywords() -> Seq<Seq<char>> {
    seq!["under "@, "in "@, "prefix "@, "folder "@]
}

/// Words removed from a request before its remainder becomes a key filter.
pub open spec fn strip_keywords() -> Seq<Seq<char>> {
    seq![
        "greater than"@,
        "larger than"@,
        "more than"@,
        "less than"@,
        "last month"@,
        "glacier"@,
        "standard"@,
        "files"@,
        "file"@,
    ]
}

/// File types recognised in phrases such as "pdf files".
pub open spec fn is_known_extension(e: Seq<char>) -> bool {
    ||| e == "pdf"@
    ||| e == "jpg"@
    ||| e == "jpeg"@
    ||| e == "png"@
    ||| e == "gif"@
    ||| e == "webp"@
    ||| e == "txt"@
    ||| e == "csv"@
    ||| e == "json"@
    ||| e == "xml"@
    ||| e == "zip"@
    ||| e == "gz"@
    ||| e == "tar"@
    ||| e == "mp4"@
    ||| e == "mp3"@
    ||| e == "log"@
    ||| e == "html"@
    ||| e == "md"@
}

/// How many times the removal of [`strip_keywords`] is repeated.
pub open spec fn strip_rounds_count() -> nat {
    13
}

// ---------------------------------------------------------------------------
// The model of the parser.  `None` in the outer `Option` of the helpers below
// marks a request on which a byte offset taken in a lower-cased copy falls
// off a character boundary of the text it is applied to.
// ---------------------------------------------------------------------------

/// A number (digits and dots) at the start of `s`, and the alphabetic core of
/// the lower-cased word that follows it.
pub open spec fn number_unit_spec(s: Seq<char>) -> Option<(Seq<char>, Option<Seq<char>>)> {
    let t = trim_spec(s);
    let n = run_len(t, CharClass::Number);
    if n == 0 {
        None
    } else {
        let rest = lowercase_spec(trim_spec(t.subrange(n as int, t.len() as int)));
        let ws = words(rest);
        let unit = if ws.len() > 0 {
            strip_class(ws[0], CharClass::NonAlpha)
        } else {
            Seq::empty()
        };
        Some((t.subrange(0, n as int), if unit.len() > 0 { Some(unit) } else { None }))
    }
}

/// The number after the first of `kws[k..]` that occurs in `h`.
pub open spec fn size_phrase_from(h: Seq<char>, kws: Seq<Seq<char>>, k: int) -> Option<
    Option<(Seq<char>, Option<Seq<char>>)>,
>
    decreases kws.len() - k,
{
    if k < 0 || k >= kws.len() {
        Some(None)
    } else {
        match after_lowered(h, kws[k]) {
            None => None,
            Some(Some(rest)) => Some(number_unit_spec(trim_start_spec(rest))),
            Some(None) => size_phrase_from(h, kws, k + 1),
        }
    }
}

/// The size phrase of a lower-cased request: the number after a size
/// keyword, or else a number at the very start.
pub open spec fn size_capture_spec(lower: Seq<char>) -> Option<
    Option<(Seq<char>, Option<Seq<char>>)>,
> {
    match size_phrase_from(lower, size_keywords(), 0) {
        None => None,
        Some(Some(c)) => Some(Some(c)),
        Some(None) => Some(number_unit_spec(trim_spec(lower))),
    }
}

/// The alphanumeric word after `word` (lower-cased).
pub open spec fn after_word_spec(h: Seq<char>, word: Seq<char>) -> Option<Option<Seq<char>>> {
    match after_lowered(h, word) {
        None => None,
        Some(None) => Some(None),
        Some(Some(rest)) => {
            let r = trim_spec(rest);
            let e = r.subrange(0, run_len(r, CharClass::Alnum) as int);
            if e.len() == 0 {
                Some(None)
            } else {
                Some(Some(ascii_lower_seq(e)))
            }
        },
    }
}

/// The alphanumeric run after the first `*.`.
pub open spec fn star_ext_spec(text: Seq<char>) -> Option<Seq<char>> {
    match find_spec(text, seq!['*', '.']) {
        None => None,
        Some(i) => {
            let rest = text.subrange(i + 2, text.len() as int);
            let e = rest.subrange(0, run_len(rest, CharClass::Alnum) as int);
            if e.len() == 0 {
                None
            } else {
                Some(e)
            }
        },
    }
}

/// The lower-cased last word before " file", if it takes 2 to 5 bytes.
pub open spec fn word_before_files_spec(h: Seq<char>) -> Option<Option<Seq<char>>> {
    match before_lowered(h, " file"@) {
        None => None,
        Some(None) => Some(None),
        Some(Some(before)) => {
            let ws = words(trim_spec(before));
            if ws.len() == 0 {
                Some(None)
            } else {
                let w = lowercase_spec(ws.last());
                if utf8_len(w) < 2 || utf8_len(w) > 5 {
                    Some(None)
                } else {
                    Some(Some(w))
                }
            }
        },
    }
}

/// The file extension a request asks for.
pub open spec fn extension_spec(lower: Seq<char>, text: Seq<char>) -> Option<Option<Seq<char>>> {
    match after_word_spec(lower, "extension"@) {
        None => None,
        Some(Some(e)) => Some(Some(e)),
        Some(None) => match star_ext_spec(text) {
            Some(e) => Some(Some(ascii_lower_seq(e))),
            None => match word_before_files_spec(lower) {
                None => None,
                Some(None) => Some(None),
                Some(Some(w)) => if is_known_extension(lowercase_spec(w)) {
                    Some(Some(lowercase_spec(w)))
                } else {
                    Some(None)
                },
            },
        },
    }
}

/// The storage classes a lower-cased request names.
pub open spec fn storage_class_spec(lower: Seq<char>) -> Option<Seq<Seq<char>>> {
    if contains_seq(lower, "glacier"@) || contains_seq(lower, "deep archive"@) {
        Some(seq!["GLACIER"@, "DEEP_ARCHIVE"@, "GLACIER_IR"@])
    } else if contains_seq(lower, "intelligent"@) && contains_seq(lower, "tier"@) {
        Some(seq!["INTELLIGENT_TIERING"@])
    } else if contains_seq(lower, "standard-ia"@) || contains_seq(lower, "infrequent"@) {
        Some(seq!["STANDARD_IA"@, "ONEZONE_IA"@])
    } else if contains_seq(lower, "standard"@) && !contains_seq(lower, "non-standard"@) {
        Some(seq!["STANDARD"@])
    } else {
        None
    }
}

/// The digits after the first "last " of the lower-cased `h`, when `unit`
/// follows them.
pub open spec fn last_n_spec(h: Seq<char>, unit: Seq<char>) -> Option<Seq<char>> {
    let l = lowercase_spec(h);
    match find_spec(l, "last "@) {
        None => None,
        Some(i) => {
            let rest = l.subrange(i + "last "@.len(), l.len() as int);
            let n = run_len(rest, CharClass::Digit);
            if n == 0 || !starts_with(
                trim_start_spec(rest.subrange(n as int, rest.len() as int)),
                unit,
            ) {
                None
            } else {
                Some(rest.subrange(0, n as int))
            }
        },
    }
}

/// A digit string read as an `i64` (`str::parse::<i64>`).
pub open spec fn digits_i64(num: Seq<char>) -> Option<i64> {
    if digits_value(num) <= i64::MAX {
        Some(digits_value(num) as i64)
    } else {
        None
    }
}

/// The RFC 3339 rendering of the instant `days` days before the UTC instant
/// `secs` seconds and `nanos` nanoseconds after the epoch; `None` when that
/// instant is not a valid `DateTime<Utc>`, when `days` days is outside
/// `TimeDelta`'s range, or when the result is outside `DateTime`'s range.
pub uninterp spec fn rfc3339_days_before(secs: i64, nanos: u32, days: i64) -> Option<Seq<char>>;

pub open spec fn str_opt_view(o: Option<String>) -> Option<Seq<char>> {
    match o {
        Some(s) => Some(s@),
        None => None,
    }
}

/// chrono: `DateTime::<Utc>::from_timestamp(secs, nanos)` minus
/// `TimeDelta::try_days(days)` by `DateTime::checked_sub_signed`, rendered by
/// `DateTime::to_rfc3339`.  Its result is named by [`rfc3339_days_before`];
/// `None` comes from any of the three checked steps.
#[verifier::external_body]
fn rfc3339_before(secs: i64, nanos: u32, days: i64) -> (r: Option<String>)
    ensures
        str_opt_view(r) == rfc3339_days_before(secs, nanos, days),
{
    let now = chrono::DateTime::from_timestamp(secs, nanos)?;
    let delta = chrono::TimeDelta::try_days(days)?;
    match now.checked_sub_signed(delta) {
        Some(t) => Some(t.to_rfc3339()),
        None => None,
    }
}

pub open spec fn days_ago_spec(secs: i64, nanos: u32, days: i64) -> Option<Option<Seq<char>>> {
    match rfc3339_days_before(secs, nanos, days) {
        None => None,
        Some(t) => Some(Some(t)),
    }
}

/// A date `YYYY-MM-DD` right after `word`.
pub open spec fn date_after_spec(h: Seq<char>, word: Seq<char>) -> Option<Option<Seq<char>>> {
    match after_lowered(h, word) {
        None => None,
        Some(None) => Some(None),
        Some(Some(rest0)) => {
            let rest = trim_spec(rest0);
            if utf8_len(rest) >= 10 && byte_is(rest, 4, '-') && byte_is(rest, 7, '-') {
                match head_at(rest, 10) {
                    None => None,
                    Some(d) => Some(Some(d)),
                }
            } else {
                Some(None)
            }
        },
    }
}

/// The lower bound on modification time that a lower-cased request asks for.
pub open spec fn modified_after_spec(lower: Seq<char>, secs: i64, nanos: u32) -> Option<
    Option<Seq<char>>,
> {
    match last_n_spec(lower, "days"@) {
        Some(num) => match digits_i64(num) {
            None => Some(None),
            Some(d) => days_ago_spec(secs, nanos, d),
        },
        None => match last_n_spec(lower, "weeks"@) {
            Some(num) => match digits_i64(num) {
                None => Some(None),
                Some(w) => if w * 7 > i64::MAX {
                    None
                } else {
                    days_ago_spec(secs, nanos, (w * 7) as i64)
                },
            },
            None => if contains_seq(lower, "last month"@) {
                days_ago_spec(secs, nanos, 30)
            } else if contains_seq(lower, "last year"@) {
                days_ago_spec(secs, nanos, 365)
            } else {
                match date_after_spec(lower, "since"@) {
                    None => None,
                    Some(Some(d)) => Some(Some(d + "T00:00:00Z"@)),
                    Some(None) => match date_after_spec(lower, "after"@) {
                        None => None,
                        Some(Some(d)) => Some(Some(d + "T00:00:00Z"@)),
                        Some(None) => Some(None),
                    },
                }
            },
        },
    }
}

/// The path after the first of `kws[k..]` that is followed by one.
pub open spec fn prefix_phrase_from(h: Seq<char>, kws: Seq<Seq<char>>, k: int) -> Option<
    Option<Seq<char>>,
>
    decreases kws.len() - k,
{
    if k < 0 || k >= kws.len() {
        Some(None)
    } else {
        match after_lowered(h, kws[k]) {
            None => None,
            Some(None) => prefix_phrase_from(h, kws, k + 1),
            Some(Some(rest)) => {
                let r = strip_class(trim_spec(rest), CharClass::Quote);
                let p = r.subrange(0, run_len(r, CharClass::PathChar) as int);
                if p.len() > 0 {
                    Some(Some(p))
                } else {
                    prefix_phrase_from(h, kws, k + 1)
                }
            },
        }
    }
}

/// The key prefix a request names, ending in `/`.
pub open spec fn prefix_hint_spec(text: Seq<char>) -> Option<Option<Seq<char>>> {
    match prefix_phrase_from(text, prefix_keywords(), 0) {
        None => None,
        Some(Some(p)) => Some(Some(if p.len() > 0 && p.last() == '/' { p } else { p.push('/') })),
        Some(None) => {
            let t = trim_spec(text);
            if t.len() > 0 && t.last() == '/' {
                Some(Some(t))
            } else {
                Some(None)
            }
        },
    }
}

/// A glob (`*`, `?`) turned into a SQL `LIKE` pattern.
pub open spec fn glob_spec(text: Seq<char>) -> Option<Seq<char>> {
    let t = trim_spec(text);
    if t.contains('*') || t.contains('?') {
        Some(
            replace_spec(
                replace_spec(escape_like_spec(t), seq!['*'], seq!['%']),
                seq!['?'],
                seq!['_'],
            ),
        )
    } else {
        None
    }
}

/// `s` without the first occurrence of `kw` in its lower-cased copy, located
/// by byte offsets (`String::replace_range`).
pub open spec fn remove_lowered(s: Seq<char>, kw: Seq<char>) -> Option<Seq<char>> {
    match crate::scan::lowered_find(s, kw) {
        None => Some(s),
        Some(b) => {
            let e = b + utf8_len(kw);
            match (head_at(s, b as int), crate::scan::tail_at(s, e as int)) {
                (Some(x), Some(y)) => Some(x + y),
                _ => None,
            }
        },
    }
}

/// `s` after removing, one after another, each of `kws[k..]`.
pub open spec fn strip_pass_from(s: Seq<char>, kws: Seq<Seq<char>>, k: int) -> Option<Seq<char>>
    decreases kws.len() - k,
{
    if k < 0 || k >= kws.len() {
        Some(s)
    } else {
        match remove_lowered(s, kws[k]) {
            None => None,
            Some(t) => strip_pass_from(t, kws, k + 1),
        }
    }
}

/// `s` after `n` passes of [`strip_pass_from`] over [`strip_keywords`].
pub open spec fn strip_rounds(s: Seq<char>, n: nat) -> Option<Seq<char>>
    decreases n,
{
    if n == 0 {
        Some(s)
    } else {
        match strip_rounds(s, (n - 1) as nat) {
            None => None,
            Some(t) => strip_pass_from(t, strip_keywords(), 0),
        }
    }
}

/// What is left of a request once the known phrases are removed, with its
/// words joined by single spaces.
pub open spec fn strip_spec(text: Seq<char>) -> Option<Seq<char>> {
    match strip_rounds(text, strip_rounds_count()) {
        None => None,
        Some(t) => Some(join_spec(words(t), seq![' '])),
    }
}

pub open spec fn confidence_of(matched: nat) -> ParseConfidence {
    if matched == 0 {
        ParseConfidence::Low
    } else if matched == 1 {
        ParseConfidence::Medium
    } else {
        ParseConfidence::High
    }
}

pub open spec fn query_view(
    key_pattern: Option<Seq<char>>,
    prefix: Option<Seq<char>>,
    size: Option<u64>,
    modified_after: Option<Seq<char>>,
    storage_class: Option<Seq<Seq<char>>>,
) -> IndexQueryView {
    IndexQueryView {
        key_pattern,
        prefix,
        min_size: size,
        max_size: size,
        modified_after,
        modified_before: None,
        storage_class,
        limit: 0,
        offset: 0,
    }
}

/// The query that matches keys containing the trimmed text.
pub open spec fn substring_view(text: Seq<char>) -> IndexQueryView {
    IndexQueryView {
        key_pattern: if trim_spec(text).len() > 0 {
            Some(seq!['%'] + escape_like_spec(trim_spec(text)) + seq!['%'])
        } else {
            None
        },
        prefix: None,
        min_size: None,
        max_size: None,
        modified_after: None,
        modified_before: None,
        storage_class: None,
        limit: 500,
        offset: 0,
    }
}

pub open spec fn count(b: bool, n: nat) -> nat {
    if b {
        n
    } else {
        0
    }
}

/// The query and confidence that the parser gives for `input`, where
/// `size_bytes` is the byte count that the request's size phrase denotes and
/// `(secs, nanos)` is the current UTC time; `None` where a byte offset falls
/// off a character boundary or a date computation leaves chrono's range.
pub open spec fn parse_model(input: Seq<char>, size_bytes: Option<u64>, secs: i64, nanos: u32) -> Option<
    (IndexQueryView, ParseConfidence),
> {
    let text = trim_spec(input);
    if text.len() == 0 {
        Some((query_view(None, None, None, None, None), ParseConfidence::Low))
    } else {
        let lower = lowercase_spec(text);
        match size_capture_spec(lower) {
            None => None,
            Some(cap) => {
                let size = if cap is Some {
                    size_bytes
                } else {
                    None
                };
                match extension_spec(lower, text) {
                    None => None,
                    Some(ext) => {
                        let sc = storage_class_spec(lower);
                        match modified_after_spec(lower, secs, nanos) {
                            None => None,
                            Some(ma) => match prefix_hint_spec(text) {
                                None => None,
                                Some(pre) => {
                                    let kp1 = match ext {
                                        Some(e) => Some(seq!['%', '.'] + e),
                                        None => None,
                                    };
                                    let glob = if kp1 is None {
                                        glob_spec(text)
                                    } else {
                                        None
                                    };
                                    let kp = if kp1 is Some {
                                        kp1
                                    } else {
                                        glob
                                    };
                                    let matched = count(size is Some, 2) + count(ext is Some, 1)
                                        + count(sc is Some, 1) + count(ma is Some, 1) + count(
                                        pre is Some,
                                        1,
                                    ) + count(glob is Some, 1);
                                    if matched == 0 {
                                        Some((substring_view(text), ParseConfidence::Low))
                                    } else if kp is Some {
                                        Some(
                                            (
                                                query_view(kp, pre, size, ma, sc),
                                                confidence_of(matched),
                                            ),
                                        )
                                    } else {
                                        match strip_spec(text) {
                                            None => None,
                                            Some(res) => {
                                                let kp2 = if res.len() > 0 && utf8_len(res) >= 2 {
                                                    Some(
                                                        seq!['%'] + escape_like_spec(res) + seq![
                                                            '%',
                                                        ],
                                                    )
                                                } else {
                                                    None
                                                };
                                                Some(
                                                    (
                                                        query_view(kp2, pre, size, ma, sc),
                                                        confidence_of(matched),
                                                    ),
                                                )
                                            },
                                        }
                                    }
                                },
                            },
                        }
                    },
                }
            },
        }
    }
}

/// The summary line of a parse of `input` that produced `q`.
pub open spec fn summary_spec(input: Seq<char>, q: IndexQuery) -> Seq<char> {
    if trim_spec(input).len() == 0 {
        "Enter a search query"@
    } else {
        describe_spec(q)
    }
}

pub open spec fn cap_view(o: Option<(Vec<char>, Option<Vec<char>>)>) -> Option<
    (Seq<char>, Option<Seq<char>>),
> {
    match o {
        Some((n, u)) => Some((n@, vopt(u))),
        None => None,
    }
}

pub open spec fn cap2_view(o: Option<Option<(Vec<char>, Option<Vec<char>>)>>) -> Option<
    Option<(Seq<char>, Option<Seq<char>>)>,
> {
    match o {
        Some(c) => Some(cap_view(c)),
        None => None,
    }
}

// ---------------------------------------------------------------------------
// The parser
// ---------------------------------------------------------------------------

fn keyword_list(words: &[&str]) -> (r: Vec<Vec<char>>)
    ensures
        r.len() == words.len(),
        forall|i: int| 0 <= i < words.len() ==> #[trigger] r@[i]@ == words@[i]@,
{
    let mut r: Vec<Vec<char>> = Vec::new();
    let mut i: usize = 0;
    while i < words.len()
        invariant
            i <= words.len(),
            r.len() == i,
            forall|j: int| 0 <= j < i ==> #[trigger] r@[j]@ == words@[j]@,
        decreases words.len() - i,
    {
        r.push(chars_of(words[i]));
        i += 1;
    }
    r
}

fn size_keyword_list() -> (r: Vec<Vec<char>>)
    ensures
        views(r@) == size_keywords(),
{
    let w = [
        "greater than",
        "larger than",
        "more than",
        "at least",
        "over",
        "bigger than",
        "less than",
        "smaller than",
        "under",
        "at most",
        "below",
        ">",
        "<",
    ];
    let r = keyword_list(&w);
    assert(views(r@) =~= size_keywords());
    r
}

fn prefix_keyword_list() -> (r: Vec<Vec<char>>)
    ensures
        views(r@) == prefix_keywords(),
{
    let w = ["under ", "in ", "prefix ", "folder "];
    let r = keyword_list(&w);
    assert(views(r@) =~= prefix_keywords());
    r
}

fn strip_keyword_list() -> (r: Vec<Vec<char>>)
    ensures
        views(r@) == strip_keywords(),
{
    let w = [
        "greater than",
        "larger than",
        "more than",
        "less than",
        "last month",
        "glacier",
        "standard",
        "files",
        "file",
    ];
    let r = keyword_list(&w);
    assert(views(r@) =~= strip_keywords());
    r
}

fn known_extension(e: &[char]) -> (b: bool)
    ensures
        b == is_known_extension(e@),
{
    str_eq("pdf", e) || str_eq("jpg", e) || str_eq("jpeg", e) || str_eq("png", e) || str_eq(
        "gif",
        e,
    ) || str_eq("webp", e) || str_eq("txt", e) || str_eq("csv", e) || str_eq("json", e)
        || str_eq("xml", e) || str_eq("zip", e) || str_eq("gz", e) || str_eq("tar", e) || str_eq(
        "mp4",
        e,
    ) || str_eq("mp3", e) || str_eq("log", e) || str_eq("html", e) || str_eq("md", e)
}

fn parse_number_unit(s: &[char]) -> (r: Option<(Vec<char>, Option<Vec<char>>)>)
    ensures
        cap_view(r) == number_unit_spec(s@),
{
    let t = trim(s);
    let n = run_of(&t, CharClass::Number);
    if n == 0 {
        return None;
    }
    let num = slice_of(&t, 0, n);
    let after = slice_of(&t, n, t.len());
    let rest = lowercase(&trim(&after));
    let ws = split_words(&rest);
    let unit = if ws.len() > 0 {
        assert(ws@[0]@ == views(ws@)[0]);
        strip_of(&ws[0], CharClass::NonAlpha)
    } else {
        Vec::new()
    };
    assert(unit.len() == 0 ==> unit@ =~= Seq::<char>::empty());
    Some((num, if unit.len() > 0 { Some(unit) } else { None }))
}

fn parse_size_phrase(h: &[char]) -> (r: Option<Option<(Vec<char>, Option<Vec<char>>)>>)
    ensures
        cap2_view(r) == size_phrase_from(h@, size_keywords(), 0),
{
    let kws = size_keyword_list();
    let mut k: usize = 0;
    while k < kws.len()
        invariant
            k <= kws.len(),
            views(kws@) == size_keywords(),
            size_phrase_from(h@, size_keywords(), 0) == size_phrase_from(
                h@,
                size_keywords(),
                k as int,
            ),
        decreases kws.len() - k,
    {
        assert(kws@[k as int]@ == size_keywords()[k as int]);
        match after_keyword(h, &kws[k]) {
            None => {
                return None;
            },
            Some(Some(rest)) => {
                let t = trim_start(&rest);
                return Some(parse_number_unit(&t));
            },
            Some(None) => {},
        }
        k += 1;
    }
    Some(None)
}

fn size_capture_of(lower: &[char]) -> (r: Option<Option<(Vec<char>, Option<Vec<char>>)>>)
    ensures
        cap2_view(r) == size_capture_spec(lower@),
{
    match parse_size_phrase(lower) {
        None => None,
        Some(Some(c)) => Some(Some(c)),
        Some(None) => Some(parse_number_unit(&trim(lower))),
    }
}

/// The size phrase of a request: the number text and the unit word that
/// [`parse_natural_language`] turns into a byte count; `None` when the
/// request has none.
pub fn size_capture(input: &str) -> (r: Option<(String, Option<String>)>)
    ensures
        match size_capture_spec(lowercase_spec(trim_spec(input@))) {
            Some(Some((n, u))) => r matches Some((rn, ru)) && rn@ == n && str_opt_view(ru) == u,
            _ => r is None,
        },
{
    let text = trim(&chars_of(input));
    let lower = lowercase(&text);
    match size_capture_of(&lower) {
        Some(Some((n, u))) => {
            let unit = match u {
                Some(x) => Some(string_of(&x)),
                None => None,
            };
            Some((string_of(&n), unit))
        },
        _ => None,
    }
}

fn find_after_word(h: &[char], word: &[char]) -> (r: Option<Option<Vec<char>>>)
    ensures
        vopt2(r) == after_word_spec(h@, word@),
{
    match after_keyword(h, word) {
        None => None,
        Some(None) => Some(None),
        Some(Some(rest)) => {
            let r = trim(&rest);
            let n = run_of(&r, CharClass::Alnum);
            let e = slice_of(&r, 0, n);
            if e.len() == 0 {
                Some(None)
            } else {
                Some(Some(to_ascii_lower_all(&e)))
            }
        },
    }
}

fn star_ext(text: &[char]) -> (r: Option<Vec<char>>)
    ensures
        vopt(r) == star_ext_spec(text@),
{
    let pat = vec!['*', '.'];
    assert(pat@ =~= seq!['*', '.']);
    match find(text, &pat) {
        None => None,
        Some(i) => {
            assert(i + 2 <= text.len());
            let rest = slice_of(text, i + 2, text.len());
            let n = run_of(&rest, CharClass::Alnum);
            let e = slice_of(&rest, 0, n);
            if e.len() == 0 {
                None
            } else {
                Some(e)
            }
        },
    }
}

fn find_word_before_files(h: &[char]) -> (r: Option<Option<Vec<char>>>)
    ensures
        vopt2(r) == word_before_files_spec(h@),
{
    let kw = chars_of(" file");
    match before_keyword(h, &kw) {
        None => None,
        Some(None) => Some(None),
        Some(Some(before)) => {
            let ws = split_words(&trim(&before));
            if ws.len() == 0 {
                Some(None)
            } else {
                assert(ws@[ws.len() - 1]@ == views(ws@).last());
                let w = lowercase(&ws[ws.len() - 1]);
                let n = byte_len(&w);
                if n < 2 || n > 5 {
                    Some(None)
                } else {
                    Some(Some(w))
                }
            }
        },
    }
}

fn parse_extension(lower: &[char], text: &[char]) -> (r: Option<Option<Vec<char>>>)
    ensures
        vopt2(r) == extension_spec(lower@, text@),
{
    let word = chars_of("extension");
    match find_after_word(lower, &word) {
        None => None,
        Some(Some(e)) => Some(Some(e)),
        Some(None) => match star_ext(text) {
            Some(e) => Some(Some(to_ascii_lower_all(&e))),
            None => match find_word_before_files(lower) {
                None => None,
                Some(None) => Some(None),
                Some(Some(w)) => {
                    let e = lowercase(&w);
                    if known_extension(&e) {
                        Some(Some(e))
                    } else {
                        Some(None)
                    }
                },
            },
        },
    }
}

fn strings_of(words: &[&str]) -> (r: Vec<String>)
    ensures
        r.len() == words.len(),
        forall|i: int| 0 <= i < words.len() ==> #[trigger] r@[i]@ == words@[i]@,
{
    let mut r: Vec<String> = Vec::new();
    let mut i: usize = 0;
    while i < words.len()
        invariant
            i <= words.len(),
            r.len() == i,
            forall|j: int| 0 <= j < i ==> #[trigger] r@[j]@ == words@[j]@,
        decreases words.len() - i,
    {
        r.push(string_of(&chars_of(words[i])));
        i += 1;
    }
    r
}

fn mentions(s: &[char], word: &str) -> (b: bool)
    ensures
        b == contains_seq(s@, word@),
{
    contains(s, &chars_of(word))
}

fn parse_storage_class(lower: &[char]) -> (r: Option<Vec<String>>)
    ensures
        match r {
            Some(v) => storage_class_spec(lower@) == Some(str_views(v@)),
            None => storage_class_spec(lower@) is None,
        },
{
    if mentions(lower, "glacier") || mentions(lower, "deep archive") {
        let w = ["GLACIER", "DEEP_ARCHIVE", "GLACIER_IR"];
        let v = strings_of(&w);
        assert(str_views(v@) =~= seq!["GLACIER"@, "DEEP_ARCHIVE"@, "GLACIER_IR"@]);
        Some(v)
    } else if mentions(lower, "intelligent") && mentions(lower, "tier") {
        let w = ["INTELLIGENT_TIERING"];
        let v = strings_of(&w);
        assert(str_views(v@) =~= seq!["INTELLIGENT_TIERING"@]);
        Some(v)
    } else if mentions(lower, "standard-ia") || mentions(lower, "infrequent") {
        let w = ["STANDARD_IA", "ONEZONE_IA"];
        let v = strings_of(&w);
        assert(str_views(v@) =~= seq!["STANDARD_IA"@, "ONEZONE_IA"@]);
        Some(v)
    } else if mentions(lower, "standard") && !mentions(lower, "non-standard") {
        let w = ["STANDARD"];
        let v = strings_of(&w);
        assert(str_views(v@) =~= seq!["STANDARD"@]);
        Some(v)
    } else {
        None
    }
}

fn find_last_n(h: &[char], unit: &str) -> (r: Option<Vec<char>>)
    ensures
        vopt(r) == last_n_spec(h@, unit@),
        r matches Some(d) ==> d.len() > 0 && forall|i: int| 0 <= i < d.len() ==> '0' <= #[trigger] d@[i] <= '9',
{
    let l = lowercase(h);
    let kw = chars_of("last ");
    match find(&l, &kw) {
        None => None,
        Some(i) => {
            assert(i + kw.len() <= l.len());
            let rest = slice_of(&l, i + kw.len(), l.len());
            let n = run_of(&rest, CharClass::Digit);
            let u = chars_of(unit);
            if n == 0 || !has_prefix(&trim_start(&slice_of(&rest, n, rest.len())), &u) {
                None
            } else {
                let d = slice_of(&rest, 0, n);
                proof {
                    lemma_run_digits(rest@, n as int);
                }
                Some(d)
            }
        },
    }
}

proof fn lemma_run_digits(s: Seq<char>, n: int)
    requires
        n == run_len(s, CharClass::Digit),
    ensures
        forall|i: int| 0 <= i < n ==> '0' <= #[trigger] s[i] <= '9',
    decreases s.len(),
{
    crate::scan::lemma_run_len_bound(s, CharClass::Digit);
    if s.len() > 0 && crate::scan::in_class(s[0], CharClass::Digit) {
        let t = s.subrange(1, s.len() as int);
        lemma_run_digits(t, n - 1);
        assert forall|i: int| 0 <= i < n implies '0' <= #[trigger] s[i] <= '9' by {
            if i > 0 {
                assert(s[i] == t[i - 1]);
            }
        }
    }
}

fn digits_to_i64(d: &[char]) -> (r: Option<i64>)
    requires
        d.len() > 0,
        forall|i: int| 0 <= i < d.len() ==> '0' <= #[trigger] d@[i] <= '9',
    ensures
        r == digits_i64(d@),
{
    assert(crate::text::unsigned_body(d@) == d@);
    assert(crate::text::all_digits(d@));
    match parse_u64(d) {
        Some(v) => {
            if v <= i64::MAX as u64 {
                Some(v as i64)
            } else {
                None
            }
        },
        None => None,
    }
}

fn days_ago(secs: i64, nanos: u32, days: i64) -> (r: Option<Option<Vec<char>>>)
    ensures
        vopt2(r) == days_ago_spec(secs, nanos, days),
{
    match rfc3339_before(secs, nanos, days) {
        None => None,
        Some(t) => Some(Some(chars_of(t.as_str()))),
    }
}

fn find_iso_date_after(h: &[char], word: &str) -> (r: Option<Option<Vec<char>>>)
    ensures
        vopt2(r) == date_after_spec(h@, word@),
{
    match after_keyword(h, &chars_of(word)) {
        None => None,
        Some(None) => Some(None),
        Some(Some(rest0)) => {
            let rest = trim(&rest0);
            if byte_len(&rest) >= 10 && byte_equals(&rest, 4, '-') && byte_equals(&rest, 7, '-') {
                match head_to_byte(&rest, 10) {
                    None => None,
                    Some(d) => Some(Some(d)),
                }
            } else {
                Some(None)
            }
        },
    }
}

fn with_midnight(d: Vec<char>) -> (r: Vec<char>)
    ensures
        r@ == d@ + "T00:00:00Z"@,
{
    let mut r = d;
    push_all(&mut r, &chars_of("T00:00:00Z"));
    r
}

fn parse_modified_after(lower: &[char], secs: i64, nanos: u32) -> (r: Option<Option<Vec<char>>>)
    ensures
        vopt2(r) == modified_after_spec(lower@, secs, nanos),
{
    match find_last_n(lower, "days") {
        Some(num) => match digits_to_i64(&num) {
            None => Some(None),
            Some(d) => days_ago(secs, nanos, d),
        },
        None => match find_last_n(lower, "weeks") {
            Some(num) => match digits_to_i64(&num) {
                None => Some(None),
                Some(w) => {
                    if w > i64::MAX / 7 {
                        None
                    } else {
                        days_ago(secs, nanos, w * 7)
                    }
                },
            },
            None => {
                if mentions(lower, "last month") {
                    days_ago(secs, nanos, 30)
                } else if mentions(lower, "last year") {
                    days_ago(secs, nanos, 365)
                } else {
                    match find_iso_date_after(lower, "since") {
                        None => None,
                        Some(Some(d)) => Some(Some(with_midnight(d))),
                        Some(None) => match find_iso_date_after(lower, "after") {
                            None => None,
                            Some(Some(d)) => Some(Some(with_midnight(d))),
                            Some(None) => Some(None),
                        },
                    }
                }
            },
        },
    }
}

fn find_prefix_phrase(h: &[char]) -> (r: Option<Option<Vec<char>>>)
    ensures
        vopt2(r) == prefix_phrase_from(h@, prefix_keywords(), 0),
{
    let kws = prefix_keyword_list();
    let mut k: usize = 0;
    while k < kws.len()
        invariant
            k <= kws.len(),
            views(kws@) == prefix_keywords(),
            prefix_phrase_from(h@, prefix_keywords(), 0) == prefix_phrase_from(
                h@,
                prefix_keywords(),
                k as int,
            ),
        decreases kws.len() - k,
    {
        assert(kws@[k as int]@ == prefix_keywords()[k as int]);
        match after_keyword(h, &kws[k]) {
            None => {
                return None;
            },
            Some(Some(rest)) => {
                let r = strip_of(&trim(&rest), CharClass::Quote);
                let n = run_of(&r, CharClass::PathChar);
                if n > 0 {
                    return Some(Some(slice_of(&r, 0, n)));
                }
            },
            Some(None) => {},
        }
        k += 1;
    }
    Some(None)
}

fn parse_prefix_hint(text: &[char]) -> (r: Option<Option<Vec<char>>>)
    ensures
        vopt2(r) == prefix_hint_spec(text@),
{
    match find_prefix_phrase(text) {
        None => None,
        Some(Some(p)) => {
            let mut q = p;
            if !(q.len() > 0 && q[q.len() - 1] == '/') {
                q.push('/');
            }
            Some(Some(q))
        },
        Some(None) => {
            let t = trim(text);
            if t.len() > 0 && t[t.len() - 1] == '/' {
                Some(Some(t))
            } else {
                Some(None)
            }
        },
    }
}

fn parse_glob_pattern(text: &[char]) -> (r: Option<Vec<char>>)
    ensures
        vopt(r) == glob_spec(text@),
{
    let t = trim(text);
    if contains_char(&t, '*') || contains_char(&t, '?') {
        let star = vec!['*'];
        let pct = vec!['%'];
        let q = vec!['?'];
        let us = vec!['_'];
        assert(star@ =~= seq!['*']);
        assert(pct@ =~= seq!['%']);
        assert(q@ =~= seq!['?']);
        assert(us@ =~= seq!['_']);
        let e = escape_like_chars(&t);
        let a = replace(&e, &star, &pct);
        Some(replace(&a, &q, &us))
    } else {
        None
    }
}

fn remove_keyword(s: Vec<char>, kw: &[char]) -> (r: Option<Vec<char>>)
    ensures
        vopt(r) == remove_lowered(s@, kw@),
{
    match crate::scan::find_lowered(&s, kw) {
        None => Some(s),
        Some(b) => {
            let e = b + byte_len(kw);
            match (head_to_byte(&s, b), crate::scan::tail_from_byte(&s, e)) {
                (Some(x), Some(y)) => {
                    let mut out = x;
                    push_all(&mut out, &y);
                    Some(out)
                },
                _ => None,
            }
        },
    }
}

fn strip_known_phrases(text: &[char]) -> (r: Option<Vec<char>>)
    ensures
        vopt(r) == strip_spec(text@),
{
    let kws = strip_keyword_list();
    let mut s = slice_of(text, 0, text.len());
    assert(s@ =~= text@);
    let mut round: usize = 0;
    while round < 13
        invariant
            round <= 13,
            views(kws@) == strip_keywords(),
            strip_rounds(text@, round as nat) == Some(s@),
        decreases 13 - round,
    {
        let ghost start = s@;
        let mut k: usize = 0;
        while k < kws.len()
            invariant
                k <= kws.len(),
                round < 13,
                views(kws@) == strip_keywords(),
                strip_rounds(text@, round as nat) == Some(start),
                strip_pass_from(start, strip_keywords(), 0) == strip_pass_from(
                    s@,
                    strip_keywords(),
                    k as int,
                ),
            decreases kws.len() - k,
        {
            assert(kws@[k as int]@ == strip_keywords()[k as int]);
            match remove_keyword(s, &kws[k]) {
                None => {
                    assert(strip_rounds(text@, (round + 1) as nat) is None);
                    proof {
                        lemma_strip_rounds_none_at(text@, (round + 1) as nat, 13);
                    }
                    return None;
                },
                Some(t) => {
                    s = t;
                },
            }
            k += 1;
        }
        assert(strip_rounds(text@, (round + 1) as nat) == Some(s@));
        round += 1;
    }
    let ws = split_words(&s);
    let sp = vec![' '];
    assert(sp@ =~= seq![' ']);
    Some(join(&ws, &sp))
}

proof fn lemma_strip_rounds_none_at(s: Seq<char>, n: nat, m: nat)
    requires
        strip_rounds(s, n) is None,
        m >= n,
    ensures
        strip_rounds(s, m) is None,
    decreases m,
{
    if m > n {
        lemma_strip_rounds_none_at(s, n, (m - 1) as nat);
    }
}

fn char_string(v: Option<Vec<char>>) -> (r: Option<String>)
    ensures
        str_opt_view(r) == vopt(v),
{
    match v {
        Some(x) => Some(string_of(&x)),
        None => None,
    }
}

/// Reads an index query from a natural-language request.
///
/// `size_bytes` is the byte count of the request's size phrase (see
/// [`size_capture`]), and `(now_secs, now_nanos)` the current UTC time that
/// relative dates count back from.  Returns `None` exactly on the requests
/// where [`parse_model`] has no value.
pub fn parse_natural_language(
    input: &str,
    size_bytes: Option<u64>,
    now_secs: i64,
    now_nanos: u32,
) -> (r: Option<ParsedAssistantQuery>)
    ensures
        match parse_model(input@, size_bytes, now_secs, now_nanos) {
            None => r is None,
            Some((q, c)) => r matches Some(p) && p.query@ == q && p.confidence == c
                && p.summary@ == summary_spec(input@, p.query),
        },
{
    let text = trim(&chars_of(input));
    if text.len() == 0 {
        let query = IndexQuery::empty();
        return Some(
            ParsedAssistantQuery {
                query,
                summary: string_of(&chars_of("Enter a search query")),
                confidence: ParseConfidence::Low,
            },
        );
    }
    let lower = lowercase(&text);
    let cap = match size_capture_of(&lower) {
        None => {
            return None;
        },
        Some(c) => c,
    };
    let size = if cap.is_some() {
        size_bytes
    } else {
        None
    };
    let ext = match parse_extension(&lower, &text) {
        None => {
            return None;
        },
        Some(e) => e,
    };
    let sc = parse_storage_class(&lower);
    let ma = match parse_modified_after(&lower, now_secs, now_nanos) {
        None => {
            return None;
        },
        Some(m) => m,
    };
    let pre = match parse_prefix_hint(&text) {
        None => {
            return None;
        },
        Some(p) => p,
    };
    let mut matched: u64 = 0;
    if size.is_some() {
        matched += 2;
    }
    if ext.is_some() {
        matched += 1;
    }
    if sc.is_some() {
        matched += 1;
    }
    if ma.is_some() {
        matched += 1;
    }
    if pre.is_some() {
        matched += 1;
    }
    let kp1 = match &ext {
        Some(e) => {
            let mut k = vec!['%', '.'];
            assert(k@ =~= seq!['%', '.']);
            push_all(&mut k, e);
            Some(k)
        },
        None => None,
    };
    let glob = if kp1.is_none() {
        parse_glob_pattern(&text)
    } else {
        None
    };
    if glob.is_some() {
        matched += 1;
    }
    let ghost kp_spec = if kp1 is Some {
        vopt(kp1)
    } else {
        vopt(glob)
    };
    let kp = if kp1.is_some() {
        kp1
    } else {
        glob
    };
    if matched == 0 {
        let query = IndexQuery::with_key_substring(&string_of(&text));
        let summary = describe_index_query(&query);
        let r = ParsedAssistantQuery { query, summary, confidence: ParseConfidence::Low };
        assert(r.query@.key_pattern =~= substring_view(text@).key_pattern);
        return Some(r);
    }
    let confidence = if matched == 1 {
        ParseConfidence::Medium
    } else {
        ParseConfidence::High
    };
    let key_pattern = if kp.is_some() {
        kp
    } else {
        match strip_known_phrases(&text) {
            None => {
                return None;
            },
            Some(res) => {
                if res.len() > 0 && byte_len(&res) >= 2 {
                    let mut k = vec!['%'];
                    assert(k@ =~= seq!['%']);
                    push_all(&mut k, &escape_like_chars(&res));
                    k.push('%');
                    assert(k@ =~= seq!['%'] + escape_like_spec(res@) + seq!['%']);
                    Some(k)
                } else {
                    None
                }
            },
        }
    };
    let ghost key_pattern_copy = key_pattern;
    let ghost pre_copy = pre;
    let ghost ma_copy = ma;
    let ghost sc_copy = sc;
    let mut query = IndexQuery::empty();
    query.key_pattern = char_string(key_pattern);
    query.prefix = char_string(pre);
    query.min_size = size;
    query.max_size = size;
    query.modified_after = char_string(ma);
    query.storage_class = sc;
    assert(query@ =~= query_view(vopt(key_pattern_copy), vopt(pre_copy), size, vopt(ma_copy), crate::index_query::opt_strs_view(sc_copy)));
    let summary = describe_index_query(&query);
    Some(ParsedAssistantQuery { query, summary, confidence })
}

/// The storage classes a parsed request asks for follow its most specific
/// class phrase: a request (lower-cased) that mentions "standard-ia" or
/// "infrequent", and neither glacier, deep archive nor intelligent
/// tiering, asks for exactly STANDARD_IA and ONEZONE_IA; and the plain
/// STANDARD class is asked for only when no more specific class phrase is
/// present.  Glacier or deep archive asks for the archive classes, and
/// intelligent tiering (without those) for INTELLIGENT_TIERING.
pub proof fn law_storage_class_follows_most_specific_phrase(
    input: Seq<char>,
    size_bytes: Option<u64>,
    secs: i64,
    nanos: u32,
)
    requires
        trim_spec(input).len() > 0,
        parse_model(input, size_bytes, secs, nanos) is Some,
    ensures
        ({
            let (q, _) = parse_model(input, size_bytes, secs, nanos)->0;
            let lower = lowercase_spec(trim_spec(input));
            let specific_cold = contains_seq(lower, "glacier"@) || contains_seq(lower, "deep archive"@)
                || (contains_seq(lower, "intelligent"@) && contains_seq(lower, "tier"@));
            let infrequent = contains_seq(lower, "standard-ia"@) || contains_seq(
                lower,
                "infrequent"@,
            );
            &&& (contains_seq(lower, "glacier"@) || contains_seq(lower, "deep archive"@))
                ==> q.storage_class == Some(seq!["GLACIER"@, "DEEP_ARCHIVE"@, "GLACIER_IR"@])
            &&& (!contains_seq(lower, "glacier"@) && !contains_seq(lower, "deep archive"@)
                && contains_seq(lower, "intelligent"@) && contains_seq(lower, "tier"@))
                ==> q.storage_class == Some(seq!["INTELLIGENT_TIERING"@])
            &&& (infrequent && !specific_cold) ==> q.storage_class == Some(
                seq!["STANDARD_IA"@, "ONEZONE_IA"@],
            )
            &&& q.storage_class == Some(seq!["STANDARD"@]) ==> (!infrequent && !specific_cold
                && contains_seq(lower, "standard"@) && !contains_seq(lower, "non-standard"@))
        }),
{
    reveal_strlit("STANDARD");
    reveal_strlit("INTELLIGENT_TIERING");
    reveal_strlit("STANDARD_IA");
    reveal_strlit("ONEZONE_IA");
    reveal_strlit("GLACIER");
    reveal_strlit("DEEP_ARCHIVE");
    reveal_strlit("GLACIER_IR");
    let lower = lowercase_spec(trim_spec(input));
    let sc = storage_class_spec(lower);
    assert(seq!["STANDARD"@] != seq!["INTELLIGENT_TIERING"@]) by {
        assert(seq!["STANDARD"@][0].len() != seq!["INTELLIGENT_TIERING"@][0].len());
    }
    assert(seq!["STANDARD"@].len() != seq!["STANDARD_IA"@, "ONEZONE_IA"@].len());
    assert(seq!["STANDARD"@].len() != seq!["GLACIER"@, "DEEP_ARCHIVE"@, "GLACIER_IR"@].len());
    let (q, _) = parse_model(input, size_bytes, secs, nanos)->0;
    // A named class counts as a match, so the query carries the classes found.
    assert(sc is Some ==> q.storage_class == sc);
    assert(sc is None ==> q.storage_class is None);
}

} // verus!
