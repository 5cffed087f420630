use vstd::prelude::*;

use crate::text::{
    chars_of, find, find_spec, is_ws, is_whitespace, slice_of, string_of, utf8_len, utf8_width,
    views,
};

verus! {

// ---------------------------------------------------------------------------
// Unicode lower-casing
// ---------------------------------------------------------------------------

/// What `str::to_lowercase` returns for a string with these characters.
pub uninterp spec fn lowercase_spec(s: Seq<char>) -> Seq<char>;

/// Every character of `s` is ASCII.
pub open spec fn ascii_only(s: Seq<char>) -> bool {
    forall|i: int| 0 <= i < s.len() ==> (#[trigger] s[i] as u32) < 0x80
}

/// `str::to_lowercase`: the Unicode lower-case mapping of the whole string.
/// Its result is named by [`lowercase_spec`].  The Unicode lower case of an
/// ASCII character is its ASCII lower case, so an ASCII string comes back
/// as `to_ascii_lowercase` gives it.
#[verifier::external_body]
fn lowercase_str(s: &str) -> (r: String)
    ensures
        r@ == lowercase_spec(s@),
        ascii_only(s@) ==> r@ == crate::text::ascii_lower_seq(s@),
{
    s.to_lowercase()
}

/// The characters of `s` lower-cased as one string.
pub fn lowercase(s: &[char]) -> (r: Vec<char>)
    ensures
        r@ == lowercase_spec(s@),
        ascii_only(s@) ==> r@ == crate::text::ascii_lower_seq(s@),
{
    let st = string_of(s);
    let l = lowercase_str(st.as_str());
    chars_of(l.as_str())
}

// ---------------------------------------------------------------------------
// Character classes and runs
// ---------------------------------------------------------------------------

/// The classes of characters that the query scanner takes runs of.
#[derive(Clone, Copy, PartialEq, Eq, Structural)]
pub enum CharClass {
    /// ASCII digits.
    Digit,
    /// ASCII digits and `.`.
    Number,
    /// ASCII letters and digits.
    Alnum,
    /// ASCII letters, digits, `/`, `-`, `_` and `.`.
    PathChar,
    /// Everything but whitespace.
    NonWs,
    /// Everything but ASCII letters.
    NonAlpha,
    /// The quote characters `` ` ``, `"` and `'`.
    Quote,
}

pub open spec fn in_class(c: char, k: CharClass) -> bool {
    match k {
        CharClass::Digit => '0' <= c && c <= '9',
        CharClass::Number => ('0' <= c && c <= '9') || c == '.',
        CharClass::Alnum => ('0' <= c && c <= '9') || ('a' <= c && c <= 'z') || ('A' <= c && c
            <= 'Z'),
        CharClass::PathChar => ('0' <= c && c <= '9') || ('a' <= c && c <= 'z') || ('A' <= c && c
            <= 'Z') || c == '/' || c == '-' || c == '_' || c == '.',
        CharClass::NonWs => !is_ws(c),
        CharClass::NonAlpha => !(('a' <= c && c <= 'z') || ('A' <= c && c <= 'Z')),
        CharClass::Quote => c == '`' || c == '"' || c == '\'',
    }
}

/// Length of the longest prefix of `s` whose characters are all in `k`.
pub open spec fn run_len(s: Seq<char>, k: CharClass) -> nat
    decreases s.len(),
{
    if s.len() > 0 && in_class(s[0], k) {
        1 + run_len(s.subrange(1, s.len() as int), k)
    } else {
        0
    }
}

/// Length of the longest suffix of `s` whose characters are all in `k`.
pub open spec fn trail_len(s: Seq<char>, k: CharClass) -> nat
    decreases s.len(),
{
    if s.len() > 0 && in_class(s.last(), k) {
        1 + trail_len(s.drop_last(), k)
    } else {
        0
    }
}

/// `s` without the characters of class `k` at either end (`str::trim_matches`).
pub open spec fn strip_class(s: Seq<char>, k: CharClass) -> Seq<char> {
    let a = s.subrange(run_len(s, k) as int, s.len() as int);
    a.subrange(0, a.len() - trail_len(a, k))
}

pub proof fn lemma_run_len_bound(s: Seq<char>, k: CharClass)
    ensures
        run_len(s, k) <= s.len(),
        trail_len(s, k) <= s.len(),
    decreases s.len(),
{
    if s.len() > 0 {
        lemma_run_len_bound(s.subrange(1, s.len() as int), k);
        lemma_run_len_bound(s.drop_last(), k);
    }
}

/// Whether `c` is in class `k`.
pub fn class_has(c: char, k: CharClass) -> (b: bool)
    ensures
        b == in_class(c, k),
{
    match k {
        CharClass::Digit => '0' <= c && c <= '9',
        CharClass::Number => ('0' <= c && c <= '9') || c == '.',
        CharClass::Alnum => ('0' <= c && c <= '9') || ('a' <= c && c <= 'z') || ('A' <= c && c
            <= 'Z'),
        CharClass::PathChar => ('0' <= c && c <= '9') || ('a' <= c && c <= 'z') || ('A' <= c && c
            <= 'Z') || c == '/' || c == '-' || c == '_' || c == '.',
        CharClass::NonWs => !is_whitespace(c),
        CharClass::NonAlpha => !(('a' <= c && c <= 'z') || ('A' <= c && c <= 'Z')),
        CharClass::Quote => c == '`' || c == '"' || c == '\'',
    }
}

/// Length of the leading run of class `k` in `s`.
pub fn run_of(s: &[char], k: CharClass) -> (n: usize)
    ensures
        n == run_len(s@, k),
        n <= s.len(),
{
    let mut i: usize = 0;
    assert(s@.subrange(0, s.len() as int) =~= s@);
    while i < s.len() && class_has(s[i], k)
        invariant
            i <= s.len(),
            run_len(s@, k) == i + run_len(s@.subrange(i as int, s.len() as int), k),
        decreases s.len() - i,
    {
        assert(s@.subrange(i as int, s.len() as int).subrange(1, s.len() - i) =~= s@.subrange(
            i + 1,
            s.len() as int,
        ));
        i += 1;
    }
    proof {
        if i < s.len() {
            assert(s@.subrange(i as int, s.len() as int)[0] == s@[i as int]);
        }
    }
    i
}

/// Length of the trailing run of class `k` in `s`.
pub fn trail_of(s: &[char], k: CharClass) -> (n: usize)
    ensures
        n == trail_len(s@, k),
        n <= s.len(),
{
    let mut j: usize = s.len();
    assert(s@.subrange(0, s.len() as int) =~= s@);
    while j > 0 && class_has(s[j - 1], k)
        invariant
            j <= s.len(),
            trail_len(s@, k) == (s.len() - j) + trail_len(s@.subrange(0, j as int), k),
        decreases j,
    {
        assert(s@.subrange(0, j as int).drop_last() =~= s@.subrange(0, j - 1));
        j -= 1;
    }
    s.len() - j
}

/// `s` without the characters of class `k` at either end.
pub fn strip_of(s: &[char], k: CharClass) -> (r: Vec<char>)
    ensures
        r@ == strip_class(s@, k),
{
    let i = run_of(s, k);
    let a = slice_of(s, i, s.len());
    let t = trail_of(&a, k);
    slice_of(&a, 0, a.len() - t)
}

// ---------------------------------------------------------------------------
// Whitespace-separated words
// ---------------------------------------------------------------------------

/// The maximal runs of non-whitespace characters of `s`, in order
/// (`str::split_whitespace`).
pub open spec fn words(s: Seq<char>) -> Seq<Seq<char>>
    decreases s.len(),
{
    if s.len() == 0 {
        Seq::empty()
    } else {
        let w = words(s.drop_last());
        let c = s.last();
        if is_ws(c) {
            w
        } else if s.len() >= 2 && !is_ws(s[s.len() - 2]) {
            w.update(w.len() - 1, w.last().push(c))
        } else {
            w.push(seq![c])
        }
    }
}

pub proof fn lemma_words_nonempty(s: Seq<char>)
    requires
        s.len() > 0,
        !is_ws(s.last()),
    ensures
        words(s).len() > 0,
    decreases s.len(),
{
    if s.len() >= 2 && !is_ws(s[s.len() - 2]) {
        lemma_words_nonempty(s.drop_last());
    }
}

/// The words of `s` (`str::split_whitespace`).
pub fn split_words(s: &[char]) -> (r: Vec<Vec<char>>)
    ensures
        views(r@) == words(s@),
{
    let mut done: Vec<Vec<char>> = Vec::new();
    let mut i: usize = 0;
    assert(views(done@) =~= words(s@.subrange(0, 0)));
    while i < s.len()
        invariant
            i <= s.len(),
            views(done@) == words(s@.subrange(0, i as int)),
        decreases s.len() - i,
    {
        let ghost pre = s@.subrange(0, i as int);
        let ghost cur = s@.subrange(0, i + 1);
        assert(cur.drop_last() =~= pre);
        let c = s[i];
        if is_whitespace(c) {
        } else if i >= 1 && !is_whitespace(s[i - 1]) {
            proof {
                assert(pre.last() == s@[i - 1]);
                lemma_words_nonempty(pre);
            }
            let ghost d = views(done@);
            let mut last = done.pop().unwrap();
            last.push(c);
            done.push(last);
            assert(views(done@) =~= d.update(d.len() - 1, d.last().push(c)));
        } else {
            let ghost d = views(done@);
            let mut w: Vec<char> = Vec::new();
            w.push(c);
            done.push(w);
            assert(views(done@) =~= d.push(seq![c]));
        }
        i += 1;
    }
    assert(s@.subrange(0, s.len() as int) =~= s@);
    done
}

// ---------------------------------------------------------------------------
// Byte offsets and character boundaries
// ---------------------------------------------------------------------------

/// Byte offset, in UTF-8, of the character at index `i` of `s`.
pub open spec fn byte_at(s: Seq<char>, i: int) -> nat {
    utf8_len(s.subrange(0, i))
}

/// `b` is the byte offset of a character of `s`, or of its end
/// (`str::is_char_boundary`).
pub open spec fn is_boundary(s: Seq<char>, b: int) -> bool {
    exists|j: int| 0 <= j <= s.len() && byte_at(s, j) == b
}

/// The character index at byte offset `b` of `s`.
pub open spec fn boundary_char(s: Seq<char>, b: int) -> int {
    choose|j: int| 0 <= j <= s.len() && byte_at(s, j) == b
}

/// `&s[b..]`: the characters from byte offset `b` on, if `b` is a boundary.
pub open spec fn tail_at(s: Seq<char>, b: int) -> Option<Seq<char>> {
    if is_boundary(s, b) {
        Some(s.subrange(boundary_char(s, b), s.len() as int))
    } else {
        None
    }
}

/// `&s[..b]`: the characters before byte offset `b`, if `b` is a boundary.
pub open spec fn head_at(s: Seq<char>, b: int) -> Option<Seq<char>> {
    if is_boundary(s, b) {
        Some(s.subrange(0, boundary_char(s, b)))
    } else {
        None
    }
}

/// The byte `b` of `s` is the ASCII character `c`.
pub open spec fn byte_is(s: Seq<char>, b: int, c: char) -> bool {
    is_boundary(s, b) && boundary_char(s, b) < s.len() && s[boundary_char(s, b)] == c
}

pub open spec fn vopt(o: Option<Vec<char>>) -> Option<Seq<char>> {
    match o {
        Some(v) => Some(v@),
        None => None,
    }
}

pub proof fn lemma_byte_at_step(s: Seq<char>, i: int)
    requires
        0 <= i < s.len(),
    ensures
        byte_at(s, i + 1) == byte_at(s, i) + utf8_width(s[i]),
        utf8_width(s[i]) >= 1,
{
    assert(s.subrange(0, i + 1).drop_last() =~= s.subrange(0, i));
}

pub proof fn lemma_byte_at_strict(s: Seq<char>, i: int, j: int)
    requires
        0 <= i < j <= s.len(),
    ensures
        byte_at(s, i) < byte_at(s, j),
    decreases j - i,
{
    lemma_byte_at_step(s, j - 1);
    if i < j - 1 {
        lemma_byte_at_strict(s, i, j - 1);
    }
}

/// A byte offset names at most one character index.
pub proof fn lemma_boundary_unique(s: Seq<char>, j: int)
    requires
        0 <= j <= s.len(),
    ensures
        is_boundary(s, byte_at(s, j) as int),
        boundary_char(s, byte_at(s, j) as int) == j,
{
    let b = byte_at(s, j) as int;
    assert(0 <= j <= s.len() && byte_at(s, j) == b);
    let k = boundary_char(s, b);
    if k < j {
        lemma_byte_at_strict(s, k, j);
    } else if k > j {
        lemma_byte_at_strict(s, j, k);
    }
}

/// Bytes taken by `c` in UTF-8.
pub fn char_width(c: char) -> (w: u128)
    ensures
        w == utf8_width(c),
{
    if (c as u32) < 0x80 {
        1
    } else if (c as u32) < 0x800 {
        2
    } else if (c as u32) < 0x10000 {
        3
    } else {
        4
    }
}

/// Byte offset of character index `i` of `s`.
pub fn byte_offset(s: &[char], i: usize) -> (r: u128)
    requires
        i <= s.len(),
    ensures
        r == byte_at(s@, i as int),
        r <= 4 * i,
{
    let mut acc: u128 = 0;
    let mut k: usize = 0;
    while k < i
        invariant
            k <= i <= s.len(),
            acc == byte_at(s@, k as int),
            acc <= 4 * k,
        decreases i - k,
    {
        proof {
            lemma_byte_at_step(s@, k as int);
        }
        acc = acc + char_width(s[k]);
        k += 1;
    }
    acc
}

/// Bytes taken by `s` in UTF-8 (`str::len`).
pub fn byte_len(s: &[char]) -> (r: u128)
    ensures
        r == utf8_len(s@),
        r <= 4 * s.len(),
{
    let r = byte_offset(s, s.len());
    assert(s@.subrange(0, s.len() as int) =~= s@);
    r
}

/// The character index at byte offset `b` of `s`, if `b` is a boundary.
pub fn boundary_index(s: &[char], b: u128) -> (r: Option<usize>)
    ensures
        r is Some <==> is_boundary(s@, b as int),
        r matches Some(j) ==> j <= s.len() && j == boundary_char(s@, b as int),
{
    let mut acc: u128 = 0;
    let mut j: usize = 0;
    while j < s.len() && acc < b
        invariant
            j <= s.len(),
            acc == byte_at(s@, j as int),
            acc <= 4 * j,
            forall|k: int| 0 <= k < j ==> byte_at(s@, k) < b,
        decreases s.len() - j,
    {
        proof {
            lemma_byte_at_step(s@, j as int);
        }
        acc = acc + char_width(s[j]);
        j += 1;
    }
    if acc == b {
        proof {
            lemma_boundary_unique(s@, j as int);
        }
        Some(j)
    } else {
        proof {
            assert forall|k: int| 0 <= k <= s.len() implies byte_at(s@, k) != b by {
                if k > j {
                    lemma_byte_at_strict(s@, j as int, k);
                }
            }
        }
        None
    }
}

/// `&s[b..]`, if `b` is a boundary of `s`.
pub fn tail_from_byte(s: &[char], b: u128) -> (r: Option<Vec<char>>)
    ensures
        vopt(r) == tail_at(s@, b as int),
{
    match boundary_index(s, b) {
        Some(j) => Some(slice_of(s, j, s.len())),
        None => None,
    }
}

/// `&s[..b]`, if `b` is a boundary of `s`.
pub fn head_to_byte(s: &[char], b: u128) -> (r: Option<Vec<char>>)
    ensures
        vopt(r) == head_at(s@, b as int),
{
    match boundary_index(s, b) {
        Some(j) => Some(slice_of(s, 0, j)),
        None => None,
    }
}

/// Whether byte `b` of `s` is the ASCII character `c`.
pub fn byte_equals(s: &[char], b: u128, c: char) -> (r: bool)
    ensures
        r == byte_is(s@, b as int, c),
{
    match boundary_index(s, b) {
        Some(j) => j < s.len() && s[j] == c,
        None => false,
    }
}

// ---------------------------------------------------------------------------
// Searching a lower-cased copy
// ---------------------------------------------------------------------------

/// Byte offset, in the lower-cased copy of `h`, of the first occurrence of
/// `kw` there (`h.to_lowercase().find(kw)`).
pub open spec fn lowered_find(h: Seq<char>, kw: Seq<char>) -> Option<nat> {
    match find_spec(lowercase_spec(h), kw) {
        Some(i) => Some(byte_at(lowercase_spec(h), i)),
        None => None,
    }
}

/// The part of `h` after `kw`, located by its byte offset in the lower-cased
/// copy of `h` (`&h[idx + kw.len()..]`): `Some(None)` when `kw` does not
/// occur, `None` when the offset is not a character boundary of `h`.
pub open spec fn after_lowered(h: Seq<char>, kw: Seq<char>) -> Option<Option<Seq<char>>> {
    match lowered_find(h, kw) {
        None => Some(None),
        Some(b) => match tail_at(h, (b + utf8_len(kw)) as int) {
            None => None,
            Some(t) => Some(Some(t)),
        },
    }
}

/// The part of `h` before `kw`, located the same way (`&h[..idx]`).
pub open spec fn before_lowered(h: Seq<char>, kw: Seq<char>) -> Option<Option<Seq<char>>> {
    match lowered_find(h, kw) {
        None => Some(None),
        Some(b) => match head_at(h, b as int) {
            None => None,
            Some(t) => Some(Some(t)),
        },
    }
}

pub open spec fn vopt2(o: Option<Option<Vec<char>>>) -> Option<Option<Seq<char>>> {
    match o {
        Some(Some(v)) => Some(Some(v@)),
        Some(None) => Some(None),
        None => None,
    }
}

/// `h.to_lowercase().find(kw)`, as a byte offset.
pub fn find_lowered(h: &[char], kw: &[char]) -> (r: Option<u128>)
    ensures
        match r {
            Some(b) => lowered_find(h@, kw@) == Some(b as nat) && b <= 4 * usize::MAX,
            None => lowered_find(h@, kw@) is None,
        },
{
    let l = lowercase(h);
    match find(&l, kw) {
        Some(i) => Some(byte_offset(&l, i)),
        None => None,
    }
}

/// See [`after_lowered`].
pub fn after_keyword(h: &[char], kw: &[char]) -> (r: Option<Option<Vec<char>>>)
    ensures
        vopt2(r) == after_lowered(h@, kw@),
{
    match find_lowered(h, kw) {
        None => Some(None),
        Some(b) => {
            let n = byte_len(kw);
            match tail_from_byte(h, b + n) {
                None => None,
                Some(t) => Some(Some(t)),
            }
        },
    }
}

/// See [`before_lowered`].
pub fn before_keyword(h: &[char], kw: &[char]) -> (r: Option<Option<Vec<char>>>)
    ensures
        vopt2(r) == before_lowered(h@, kw@),
{
    match find_lowered(h, kw) {
        None => Some(None),
        Some(b) => match head_to_byte(h, b) {
            None => None,
            Some(t) => Some(Some(t)),
        },
    }
}

} // verus!
