use vstd::prelude::*;

verus! {

// ---------------------------------------------------------------------------
// Specifications over character sequences
// ---------------------------------------------------------------------------

/// `pat` occurs in `s` starting at index `i`.
pub open spec fn occurs_at(s: Seq<char>, pat: Seq<char>, i: int) -> bool {
    0 <= i && i + pat.len() <= s.len() && s.subrange(i, i + pat.len()) == pat
}

/// `pat` occurs somewhere in `s`.
pub open spec fn contains_seq(s: Seq<char>, pat: Seq<char>) -> bool {
    exists|i: int| occurs_at(s, pat, i)
}

/// `p` is a prefix of `s`.
pub open spec fn starts_with(s: Seq<char>, p: Seq<char>) -> bool {
    p.len() <= s.len() && s.subrange(0, p.len() as int) == p
}

/// `p` is a suffix of `s`.
pub open spec fn ends_with(s: Seq<char>, p: Seq<char>) -> bool {
    p.len() <= s.len() && s.subrange(s.len() - p.len(), s.len() as int) == p
}

/// Index of the leftmost occurrence of `pat` in `s` at or after `i`, if any.
pub open spec fn find_from_spec(s: Seq<char>, pat: Seq<char>, i: int) -> Option<int>
    decreases s.len() + 1 - i,
{
    if i < 0 || i > s.len() {
        None
    } else if occurs_at(s, pat, i) {
        Some(i)
    } else {
        find_from_spec(s, pat, i + 1)
    }
}

/// Index of the leftmost occurrence of `pat` in `s`, if any (`str::find`).
pub open spec fn find_spec(s: Seq<char>, pat: Seq<char>) -> Option<int> {
    find_from_spec(s, pat, 0)
}

/// What [`find_from_spec`] returns is the leftmost occurrence from `i` on.
pub proof fn lemma_find_from(s: Seq<char>, pat: Seq<char>, i: int)
    requires
        0 <= i,
    ensures
        find_from_spec(s, pat, i) matches Some(k) ==> i <= k && occurs_at(s, pat, k) && forall|j: int|
            i <= j < k ==> !occurs_at(s, pat, j),
        find_from_spec(s, pat, i) is None ==> forall|j: int| i <= j ==> !occurs_at(s, pat, j),
    decreases s.len() + 1 - i,
{
    if i <= s.len() && !occurs_at(s, pat, i) {
        lemma_find_from(s, pat, i + 1);
    }
}

/// What [`find_spec`] returns is the leftmost occurrence.
pub proof fn lemma_find(s: Seq<char>, pat: Seq<char>)
    ensures
        find_spec(s, pat) matches Some(k) ==> occurs_at(s, pat, k) && forall|j: int|
            0 <= j < k ==> !occurs_at(s, pat, j),
        find_spec(s, pat) is None ==> !contains_seq(s, pat),
{
    lemma_find_from(s, pat, 0);
    if find_spec(s, pat) is None {
        assert forall|j: int| !occurs_at(s, pat, j) by {
            if j >= 0 {
                assert(!occurs_at(s, pat, j));
            }
        }
    }
}

/// `s` with every non-overlapping occurrence of the non-empty `pat`, scanned
/// from the left, replaced by `rep` (the behaviour of `str::replace`).
pub open spec fn replace_spec(s: Seq<char>, pat: Seq<char>, rep: Seq<char>) -> Seq<char>
    decreases s.len(),
{
    if pat.len() == 0 || s.len() < pat.len() {
        s
    } else if starts_with(s, pat) {
        rep + replace_spec(s.subrange(pat.len() as int, s.len() as int), pat, rep)
    } else {
        seq![s[0]] + replace_spec(s.subrange(1, s.len() as int), pat, rep)
    }
}

/// Unicode `White_Space`, the property behind `char::is_whitespace`.
pub open spec fn is_ws(c: char) -> bool {
    ||| ('\u{9}' <= c && c <= '\u{d}')
    ||| c == ' '
    ||| c == '\u{85}'
    ||| c == '\u{a0}'
    ||| c == '\u{1680}'
    ||| ('\u{2000}' <= c && c <= '\u{200a}')
    ||| c == '\u{2028}'
    ||| c == '\u{2029}'
    ||| c == '\u{202f}'
    ||| c == '\u{205f}'
    ||| c == '\u{3000}'
}

/// Unicode general category `Cc`, the property behind `char::is_control`.
pub open spec fn is_control(c: char) -> bool {
    c <= '\u{1f}' || ('\u{7f}' <= c && c <= '\u{9f}')
}

pub open spec fn is_ascii_digit(c: char) -> bool {
    '0' <= c && c <= '9'
}

pub open spec fn is_ascii_alpha(c: char) -> bool {
    ('a' <= c && c <= 'z') || ('A' <= c && c <= 'Z')
}

pub open spec fn is_ascii_alnum(c: char) -> bool {
    is_ascii_digit(c) || is_ascii_alpha(c)
}

/// Number of leading whitespace characters of `s`.
pub open spec fn lead_ws(s: Seq<char>) -> nat
    decreases s.len(),
{
    if s.len() > 0 && is_ws(s[0]) {
        1 + lead_ws(s.subrange(1, s.len() as int))
    } else {
        0
    }
}

/// Number of trailing whitespace characters of `s`.
pub open spec fn trail_ws(s: Seq<char>) -> nat
    decreases s.len(),
{
    if s.len() > 0 && is_ws(s[s.len() - 1]) {
        1 + trail_ws(s.subrange(0, s.len() - 1))
    } else {
        0
    }
}

/// `s` without leading whitespace (`str::trim_start`).
pub open spec fn trim_start_spec(s: Seq<char>) -> Seq<char> {
    s.subrange(lead_ws(s) as int, s.len() as int)
}

/// `s` without trailing whitespace (`str::trim_end`).
pub open spec fn trim_end_spec(s: Seq<char>) -> Seq<char> {
    s.subrange(0, s.len() - trail_ws(s))
}

/// `s` without leading and trailing whitespace (`str::trim`).
pub open spec fn trim_spec(s: Seq<char>) -> Seq<char> {
    trim_end_spec(trim_start_spec(s))
}

/// Number of leading `c` characters of `s`.
pub open spec fn lead_char(s: Seq<char>, c: char) -> nat
    decreases s.len(),
{
    if s.len() > 0 && s[0] == c {
        1 + lead_char(s.subrange(1, s.len() as int), c)
    } else {
        0
    }
}

/// Number of trailing `c` characters of `s`.
pub open spec fn trail_char(s: Seq<char>, c: char) -> nat
    decreases s.len(),
{
    if s.len() > 0 && s[s.len() - 1] == c {
        1 + trail_char(s.subrange(0, s.len() - 1), c)
    } else {
        0
    }
}

/// `s` without leading and trailing `c` characters (`str::trim_matches(c)`).
pub open spec fn trim_char_spec(s: Seq<char>, c: char) -> Seq<char> {
    let a = s.subrange(lead_char(s, c) as int, s.len() as int);
    a.subrange(0, a.len() - trail_char(a, c))
}

/// Bytes taken by `c` in UTF-8.
pub open spec fn utf8_width(c: char) -> nat {
    if (c as u32) < 0x80 {
        1
    } else if (c as u32) < 0x800 {
        2
    } else if (c as u32) < 0x10000 {
        3
    } else {
        4
    }
}

/// Bytes taken by `s` in UTF-8 (`str::len`).
pub open spec fn utf8_len(s: Seq<char>) -> nat
    decreases s.len(),
{
    if s.len() == 0 {
        0
    } else {
        utf8_len(s.drop_last()) + utf8_width(s.last())
    }
}

/// ASCII lower-casing of one character.
pub open spec fn ascii_lower(c: char) -> char {
    if 'A' <= c && c <= 'Z' {
        ((c as u32) + 32) as char
    } else {
        c
    }
}

/// ASCII lower-casing of a sequence (`str::to_ascii_lowercase`).
pub open spec fn ascii_lower_seq(s: Seq<char>) -> Seq<char> {
    Seq::new(s.len(), |i: int| ascii_lower(s[i]))
}

/// Decimal digits of `n`, most significant first, without leading zeros.
pub open spec fn decimal(n: nat) -> Seq<char>
    decreases n,
{
    if n < 10 {
        seq![digit_char(n)]
    } else {
        decimal(n / 10).push(digit_char(n % 10))
    }
}

pub open spec fn digit_char(d: nat) -> char {
    ((d + 48) as u32) as char
}

/// Decimal rendering of a signed integer, with `-` for negative values.
pub open spec fn decimal_int(n: int) -> Seq<char> {
    if n < 0 {
        seq!['-'] + decimal((-n) as nat)
    } else {
        decimal(n as nat)
    }
}

/// Value of a sequence of decimal digits.
pub open spec fn digits_value(s: Seq<char>) -> nat
    decreases s.len(),
{
    if s.len() == 0 {
        0
    } else {
        digits_value(s.subrange(0, s.len() - 1)) * 10 + ((s[s.len() - 1] as u32) - 48) as nat
    }
}

pub open spec fn all_digits(s: Seq<char>) -> bool {
    forall|i: int| 0 <= i < s.len() ==> is_ascii_digit(#[trigger] s[i])
}

/// What `str::parse::<u64>` accepts: an optional `+` and at least one decimal
/// digit, with a value that fits in `u64`.
pub open spec fn parse_u64_spec(s: Seq<char>) -> Option<u64> {
    if unsigned_body(s).len() > 0 && all_digits(unsigned_body(s)) && digits_value(unsigned_body(s))
        <= u64::MAX {
        Some(digits_value(unsigned_body(s)) as u64)
    } else {
        None
    }
}

/// The digits of a number after an optional leading `+`.
pub open spec fn unsigned_body(s: Seq<char>) -> Seq<char> {
    if s.len() > 0 && s[0] == '+' {
        s.subrange(1, s.len() as int)
    } else {
        s
    }
}

/// Pieces of `s` between occurrences of `sep` (`str::split` with a char).
pub open spec fn split_spec(s: Seq<char>, sep: char) -> Seq<Seq<char>>
    decreases s.len(),
{
    if s.len() == 0 {
        seq![Seq::empty()]
    } else {
        let r = split_spec(s.drop_last(), sep);
        if s.last() == sep {
            r.push(Seq::empty())
        } else {
            r.update(r.len() - 1, r.last().push(s.last()))
        }
    }
}

pub proof fn lemma_split_len(s: Seq<char>, sep: char)
    ensures
        split_spec(s, sep).len() >= 1,
    decreases s.len(),
{
    if s.len() > 0 {
        lemma_split_len(s.drop_last(), sep);
    }
}

/// The views of a sequence of character vectors.
pub open spec fn views(v: Seq<Vec<char>>) -> Seq<Seq<char>> {
    Seq::new(v.len(), |i: int| v[i]@)
}

/// `s` with every `from` character replaced by `to`.
pub open spec fn map_char(s: Seq<char>, from: char, to: char) -> Seq<char> {
    Seq::new(s.len(), |i: int| if s[i] == from { to } else { s[i] })
}

/// The pieces joined with `sep` between them (`[String]::join`).
pub open spec fn join_spec(pieces: Seq<Seq<char>>, sep: Seq<char>) -> Seq<char>
    decreases pieces.len(),
{
    if pieces.len() == 0 {
        Seq::empty()
    } else if pieces.len() == 1 {
        pieces[0]
    } else {
        join_spec(pieces.drop_last(), sep) + sep + pieces.last()
    }
}

// ---------------------------------------------------------------------------
// Conversions between `str`/`String` and `Vec<char>`
// ---------------------------------------------------------------------------

/// The characters of `s`, in order.
pub fn chars_of(s: &str) -> (v: Vec<char>)
    ensures
        v@ == s@,
{
    let mut v: Vec<char> = Vec::new();
    for c in it: s.chars()
        invariant
            v@ == it.seq().take(it.index() as int),
            it.seq() == s@,
    {
        v.push(c);
    }
    v
}

/// std `String::push`: appends one character to the string.
#[verifier::external_body]
fn push_char(s: &mut String, c: char)
    ensures
        final(s)@ == old(s)@.push(c),
{
    s.push(c)
}

/// A `String` holding the characters of `v`.
pub fn string_of(v: &[char]) -> (s: String)
    ensures
        s@ == v@,
{
    let mut s = String::new();
    let mut i: usize = 0;
    while i < v.len()
        invariant
            i <= v.len(),
            s@ == v@.subrange(0, i as int),
        decreases v.len() - i,
    {
        push_char(&mut s, v[i]);
        i += 1;
    }
    s
}

/// A `String` holding the characters of the string slice.
pub fn string_from(s: &str) -> (r: String)
    ensures
        r@ == s@,
{
    let v = chars_of(s);
    string_of(&v)
}

/// Appends all of `b` to `a`.
pub fn push_all(a: &mut Vec<char>, b: &[char])
    ensures
        final(a)@ == old(a)@ + b@,
{
    let mut i: usize = 0;
    while i < b.len()
        invariant
            i <= b.len(),
            a@ == old(a)@ + b@.subrange(0, i as int),
        decreases b.len() - i,
    {
        a.push(b[i]);
        i += 1;
        assert(b@.subrange(0, i as int) == b@.subrange(0, i - 1).push(b@[i - 1]));
    }
    assert(b@.subrange(0, b.len() as int) == b@);
}

/// Appends the characters of a string slice to `a`.
pub fn push_str(a: &mut Vec<char>, s: &str)
    ensures
        final(a)@ == old(a)@ + s@,
{
    let v = chars_of(s);
    push_all(a, &v);
}

/// Concatenation of two character slices.
pub fn concat(a: &[char], b: &[char]) -> (r: Vec<char>)
    ensures
        r@ == a@ + b@,
{
    let mut r: Vec<char> = Vec::new();
    push_all(&mut r, a);
    push_all(&mut r, b);
    assert(Seq::<char>::empty() + a@ == a@);
    r
}

/// Characters `from..to` of `s`.
pub fn slice_of(s: &[char], from: usize, to: usize) -> (r: Vec<char>)
    requires
        from <= to <= s.len(),
    ensures
        r@ == s@.subrange(from as int, to as int),
{
    let mut r: Vec<char> = Vec::new();
    let mut i: usize = from;
    while i < to
        invariant
            from <= i <= to <= s.len(),
            r@ == s@.subrange(from as int, i as int),
        decreases to - i,
    {
        r.push(s[i]);
        i += 1;
    }
    r
}

// ---------------------------------------------------------------------------
// Searching
// ---------------------------------------------------------------------------

/// Whether `pat` occurs in `s` at index `i`.
pub fn matches_at(s: &[char], pat: &[char], i: usize) -> (b: bool)
    ensures
        b == occurs_at(s@, pat@, i as int),
{
    if i > s.len() || pat.len() > s.len() - i {
        return false;
    }
    let mut k: usize = 0;
    while k < pat.len()
        invariant
            i + pat.len() <= s.len(),
            k <= pat.len(),
            forall|m: int| 0 <= m < k ==> s@[i + m] == pat@[m],
        decreases pat.len() - k,
    {
        if s[i + k] != pat[k] {
            assert(s@.subrange(i as int, i + pat.len())[k as int] != pat@[k as int]);
            return false;
        }
        k += 1;
    }
    assert(s@.subrange(i as int, i + pat.len()) =~= pat@);
    true
}

/// Leftmost index at or after `from` where `pat` occurs in `s`.
pub fn find_from(s: &[char], pat: &[char], from: usize) -> (r: Option<usize>)
    ensures
        r matches Some(i) ==> find_from_spec(s@, pat@, from as int) == Some(i as int),
        r is None ==> find_from_spec(s@, pat@, from as int) is None,
        match r {
            Some(i) => from <= i && occurs_at(s@, pat@, i as int) && forall|j: int|
                from <= j < i ==> !occurs_at(s@, pat@, j),
            None => forall|j: int| from <= j ==> !occurs_at(s@, pat@, j),
        },
{
    proof {
        lemma_find_from(s@, pat@, from as int);
    }
    if pat.len() > s.len() {
        proof {
            lemma_no_room(s@, pat@, from as int);
        }
        return None;
    }
    let last = s.len() - pat.len();
    if from > last {
        proof {
            lemma_no_room(s@, pat@, from as int);
        }
        return None;
    }
    let mut i: usize = from;
    loop
        invariant
            last == s.len() - pat.len(),
            from <= i <= last,
            forall|j: int| from <= j < i ==> !occurs_at(s@, pat@, j),
            find_from_spec(s@, pat@, from as int) == find_from_spec(s@, pat@, i as int),
        decreases last - i,
    {
        if matches_at(s, pat, i) {
            return Some(i);
        }
        if i == last {
            proof {
                lemma_no_room(s@, pat@, i + 1);
            }
            return None;
        }
        i += 1;
    }
}

proof fn lemma_no_room(s: Seq<char>, pat: Seq<char>, i: int)
    requires
        0 <= i,
        i + pat.len() > s.len(),
    ensures
        find_from_spec(s, pat, i) is None,
    decreases s.len() + 1 - i,
{
    if i <= s.len() {
        lemma_no_room(s, pat, i + 1);
    }
}

/// Leftmost index where `pat` occurs in `s` (`str::find`).
pub fn find(s: &[char], pat: &[char]) -> (r: Option<usize>)
    ensures
        r matches Some(i) ==> find_spec(s@, pat@) == Some(i as int),
        r is None ==> find_spec(s@, pat@) is None,
        match r {
            Some(i) => occurs_at(s@, pat@, i as int) && forall|j: int|
                0 <= j < i ==> !occurs_at(s@, pat@, j),
            None => !contains_seq(s@, pat@),
        },
{
    proof {
        lemma_find(s@, pat@);
    }
    find_from(s, pat, 0)
}

/// Rightmost index where `pat` occurs in `s` (`str::rfind`).
pub fn rfind(s: &[char], pat: &[char]) -> (r: Option<usize>)
    ensures
        match r {
            Some(i) => occurs_at(s@, pat@, i as int) && forall|j: int|
                i < j ==> !occurs_at(s@, pat@, j),
            None => !contains_seq(s@, pat@),
        },
{
    if pat.len() > s.len() {
        return None;
    }
    let mut i: usize = s.len() - pat.len();
    loop
        invariant
            i <= s.len() - pat.len(),
            forall|j: int| i < j ==> !occurs_at(s@, pat@, j),
        decreases i,
    {
        if matches_at(s, pat, i) {
            return Some(i);
        }
        if i == 0 {
            return None;
        }
        i -= 1;
    }
}

/// Whether `pat` occurs in `s` (`str::contains`).
pub fn contains(s: &[char], pat: &[char]) -> (b: bool)
    ensures
        b == contains_seq(s@, pat@),
{
    find(s, pat).is_some()
}

/// Whether the character `c` occurs in `s`.
pub fn contains_char(s: &[char], c: char) -> (b: bool)
    ensures
        b == s@.contains(c),
{
    let mut i: usize = 0;
    while i < s.len()
        invariant
            i <= s.len(),
            forall|j: int| 0 <= j < i ==> s@[j] != c,
        decreases s.len() - i,
    {
        if s[i] == c {
            return true;
        }
        i += 1;
    }
    false
}

/// Whether `s` begins with `p` (`str::starts_with`).
pub fn has_prefix(s: &[char], p: &[char]) -> (b: bool)
    ensures
        b == starts_with(s@, p@),
{
    let b = matches_at(s, p, 0);
    b
}

/// Whether `s` ends with `p` (`str::ends_with`).
pub fn has_suffix(s: &[char], p: &[char]) -> (b: bool)
    ensures
        b == ends_with(s@, p@),
{
    if p.len() > s.len() {
        return false;
    }
    matches_at(s, p, s.len() - p.len())
}

/// Whether two character slices are equal.
pub fn eq_chars(a: &[char], b: &[char]) -> (r: bool)
    ensures
        r == (a@ == b@),
{
    if a.len() != b.len() {
        return false;
    }
    let r = matches_at(a, b, 0);
    proof {
        if r { assert(a@.subrange(0, a@.len() as int) == a@); }
        if a@ == b@ { assert(a@.subrange(0, b@.len() as int) =~= b@); }
    }
    r
}

/// Whether a string slice equals a character slice.
pub fn str_eq(a: &str, b: &[char]) -> (r: bool)
    ensures
        r == (a@ == b@),
{
    let v = chars_of(a);
    eq_chars(&v, b)
}

// ---------------------------------------------------------------------------
// Transformations
// ---------------------------------------------------------------------------

/// `s` with each leftmost non-overlapping occurrence of the non-empty `pat`
/// replaced by `rep` (`str::replace`).
pub fn replace(s: &[char], pat: &[char], rep: &[char]) -> (r: Vec<char>)
    requires
        pat.len() > 0,
    ensures
        r@ == replace_spec(s@, pat@, rep@),
{
    let mut out: Vec<char> = Vec::new();
    let mut i: usize = 0;
    assert(s@.subrange(0, s.len() as int) =~= s@);
    assert(out@ + s@ =~= s@);
    while i < s.len()
        invariant
            i <= s.len(),
            pat.len() > 0,
            out@ + replace_spec(s@.subrange(i as int, s.len() as int), pat@, rep@)
                == replace_spec(s@, pat@, rep@),
        decreases s.len() - i,
    {
        let ghost rest = s@.subrange(i as int, s.len() as int);
        if matches_at(s, pat, i) {
            assert(starts_with(rest, pat@)) by {
                assert(rest.subrange(0, pat@.len() as int) =~= s@.subrange(i as int, i + pat@.len()));
            }
            assert(rest.subrange(pat@.len() as int, rest.len() as int) =~= s@.subrange(
                i + pat@.len(),
                s.len() as int,
            ));
            let ghost before = out@;
            push_all(&mut out, rep);
            i += pat.len();
            assert(out@ + replace_spec(s@.subrange(i as int, s.len() as int), pat@, rep@)
                =~= before + replace_spec(rest, pat@, rep@));
        } else {
            proof {
                if rest.len() >= pat@.len() {
                    assert(!starts_with(rest, pat@)) by {
                        assert(rest.subrange(0, pat@.len() as int) =~= s@.subrange(i as int, i + pat@.len()));
                    }
                }
                assert(rest.subrange(1, rest.len() as int) =~= s@.subrange(i + 1, s.len() as int));
                if rest.len() < pat@.len() {
                    assert(replace_spec(rest, pat@, rep@) == rest);
                    lemma_replace_short(rest.subrange(1, rest.len() as int), pat@, rep@);
                    assert(rest =~= seq![rest[0]] + rest.subrange(1, rest.len() as int));
                }
            }
            out.push(s[i]);
            i += 1;
        }
    }
    proof {
        assert(s@.subrange(s.len() as int, s.len() as int) =~= Seq::<char>::empty());
        assert(out@ + Seq::<char>::empty() =~= out@);
    }
    out
}

pub proof fn lemma_replace_short(s: Seq<char>, pat: Seq<char>, rep: Seq<char>)
    requires
        s.len() < pat.len(),
    ensures
        replace_spec(s, pat, rep) == s,
{
}

/// `s` without leading and trailing whitespace (`str::trim`).
pub fn trim(s: &[char]) -> (r: Vec<char>)
    ensures
        r@ == trim_spec(s@),
{
    let a = trim_start(s);
    trim_end(&a)
}

/// `s` without leading whitespace (`str::trim_start`).
pub fn trim_start(s: &[char]) -> (r: Vec<char>)
    ensures
        r@ == trim_start_spec(s@),
{
    let mut i: usize = 0;
    assert(s@.subrange(0, s.len() as int) =~= s@);
    while i < s.len() && is_whitespace(s[i])
        invariant
            i <= s.len(),
            lead_ws(s@) == i + lead_ws(s@.subrange(i as int, s.len() as int)),
        decreases s.len() - i,
    {
        assert(s@.subrange(i as int, s.len() as int).subrange(1, s.len() - i) =~= s@.subrange(
            i + 1,
            s.len() as int,
        ));
        i += 1;
    }
    proof {
        if i < s.len() {
            assert(s@.subrange(i as int, s.len() as int)[0] == s@[i as int]);
        }
    }
    slice_of(s, i, s.len())
}

/// `s` without trailing whitespace (`str::trim_end`).
pub fn trim_end(s: &[char]) -> (r: Vec<char>)
    ensures
        r@ == trim_end_spec(s@),
{
    let mut j: usize = s.len();
    assert(s@.subrange(0, s.len() as int) =~= s@);
    while j > 0 && is_whitespace(s[j - 1])
        invariant
            j <= s.len(),
            trail_ws(s@) == (s.len() - j) + trail_ws(s@.subrange(0, j as int)),
        decreases j,
    {
        assert(s@.subrange(0, j as int).subrange(0, j - 1) =~= s@.subrange(0, j - 1));
        j -= 1;
    }
    slice_of(s, 0, j)
}

/// `s` without leading and trailing `c` characters (`str::trim_matches(c)`).
pub fn trim_char(s: &[char], c: char) -> (r: Vec<char>)
    ensures
        r@ == trim_char_spec(s@, c),
{
    let mut i: usize = 0;
    assert(s@.subrange(0, s.len() as int) =~= s@);
    while i < s.len() && s[i] == c
        invariant
            i <= s.len(),
            lead_char(s@, c) == i + lead_char(s@.subrange(i as int, s.len() as int), c),
        decreases s.len() - i,
    {
        assert(s@.subrange(i as int, s.len() as int).subrange(1, s.len() - i) =~= s@.subrange(
            i + 1,
            s.len() as int,
        ));
        i += 1;
    }
    proof {
        if i < s.len() {
            assert(s@.subrange(i as int, s.len() as int)[0] == s@[i as int]);
        }
    }
    let a = slice_of(s, i, s.len());
    let mut j: usize = a.len();
    assert(a@.subrange(0, a.len() as int) =~= a@);
    while j > 0 && a[j - 1] == c
        invariant
            j <= a.len(),
            trail_char(a@, c) == (a.len() - j) + trail_char(a@.subrange(0, j as int), c),
        decreases j,
    {
        assert(a@.subrange(0, j as int).subrange(0, j - 1) =~= a@.subrange(0, j - 1));
        j -= 1;
    }
    slice_of(&a, 0, j)
}

/// Whether `s` takes more than `limit` bytes in UTF-8.
pub fn utf8_len_exceeds(s: &[char], limit: u64) -> (r: bool)
    requires
        limit < u64::MAX - 4,
    ensures
        r == (utf8_len(s@) > limit),
{
    let mut total: u64 = 0;
    let mut i: usize = 0;
    while i < s.len()
        invariant
            i <= s.len(),
            limit < u64::MAX - 4,
            total == utf8_len(s@.subrange(0, i as int)),
            total <= limit,
        decreases s.len() - i,
    {
        assert(s@.subrange(0, i + 1).drop_last() =~= s@.subrange(0, i as int));
        let c = s[i];
        let w: u64 = if (c as u32) < 0x80 {
            1
        } else if (c as u32) < 0x800 {
            2
        } else if (c as u32) < 0x10000 {
            3
        } else {
            4
        };
        total = total + w;
        i += 1;
        if total > limit {
            proof {
                lemma_utf8_len_mono(s@, i as int);
            }
            return true;
        }
    }
    assert(s@.subrange(0, s.len() as int) =~= s@);
    false
}

/// The UTF-8 length of a prefix never exceeds that of the whole.
pub proof fn lemma_utf8_len_mono(s: Seq<char>, k: int)
    requires
        0 <= k <= s.len(),
    ensures
        utf8_len(s.subrange(0, k)) <= utf8_len(s),
    decreases s.len() - k,
{
    if k < s.len() {
        lemma_utf8_len_mono(s, k + 1);
        assert(s.subrange(0, k + 1).drop_last() =~= s.subrange(0, k));
    } else {
        assert(s.subrange(0, k) =~= s);
    }
}

/// `char::is_whitespace`.
pub fn is_whitespace(c: char) -> (b: bool)
    ensures
        b == is_ws(c),
{
    ('\u{9}' <= c && c <= '\u{d}') || c == ' ' || c == '\u{85}' || c == '\u{a0}' || c
        == '\u{1680}' || ('\u{2000}' <= c && c <= '\u{200a}') || c == '\u{2028}' || c == '\u{2029}'
        || c == '\u{202f}' || c == '\u{205f}' || c == '\u{3000}'
}

/// `char::is_control`.
pub fn is_control_char(c: char) -> (b: bool)
    ensures
        b == is_control(c),
{
    c <= '\u{1f}' || ('\u{7f}' <= c && c <= '\u{9f}')
}

/// `char::is_ascii_digit`.
pub fn is_digit(c: char) -> (b: bool)
    ensures
        b == is_ascii_digit(c),
{
    '0' <= c && c <= '9'
}

/// `char::is_ascii_alphabetic`.
pub fn is_alpha(c: char) -> (b: bool)
    ensures
        b == is_ascii_alpha(c),
{
    ('a' <= c && c <= 'z') || ('A' <= c && c <= 'Z')
}

/// `char::is_ascii_alphanumeric`.
pub fn is_alnum(c: char) -> (b: bool)
    ensures
        b == is_ascii_alnum(c),
{
    is_digit(c) || is_alpha(c)
}

/// `char::to_ascii_lowercase`.
pub fn to_ascii_lower(c: char) -> (r: char)
    ensures
        r == ascii_lower(c),
{
    if 'A' <= c && c <= 'Z' {
        let code: u32 = c as u32 + 32;
        assert(code <= 0x7a);
        char_from_ascii(code)
    } else {
        c
    }
}

/// The character with an ASCII code point.
fn char_from_ascii(code: u32) -> (c: char)
    requires
        code < 128,
    ensures
        c == code as char,
{
    let b: u8 = code as u8;
    b as char
}

/// ASCII lower-casing of a sequence (`str::to_ascii_lowercase`).
pub fn to_ascii_lower_all(s: &[char]) -> (r: Vec<char>)
    ensures
        r@ == ascii_lower_seq(s@),
{
    let mut r: Vec<char> = Vec::new();
    let mut i: usize = 0;
    while i < s.len()
        invariant
            i <= s.len(),
            r@ =~= ascii_lower_seq(s@.subrange(0, i as int)),
        decreases s.len() - i,
    {
        r.push(to_ascii_lower(s[i]));
        i += 1;
    }
    assert(s@.subrange(0, s.len() as int) =~= s@);
    r
}

/// Whether two slices are equal ignoring ASCII case (`str::eq_ignore_ascii_case`).
pub fn eq_ignore_ascii_case(a: &[char], b: &[char]) -> (r: bool)
    ensures
        r == (ascii_lower_seq(a@) == ascii_lower_seq(b@)),
{
    let la = to_ascii_lower_all(a);
    let lb = to_ascii_lower_all(b);
    eq_chars(&la, &lb)
}

/// Pieces of `s` between occurrences of `sep`.
pub fn split_char(s: &[char], sep: char) -> (r: Vec<Vec<char>>)
    ensures
        views(r@) == split_spec(s@, sep),
{
    let mut done: Vec<Vec<char>> = Vec::new();
    let mut cur: Vec<char> = Vec::new();
    let mut i: usize = 0;
    assert(views(done@).push(cur@) =~= split_spec(s@.subrange(0, 0), sep));
    while i < s.len()
        invariant
            i <= s.len(),
            views(done@).push(cur@) == split_spec(s@.subrange(0, i as int), sep),
        decreases s.len() - i,
    {
        let ghost pre = s@.subrange(0, i as int);
        assert(s@.subrange(0, i + 1).drop_last() =~= pre);
        let c = s[i];
        if c == sep {
            let ghost d = views(done@);
            done.push(cur);
            cur = Vec::new();
            assert(views(done@) =~= d.push(views(done@).last()));
            assert(views(done@).push(cur@) =~= split_spec(s@.subrange(0, i + 1), sep));
        } else {
            cur.push(c);
            assert(views(done@).push(cur@) =~= split_spec(s@.subrange(0, i + 1), sep));
        }
        i += 1;
    }
    assert(s@.subrange(0, s.len() as int) =~= s@);
    done.push(cur);
    assert(views(done@) =~= split_spec(s@, sep));
    done
}

/// `s` with every `from` character replaced by `to`.
pub fn replace_char(s: &[char], from: char, to: char) -> (r: Vec<char>)
    ensures
        r@ == map_char(s@, from, to),
{
    let mut r: Vec<char> = Vec::new();
    let mut i: usize = 0;
    while i < s.len()
        invariant
            i <= s.len(),
            r@ =~= map_char(s@.subrange(0, i as int), from, to),
        decreases s.len() - i,
    {
        r.push(if s[i] == from { to } else { s[i] });
        i += 1;
    }
    assert(s@.subrange(0, s.len() as int) =~= s@);
    r
}

/// The pieces joined with `sep` between them.
pub fn join(pieces: &Vec<Vec<char>>, sep: &[char]) -> (r: Vec<char>)
    ensures
        r@ == join_spec(views(pieces@), sep@),
{
    let mut r: Vec<char> = Vec::new();
    let mut i: usize = 0;
    while i < pieces.len()
        invariant
            i <= pieces.len(),
            r@ == join_spec(views(pieces@).subrange(0, i as int), sep@),
        decreases pieces.len() - i,
    {
        let ghost pre = views(pieces@).subrange(0, i as int);
        assert(views(pieces@).subrange(0, i + 1).drop_last() =~= pre);
        if i > 0 {
            push_all(&mut r, sep);
        }
        push_all(&mut r, &pieces[i]);
        proof {
            if i == 0 {
                assert(Seq::<char>::empty() + pieces@[0]@ =~= pieces@[0]@);
            } else {
                assert(r@ =~= join_spec(pre, sep@) + sep@ + pieces@[i as int]@);
            }
        }
        i += 1;
    }
    assert(views(pieces@).subrange(0, pieces.len() as int) =~= views(pieces@));
    r
}

// ---------------------------------------------------------------------------
// Numbers
// ---------------------------------------------------------------------------

/// Decimal rendering of `n` (`u64::to_string`).
pub fn u64_to_decimal(n: u64) -> (r: Vec<char>)
    ensures
        r@ == decimal(n as nat),
    decreases n,
{
    if n < 10 {
        let c = digit(n);
        let mut r: Vec<char> = Vec::new();
        r.push(c);
        r
    } else {
        let mut r = u64_to_decimal(n / 10);
        r.push(digit(n % 10));
        r
    }
}

fn digit(d: u64) -> (c: char)
    requires
        d < 10,
    ensures
        c == digit_char(d as nat),
{
    char_from_ascii((d + 48) as u32)
}

/// Lower-case hex digits of `n`, most significant first, without leading
/// zeros (`{:x}`).
pub open spec fn hex(n: nat) -> Seq<char>
    decreases n,
{
    if n < 16 {
        seq![hex_char(n)]
    } else {
        hex(n / 16).push(hex_char(n % 16))
    }
}

pub open spec fn hex_char(d: nat) -> char {
    if d < 10 {
        ((d + 48) as u32) as char
    } else {
        ((d + 87) as u32) as char
    }
}

/// Hex rendering of `n` (`format!("{n:x}")`).
pub fn u64_to_hex(n: u64) -> (r: Vec<char>)
    ensures
        r@ == hex(n as nat),
    decreases n,
{
    if n < 16 {
        let mut r: Vec<char> = Vec::new();
        r.push(hex_digit(n));
        r
    } else {
        let mut r = u64_to_hex(n / 16);
        r.push(hex_digit(n % 16));
        r
    }
}

pub(crate) fn hex_digit(d: u64) -> (c: char)
    requires
        d < 16,
    ensures
        c == hex_char(d as nat),
{
    if d < 10 {
        char_from_ascii((d + 48) as u32)
    } else {
        char_from_ascii((d + 87) as u32)
    }
}

/// Decimal rendering of a signed integer (`i64::to_string`).
pub fn i64_to_decimal(n: i64) -> (r: Vec<char>)
    ensures
        r@ == decimal_int(n as int),
{
    if n < 0 {
        let m: u64 = if n == i64::MIN {
            9223372036854775808u64
        } else {
            (-n) as u64
        };
        let d = u64_to_decimal(m);
        let mut r: Vec<char> = Vec::new();
        r.push('-');
        push_all(&mut r, &d);
        assert(seq!['-'] + d@ =~= r@);
        r
    } else {
        u64_to_decimal(n as u64)
    }
}

pub proof fn lemma_digits_value_push(s: Seq<char>, c: char)
    ensures
        digits_value(s.push(c)) == digits_value(s) * 10 + ((c as u32) - 48) as nat,
{
    assert(s.push(c).subrange(0, s.len() as int) =~= s);
}

/// `str::parse::<u64>`.
pub fn parse_u64(s: &[char]) -> (r: Option<u64>)
    ensures
        r == parse_u64_spec(s@),
{
    let start: usize = if s.len() > 0 && s[0] == '+' { 1 } else { 0 };
    let ghost body = unsigned_body(s@);
    assert(body =~= s@.subrange(start as int, s.len() as int));
    if start >= s.len() {
        return None;
    }
    let mut acc: u64 = 0;
    let mut i: usize = start;
    while i < s.len()
        invariant
            start <= i <= s.len(),
            body =~= s@.subrange(start as int, s.len() as int),
            body == unsigned_body(s@),
            all_digits(s@.subrange(start as int, i as int)),
            acc as nat == digits_value(s@.subrange(start as int, i as int)),
        decreases s.len() - i,
    {
        let c = s[i];
        let ghost prefix = s@.subrange(start as int, i as int);
        assert(s@.subrange(start as int, i + 1) =~= prefix.push(c));
        proof { lemma_digits_value_push(prefix, c); }
        if !is_digit(c) {
            assert(body[i - start] == c);
            assert(!is_ascii_digit(body[i - start]));
            assert(!all_digits(body));
            assert(parse_u64_spec(s@) is None);
            return None;
        }
        let d: u64 = (c as u32 - 48) as u64;
        if acc > (u64::MAX - d) / 10 {
            proof {
                assert(body.subrange(0, i + 1 - start) =~= prefix.push(c));
                assert(all_digits(body.subrange(0, i + 1 - start)));
                lemma_digits_value_monotone(body, (i + 1 - start) as int);
            }
            assert(acc * 10 + d > u64::MAX) by (nonlinear_arith)
                requires acc > (u64::MAX - d) / 10, d < 10;
            assert(digits_value(prefix.push(c)) == acc * 10 + d);
            assert(all_digits(body) ==> digits_value(body) > u64::MAX);
            assert(parse_u64_spec(s@) is None);
            return None;
        }
        assert(acc * 10 + d <= u64::MAX) by (nonlinear_arith)
            requires acc <= (u64::MAX - d) / 10, d < 10;
        acc = acc * 10 + d;
        i += 1;
    }
    assert(s@.subrange(start as int, s.len() as int) =~= body);
    Some(acc)
}

/// A digit-string's value never decreases when more digits are added.
pub proof fn lemma_digits_value_monotone(s: Seq<char>, k: int)
    requires
        0 <= k <= s.len(),
        all_digits(s.subrange(0, k)),
    ensures
        all_digits(s) ==> digits_value(s) >= digits_value(s.subrange(0, k)),
    decreases s.len() - k,
{
    if all_digits(s) && k < s.len() {
        assert(all_digits(s.subrange(0, k + 1)));
        lemma_digits_value_monotone(s, k + 1);
        assert(s.subrange(0, k + 1) =~= s.subrange(0, k).push(s[k]));
        lemma_digits_value_push(s.subrange(0, k), s[k]);
    } else if all_digits(s) {
        assert(s.subrange(0, k) =~= s);
    }
}

} // verus!
