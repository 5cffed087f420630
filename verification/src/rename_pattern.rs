use vstd::prelude::*;

use crate::error::PakerError;
use crate::index_query::{str_views, IndexQuery};
use crate::text::{
    chars_of, contains_char, decimal, eq_chars, ends_with, find, find_spec, has_prefix, occurs_at,
    replace, replace_spec, rfind, slice_of, split_char, split_spec, starts_with, string_from,
    string_of, u64_to_decimal, utf8_len, utf8_len_exceeds, views,
};

verus! {

/// The longest source pattern or destination template accepted, in bytes.
pub const MAX_PATTERN_LEN: usize = 1024;

/// Input of a rename-by-pattern proposal.
pub struct RenamePatternInput {
    pub connection_id: String,
    pub bucket: String,
    pub source_pattern: String,
    pub dest_template: String,
    pub copy_only: bool,
    pub query: Option<IndexQuery>,
}

// ---------------------------------------------------------------------------
// Capturing the wildcards of a glob pattern
// ---------------------------------------------------------------------------

/// One step of matching: literal `parts[i + 1]` (the last one or an inner
/// one) against the unmatched rest `rem` of the key, with captures `caps`.
pub open spec fn capture_step(
    parts: Seq<Seq<char>>,
    i: int,
    rem: Seq<char>,
    caps: Seq<Seq<char>>,
) -> Option<(Seq<char>, Seq<Seq<char>>)> {
    let part = parts[i + 1];
    if i == parts.len() - 2 {
        if part.len() == 0 {
            Some((Seq::empty(), caps.push(rem)))
        } else if ends_with(rem, part) {
            Some((Seq::empty(), caps.push(rem.subrange(0, rem.len() - part.len()))))
        } else {
            None
        }
    } else if part.len() == 0 {
        let next = parts[i + 2];
        if next.len() == 0 {
            Some((Seq::empty(), caps.push(rem)))
        } else {
            match find_spec(rem, next) {
                Some(pos) => Some((rem, caps.push(rem.subrange(0, pos)))),
                None => None,
            }
        }
    } else {
        match find_spec(rem, part) {
            Some(pos) => Some(
                (rem.subrange(pos + part.len(), rem.len() as int), caps.push(rem.subrange(0, pos))),
            ),
            None => None,
        }
    }
}

/// Matching from literal `parts[i + 1]` on.
pub open spec fn capture_from(
    parts: Seq<Seq<char>>,
    i: int,
    rem: Seq<char>,
    caps: Seq<Seq<char>>,
) -> Option<(Seq<char>, Seq<Seq<char>>)>
    decreases parts.len() - i,
{
    if i < 0 || i + 1 >= parts.len() {
        Some((rem, caps))
    } else {
        match capture_step(parts, i, rem, caps) {
            Some((r2, c2)) => capture_from(parts, i + 1, r2, c2),
            None => None,
        }
    }
}

/// The captures of the `*` wildcards of `pattern` in `key`, each inner literal
/// taken at its leftmost occurrence and the last literal at the end; a
/// pattern without `*` must equal the key, which is then its only capture.
pub open spec fn extract_spec(pattern: Seq<char>, key: Seq<char>) -> Option<Seq<Seq<char>>> {
    let parts = split_spec(pattern, '*');
    if parts.len() == 1 {
        if pattern == key {
            Some(seq![key])
        } else {
            None
        }
    } else if !starts_with(key, parts[0]) {
        None
    } else {
        finish_capture(
            capture_from(parts, 0, key.subrange(parts[0].len() as int, key.len() as int), Seq::empty()),
        )
    }
}

/// The captures of a finished match, which must have consumed the whole key.
pub open spec fn finish_capture(o: Option<(Seq<char>, Seq<Seq<char>>)>) -> Option<Seq<Seq<char>>> {
    match o {
        Some((rem, caps)) => if rem.len() == 0 {
            Some(caps)
        } else {
            None
        },
        None => None,
    }
}

fn strings_of(v: &Vec<Vec<char>>) -> (r: Vec<String>)
    ensures
        str_views(r@) == views(v@),
{
    let mut r: Vec<String> = Vec::new();
    let mut i: usize = 0;
    while i < v.len()
        invariant
            i <= v.len(),
            str_views(r@) =~= views(v@).subrange(0, i as int),
        decreases v.len() - i,
    {
        let ghost before = str_views(r@);
        r.push(string_of(&v[i]));
        assert(str_views(r@) =~= before.push(v@[i as int]@));
        i += 1;
    }
    assert(views(v@).subrange(0, v.len() as int) =~= views(v@));
    r
}

fn ends_with_via_rfind(rem: &[char], part: &[char]) -> (r: bool)
    requires
        part.len() > 0,
    ensures
        r == ends_with(rem@, part@),
{
    match rfind(rem, part) {
        Some(pos) => {
            let r = rem.len() - pos == part.len();
            proof {
                if r {
                    assert(rem@.subrange(rem.len() - part.len(), rem.len() as int) == part@);
                }
                if ends_with(rem@, part@) {
                    assert(occurs_at(rem@, part@, rem.len() - part.len()));
                    assert(pos + part.len() <= rem.len());
                }
            }
            r
        },
        None => {
            proof {
                if ends_with(rem@, part@) {
                    assert(occurs_at(rem@, part@, rem.len() - part.len()));
                }
            }
            false
        },
    }
}

/// Split a glob pattern at `*` wildcards and capture what each wildcard
/// matches in `key`; `None` when the key does not match.
pub fn extract_captures(pattern: &str, key: &str) -> (r: Option<Vec<String>>)
    ensures
        r matches Some(v) ==> extract_spec(pattern@, key@) == Some(str_views(v@)),
        r is None ==> extract_spec(pattern@, key@) is None,
{
    let pat = chars_of(pattern);
    let k = chars_of(key);
    let parts = split_char(&pat, '*');
    let ghost ps = views(parts@);
    proof {
        crate::text::lemma_split_len(pattern@, '*');
    }
    if parts.len() == 1 {
        if eq_chars(&pat, &k) {
            let mut v: Vec<String> = Vec::new();
            v.push(string_from(key));
            assert(str_views(v@) =~= seq![key@]);
            return Some(v);
        }
        return None;
    }
    let first = &parts[0];
    if !has_prefix(&k, first) {
        return None;
    }
    let mut rem = slice_of(&k, first.len(), k.len());
    let ghost rem0 = rem@;
    let mut caps: Vec<Vec<char>> = Vec::new();
    assert(views(caps@) =~= Seq::<Seq<char>>::empty());
    let mut i: usize = 0;
    while i + 1 < parts.len()
        invariant
            parts.len() >= 2,
            i < parts.len(),
            ps == views(parts@),
            ps == split_spec(pattern@, '*'),
            extract_spec(pattern@, key@) == finish_capture(capture_from(ps, 0, rem0, Seq::empty())),
            capture_from(ps, 0, rem0, Seq::empty()) == capture_from(ps, i as int, rem@, views(caps@)),
        decreases parts.len() - i,
    {
        let part = &parts[i + 1];
        let ghost c0 = views(caps@);
        let ghost r0 = rem@;
        assert(part@ == ps[i + 1]);
        if i == parts.len() - 2 {
            if part.len() == 0 {
                caps.push(rem);
                rem = Vec::new();
            } else if ends_with_via_rfind(&rem, part) {
                let cap = slice_of(&rem, 0, rem.len() - part.len());
                caps.push(cap);
                rem = Vec::new();
            } else {
                assert(capture_step(ps, i as int, r0, c0) is None);
                return None;
            }
        } else if part.len() == 0 {
            let next = &parts[i + 2];
            assert(next@ == ps[i + 2]);
            if next.len() == 0 {
                caps.push(rem);
                rem = Vec::new();
            } else {
                match find(&rem, next) {
                    Some(pos) => {
                        let cap = slice_of(&rem, 0, pos);
                        caps.push(cap);
                    },
                    None => {
                        assert(capture_step(ps, i as int, r0, c0) is None);
                        return None;
                    },
                }
            }
        } else {
            match find(&rem, part) {
                Some(pos) => {
                    assert(occurs_at(rem@, part@, pos as int));
                    assert(pos + part@.len() <= rem@.len());
                    let plen = part.len();
                    assert(plen == part@.len());
                    assert(rem@.len() == rem.len());
                    let end: usize = pos + plen;
                    let cap = slice_of(&rem, 0, pos);
                    caps.push(cap);
                    rem = slice_of(&rem, end, rem.len());
                },
                None => {
                    assert(capture_step(ps, i as int, r0, c0) is None);
                    return None;
                },
            }
        }
        assert(views(caps@) =~= c0.push(caps@.last()@));
        assert(capture_step(ps, i as int, r0, c0) == Some((rem@, views(caps@))));
        i += 1;
    }
    if rem.len() > 0 {
        return None;
    }
    let out = strings_of(&caps);
    Some(out)
}

/// The literals of a pattern with the captures put back between them:
/// `parts[0] + caps[0] + parts[1] + ... + caps[n-1] + parts[n]`.
pub open spec fn glob_join(parts: Seq<Seq<char>>, caps: Seq<Seq<char>>) -> Seq<char>
    decreases caps.len(),
{
    if caps.len() == 0 || parts.len() == 0 {
        if parts.len() == 0 {
            Seq::empty()
        } else {
            parts[0]
        }
    } else {
        glob_join(parts.drop_last(), caps.drop_last()) + caps.last() + parts.last()
    }
}

/// No two `*` of the pattern are adjacent.
pub open spec fn no_double_star(parts: Seq<Seq<char>>) -> bool {
    forall|j: int| 1 <= j < parts.len() - 1 ==> (#[trigger] parts[j]).len() > 0
}

proof fn lemma_capture_sound(
    parts: Seq<Seq<char>>,
    i: int,
    rem: Seq<char>,
    caps: Seq<Seq<char>>,
    key: Seq<char>,
)
    requires
        0 <= i,
        i + 1 <= parts.len(),
        parts.len() >= 2,
        caps.len() == i,
        key == glob_join(parts.subrange(0, i + 1), caps) + rem,
        no_double_star(parts),
    ensures
        capture_from(parts, i, rem, caps) matches Some((r2, c2)) ==> (c2.len() == parts.len() - 1
            && key == glob_join(parts, c2) + r2),
    decreases parts.len() - i,
{
    if i + 1 >= parts.len() {
        assert(parts.subrange(0, i + 1) =~= parts);
    } else {
        let part = parts[i + 1];
        let next_parts = parts.subrange(0, i + 2);
        assert(next_parts.drop_last() =~= parts.subrange(0, i + 1));
        assert(next_parts.last() == part);
        match capture_step(parts, i, rem, caps) {
            Some((r2, c2)) => {
                let cap = c2.last();
                assert(c2.drop_last() =~= caps);
                assert(glob_join(next_parts, c2) == glob_join(parts.subrange(0, i + 1), caps) + cap
                    + part);
                if i == parts.len() - 2 {
                    if part.len() == 0 {
                        assert(rem =~= cap + part + r2);
                    } else {
                        assert(rem =~= cap + part + r2);
                    }
                } else {
                    assert(part.len() > 0);
                    let pos = find_spec(rem, part)->0;
                    crate::text::lemma_find(rem, part);
                    assert(occurs_at(rem, part, pos));
                    assert(rem =~= rem.subrange(0, pos) + part + rem.subrange(
                        pos + part.len(),
                        rem.len() as int,
                    ));
                }
                assert(key =~= glob_join(next_parts, c2) + r2);
                lemma_capture_sound(parts, i + 1, r2, c2, key);
            },
            None => {},
        }
    }
}

/// Law: when the pattern has a `*` and no two adjacent ones, a successful
/// capture yields one capture per wildcard, and putting the captures back
/// between the pattern's literals gives the key again.
pub proof fn extract_captures_reassembles_key(pattern: Seq<char>, key: Seq<char>)
    requires
        no_double_star(split_spec(pattern, '*')),
        split_spec(pattern, '*').len() >= 2,
    ensures
        extract_spec(pattern, key) matches Some(caps) ==> (caps.len() == split_spec(pattern, '*').len()
            - 1 && key == glob_join(split_spec(pattern, '*'), caps)),
{
    let parts = split_spec(pattern, '*');
    if starts_with(key, parts[0]) {
        let rem0 = key.subrange(parts[0].len() as int, key.len() as int);
        assert(parts.subrange(0, 1)[0] == parts[0]);
        assert(glob_join(parts.subrange(0, 1), Seq::empty()) == parts[0]);
        assert(key =~= parts[0] + rem0);
        lemma_capture_sound(parts, 0, rem0, Seq::empty(), key);
        match capture_from(parts, 0, rem0, Seq::empty()) {
            Some((r2, c2)) => {
                if r2.len() == 0 {
                    assert(glob_join(parts, c2) + r2 =~= glob_join(parts, c2));
                }
            },
            None => {},
        }
    }
}

/// Law: a pattern without `*` captures exactly the key it equals.
pub proof fn extract_captures_literal_pattern(pattern: Seq<char>, key: Seq<char>)
    requires
        split_spec(pattern, '*').len() == 1,
    ensures
        extract_spec(pattern, key) == (if pattern == key {
            Some(seq![key])
        } else {
            None::<Seq<Seq<char>>>
        }),
{
}

// ---------------------------------------------------------------------------
// Substituting captures into a template
// ---------------------------------------------------------------------------

/// The placeholder `{n}`.
pub open spec fn placeholder(n: nat) -> Seq<char> {
    seq!['{'] + decimal(n) + seq!['}']
}

/// `template` with `{n}` for `n` in `k+1..` replaced by capture `n - 1`, one
/// placeholder after the other.
pub open spec fn substitute_from(t: Seq<char>, caps: Seq<Seq<char>>, k: int) -> Seq<char>
    decreases caps.len() - k,
{
    if k < 0 || k >= caps.len() {
        t
    } else {
        substitute_from(replace_spec(t, placeholder((k + 1) as nat), caps[k]), caps, k + 1)
    }
}

/// `{0}` replaced by the full key, then `{1}`, `{2}`, ... by the captures.
pub open spec fn substitute_spec(full_key: Seq<char>, caps: Seq<Seq<char>>, template: Seq<char>) -> Seq<char> {
    substitute_from(replace_spec(template, placeholder(0), full_key), caps, 0)
}

fn placeholder_of(n: u64) -> (r: Vec<char>)
    ensures
        r@ == placeholder(n as nat),
        r@.len() > 0,
{
    let mut r: Vec<char> = Vec::new();
    r.push('{');
    let d = u64_to_decimal(n);
    crate::text::push_all(&mut r, &d);
    r.push('}');
    assert(r@ =~= placeholder(n as nat));
    r
}

/// Replace `{0}` (the full key) and `{1}`, `{2}`, ... (the wildcard captures)
/// in the template.
pub fn substitute_template(full_key: &str, captures: &[String], template: &str) -> (r: String)
    ensures
        r@ == substitute_spec(full_key@, str_views(captures@), template@),
{
    let t = chars_of(template);
    let p0 = placeholder_of(0);
    let fk = chars_of(full_key);
    let mut result = replace(&t, &p0, &fk);
    let ghost caps = str_views(captures@);
    let mut i: usize = 0;
    while i < captures.len()
        invariant
            i <= captures.len(),
            caps == str_views(captures@),
            substitute_spec(full_key@, caps, template@) == substitute_from(result@, caps, i as int),
        decreases captures.len() - i,
    {
        let p = placeholder_of((i + 1) as u64);
        let c = chars_of(captures[i].as_str());
        result = replace(&result, &p, &c);
        i += 1;
    }
    string_of(&result)
}

// ---------------------------------------------------------------------------
// Input validation
// ---------------------------------------------------------------------------

/// The refusal of an over-long or NUL-bearing pattern or template, if any.
pub open spec fn rename_input_problem(pattern: Seq<char>, template: Seq<char>) -> Option<Seq<char>> {
    if utf8_len(pattern) > 1024 || utf8_len(template) > 1024 {
        Some("Pattern or template exceeds maximum length of 1024 characters"@)
    } else if pattern.contains('\0') || template.contains('\0') {
        Some("Pattern or template must not contain null bytes"@)
    } else {
        None
    }
}

/// Refuse patterns or templates longer than 1024 bytes or holding NUL.
pub fn validate_input(input: &RenamePatternInput) -> (r: Result<(), PakerError>)
    ensures
        match rename_input_problem(input.source_pattern@, input.dest_template@) {
            Some(m) => r matches Err(PakerError::InvalidInput(s)) && s@ == m,
            None => r is Ok,
        },
{
    let p = chars_of(input.source_pattern.as_str());
    let t = chars_of(input.dest_template.as_str());
    if utf8_len_exceeds(&p, 1024) || utf8_len_exceeds(&t, 1024) {
        return Err(PakerError::InvalidInput(string_from(
            "Pattern or template exceeds maximum length of 1024 characters",
        )));
    }
    if contains_char(&p, '\0') || contains_char(&t, '\0') {
        return Err(PakerError::InvalidInput(string_from(
            "Pattern or template must not contain null bytes",
        )));
    }
    Ok(())
}

} // verus!
