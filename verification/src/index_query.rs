use vstd::prelude::*;

use crate::text::{
    starts_with, chars_of, contains_char, decimal, join, join_spec, push_all, push_str, replace, replace_spec,
    string_of, trim, trim_char, trim_char_spec, trim_spec, u64_to_decimal, views,
};

verus! {

/// A filter over the objects of a bucket index.
pub struct IndexQuery {
    pub key_pattern: Option<String>,
    pub prefix: Option<String>,
    pub min_size: Option<u64>,
    pub max_size: Option<u64>,
    pub modified_after: Option<String>,
    pub modified_before: Option<String>,
    pub storage_class: Option<Vec<String>>,
    pub limit: u32,
    pub offset: u32,
}

/// The mathematical value of an [`IndexQuery`].
#[verifier::ext_equal]
pub struct IndexQueryView {
    pub key_pattern: Option<Seq<char>>,
    pub prefix: Option<Seq<char>>,
    pub min_size: Option<u64>,
    pub max_size: Option<u64>,
    pub modified_after: Option<Seq<char>>,
    pub modified_before: Option<Seq<char>>,
    pub storage_class: Option<Seq<Seq<char>>>,
    pub limit: u32,
    pub offset: u32,
}

pub open spec fn opt_str_view(o: Option<String>) -> Option<Seq<char>> {
    match o {
        Some(s) => Some(s@),
        None => None,
    }
}

pub open spec fn opt_strs_view(o: Option<Vec<String>>) -> Option<Seq<Seq<char>>> {
    match o {
        Some(v) => Some(str_views(v@)),
        None => None,
    }
}

impl View for IndexQuery {
    type V = IndexQueryView;

    open spec fn view(&self) -> IndexQueryView {
        IndexQueryView {
            key_pattern: opt_str_view(self.key_pattern),
            prefix: opt_str_view(self.prefix),
            min_size: self.min_size,
            max_size: self.max_size,
            modified_after: opt_str_view(self.modified_after),
            modified_before: opt_str_view(self.modified_before),
            storage_class: opt_strs_view(self.storage_class),
            limit: self.limit,
            offset: self.offset,
        }
    }
}

impl IndexQuery {
    /// The empty query: no filters, limit and offset zero.
    pub fn empty() -> (q: IndexQuery)
        ensures
            q.key_pattern is None,
            q.prefix is None,
            q.min_size is None,
            q.max_size is None,
            q.modified_after is None,
            q.modified_before is None,
            q.storage_class is None,
            q.limit == 0,
            q.offset == 0,
    {
        IndexQuery {
            key_pattern: None,
            prefix: None,
            min_size: None,
            max_size: None,
            modified_after: None,
            modified_before: None,
            storage_class: None,
            limit: 0,
            offset: 0,
        }
    }

    /// A query that matches keys containing `text` (trimmed), with the
    /// default limit; blank text yields no key filter.
    pub fn with_key_substring(text: &str) -> (q: IndexQuery)
        ensures
            trim_spec(text@).len() == 0 ==> q.key_pattern is None,
            trim_spec(text@).len() > 0 ==> (q.key_pattern matches Some(p) && p@ == seq!['%']
                + escape_like_spec(trim_spec(text@)) + seq!['%']),
            q.prefix is None,
            q.min_size is None,
            q.max_size is None,
            q.modified_after is None,
            q.modified_before is None,
            q.storage_class is None,
            q.limit == 500,
            q.offset == 0,
    {
        let t = trim(&chars_of(text));
        let key_pattern = if t.len() == 0 {
            None
        } else {
            let mut p: Vec<char> = Vec::new();
            p.push('%');
            let e = escape_like_chars(&t);
            push_all(&mut p, &e);
            p.push('%');
            assert(p@ =~= seq!['%'] + escape_like_spec(trim_spec(text@)) + seq!['%']);
            Some(string_of(&p))
        };
        let mut q = IndexQuery::empty();
        q.key_pattern = key_pattern;
        q.limit = default_limit();
        q
    }
}

/// The limit a deserialised query gets when it names none.
pub fn default_limit() -> (r: u32)
    ensures
        r == 500,
{
    500
}

pub open spec fn bs() -> Seq<char> {
    seq!['\\']
}

/// `value` escaped for a SQL `LIKE` pattern with `\` as the escape character.
pub open spec fn escape_like_spec(value: Seq<char>) -> Seq<char> {
    replace_spec(
        replace_spec(replace_spec(value, bs(), seq!['\\', '\\']), seq!['%'], seq!['\\', '%']),
        seq!['_'],
        seq!['\\', '_'],
    )
}

pub fn escape_like_chars(value: &[char]) -> (r: Vec<char>)
    ensures
        r@ == escape_like_spec(value@),
{
    let b = vec!['\\'];
    let bb = vec!['\\', '\\'];
    let pc = vec!['%'];
    let bpc = vec!['\\', '%'];
    let us = vec!['_'];
    let bus = vec!['\\', '_'];
    assert(b@ =~= bs());
    assert(bb@ =~= seq!['\\', '\\']);
    assert(pc@ =~= seq!['%']);
    assert(bpc@ =~= seq!['\\', '%']);
    assert(us@ =~= seq!['_']);
    assert(bus@ =~= seq!['\\', '_']);
    let a = replace(value, &b, &bb);
    let c = replace(&a, &pc, &bpc);
    replace(&c, &us, &bus)
}

/// Escape `\`, `%` and `_` for a SQL `LIKE` pattern.
pub fn escape_like(value: &str) -> (r: String)
    ensures
        r@ == escape_like_spec(value@),
{
    let v = chars_of(value);
    string_of(&escape_like_chars(&v))
}

/// One character as a `LIKE` pattern spells it.
pub open spec fn escape_char(c: char) -> Seq<char> {
    if c == '\\' || c == '%' || c == '_' {
        seq!['\\', c]
    } else {
        seq![c]
    }
}

/// `s` escaped one character at a time.
pub open spec fn escape_each(s: Seq<char>) -> Seq<char>
    decreases s.len(),
{
    if s.len() == 0 {
        Seq::empty()
    } else {
        escape_char(s[0]) + escape_each(s.subrange(1, s.len() as int))
    }
}

/// The text a `LIKE` pattern with `\` as escape character stands for,
/// read from the left: `\c` is `c`, any other character itself.
pub open spec fn unescape_like(s: Seq<char>) -> Seq<char>
    decreases s.len(),
{
    if s.len() == 0 {
        Seq::empty()
    } else if s[0] == '\\' && s.len() >= 2 {
        seq![s[1]] + unescape_like(s.subrange(2, s.len() as int))
    } else {
        seq![s[0]] + unescape_like(s.subrange(1, s.len() as int))
    }
}

proof fn lemma_replace_concat(u: Seq<char>, v: Seq<char>, a: char, r: Seq<char>)
    ensures
        replace_spec(u + v, seq![a], r) == replace_spec(u, seq![a], r) + replace_spec(v, seq![a], r),
    decreases u.len(),
{
    if u.len() == 0 {
        assert(u + v =~= v);
        assert(replace_spec(u, seq![a], r) =~= Seq::<char>::empty());
    } else {
        let w = u + v;
        let ur = u.subrange(1, u.len() as int);
        assert(w.subrange(1, w.len() as int) =~= ur + v);
        assert(w.subrange(0, 1) =~= seq![w[0]]);
        assert(u.subrange(0, 1) =~= seq![u[0]]);
        assert(w[0] == u[0]);
        if u[0] == a {
            assert(seq![w[0]] =~= seq![a]);
        } else {
            assert(seq![w[0]][0] != seq![a][0]);
        }
        assert(starts_with(w, seq![a]) == (u[0] == a));
        if u[0] == a {
            assert(seq![u[0]] =~= seq![a]);
        } else {
            assert(seq![u[0]][0] != seq![a][0]);
        }
        assert(starts_with(u, seq![a]) == (u[0] == a));
        lemma_replace_concat(ur, v, a, r);
    }
}

proof fn lemma_replace_one(c: char, a: char, r: Seq<char>)
    ensures
        replace_spec(seq![c], seq![a], r) == if c == a {
            r
        } else {
            seq![c]
        },
{
    let s = seq![c];
    assert(s.subrange(0, 1) =~= s);
    assert(s.subrange(1, 1) =~= Seq::<char>::empty());
    assert(replace_spec(s.subrange(1, 1), seq![a], r) =~= Seq::<char>::empty());
    if c == a {
        assert(r + Seq::<char>::empty() =~= r);
    } else {
        assert(seq![c] + Seq::<char>::empty() =~= seq![c]);
    }
}

proof fn lemma_escape_like_one(c: char)
    ensures
        escape_like_spec(seq![c]) == escape_char(c),
{
    let bb = seq!['\\', '\\'];
    let bp = seq!['\\', '%'];
    let bu = seq!['\\', '_'];
    lemma_replace_one(c, '\\', bb);
    let s1 = replace_spec(seq![c], bs(), bb);
    assert(bs() =~= seq!['\\']);
    if c == '\\' {
        assert(bb =~= seq!['\\'] + seq!['\\']);
        lemma_replace_concat(seq!['\\'], seq!['\\'], '%', bp);
        lemma_replace_one('\\', '%', bp);
        lemma_replace_concat(seq!['\\'], seq!['\\'], '_', bu);
        lemma_replace_one('\\', '_', bu);
    } else {
        lemma_replace_one(c, '%', bp);
        if c == '%' {
            assert(bp =~= seq!['\\'] + seq!['%']);
            lemma_replace_concat(seq!['\\'], seq!['%'], '_', bu);
            lemma_replace_one('\\', '_', bu);
            lemma_replace_one('%', '_', bu);
            assert(seq!['\\'] + seq!['%'] =~= bp);
        } else {
            lemma_replace_one(c, '_', bu);
        }
    }
}

/// Escaping for `LIKE` goes one character at a time.
pub proof fn lemma_escape_like_each(s: Seq<char>)
    ensures
        escape_like_spec(s) == escape_each(s),
    decreases s.len(),
{
    if s.len() == 0 {
        assert(replace_spec(s, bs(), seq!['\\', '\\']) =~= s);
        assert(replace_spec(s, seq!['%'], seq!['\\', '%']) =~= s);
        assert(replace_spec(s, seq!['_'], seq!['\\', '_']) =~= s);
    } else {
        let x = s[0];
        let rest = s.subrange(1, s.len() as int);
        assert(s =~= seq![x] + rest);
        assert(bs() =~= seq!['\\']);
        let bb = seq!['\\', '\\'];
        let bp = seq!['\\', '%'];
        let bu = seq!['\\', '_'];
        lemma_replace_concat(seq![x], rest, '\\', bb);
        let a1 = replace_spec(seq![x], bs(), bb);
        let b1 = replace_spec(rest, bs(), bb);
        lemma_replace_concat(a1, b1, '%', bp);
        let a2 = replace_spec(a1, seq!['%'], bp);
        let b2 = replace_spec(b1, seq!['%'], bp);
        lemma_replace_concat(a2, b2, '_', bu);
        lemma_escape_like_one(x);
        lemma_escape_like_each(rest);
    }
}

proof fn lemma_unescape_step(c: char, t: Seq<char>)
    ensures
        unescape_like(escape_char(c) + t) == seq![c] + unescape_like(t),
{
    let w = escape_char(c) + t;
    if c == '\\' || c == '%' || c == '_' {
        assert(w[0] == '\\' && w[1] == c);
        assert(w.subrange(2, w.len() as int) =~= t);
    } else {
        assert(w[0] == c);
        assert(w.subrange(1, w.len() as int) =~= t);
    }
}

/// Reading an escaped `LIKE` pattern back gives the text that was escaped.
pub proof fn law_escape_like_round_trip(s: Seq<char>)
    ensures
        unescape_like(escape_like_spec(s)) == s,
    decreases s.len(),
{
    lemma_escape_like_each(s);
    if s.len() > 0 {
        let rest = s.subrange(1, s.len() as int);
        law_escape_like_round_trip(rest);
        lemma_escape_like_each(rest);
        lemma_unescape_step(s[0], escape_each(rest));
        assert(s =~= seq![s[0]] + rest);
    } else {
        assert(unescape_like(Seq::<char>::empty()) =~= Seq::<char>::empty());
    }
}

/// Read from the left, every `\\` in `s` starts an escape of the character
/// after it, and no `%` or `_` stands unescaped: the pattern has no
/// wildcard and no dangling escape.
pub open spec fn wildcard_free(s: Seq<char>) -> bool
    decreases s.len(),
{
    if s.len() == 0 {
        true
    } else if s[0] == '\\' {
        s.len() >= 2 && wildcard_free(s.subrange(2, s.len() as int))
    } else {
        s[0] != '%' && s[0] != '_' && wildcard_free(s.subrange(1, s.len() as int))
    }
}

/// An escaped `LIKE` pattern matches its text literally: each `%` and `_`
/// in it is escaped by the `\\` before it, and every `\\` escapes
/// something.
pub proof fn law_escape_like_has_no_wildcard(s: Seq<char>)
    ensures
        wildcard_free(escape_like_spec(s)),
    decreases s.len(),
{
    lemma_escape_like_each(s);
    if s.len() > 0 {
        let rest = s.subrange(1, s.len() as int);
        law_escape_like_has_no_wildcard(rest);
        lemma_escape_like_each(rest);
        let c = s[0];
        let t = escape_each(rest);
        let w = escape_char(c) + t;
        if c == '\\' || c == '%' || c == '_' {
            assert(w[0] == '\\');
            assert(w.subrange(2, w.len() as int) =~= t);
        } else {
            assert(w[0] == c);
            assert(w.subrange(1, w.len() as int) =~= t);
        }
    }
}

// ---------------------------------------------------------------------------
// Byte sizes
// ---------------------------------------------------------------------------

/// `bytes / unit` rounded to tenths, halves going to the even tenth.
pub open spec fn tenths(bytes: nat, unit: nat) -> nat
    recommends
        unit > 0,
{
    let q = (bytes * 10) / unit;
    let r = (bytes * 10) % unit;
    if 2 * r > unit || (2 * r == unit && q % 2 == 1) {
        q + 1
    } else {
        q
    }
}

/// A number of tenths written with one decimal place.
pub open spec fn one_decimal(t: nat) -> Seq<char> {
    decimal(t / 10) + seq!['.'] + decimal(t % 10)
}

/// A byte count written with the largest fitting binary unit.
pub open spec fn format_bytes_spec(bytes: nat) -> Seq<char> {
    if bytes >= 1073741824 {
        one_decimal(tenths(bytes, 1073741824)) + " GB"@
    } else if bytes >= 1048576 {
        one_decimal(tenths(bytes, 1048576)) + " MB"@
    } else if bytes >= 1024 {
        one_decimal(tenths(bytes, 1024)) + " KB"@
    } else {
        decimal(bytes) + " B"@
    }
}

fn scaled(bytes: u64, unit: u64) -> (r: Vec<char>)
    requires
        unit > 0,
    ensures
        r@ == one_decimal(tenths(bytes as nat, unit as nat)),
{
    let x: u128 = bytes as u128 * 10;
    let q: u128 = x / unit as u128;
    let rem: u128 = x % unit as u128;
    let t: u128 = if 2 * rem > unit as u128 || (2 * rem == unit as u128 && q % 2 == 1) {
        q + 1
    } else {
        q
    };
    assert(t == tenths(bytes as nat, unit as nat));
    assert(q <= x) by (nonlinear_arith)
        requires q == x / (unit as u128), unit > 0, x >= 0;
    let whole = t / 10;
    let frac = t % 10;
    let mut out = u64_to_decimal(whole as u64);
    out.push('.');
    let f = u64_to_decimal(frac as u64);
    push_all(&mut out, &f);
    out
}

/// A byte count with one decimal place in KB, MB or GB, or whole bytes below
/// one kilobyte.
pub fn format_bytes(bytes: u64) -> (r: String)
    ensures
        r@ == format_bytes_spec(bytes as nat),
{
    let mut out = if bytes >= 1073741824 {
        let mut o = scaled(bytes, 1073741824);
        push_str(&mut o, " GB");
        o
    } else if bytes >= 1048576 {
        let mut o = scaled(bytes, 1048576);
        push_str(&mut o, " MB");
        o
    } else if bytes >= 1024 {
        let mut o = scaled(bytes, 1024);
        push_str(&mut o, " KB");
        o
    } else {
        let mut o = u64_to_decimal(bytes);
        push_str(&mut o, " B");
        o
    };
    string_of(&out)
}

// ---------------------------------------------------------------------------
// Description
// ---------------------------------------------------------------------------

/// The key pattern made readable: `%` stripped from both ends and escapes undone.
pub open spec fn readable_pattern(p: Seq<char>) -> Seq<char> {
    replace_spec(
        replace_spec(replace_spec(trim_char_spec(p, '%'), seq!['\\', '%'], seq!['%']), seq!['\\', '_'], seq!['_']),
        seq!['\\', '\\'],
        bs(),
    )
}

/// The clause that describes a key pattern.
pub open spec fn key_clause(p: Seq<char>) -> Seq<char> {
    let r = readable_pattern(p);
    if r.contains('%') || r.contains('_') {
        "key matches `"@ + r + "`"@
    } else {
        "key contains `"@ + r + "`"@
    }
}

/// The string views of a sequence of strings.
pub open spec fn str_views(v: Seq<String>) -> Seq<Seq<char>> {
    Seq::new(v.len(), |i: int| v[i]@)
}

/// The clauses that describe a query, in order.
pub open spec fn query_clauses(q: IndexQuery) -> Seq<Seq<char>> {
    let a: Seq<Seq<char>> = match q.prefix {
        Some(p) => seq!["prefix starts with `"@ + p@ + "`"@],
        None => Seq::empty(),
    };
    let b: Seq<Seq<char>> = match q.key_pattern {
        Some(p) => seq![key_clause(p@)],
        None => Seq::empty(),
    };
    let c: Seq<Seq<char>> = match q.min_size {
        Some(m) => seq!["size ≥ "@ + format_bytes_spec(m as nat)],
        None => Seq::empty(),
    };
    let d: Seq<Seq<char>> = match q.max_size {
        Some(m) => seq!["size ≤ "@ + format_bytes_spec(m as nat)],
        None => Seq::empty(),
    };
    let e: Seq<Seq<char>> = match q.modified_after {
        Some(t) => seq!["modified after "@ + t@],
        None => Seq::empty(),
    };
    let f: Seq<Seq<char>> = match q.modified_before {
        Some(t) => seq!["modified before "@ + t@],
        None => Seq::empty(),
    };
    let g: Seq<Seq<char>> = match q.storage_class {
        Some(cs) => if cs.len() > 0 {
            seq!["storage class: "@ + join_spec(str_views(cs@), ", "@)]
        } else {
            Seq::empty()
        },
        None => Seq::empty(),
    };
    a + b + c + d + e + f + g
}

/// A one-line human description of a query.
pub open spec fn describe_spec(q: IndexQuery) -> Seq<char> {
    let parts = query_clauses(q);
    if parts.len() == 0 {
        "No filters (matches nothing)"@
    } else {
        join_spec(parts, "; "@)
    }
}

fn wrap(pre: &str, body: &[char], post: &str) -> (r: Vec<char>)
    ensures
        r@ == pre@ + body@ + post@,
{
    let mut v = chars_of(pre);
    push_all(&mut v, body);
    push_str(&mut v, post);
    v
}

fn describe_key(p: &str) -> (r: Vec<char>)
    ensures
        r@ == key_clause(p@),
{
    let pc = chars_of(p);
    let t = trim_char(&pc, '%');
    let bp = vec!['\\', '%'];
    let pp = vec!['%'];
    let bu = vec!['\\', '_'];
    let uu = vec!['_'];
    let bb = vec!['\\', '\\'];
    let b1 = vec!['\\'];
    assert(bp@ =~= seq!['\\', '%']);
    assert(pp@ =~= seq!['%']);
    assert(bu@ =~= seq!['\\', '_']);
    assert(uu@ =~= seq!['_']);
    assert(bb@ =~= seq!['\\', '\\']);
    assert(b1@ =~= bs());
    let a = replace(&t, &bp, &pp);
    let b = replace(&a, &bu, &uu);
    let r = replace(&b, &bb, &b1);
    if contains_char(&r, '%') || contains_char(&r, '_') {
        wrap("key matches `", &r, "`")
    } else {
        wrap("key contains `", &r, "`")
    }
}

fn string_views(v: &Vec<String>) -> (r: Vec<Vec<char>>)
    ensures
        views(r@) == str_views(v@),
{
    let mut r: Vec<Vec<char>> = Vec::new();
    let mut i: usize = 0;
    while i < v.len()
        invariant
            i <= v.len(),
            views(r@) =~= str_views(v@).subrange(0, i as int),
        decreases v.len() - i,
    {
        let ghost before = views(r@);
        r.push(chars_of(v[i].as_str()));
        assert(views(r@) =~= before.push(v@[i as int]@));
        i += 1;
    }
    assert(str_views(v@).subrange(0, v.len() as int) =~= str_views(v@));
    r
}

/// A one-line human description of a query, clause by clause.
#[verifier::rlimit(40)]
pub fn describe_index_query(query: &IndexQuery) -> (r: String)
    ensures
        r@ == describe_spec(*query),
{
    let mut parts: Vec<Vec<char>> = Vec::new();
    let ghost q = *query;
    let ghost a: Seq<Seq<char>> = match q.prefix {
        Some(p) => seq!["prefix starts with `"@ + p@ + "`"@],
        None => Seq::empty(),
    };
    if let Some(prefix) = &query.prefix {
        parts.push(wrap("prefix starts with `", &chars_of(prefix.as_str()), "`"));
    }
    assert(views(parts@) =~= a);
    let ghost b: Seq<Seq<char>> = match q.key_pattern {
        Some(p) => seq![key_clause(p@)],
        None => Seq::empty(),
    };
    if let Some(pattern) = &query.key_pattern {
        parts.push(describe_key(pattern.as_str()));
    }
    assert(views(parts@) =~= a + b);
    let ghost c: Seq<Seq<char>> = match q.min_size {
        Some(m) => seq!["size ≥ "@ + format_bytes_spec(m as nat)],
        None => Seq::empty(),
    };
    if let Some(min) = query.min_size {
        let fb = format_bytes(min);
        parts.push(wrap("size ≥ ", &chars_of(fb.as_str()), ""));
        assert("size ≥ "@ + fb@ + ""@ =~= "size ≥ "@ + fb@) by {
            reveal_strlit("");
        }
    }
    assert(views(parts@) =~= a + b + c);
    let ghost d: Seq<Seq<char>> = match q.max_size {
        Some(m) => seq!["size ≤ "@ + format_bytes_spec(m as nat)],
        None => Seq::empty(),
    };
    if let Some(max) = query.max_size {
        let fb = format_bytes(max);
        parts.push(wrap("size ≤ ", &chars_of(fb.as_str()), ""));
        assert("size ≤ "@ + fb@ + ""@ =~= "size ≤ "@ + fb@) by {
            reveal_strlit("");
        }
    }
    assert(views(parts@) =~= a + b + c + d);
    let ghost e: Seq<Seq<char>> = match q.modified_after {
        Some(t) => seq!["modified after "@ + t@],
        None => Seq::empty(),
    };
    if let Some(after) = &query.modified_after {
        parts.push(wrap("modified after ", &chars_of(after.as_str()), ""));
        assert("modified after "@ + after@ + ""@ =~= "modified after "@ + after@) by {
            reveal_strlit("");
        }
    }
    assert(views(parts@) =~= a + b + c + d + e);
    let ghost f: Seq<Seq<char>> = match q.modified_before {
        Some(t) => seq!["modified before "@ + t@],
        None => Seq::empty(),
    };
    if let Some(before) = &query.modified_before {
        parts.push(wrap("modified before ", &chars_of(before.as_str()), ""));
        assert("modified before "@ + before@ + ""@ =~= "modified before "@ + before@) by {
            reveal_strlit("");
        }
    }
    assert(views(parts@) =~= a + b + c + d + e + f);
    let ghost g: Seq<Seq<char>> = match q.storage_class {
        Some(cs) => if cs.len() > 0 {
            seq!["storage class: "@ + join_spec(str_views(cs@), ", "@)]
        } else {
            Seq::empty()
        },
        None => Seq::empty(),
    };
    if let Some(classes) = &query.storage_class {
        if classes.len() > 0 {
            let joined = join(&string_views(classes), &chars_of(", "));
            parts.push(wrap("storage class: ", &joined, ""));
            assert("storage class: "@ + joined@ + ""@ =~= "storage class: "@ + joined@) by {
                reveal_strlit("");
            }
        }
    }
    assert(views(parts@) =~= query_clauses(q));
    if parts.len() == 0 {
        string_of(&chars_of("No filters (matches nothing)"))
    } else {
        string_of(&join(&parts, &chars_of("; ")))
    }
}

/// Size bounds are described in their own direction: a maximum size always
/// gets a `size ≤` clause and a minimum a `size ≥` clause, and a query whose
/// only filter is a maximum size (or only a minimum) is described by that
/// one clause alone.
pub proof fn law_size_clauses_keep_their_direction(q: IndexQuery)
    ensures
        q.max_size matches Some(m) ==> query_clauses(q).contains(
            "size ≤ "@ + format_bytes_spec(m as nat),
        ),
        q.min_size matches Some(m) ==> query_clauses(q).contains(
            "size ≥ "@ + format_bytes_spec(m as nat),
        ),
        (q.prefix is None && q.key_pattern is None && q.min_size is None && q.modified_after is None
            && q.modified_before is None && q.storage_class is None && q.max_size is Some) ==> describe_spec(q)
            == "size ≤ "@ + format_bytes_spec(q.max_size->0 as nat),
        (q.prefix is None && q.key_pattern is None && q.max_size is None && q.modified_after is None
            && q.modified_before is None && q.storage_class is None && q.min_size is Some) ==> describe_spec(q)
            == "size ≥ "@ + format_bytes_spec(q.min_size->0 as nat),
{
    let parts = query_clauses(q);
    let a: Seq<Seq<char>> = match q.prefix {
        Some(p) => seq!["prefix starts with `"@ + p@ + "`"@],
        None => Seq::empty(),
    };
    let b: Seq<Seq<char>> = match q.key_pattern {
        Some(p) => seq![key_clause(p@)],
        None => Seq::empty(),
    };
    let c: Seq<Seq<char>> = match q.min_size {
        Some(m) => seq!["size ≥ "@ + format_bytes_spec(m as nat)],
        None => Seq::empty(),
    };
    let d: Seq<Seq<char>> = match q.max_size {
        Some(m) => seq!["size ≤ "@ + format_bytes_spec(m as nat)],
        None => Seq::empty(),
    };
    assert(parts == a + b + c + d + (parts.subrange((a + b + c + d).len() as int, parts.len() as int)))
        by {
        assert(parts =~= a + b + c + d + (parts.subrange((a + b + c + d).len() as int, parts.len() as int)));
    }
    if q.max_size is Some {
        let k = (a + b + c).len() as int;
        assert(parts[k] == d[0]);
    }
    if q.min_size is Some {
        let k = (a + b).len() as int;
        assert(parts[k] == c[0]);
    }
}

/// Dates and the prefix are described in their own words: a lower date
/// bound gets a `modified after` clause, an upper one `modified before`, and
/// a prefix a `prefix starts with` clause.
pub proof fn law_date_and_prefix_clauses(q: IndexQuery)
    ensures
        q.modified_after matches Some(t) ==> query_clauses(q).contains("modified after "@ + t@),
        q.modified_before matches Some(t) ==> query_clauses(q).contains("modified before "@ + t@),
        q.prefix matches Some(p) ==> query_clauses(q).contains("prefix starts with `"@ + p@ + "`"@),
{
    let parts = query_clauses(q);
    let a: Seq<Seq<char>> = match q.prefix {
        Some(p) => seq!["prefix starts with `"@ + p@ + "`"@],
        None => Seq::empty(),
    };
    let b: Seq<Seq<char>> = match q.key_pattern {
        Some(p) => seq![key_clause(p@)],
        None => Seq::empty(),
    };
    let c: Seq<Seq<char>> = match q.min_size {
        Some(m) => seq!["size ≥ "@ + format_bytes_spec(m as nat)],
        None => Seq::empty(),
    };
    let d: Seq<Seq<char>> = match q.max_size {
        Some(m) => seq!["size ≤ "@ + format_bytes_spec(m as nat)],
        None => Seq::empty(),
    };
    let e: Seq<Seq<char>> = match q.modified_after {
        Some(t) => seq!["modified after "@ + t@],
        None => Seq::empty(),
    };
    let f: Seq<Seq<char>> = match q.modified_before {
        Some(t) => seq!["modified before "@ + t@],
        None => Seq::empty(),
    };
    let g = parts.subrange((a + b + c + d + e + f).len() as int, parts.len() as int);
    assert(parts =~= a + b + c + d + e + f + g);
    if q.modified_after is Some {
        assert(parts[(a + b + c + d).len() as int] == e[0]);
    }
    if q.modified_before is Some {
        assert(parts[(a + b + c + d + e).len() as int] == f[0]);
    }
    if q.prefix is Some {
        assert(parts[0] == a[0]);
    }
}

} // verus!
