use vstd::prelude::*;

use crate::text::{
    chars_of, contains, contains_seq, eq_chars, is_alpha, is_ascii_alpha, is_control, is_control_char,
    join, join_spec, map_char, push_all, replace_char, split_char, split_spec, string_of, trim,
    trim_spec, views,
};

verus! {

/// Why an object key or a name was refused as a local path or an S3 key.
#[derive(Debug, Clone, Copy, PartialEq, Eq, Structural)]
pub enum PathSafetyError {
    KeyEmpty,
    KeyAbsolute,
    KeyDrivePrefix,
    KeyTraversal,
    KeyNotRelative,
    KeyNoFileName,
    KeyEscapes,
    KeyInvalidChars,
    KeyDotDot,
    NameEmpty,
    NameDotDot,
    NameNotRelative,
    NameInvalidChars,
    NameDrivePrefix,
}

/// The message that explains a refusal.
pub open spec fn path_error_message(e: PathSafetyError) -> Seq<char> {
    match e {
        PathSafetyError::KeyEmpty => "object key is empty"@,
        PathSafetyError::KeyAbsolute => "object key must be relative (got absolute path)"@,
        PathSafetyError::KeyDrivePrefix => "object key must not contain a Windows drive prefix"@,
        PathSafetyError::KeyTraversal => "object key contains path traversal (..)"@,
        PathSafetyError::KeyNotRelative => "object key must be relative"@,
        PathSafetyError::KeyNoFileName => "object key has no file name"@,
        PathSafetyError::KeyEscapes => "resolved path escapes save directory"@,
        PathSafetyError::KeyInvalidChars => "object key contains invalid characters"@,
        PathSafetyError::KeyDotDot => "object key must not contain '..'"@,
        PathSafetyError::NameEmpty => "name is empty"@,
        PathSafetyError::NameDotDot => "name must not contain '..'"@,
        PathSafetyError::NameNotRelative => "name must be relative"@,
        PathSafetyError::NameInvalidChars => "name contains invalid characters"@,
        PathSafetyError::NameDrivePrefix => "name must not contain a Windows drive prefix"@,
    }
}

impl PathSafetyError {
    /// The message that explains the refusal.
    pub fn message(&self) -> (r: &'static str)
        ensures
            r@ == path_error_message(*self),
    {
        match self {
            PathSafetyError::KeyEmpty => "object key is empty",
            PathSafetyError::KeyAbsolute => "object key must be relative (got absolute path)",
            PathSafetyError::KeyDrivePrefix => "object key must not contain a Windows drive prefix",
            PathSafetyError::KeyTraversal => "object key contains path traversal (..)",
            PathSafetyError::KeyNotRelative => "object key must be relative",
            PathSafetyError::KeyNoFileName => "object key has no file name",
            PathSafetyError::KeyEscapes => "resolved path escapes save directory",
            PathSafetyError::KeyInvalidChars => "object key contains invalid characters",
            PathSafetyError::KeyDotDot => "object key must not contain '..'",
            PathSafetyError::NameEmpty => "name is empty",
            PathSafetyError::NameDotDot => "name must not contain '..'",
            PathSafetyError::NameNotRelative => "name must be relative",
            PathSafetyError::NameInvalidChars => "name contains invalid characters",
            PathSafetyError::NameDrivePrefix => "name must not contain a Windows drive prefix",
        }
    }
}

// ---------------------------------------------------------------------------
// Specifications
// ---------------------------------------------------------------------------

pub open spec fn dot() -> Seq<char> {
    seq!['.']
}

pub open spec fn dotdot() -> Seq<char> {
    seq!['.', '.']
}

/// A key starts with an ASCII letter followed by `:` (such as `C:`).
pub open spec fn drive_prefix(s: Seq<char>) -> bool {
    s.len() >= 2 && is_ascii_alpha(s[0]) && s[1] == ':'
}

/// A leading `/` or `\`.
pub open spec fn leading_separator(s: Seq<char>) -> bool {
    s.len() > 0 && (s[0] == '/' || s[0] == '\\')
}

/// Some character of `s` is a control character (NUL included).
pub open spec fn has_control(s: Seq<char>) -> bool {
    exists|i: int| 0 <= i < s.len() && is_control(#[trigger] s[i])
}

/// The pieces of an object key, with `\` read as `/`.
pub open spec fn key_pieces(key: Seq<char>) -> Seq<Seq<char>> {
    split_spec(map_char(key, '\\', '/'), '/')
}

/// Walk the pieces of a relative key from index `i` on, with `acc` the
/// components accepted so far; the first offending piece decides the error.
pub open spec fn scan_pieces(
    pieces: Seq<Seq<char>>,
    i: int,
    acc: Seq<Seq<char>>,
) -> Result<Seq<Seq<char>>, PathSafetyError>
    decreases pieces.len() - i,
{
    if i >= pieces.len() || i < 0 {
        if acc.len() == 0 {
            Err(PathSafetyError::KeyNoFileName)
        } else {
            Ok(acc)
        }
    } else {
        let p = pieces[i];
        if p.len() == 0 || p == dot() {
            scan_pieces(pieces, i + 1, acc)
        } else if p == dotdot() {
            Err(PathSafetyError::KeyTraversal)
        } else if drive_prefix(p) {
            Err(PathSafetyError::KeyDrivePrefix)
        } else {
            scan_pieces(pieces, i + 1, acc.push(p))
        }
    }
}

/// The relative path components of an object key, or why it has none.
pub open spec fn key_components_spec(key: Seq<char>) -> Result<Seq<Seq<char>>, PathSafetyError> {
    let norm = map_char(key, '\\', '/');
    if norm.len() > 0 && norm[0] == '/' {
        Err(PathSafetyError::KeyNotRelative)
    } else {
        scan_pieces(key_pieces(key), 0, Seq::empty())
    }
}

/// A directory path joined with a relative path (`Path::join`).
pub open spec fn join_path(dir: Seq<char>, rel: Seq<char>) -> Seq<char> {
    if dir.len() == 0 {
        rel
    } else if dir.last() == '/' {
        dir + rel
    } else {
        dir + seq!['/'] + rel
    }
}

/// The pieces of a path kept as components: empty pieces and `.` are dropped.
pub open spec fn kept(pieces: Seq<Seq<char>>) -> Seq<Seq<char>>
    decreases pieces.len(),
{
    if pieces.len() == 0 {
        Seq::empty()
    } else {
        let r = kept(pieces.drop_last());
        let p = pieces.last();
        if p.len() == 0 || p == dot() {
            r
        } else {
            r.push(p)
        }
    }
}

/// A path starts at the root.
pub open spec fn rooted(s: Seq<char>) -> bool {
    s.len() > 0 && s[0] == '/'
}

/// The components of a path after its root, if any (`Path::components`): a
/// leading `.` of a relative path is kept, other `.` and empty pieces are not.
pub open spec fn path_comps(s: Seq<char>) -> Seq<Seq<char>> {
    let pieces = split_spec(s, '/');
    if !rooted(s) && pieces[0] == dot() {
        seq![dot()] + kept(pieces)
    } else {
        kept(pieces)
    }
}

/// Lexical normalisation of components: `.` dropped, `..` removes the
/// previous component when there is one.
pub open spec fn lex_norm(comps: Seq<Seq<char>>) -> Seq<Seq<char>>
    decreases comps.len(),
{
    if comps.len() == 0 {
        Seq::empty()
    } else {
        let r = lex_norm(comps.drop_last());
        let c = comps.last();
        if c == dot() {
            r
        } else if c == dotdot() {
            if r.len() > 0 {
                r.drop_last()
            } else {
                r
            }
        } else {
            r.push(c)
        }
    }
}

/// `a` is a prefix of `b`, component by component.
pub open spec fn comps_prefix(a: Seq<Seq<char>>, b: Seq<Seq<char>>) -> bool {
    a.len() <= b.len() && b.subrange(0, a.len() as int) == a
}

/// `candidate` lies at or under `base` once both are normalised lexically.
pub open spec fn lexically_under(base: Seq<char>, candidate: Seq<char>) -> bool {
    rooted(base) == rooted(candidate) && comps_prefix(
        lex_norm(path_comps(base)),
        lex_norm(path_comps(candidate)),
    )
}

/// `path` lies at or under `root`, component by component (`Path::starts_with`).
pub open spec fn under_root(path: Seq<char>, root: Seq<char>) -> bool {
    rooted(path) == rooted(root) && comps_prefix(path_comps(root), path_comps(path))
}

/// The local destination of an object key below `save_dir`, or why there is none.
pub open spec fn sanitize_spec(save_dir: Seq<char>, key: Seq<char>) -> Result<Seq<char>, PathSafetyError> {
    if key.len() == 0 {
        Err(PathSafetyError::KeyEmpty)
    } else if leading_separator(key) {
        Err(PathSafetyError::KeyAbsolute)
    } else if drive_prefix(key) {
        Err(PathSafetyError::KeyDrivePrefix)
    } else {
        match key_components_spec(key) {
            Err(e) => Err(e),
            Ok(comps) => {
                let joined = join_path(save_dir, join_spec(comps, seq!['/']));
                if lexically_under(save_dir, joined) {
                    Ok(joined)
                } else {
                    Err(PathSafetyError::KeyEscapes)
                }
            },
        }
    }
}

// ---------------------------------------------------------------------------
// Implementation
// ---------------------------------------------------------------------------

/// Whether a key starts with a Windows drive prefix such as `C:`.
pub fn has_windows_drive_prefix(key: &[char]) -> (b: bool)
    ensures
        b == drive_prefix(key@),
{
    key.len() >= 2 && is_alpha(key[0]) && key[1] == ':'
}

pub fn is_dot(p: &[char]) -> (b: bool)
    ensures
        b == (p@ == dot()),
{
    let r = p.len() == 1 && p[0] == '.';
    proof {
        if r {
            assert(p@ =~= dot());
        }
    }
    r
}

pub fn is_dotdot(p: &[char]) -> (b: bool)
    ensures
        b == (p@ == dotdot()),
{
    let r = p.len() == 2 && p[0] == '.' && p[1] == '.';
    proof {
        if r {
            assert(p@ =~= dotdot());
        }
    }
    r
}

/// The relative components of an object key: `\` counts as `/`, empty and
/// `.` pieces are skipped, and `..`, a root or a drive prefix is refused.
pub fn normalize_object_key_components(key: &[char]) -> (r: Result<Vec<Vec<char>>, PathSafetyError>)
    ensures
        match r {
            Ok(v) => key_components_spec(key@) == Ok::<Seq<Seq<char>>, PathSafetyError>(views(v@)),
            Err(e) => key_components_spec(key@) == Err::<Seq<Seq<char>>, PathSafetyError>(e),
        },
{
    let norm = replace_char(key, '\\', '/');
    if norm.len() > 0 && norm[0] == '/' {
        return Err(PathSafetyError::KeyNotRelative);
    }
    let pieces = split_char(&norm, '/');
    let ghost ps = views(pieces@);
    let mut acc: Vec<Vec<char>> = Vec::new();
    let mut i: usize = 0;
    assert(views(acc@) =~= Seq::<Seq<char>>::empty());
    while i < pieces.len()
        invariant
            i <= pieces.len(),
            ps == views(pieces@),
            ps == key_pieces(key@),
            key_components_spec(key@) == scan_pieces(ps, 0, Seq::empty()),
            scan_pieces(ps, 0, Seq::empty()) == scan_pieces(ps, i as int, views(acc@)),
        decreases pieces.len() - i,
    {
        let p = &pieces[i];
        assert(p@ == ps[i as int]);
        if p.len() == 0 || is_dot(p) {
        } else if is_dotdot(p) {
            return Err(PathSafetyError::KeyTraversal);
        } else if has_windows_drive_prefix(p) {
            return Err(PathSafetyError::KeyDrivePrefix);
        } else {
            let ghost before = views(acc@);
            acc.push(p.clone());
            assert(views(acc@) =~= before.push(ps[i as int]));
        }
        i += 1;
    }
    if acc.len() == 0 {
        return Err(PathSafetyError::KeyNoFileName);
    }
    Ok(acc)
}

/// Path components of `s` (see [`path_comps`]).
pub fn parse_path(s: &[char]) -> (r: Vec<Vec<char>>)
    ensures
        views(r@) == path_comps(s@),
{
    let pieces = split_char(s, '/');
    let ghost ps = views(pieces@);
    proof {
        crate::text::lemma_split_len(s@, '/');
    }
    let mut out: Vec<Vec<char>> = Vec::new();
    let lead_dot = !(s.len() > 0 && s[0] == '/') && is_dot(&pieces[0]);
    if lead_dot {
        out.push(pieces[0].clone());
    }
    let ghost start = views(out@);
    let mut i: usize = 0;
    while i < pieces.len()
        invariant
            i <= pieces.len(),
            ps == views(pieces@),
            views(out@) == start + kept(ps.subrange(0, i as int)),
        decreases pieces.len() - i,
    {
        assert(ps.subrange(0, i + 1).drop_last() =~= ps.subrange(0, i as int));
        let p = &pieces[i];
        if !(p.len() == 0 || is_dot(p)) {
            let ghost before = views(out@);
            out.push(p.clone());
            assert(views(out@) =~= before.push(p@));
        }
        i += 1;
    }
    assert(ps.subrange(0, pieces.len() as int) =~= ps);
    proof {
        if !lead_dot {
            assert(start =~= Seq::<Seq<char>>::empty());
            assert(views(out@) =~= kept(ps));
        } else {
            assert(start =~= seq![dot()]);
        }
    }
    out
}

/// Lexical normalisation of path components (see [`lex_norm`]).
pub fn normalize_lexical(comps: &Vec<Vec<char>>) -> (r: Vec<Vec<char>>)
    ensures
        views(r@) == lex_norm(views(comps@)),
{
    let ghost cs = views(comps@);
    let mut out: Vec<Vec<char>> = Vec::new();
    let mut i: usize = 0;
    while i < comps.len()
        invariant
            i <= comps.len(),
            cs == views(comps@),
            views(out@) == lex_norm(cs.subrange(0, i as int)),
        decreases comps.len() - i,
    {
        assert(cs.subrange(0, i + 1).drop_last() =~= cs.subrange(0, i as int));
        let c = &comps[i];
        let ghost before = views(out@);
        if is_dot(c) {
        } else if is_dotdot(c) {
            if out.len() > 0 {
                out.pop();
                assert(views(out@) =~= before.drop_last());
            }
        } else {
            out.push(c.clone());
            assert(views(out@) =~= before.push(c@));
        }
        i += 1;
    }
    assert(cs.subrange(0, comps.len() as int) =~= cs);
    out
}

fn comps_is_prefix(a: &Vec<Vec<char>>, b: &Vec<Vec<char>>) -> (r: bool)
    ensures
        r == comps_prefix(views(a@), views(b@)),
{
    if a.len() > b.len() {
        return false;
    }
    let mut i: usize = 0;
    while i < a.len()
        invariant
            a.len() <= b.len(),
            i <= a.len(),
            forall|j: int| 0 <= j < i ==> views(a@)[j] == views(b@)[j],
        decreases a.len() - i,
    {
        if !eq_chars(&a[i], &b[i]) {
            assert(views(b@).subrange(0, a.len() as int)[i as int] != views(a@)[i as int]);
            return false;
        }
        i += 1;
    }
    assert(views(b@).subrange(0, a.len() as int) =~= views(a@));
    true
}

/// Whether `candidate` stays at or under `base` after lexical normalisation.
pub fn is_lexically_under(base: &[char], candidate: &[char]) -> (r: bool)
    ensures
        r == lexically_under(base@, candidate@),
{
    let rb = base.len() > 0 && base[0] == '/';
    let rc = candidate.len() > 0 && candidate[0] == '/';
    if rb != rc {
        return false;
    }
    let nb = normalize_lexical(&parse_path(base));
    let nc = normalize_lexical(&parse_path(candidate));
    comps_is_prefix(&nb, &nc)
}

/// Whether `path` equals `root` or lies under it, both already resolved
/// (`path == root || path.starts_with(root)`).
pub fn is_path_under_root(path: &str, root: &str) -> (r: bool)
    ensures
        r == under_root(path@, root@),
{
    let p = chars_of(path);
    let q = chars_of(root);
    let rp = p.len() > 0 && p[0] == '/';
    let rq = q.len() > 0 && q[0] == '/';
    if rp != rq {
        return false;
    }
    let cp = parse_path(&p);
    let cq = parse_path(&q);
    comps_is_prefix(&cq, &cp)
}

/// `dir` joined with the relative path `rel`.
pub fn join_dir(dir: &[char], rel: &[char]) -> (r: Vec<char>)
    ensures
        r@ == join_path(dir@, rel@),
{
    if dir.len() == 0 {
        return slice_of_all(rel);
    }
    let mut out = slice_of_all(dir);
    if dir[dir.len() - 1] != '/' {
        out.push('/');
    }
    push_all(&mut out, rel);
    out
}

fn slice_of_all(s: &[char]) -> (r: Vec<char>)
    ensures
        r@ == s@,
{
    let r = crate::text::slice_of(s, 0, s.len());
    assert(s@.subrange(0, s.len() as int) =~= s@);
    r
}

/// The local path for an object key below `save_dir`, refusing keys that are
/// empty, absolute, drive-prefixed, contain `..`, have no file name, or would
/// leave `save_dir`.  Once the caller has resolved symbolic links in the
/// save folder and in this path, [`ensure_resolved_under`] checks them.
pub fn sanitize_object_key_for_local_path(save_dir: &str, key: &str) -> (r: Result<String, PathSafetyError>)
    ensures
        match r {
            Ok(p) => sanitize_spec(save_dir@, key@) == Ok::<Seq<char>, PathSafetyError>(p@),
            Err(e) => sanitize_spec(save_dir@, key@) == Err::<Seq<char>, PathSafetyError>(e),
        },
        r matches Ok(p) ==> lexically_under(save_dir@, p@),
{
    let k = chars_of(key);
    if k.len() == 0 {
        return Err(PathSafetyError::KeyEmpty);
    }
    if k[0] == '/' || k[0] == '\\' {
        return Err(PathSafetyError::KeyAbsolute);
    }
    if has_windows_drive_prefix(&k) {
        return Err(PathSafetyError::KeyDrivePrefix);
    }
    let comps = match normalize_object_key_components(&k) {
        Ok(c) => c,
        Err(e) => return Err(e),
    };
    let sep = vec!['/'];
    assert(sep@ =~= seq!['/']);
    let rel = join(&comps, &sep);
    let dir = chars_of(save_dir);
    let joined = join_dir(&dir, &rel);
    if !is_lexically_under(&dir, &joined) {
        return Err(PathSafetyError::KeyEscapes);
    }
    Ok(string_of(&joined))
}

/// The check of a download target once symbolic links are resolved: where
/// both the save folder and the target resolve (`canonicalize`; `None`
/// where that fails), the resolved target must lie at or under the
/// resolved folder, component by component; else the target escapes.
pub fn ensure_resolved_under(resolved_dir: Option<&str>, resolved_target: Option<&str>) -> (r: Result<
    (),
    PathSafetyError,
>)
    ensures
        match resolved_dir {
            Some(d) => match resolved_target {
                Some(t) => if under_root(t@, d@) {
                    r is Ok
                } else {
                    r == Err::<(), PathSafetyError>(PathSafetyError::KeyEscapes)
                },
                None => r is Ok,
            },
            None => r is Ok,
        },
{
    match resolved_dir {
        Some(d) => match resolved_target {
            Some(t) => if is_path_under_root(t, d) {
                Ok(())
            } else {
                Err(PathSafetyError::KeyEscapes)
            },
            None => Ok(()),
        },
        None => Ok(()),
    }
}

/// Same as [`sanitize_object_key_for_local_path`].
pub fn local_dest_path(save_dir: &str, key: &str) -> (r: Result<String, PathSafetyError>)
    ensures
        match r {
            Ok(p) => sanitize_spec(save_dir@, key@) == Ok::<Seq<char>, PathSafetyError>(p@),
            Err(e) => sanitize_spec(save_dir@, key@) == Err::<Seq<char>, PathSafetyError>(e),
        },
{
    sanitize_object_key_for_local_path(save_dir, key)
}

/// What [`validate_s3_key_segment`] decides for a name.
pub open spec fn segment_check(segment: Seq<char>) -> Result<(), PathSafetyError> {
    let s = trim_spec(segment);
    if s.len() == 0 {
        Err(PathSafetyError::NameEmpty)
    } else if contains_seq(s, dotdot()) {
        Err(PathSafetyError::NameDotDot)
    } else if leading_separator(s) {
        Err(PathSafetyError::NameNotRelative)
    } else if has_control(s) {
        Err(PathSafetyError::NameInvalidChars)
    } else if drive_prefix(s) {
        Err(PathSafetyError::NameDrivePrefix)
    } else {
        Ok(())
    }
}

fn find_control(s: &[char]) -> (b: bool)
    ensures
        b == has_control(s@),
{
    let mut i: usize = 0;
    while i < s.len()
        invariant
            i <= s.len(),
            forall|j: int| 0 <= j < i ==> !is_control(#[trigger] s@[j]),
        decreases s.len() - i,
    {
        if is_control_char(s[i]) {
            assert(is_control(s@[i as int]));
            return true;
        }
        i += 1;
    }
    false
}

fn check_segment(segment: &[char]) -> (r: Result<(), PathSafetyError>)
    ensures
        r == segment_check(segment@),
{
    let s = trim(segment);
    if s.len() == 0 {
        return Err(PathSafetyError::NameEmpty);
    }
    let dd = vec!['.', '.'];
    assert(dd@ =~= dotdot());
    if contains(&s, &dd) {
        return Err(PathSafetyError::NameDotDot);
    }
    if s[0] == '/' || s[0] == '\\' {
        return Err(PathSafetyError::NameNotRelative);
    }
    if find_control(&s) {
        return Err(PathSafetyError::NameInvalidChars);
    }
    if has_windows_drive_prefix(&s) {
        return Err(PathSafetyError::NameDrivePrefix);
    }
    Ok(())
}

/// Validate an S3 key segment used for create/rename/join operations.
pub fn validate_s3_key_segment(segment: &str) -> (r: Result<(), PathSafetyError>)
    ensures
        r == segment_check(segment@),
{
    let s = chars_of(segment);
    check_segment(&s)
}

/// The pieces of a full key after `\` is read as `/`, checked in order.
pub open spec fn key_segments_check(pieces: Seq<Seq<char>>, i: int) -> Result<(), PathSafetyError>
    decreases pieces.len() - i,
{
    if i < 0 || i >= pieces.len() {
        Ok(())
    } else if pieces[i] == dotdot() {
        Err(PathSafetyError::KeyDotDot)
    } else if pieces[i].len() > 0 && segment_check(pieces[i]) is Err {
        segment_check(pieces[i])
    } else {
        key_segments_check(pieces, i + 1)
    }
}

/// What [`validate_s3_object_key`] decides for a key.
pub open spec fn object_key_check(key: Seq<char>) -> Result<(), PathSafetyError> {
    if key.len() == 0 {
        Err(PathSafetyError::KeyEmpty)
    } else if leading_separator(key) {
        Err(PathSafetyError::KeyNotRelative)
    } else if has_control(key) {
        Err(PathSafetyError::KeyInvalidChars)
    } else {
        key_segments_check(key_pieces(key), 0)
    }
}

/// Validate a full S3 object key for mutations.
pub fn validate_s3_object_key(key: &str) -> (r: Result<(), PathSafetyError>)
    ensures
        r == object_key_check(key@),
{
    let k = chars_of(key);
    if k.len() == 0 {
        return Err(PathSafetyError::KeyEmpty);
    }
    if k[0] == '/' || k[0] == '\\' {
        return Err(PathSafetyError::KeyNotRelative);
    }
    if find_control(&k) {
        return Err(PathSafetyError::KeyInvalidChars);
    }
    let norm = replace_char(&k, '\\', '/');
    let pieces = split_char(&norm, '/');
    let ghost ps = views(pieces@);
    let mut i: usize = 0;
    while i < pieces.len()
        invariant
            i <= pieces.len(),
            ps == views(pieces@),
            ps == key_pieces(k@),
            k@ == key@,
            k@.len() > 0 && !leading_separator(k@) && !has_control(k@),
            key_segments_check(ps, 0) == key_segments_check(ps, i as int),
        decreases pieces.len() - i,
    {
        let p = &pieces[i];
        assert(p@ == ps[i as int]);
        if is_dotdot(p) {
            return Err(PathSafetyError::KeyDotDot);
        }
        if p.len() > 0 {
            match check_segment(p) {
                Err(e) => return Err(e),
                Ok(()) => {},
            }
        }
        i += 1;
    }
    Ok(())
}

} // verus!
