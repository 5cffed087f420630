use vstd::prelude::*;

use crate::error::PakerError;
use crate::index_query::{opt_str_view, str_views};
use crate::plans::{less_than, str_lt};
use crate::s3_ops::{lemma_str_lt_irreflexive, lemma_str_lt_total, lemma_str_lt_trans};
use crate::scan::{lowercase, lowercase_spec};
use crate::path_safety::{is_path_under_root, under_root};
use crate::text::{chars_of, decimal, eq_chars, push_all, string_of, u64_to_decimal};

verus! {

/// What the file system says a resolved path is.
#[derive(Debug, Clone, Copy, PartialEq, Eq, Structural)]
pub enum EntryKind {
    File,
    Directory,
    Symlink,
    Other,
}

/// The directories and files the UI may reach through local file commands.
/// All paths held are canonical.
pub struct LocalFsScope {
    home_dir: String,
    picked_roots: Vec<String>,
    allowed_files: Vec<String>,
}

/// A listing entry of a local directory.
pub struct LocalEntry {
    pub name: String,
    pub path: String,
    pub is_dir: bool,
    pub size: u64,
    pub modified: Option<String>,
}

pub open spec fn seq_has(v: Seq<Seq<char>>, x: Seq<char>) -> bool {
    exists|i: int| 0 <= i < v.len() && v[i] == x
}

/// `canonical` lies under `home` or under one of `roots`.
pub open spec fn scope_has(home: Seq<char>, roots: Seq<Seq<char>>, canonical: Seq<char>) -> bool {
    under_root(canonical, home) || exists|i: int|
        0 <= i < roots.len() && under_root(canonical, #[trigger] roots[i])
}

/// `v` with `x` appended unless it already holds it.
pub open spec fn add_new(v: Seq<Seq<char>>, x: Seq<char>) -> Seq<Seq<char>> {
    if seq_has(v, x) {
        v
    } else {
        v.push(x)
    }
}

/// What the file system says of one path handed in for upload: its parent
/// directory (canonical, or as given where it cannot be resolved; `None`
/// where the path has none), the path's canonical form where it exists, and
/// the kind of entry found there where its metadata could be read.
pub struct UploadPath {
    pub parent: Option<String>,
    pub resolved: Option<String>,
    pub kind: Option<EntryKind>,
}

pub struct UploadPathView {
    pub parent: Option<Seq<char>>,
    pub resolved: Option<Seq<char>>,
    pub kind: Option<EntryKind>,
}

impl View for UploadPath {
    type V = UploadPathView;

    open spec fn view(&self) -> UploadPathView {
        UploadPathView {
            parent: opt_str_view(self.parent),
            resolved: opt_str_view(self.resolved),
            kind: self.kind,
        }
    }
}

/// How a file check comes out.
pub enum FileVerdict {
    Allowed(Seq<char>),
    NotAllowed,
    NotAFile,
}

/// The file check of a resolved path against a scope: allowed when the file
/// was picked or lies in scope and is a regular file.
pub open spec fn file_verdict(
    home: Seq<char>,
    roots: Seq<Seq<char>>,
    files: Seq<Seq<char>>,
    resolved: Option<Seq<char>>,
    kind: Option<EntryKind>,
) -> FileVerdict {
    match resolved {
        None => FileVerdict::NotAllowed,
        Some(c) => if !seq_has(files, c) && !scope_has(home, roots, c) {
            FileVerdict::NotAllowed
        } else {
            match kind {
                Some(EntryKind::File) => FileVerdict::Allowed(c),
                Some(EntryKind::Directory) => FileVerdict::NotAFile,
                Some(EntryKind::Other) => FileVerdict::NotAFile,
                _ => FileVerdict::NotAllowed,
            }
        },
    }
}

/// The scope's picked folders and allowed files, the files accepted so far,
/// and the verdict that stopped the run, if one did.
pub struct UploadRun {
    pub roots: Seq<Seq<char>>,
    pub files: Seq<Seq<char>>,
    pub accepted: Seq<Seq<char>>,
    pub stopped: Option<FileVerdict>,
}

/// The run over the first `n` paths: each path first adds its parent to the
/// picked folders, then is checked as a file; an accepted file joins the
/// allowed files; the first refusal stops the run.
pub open spec fn upload_run(
    home: Seq<char>,
    roots: Seq<Seq<char>>,
    files: Seq<Seq<char>>,
    paths: Seq<UploadPathView>,
    n: nat,
) -> UploadRun
    decreases n,
{
    if n == 0 {
        UploadRun { roots, files, accepted: Seq::empty(), stopped: None }
    } else {
        let s = upload_run(home, roots, files, paths, (n - 1) as nat);
        if s.stopped is Some {
            s
        } else {
            let p = paths[n - 1];
            let r1 = match p.parent {
                Some(d) => add_new(s.roots, d),
                None => s.roots,
            };
            match file_verdict(home, r1, s.files, p.resolved, p.kind) {
                FileVerdict::Allowed(f) => UploadRun {
                    roots: r1,
                    files: add_new(s.files, f),
                    accepted: s.accepted.push(f),
                    stopped: None,
                },
                v => UploadRun { roots: r1, files: s.files, accepted: s.accepted, stopped: Some(v) },
            }
        }
    }
}

/// Once a run has stopped, later paths change nothing.
pub proof fn lemma_upload_run_stopped(
    home: Seq<char>,
    roots: Seq<Seq<char>>,
    files: Seq<Seq<char>>,
    paths: Seq<UploadPathView>,
    i: nat,
    n: nat,
)
    requires
        i <= n,
        upload_run(home, roots, files, paths, i).stopped is Some,
    ensures
        upload_run(home, roots, files, paths, n) == upload_run(home, roots, files, paths, i),
    decreases n,
{
    if n > i {
        lemma_upload_run_stopped(home, roots, files, paths, i, (n - 1) as nat);
    }
}

pub open spec fn upload_views(v: Seq<UploadPath>) -> Seq<UploadPathView> {
    Seq::new(v.len(), |i: int| v[i]@)
}

fn index_in(v: &Vec<String>, x: &str) -> (b: bool)
    ensures
        b == seq_has(str_views(v@), x@),
{
    let t = chars_of(x);
    let mut i: usize = 0;
    while i < v.len()
        invariant
            i <= v.len(),
            t@ == x@,
            forall|j: int| 0 <= j < i ==> str_views(v@)[j] != x@,
        decreases v.len() - i,
    {
        if eq_chars(&chars_of(v[i].as_str()), &t) {
            assert(str_views(v@)[i as int] == x@);
            return true;
        }
        i += 1;
    }
    false
}

fn push_new(v: &mut Vec<String>, x: &str)
    ensures
        seq_has(str_views(old(v)@), x@) ==> str_views(final(v)@) == str_views(old(v)@),
        !seq_has(str_views(old(v)@), x@) ==> str_views(final(v)@) == str_views(old(v)@).push(x@),
{
    if !index_in(v, x) {
        let ghost before = str_views(v@);
        v.push(string_of(&chars_of(x)));
        assert(str_views(v@) =~= before.push(x@));
    }
}

impl LocalFsScope {
    /// The home directory, as canonicalised by the caller.
    pub closed spec fn home(&self) -> Seq<char> {
        self.home_dir@
    }

    /// The folders the user picked, in order.
    pub closed spec fn roots(&self) -> Seq<Seq<char>> {
        str_views(self.picked_roots@)
    }

    /// The files the user allowed, in order.
    pub closed spec fn files(&self) -> Seq<Seq<char>> {
        str_views(self.allowed_files@)
    }

    /// `canonical` lies under the home directory or under a picked folder.
    pub open spec fn in_scope(&self, canonical: Seq<char>) -> bool {
        scope_has(self.home(), self.roots(), canonical)
    }

    /// A scope of just the (canonical) home directory.
    pub fn new(home_dir: String) -> (r: LocalFsScope)
        ensures
            r.home() == home_dir@,
            r.roots().len() == 0,
            r.files().len() == 0,
    {
        let r = LocalFsScope { home_dir, picked_roots: Vec::new(), allowed_files: Vec::new() };
        assert(r.roots() =~= Seq::<Seq<char>>::empty());
        assert(r.files() =~= Seq::<Seq<char>>::empty());
        r
    }

    /// The home directory.
    pub fn home_dir(&self) -> (r: &str)
        ensures
            r@ == self.home(),
    {
        self.home_dir.as_str()
    }

    /// Adds a picked folder (canonical, or as given when it cannot be
    /// resolved) unless it is already there.
    pub fn register_picked_folder(&mut self, canonical: &str)
        ensures
            final(self).home() == old(self).home(),
            final(self).files() == old(self).files(),
            seq_has(old(self).roots(), canonical@) ==> final(self).roots() == old(self).roots(),
            !seq_has(old(self).roots(), canonical@) ==> final(self).roots() == old(
                self,
            ).roots().push(canonical@),
    {
        push_new(&mut self.picked_roots, canonical);
    }

    /// Adds the files (those that resolved to regular files) not yet allowed.
    pub fn register_file_paths(&mut self, canonical_files: &Vec<String>)
        ensures
            final(self).home() == old(self).home(),
            final(self).roots() == old(self).roots(),
            forall|x: Seq<char>|
                seq_has(final(self).files(), x) <==> (seq_has(old(self).files(), x) || seq_has(
                    str_views(canonical_files@),
                    x,
                )),
    {
        let mut i: usize = 0;
        while i < canonical_files.len()
            invariant
                i <= canonical_files.len(),
                self.home() == old(self).home(),
                self.roots() == old(self).roots(),
                forall|x: Seq<char>|
                    seq_has(self.files(), x) <==> (seq_has(old(self).files(), x) || seq_has(
                        str_views(canonical_files@).subrange(0, i as int),
                        x,
                    )),
            decreases canonical_files.len() - i,
        {
            let ghost before = self.files();
            push_new(&mut self.allowed_files, canonical_files[i].as_str());
            let ghost c = canonical_files@[i as int]@;
            assert forall|x: Seq<char>| seq_has(self.files(), x) <==> (seq_has(old(self).files(), x)
                || seq_has(str_views(canonical_files@).subrange(0, i + 1), x)) by {
                let pre = str_views(canonical_files@).subrange(0, i as int);
                let post = str_views(canonical_files@).subrange(0, i + 1);
                assert(post =~= pre.push(c));
                if seq_has(post, x) && x != c {
                    let w = choose|w: int| 0 <= w < post.len() && post[w] == x;
                    assert(pre[w] == x);
                }
                if seq_has(pre, x) {
                    let w = choose|w: int| 0 <= w < pre.len() && pre[w] == x;
                    assert(post[w] == x);
                }
                if x == c {
                    assert(post[i as int] == x);
                }
                if seq_has(self.files(), x) && x != c {
                    let w = choose|w: int| 0 <= w < self.files().len() && self.files()[w] == x;
                    if !seq_has(before, c) {
                        assert(self.files() == before.push(c));
                    }
                    assert(before[w] == x);
                }
                if seq_has(before, x) {
                    let w = choose|w: int| 0 <= w < before.len() && before[w] == x;
                    assert(self.files()[w] == x);
                }
                if x == c && !seq_has(before, c) {
                    assert(self.files()[before.len() as int] == x);
                }
            }
            i += 1;
        }
        assert(str_views(canonical_files@).subrange(0, i as int) =~= str_views(canonical_files@));
    }

    fn is_under_scope(&self, canonical: &str) -> (b: bool)
        ensures
            b == self.in_scope(canonical@),
    {
        if is_path_under_root(canonical, self.home_dir.as_str()) {
            return true;
        }
        let mut i: usize = 0;
        while i < self.picked_roots.len()
            invariant
                i <= self.picked_roots.len(),
                forall|j: int| 0 <= j < i ==> !under_root(canonical@, #[trigger] self.roots()[j]),
            decreases self.picked_roots.len() - i,
        {
            if is_path_under_root(canonical, self.picked_roots[i].as_str()) {
                assert(under_root(canonical@, self.roots()[i as int]));
                return true;
            }
            i += 1;
        }
        false
    }

    /// Allows a path that exists (`resolved` is its canonical form) and lies
    /// in scope.
    pub fn validate_access(&self, resolved: Option<&str>) -> (r: Result<String, PakerError>)
        ensures
            match resolved {
                None => r matches Err(PakerError::PathNotAllowed),
                Some(c) => if self.in_scope(c@) {
                    r matches Ok(p) && p@ == c@
                } else {
                    r matches Err(PakerError::PathNotAllowed)
                },
            },
    {
        match resolved {
            None => Err(PakerError::PathNotAllowed),
            Some(c) => {
                if self.is_under_scope(c) {
                    Ok(string_of(&chars_of(c)))
                } else {
                    Err(PakerError::PathNotAllowed)
                }
            },
        }
    }

    /// Allows an accessible directory; `kind` is what its metadata says, if
    /// it could be read.
    pub fn validate_dir_access(&self, resolved: Option<&str>, kind: Option<EntryKind>) -> (r: Result<
        String,
        PakerError,
    >)
        ensures
            match resolved {
                None => r matches Err(PakerError::PathNotAllowed),
                Some(c) => if !self.in_scope(c@) || kind is None {
                    r matches Err(PakerError::PathNotAllowed)
                } else if kind != Some(EntryKind::Directory) {
                    r matches Err(PakerError::InvalidInput(m)) && m@ == "Path is not a directory"@
                } else {
                    r matches Ok(p) && p@ == c@
                },
            },
    {
        let canonical = match self.validate_access(resolved) {
            Err(e) => {
                return Err(e);
            },
            Ok(c) => c,
        };
        match kind {
            None => Err(PakerError::PathNotAllowed),
            Some(EntryKind::Directory) => Ok(canonical),
            Some(_) => Err(PakerError::InvalidInput(string_of(&chars_of("Path is not a directory")))),
        }
    }

    /// Allows a regular file that the user picked or that lies in scope;
    /// symbolic links and other kinds of entry are refused.
    pub fn validate_file_access(&self, resolved: Option<&str>, kind: Option<EntryKind>) -> (r:
        Result<String, PakerError>)
        ensures
            match resolved {
                None => r matches Err(PakerError::PathNotAllowed),
                Some(c) => if !seq_has(self.files(), c@) && !self.in_scope(c@) {
                    r matches Err(PakerError::PathNotAllowed)
                } else {
                    match kind {
                        None => r matches Err(PakerError::PathNotAllowed),
                        Some(EntryKind::Symlink) => r matches Err(PakerError::PathNotAllowed),
                        Some(EntryKind::File) => r matches Ok(p) && p@ == c@,
                        Some(_) => r matches Err(PakerError::InvalidInput(m)) && m@
                            == "Path is not a file"@,
                    }
                },
            },
    {
        let c = match resolved {
            None => {
                return Err(PakerError::PathNotAllowed);
            },
            Some(c) => c,
        };
        if !index_in(&self.allowed_files, c) && !self.is_under_scope(c) {
            return Err(PakerError::PathNotAllowed);
        }
        match kind {
            None => Err(PakerError::PathNotAllowed),
            Some(EntryKind::Symlink) => Err(PakerError::PathNotAllowed),
            Some(EntryKind::File) => Ok(string_of(&chars_of(c))),
            Some(_) => Err(PakerError::InvalidInput(string_of(&chars_of("Path is not a file")))),
        }
    }

    /// Allows an export file whose nearest existing ancestor directory is
    /// accessible: `parent` says whether the file has a (non-empty) parent,
    /// `ancestor` is the resolved nearest existing ancestor and its kind.
    pub fn validate_export_path(
        &self,
        file_path: &str,
        has_parent: bool,
        ancestor: Option<(Option<String>, Option<EntryKind>)>,
    ) -> (r: Result<String, PakerError>)
        ensures
            !has_parent ==> r matches Err(PakerError::PathNotAllowed),
            has_parent && ancestor is None ==> r matches Err(PakerError::PathNotAllowed),
            has_parent ==> (ancestor matches Some((c, k)) ==> match c {
                None => r matches Err(PakerError::PathNotAllowed),
                Some(c) => if !self.in_scope(c@) || k is None {
                    r matches Err(PakerError::PathNotAllowed)
                } else if k != Some(EntryKind::Directory) {
                    r matches Err(PakerError::InvalidInput(m)) && m@ == "Path is not a directory"@
                } else {
                    r matches Ok(p) && p@ == file_path@
                },
            }),
    {
        if !has_parent {
            return Err(PakerError::PathNotAllowed);
        }
        match ancestor {
            None => Err(PakerError::PathNotAllowed),
            Some((c, k)) => {
                let checked = match &c {
                    Some(s) => self.validate_dir_access(Some(s.as_str()), k),
                    None => self.validate_dir_access(None, k),
                };
                match checked {
                    Err(e) => Err(e),
                    Ok(_) => Ok(string_of(&chars_of(file_path))),
                }
            },
        }
    }

    /// Widens the scope for dropped files: each path's parent folder is
    /// registered, then the path is checked as a file and, once accepted,
    /// allowed for upload.  Stops at the first path refused.
    pub fn prepare_upload_paths(&mut self, paths: &Vec<UploadPath>) -> (r: Result<
        Vec<String>,
        PakerError,
    >)
        ensures
            ({
                let run = upload_run(
                    old(self).home(),
                    old(self).roots(),
                    old(self).files(),
                    upload_views(paths@),
                    paths.len() as nat,
                );
                &&& final(self).home() == old(self).home()
                &&& final(self).roots() == run.roots
                &&& final(self).files() == run.files
                &&& match run.stopped {
                    None => r matches Ok(v) && str_views(v@) == run.accepted,
                    Some(FileVerdict::NotAFile) => r matches Err(PakerError::InvalidInput(m))
                        && m@ == "Path is not a file"@,
                    Some(_) => r matches Err(PakerError::PathNotAllowed),
                }
            }),
    {
        let ghost h = self.home();
        let ghost r0 = self.roots();
        let ghost f0 = self.files();
        let ghost pv = upload_views(paths@);
        let mut validated: Vec<String> = Vec::new();
        let mut i: usize = 0;
        while i < paths.len()
            invariant
                i <= paths.len(),
                validated.len() == i,
                pv == upload_views(paths@),
                h == old(self).home(),
                r0 == old(self).roots(),
                f0 == old(self).files(),
                ({
                    let run = upload_run(h, r0, f0, pv, i as nat);
                    &&& run.stopped is None
                    &&& self.home() == h
                    &&& self.roots() == run.roots
                    &&& self.files() == run.files
                    &&& str_views(validated@) == run.accepted
                }),
            decreases paths.len() - i,
        {
            let p = &paths[i];
            assert(pv[i as int] == paths@[i as int]@);
            match &p.parent {
                Some(d) => self.register_picked_folder(d.as_str()),
                None => {},
            }
            let checked = match &p.resolved {
                Some(c) => self.validate_file_access(Some(c.as_str()), p.kind),
                None => self.validate_file_access(None, p.kind),
            };
            match checked {
                Err(e) => {
                    proof {
                        lemma_upload_run_stopped(h, r0, f0, pv, (i + 1) as nat, paths.len() as nat);
                    }
                    return Err(e);
                },
                Ok(file) => {
                    let ghost before = str_views(validated@);
                    push_new(&mut self.allowed_files, file.as_str());
                    validated.push(file);
                    assert(str_views(validated@) =~= before.push(validated@[i as int]@));
                },
            }
            i += 1;
        }
        Ok(validated)
    }
}

// ---------------------------------------------------------------------------
// Modification times of listed files
// ---------------------------------------------------------------------------

/// `n` rounded toward zero after dividing by `b > 0`.
pub open spec fn div_toward_zero(a: int, b: int) -> int {
    if a >= 0 {
        a / b
    } else {
        -((-a) / b)
    }
}

/// What is left of `a` after [`div_toward_zero`]; it has the sign of `a`.
pub open spec fn rem_toward_zero(a: int, b: int) -> int {
    a - b * div_toward_zero(a, b)
}

/// Year, month and day of the day `z` days after 1970-01-01 in the
/// proleptic Gregorian calendar, counted by 400-year eras that start on
/// March 1st (so that the leap day ends a year).
pub open spec fn civil_from_days(z: int) -> (int, int, int) {
    let zz = z + 719468;
    let era = zz / 146097;
    let doe = zz - era * 146097;
    let yoe = (doe - doe / 1460 + doe / 36524 - doe / 146096) / 365;
    let y = yoe + era * 400;
    let doy = doe - (365 * yoe + yoe / 4 - yoe / 100);
    let mp = (5 * doy + 2) / 153;
    let d = doy - (153 * mp + 2) / 5 + 1;
    let m = if mp < 10 {
        mp + 3
    } else {
        mp - 9
    };
    (if m <= 2 {
        y + 1
    } else {
        y
    }, m, d)
}

/// `k` zeros (none for `k <= 0`).
pub open spec fn zeros(k: int) -> Seq<char> {
    Seq::new(if k > 0 { k as nat } else { 0 }, |i: int| '0')
}

/// `n` in decimal, zero-padded to `w` characters after any sign (`{:0w}`).
pub open spec fn zero_padded(n: int, w: int) -> Seq<char> {
    if n < 0 {
        seq!['-'] + zeros(w - 1 - decimal((-n) as nat).len()) + decimal((-n) as nat)
    } else {
        zeros(w - decimal(n as nat).len()) + decimal(n as nat)
    }
}

/// The signed value a `u64` has when reinterpreted as `i64`.
pub open spec fn as_signed(secs: u64) -> int {
    if secs <= i64::MAX {
        secs as int
    } else {
        secs - 0x1_0000_0000_0000_0000int
    }
}

/// The `YYYY-MM-DDThh:mm:ssZ` rendering of a Unix time (read as `i64`).
pub open spec fn timestamp_text(secs: u64) -> Seq<char> {
    let s = as_signed(secs);
    let days = div_toward_zero(s, 86400);
    let rem = rem_toward_zero(s, 86400);
    let hour = div_toward_zero(rem, 3600);
    let min = div_toward_zero(rem_toward_zero(rem, 3600), 60);
    let sec = rem_toward_zero(rem, 60);
    let (y, m, d) = civil_from_days(days);
    zero_padded(y, 4) + "-"@ + zero_padded(m, 2) + "-"@ + zero_padded(d, 2) + "T"@ + zero_padded(
        hour,
        2,
    ) + ":"@ + zero_padded(min, 2) + ":"@ + zero_padded(sec, 2) + "Z"@
}

fn push_zero_padded(out: &mut Vec<char>, negative: bool, magnitude: u64, width: u64)
    requires
        1 <= width <= 4,
        negative ==> magnitude > 0,
    ensures
        final(out)@ == old(out)@ + zero_padded(
            if negative {
                -magnitude
            } else {
                magnitude as int
            },
            width as int,
        ),
{
    let digits = u64_to_decimal(magnitude);
    let ghost start = out@;
    let mut room: u64 = width;
    if negative {
        out.push('-');
        room = room - 1;
    }
    let ghost head = out@;
    let pad: u64 = if (digits.len() as u64) < room {
        room - digits.len() as u64
    } else {
        0
    };
    let mut k: u64 = 0;
    while k < pad
        invariant
            k <= pad,
            out@ == head + Seq::new(k as nat, |i: int| '0'),
        decreases pad - k,
    {
        out.push('0');
        k += 1;
        assert(out@ =~= head + Seq::new(k as nat, |i: int| '0'));
    }
    let ghost zs = Seq::new(pad as nat, |i: int| '0');
    assert(zs =~= zeros(room - digits@.len()));
    push_all(out, &digits);
    proof {
        if negative {
            assert(out@ =~= start + (seq!['-'] + zeros(width - 1 - decimal(magnitude as nat).len())
                + decimal(magnitude as nat)));
        } else {
            assert(out@ =~= start + (zeros(width - decimal(magnitude as nat).len()) + decimal(
                magnitude as nat,
            )));
        }
    }
}

/// Pushes `n` zero-padded to `width` characters after any sign.
fn push_padded(out: &mut Vec<char>, n: i64, width: u64)
    requires
        1 <= width <= 4,
        n > i64::MIN,
    ensures
        final(out)@ == old(out)@ + zero_padded(n as int, width as int),
{
    if n < 0 {
        push_zero_padded(out, true, (-n) as u64, width);
    } else {
        push_zero_padded(out, false, n as u64, width);
    }
}

proof fn lemma_floor_div(zz: int, era: int)
    requires
        -0x20_0000_0000_0000 <= zz <= 0x20_0000_0000_0000,
        zz >= 0 ==> era == zz / 146097,
        zz < 0 ==> era == -((-zz + 146096) / 146097),
    ensures
        era == zz / 146097,
        0 <= zz - era * 146097 < 146097,
        -0x1_0000_0000_0000 <= era <= 0x1_0000_0000_0000,
{
    vstd::arithmetic::div_mod::lemma_fundamental_div_mod(zz, 146097);
    if zz < 0 {
        let q = (-zz + 146096) / 146097;
        vstd::arithmetic::div_mod::lemma_fundamental_div_mod(-zz + 146096, 146097);
        let r = (-zz + 146096) % 146097;
        assert(0 <= r < 146097);
        assert(zz == (-q) * 146097 + (146096 - r));
        assert(0 <= 146096 - r < 146097);
        vstd::arithmetic::div_mod::lemma_fundamental_div_mod_converse(zz, 146097, -q, 146096 - r);
    }
    assert(0 <= zz % 146097 < 146097);
}

/// The first day of year `yoe` of a 400-year era, counted from the era's
/// start (March 1st of its first year).
pub open spec fn year_start(yoe: int) -> int {
    365 * yoe + yoe / 4 - yoe / 100
}

/// The year of an era that day `doe` of it falls in.
pub open spec fn year_of_era(doe: int) -> int {
    (doe - doe / 1460 + doe / 36524 - doe / 146096) / 365
}

proof fn lemma_div_exact(x: int, d: int, q: int, r: int)
    requires
        d > 0,
        0 <= r < d,
        x == q * d + r,
    ensures
        x / d == q,
        x % d == r,
{
    vstd::arithmetic::div_mod::lemma_fundamental_div_mod_converse(x, d, q, r);
}

/// Every day of an era falls within the year the era arithmetic gives it:
/// at most 365 days after that year's start.
pub proof fn lemma_day_of_year_in_range(doe: int)
    requires
        0 <= doe <= 146096,
    ensures
        0 <= year_of_era(doe) <= 399,
        0 <= doe - year_start(year_of_era(doe)) <= 365,
        doe - year_start(year_of_era(doe)) == 365 ==> ((year_of_era(doe) + 1) % 4 == 0 && ((
        year_of_era(doe) + 1) % 100 != 0 || year_of_era(doe) + 1 == 400)),
{
    if doe == 146096 {
        lemma_div_exact(doe, 1460, 100, 96);
        lemma_div_exact(doe, 36524, 4, 0);
        lemma_div_exact(doe, 146096, 1, 0);
        lemma_div_exact(145999, 365, 399, 364);
        lemma_div_exact(399, 4, 99, 3);
        lemma_div_exact(399, 100, 3, 99);
    } else {
        let c = doe / 36524;
        let r = doe % 36524;
        vstd::arithmetic::div_mod::lemma_fundamental_div_mod(doe, 36524);
        assert(0 <= c <= 3);
        let q = r / 1461;
        let w = r % 1461;
        vstd::arithmetic::div_mod::lemma_fundamental_div_mod(r, 1461);
        assert(0 <= q <= 24);
        let delta: int = if q + w + 24 * c >= 1460 { 1 } else { 0 };
        assert(doe == (25 * c + q + delta) * 1460 + (24 * c + q + w - 1460 * delta));
        lemma_div_exact(doe, 1460, 25 * c + q + delta, 24 * c + q + w - 1460 * delta);
        lemma_div_exact(doe, 36524, c, r);
        lemma_div_exact(doe, 146096, 0, doe);
        let n = doe - doe / 1460 + doe / 36524 - doe / 146096;
        assert(n == 36500 * c + 1460 * q + w - delta);
        let wd = w - delta;
        assert(0 <= wd <= 1459);
        let j = wd / 365;
        vstd::arithmetic::div_mod::lemma_fundamental_div_mod(wd, 365);
        assert(0 <= j <= 3);
        assert(n == (100 * c + 4 * q + j) * 365 + (wd - 365 * j));
        lemma_div_exact(n, 365, 100 * c + 4 * q + j, wd - 365 * j);
        let yoe = 100 * c + 4 * q + j;
        assert(yoe == year_of_era(doe));
        lemma_div_exact(yoe, 4, 25 * c + q, j);
        lemma_div_exact(yoe, 100, c, 4 * q + j);
        assert(doe - year_start(yoe) == wd - 365 * j + delta);
        if wd - 365 * j + delta == 365 {
            assert(j == 3 && w == 1460);
            assert(q <= 23);
            lemma_div_exact(yoe + 1, 4, 25 * c + q + 1, 0);
            lemma_div_exact(yoe + 1, 100, c, 4 * q + 4);
        }
    }
}

/// The month index (from March) and day of month of day `doy` of a
/// March-based year.
pub proof fn lemma_day_of_month_in_range(doy: int)
    requires
        0 <= doy <= 365,
    ensures
        0 <= (5 * doy + 2) / 153 <= 11,
        1 <= doy - (153 * ((5 * doy + 2) / 153) + 2) / 5 + 1 <= 31,
{
    let mp = (5 * doy + 2) / 153;
    vstd::arithmetic::div_mod::lemma_fundamental_div_mod(5 * doy + 2, 153);
    let t = (153 * mp + 2) / 5;
    vstd::arithmetic::div_mod::lemma_fundamental_div_mod(153 * mp + 2, 5);
    assert(0 <= mp <= 11);
    assert(t <= doy);
    assert(doy - t <= 30);
}

/// A leap year of the proleptic Gregorian calendar.
pub open spec fn is_leap(y: int) -> bool {
    (y % 4 == 0 && y % 100 != 0) || y % 400 == 0
}

/// Days in month `m` (1 to 12) of year `y`.
pub open spec fn month_length(y: int, m: int) -> int {
    if m == 2 {
        if is_leap(y) {
            29
        } else {
            28
        }
    } else if m == 4 || m == 6 || m == 9 || m == 11 {
        30
    } else {
        31
    }
}

/// Days of year `y` before the first of month `m`.
pub open spec fn days_before_month(y: int, m: int) -> int {
    let common: int = if m == 1 {
        0
    } else if m == 2 {
        31
    } else if m == 3 {
        59
    } else if m == 4 {
        90
    } else if m == 5 {
        120
    } else if m == 6 {
        151
    } else if m == 7 {
        181
    } else if m == 8 {
        212
    } else if m == 9 {
        243
    } else if m == 10 {
        273
    } else if m == 11 {
        304
    } else {
        334
    };
    if m > 2 && is_leap(y) {
        common + 1
    } else {
        common
    }
}

/// Leap years from year 1 up to year `y - 1` (counted with sign before year 1).
pub open spec fn leap_years_before(y: int) -> int {
    (y - 1) / 4 - (y - 1) / 100 + (y - 1) / 400
}

/// Days from 1970-01-01 to the date `y`-`m`-`d`.
pub open spec fn days_from_epoch(y: int, m: int, d: int) -> int {
    365 * (y - 1970) + leap_years_before(y) - leap_years_before(1970) + days_before_month(y, m) + d
        - 1
}

proof fn lemma_step_div(y: int, k: int)
    requires
        k > 0,
    ensures
        y / k - (y - 1) / k == (if y % k == 0 { 1int } else { 0int }),
{
    vstd::arithmetic::div_mod::lemma_fundamental_div_mod(y, k);
    vstd::arithmetic::div_mod::lemma_fundamental_div_mod(y - 1, k);
    let q = y / k;
    assert((q - 1) * k == q * k - k) by (nonlinear_arith);
    assert(q * k == k * q) by (nonlinear_arith);
    if y % k == 0 {
        lemma_div_exact(y - 1, k, y / k - 1, k - 1);
    } else {
        lemma_div_exact(y - 1, k, y / k, y % k - 1);
    }
}

/// The day `z` days after 1970-01-01 is a calendar date: [`civil_from_days`]
/// gives a month from 1 to 12, a day within that month, and the date that
/// lies exactly `z` days after the epoch.
pub proof fn law_civil_from_days_is_calendar_date(z: int)
    ensures
        ({
            let (y, m, d) = civil_from_days(z);
            &&& 1 <= m <= 12
            &&& 1 <= d <= month_length(y, m)
            &&& days_from_epoch(y, m, d) == z
        }),
{
    let zz = z + 719468;
    let era = zz / 146097;
    vstd::arithmetic::div_mod::lemma_fundamental_div_mod(zz, 146097);
    let doe = zz - era * 146097;
    assert(0 <= doe < 146097);
    lemma_day_of_year_in_range(doe);
    let yoe = year_of_era(doe);
    let doy = doe - year_start(yoe);
    lemma_day_of_month_in_range(doy);
    let mp = (5 * doy + 2) / 153;
    let start = (153 * mp + 2) / 5;
    let d = doy - start + 1;
    let m = if mp < 10 {
        mp + 3
    } else {
        mp - 9
    };
    let y0 = yoe + era * 400;
    // The year whose March 1st begins this March-based year.
    lemma_div_exact(y0, 4, 100 * era + yoe / 4, yoe % 4);
    lemma_div_exact(y0, 100, 4 * era + yoe / 100, yoe % 100);
    lemma_div_exact(y0, 400, era, yoe);
    vstd::arithmetic::div_mod::lemma_fundamental_div_mod(yoe, 4);
    vstd::arithmetic::div_mod::lemma_fundamental_div_mod(yoe, 100);
    lemma_div_exact(1969, 4, 492, 1);
    lemma_div_exact(1969, 100, 19, 69);
    lemma_div_exact(1969, 400, 4, 369);
    lemma_step_div(y0 + 1, 4);
    lemma_step_div(y0 + 1, 100);
    lemma_step_div(y0 + 1, 400);
    lemma_step_div(y0, 4);
    lemma_step_div(y0, 100);
    lemma_step_div(y0, 400);
    assert(leap_years_before(y0 + 1) == 97 * era + yoe / 4 - yoe / 100);
    // Which calendar year holds the February of this March-based year.
    lemma_div_exact(y0 + 1, 4, 100 * era + (yoe + 1) / 4, (yoe + 1) % 4);
    lemma_div_exact(y0 + 1, 100, 4 * era + (yoe + 1) / 100, (yoe + 1) % 100);
    lemma_div_exact(y0 + 1, 400, era + (yoe + 1) / 400, (yoe + 1) % 400);
    vstd::arithmetic::div_mod::lemma_fundamental_div_mod(yoe + 1, 4);
    vstd::arithmetic::div_mod::lemma_fundamental_div_mod(yoe + 1, 100);
    vstd::arithmetic::div_mod::lemma_fundamental_div_mod(yoe + 1, 400);
    assert(doy == 365 ==> is_leap(y0 + 1));
    // Month starts from March: 0, 31, 61, 92, 122, 153, 184, 214, 245, 275, 306, 337.
    vstd::arithmetic::div_mod::lemma_fundamental_div_mod(5 * doy + 2, 153);
    vstd::arithmetic::div_mod::lemma_fundamental_div_mod(153 * mp + 2, 5);
    vstd::arithmetic::div_mod::lemma_fundamental_div_mod(153 * (mp + 1) + 2, 5);
    assert(doy < (153 * (mp + 1) + 2) / 5);
    if mp == 0 { lemma_div_exact(153 * mp + 2, 5, 0, 2); lemma_div_exact(153 * (mp + 1) + 2, 5, 31, 0); }
    if mp == 1 { lemma_div_exact(153 * mp + 2, 5, 31, 0); lemma_div_exact(153 * (mp + 1) + 2, 5, 61, 3); }
    if mp == 2 { lemma_div_exact(153 * mp + 2, 5, 61, 3); lemma_div_exact(153 * (mp + 1) + 2, 5, 92, 1); }
    if mp == 3 { lemma_div_exact(153 * mp + 2, 5, 92, 1); lemma_div_exact(153 * (mp + 1) + 2, 5, 122, 4); }
    if mp == 4 { lemma_div_exact(153 * mp + 2, 5, 122, 4); lemma_div_exact(153 * (mp + 1) + 2, 5, 153, 2); }
    if mp == 5 { lemma_div_exact(153 * mp + 2, 5, 153, 2); lemma_div_exact(153 * (mp + 1) + 2, 5, 184, 0); }
    if mp == 6 { lemma_div_exact(153 * mp + 2, 5, 184, 0); lemma_div_exact(153 * (mp + 1) + 2, 5, 214, 3); }
    if mp == 7 { lemma_div_exact(153 * mp + 2, 5, 214, 3); lemma_div_exact(153 * (mp + 1) + 2, 5, 245, 1); }
    if mp == 8 { lemma_div_exact(153 * mp + 2, 5, 245, 1); lemma_div_exact(153 * (mp + 1) + 2, 5, 275, 4); }
    if mp == 9 { lemma_div_exact(153 * mp + 2, 5, 275, 4); lemma_div_exact(153 * (mp + 1) + 2, 5, 306, 2); }
    if mp == 10 { lemma_div_exact(153 * mp + 2, 5, 306, 2); lemma_div_exact(153 * (mp + 1) + 2, 5, 337, 0); }
    if mp == 11 { lemma_div_exact(153 * mp + 2, 5, 337, 0); }
    let (yc, mc, dc) = civil_from_days(z);
    assert(mc == m && dc == d);
    assert(yc == if m <= 2 { y0 + 1 } else { y0 });
}

/// Year, month and day of day `z` after 1970-01-01 (see [`civil_from_days`]).
fn days_to_ymd(z: i64) -> (r: (i64, i64, i64))
    requires
        -0x10_0000_0000_0000 <= z <= 0x10_0000_0000_0000,
    ensures
        (r.0 as int, r.1 as int, r.2 as int) == civil_from_days(z as int),
        -0x1_0000_0000_0000 <= r.0 <= 0x1_0000_0000_0000,
        1 <= r.1 <= 12,
        1 <= r.2 <= 31,
{
    let zz: i64 = z + 719468;
    let era: i64 = if zz >= 0 {
        zz / 146097
    } else {
        -((-zz + 146096) / 146097)
    };
    proof {
        lemma_floor_div(zz as int, era as int);
    }
    let doe: i64 = zz - era * 146097;
    let yoe: i64 = (doe - doe / 1460 + doe / 36524 - doe / 146096) / 365;
    let y: i64 = yoe + era * 400;
    let doy: i64 = doe - (365 * yoe + yoe / 4 - yoe / 100);
    proof {
        lemma_day_of_year_in_range(doe as int);
        lemma_day_of_month_in_range(doy as int);
    }
    let mp: i64 = (5 * doy + 2) / 153;
    let d: i64 = doy - (153 * mp + 2) / 5 + 1;
    let m: i64 = if mp < 10 {
        mp + 3
    } else {
        mp - 9
    };
    (if m <= 2 {
        y + 1
    } else {
        y
    }, m, d)
}

proof fn lemma_toward_zero(neg: bool, m: int, b: int)
    requires
        m >= 0,
        b > 0,
    ensures
        div_toward_zero(if neg { -m } else { m }, b) == (if neg { -(m / b) } else { m / b }),
        rem_toward_zero(if neg { -m } else { m }, b) == (if neg { -(m % b) } else { m % b }),
{
    vstd::arithmetic::div_mod::lemma_fundamental_div_mod(m, b);
    assert(b * (-(m / b)) == -(b * (m / b))) by (nonlinear_arith);
    if neg && m == 0 {
        assert(0int / b == 0);
    }
}

/// `YYYY-MM-DDThh:mm:ssZ` for a Unix time, as listed for local files.
#[verifier::spinoff_prover]
#[verifier::rlimit(40)]
pub fn format_unix_timestamp(secs: u64) -> (r: String)
    ensures
        r@ == timestamp_text(secs),
{
    let neg = secs > i64::MAX as u64;
    let mag: u64 = if neg {
        (u64::MAX - secs) + 1
    } else {
        secs
    };
    let days_mag: u64 = mag / 86400;
    let rem_mag: u64 = mag % 86400;
    let days: i64 = if neg {
        -(days_mag as i64)
    } else {
        days_mag as i64
    };
    let hour_mag: u64 = rem_mag / 3600;
    let min_mag: u64 = (rem_mag % 3600) / 60;
    let sec_mag: u64 = rem_mag % 60;
    let (y, m, d) = days_to_ymd(days);
    let ghost hour_v: int = if neg { -(hour_mag as int) } else { hour_mag as int };
    let ghost min_v: int = if neg { -(min_mag as int) } else { min_mag as int };
    let ghost sec_v: int = if neg { -(sec_mag as int) } else { sec_mag as int };
    proof {
        let sg = as_signed(secs);
        assert(sg == if neg { -(mag as int) } else { mag as int });
        lemma_toward_zero(neg, mag as int, 86400);
        let rem = rem_toward_zero(sg, 86400);
        lemma_toward_zero(neg, rem_mag as int, 3600);
        lemma_toward_zero(neg, rem_mag as int, 60);
        lemma_toward_zero(neg, (rem_mag % 3600) as int, 60);
        assert(div_toward_zero(sg, 86400) == days as int);
        assert(rem == if neg { -(rem_mag as int) } else { rem_mag as int });
        assert(div_toward_zero(rem, 3600) == hour_v);
        assert(div_toward_zero(rem_toward_zero(rem, 3600), 60) == min_v);
        assert(rem_toward_zero(rem, 60) == sec_v);
        assert(neg && hour_mag == 0 ==> hour_v == 0);
        assert(neg && min_mag == 0 ==> min_v == 0);
        assert(neg && sec_mag == 0 ==> sec_v == 0);
    }
    let mut out: Vec<char> = Vec::new();
    push_padded(&mut out, y, 4);
    out.push('-');
    push_padded(&mut out, m, 2);
    out.push('-');
    push_padded(&mut out, d, 2);
    out.push('T');
    push_zero_padded(&mut out, neg && hour_mag > 0, hour_mag, 2);
    out.push(':');
    push_zero_padded(&mut out, neg && min_mag > 0, min_mag, 2);
    out.push(':');
    push_zero_padded(&mut out, neg && sec_mag > 0, sec_mag, 2);
    out.push('Z');
    proof {
        let (ys, ms, ds) = civil_from_days(days as int);
        assert(ys == y && ms == m && ds == d);
        reveal_strlit("-");
        reveal_strlit("T");
        reveal_strlit(":");
        reveal_strlit("Z");
        assert(zero_padded(hour_v, 2) == zero_padded(
            if neg && hour_mag > 0 { -hour_mag } else { hour_mag as int },
            2,
        ));
        assert(zero_padded(min_v, 2) == zero_padded(
            if neg && min_mag > 0 { -min_mag } else { min_mag as int },
            2,
        ));
        assert(zero_padded(sec_v, 2) == zero_padded(
            if neg && sec_mag > 0 { -sec_mag } else { sec_mag as int },
            2,
        ));
        assert(out@ =~= timestamp_text(secs));
    }
    string_of(&out)
}

// ---------------------------------------------------------------------------
// Ordering a directory listing
// ---------------------------------------------------------------------------

/// The sort key of a listed entry: directories first, then by lower-cased
/// name.
pub open spec fn entry_key(e: LocalEntry) -> (bool, Seq<char>) {
    (e.is_dir, lowercase_spec(e.name@))
}

/// Key `a` comes strictly before key `b`.
pub open spec fn key_lt(a: (bool, Seq<char>), b: (bool, Seq<char>)) -> bool {
    (a.0 && !b.0) || (a.0 == b.0 && str_lt(a.1, b.1))
}

proof fn lemma_key_order(a: (bool, Seq<char>), b: (bool, Seq<char>), c: (bool, Seq<char>))
    ensures
        !key_lt(a, a),
        a == b || key_lt(a, b) || key_lt(b, a),
        key_lt(a, b) && key_lt(b, c) ==> key_lt(a, c),
        key_lt(a, b) ==> !key_lt(b, a),
{
    lemma_str_lt_irreflexive(a.1);
    lemma_str_lt_total(a.1, b.1);
    if a.0 == b.0 && a.1 == b.1 {
        assert(a == b);
    }
    if key_lt(a, b) && key_lt(b, c) && a.0 == b.0 && b.0 == c.0 {
        lemma_str_lt_trans(a.1, b.1, c.1);
    }
    if key_lt(a, b) && key_lt(b, a) && a.0 == b.0 {
        lemma_str_lt_trans(a.1, b.1, a.1);
    }
}

/// Keys in order: no key comes before one in front of it.
pub open spec fn keys_sorted(ks: Seq<(bool, Seq<char>)>) -> bool {
    forall|a: int, b: int| 0 <= a < b < ks.len() ==> !key_lt(#[trigger] ks[b], #[trigger] ks[a])
}

/// Equal keys keep the order of their positions in the input.
pub open spec fn keys_stable(ks: Seq<(bool, Seq<char>)>, src: Seq<int>) -> bool {
    forall|a: int, b: int|
        0 <= a < b < ks.len() && #[trigger] ks[a] == #[trigger] ks[b] ==> src[a] < src[b]
}

proof fn lemma_insert_sorted(
    ks: Seq<(bool, Seq<char>)>,
    src: Seq<int>,
    p: int,
    kx: (bool, Seq<char>),
    m: int,
)
    requires
        ks.len() == src.len(),
        0 <= p <= ks.len(),
        keys_sorted(ks),
        keys_stable(ks, src),
        forall|k: int| 0 <= k < p ==> !key_lt(kx, #[trigger] ks[k]),
        p < ks.len() ==> key_lt(kx, ks[p]),
        forall|k: int| 0 <= k < src.len() ==> #[trigger] src[k] < m,
    ensures
        keys_sorted(ks.insert(p, kx)),
        keys_stable(ks.insert(p, kx), src.insert(p, m)),
{
    ks.insert_ensures(p, kx);
    src.insert_ensures(p, m);
    let ks2 = ks.insert(p, kx);
    let src2 = src.insert(p, m);
    assert forall|k: int| p <= k < ks.len() implies key_lt(kx, #[trigger] ks[k]) by {
        if k > p {
            assert(!key_lt(ks[k], ks[p]));
            lemma_key_order(kx, ks[p], ks[k]);
            lemma_key_order(ks[p], ks[k], kx);
        }
    }
    assert forall|a: int, b: int| 0 <= a < b < ks2.len() implies !key_lt(
        #[trigger] ks2[b],
        #[trigger] ks2[a],
    ) by {
        if b < p {
            assert(ks2[a] == ks[a] && ks2[b] == ks[b]);
        } else if b == p {
            assert(ks2[a] == ks[a]);
        } else if a < p {
            assert(ks2[a] == ks[a] && ks2[b] == ks[b - 1]);
            assert(!key_lt(kx, ks[a]));
            lemma_key_order(ks[b - 1], kx, ks[a]);
            lemma_key_order(kx, ks[b - 1], ks[a]);
            lemma_key_order(ks[a], kx, ks[b - 1]);
            if key_lt(ks[b - 1], ks[a]) {
                if kx == ks[a] {
                } else if key_lt(ks[a], kx) {
                    lemma_key_order(ks[b - 1], ks[a], kx);
                }
            }
        } else if a == p {
            assert(ks2[b] == ks[b - 1]);
            lemma_key_order(kx, ks[b - 1], kx);
        } else {
            assert(ks2[a] == ks[a - 1] && ks2[b] == ks[b - 1]);
        }
    }
    assert forall|a: int, b: int|
        0 <= a < b < ks2.len() && #[trigger] ks2[a] == #[trigger] ks2[b] implies src2[a] < src2[b] by {
        if b < p {
            assert(ks2[a] == ks[a] && ks2[b] == ks[b]);
        } else if b == p {
            assert(src2[b] == m && src2[a] == src[a]);
        } else if a < p {
            assert(ks2[a] == ks[a] && ks2[b] == ks[b - 1]);
            assert(src2[a] == src[a] && src2[b] == src[b - 1]);
        } else if a == p {
            assert(ks2[b] == ks[b - 1]);
            lemma_key_order(kx, kx, kx);
        } else {
            assert(ks2[a] == ks[a - 1] && ks2[b] == ks[b - 1]);
            assert(src2[a] == src[a - 1] && src2[b] == src[b - 1]);
        }
    }
}

fn key_before(a: &(bool, Vec<char>), b: &(bool, Vec<char>)) -> (r: bool)
    ensures
        r == key_lt((a.0, a.1@), (b.0, b.1@)),
{
    if a.0 && !b.0 {
        true
    } else if a.0 == b.0 {
        less_than(&a.1, &b.1)
    } else {
        false
    }
}

pub open spec fn key_views(ks: Seq<(bool, Vec<char>)>) -> Seq<(bool, Seq<char>)> {
    Seq::new(ks.len(), |i: int| (ks[i].0, ks[i].1@))
}

/// A listing in display order: directories first, then by lower-cased
/// name, entries with the same key in the order they came in.
pub fn sort_local_entries(entries: Vec<LocalEntry>) -> (r: Vec<LocalEntry>)
    ensures
        r.len() == entries.len(),
        keys_sorted(Seq::new(r.len() as nat, |i: int| entry_key(r@[i]))),
        exists|src: Seq<int>|
            {
                &&& #[trigger] src.len() == r.len()
                &&& forall|k: int|
                    0 <= k < r.len() ==> 0 <= #[trigger] src[k] < entries.len() && r@[k]
                        == entries@[src[k]]
                &&& forall|a: int, b: int| 0 <= a < b < r.len() ==> src[a] != src[b]
                &&& keys_stable(Seq::new(r.len() as nat, |i: int| entry_key(r@[i])), src)
            },
{
    let ghost all = entries@;
    let n = entries.len();
    let mut rest = entries;
    let mut out: Vec<LocalEntry> = Vec::new();
    let mut keys: Vec<(bool, Vec<char>)> = Vec::new();
    let ghost mut src: Seq<int> = Seq::empty();
    let mut m: usize = 0;
    while m < n
        invariant
            m <= n,
            n == all.len(),
            rest@ == all.subrange(m as int, n as int),
            out.len() == m,
            keys.len() == m,
            src.len() == m,
            key_views(keys@) == Seq::new(out.len() as nat, |i: int| entry_key(out@[i])),
            forall|k: int| 0 <= k < m ==> 0 <= #[trigger] src[k] < m && out@[k] == all[src[k]],
            forall|a: int, b: int| 0 <= a < b < m ==> src[a] != src[b],
            keys_sorted(key_views(keys@)),
            keys_stable(key_views(keys@), src),
        decreases n - m,
    {
        let x = rest.remove(0);
        assert(x == all[m as int]);
        assert(rest@ =~= all.subrange(m + 1, n as int));
        let kx = (x.is_dir, lowercase(&chars_of(x.name.as_str())));
        let ghost kxv = (kx.0, kx.1@);
        assert(kxv == entry_key(x));
        let ghost ks = key_views(keys@);
        let mut p: usize = 0;
        while p < keys.len() && !key_before(&kx, &keys[p])
            invariant
                p <= keys.len(),
                ks == key_views(keys@),
                kxv == (kx.0, kx.1@),
                forall|k: int| 0 <= k < p ==> !key_lt(kxv, #[trigger] ks[k]),
            decreases keys.len() - p,
        {
            assert(ks[p as int] == (keys@[p as int].0, keys@[p as int].1@));
            p += 1;
        }
        if p < keys.len() {
            assert(ks[p as int] == (keys@[p as int].0, keys@[p as int].1@));
        }
        proof {
            lemma_insert_sorted(ks, src, p as int, kxv, m as int);
        }
        let ghost old_out = out@;
        let ghost old_src = src;
        out.insert(p, x);
        keys.insert(p, kx);
        proof {
            src = src.insert(p as int, m as int);
            old_out.insert_ensures(p as int, x);
            old_src.insert_ensures(p as int, m as int);
            assert(key_views(keys@) =~= ks.insert(p as int, kxv));
            assert(key_views(keys@) =~= Seq::new(out.len() as nat, |i: int| entry_key(out@[i]))) by {
                assert forall|i: int| 0 <= i < out.len() implies key_views(keys@)[i] == entry_key(
                    out@[i],
                ) by {
                    if i < p {
                        assert(out@[i] == old_out[i]);
                    } else if i > p {
                        assert(out@[i] == old_out[i - 1]);
                    }
                }
            }
            assert forall|k: int| 0 <= k < m + 1 implies 0 <= #[trigger] src[k] < m + 1 && out@[k]
                == all[src[k]] by {
                if k < p {
                    assert(src[k] == old_src[k] && out@[k] == old_out[k]);
                } else if k > p {
                    assert(src[k] == old_src[k - 1] && out@[k] == old_out[k - 1]);
                }
            }
            assert forall|a: int, b: int| 0 <= a < b < m + 1 implies src[a] != src[b] by {
                if b < p {
                    assert(src[a] == old_src[a] && src[b] == old_src[b]);
                } else if b == p {
                    assert(src[a] == old_src[a]);
                } else if a < p {
                    assert(src[a] == old_src[a] && src[b] == old_src[b - 1]);
                } else if a == p {
                    assert(src[b] == old_src[b - 1]);
                } else {
                    assert(src[a] == old_src[a - 1] && src[b] == old_src[b - 1]);
                }
            }
        }
        m += 1;
    }
    proof {
        assert(key_views(keys@) == Seq::new(out.len() as nat, |i: int| entry_key(out@[i])));
        assert forall|k: int| 0 <= k < out.len() implies 0 <= #[trigger] src[k] < all.len() && out@[k]
            == all[src[k]] by {}
    }
    out
}

} // verus!
