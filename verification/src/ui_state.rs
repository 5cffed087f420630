use vstd::prelude::*;

use crate::index_query::opt_str_view;
use crate::keyed::KeyedList;
use crate::records::{ConnectionNav, PrefixBookmark, UiPreferences};
use crate::text::{chars_of, eq_chars, string_of};

verus! {

/// Transfers run at once when the stored state does not say.
pub fn default_max_concurrent() -> (r: u32)
    ensures
        r == 3,
{
    3
}

/// The mathematical value of a [`ConnectionNav`].
pub struct NavView {
    pub bucket: Option<Seq<char>>,
    pub prefix: Option<Seq<char>>,
}

impl View for ConnectionNav {
    type V = NavView;

    open spec fn view(&self) -> NavView {
        NavView { bucket: opt_str_view(self.bucket), prefix: opt_str_view(self.prefix) }
    }
}

/// The mathematical value of a [`PrefixBookmark`].
pub struct BookmarkView {
    pub id: Seq<char>,
    pub label: Seq<char>,
    pub bucket: Seq<char>,
    pub prefix: Seq<char>,
}

impl View for PrefixBookmark {
    type V = BookmarkView;

    open spec fn view(&self) -> BookmarkView {
        BookmarkView { id: self.id@, label: self.label@, bucket: self.bucket@, prefix: self.prefix@ }
    }
}

pub open spec fn mark_views(v: Seq<PrefixBookmark>) -> Seq<BookmarkView> {
    Seq::new(v.len(), |i: int| v[i]@)
}

/// The bookmarks whose id is not `id`, in order.
pub open spec fn marks_without(v: Seq<BookmarkView>, id: Seq<char>) -> Seq<BookmarkView>
    decreases v.len(),
{
    if v.len() == 0 {
        Seq::empty()
    } else {
        let rest = marks_without(v.drop_last(), id);
        if v.last().id == id {
            rest
        } else {
            rest.push(v.last())
        }
    }
}

fn copy_nav(n: &ConnectionNav) -> (r: ConnectionNav)
    ensures
        r@ == n@,
{
    ConnectionNav {
        bucket: crate::plans::copy_opt(&n.bucket),
        prefix: crate::plans::copy_opt(&n.prefix),
    }
}

fn copy_mark(b: &PrefixBookmark) -> (r: PrefixBookmark)
    ensures
        r@ == b@,
{
    PrefixBookmark {
        id: string_of(&chars_of(b.id.as_str())),
        label: string_of(&chars_of(b.label.as_str())),
        bucket: string_of(&chars_of(b.bucket.as_str())),
        prefix: string_of(&chars_of(b.prefix.as_str())),
    }
}

fn copy_marks(v: &Vec<PrefixBookmark>) -> (r: Vec<PrefixBookmark>)
    ensures
        mark_views(r@) == mark_views(v@),
{
    let mut out: Vec<PrefixBookmark> = Vec::new();
    let mut i: usize = 0;
    while i < v.len()
        invariant
            i <= v.len(),
            out.len() == i,
            forall|k: int| 0 <= k < i ==> #[trigger] out@[k]@ == v@[k]@,
        decreases v.len() - i,
    {
        out.push(copy_mark(&v[i]));
        i += 1;
    }
    assert(mark_views(out@) =~= mark_views(v@));
    out
}

/// What the UI remembers between sessions (panel sizes aside): the last
/// local folder and browser position per connection, bookmarks per
/// connection, the transfer limit and layout preferences.
pub struct UiState {
    last_local_dir: KeyedList<String>,
    max_concurrent_transfers: u32,
    last_nav: KeyedList<ConnectionNav>,
    bookmarks: KeyedList<Vec<PrefixBookmark>>,
    preferences: UiPreferences,
}

impl UiState {
    pub closed spec fn wf(&self) -> bool {
        self.last_local_dir.wf() && self.last_nav.wf() && self.bookmarks.wf()
    }

    /// How many transfers may run at once.
    pub closed spec fn limit(&self) -> u32 {
        self.max_concurrent_transfers
    }

    /// The layout preferences.
    pub closed spec fn prefs(&self) -> UiPreferences {
        self.preferences
    }

    /// Last local folder per connection.
    pub closed spec fn dirs(&self) -> Map<Seq<char>, Seq<char>> {
        self.last_local_dir@.map_values(|s: String| s@)
    }

    /// Browser position per connection.
    pub closed spec fn navs(&self) -> Map<Seq<char>, NavView> {
        self.last_nav@.map_values(|n: ConnectionNav| n@)
    }

    /// Bookmarks per connection, in the order they were added.
    pub closed spec fn marks(&self) -> Map<Seq<char>, Seq<BookmarkView>> {
        self.bookmarks@.map_values(|v: Vec<PrefixBookmark>| mark_views(v@))
    }

    /// A state with nothing remembered: no folders, positions or bookmarks,
    /// a transfer limit of zero and every preference off.
    pub fn new() -> (r: UiState)
        ensures
            r.wf(),
            r.dirs() == Map::<Seq<char>, Seq<char>>::empty(),
            r.navs() == Map::<Seq<char>, NavView>::empty(),
            r.marks() == Map::<Seq<char>, Seq<BookmarkView>>::empty(),
            r.limit() == 0,
            !r.prefs().local_panel_open && !r.prefs().details_pane_open
                && !r.prefs().connections_collapsed && !r.prefs().buckets_collapsed,
    {
        let r = UiState {
            last_local_dir: KeyedList::new(),
            max_concurrent_transfers: 0,
            last_nav: KeyedList::new(),
            bookmarks: KeyedList::new(),
            preferences: UiPreferences {
                local_panel_open: false,
                details_pane_open: false,
                connections_collapsed: false,
                buckets_collapsed: false,
            },
        };
        assert(r.dirs() =~= Map::<Seq<char>, Seq<char>>::empty());
        assert(r.navs() =~= Map::<Seq<char>, NavView>::empty());
        assert(r.marks() =~= Map::<Seq<char>, Seq<BookmarkView>>::empty());
        r
    }

    /// The stored folders, positions and bookmarks, for saving.
    pub fn parts(&self) -> (r: (
        &KeyedList<String>,
        &KeyedList<ConnectionNav>,
        &KeyedList<Vec<PrefixBookmark>>,
    ))
        requires
            self.wf(),
        ensures
            r.0.wf() && r.1.wf() && r.2.wf(),
            r.0@.map_values(|s: String| s@) == self.dirs(),
            r.1@.map_values(|n: ConnectionNav| n@) == self.navs(),
            r.2@.map_values(|v: Vec<PrefixBookmark>| mark_views(v@)) == self.marks(),
    {
        (&self.last_local_dir, &self.last_nav, &self.bookmarks)
    }

    /// How many transfers may run at once.
    pub fn max_concurrent_transfers(&self) -> (r: u32)
        ensures
            r == self.limit(),
    {
        self.max_concurrent_transfers
    }

    /// Sets how many transfers may run at once.
    pub fn set_max_concurrent_transfers(&mut self, value: u32)
        requires
            old(self).wf(),
        ensures
            final(self).wf(),
            final(self).limit() == value,
            final(self).dirs() == old(self).dirs(),
            final(self).navs() == old(self).navs(),
            final(self).marks() == old(self).marks(),
            final(self).prefs() == old(self).prefs(),
    {
        self.max_concurrent_transfers = value;
    }

    /// The layout preferences.
    pub fn preferences(&self) -> (r: &UiPreferences)
        ensures
            *r == self.prefs(),
    {
        &self.preferences
    }

    /// Replaces the layout preferences.
    pub fn set_preferences(&mut self, prefs: UiPreferences)
        requires
            old(self).wf(),
        ensures
            final(self).wf(),
            final(self).prefs() == prefs,
            final(self).limit() == old(self).limit(),
            final(self).dirs() == old(self).dirs(),
            final(self).navs() == old(self).navs(),
            final(self).marks() == old(self).marks(),
    {
        self.preferences = prefs;
    }

    /// The last local folder opened for a connection.
    pub fn last_local_dir(&self, connection_id: &str) -> (r: Option<String>)
        requires
            self.wf(),
        ensures
            opt_str_view(r) == (if self.dirs().dom().contains(connection_id@) {
                Some(self.dirs()[connection_id@])
            } else {
                None
            }),
    {
        match self.last_local_dir.get(connection_id) {
            Some(s) => Some(string_of(&chars_of(s.as_str()))),
            None => None,
        }
    }

    /// Remembers the last local folder of a connection.
    pub fn set_last_local_dir(&mut self, connection_id: &str, path: &str)
        requires
            old(self).wf(),
        ensures
            final(self).wf(),
            final(self).dirs() == old(self).dirs().insert(connection_id@, path@),
            final(self).navs() == old(self).navs(),
            final(self).marks() == old(self).marks(),
            final(self).limit() == old(self).limit(),
            final(self).prefs() == old(self).prefs(),
    {
        let ghost before = self.dirs();
        let p = string_of(&chars_of(path));
        self.last_local_dir.insert(connection_id, p);
        assert(self.dirs() =~= before.insert(connection_id@, path@));
    }

    /// Where the browser was for a connection.
    pub fn connection_nav(&self, connection_id: &str) -> (r: Option<ConnectionNav>)
        requires
            self.wf(),
        ensures
            match r {
                Some(n) => self.navs().dom().contains(connection_id@) && n@ == self.navs()[connection_id@],
                None => !self.navs().dom().contains(connection_id@),
            },
    {
        match self.last_nav.get(connection_id) {
            Some(n) => Some(copy_nav(n)),
            None => None,
        }
    }

    /// Remembers where the browser is for a connection.
    pub fn set_connection_nav(&mut self, connection_id: &str, nav: ConnectionNav)
        requires
            old(self).wf(),
        ensures
            final(self).wf(),
            final(self).navs() == old(self).navs().insert(connection_id@, nav@),
            final(self).dirs() == old(self).dirs(),
            final(self).marks() == old(self).marks(),
            final(self).limit() == old(self).limit(),
            final(self).prefs() == old(self).prefs(),
    {
        let ghost before = self.navs();
        let ghost v = nav@;
        self.last_nav.insert(connection_id, nav);
        assert(self.navs() =~= before.insert(connection_id@, v));
    }

    /// The bookmarks of a connection (none where it has none).
    pub fn bookmarks(&self, connection_id: &str) -> (r: Vec<PrefixBookmark>)
        requires
            self.wf(),
        ensures
            mark_views(r@) == (if self.marks().dom().contains(connection_id@) {
                self.marks()[connection_id@]
            } else {
                Seq::empty()
            }),
    {
        match self.bookmarks.get(connection_id) {
            Some(v) => copy_marks(v),
            None => {
                let r: Vec<PrefixBookmark> = Vec::new();
                assert(mark_views(r@) =~= Seq::<BookmarkView>::empty());
                r
            },
        }
    }

    /// Appends a bookmark to a connection's list.
    pub fn add_bookmark(&mut self, connection_id: &str, bookmark: PrefixBookmark)
        requires
            old(self).wf(),
        ensures
            final(self).wf(),
            final(self).marks() == marks_after_add(old(self).marks(), connection_id@, bookmark@),
            final(self).dirs() == old(self).dirs(),
            final(self).navs() == old(self).navs(),
            final(self).limit() == old(self).limit(),
            final(self).prefs() == old(self).prefs(),
    {
        let ghost before = self.marks();
        let ghost b = bookmark@;
        let mut list = match self.bookmarks.take(connection_id) {
            Some(v) => v,
            None => Vec::new(),
        };
        let ghost old_list = mark_views(list@);
        assert(old_list =~= (if before.dom().contains(connection_id@) {
            before[connection_id@]
        } else {
            Seq::empty()
        }));
        list.push(bookmark);
        assert(mark_views(list@) =~= old_list.push(b));
        self.bookmarks.insert(connection_id, list);
        assert(self.marks() =~= before.insert(connection_id@, old_list.push(b)));
    }

    /// Drops the bookmarks with the given id from a connection's list, and
    /// the list itself once it is empty.
    pub fn remove_bookmark(&mut self, connection_id: &str, bookmark_id: &str)
        requires
            old(self).wf(),
        ensures
            final(self).wf(),
            final(self).marks() == marks_after_remove(
                old(self).marks(),
                connection_id@,
                bookmark_id@,
            ),
            final(self).dirs() == old(self).dirs(),
            final(self).navs() == old(self).navs(),
            final(self).limit() == old(self).limit(),
            final(self).prefs() == old(self).prefs(),
    {
        let ghost before = self.marks();
        let mut list = match self.bookmarks.take(connection_id) {
            Some(v) => v,
            None => {
                assert(self.marks() =~= before);
                return;
            },
        };
        let ghost all = mark_views(list@);
        assert(all == before[connection_id@]);
        let t = chars_of(bookmark_id);
        let n = list.len();
        let mut kept: Vec<PrefixBookmark> = Vec::new();
        let mut i: usize = 0;
        while i < n
            invariant
                i <= n,
                n == all.len(),
                t@ == bookmark_id@,
                list.len() == n - i,
                mark_views(list@) == all.subrange(i as int, n as int),
                mark_views(kept@) == marks_without(all.subrange(0, i as int), bookmark_id@),
            decreases n - i,
        {
            assert(mark_views(list@)[0] == list@[0]@);
            let ghost before_list = list@;
            let b = list.remove(0);
            assert(b@ == all[i as int]);
            assert forall|k: int| 0 <= k < list.len() implies mark_views(list@)[k] == all.subrange(
                i + 1,
                n as int,
            )[k] by {
                assert(list@[k] == before_list[k + 1]);
                assert(mark_views(before_list)[k + 1] == all.subrange(i as int, n as int)[k + 1]);
            }
            assert(mark_views(list@) =~= all.subrange(i + 1, n as int));
            assert(all.subrange(0, i + 1).drop_last() =~= all.subrange(0, i as int));
            if !eq_chars(&chars_of(b.id.as_str()), &t) {
                let ghost pre = mark_views(kept@);
                let ghost bv = b@;
                kept.push(b);
                assert(mark_views(kept@) =~= pre.push(bv));
            }
            i += 1;
        }
        assert(all.subrange(0, n as int) =~= all);
        if kept.len() == 0 {
            assert(self.marks() =~= before.remove(connection_id@));
        } else {
            let ghost kv = mark_views(kept@);
            self.bookmarks.insert(connection_id, kept);
            assert(self.marks() =~= before.insert(connection_id@, kv));
        }
    }
}

/// The marks after removing the bookmarks with `id` from connection `c`, as
/// [`UiState::remove_bookmark`] leaves them.
pub open spec fn marks_after_remove(
    m: Map<Seq<char>, Seq<BookmarkView>>,
    c: Seq<char>,
    id: Seq<char>,
) -> Map<Seq<char>, Seq<BookmarkView>> {
    if !m.dom().contains(c) {
        m
    } else {
        let kept = marks_without(m[c], id);
        if kept.len() == 0 {
            m.remove(c)
        } else {
            m.insert(c, kept)
        }
    }
}

/// The marks after appending bookmark `b` to connection `c`, as
/// [`UiState::add_bookmark`] leaves them.
pub open spec fn marks_after_add(
    m: Map<Seq<char>, Seq<BookmarkView>>,
    c: Seq<char>,
    b: BookmarkView,
) -> Map<Seq<char>, Seq<BookmarkView>> {
    m.insert(
        c,
        (if m.dom().contains(c) {
            m[c]
        } else {
            Seq::empty()
        }).push(b),
    )
}

proof fn lemma_marks_without_push(v: Seq<BookmarkView>, b: BookmarkView)
    ensures
        marks_without(v.push(b), b.id) == marks_without(v, b.id),
{
    assert(v.push(b).drop_last() =~= v);
}

proof fn lemma_marks_without_keeps(v: Seq<BookmarkView>, id: Seq<char>)
    requires
        forall|i: int| 0 <= i < v.len() ==> v[i].id != id,
    ensures
        marks_without(v, id) == v,
    decreases v.len(),
{
    if v.len() > 0 {
        lemma_marks_without_keeps(v.drop_last(), id);
        assert(v.drop_last().push(v.last()) =~= v);
    }
}

/// Adding a bookmark and then removing it by its id gives back the
/// bookmarks as they were, when no bookmark of that connection had the id
/// and no connection had an empty list.
pub proof fn law_add_then_remove_bookmark(
    m: Map<Seq<char>, Seq<BookmarkView>>,
    c: Seq<char>,
    b: BookmarkView,
)
    requires
        m.dom().contains(c) ==> m[c].len() > 0,
        m.dom().contains(c) ==> forall|i: int| 0 <= i < m[c].len() ==> m[c][i].id != b.id,
    ensures
        marks_after_remove(marks_after_add(m, c, b), c, b.id) == m,
{
    let old_list = if m.dom().contains(c) {
        m[c]
    } else {
        Seq::empty()
    };
    lemma_marks_without_push(old_list, b);
    lemma_marks_without_keeps(old_list, b.id);
    let a = marks_after_add(m, c, b);
    assert(a[c] == old_list.push(b));
    if m.dom().contains(c) {
        assert(a.insert(c, old_list) =~= m);
    } else {
        assert(a.remove(c) =~= m);
    }
}

/// Which stored panel layout a mode names.
#[derive(Debug, Clone, Copy, PartialEq, Eq, Structural)]
pub enum PanelLayoutMode {
    Three,
    Four,
}

/// The panel layout a mode names: `three` or `four`; any other mode is
/// refused with a message that quotes it.
pub fn panel_layout_mode(mode: &str) -> (r: Result<PanelLayoutMode, String>)
    ensures
        mode@ == "three"@ ==> r == Ok::<PanelLayoutMode, String>(PanelLayoutMode::Three),
        mode@ == "four"@ ==> r == Ok::<PanelLayoutMode, String>(PanelLayoutMode::Four),
        mode@ != "three"@ && mode@ != "four"@ ==> (r matches Err(m) && m@
            == "invalid panel layout mode: "@ + mode@),
{
    let m = chars_of(mode);
    let three = chars_of("three");
    let four = chars_of("four");
    proof {
        reveal_strlit("three");
        reveal_strlit("four");
        assert("three"@.len() == 5 && "four"@.len() == 4);
    }
    if eq_chars(&m, &three) {
        Ok(PanelLayoutMode::Three)
    } else if eq_chars(&m, &four) {
        Ok(PanelLayoutMode::Four)
    } else {
        let mut out = chars_of("invalid panel layout mode: ");
        crate::text::push_all(&mut out, &m);
        Err(string_of(&out))
    }
}

} // verus!
