use vstd::prelude::*;

use crate::index_query::str_views;
use crate::text::{chars_of, eq_chars, string_of};

verus! {

/// A set of string ids.
pub struct KeySet {
    items: Vec<String>,
}

pub open spec fn distinct_strs(s: Seq<Seq<char>>) -> bool {
    forall|i: int, j: int| 0 <= i < s.len() && 0 <= j < s.len() && i != j ==> s[i] != s[j]
}

impl View for KeySet {
    type V = Set<Seq<char>>;

    closed spec fn view(&self) -> Set<Seq<char>> {
        str_views(self.items@).to_set()
    }
}

impl KeySet {
    /// No id is held twice.
    pub closed spec fn wf(&self) -> bool {
        distinct_strs(str_views(self.items@))
    }

    /// The empty set.
    pub fn new() -> (r: KeySet)
        ensures
            r.wf(),
            r@ == Set::<Seq<char>>::empty(),
    {
        let r = KeySet { items: Vec::new() };
        assert(str_views(r.items@) =~= Seq::<Seq<char>>::empty());
        assert(r@ =~= Set::<Seq<char>>::empty());
        r
    }

    fn position(&self, id: &str) -> (r: Option<usize>)
        ensures
            match r {
                Some(i) => i < self.items.len() && str_views(self.items@)[i as int] == id@,
                None => !self@.contains(id@),
            },
    {
        let target = chars_of(id);
        let mut i: usize = 0;
        while i < self.items.len()
            invariant
                i <= self.items.len(),
                target@ == id@,
                forall|j: int| 0 <= j < i ==> str_views(self.items@)[j] != id@,
            decreases self.items.len() - i,
        {
            if eq_chars(&chars_of(self.items[i].as_str()), &target) {
                assert(str_views(self.items@)[i as int] == id@);
                return Some(i);
            }
            i += 1;
        }
        proof {
            if self@.contains(id@) {
                let j = choose|j: int| 0 <= j < str_views(self.items@).len() && str_views(
                    self.items@,
                )[j] == id@;
                assert(str_views(self.items@)[j] != id@);
            }
        }
        None
    }

    /// Whether `id` is in the set.
    pub fn contains(&self, id: &str) -> (b: bool)
        ensures
            b == self@.contains(id@),
    {
        match self.position(id) {
            Some(i) => {
                assert(str_views(self.items@).contains(id@));
                true
            },
            None => false,
        }
    }

    /// Adds `id`; `true` when it was not there before.
    pub fn insert(&mut self, id: &str) -> (b: bool)
        requires
            old(self).wf(),
        ensures
            final(self).wf(),
            final(self)@ == old(self)@.insert(id@),
            b == !old(self)@.contains(id@),
    {
        if self.contains(id) {
            assert(self@.insert(id@) =~= self@);
            return false;
        }
        let ghost before = str_views(self.items@);
        self.items.push(string_of(&chars_of(id)));
        proof {
            let after = str_views(self.items@);
            assert(after =~= before.push(id@));
            assert forall|i: int, j: int|
                0 <= i < after.len() && 0 <= j < after.len() && i != j implies after[i]
                != after[j] by {
                if i < before.len() && j < before.len() {
                } else if i < before.len() {
                    assert(before.contains(after[i]));
                } else {
                    assert(before.contains(after[j]));
                }
            }
            assert(after.to_set() =~= before.to_set().insert(id@)) by {
                assert forall|x: Seq<char>| after.to_set().contains(x) <==> before.to_set().insert(
                    id@,
                ).contains(x) by {
                    if after.contains(x) && x != id@ {
                        let w = choose|w: int| 0 <= w < after.len() && after[w] == x;
                        assert(before[w] == x);
                    }
                    if before.contains(x) {
                        let w = choose|w: int| 0 <= w < before.len() && before[w] == x;
                        assert(after[w] == x);
                    }
                    if x == id@ {
                        assert(after[after.len() - 1] == x);
                    }
                }
            }
        }
        true
    }

    /// Removes `id`; `true` when it was there.
    pub fn remove(&mut self, id: &str) -> (b: bool)
        requires
            old(self).wf(),
        ensures
            final(self).wf(),
            final(self)@ == old(self)@.remove(id@),
            b == old(self)@.contains(id@),
    {
        match self.position(id) {
            None => {
                assert(self@.remove(id@) =~= self@);
                false
            },
            Some(i) => {
                let ghost before = str_views(self.items@);
                let _ = self.items.remove(i);
                proof {
                    let after = str_views(self.items@);
                    assert(after =~= before.subrange(0, i as int) + before.subrange(
                        i + 1,
                        before.len() as int,
                    ));
                    assert forall|a: int, c: int|
                        0 <= a < after.len() && 0 <= c < after.len() && a != c implies after[a]
                        != after[c] by {
                        let a2 = if a < i { a } else { a + 1 };
                        let c2 = if c < i { c } else { c + 1 };
                        assert(after[a] == before[a2]);
                        assert(after[c] == before[c2]);
                    }
                    assert forall|x: Seq<char>| after.to_set().contains(x) <==> before.to_set().remove(
                        id@,
                    ).contains(x) by {
                        if after.contains(x) {
                            let w = choose|w: int| 0 <= w < after.len() && after[w] == x;
                            let w2 = if w < i { w } else { w + 1 };
                            assert(before[w2] == x);
                            assert(w2 != i);
                        }
                        if before.contains(x) && x != id@ {
                            let w = choose|w: int| 0 <= w < before.len() && before[w] == x;
                            assert(w != i);
                            let w2 = if w < i { w } else { w - 1 };
                            assert(after[w2] == x);
                        }
                    }
                    assert(after.to_set() =~= before.to_set().remove(id@));
                    assert(before.contains(id@));
                }
                true
            },
        }
    }
}

/// The bucket-index jobs that are running, so that one bucket is indexed by
/// at most one job at a time.
pub struct BucketIndexManager {
    running: KeySet,
}

impl View for BucketIndexManager {
    type V = Set<Seq<char>>;

    closed spec fn view(&self) -> Set<Seq<char>> {
        self.running@
    }
}

impl BucketIndexManager {
    pub closed spec fn wf(&self) -> bool {
        self.running.wf()
    }

    /// No job running.
    pub fn new() -> (r: BucketIndexManager)
        ensures
            r.wf(),
            r@ == Set::<Seq<char>>::empty(),
    {
        BucketIndexManager { running: KeySet::new() }
    }

    /// Marks a job running; `false` (and no change) when it already is.
    pub fn try_start(&mut self, job_id: &str) -> (b: bool)
        requires
            old(self).wf(),
        ensures
            final(self).wf(),
            final(self)@ == old(self)@.insert(job_id@),
            b == !old(self)@.contains(job_id@),
    {
        self.running.insert(job_id)
    }

    /// Marks a job finished.
    pub fn finish(&mut self, job_id: &str)
        requires
            old(self).wf(),
        ensures
            final(self).wf(),
            final(self)@ == old(self)@.remove(job_id@),
    {
        let _ = self.running.remove(job_id);
    }

    /// Whether a job is running.
    pub fn is_running(&self, job_id: &str) -> (b: bool)
        ensures
            b == self@.contains(job_id@),
    {
        self.running.contains(job_id)
    }
}

/// A job that was started cannot be started again until it finishes, and
/// once finished it can: `try_start` succeeds exactly on ids not running.
pub proof fn law_start_finish(running: Set<Seq<char>>, id: Seq<char>)
    ensures
        running.insert(id).contains(id),
        !running.insert(id).remove(id).contains(id),
        running.insert(id).remove(id) == running.remove(id),
{
    assert(running.insert(id).remove(id) =~= running.remove(id));
}

} // verus!
