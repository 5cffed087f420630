use vstd::prelude::*;

use crate::text::{chars_of, eq_chars, string_of};

verus! {

/// A small map from string keys to values, kept as a list of entries with
/// distinct keys.
pub struct KeyedList<V> {
    entries: Vec<(String, V)>,
}

/// No two entries share a key.
pub open spec fn keys_unique<V>(s: Seq<(String, V)>) -> bool {
    forall|i: int, j: int| 0 <= i < s.len() && 0 <= j < s.len() && i != j ==> s[i].0@ != s[j].0@
}

/// The map that a list of entries with distinct keys stands for.
pub open spec fn entry_map<V>(s: Seq<(String, V)>) -> Map<Seq<char>, V> {
    Map::new(
        |k: Seq<char>| exists|i: int| 0 <= i < s.len() && s[i].0@ == k,
        |k: Seq<char>| s[choose|i: int| 0 <= i < s.len() && s[i].0@ == k].1,
    )
}

pub proof fn lemma_entry_map_at<V>(s: Seq<(String, V)>, i: int)
    requires
        keys_unique(s),
        0 <= i < s.len(),
    ensures
        entry_map(s).dom().contains(s[i].0@),
        entry_map(s)[s[i].0@] == s[i].1,
{
    let k = s[i].0@;
    assert(0 <= i < s.len() && s[i].0@ == k);
    let j = choose|j: int| 0 <= j < s.len() && s[j].0@ == k;
    assert(j == i);
}

impl<V> View for KeyedList<V> {
    type V = Map<Seq<char>, V>;

    closed spec fn view(&self) -> Map<Seq<char>, V> {
        entry_map(self.entries@)
    }
}

impl<V> KeyedList<V> {
    /// Keys are distinct.
    pub closed spec fn wf(&self) -> bool {
        keys_unique(self.entries@)
    }

    /// An empty map.
    pub fn new() -> (r: KeyedList<V>)
        ensures
            r.wf(),
            r@ == Map::<Seq<char>, V>::empty(),
    {
        let r = KeyedList { entries: Vec::new() };
        assert(r@ =~= Map::<Seq<char>, V>::empty());
        r
    }

    /// The entries, in no particular order; their map is the view.
    pub fn entries(&self) -> (r: &Vec<(String, V)>)
        requires
            self.wf(),
        ensures
            keys_unique(r@),
            entry_map(r@) == self@,
    {
        &self.entries
    }

    fn index_of(&self, key: &str) -> (r: Option<usize>)
        requires
            self.wf(),
        ensures
            match r {
                Some(i) => i < self.entries.len() && self.entries@[i as int].0@ == key@
                    && self@.dom().contains(key@) && self@[key@] == self.entries@[i as int].1,
                None => !self@.dom().contains(key@),
            },
    {
        let target = chars_of(key);
        let mut i: usize = 0;
        while i < self.entries.len()
            invariant
                self.wf(),
                i <= self.entries.len(),
                target@ == key@,
                forall|j: int| 0 <= j < i ==> #[trigger] self.entries@[j].0@ != key@,
            decreases self.entries.len() - i,
        {
            if eq_chars(&chars_of(self.entries[i].0.as_str()), &target) {
                proof {
                    lemma_entry_map_at(self.entries@, i as int);
                }
                return Some(i);
            }
            i += 1;
        }
        proof {
            let s = self.entries@;
            if self@.dom().contains(key@) {
                let j = choose|j: int| 0 <= j < s.len() && s[j].0@ == key@;
                assert(s[j].0@ == key@);
            }
        }
        None
    }

    /// The value under `key`.
    pub fn get(&self, key: &str) -> (r: Option<&V>)
        requires
            self.wf(),
        ensures
            match r {
                Some(v) => self@.dom().contains(key@) && *v == self@[key@],
                None => !self@.dom().contains(key@),
            },
    {
        match self.index_of(key) {
            Some(i) => Some(&self.entries[i].1),
            None => None,
        }
    }

    /// Takes the value under `key` out of the map.
    pub fn take(&mut self, key: &str) -> (r: Option<V>)
        requires
            old(self).wf(),
        ensures
            final(self).wf(),
            final(self)@ == old(self)@.remove(key@),
            match r {
                Some(v) => old(self)@.dom().contains(key@) && v == old(self)@[key@],
                None => !old(self)@.dom().contains(key@),
            },
    {
        match self.index_of(key) {
            None => {
                assert(self@ =~= self@.remove(key@));
                None
            },
            Some(i) => {
                let ghost a = self.entries@;
                let (_, v) = self.entries.remove(i);
                proof {
                    let b = self.entries@;
                    assert(b =~= a.remove(i as int));
                    assert forall|x: int, y: int|
                        0 <= x < b.len() && 0 <= y < b.len() && x != y implies b[x].0@
                        != b[y].0@ by {
                        let xa = if x < i { x } else { x + 1 };
                        let ya = if y < i { y } else { y + 1 };
                        assert(b[x] == a[xa] && b[y] == a[ya]);
                    }
                    assert forall|k: Seq<char>|
                        #![auto]
                        entry_map(b).dom().contains(k) <==> entry_map(a).remove(
                            key@,
                        ).dom().contains(k) by {
                        if entry_map(b).dom().contains(k) {
                            let j = choose|j: int| 0 <= j < b.len() && b[j].0@ == k;
                            let ja = if j < i { j } else { j + 1 };
                            assert(a[ja].0@ == k);
                            assert(ja != i);
                        }
                        if entry_map(a).dom().contains(k) && k != key@ {
                            let j = choose|j: int| 0 <= j < a.len() && a[j].0@ == k;
                            assert(j != i);
                            let jb = if j < i { j } else { j - 1 };
                            assert(b[jb].0@ == k);
                        }
                    }
                    assert forall|k: Seq<char>| #[trigger]
                        entry_map(b).dom().contains(k) implies entry_map(b)[k] == entry_map(
                        a,
                    )[k] by {
                        let j = choose|j: int| 0 <= j < b.len() && b[j].0@ == k;
                        lemma_entry_map_at(b, j);
                        let ja = if j < i { j } else { j + 1 };
                        assert(b[j] == a[ja]);
                        lemma_entry_map_at(a, ja);
                    }
                    assert(entry_map(b) =~= entry_map(a).remove(key@));
                }
                Some(v)
            },
        }
    }

    /// Puts `value` under `key`, replacing what was there.
    pub fn insert(&mut self, key: &str, value: V)
        requires
            old(self).wf(),
        ensures
            final(self).wf(),
            final(self)@ == old(self)@.insert(key@, value),
    {
        let _ = self.take(key);
        let ghost a = self.entries@;
        let ghost m = self@;
        self.entries.push((string_of(&chars_of(key)), value));
        proof {
            let b = self.entries@;
            assert(b =~= a.push(b[a.len() as int]));
            assert(!m.dom().contains(key@));
            assert forall|x: int, y: int|
                0 <= x < b.len() && 0 <= y < b.len() && x != y implies b[x].0@ != b[y].0@ by {
                if x == a.len() {
                    if b[y].0@ == key@ {
                        lemma_entry_map_at(a, y);
                    }
                } else if y == a.len() {
                    if b[x].0@ == key@ {
                        lemma_entry_map_at(a, x);
                    }
                } else {
                    assert(b[x] == a[x] && b[y] == a[y]);
                }
            }
            assert forall|k: Seq<char>|
                #![auto]
                entry_map(b).dom().contains(k) <==> m.insert(key@, value).dom().contains(k) by {
                if entry_map(b).dom().contains(k) {
                    let j = choose|j: int| 0 <= j < b.len() && b[j].0@ == k;
                    if j < a.len() {
                        assert(a[j].0@ == k);
                    }
                }
                if m.dom().contains(k) {
                    let j = choose|j: int| 0 <= j < a.len() && a[j].0@ == k;
                    assert(b[j].0@ == k);
                }
                if k == key@ {
                    assert(b[a.len() as int].0@ == k);
                }
            }
            assert forall|k: Seq<char>| #[trigger]
                entry_map(b).dom().contains(k) implies entry_map(b)[k] == m.insert(
                key@,
                value,
            )[k] by {
                let j = choose|j: int| 0 <= j < b.len() && b[j].0@ == k;
                lemma_entry_map_at(b, j);
                if j < a.len() {
                    assert(b[j] == a[j]);
                    lemma_entry_map_at(a, j);
                }
            }
            assert(entry_map(b) =~= m.insert(key@, value));
        }
    }
}

} // verus!
