use vstd::prelude::*;

use crate::builders::{ActionKind, ExecutionResult, PartialError};
use crate::index_query::str_views;
use crate::plans::{obj_views, object_size, total_size, IndexedObject};
use crate::text::{chars_of, eq_chars, push_str, string_of};

verus! {

/// At most this many keys go into one batch delete request.
pub const DELETE_BATCH_SIZE: usize = 1000;

/// The keys that a confirmed delete still removes, and the bytes it frees.
pub struct DeletionTargets {
    pub keys: Vec<String>,
    pub total_bytes: u64,
}

pub open spec fn has_key(v: Seq<Seq<char>>, k: Seq<char>) -> bool {
    exists|i: int| 0 <= i < v.len() && v[i] == k
}

pub open spec fn live_has(live: Seq<crate::plans::ObjView>, k: Seq<char>) -> bool {
    exists|i: int| 0 <= i < live.len() && live[i].key == k
}

pub open spec fn distinct(v: Seq<Seq<char>>) -> bool {
    forall|i: int, j: int| 0 <= i < v.len() && 0 <= j < v.len() && i != j ==> v[i] != v[j]
}

fn in_keys(v: &Vec<Vec<char>>, k: &[char]) -> (b: bool)
    ensures
        b == has_key(crate::text::views(v@), k@),
{
    let mut i: usize = 0;
    while i < v.len()
        invariant
            i <= v.len(),
            forall|j: int| 0 <= j < i ==> crate::text::views(v@)[j] != k@,
        decreases v.len() - i,
    {
        if eq_chars(&v[i], k) {
            assert(crate::text::views(v@)[i as int] == k@);
            return true;
        }
        i += 1;
    }
    false
}

fn in_live(live: &Vec<IndexedObject>, k: &[char]) -> (b: bool)
    ensures
        b == live_has(obj_views(live@), k@),
{
    let mut i: usize = 0;
    while i < live.len()
        invariant
            i <= live.len(),
            forall|j: int| 0 <= j < i ==> obj_views(live@)[j].key != k@,
        decreases live.len() - i,
    {
        if eq_chars(&chars_of(live[i].key.as_str()), k) {
            assert(obj_views(live@)[i as int].key == k@);
            return true;
        }
        i += 1;
    }
    false
}

/// Intersects the keys stored with a delete proposal with the keys still in
/// the live index: each such key once, in the order first stored.  The
/// bytes are those of every live object.
pub fn deletion_targets(stored_keys: &Vec<String>, live: &Vec<IndexedObject>) -> (r: DeletionTargets)
    requires
        total_size(obj_views(live@)) <= u64::MAX,
    ensures
        distinct(str_views(r.keys@)),
        forall|k: Seq<char>|
            has_key(str_views(r.keys@), k) <==> (has_key(str_views(stored_keys@), k) && live_has(
                obj_views(live@),
                k,
            )),
        r.total_bytes == total_size(obj_views(live@)),
{
    let mut seen: Vec<Vec<char>> = Vec::new();
    let mut keys: Vec<String> = Vec::new();
    let mut i: usize = 0;
    while i < stored_keys.len()
        invariant
            i <= stored_keys.len(),
            crate::text::views(seen@) == str_views(keys@),
            distinct(str_views(keys@)),
            forall|k: Seq<char>|
                has_key(str_views(keys@), k) <==> (has_key(
                    str_views(stored_keys@).subrange(0, i as int),
                    k,
                ) && live_has(obj_views(live@), k)),
        decreases stored_keys.len() - i,
    {
        let k = chars_of(stored_keys[i].as_str());
        let ghost pre = str_views(stored_keys@).subrange(0, i as int);
        let ghost post = str_views(stored_keys@).subrange(0, i + 1);
        assert(post =~= pre.push(k@));
        assert forall|x: Seq<char>| has_key(post, x) <==> (has_key(pre, x) || x == k@) by {
            if has_key(post, x) && x != k@ {
                let w = choose|w: int| 0 <= w < post.len() && post[w] == x;
                assert(pre[w] == x);
            }
            if has_key(pre, x) {
                let w = choose|w: int| 0 <= w < pre.len() && pre[w] == x;
                assert(post[w] == x);
            }
            if x == k@ {
                assert(post[i as int] == x);
            }
        }
        if in_live(live, &k) && !in_keys(&seen, &k) {
            let ghost before = str_views(keys@);
            keys.push(string_of(&k));
            seen.push(k);
            proof {
                let after = str_views(keys@);
                assert(after =~= before.push(k@));
                assert(crate::text::views(seen@) =~= after);
                assert forall|x: Seq<char>| has_key(after, x) <==> (has_key(before, x) || x == k@) by {
                    if has_key(after, x) && x != k@ {
                        let w = choose|w: int| 0 <= w < after.len() && after[w] == x;
                        assert(before[w] == x);
                    }
                    if has_key(before, x) {
                        let w = choose|w: int| 0 <= w < before.len() && before[w] == x;
                        assert(after[w] == x);
                    }
                    if x == k@ {
                        assert(after[after.len() - 1] == x);
                    }
                }
                assert forall|a: int, b: int|
                    0 <= a < after.len() && 0 <= b < after.len() && a != b implies after[a]
                    != after[b] by {
                    if a < before.len() && b < before.len() {
                    } else if a < before.len() {
                        assert(has_key(before, after[a]));
                    } else {
                        assert(has_key(before, after[b]));
                    }
                }
            }
        }
        i += 1;
    }
    assert(str_views(stored_keys@).subrange(0, i as int) =~= str_views(stored_keys@));
    let mut total: u64 = 0;
    let mut j: usize = 0;
    while j < live.len()
        invariant
            j <= live.len(),
            total_size(obj_views(live@)) <= u64::MAX,
            total == total_size(obj_views(live@).subrange(0, j as int)),
        decreases live.len() - j,
    {
        let ghost s = obj_views(live@);
        assert(s.subrange(0, j + 1).drop_last() =~= s.subrange(0, j as int));
        proof {
            crate::plans::lemma_total_size_prefix(s, j + 1);
        }
        total = total + object_size(&live[j]);
        j += 1;
    }
    assert(obj_views(live@).subrange(0, j as int) =~= obj_views(live@));
    DeletionTargets { keys, total_bytes: total }
}

/// The batches of one delete request each: consecutive runs of
/// [`DELETE_BATCH_SIZE`] keys, the last one possibly shorter.
pub fn delete_batches(keys: &Vec<String>) -> (r: Vec<Vec<String>>)
    ensures
        r.len() == (keys.len() + 999) / 1000,
        forall|b: int|
            0 <= b < r.len() ==> str_views(#[trigger] r@[b]@) == str_views(keys@).subrange(
                1000 * b,
                if 1000 * (b + 1) < keys.len() {
                    1000 * (b + 1)
                } else {
                    keys.len() as int
                },
            ),
{
    let mut r: Vec<Vec<String>> = Vec::new();
    let mut start: usize = 0;
    while start < keys.len()
        invariant
            start <= keys.len(),
            start < keys.len() ==> start == 1000 * r.len(),
            start == keys.len() ==> (keys.len() == 0 && r.len() == 0) || (1000 * (r.len() - 1)
                < keys.len() && keys.len() <= 1000 * r.len()),
            forall|b: int|
                0 <= b < r.len() ==> str_views(#[trigger] r@[b]@) == str_views(keys@).subrange(
                    1000 * b,
                    if 1000 * (b + 1) < keys.len() {
                        1000 * (b + 1)
                    } else {
                        keys.len() as int
                    },
                ),
        decreases keys.len() - start,
    {
        let end = if keys.len() - start > DELETE_BATCH_SIZE {
            start + DELETE_BATCH_SIZE
        } else {
            keys.len()
        };
        let mut batch: Vec<String> = Vec::new();
        let mut k: usize = start;
        while k < end
            invariant
                start <= k <= end <= keys.len(),
                str_views(batch@) =~= str_views(keys@).subrange(start as int, k as int),
            decreases end - k,
        {
            let ghost before = str_views(batch@);
            batch.push(string_of(&chars_of(keys[k].as_str())));
            assert(str_views(batch@) =~= before.push(keys@[k as int]@));
            k += 1;
        }
        let ghost old_r = r@;
        r.push(batch);
        assert forall|b: int| 0 <= b < r.len() implies str_views(#[trigger] r@[b]@) == str_views(
            keys@,
        ).subrange(
            1000 * b,
            if 1000 * (b + 1) < keys.len() {
                1000 * (b + 1)
            } else {
                keys.len() as int
            },
        ) by {
            if b < old_r.len() {
                assert(r@[b] == old_r[b]);
            }
        }
        start = end;
    }
    assert(r.len() == (keys.len() + 999) / 1000) by (nonlinear_arith)
        requires
            (keys.len() == 0 && r.len() == 0) || (1000 * (r.len() - 1) < keys.len() && keys.len()
                <= 1000 * r.len()),
    ;
    r
}

/// How far the execution of a proposal has come.
pub struct ExecutionProgress {
    pub done: usize,
    pub errors: Vec<PartialError>,
    /// Sources copied so far (renames only).
    pub copied: Vec<String>,
}

pub open spec fn err_views(v: Seq<PartialError>) -> Seq<(Seq<char>, Seq<char>)> {
    Seq::new(v.len(), |i: int| (v[i].key@, v[i].message@))
}

impl ExecutionProgress {
    /// Nothing done yet.
    pub fn new() -> (r: ExecutionProgress)
        ensures
            r.done == 0,
            r.errors.len() == 0,
            r.copied.len() == 0,
    {
        ExecutionProgress { done: 0, errors: Vec::new(), copied: Vec::new() }
    }

    fn fail_all(&mut self, keys: &Vec<String>, message: &[char])
        ensures
            final(self).done == old(self).done,
            str_views(final(self).copied@) == str_views(old(self).copied@),
            err_views(final(self).errors@) == err_views(old(self).errors@) + Seq::new(
                keys.len() as nat,
                |i: int| (keys@[i]@, message@),
            ),
    {
        let ghost start = err_views(self.errors@);
        let mut i: usize = 0;
        while i < keys.len()
            invariant
                i <= keys.len(),
                self.done == old(self).done,
                self.copied == old(self).copied,
                start == err_views(old(self).errors@),
                err_views(self.errors@) =~= start + Seq::new(
                    i as nat,
                    |j: int| (keys@[j]@, message@),
                ),
            decreases keys.len() - i,
        {
            let ghost before = err_views(self.errors@);
            self.errors.push(
                PartialError {
                    key: string_of(&chars_of(keys[i].as_str())),
                    message: string_of(message),
                },
            );
            assert(err_views(self.errors@) =~= before.push((keys@[i as int]@, message@)));
            i += 1;
        }
    }

    /// Records the outcome of one batch delete: its keys count as done, or
    /// each gets the request's error.
    pub fn record_delete_batch(&mut self, batch: &Vec<String>, failure: Option<String>)
        requires
            old(self).done + batch.len() <= usize::MAX,
        ensures
            str_views(final(self).copied@) == str_views(old(self).copied@),
            match failure {
                None => final(self).done == old(self).done + batch.len() && err_views(
                    final(self).errors@,
                ) == err_views(old(self).errors@),
                Some(e) => final(self).done == old(self).done && err_views(final(self).errors@)
                    == err_views(old(self).errors@) + Seq::new(
                    batch.len() as nat,
                    |i: int| (batch@[i]@, e@),
                ),
            },
    {
        match failure {
            None => {
                self.done = self.done + batch.len();
            },
            Some(e) => {
                let m = chars_of(e.as_str());
                self.fail_all(batch, &m);
            },
        }
    }

    /// Records the outcome of copying one object of a rename.
    pub fn record_copy(&mut self, source: &str, failure: Option<String>)
        requires
            old(self).done < usize::MAX,
        ensures
            match failure {
                None => final(self).done == old(self).done + 1 && str_views(final(self).copied@)
                    == str_views(old(self).copied@).push(source@) && err_views(final(self).errors@)
                    == err_views(old(self).errors@),
                Some(e) => final(self).done == old(self).done && str_views(final(self).copied@)
                    == str_views(old(self).copied@) && err_views(final(self).errors@) == err_views(
                    old(self).errors@,
                ).push((source@, e@)),
            },
    {
        match failure {
            None => {
                let ghost before = str_views(self.copied@);
                self.copied.push(string_of(&chars_of(source)));
                assert(str_views(self.copied@) =~= before.push(source@));
                self.done = self.done + 1;
            },
            Some(e) => {
                let ghost before = err_views(self.errors@);
                self.errors.push(
                    PartialError {
                        key: string_of(&chars_of(source)),
                        message: string_of(&chars_of(e.as_str())),
                    },
                );
                assert(err_views(self.errors@) =~= before.push((source@, e@)));
            },
        }
    }

    /// Records a failed delete of copied rename sources: each gets the
    /// error, noting that its copy went through.
    pub fn record_cleanup_failure(&mut self, batch: &Vec<String>, error: &str)
        ensures
            final(self).done == old(self).done,
            str_views(final(self).copied@) == str_views(old(self).copied@),
            err_views(final(self).errors@) == err_views(old(self).errors@) + Seq::new(
                batch.len() as nat,
                |i: int| (batch@[i]@, "copy succeeded but delete failed: "@ + error@),
            ),
    {
        let mut m = chars_of("copy succeeded but delete failed: ");
        push_str(&mut m, error);
        self.fail_all(batch, &m);
    }

    /// The result of the execution of proposal `id` of kind `kind`.
    pub fn finish(self, id: &str, kind: ActionKind, bytes_affected: u64) -> (r: ExecutionResult)
        ensures
            r.proposal_id@ == id@,
            r.kind == kind,
            r.objects_affected == self.done,
            r.bytes_affected == bytes_affected,
            err_views(r.errors@) == err_views(self.errors@),
    {
        ExecutionResult {
            proposal_id: string_of(&chars_of(id)),
            kind,
            objects_affected: self.done,
            bytes_affected,
            errors: self.errors,
        }
    }
}

/// The result of a delete that does nothing: a dry run, or nothing left to
/// delete.
pub fn nothing_deleted(id: &str) -> (r: ExecutionResult)
    ensures
        r.proposal_id@ == id@,
        r.kind == ActionKind::DeleteByQuery,
        r.objects_affected == 0,
        r.bytes_affected == 0,
        r.errors.len() == 0,
{
    ExecutionResult {
        proposal_id: string_of(&chars_of(id)),
        kind: ActionKind::DeleteByQuery,
        objects_affected: 0,
        bytes_affected: 0,
        errors: Vec::new(),
    }
}

/// The batch `b` of `keys`: keys `1000 * b` up to the next thousand, or to
/// the end.
pub open spec fn batch_of(keys: Seq<Seq<char>>, b: int) -> Seq<Seq<char>> {
    keys.subrange(
        1000 * b,
        if 1000 * (b + 1) < keys.len() {
            1000 * (b + 1)
        } else {
            keys.len() as int
        },
    )
}

/// The batches of a delete split its keys exactly: key `j` is key
/// `j % 1000` of batch `j / 1000`, and entry `t` of batch `i` is key
/// `1000 * i + t`; so each key goes out once, and no other key does.
pub proof fn law_delete_batches_partition(keys: Seq<Seq<char>>)
    ensures
        forall|j: int|
            0 <= j < keys.len() ==> 0 <= #[trigger] (j / 1000) < (keys.len() + 999) / 1000
                && j % 1000 < batch_of(keys, j / 1000).len() && batch_of(keys, j / 1000)[j % 1000]
                == keys[j],
        forall|i: int, t: int|
            0 <= i < (keys.len() + 999) / 1000 && 0 <= t < batch_of(keys, i).len()
                ==> 1000 * i + t < keys.len() && #[trigger] batch_of(keys, i)[t] == keys[1000 * i + t],
{
    assert forall|j: int| 0 <= j < keys.len() implies 0 <= #[trigger] (j / 1000) < (keys.len()
        + 999) / 1000 && j % 1000 < batch_of(keys, j / 1000).len() && batch_of(keys, j / 1000)[j
        % 1000] == keys[j] by {
        let b = j / 1000;
        let n = keys.len() as int;
        assert(j == 1000 * b + j % 1000 && 0 <= j % 1000 < 1000) by (nonlinear_arith)
            requires
                b == j / 1000,
                0 <= j,
        ;
        assert(0 <= b < (n + 999) / 1000) by (nonlinear_arith)
            requires
                b == j / 1000,
                0 <= j < n,
        ;
    }
    assert forall|i: int, t: int|
        0 <= i < (keys.len() + 999) / 1000 && 0 <= t < batch_of(keys, i).len() implies 1000 * i + t
        < keys.len() && #[trigger] batch_of(keys, i)[t] == keys[1000 * i + t] by {
        let n = keys.len() as int;
        assert(1000 * i <= n) by (nonlinear_arith)
            requires
                0 <= i < (n + 999) / 1000,
                0 <= n,
        ;
    }
}

/// What a confirmed delete does.
pub enum DeleteRun {
    /// A dry run, or no key left to delete: no delete request is made, and
    /// this is the result.
    Skip(ExecutionResult),
    /// One delete request per batch, in order.
    Batches(Vec<Vec<String>>),
}

/// Decides a confirmed delete of `targets` for proposal `id`: a dry run, or
/// one with nothing left to delete, makes no request and reports nothing
/// affected; otherwise the keys go out in batches of at most
/// [`DELETE_BATCH_SIZE`], each key once, in order.
pub fn plan_delete_run(id: &str, dry_run: bool, targets: &DeletionTargets) -> (r: DeleteRun)
    ensures
        (dry_run || targets.keys.len() == 0) <==> r is Skip,
        r matches DeleteRun::Skip(res) ==> (res.proposal_id@ == id@ && res.kind
            == ActionKind::DeleteByQuery && res.objects_affected == 0 && res.bytes_affected == 0
            && res.errors.len() == 0),
        r matches DeleteRun::Batches(b) ==> (b.len() == (targets.keys.len() + 999) / 1000 && b.len()
            > 0 && forall|i: int|
            0 <= i < b.len() ==> str_views(#[trigger] b@[i]@) == batch_of(
                str_views(targets.keys@),
                i,
            )),
{
    if dry_run || targets.keys.len() == 0 {
        DeleteRun::Skip(nothing_deleted(id))
    } else {
        let b = delete_batches(&targets.keys);
        assert(b.len() > 0) by (nonlinear_arith)
            requires
                b.len() == (targets.keys.len() + 999) / 1000,
                targets.keys.len() > 0,
        ;
        DeleteRun::Batches(b)
    }
}

/// Decides the cleanup after the copies of a rename: unless the rename only
/// copies, or nothing was copied, the copied sources are deleted in batches
/// of at most [`DELETE_BATCH_SIZE`], each once, in the order copied.
pub fn plan_rename_cleanup(copy_only: bool, progress: &ExecutionProgress) -> (r: Option<
    Vec<Vec<String>>,
>)
    ensures
        r is None <==> (copy_only || progress.copied.len() == 0),
        r matches Some(b) ==> (b.len() == (progress.copied.len() + 999) / 1000 && forall|i: int|
            0 <= i < b.len() ==> str_views(#[trigger] b@[i]@) == batch_of(
                str_views(progress.copied@),
                i,
            )),
{
    if copy_only || progress.copied.len() == 0 {
        None
    } else {
        Some(delete_batches(&progress.copied))
    }
}

} // verus!
