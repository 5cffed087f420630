use vstd::prelude::*;

use tokio_util::sync::CancellationToken;

use crate::jobs::KeySet;
use crate::text::{chars_of, eq_chars, string_of};

verus! {

/// tokio-util's cancellation token, carried through opaquely.
#[verifier::external_type_specification]
#[verifier::external_body]
pub struct ExCancellationToken(CancellationToken);

/// tokio-util: `CancellationToken::new`, a token that is not cancelled.
#[verifier::external_body]
fn new_token() -> (r: CancellationToken) {
    CancellationToken::new()
}

/// tokio-util: `CancellationToken::clone`, a handle on the same token.
#[verifier::external_body]
fn share_token(t: &CancellationToken) -> (r: CancellationToken) {
    t.clone()
}

/// tokio-util: `CancellationToken::cancel`, which cancels the token and every
/// handle on it.
#[verifier::external_body]
fn cancel_token(t: &CancellationToken) {
    t.cancel()
}

struct Registration {
    id: String,
    token: CancellationToken,
}

spec fn reg_ids(v: Seq<Registration>) -> Seq<Seq<char>> {
    Seq::new(v.len(), |i: int| v[i].id@)
}

/// The running transfers: a cancellation token for each, and which of them
/// are paused.
pub struct TransferManager {
    tokens: Vec<Registration>,
    paused: KeySet,
}

impl TransferManager {
    /// The ids with a registered token.
    pub closed spec fn registered(&self) -> Set<Seq<char>> {
        reg_ids(self.tokens@).to_set()
    }

    /// The ids of the paused transfers.
    pub closed spec fn paused_ids(&self) -> Set<Seq<char>> {
        self.paused@
    }

    pub closed spec fn wf(&self) -> bool {
        crate::jobs::distinct_strs(reg_ids(self.tokens@)) && self.paused.wf()
    }

    /// No transfer registered or paused.
    pub fn new() -> (r: TransferManager)
        ensures
            r.wf(),
            r.registered() == Set::<Seq<char>>::empty(),
            r.paused_ids() == Set::<Seq<char>>::empty(),
    {
        let r = TransferManager { tokens: Vec::new(), paused: KeySet::new() };
        assert(reg_ids(r.tokens@) =~= Seq::<Seq<char>>::empty());
        assert(r.registered() =~= Set::<Seq<char>>::empty());
        r
    }

    fn position(&self, id: &str) -> (r: Option<usize>)
        ensures
            match r {
                Some(i) => i < self.tokens.len() && reg_ids(self.tokens@)[i as int] == id@,
                None => !self.registered().contains(id@),
            },
    {
        let target = chars_of(id);
        let mut i: usize = 0;
        while i < self.tokens.len()
            invariant
                i <= self.tokens.len(),
                target@ == id@,
                forall|j: int| 0 <= j < i ==> reg_ids(self.tokens@)[j] != id@,
            decreases self.tokens.len() - i,
        {
            if eq_chars(&chars_of(self.tokens[i].id.as_str()), &target) {
                assert(reg_ids(self.tokens@)[i as int] == id@);
                return Some(i);
            }
            i += 1;
        }
        proof {
            let s = reg_ids(self.tokens@);
            if s.to_set().contains(id@) {
                let j = choose|j: int| 0 <= j < s.len() && s[j] == id@;
                assert(s[j] != id@);
            }
        }
        None
    }

    /// Registers a transfer and returns a handle on its fresh cancellation
    /// token; a transfer registered again gets a new token.
    pub fn register(&mut self, transfer_id: &str) -> (r: CancellationToken)
        requires
            old(self).wf(),
        ensures
            final(self).wf(),
            final(self).registered() == old(self).registered().insert(transfer_id@),
            final(self).paused_ids() == old(self).paused_ids(),
    {
        let token = new_token();
        let handle = share_token(&token);
        match self.position(transfer_id) {
            Some(i) => {
                let ghost before = reg_ids(self.tokens@);
                self.tokens.set(i, Registration { id: string_of(&chars_of(transfer_id)), token });
                proof {
                    let after = reg_ids(self.tokens@);
                    assert(after =~= before);
                    assert(before.contains(transfer_id@));
                    assert(after.to_set() =~= before.to_set().insert(transfer_id@));
                }
            },
            None => {
                let ghost before = reg_ids(self.tokens@);
                self.tokens.push(Registration { id: string_of(&chars_of(transfer_id)), token });
                proof {
                    let after = reg_ids(self.tokens@);
                    assert(after =~= before.push(transfer_id@));
                    assert forall|a: int, c: int|
                        0 <= a < after.len() && 0 <= c < after.len() && a != c implies after[a]
                        != after[c] by {
                        if a < before.len() && c < before.len() {
                        } else if a < before.len() {
                            assert(before.contains(after[a]));
                        } else {
                            assert(before.contains(after[c]));
                        }
                    }
                    assert forall|x: Seq<char>| after.to_set().contains(x) <==> before.to_set().insert(
                        transfer_id@,
                    ).contains(x) by {
                        if after.contains(x) && x != transfer_id@ {
                            let w = choose|w: int| 0 <= w < after.len() && after[w] == x;
                            assert(before[w] == x);
                        }
                        if before.contains(x) {
                            let w = choose|w: int| 0 <= w < before.len() && before[w] == x;
                            assert(after[w] == x);
                        }
                        if x == transfer_id@ {
                            assert(after[after.len() - 1] == x);
                        }
                    }
                    assert(after.to_set() =~= before.to_set().insert(transfer_id@));
                }
            },
        }
        handle
    }

    /// Cancels a registered transfer; `false` for an unknown one.
    pub fn cancel(&self, transfer_id: &str) -> (b: bool)
        ensures
            b == self.registered().contains(transfer_id@),
    {
        match self.position(transfer_id) {
            Some(i) => {
                cancel_token(&self.tokens[i].token);
                assert(reg_ids(self.tokens@).contains(transfer_id@));
                true
            },
            None => false,
        }
    }

    /// Pauses a transfer; `true` when it was not paused.
    pub fn pause(&mut self, transfer_id: &str) -> (b: bool)
        requires
            old(self).wf(),
        ensures
            final(self).wf(),
            final(self).registered() == old(self).registered(),
            final(self).paused_ids() == old(self).paused_ids().insert(transfer_id@),
            b == !old(self).paused_ids().contains(transfer_id@),
    {
        self.paused.insert(transfer_id)
    }

    /// Resumes a transfer; `true` when it was paused.
    pub fn resume(&mut self, transfer_id: &str) -> (b: bool)
        requires
            old(self).wf(),
        ensures
            final(self).wf(),
            final(self).registered() == old(self).registered(),
            final(self).paused_ids() == old(self).paused_ids().remove(transfer_id@),
            b == old(self).paused_ids().contains(transfer_id@),
    {
        self.paused.remove(transfer_id)
    }

    /// Whether a transfer is paused.
    pub fn is_paused(&self, transfer_id: &str) -> (b: bool)
        ensures
            b == self.paused_ids().contains(transfer_id@),
    {
        self.paused.contains(transfer_id)
    }

    /// Forgets a transfer: its token and its pause.
    pub fn remove(&mut self, transfer_id: &str)
        requires
            old(self).wf(),
        ensures
            final(self).wf(),
            final(self).registered() == old(self).registered().remove(transfer_id@),
            final(self).paused_ids() == old(self).paused_ids().remove(transfer_id@),
    {
        match self.position(transfer_id) {
            None => {
                assert(self.registered().remove(transfer_id@) =~= self.registered());
            },
            Some(i) => {
                let ghost before = reg_ids(self.tokens@);
                let _ = self.tokens.remove(i);
                proof {
                    let after = reg_ids(self.tokens@);
                    assert(after =~= before.subrange(0, i as int) + before.subrange(
                        i + 1,
                        before.len() as int,
                    ));
                    assert forall|a: int, c: int|
                        0 <= a < after.len() && 0 <= c < after.len() && a != c implies after[a]
                        != after[c] by {
                        let a2 = if a < i { a } else { a + 1 };
                        let c2 = if c < i { c } else { c + 1 };
                        assert(after[a] == before[a2]);
                        assert(after[c] == before[c2]);
                    }
                    assert forall|x: Seq<char>| after.to_set().contains(x) <==> before.to_set().remove(
                        transfer_id@,
                    ).contains(x) by {
                        if after.contains(x) {
                            let w = choose|w: int| 0 <= w < after.len() && after[w] == x;
                            let w2 = if w < i { w } else { w + 1 };
                            assert(before[w2] == x);
                        }
                        if before.contains(x) && x != transfer_id@ {
                            let w = choose|w: int| 0 <= w < before.len() && before[w] == x;
                            let w2 = if w < i { w } else { w - 1 };
                            assert(after[w2] == x);
                        }
                    }
                    assert(after.to_set() =~= before.to_set().remove(transfer_id@));
                }
            },
        }
        let _ = self.paused.remove(transfer_id);
    }
}

} // verus!
