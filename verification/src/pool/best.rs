//! The best-first iterator: a snapshot of the pending sub-pool drained in
//! priority order, sender by sender, nonce by nonce.
use vstd::prelude::*;

use crate::identifier::{
    id_lt, ids_sorted, lemma_id_trichotomy, lemma_ids_sorted_remove, lemma_ids_sorted_unique,
    id_insert_position, SenderId, TransactionId,
};
use crate::maps::{has_key, keys_unique, lemma_map_of_is, lemma_map_of_remove_at, map_of};
use crate::pool::pending::{
    entries_keyed, min_nonce_for, pending_le, lemma_pending_le_total, lemma_pending_le_trans,
    PendingTransaction,
};
use crate::validate::ValidPoolTransaction;

verus! {

/// A valid element of the iterator's frontier: present in the snapshot and
/// of minimal nonce for its sender there.
pub open spec fn best_entry_ok(
    all: Seq<(TransactionId, PendingTransaction)>,
    p: PendingTransaction,
) -> bool {
    &&& exists|j: int|
        0 <= j < all.len() && #[trigger] all[j] == (p.transaction.transaction_id, p)
    &&& min_nonce_for(all, p.transaction.transaction_id.sender, p.transaction.transaction_id.nonce)
}

/// The element ranks at or above everything in the frontier.
pub open spec fn top_of(s: Seq<PendingTransaction>, m: PendingTransaction) -> bool {
    forall|k: int| 0 <= k < s.len() ==> pending_le(#[trigger] s[k], m)
}

/// The iterator over the executable snapshot.
///
/// It owns its data: nothing that later happens to the live pool reaches
/// it, and nothing it does reaches the pool.
pub struct BestTransactions {
    /// The snapshot of the pending index at creation time.
    pub all: Vec<(TransactionId, PendingTransaction)>,
    /// The frontier: per sender still represented, its next candidate.
    pub independent: Vec<PendingTransaction>,
    /// Senders reported failed; nothing more of theirs is yielded.
    pub invalid: Vec<SenderId>,
}

impl BestTransactions {
    pub open spec fn wf(self) -> bool {
        &&& ids_sorted(self.all@)
        &&& entries_keyed(self.all@)
        &&& forall|i: int|
            0 <= i < self.independent@.len() ==> best_entry_ok(
                self.all@,
                #[trigger] self.independent@[i],
            )
        &&& forall|i: int, j: int|
            0 <= i < j < self.independent@.len() ==> (#[trigger] self.independent@[
            i]).transaction.transaction_id.sender != (#[trigger] self.independent@[
            j]).transaction.transaction_id.sender
    }

    /// Pops the top-ranked element of the frontier and retires its entry
    /// from the snapshot.
    #[verifier::loop_isolation(false)]
    fn pop_best(&mut self) -> (r: Option<PendingTransaction>)
        requires
            old(self).wf(),
        ensures
            final(self).wf(),
            final(self).invalid == old(self).invalid,
            r is None <==> old(self).independent@.len() == 0,
            r is None ==> *final(self) == *old(self),
            r matches Some(m) ==> {
                &&& top_of(old(self).independent@, m)
                &&& old(self).independent@.contains(m)
                &&& m.transaction.wf()
                &&& best_entry_ok(old(self).all@, m)
                &&& exists|i: int|
                    #![auto]
                    0 <= i < old(self).independent@.len() && old(self).independent@[i] == m
                        && final(self).independent@ == old(self).independent@.remove(i)
                &&& final(self).independent@.len() + 1 == old(self).independent@.len()
                &&& forall|k: int|
                    0 <= k < final(self).independent@.len() ==> (#[trigger] final(self).independent@[k]).transaction.transaction_id.sender
                        != m.transaction.transaction_id.sender && pending_le(
                        final(self).independent@[k],
                        m,
                    )
                &&& map_of(final(self).all@) == map_of(old(self).all@).remove(
                    m.transaction.transaction_id,
                )
                &&& forall|j: int|
                    0 <= j < final(self).all@.len() && (#[trigger] final(self).all@[j]).0.sender
                        == m.transaction.transaction_id.sender ==> final(self).all@[j].0.nonce
                        > m.transaction.transaction_id.nonce
            },
    {
        let n: usize = self.independent.len();
        if n == 0 {
            return None;
        }
        let mut best_i: usize = 0;
        let mut i: usize = 1;
        while i < n
            invariant
                1 <= i <= n,
                best_i < i,
                forall|k: int|
                    0 <= k < i ==> pending_le(
                        #[trigger] self.independent@[k],
                        self.independent@[best_i as int],
                    ),
            decreases n - i,
        {
            let cand = &self.independent[i];
            if self.independent[best_i].le(cand) {
                proof {
                    assert forall|k: int| 0 <= k < i + 1 implies pending_le(
                        #[trigger] self.independent@[k],
                        self.independent@[i as int],
                    ) by {
                        if k < i {
                            lemma_pending_le_trans(
                                self.independent@[k],
                                self.independent@[best_i as int],
                                self.independent@[i as int],
                            );
                        }
                    }
                }
                best_i = i;
            } else {
                proof {
                    lemma_pending_le_total(
                        self.independent@[i as int],
                        self.independent@[best_i as int],
                    );
                }
            }
            i += 1;
        }
        let m = self.independent[best_i];
        let ghost pre_ind = self.independent@;
        let _ = self.independent.remove(best_i);
        proof {
            assert(exists|i: int|
                #![auto]
                0 <= i < pre_ind.len() && pre_ind[i] == m && self.independent@ == pre_ind.remove(
                    i,
                )) by {
                assert(pre_ind[best_i as int] == m && self.independent@ == pre_ind.remove(
                    best_i as int,
                ));
            }
            assert forall|k: int|
                0 <= k < self.independent@.len() implies (#[trigger] self.independent@[
            k]).transaction.transaction_id.sender != m.transaction.transaction_id.sender
                && pending_le(self.independent@[k], m) by {
                let k2: int = if k < best_i { k } else { k + 1 };
                assert(self.independent@[k] == pre_ind[k2]);
            }
            assert forall|a: int, b: int|
                0 <= a < b < self.independent@.len() implies (#[trigger] self.independent@[
            a]).transaction.transaction_id.sender != (#[trigger] self.independent@[
            b]).transaction.transaction_id.sender by {
                let a2: int = if a < best_i { a } else { a + 1 };
                let b2: int = if b < best_i { b } else { b + 1 };
                assert(self.independent@[a] == pre_ind[a2] && self.independent@[b] == pre_ind[b2]);
            }
            assert forall|k: int|
                0 <= k < self.independent@.len() implies best_entry_ok(
                self.all@,
                #[trigger] self.independent@[k],
            ) by {
                let k2: int = if k < best_i { k } else { k + 1 };
                assert(self.independent@[k] == pre_ind[k2]);
            }
        }
        // retire the popped entry from the snapshot: it sits exactly at
        // the position its id sorts to
        let id = m.transaction.id();
        proof {
            lemma_ids_sorted_unique(self.all@);
            lemma_map_of_is(self.all@);
            assert(old(self).independent@.contains(m)) by {
                assert(pre_ind[best_i as int] == m);
            }
        }
        let pos = id_insert_position(&self.all, id);
        let ghost j = pos as int;
        let ghost pre_all = self.all@;
        proof {
            let w = choose|w: int|
                0 <= w < pre_all.len() && #[trigger] pre_all[w] == (m.transaction.transaction_id, m);
            assert(m.transaction.wf());
            if w < j {
                assert(id_lt(pre_all[w].0, *id));
                assert(false);
            }
            if j < w {
                assert(!id_lt(pre_all[j].0, *id));
                assert(id_lt(pre_all[j].0, pre_all[w].0));
                assert(false);
            }
            assert(j == w);
            assert((self.all@[j]).0 == m.transaction.transaction_id);
            lemma_ids_sorted_remove(self.all@, j);
            lemma_map_of_remove_at(self.all@, j);
        }
        let _ = self.all.remove(pos);
        proof {
            assert(entries_keyed(self.all@)) by {
                assert forall|k: int|
                    0 <= k < self.all@.len() implies (#[trigger] self.all@[
                k]).1.transaction.transaction_id == self.all@[k].0 && self.all@[
                k].1.transaction.wf() by {
                    let k2: int = if k < j { k } else { k + 1 };
                    assert(self.all@[k] == pre_all[k2]);
                }
            }
            assert forall|k: int|
                0 <= k < self.all@.len() && (#[trigger] self.all@[k]).0.sender
                    == m.transaction.transaction_id.sender implies self.all@[k].0.nonce
                > m.transaction.transaction_id.nonce by {
                let k2: int = if k < j { k } else { k + 1 };
                assert(self.all@[k] == pre_all[k2]);
                assert(min_nonce_for(
                    pre_all,
                    m.transaction.transaction_id.sender,
                    m.transaction.transaction_id.nonce,
                ));
                assert(m.transaction.transaction_id.nonce <= pre_all[k2].0.nonce);
                if pre_all[k2].0.nonce == m.transaction.transaction_id.nonce {
                    assert(pre_all[k2].0 == m.transaction.transaction_id);
                    assert(false);
                }
            }
            assert forall|k: int|
                0 <= k < self.independent@.len() implies best_entry_ok(
                self.all@,
                #[trigger] self.independent@[k],
            ) by {
                let e = self.independent@[k];
                assert(best_entry_ok(pre_all, e));
                let w = choose|w: int|
                    0 <= w < pre_all.len() && #[trigger] pre_all[w] == (
                        e.transaction.transaction_id,
                        e,
                    );
                assert(w != j) by {
                    assert(e.transaction.transaction_id.sender
                        != m.transaction.transaction_id.sender);
                }
                let w2: int = if w < j { w } else { w - 1 };
                assert(self.all@[w2] == pre_all[w]);
                assert forall|q: int|
                    0 <= q < self.all@.len() && (#[trigger] self.all@[q]).0.sender
                        == e.transaction.transaction_id.sender implies e.transaction.transaction_id.nonce
                    <= self.all@[q].0.nonce by {
                    let q2: int = if q < j { q } else { q + 1 };
                    assert(self.all@[q] == pre_all[q2]);
                }
            }
        }
        Some(m)
    }

    /// Marks a sender failed: the iterator yields nothing more of it.
    pub fn mark_invalid(&mut self, sender: SenderId)
        requires
            old(self).wf(),
        ensures
            final(self).wf(),
            final(self).invalid@ == old(self).invalid@.push(sender),
            final(self).all == old(self).all,
            final(self).independent == old(self).independent,
    {
        self.invalid.push(sender);
    }

    /// The next transaction: the top-ranked frontier element of a sender
    /// not marked failed; higher-ranked entries of failed senders are
    /// discarded. Yielding `(s, n)` promotes `(s, n + 1)` from the
    /// snapshot into the frontier, so one sender's transactions come out
    /// in nonce order.
    #[verifier::loop_isolation(false)]
    pub fn next(&mut self) -> (r: Option<ValidPoolTransaction>)
        requires
            old(self).wf(),
        ensures
            final(self).wf(),
            final(self).invalid == old(self).invalid,
            map_of(final(self).all@).submap_of(map_of(old(self).all@)),
            r matches Some(t) ==> yield_step(*old(self), *final(self), t),
            r is None ==> final(self).independent@.len() == 0,
            r is Some <==> eligible_in(old(self).independent@, old(self).invalid@),
            r is Some ==> old(self).independent@.len() > 0,
            r matches Some(t) ==> best_eligible_yield(
                old(self).independent@,
                old(self).invalid@,
                t,
            ),
    {
        proof {
            assert forall|k: int| 0 <= k < self.independent@.len() implies old(
                self,
            ).independent@.contains(#[trigger] self.independent@[k]) by {
                assert(old(self).independent@[k] == self.independent@[k]);
            }
        }
        loop
            invariant
                self.wf(),
                self.invalid == old(self).invalid,
                map_of(self.all@).submap_of(map_of(old(self).all@)),
                forall|k: int|
                    0 <= k < self.independent@.len() ==> old(self).independent@.contains(
                        #[trigger] self.independent@[k],
                    ),
                forall|k0: int|
                    0 <= k0 < old(self).independent@.len() && !old(self).invalid@.contains(
                        (#[trigger] old(self).independent@[k0]).transaction.transaction_id.sender,
                    ) ==> self.independent@.contains(old(self).independent@[k0]),
            decreases self.independent@.len(),
        {
            proof {
                lemma_ids_sorted_unique(self.all@);
                lemma_map_of_is(self.all@);
            }
            let ghost pre = *self;
            let popped = self.pop_best();
            match popped {
                None => {
                    proof {
                        assert(!eligible_in(old(self).independent@, old(self).invalid@)) by {
                            if eligible_in(old(self).independent@, old(self).invalid@) {
                                let k0 = choose|k0: int|
                                    0 <= k0 < old(self).independent@.len() && !old(
                                        self,
                                    ).invalid@.contains(
                                        (#[trigger] old(
                                            self,
                                        ).independent@[k0]).transaction.transaction_id.sender,
                                    );
                                assert(pre.independent@.contains(old(self).independent@[k0]));
                                let j = choose|j: int|
                                    0 <= j < pre.independent@.len() && pre.independent@[j] == old(
                                        self,
                                    ).independent@[k0];
                                assert(false);
                            }
                        }
                    }
                    return None;
                },
                Some(best) => {
                    let ghost i = choose|i: int|
                        #![auto]
                        0 <= i < pre.independent@.len() && pre.independent@[i] == best
                            && self.independent@ == pre.independent@.remove(i);
                    proof {
                        assert forall|k: int| 0 <= k < self.independent@.len() implies old(
                            self,
                        ).independent@.contains(#[trigger] self.independent@[k]) by {
                            let k2: int = if k < i {
                                k
                            } else {
                                k + 1
                            };
                            assert(self.independent@[k] == pre.independent@[k2]);
                        }
                    }
                    let sender_id = best.transaction.sender_id();
                    let invalid_sender = contains_sender(&self.invalid, &sender_id);
                    if !invalid_sender {
                        proof {
                            // the popped entry came from the snapshot `pre.all`,
                            // which sits inside the original snapshot
                            let w = choose|w: int|
                                0 <= w < pre.all@.len() && #[trigger] pre.all@[w] == (
                                    best.transaction.transaction_id,
                                    best,
                                );
                            assert(map_of(pre.all@).dom().contains(
                                best.transaction.transaction_id,
                            ));
                            assert(map_of(pre.all@)[best.transaction.transaction_id] == best);
                            assert(map_of(old(self).all@).dom().contains(
                                best.transaction.transaction_id,
                            ));
                            assert(map_of(old(self).all@)[best.transaction.transaction_id]
                                == best);
                            // the yield came from the original frontier and
                            // outranks every unfailed original entry
                            assert(old(self).independent@.contains(best)) by {
                                assert(pre.independent@[i] == best);
                            }
                            assert forall|k0: int|
                                0 <= k0 < old(self).independent@.len() && !old(
                                    self,
                                ).invalid@.contains(
                                    (#[trigger] old(
                                        self,
                                    ).independent@[k0]).transaction.transaction_id.sender,
                                ) implies pending_le(old(self).independent@[k0], best) by {
                                assert(pre.independent@.contains(old(self).independent@[k0]));
                                let j = choose|j: int|
                                    0 <= j < pre.independent@.len() && pre.independent@[j] == old(
                                        self,
                                    ).independent@[k0];
                                assert(top_of(pre.independent@, best));
                                assert(pending_le(pre.independent@[j], best));
                            }
                            assert(best_eligible_yield(
                                old(self).independent@,
                                old(self).invalid@,
                                best.transaction,
                            ));
                            assert(eligible_in(old(self).independent@, old(self).invalid@)) by {
                                let k = choose|k: int|
                                    0 <= k < old(self).independent@.len() && old(
                                        self,
                                    ).independent@[k] == best;
                                assert(!old(self).invalid@.contains(
                                    (old(self).independent@[k]).transaction.transaction_id.sender,
                                ));
                            }
                        }
                        self.promote_descendant(&best);
                        proof {
                            lemma_map_of_is(self.all@);
                            assert forall|id2: TransactionId|
                                #[trigger] map_of(self.all@).dom().contains(id2) && id2.sender
                                    == best.transaction.transaction_id.sender implies id2.nonce
                                > best.transaction.transaction_id.nonce by {
                                assert(has_key(self.all@, id2));
                                let q = choose|q: int|
                                    0 <= q < self.all@.len() && (#[trigger] self.all@[q]).0 == id2;
                            }
                        }
                        return Some(best.transaction);
                    } else {
                        proof {
                            // only an entry of a failed sender is discarded:
                            // every unfailed original entry survives the pop
                            assert forall|k0: int|
                                0 <= k0 < old(self).independent@.len() && !old(
                                    self,
                                ).invalid@.contains(
                                    (#[trigger] old(
                                        self,
                                    ).independent@[k0]).transaction.transaction_id.sender,
                                ) implies self.independent@.contains(
                                old(self).independent@[k0],
                            ) by {
                                let p = old(self).independent@[k0];
                                assert(pre.independent@.contains(p));
                                let j = choose|j: int|
                                    0 <= j < pre.independent@.len() && pre.independent@[j] == p;
                                assert(j != i) by {
                                    if j == i {
                                        assert(p == best);
                                    }
                                }
                                let j2: int = if j < i {
                                    j
                                } else {
                                    j - 1
                                };
                                assert(self.independent@[j2] == pre.independent@[j]);
                                assert(self.independent@.contains(p)) by {
                                    assert(self.independent@[j2] == p);
                                }
                            }
                        }
                    }
                },
            }
        }
    }

    /// Moves the yielded sender's next nonce, if the snapshot still holds
    /// it, into the frontier.
    fn promote_descendant(&mut self, best: &PendingTransaction)
        requires
            old(self).wf(),
            best.transaction.wf(),
            forall|k: int|
                0 <= k < old(self).independent@.len() ==> (#[trigger] old(self).independent@[
                k]).transaction.transaction_id.sender != best.transaction.transaction_id.sender,
            forall|j: int|
                0 <= j < old(self).all@.len() && (#[trigger] old(self).all@[j]).0.sender
                    == best.transaction.transaction_id.sender ==> old(self).all@[j].0.nonce
                    > best.transaction.transaction_id.nonce,
        ensures
            final(self).wf(),
            final(self).all == old(self).all,
            final(self).invalid == old(self).invalid,
    {
        let nonce = best.transaction.nonce();
        if nonce == u64::MAX {
            return ;
        }
        let next_id = TransactionId {
            sender: best.transaction.sender_id(),
            nonce: nonce + 1,
        };
        let pos = id_insert_position(&self.all, &next_id);
        if pos < self.all.len() {
            let p = self.all[pos];
            if p.0 == next_id {
                proof {
                    assert((self.all@[pos as int]).0 == next_id);
                    assert(p.1.transaction.transaction_id == next_id);
                    assert(best_entry_ok(self.all@, p.1)) by {
                        assert(self.all@[pos as int] == (p.1.transaction.transaction_id, p.1));
                        assert forall|q: int|
                            0 <= q < self.all@.len() && (#[trigger] self.all@[q]).0.sender
                                == next_id.sender implies next_id.nonce <= self.all@[q].0.nonce by {
                            assert(self.all@[q].0.nonce > best.transaction.transaction_id.nonce);
                            if q < pos {
                                assert(id_lt(self.all@[q].0, next_id));
                            } else {
                                assert(!id_lt(self.all@[q].0, next_id));
                            }
                        }
                    }
                }
                let ghost pre_ind = self.independent@;
                self.independent.push(p.1);
                proof {
                    assert forall|i: int|
                        0 <= i < self.independent@.len() implies best_entry_ok(
                        self.all@,
                        #[trigger] self.independent@[i],
                    ) by {
                        if i < pre_ind.len() {
                            assert(self.independent@[i] == pre_ind[i]);
                        }
                    }
                    assert forall|a: int, b: int|
                        0 <= a < b < self.independent@.len() implies (#[trigger] self.independent@[
                    a]).transaction.transaction_id.sender != (#[trigger] self.independent@[
                    b]).transaction.transaction_id.sender by {
                        if b == pre_ind.len() {
                            assert(self.independent@[a] == pre_ind[a]);
                        } else {
                            assert(self.independent@[a] == pre_ind[a] && self.independent@[b]
                                == pre_ind[b]);
                        }
                    }
                }
            }
        }
    }
}

/// Whether some frontier entry's sender is not on the failed list.
pub open spec fn eligible_in(s: Seq<PendingTransaction>, invalid: Seq<SenderId>) -> bool {
    exists|k: int|
        0 <= k < s.len() && !invalid.contains((#[trigger] s[k]).transaction.transaction_id.sender)
}

/// The yield is the transaction of a frontier entry of an unfailed
/// sender, ranked at or above every frontier entry of an unfailed sender.
pub open spec fn best_eligible_yield(
    s: Seq<PendingTransaction>,
    invalid: Seq<SenderId>,
    t: ValidPoolTransaction,
) -> bool {
    exists|m: PendingTransaction|
        #![auto]
        {
            &&& s.contains(m)
            &&& m.transaction == t
            &&& !invalid.contains(m.transaction.transaction_id.sender)
            &&& forall|k: int|
                0 <= k < s.len() && !invalid.contains(
                    (#[trigger] s[k]).transaction.transaction_id.sender,
                ) ==> pending_le(s[k], m)
        }
}

/// Whether a sender is on the failed list.
fn contains_sender(v: &Vec<SenderId>, sender: &SenderId) -> (r: bool)
    ensures
        r == v@.contains(*sender),
{
    let n: usize = v.len();
    let mut i: usize = 0;
    while i < n
        invariant
            n == v@.len(),
            i <= n,
            forall|j: int| 0 <= j < i ==> v@[j] != *sender,
        decreases n - i,
    {
        if v[i] == *sender {
            proof {
                assert(v@[i as int] == *sender);
            }
            return true;
        }
        i += 1;
    }
    proof {
        assert(forall|j: int| 0 <= j < v@.len() ==> v@[j] != *sender);
    }
    false
}

/// Law: one iterator never yields a sender's transactions out of nonce
/// order. If one call yields `t1` and a later state of the same run yields
/// `t2` of the same sender, `t2`'s nonce is strictly higher.
pub proof fn lemma_best_same_sender_nonce_increasing(
    s0: BestTransactions,
    s1: BestTransactions,
    s2: BestTransactions,
    t1: ValidPoolTransaction,
    t2: ValidPoolTransaction,
)
    requires
        yield_step(s0, s1, t1),
        yield_step(s1, s2, t2),
        t1.transaction_id.sender == t2.transaction_id.sender,
    ensures
        t1.transaction_id.nonce < t2.transaction_id.nonce,
{
    assert(map_of(s1.all@).dom().contains(t2.transaction_id));
}

/// What one successful call of [`BestTransactions::next`] guarantees,
/// stated over the states before and after: the yield came from the
/// snapshot, its sender was not failed, and every entry of that sender
/// still in the snapshot carries a higher nonce.
pub open spec fn yield_step(
    pre: BestTransactions,
    post: BestTransactions,
    t: ValidPoolTransaction,
) -> bool {
    &&& map_of(pre.all@).dom().contains(t.transaction_id)
    &&& map_of(pre.all@)[t.transaction_id].transaction == t
    &&& !pre.invalid@.contains(t.transaction_id.sender)
    &&& map_of(post.all@).submap_of(map_of(pre.all@))
    &&& forall|id2: TransactionId|
        #[trigger] map_of(post.all@).dom().contains(id2) && id2.sender == t.transaction_id.sender
            ==> id2.nonce > t.transaction_id.nonce
}

} // verus!
