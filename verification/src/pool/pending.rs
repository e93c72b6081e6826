//! The pending sub-pool: transactions executable right now, with the
//! per-sender representative set the best-first iterator starts from, and
//! the broadcast channel announcing new admissions.
use vstd::prelude::*;

use crate::identifier::{
    id_insert_position, id_lt, ids_sorted, lemma_id_trichotomy, lemma_ids_sorted_insert,
    lemma_ids_sorted_remove, lemma_ids_sorted_unique, SenderId, TransactionId,
};
use crate::maps::{
    has_key, keys_unique, lemma_map_of_insert_at, lemma_map_of_is, lemma_map_of_push,
    lemma_map_of_remove_at, lemma_map_of_update_at, map_of,
};
use crate::ordering::{priority_le, spec_priority, PintOrdering, Priority};
use crate::pool::best::{best_entry_ok, BestTransactions};
use crate::validate::ValidPoolTransaction;

verus! {

/// A pending transaction: the valid transaction, its ranking, and its
/// arrival stamp, which breaks ranking ties first-come-first-served.
#[derive(Clone, Copy, Debug)]
pub struct PendingTransaction {
    pub submission_id: u64,
    pub transaction: ValidPoolTransaction,
    pub priority: Priority,
}

/// The strict part of the ranking order.
pub open spec fn priority_lt(a: Priority, b: Priority) -> bool {
    priority_le(a, b) && !priority_le(b, a)
}

/// The total order on pending transactions: ranking first, arrival stamp
/// second.
pub open spec fn pending_le(a: PendingTransaction, b: PendingTransaction) -> bool {
    priority_lt(a.priority, b.priority) || (!priority_lt(a.priority, b.priority) && !priority_lt(
        b.priority,
        a.priority,
    ) && a.submission_id <= b.submission_id)
}

/// The order is total: any two pending transactions compare.
pub proof fn lemma_pending_le_total(a: PendingTransaction, b: PendingTransaction)
    ensures
        pending_le(a, b) || pending_le(b, a),
{
}

/// The order is transitive.
pub proof fn lemma_pending_le_trans(
    a: PendingTransaction,
    b: PendingTransaction,
    c: PendingTransaction,
)
    requires
        pending_le(a, b),
        pending_le(b, c),
    ensures
        pending_le(a, c),
{
}

impl PendingTransaction {
    /// Executable comparison, pinned to [`pending_le`].
    pub fn le(&self, other: &PendingTransaction) -> (r: bool)
        ensures
            r == pending_le(*self, *other),
    {
        let mine_below = self.priority.le(&other.priority);
        let theirs_below = other.priority.le(&self.priority);
        if mine_below && !theirs_below {
            true
        } else if theirs_below && !mine_below {
            false
        } else {
            self.submission_id <= other.submission_id
        }
    }
}

/// Whether `nonce` is the least nonce `sender` has in the index.
pub open spec fn min_nonce_for<V>(
    s: Seq<(TransactionId, V)>,
    sender: SenderId,
    nonce: u64,
) -> bool {
    forall|j: int|
        0 <= j < s.len() && (#[trigger] s[j]).0.sender == sender ==> nonce <= s[j].0.nonce
}

/// Every entry of a well-formed index is keyed by its own id and carries a
/// well-formed transaction.
pub open spec fn entries_keyed(s: Seq<(TransactionId, PendingTransaction)>) -> bool {
    forall|i: int|
        0 <= i < s.len() ==> (#[trigger] s[i]).1.transaction.transaction_id == s[i].0
            && s[i].1.transaction.wf()
}

/// A valid per-sender representative: listed under its own sender, present
/// in the index, and of minimal nonce for its sender there.
pub open spec fn independent_entry_ok(
    by_id: Seq<(TransactionId, PendingTransaction)>,
    e: (SenderId, PendingTransaction),
) -> bool {
    &&& e.1.transaction.transaction_id.sender == e.0
    &&& exists|j: int|
        0 <= j < by_id.len() && #[trigger] by_id[j] == (e.1.transaction.transaction_id, e.1)
    &&& min_nonce_for(by_id, e.0, e.1.transaction.transaction_id.nonce)
}

/// The pending sub-pool.
pub struct PendingPool {
    /// How to rank transactions.
    pub ordering: PintOrdering,
    /// The next arrival stamp.
    pub submission_id: u64,
    /// Everything pending, sorted strictly by id.
    pub by_id: Vec<(TransactionId, PendingTransaction)>,
    /// Per sender, the pending entry with the least nonce.
    pub independent: Vec<(SenderId, PendingTransaction)>,
    /// Announces each new pending admission to subscribers, best effort.
    pub new_transaction_notifier: tokio::sync::broadcast::Sender<PendingTransaction>,
}

impl PendingPool {
    /// The pending transactions, by id.
    pub open spec fn by_id_map(self) -> Map<TransactionId, PendingTransaction> {
        map_of(self.by_id@)
    }

    /// The per-sender representatives.
    pub open spec fn independent_map(self) -> Map<SenderId, PendingTransaction> {
        map_of(self.independent@)
    }

    pub open spec fn wf(self) -> bool {
        &&& ids_sorted(self.by_id@)
        &&& entries_keyed(self.by_id@)
        &&& keys_unique(self.independent@)
        &&& forall|i: int|
            0 <= i < self.independent@.len() ==> independent_entry_ok(
                self.by_id@,
                #[trigger] self.independent@[i],
            )
    }

    /// A pool with a notification buffer of the given capacity.
    pub fn with_buffer(ordering: PintOrdering, buffer_capacity: usize) -> (r: PendingPool)
        requires
            1 <= buffer_capacity <= usize::MAX / 2,
        ensures
            r.wf(),
            r.by_id@.len() == 0,
            r.independent@.len() == 0,
            r.submission_id == 0,
    {
        PendingPool {
            ordering,
            submission_id: 0,
            by_id: Vec::new(),
            independent: Vec::new(),
            new_transaction_notifier: broadcast_channel(buffer_capacity),
        }
    }

    /// How many transactions are pending.
    pub fn len(&self) -> (r: usize)
        ensures
            r == self.by_id@.len(),
    {
        self.by_id.len()
    }

    /// Admits a transaction: stamps and ranks it, announces it if anyone
    /// listens, records it in the index, and refreshes its sender's
    /// representative.
    pub fn add_transaction(&mut self, tx: ValidPoolTransaction, base_fee: u64)
        requires
            old(self).wf(),
            tx.wf(),
            !old(self).by_id_map().dom().contains(tx.transaction_id),
        ensures
            final(self).wf(),
            final(self).by_id_map() == old(self).by_id_map().insert(
                tx.transaction_id,
                (PendingTransaction {
                    submission_id: old(self).submission_id,
                    transaction: tx,
                    priority: spec_priority(tx.transaction),
                }),
            ),
            final(self).by_id@.len() == old(self).by_id@.len() + 1,
            has_key(final(self).independent@, tx.transaction_id.sender),
    {
        let tx_id = *tx.id();
        let submission_id = self.next_id();
        let priority = self.ordering.priority(&tx.transaction);
        let entry = PendingTransaction { submission_id, transaction: tx, priority };

        let pos = id_insert_position(&self.by_id, &tx_id);
        proof {
            lemma_ids_sorted_unique(self.by_id@);
            lemma_map_of_is(self.by_id@);
            assert(!has_key(self.by_id@, tx_id));
            assert forall|j: int| pos <= j < self.by_id@.len() implies id_lt(
                tx_id,
                (#[trigger] self.by_id@[j]).0,
            ) by {
                lemma_id_trichotomy(tx_id, self.by_id@[j].0);
            }
            lemma_ids_sorted_insert(self.by_id@, pos as int, (tx_id, entry));
            lemma_map_of_insert_at(self.by_id@, pos as int, (tx_id, entry));
        }
        let ghost pre = self.by_id@;
        self.by_id.insert(pos, (tx_id, entry));
        proof {
            assert(entries_keyed(self.by_id@)) by {
                assert forall|i: int|
                    0 <= i < self.by_id@.len() implies (#[trigger] self.by_id@[
                    i]).1.transaction.transaction_id == self.by_id@[i].0 && self.by_id@[
                i].1.transaction.wf() by {
                    if i != pos {
                        let i2: int = if i < pos { i } else { i - 1 };
                        assert(self.by_id@[i] == pre[i2]);
                    }
                }
            }
            assert forall|k: int|
                0 <= k < self.independent@.len() && (#[trigger] self.independent@[k]).0
                    != tx_id.sender implies independent_entry_ok(
                self.by_id@,
                self.independent@[k],
            ) by {
                let e = self.independent@[k];
                assert(independent_entry_ok(pre, e));
                let j = choose|j: int|
                    0 <= j < pre.len() && #[trigger] pre[j] == (e.1.transaction.transaction_id, e.1);
                let j2: int = if j < pos { j } else { j + 1 };
                assert(self.by_id@[j2] == pre[j]);
                assert forall|m: int|
                    0 <= m < self.by_id@.len() && (#[trigger] self.by_id@[m]).0.sender == e.0
                        implies e.1.transaction.transaction_id.nonce <= self.by_id@[m].0.nonce by {
                    if m != pos {
                        let m2: int = if m < pos { m } else { m - 1 };
                        assert(self.by_id@[m] == pre[m2]);
                    }
                }
            }
            assert(sender_present(self.by_id@, tx_id.sender)) by {
                assert((self.by_id@[pos as int]).0.sender == tx_id.sender);
            }
        }
        self.refresh_independent(tx_id.sender);

        // announce only once the admission is recorded, so a subscriber
        // that reacts by reading the pool sees it
        if self.receiver_count() > 0 {
            let _ = self.notify(entry);
        }
    }

    /// Re-derives a sender's representative from the index: its first (and
    /// so least-nonce) entry there, or no slot when it has none.
    fn refresh_independent(&mut self, sender: SenderId)
        requires
            ids_sorted(old(self).by_id@),
            entries_keyed(old(self).by_id@),
            keys_unique(old(self).independent@),
            forall|i: int|
                0 <= i < old(self).independent@.len() ==> (#[trigger] old(self).independent@[
                i]).1.transaction.transaction_id.sender == old(self).independent@[i].0,
            forall|i: int|
                0 <= i < old(self).independent@.len() && (#[trigger] old(self).independent@[i]).0
                    != sender ==> independent_entry_ok(
                    old(self).by_id@,
                    old(self).independent@[i],
                ),
        ensures
            final(self).wf(),
            final(self).by_id == old(self).by_id,
            final(self).submission_id == old(self).submission_id,
            sender_present(old(self).by_id@, sender) ==> has_key(final(self).independent@, sender),
            !sender_present(old(self).by_id@, sender) ==> !has_key(
                final(self).independent@,
                sender,
            ),
            forall|s: SenderId|
                s != sender ==> (#[trigger] has_key(final(self).independent@, s) <==> has_key(
                    old(self).independent@,
                    s,
                )),
    {
        let found = first_of_sender(&self.by_id, sender);
        match found {
            Some(f) => {
                let rep = self.by_id[f].1;
                let ghost fi = f as int;
                proof {
                    assert(min_nonce_for(self.by_id@, sender, rep.transaction.transaction_id.nonce))
                        by {
                        assert forall|j: int|
                            0 <= j < self.by_id@.len() && (#[trigger] self.by_id@[j]).0.sender
                                == sender implies rep.transaction.transaction_id.nonce
                            <= self.by_id@[j].0.nonce by {
                            if j < fi {
                            } else if j > fi {
                                assert(id_lt(self.by_id@[fi].0, self.by_id@[j].0));
                            }
                        }
                    }
                    assert(self.by_id@[fi] == (rep.transaction.transaction_id, rep));
                    assert(independent_entry_ok(self.by_id@, (sender, rep)));
                    assert(sender_present(self.by_id@, sender)) by {
                        assert((self.by_id@[fi]).0.sender == sender);
                    }
                }
                self.set_independent(sender, rep);
            },
            None => {
                proof {
                    assert(!sender_present(self.by_id@, sender));
                }
                self.drop_independent(sender);
            },
        }
    }

    /// Installs a representative for a sender, replacing any previous one.
    #[verifier::loop_isolation(false)]
    fn set_independent(&mut self, sender: SenderId, rep: PendingTransaction)
        requires
            keys_unique(old(self).independent@),
            forall|i: int|
                0 <= i < old(self).independent@.len() && (#[trigger] old(self).independent@[i]).0
                    != sender ==> independent_entry_ok(
                    old(self).by_id@,
                    old(self).independent@[i],
                ),
            independent_entry_ok(old(self).by_id@, (sender, rep)),
        ensures
            keys_unique(final(self).independent@),
            forall|i: int|
                0 <= i < final(self).independent@.len() ==> independent_entry_ok(
                    final(self).by_id@,
                    #[trigger] final(self).independent@[i],
                ),
            final(self).by_id == old(self).by_id,
            final(self).submission_id == old(self).submission_id,
            has_key(final(self).independent@, sender),
            forall|s: SenderId|
                s != sender ==> (#[trigger] has_key(final(self).independent@, s) <==> has_key(
                    old(self).independent@,
                    s,
                )),
    {
        let n: usize = self.independent.len();
        let mut i: usize = 0;
        while i < n
            invariant
                n == self.independent@.len(),
                i <= n,
                *self == *old(self),
                forall|j: int| 0 <= j < i ==> (#[trigger] self.independent@[j]).0 != sender,
            decreases n - i,
        {
            let p = &self.independent[i];
            if p.0 == sender {
                proof {
                    lemma_map_of_update_at(self.independent@, i as int, rep);
                    assert((self.independent@[i as int]).0 == sender);
                }
                let ghost pre = self.independent@;
                self.independent[i] = (sender, rep);
                proof {
                    assert forall|j: int|
                        0 <= j < self.independent@.len() implies independent_entry_ok(
                        self.by_id@,
                        #[trigger] self.independent@[j],
                    ) by {
                        if j != i {
                            assert(self.independent@[j] == pre[j]);
                        }
                    }
                    assert(has_key(self.independent@, sender)) by {
                        assert((self.independent@[i as int]).0 == sender);
                    }
                    assert forall|s: SenderId| s != sender implies (#[trigger] has_key(
                        self.independent@,
                        s,
                    ) <==> has_key(pre, s)) by {
                        if has_key(self.independent@, s) {
                            let j = choose|j: int|
                                0 <= j < self.independent@.len() && (#[trigger] self.independent@[
                                j]).0 == s;
                            assert((pre[j]).0 == s);
                        }
                        if has_key(pre, s) {
                            let j = choose|j: int|
                                0 <= j < pre.len() && (#[trigger] pre[j]).0 == s;
                            assert((self.independent@[j]).0 == s);
                        }
                    }
                }
                return ;
            }
            i += 1;
        }
        proof {
            assert(!has_key(self.independent@, sender));
            lemma_map_of_push(self.independent@, (sender, rep));
        }
        let ghost pre = self.independent@;
        self.independent.push((sender, rep));
        proof {
            assert forall|j: int|
                0 <= j < self.independent@.len() implies independent_entry_ok(
                self.by_id@,
                #[trigger] self.independent@[j],
            ) by {
                if j < pre.len() {
                    assert(self.independent@[j] == pre[j]);
                    assert((pre[j]).0 != sender);
                }
            }
            assert(has_key(self.independent@, sender)) by {
                assert((self.independent@[pre.len() as int]).0 == sender);
            }
        }
    }

    /// Deletes a sender's representative slot, if there is one.
    #[verifier::loop_isolation(false)]
    fn drop_independent(&mut self, sender: SenderId)
        requires
            keys_unique(old(self).independent@),
            forall|i: int|
                0 <= i < old(self).independent@.len() && (#[trigger] old(self).independent@[i]).0
                    != sender ==> independent_entry_ok(
                    old(self).by_id@,
                    old(self).independent@[i],
                ),
        ensures
            keys_unique(final(self).independent@),
            final(self).by_id == old(self).by_id,
            final(self).submission_id == old(self).submission_id,
            !has_key(final(self).independent@, sender),
            forall|s: SenderId|
                s != sender ==> (#[trigger] has_key(final(self).independent@, s) <==> has_key(
                    old(self).independent@,
                    s,
                )),
            forall|j: int|
                0 <= j < final(self).independent@.len() ==> independent_entry_ok(
                    final(self).by_id@,
                    #[trigger] final(self).independent@[j],
                ),
    {
        let n: usize = self.independent.len();
        let mut i: usize = 0;
        while i < n
            invariant
                n == self.independent@.len(),
                i <= n,
                *self == *old(self),
                forall|j: int| 0 <= j < i ==> (#[trigger] self.independent@[j]).0 != sender,
            decreases n - i,
        {
            let p = &self.independent[i];
            if p.0 == sender {
                proof {
                    lemma_map_of_remove_at(self.independent@, i as int);
                }
                let ghost pre = self.independent@;
                let _ = self.independent.remove(i);
                proof {
                    assert forall|j: int|
                        0 <= j < self.independent@.len() implies independent_entry_ok(
                        self.by_id@,
                        #[trigger] self.independent@[j],
                    ) by {
                        let k: int = if j < i { j } else { j + 1 };
                        assert(self.independent@[j] == pre[k]);
                        assert((pre[i as int]).0 == sender);
                        assert((pre[k]).0 != sender);
                    }
                    assert forall|s: SenderId| s != sender implies (#[trigger] has_key(
                        self.independent@,
                        s,
                    ) <==> has_key(pre, s)) by {
                        if has_key(self.independent@, s) {
                            let j = choose|j: int|
                                0 <= j < self.independent@.len() && (#[trigger] self.independent@[
                                j]).0 == s;
                            let k: int = if j < i { j } else { j + 1 };
                            assert((pre[k]).0 == s);
                        }
                        if has_key(pre, s) {
                            let j = choose|j: int|
                                0 <= j < pre.len() && (#[trigger] pre[j]).0 == s;
                            let k: int = if j < i { j } else { j - 1 };
                            assert(j != i);
                            assert((self.independent@[k]).0 == s);
                        }
                    }
                }
                return ;
            }
            i += 1;
        }
        proof {
            assert(!has_key(self.independent@, sender));
            assert forall|j: int|
                0 <= j < self.independent@.len() implies independent_entry_ok(
                self.by_id@,
                #[trigger] self.independent@[j],
            ) by {
                assert((self.independent@[j]).0 != sender);
            }
        }
    }

    /// Removes a pending transaction by id; a sender whose representative
    /// this was gets its slot re-derived from what remains.
    #[verifier::loop_isolation(false)]
    pub fn remove_transaction(&mut self, id: &TransactionId) -> (r: Option<ValidPoolTransaction>)
        requires
            old(self).wf(),
        ensures
            final(self).wf(),
            old(self).by_id_map().dom().contains(*id) ==> r == Some(
                old(self).by_id_map()[*id].transaction,
            ) && final(self).by_id_map() == old(self).by_id_map().remove(*id) && final(self).by_id@.len()
                + 1 == old(self).by_id@.len(),
            !old(self).by_id_map().dom().contains(*id) ==> r is None && *final(self) == *old(self),
    {
        proof {
            lemma_ids_sorted_unique(self.by_id@);
            lemma_map_of_is(self.by_id@);
        }
        let n: usize = self.by_id.len();
        let mut i: usize = 0;
        while i < n
            invariant
                n == self.by_id@.len(),
                i <= n,
                *self == *old(self),
                old(self).wf(),
                keys_unique(self.by_id@),
                forall|j: int| 0 <= j < i ==> (#[trigger] self.by_id@[j]).0 != *id,
            decreases n - i,
        {
            let p = &self.by_id[i];
            if p.0 == *id {
                proof {
                    assert((self.by_id@[i as int]).0 == *id);
                    lemma_ids_sorted_remove(self.by_id@, i as int);
                    lemma_map_of_remove_at(self.by_id@, i as int);
                }
                let ghost pre = self.by_id@;
                let removed = self.by_id.remove(i);
                proof {
                    assert(entries_keyed(self.by_id@)) by {
                        assert forall|j: int|
                            0 <= j < self.by_id@.len() implies (#[trigger] self.by_id@[
                        j]).1.transaction.transaction_id == self.by_id@[j].0 && self.by_id@[
                        j].1.transaction.wf() by {
                            let j2: int = if j < i { j } else { j + 1 };
                            assert(self.by_id@[j] == pre[j2]);
                        }
                    }
                    assert forall|k: int|
                        0 <= k < self.independent@.len() && (#[trigger] self.independent@[k]).0
                            != removed.0.sender implies independent_entry_ok(
                        self.by_id@,
                        self.independent@[k],
                    ) by {
                        let e = self.independent@[k];
                        assert(independent_entry_ok(pre, e));
                        let j = choose|j: int|
                            0 <= j < pre.len() && #[trigger] pre[j] == (
                                e.1.transaction.transaction_id,
                                e.1,
                            );
                        assert(j != i) by {
                            assert((pre[i as int]).0.sender == removed.0.sender);
                        }
                        let j2: int = if j < i { j } else { j - 1 };
                        assert(self.by_id@[j2] == pre[j]);
                        assert forall|m: int|
                            0 <= m < self.by_id@.len() && (#[trigger] self.by_id@[m]).0.sender
                                == e.0 implies e.1.transaction.transaction_id.nonce <= self.by_id@[
                            m].0.nonce by {
                            let m2: int = if m < i { m } else { m + 1 };
                            assert(self.by_id@[m] == pre[m2]);
                        }
                    }
                }
                self.refresh_independent(removed.0.sender);
                return Some(removed.1.transaction);
            }
            i += 1;
        }
        proof {
            assert(!has_key(self.by_id@, *id));
        }
        None
    }

    /// A snapshot iterator over the executable set, seeded with the
    /// per-sender representatives. It owns copies of everything it reads:
    /// later mutations of the pool do not reach it, nor it the pool.
    #[verifier::loop_isolation(false)]
    pub fn best(&self) -> (r: BestTransactions)
        requires
            self.wf(),
        ensures
            r.wf(),
            r.all@ == self.by_id@,
            r.invalid@.len() == 0,
            r.independent@.len() == self.independent@.len(),
            forall|i: int|
                0 <= i < self.independent@.len() ==> r.independent@[i] == (
                #[trigger] self.independent@[i]).1,
    {
        let n: usize = self.by_id.len();
        let mut all: Vec<(TransactionId, PendingTransaction)> = Vec::new();
        let mut i: usize = 0;
        while i < n
            invariant
                i <= n,
                all@ == self.by_id@.take(i as int),
            decreases n - i,
        {
            proof {
                assert(self.by_id@.take(i as int + 1) =~= self.by_id@.take(i as int).push(
                    self.by_id@[i as int],
                ));
            }
            all.push(self.by_id[i]);
            i += 1;
        }
        proof {
            assert(all@ =~= self.by_id@);
        }
        let m: usize = self.independent.len();
        let mut independent: Vec<PendingTransaction> = Vec::new();
        let mut j: usize = 0;
        while j < m
            invariant
                j <= m,
                independent@.len() == j,
                forall|k: int|
                    0 <= k < j ==> independent@[k] == (#[trigger] self.independent@[k]).1,
            decreases m - j,
        {
            let p = self.independent[j];
            independent.push(p.1);
            j += 1;
        }
        let r = BestTransactions { all, independent, invalid: Vec::new() };
        proof {
            assert forall|k: int|
                0 <= k < r.independent@.len() implies best_entry_ok(
                r.all@,
                #[trigger] r.independent@[k],
            ) by {
                assert(independent_entry_ok(self.by_id@, self.independent@[k]));
                assert(r.independent@[k] == (self.independent@[k]).1);
            }
            assert forall|a: int, b: int|
                0 <= a < b < r.independent@.len() implies (#[trigger] r.independent@[
            a]).transaction.transaction_id.sender != (#[trigger] r.independent@[
            b]).transaction.transaction_id.sender by {
                assert(r.independent@[a] == (self.independent@[a]).1);
                assert(r.independent@[b] == (self.independent@[b]).1);
                assert((self.independent@[a]).0 != (self.independent@[b]).0);
                assert((self.independent@[a]).1.transaction.transaction_id.sender == (
                self.independent@[a]).0);
                assert((self.independent@[b]).1.transaction.transaction_id.sender == (
                self.independent@[b]).0);
            }
        }
        r
    }

    /// Hands out the next arrival stamp; the counter wraps.
    fn next_id(&mut self) -> (r: u64)
        ensures
            r == old(self).submission_id,
            final(self).by_id == old(self).by_id,
            final(self).independent == old(self).independent,
            final(self).ordering == old(self).ordering,
    {
        let id = self.submission_id;
        self.submission_id = self.submission_id.wrapping_add(1);
        id
    }

    /// Relies on `tokio::sync::broadcast::Sender::receiver_count`: how many
    /// subscribers listen right now. The value depends on them; nothing is
    /// promised of it.
    #[verifier::external_body]
    fn receiver_count(&self) -> usize {
        self.new_transaction_notifier.receiver_count()
    }

    /// Relies on `tokio::sync::broadcast::Sender::send`: hands a clone of
    /// the admission to subscribers. A failed send only means nobody
    /// listens; either outcome is acceptable.
    #[verifier::external_body]
    fn notify(&self, tx: PendingTransaction) -> bool {
        self.new_transaction_notifier.send(tx).is_ok()
    }
}

/// Whether a sender has any entry in the index.
pub open spec fn sender_present<V>(s: Seq<(TransactionId, V)>, sender: SenderId) -> bool {
    exists|j: int| 0 <= j < s.len() && (#[trigger] s[j]).0.sender == sender
}

/// The position of a sender's first entry in the index, if it has one.
#[verifier::loop_isolation(false)]
fn first_of_sender(v: &Vec<(TransactionId, PendingTransaction)>, sender: SenderId) -> (r: Option<
    usize,
>)
    ensures
        r matches Some(f) ==> f < v@.len() && (v@[f as int]).0.sender == sender && (forall|j: int|
            0 <= j < f ==> (#[trigger] v@[j]).0.sender != sender),
        r is None ==> !sender_present(v@, sender),
{
    let n: usize = v.len();
    let mut i: usize = 0;
    while i < n
        invariant
            i <= n,
            forall|j: int| 0 <= j < i ==> (#[trigger] v@[j]).0.sender != sender,
        decreases n - i,
    {
        let p = &v[i];
        if p.0.sender == sender {
            return Some(i);
        }
        i += 1;
    }
    None
}

/// Relies on `tokio::sync::broadcast::channel`: a broadcast channel with
/// this buffer capacity. The receiver half is dropped, exactly as the pool
/// does on construction; `tokio` panics outside the stated capacity range.
#[verifier::external_body]
fn broadcast_channel(capacity: usize) -> tokio::sync::broadcast::Sender<PendingTransaction>
    requires
        1 <= capacity <= usize::MAX / 2,
{
    tokio::sync::broadcast::channel(capacity).0
}

/// Declares `tokio::sync::broadcast::Sender` so the pool can hold its
/// notifier; the type stays opaque.
#[verifier::external_type_specification]
#[verifier::external_body]
#[verifier::reject_recursive_types(T)]
pub struct ExBroadcastSender<T>(tokio::sync::broadcast::Sender<T>);

} // verus!
