//! The parked sub-pool: transactions blocked by a nonce gap or a shortfall
//! of funds, ordered by id.
use vstd::prelude::*;

use crate::identifier::{
    id_insert_position, id_lt, ids_sorted, lemma_id_trichotomy, lemma_ids_sorted_insert,
    lemma_ids_sorted_remove, lemma_ids_sorted_unique, TransactionId,
};
use crate::maps::{
    has_key, keys_unique, lemma_map_of_insert_at, lemma_map_of_is, lemma_map_of_remove_at, map_of,
};
use crate::validate::ValidPoolTransaction;

verus! {

/// A parked transaction with its arrival stamp, kept for future
/// first-in-first-out tie-breaks.
#[derive(Clone, Copy, Debug)]
pub struct ParkedPoolTransaction {
    pub transaction: ValidPoolTransaction,
    pub submission_id: u64,
}

/// The parked sub-pool. `by_id` is sorted strictly by id.
pub struct ParkedPool {
    pub submission_id: u64,
    pub by_id: Vec<(TransactionId, ParkedPoolTransaction)>,
}

impl ParkedPool {
    /// The parked transactions, by id.
    pub open spec fn by_id_map(self) -> Map<TransactionId, ParkedPoolTransaction> {
        map_of(self.by_id@)
    }

    /// Sorted by id; every entry keyed by its own id; every entry
    /// well-formed.
    pub open spec fn wf(self) -> bool {
        &&& ids_sorted(self.by_id@)
        &&& forall|i: int|
            0 <= i < self.by_id@.len() ==> (#[trigger] self.by_id@[i]).1.transaction.transaction_id
                == self.by_id@[i].0 && self.by_id@[i].1.transaction.wf()
    }

    /// Parks a transaction under its id.
    pub fn add_transaction(&mut self, tx: ValidPoolTransaction)
        requires
            old(self).wf(),
            tx.wf(),
            !old(self).by_id_map().dom().contains(tx.transaction_id),
        ensures
            final(self).wf(),
            final(self).by_id_map() == old(self).by_id_map().insert(
                tx.transaction_id,
                (ParkedPoolTransaction { transaction: tx, submission_id: old(self).submission_id }),
            ),
            final(self).by_id@.len() == old(self).by_id@.len() + 1,
    {
        let id = *tx.id();
        let submission_id = self.next_id();
        let entry = ParkedPoolTransaction { transaction: tx, submission_id };
        let pos = id_insert_position(&self.by_id, &id);
        proof {
            lemma_ids_sorted_unique(self.by_id@);
            lemma_map_of_is(self.by_id@);
            assert(!has_key(self.by_id@, id));
            assert forall|j: int| pos <= j < self.by_id@.len() implies id_lt(
                id,
                (#[trigger] self.by_id@[j]).0,
            ) by {
                lemma_id_trichotomy(id, self.by_id@[j].0);
            }
            lemma_ids_sorted_insert(self.by_id@, pos as int, (id, entry));
            lemma_map_of_insert_at(self.by_id@, pos as int, (id, entry));
        }
        self.by_id.insert(pos, (id, entry));
    }

    /// Unparks the transaction with this id, if it is here.
    #[verifier::loop_isolation(false)]
    pub fn remove_transaction(&mut self, id: &TransactionId) -> (r: Option<ValidPoolTransaction>)
        requires
            old(self).wf(),
        ensures
            final(self).wf(),
            old(self).by_id_map().dom().contains(*id) ==> r == Some(
                old(self).by_id_map()[*id].transaction,
            ) && final(self).by_id_map() == old(self).by_id_map().remove(*id) && final(self).by_id@.len()
                + 1 == old(self).by_id@.len(),
            !old(self).by_id_map().dom().contains(*id) ==> r is None && *final(self) == *old(self),
    {
        proof {
            lemma_ids_sorted_unique(self.by_id@);
            lemma_map_of_is(self.by_id@);
        }
        let n: usize = self.by_id.len();
        let mut i: usize = 0;
        while i < n
            invariant
                n == self.by_id@.len(),
                i <= n,
                old(self).wf(),
                *self == *old(self),
                keys_unique(self.by_id@),
                forall|j: int| 0 <= j < i ==> (#[trigger] self.by_id@[j]).0 != *id,
            decreases n - i,
        {
            let p = &self.by_id[i];
            if p.0 == *id {
                proof {
                    assert((self.by_id@[i as int]).0 == *id);
                    lemma_ids_sorted_remove(self.by_id@, i as int);
                    lemma_map_of_remove_at(self.by_id@, i as int);
                }
                let removed = self.by_id.remove(i);
                proof {
                    assert forall|j: int|
                        0 <= j < self.by_id@.len() implies (#[trigger] self.by_id@[
                    j]).1.transaction.transaction_id == self.by_id@[j].0 && self.by_id@[
                    j].1.transaction.wf() by {
                        let j2: int = if j < i { j } else { j + 1 };
                        assert(self.by_id@[j] == old(self).by_id@[j2]);
                    }
                }
                return Some(removed.1.transaction);
            }
            i += 1;
        }
        proof {
            assert(!has_key(self.by_id@, *id));
        }
        None
    }

    /// Hands out the next arrival stamp; the counter wraps.
    fn next_id(&mut self) -> (r: u64)
        ensures
            r == old(self).submission_id,
            final(self).by_id == old(self).by_id,
    {
        let id = self.submission_id;
        self.submission_id = self.submission_id.wrapping_add(1);
        id
    }

    /// How many transactions are parked.
    pub fn len(&self) -> (r: usize)
        ensures
            r == self.by_id@.len(),
    {
        self.by_id.len()
    }
}

impl Default for ParkedPool {
    fn default() -> (r: ParkedPool)
        ensures
            r.wf(),
            r.by_id_map() == Map::<TransactionId, ParkedPoolTransaction>::empty(),
            r.by_id@.len() == 0,
            r.submission_id == 0,
    {
        ParkedPool { submission_id: 0, by_id: Vec::new() }
    }
}

} // verus!
