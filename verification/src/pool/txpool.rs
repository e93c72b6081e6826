//! The primary index of all live transactions, and the pool aggregating
//! it with the two sub-pools.
use vstd::prelude::*;

use crate::config::PoolConfig;
use crate::error::{InsertErr, PoolError, PoolErrorKind, PoolResult};
use crate::identifier::{
    id_insert_position, id_lt, ids_sorted, lemma_id_trichotomy, lemma_ids_sorted_insert,
    lemma_ids_sorted_remove, lemma_ids_sorted_unique, lemma_ids_sorted_update, SenderId,
    SenderInfo, TransactionId,
};
use crate::maps::{
    has_key, keys_unique, lemma_map_of_insert_at, lemma_map_of_is, lemma_map_of_push,
    lemma_map_of_remove_at, lemma_map_of_update_at, map_of,
};
use crate::ordering::PintOrdering;
use crate::pool::best::BestTransactions;
use crate::pool::parked::{ParkedPool, ParkedPoolTransaction};
use crate::pool::pending::{PendingPool, PendingTransaction};
use crate::pool::state::{subpool_of, SubPool, TxState};
use crate::pool::{AddedPendingTransaction, AddedTransaction};
use crate::primitives::types::{TxHash, U256};
use crate::validate::ValidPoolTransaction;

verus! {

/// A live transaction with the readiness word computed at insertion and
/// the sub-pool derived from it.
#[derive(Clone, Copy, Debug)]
pub struct PoolInternalTransaction {
    pub transaction: ValidPoolTransaction,
    pub state: TxState,
    pub subpool: SubPool,
}

/// What a successful insertion reports: the transaction, whom it evicted,
/// and where it belongs.
#[derive(Clone, Copy, Debug)]
pub struct InsertOk {
    pub transaction: ValidPoolTransaction,
    pub replaced_tx: Option<(ValidPoolTransaction, SubPool)>,
    pub sub_pool: SubPool,
}

/// The readiness word computed from the on-chain values at insertion
/// time: funded, and no earlier nonce missing.
pub open spec fn computed_state(
    tx: ValidPoolTransaction,
    on_chain_balance: U256,
    on_chain_nonce: u64,
) -> TxState {
    TxState {
        has_balance: tx.transaction.spec_cost().as_nat() + tx.transaction.value.as_nat()
            <= on_chain_balance.as_nat(),
        has_ancestor: tx.transaction.nonce > on_chain_nonce,
    }
}

/// A valid entry of the primary index: keyed by its own id, well-formed,
/// sub-pool derived from its readiness word.
pub open spec fn internal_keyed(e: (TransactionId, PoolInternalTransaction)) -> bool {
    &&& e.1.transaction.transaction_id == e.0
    &&& e.1.transaction.wf()
    &&& e.1.subpool == subpool_of(e.1.state)
}

/// The single source of truth: every live transaction under its id, and a
/// secondary index by hash, kept in lockstep.
pub struct AllTransactions {
    pub by_hash: Vec<(TxHash, ValidPoolTransaction)>,
    pub txs: Vec<(TransactionId, PoolInternalTransaction)>,
}

impl AllTransactions {
    /// The primary index, by id.
    pub open spec fn txs_map(self) -> Map<TransactionId, PoolInternalTransaction> {
        map_of(self.txs@)
    }

    /// The secondary index, by hash.
    pub open spec fn by_hash_map(self) -> Map<TxHash, ValidPoolTransaction> {
        map_of(self.by_hash@)
    }

    /// Both indices list the same transactions: following a hash leads to
    /// the id and back, and following an id leads to the hash and back.
    pub open spec fn wf(self) -> bool {
        &&& ids_sorted(self.txs@)
        &&& keys_unique(self.by_hash@)
        &&& forall|i: int| 0 <= i < self.txs@.len() ==> internal_keyed(#[trigger] self.txs@[i])
        &&& forall|id: TransactionId|
            #[trigger] self.txs_map().dom().contains(id) ==> self.by_hash_map().dom().contains(
                self.txs_map()[id].transaction.transaction.hash,
            ) && self.by_hash_map()[self.txs_map()[id].transaction.transaction.hash]
                == self.txs_map()[id].transaction
        &&& forall|h: TxHash|
            #[trigger] self.by_hash_map().dom().contains(h) ==> self.by_hash_map()[
            h].transaction.hash == h && self.txs_map().dom().contains(
                self.by_hash_map()[h].transaction_id,
            ) && self.txs_map()[self.by_hash_map()[h].transaction_id].transaction
                == self.by_hash_map()[h]
    }

    pub fn new() -> (r: AllTransactions)
        ensures
            r.wf(),
            r.txs_map() == Map::<TransactionId, PoolInternalTransaction>::empty(),
            r.by_hash_map() == Map::<TxHash, ValidPoolTransaction>::empty(),
            r.txs@.len() == 0,
            r.by_hash@.len() == 0,
    {
        AllTransactions { by_hash: Vec::new(), txs: Vec::new() }
    }

    /// Whether a transaction with this hash is live.
    pub fn contains(&self, hash: &TxHash) -> (r: bool)
        requires
            self.wf(),
        ensures
            r == self.by_hash_map().dom().contains(*hash),
    {
        proof {
            lemma_map_of_is(self.by_hash@);
        }
        matches!(find_hash(&self.by_hash, hash), Some(_))
    }

    /// The live transaction with this hash, if any.
    pub fn get(&self, hash: &TxHash) -> (r: Option<ValidPoolTransaction>)
        requires
            self.wf(),
        ensures
            r == if self.by_hash_map().dom().contains(*hash) {
                Some(self.by_hash_map()[*hash])
            } else {
                None::<ValidPoolTransaction>
            },
    {
        proof {
            lemma_map_of_is(self.by_hash@);
        }
        match find_hash(&self.by_hash, hash) {
            Some(i) => {
                proof {
                    assert((self.by_hash@[i as int]).0 == *hash);
                }
                Some(self.by_hash[i].1)
            },
            None => None,
        }
    }

    /// Inserts a validated transaction, replacing a same-slot incumbent
    /// only when the newcomer bids strictly more.
    #[verifier::loop_isolation(false)]
    #[verifier::rlimit(60)]
    pub fn insert_tx(
        &mut self,
        transaction: ValidPoolTransaction,
        on_chain_balance: U256,
        on_chain_nonce: u64,
    ) -> (r: Result<InsertOk, InsertErr>)
        requires
            old(self).wf(),
            transaction.wf(),
            on_chain_nonce <= transaction.transaction.nonce,
            transaction.transaction.spec_cost().as_nat() > 0,
            !old(self).by_hash_map().dom().contains(transaction.transaction.hash),
        ensures
            final(self).wf(),
            ({
                let st = computed_state(transaction, on_chain_balance, on_chain_nonce);
                let id = transaction.transaction_id;
                match r {
                    Ok(ok) => {
                        &&& ok.transaction == transaction
                        &&& ok.sub_pool == subpool_of(st)
                        &&& final(self).txs_map() == old(self).txs_map().insert(
                            id,
                            (PoolInternalTransaction {
                                transaction,
                                state: st,
                                subpool: subpool_of(st),
                            }),
                        )
                        &&& match ok.replaced_tx {
                            None => !old(self).txs_map().dom().contains(id) && final(self).by_hash_map() == old(self).by_hash_map().insert(
                                transaction.transaction.hash,
                                transaction,
                            ),
                            Some((prev, prev_sub)) => {
                                &&& old(self).txs_map().dom().contains(id)
                                &&& prev == old(self).txs_map()[id].transaction
                                &&& prev.transaction_id == id
                                &&& prev_sub == old(self).txs_map()[id].subpool
                                &&& prev.transaction.spec_cost().as_nat()
                                    < transaction.transaction.spec_cost().as_nat()
                                &&& final(self).by_hash_map() == old(self).by_hash_map().remove(
                                    prev.transaction.hash,
                                ).insert(transaction.transaction.hash, transaction)
                                &&& !final(self).by_hash_map().dom().contains(
                                    prev.transaction.hash,
                                )
                            },
                        }
                    },
                    Err(e) => {
                        &&& e matches InsertErr::Underpriced { transaction: t } && t == transaction
                        &&& old(self).txs_map().dom().contains(id)
                        &&& old(self).txs_map()[id].transaction.transaction.spec_cost().as_nat()
                            >= transaction.transaction.spec_cost().as_nat()
                        &&& *final(self) == *old(self)
                    },
                }
            }),
            r is Err <==> (old(self).txs_map().dom().contains(transaction.transaction_id) && old(
                self,
            ).txs_map()[transaction.transaction_id].transaction.transaction.spec_cost().as_nat()
                >= transaction.transaction.spec_cost().as_nat()),
    {
        let mut state: TxState = Default::default();
        let has_bal = match transaction.transaction.cost().checked_add(
            transaction.transaction.value,
        ) {
            Some(total) => total.le(&on_chain_balance),
            None => false,
        };
        if has_bal {
            state.has_balance();
        } else {
            state.has_no_balance();
        }
        if transaction.nonce() > on_chain_nonce {
            state.has_ancestor();
        } else {
            state.has_no_ancestor();
        }
        proof {
            assert(state == computed_state(transaction, on_chain_balance, on_chain_nonce));
        }
        let subpool: SubPool = SubPool::from(state);
        let pool_tx = PoolInternalTransaction { transaction, state, subpool };
        let id = transaction.transaction_id;
        let hash = transaction.transaction.hash;

        proof {
            lemma_ids_sorted_unique(self.txs@);
            lemma_map_of_is(self.txs@);
            lemma_map_of_is(self.by_hash@);
        }
        let pos = id_insert_position(&self.txs, &id);
        let occupied = pos < self.txs.len() && {
            let k = self.txs[pos].0;
            k == id
        };
        if occupied {
            proof {
                assert((self.txs@[pos as int]).0 == id);
            }
            let incumbent = self.txs[pos].1;
            let new_cost = transaction.transaction.cost();
            let old_cost = incumbent.transaction.transaction.cost();
            if !old_cost.lt(&new_cost) {
                return Err(InsertErr::Underpriced { transaction });
            }
            // replace the slot and swing the hash index
            let ghost pre_txs = self.txs@;
            proof {
                lemma_ids_sorted_update(self.txs@, pos as int, pool_tx);
                lemma_map_of_update_at(self.txs@, pos as int, pool_tx);
            }
            self.txs[pos] = (id, pool_tx);
            proof {
                assert forall|i: int| 0 <= i < self.txs@.len() implies internal_keyed(
                    #[trigger] self.txs@[i],
                ) by {
                    if i != pos {
                        assert(self.txs@[i] == pre_txs[i]);
                    }
                }
            }
            let prev_hash = incumbent.transaction.transaction.hash;
            let found = find_hash(&self.by_hash, &prev_hash);
            let ghost pre_hash = self.by_hash@;
            match found {
                Some(hi) => {
                    proof {
                        assert((self.by_hash@[hi as int]).0 == prev_hash);
                        lemma_map_of_remove_at(self.by_hash@, hi as int);
                    }
                    let _ = self.by_hash.remove(hi);
                    proof {
                        lemma_map_of_is(self.by_hash@);
                        assert(!has_key(self.by_hash@, hash)) by {
                            if has_key(self.by_hash@, hash) {
                                let w = choose|w: int|
                                    0 <= w < self.by_hash@.len() && (#[trigger] self.by_hash@[
                                    w]).0 == hash;
                                let w2: int = if w < hi { w } else { w + 1 };
                                assert((pre_hash[w2]).0 == hash);
                            }
                        }
                        lemma_map_of_push(self.by_hash@, (hash, transaction));
                    }
                    self.by_hash.push((hash, transaction));
                },
                None => {
                    proof {
                        // the incumbent's hash is always indexed
                        assert(old(self).txs_map().dom().contains(id));
                        assert(old(self).by_hash_map().dom().contains(prev_hash));
                        assert(false);
                    }
                },
            }
            proof {
                let st = computed_state(transaction, on_chain_balance, on_chain_nonce);
                let prev = incumbent.transaction;
                assert(old(self).txs_map().dom().contains(id));
                assert(old(self).txs_map()[id] == incumbent);
                // the two lockstep directions for the new state
                assert(self.txs_map() == old(self).txs_map().insert(id, pool_tx));
                assert(self.by_hash_map() == old(self).by_hash_map().remove(
                    prev.transaction.hash,
                ).insert(hash, transaction));
                assert(hash != prev.transaction.hash) by {
                    assert(old(self).by_hash_map().dom().contains(prev.transaction.hash));
                }
                assert forall|id2: TransactionId|
                    #[trigger] self.txs_map().dom().contains(id2) implies self.by_hash_map().dom().contains(
                    self.txs_map()[id2].transaction.transaction.hash,
                ) && self.by_hash_map()[self.txs_map()[id2].transaction.transaction.hash]
                    == self.txs_map()[id2].transaction by {
                    if id2 == id {
                    } else {
                        assert(old(self).txs_map().dom().contains(id2));
                        let e = old(self).txs_map()[id2];
                        let h2 = e.transaction.transaction.hash;
                        assert(old(self).by_hash_map().dom().contains(h2));
                        assert(old(self).by_hash_map()[h2] == e.transaction);
                        assert(h2 != prev.transaction.hash) by {
                            if h2 == prev.transaction.hash {
                                assert(old(self).by_hash_map()[h2] == prev);
                                assert(e.transaction == prev);
                                assert(e.transaction.transaction_id == id2);
                                assert(prev.transaction_id == id);
                            }
                        }
                        assert(h2 != hash);
                    }
                }
                assert forall|h2: TxHash|
                    #[trigger] self.by_hash_map().dom().contains(h2) implies self.by_hash_map()[
                h2].transaction.hash == h2 && self.txs_map().dom().contains(
                    self.by_hash_map()[h2].transaction_id,
                ) && self.txs_map()[self.by_hash_map()[h2].transaction_id].transaction
                    == self.by_hash_map()[h2] by {
                    if h2 == hash {
                    } else {
                        assert(old(self).by_hash_map().dom().contains(h2));
                        let v = old(self).by_hash_map()[h2];
                        assert(v.transaction_id != id) by {
                            if v.transaction_id == id {
                                assert(old(self).txs_map()[id].transaction == v);
                                assert(v == prev);
                                assert(v.transaction.hash == h2);
                                assert(prev.transaction.hash != h2);
                            }
                        }
                    }
                }
            }
            Ok(
                InsertOk {
                    transaction,
                    replaced_tx: Some((incumbent.transaction, incumbent.subpool)),
                    sub_pool: subpool,
                },
            )
        } else {
            // vacant slot
            proof {
                assert(!has_key(self.txs@, id)) by {
                    if has_key(self.txs@, id) {
                        let w = choose|w: int|
                            0 <= w < self.txs@.len() && (#[trigger] self.txs@[w]).0 == id;
                        if w < pos {
                            assert(id_lt(self.txs@[w].0, id));
                        } else if w > pos {
                            assert(id_lt(self.txs@[pos as int].0, self.txs@[w].0));
                            assert(!id_lt(self.txs@[pos as int].0, id));
                        }
                    }
                }
                assert forall|j: int| pos <= j < self.txs@.len() implies id_lt(
                    id,
                    (#[trigger] self.txs@[j]).0,
                ) by {
                    lemma_id_trichotomy(id, self.txs@[j].0);
                }
                lemma_ids_sorted_insert(self.txs@, pos as int, (id, pool_tx));
                lemma_map_of_insert_at(self.txs@, pos as int, (id, pool_tx));
                assert(!has_key(self.by_hash@, hash));
                lemma_map_of_push(self.by_hash@, (hash, transaction));
            }
            let ghost pre_txs = self.txs@;
            self.txs.insert(pos, (id, pool_tx));
            self.by_hash.push((hash, transaction));
            proof {
                assert forall|i: int| 0 <= i < self.txs@.len() implies internal_keyed(
                    #[trigger] self.txs@[i],
                ) by {
                    if i != pos {
                        let i2: int = if i < pos { i } else { i - 1 };
                        assert(self.txs@[i] == pre_txs[i2]);
                    }
                }
                assert(self.txs_map() == old(self).txs_map().insert(id, pool_tx));
                assert(self.by_hash_map() == old(self).by_hash_map().insert(
                    hash,
                    transaction,
                ));
                assert forall|id2: TransactionId|
                    #[trigger] self.txs_map().dom().contains(id2) implies self.by_hash_map().dom().contains(
                    self.txs_map()[id2].transaction.transaction.hash,
                ) && self.by_hash_map()[self.txs_map()[id2].transaction.transaction.hash]
                    == self.txs_map()[id2].transaction by {
                    if id2 != id {
                        assert(old(self).txs_map().dom().contains(id2));
                        let e = old(self).txs_map()[id2];
                        assert(old(self).by_hash_map().dom().contains(
                            e.transaction.transaction.hash,
                        ));
                        assert(e.transaction.transaction.hash != hash);
                    }
                }
                assert forall|h2: TxHash|
                    #[trigger] self.by_hash_map().dom().contains(h2) implies self.by_hash_map()[
                h2].transaction.hash == h2 && self.txs_map().dom().contains(
                    self.by_hash_map()[h2].transaction_id,
                ) && self.txs_map()[self.by_hash_map()[h2].transaction_id].transaction
                    == self.by_hash_map()[h2] by {
                    if h2 != hash {
                        assert(old(self).by_hash_map().dom().contains(h2));
                        let v = old(self).by_hash_map()[h2];
                        assert(v.transaction_id != id) by {
                            if v.transaction_id == id {
                                assert(old(self).txs_map().dom().contains(id));
                            }
                        }
                    }
                }
            }
            Ok(InsertOk { transaction, replaced_tx: None, sub_pool: subpool })
        }
    }

    /// Removes a live transaction by id, keeping both indices in step.
    /// Returns it with its last known sub-pool.
    pub fn remove_transaction(&mut self, id: &TransactionId) -> (r: Option<
        (ValidPoolTransaction, SubPool),
    >)
        requires
            old(self).wf(),
        ensures
            final(self).wf(),
            !old(self).txs_map().dom().contains(*id) ==> r is None && *final(self) == *old(self),
            old(self).txs_map().dom().contains(*id) ==> {
                let e = old(self).txs_map()[*id];
                &&& r == Some((e.transaction, e.subpool))
                &&& e.transaction.transaction_id == *id
                &&& final(self).txs_map() == old(self).txs_map().remove(*id)
                &&& final(self).by_hash_map() == old(self).by_hash_map().remove(
                    e.transaction.transaction.hash,
                )
            },
    {
        proof {
            lemma_ids_sorted_unique(self.txs@);
            lemma_map_of_is(self.txs@);
            lemma_map_of_is(self.by_hash@);
        }
        let pos = id_insert_position(&self.txs, id);
        let found = pos < self.txs.len() && {
            let k = self.txs[pos].0;
            k == *id
        };
        if !found {
            proof {
                assert(!has_key(self.txs@, *id)) by {
                    if has_key(self.txs@, *id) {
                        let w = choose|w: int|
                            0 <= w < self.txs@.len() && (#[trigger] self.txs@[w]).0 == *id;
                        if w < pos {
                            assert(id_lt(self.txs@[w].0, *id));
                        } else if w > pos {
                            assert(id_lt(self.txs@[pos as int].0, self.txs@[w].0));
                            assert(!id_lt(self.txs@[pos as int].0, *id));
                        }
                    }
                }
            }
            return None;
        }
        proof {
            assert((self.txs@[pos as int]).0 == *id);
        }
        let internal = self.txs[pos].1;
        let ghost pre_txs = self.txs@;
        proof {
            lemma_ids_sorted_remove(self.txs@, pos as int);
            lemma_map_of_remove_at(self.txs@, pos as int);
        }
        let _ = self.txs.remove(pos);
        let hash = internal.transaction.transaction.hash;
        proof {
            assert(old(self).by_hash_map().dom().contains(hash));
        }
        let found_hash = find_hash(&self.by_hash, &hash);
        match found_hash {
            Some(hi) => {
                proof {
                    assert((self.by_hash@[hi as int]).0 == hash);
                    lemma_map_of_remove_at(self.by_hash@, hi as int);
                }
                let _ = self.by_hash.remove(hi);
            },
            None => {
                proof {
                    assert(false);
                }
            },
        }
        proof {
            assert forall|i: int| 0 <= i < self.txs@.len() implies internal_keyed(
                #[trigger] self.txs@[i],
            ) by {
                let i2: int = if i < pos { i } else { i + 1 };
                assert(self.txs@[i] == pre_txs[i2]);
            }
            let e = old(self).txs_map()[*id];
            assert(e == internal);
            assert(self.txs_map() == old(self).txs_map().remove(*id));
            assert(self.by_hash_map() == old(self).by_hash_map().remove(hash));
            assert forall|id2: TransactionId|
                #[trigger] self.txs_map().dom().contains(id2) implies self.by_hash_map().dom().contains(
                self.txs_map()[id2].transaction.transaction.hash,
            ) && self.by_hash_map()[self.txs_map()[id2].transaction.transaction.hash]
                == self.txs_map()[id2].transaction by {
                assert(old(self).txs_map().dom().contains(id2));
                let e2 = old(self).txs_map()[id2];
                assert(old(self).by_hash_map().dom().contains(e2.transaction.transaction.hash));
                assert(e2.transaction.transaction.hash != hash) by {
                    if e2.transaction.transaction.hash == hash {
                        assert(old(self).by_hash_map()[hash] == e2.transaction);
                        assert(old(self).by_hash_map()[hash] == e.transaction);
                        assert(e2.transaction.transaction_id == id2);
                        assert(e.transaction.transaction_id == *id);
                    }
                }
            }
            assert forall|h2: TxHash|
                #[trigger] self.by_hash_map().dom().contains(h2) implies self.by_hash_map()[
            h2].transaction.hash == h2 && self.txs_map().dom().contains(
                self.by_hash_map()[h2].transaction_id,
            ) && self.txs_map()[self.by_hash_map()[h2].transaction_id].transaction
                == self.by_hash_map()[h2] by {
                assert(old(self).by_hash_map().dom().contains(h2));
                let v = old(self).by_hash_map()[h2];
                assert(v.transaction_id != *id) by {
                    if v.transaction_id == *id {
                        assert(old(self).txs_map()[*id].transaction == v);
                        assert(v.transaction.hash == h2);
                    }
                }
            }
        }
        Some((internal.transaction, internal.subpool))
    }

    /// Removes a live transaction by hash; the indices stay in step.
    pub fn remove_transaction_by_hash(&mut self, hash: &TxHash) -> (r: Option<
        (ValidPoolTransaction, SubPool),
    >)
        requires
            old(self).wf(),
        ensures
            final(self).wf(),
            !old(self).by_hash_map().dom().contains(*hash) ==> r is None && *final(self) == *old(
                self,
            ),
            old(self).by_hash_map().dom().contains(*hash) ==> {
                let v = old(self).by_hash_map()[*hash];
                &&& r == Some((v, old(self).txs_map()[v.transaction_id].subpool))
                &&& final(self).txs_map() == old(self).txs_map().remove(v.transaction_id)
                &&& final(self).by_hash_map() == old(self).by_hash_map().remove(*hash)
            },
    {
        proof {
            lemma_map_of_is(self.by_hash@);
        }
        let found = find_hash(&self.by_hash, hash);
        match found {
            Some(i) => {
                proof {
                    assert((self.by_hash@[i as int]).0 == *hash);
                }
                let tx = self.by_hash[i].1;
                self.remove_transaction(&tx.transaction_id)
            },
            None => None,
        }
    }
}

/// The pool: the primary index, the two sub-pools kept consistent with
/// it, and the cached per-sender on-chain values.
pub struct TxPool {
    pub sender_info: Vec<(SenderId, SenderInfo)>,
    pub all_transactions: AllTransactions,
    pub pending_pool: PendingPool,
    pub parked_pool: ParkedPool,
    pub config: PoolConfig,
}

impl TxPool {
    pub open spec fn txs_map(self) -> Map<TransactionId, PoolInternalTransaction> {
        self.all_transactions.txs_map()
    }

    pub open spec fn by_hash_map(self) -> Map<TxHash, ValidPoolTransaction> {
        self.all_transactions.by_hash_map()
    }

    pub open spec fn pending_map(self) -> Map<TransactionId, PendingTransaction> {
        self.pending_pool.by_id_map()
    }

    pub open spec fn parked_map(self) -> Map<TransactionId, ParkedPoolTransaction> {
        self.parked_pool.by_id_map()
    }

    /// Each live transaction sits in exactly the sub-pool its stored word
    /// assigns, and the sub-pools hold nothing else.
    pub open spec fn wf(self) -> bool {
        &&& self.all_transactions.wf()
        &&& self.pending_pool.wf()
        &&& self.parked_pool.wf()
        &&& keys_unique(self.sender_info@)
        &&& forall|id: TransactionId|
            #[trigger] self.txs_map().dom().contains(id) ==> if self.txs_map()[id].subpool
                == SubPool::Pending {
                self.pending_map().dom().contains(id) && self.pending_map()[id].transaction
                    == self.txs_map()[id].transaction
            } else {
                self.parked_map().dom().contains(id) && self.parked_map()[id].transaction
                    == self.txs_map()[id].transaction
            }
        &&& forall|id: TransactionId|
            #[trigger] self.pending_map().dom().contains(id) ==> self.txs_map().dom().contains(id)
                && self.txs_map()[id].subpool == SubPool::Pending
        &&& forall|id: TransactionId|
            #[trigger] self.parked_map().dom().contains(id) ==> self.txs_map().dom().contains(id)
                && self.txs_map()[id].subpool == SubPool::Parked
    }

    pub fn new(ordering: PintOrdering, config: PoolConfig) -> (r: TxPool)
        requires
            1 <= config.max_new_pending_txs_notifications <= usize::MAX / 2,
        ensures
            r.wf(),
            r.txs_map() == Map::<TransactionId, PoolInternalTransaction>::empty(),
            r.by_hash_map() == Map::<TxHash, ValidPoolTransaction>::empty(),
            r.pending_map() == Map::<TransactionId, PendingTransaction>::empty(),
            r.parked_map() == Map::<TransactionId, ParkedPoolTransaction>::empty(),
            r.pending_pool.by_id@.len() == 0,
            r.parked_pool.by_id@.len() == 0,
            r.config == config,
    {
        let max_notifications = config.max_new_pending_txs_notifications;
        TxPool {
            sender_info: Vec::new(),
            pending_pool: PendingPool::with_buffer(ordering, max_notifications),
            parked_pool: Default::default(),
            all_transactions: AllTransactions::new(),
            config,
        }
    }

    /// Admits a validated transaction: deduplicates by hash, refreshes the
    /// sender's cached on-chain values, inserts into the primary index,
    /// and places the transaction in the sub-pool its state assigns,
    /// evicting a replaced incumbent from its old sub-pool.
    pub fn add_transaction(
        &mut self,
        transaction: ValidPoolTransaction,
        on_chain_balance: U256,
        on_chain_nonce: u64,
    ) -> (r: PoolResult<AddedTransaction>)
        requires
            old(self).wf(),
            transaction.wf(),
            on_chain_nonce <= transaction.transaction.nonce,
            transaction.transaction.spec_cost().as_nat() > 0,
        ensures
            final(self).wf(),
            old(self).by_hash_map().dom().contains(transaction.transaction.hash) ==> r == Err::<
                AddedTransaction,
                PoolError,
            >(
                (PoolError {
                    hash: transaction.transaction.hash,
                    kind: PoolErrorKind::AlreadyImported,
                }),
            ) && *final(self) == *old(self),
            !old(self).by_hash_map().dom().contains(transaction.transaction.hash) ==> ({
                let id = transaction.transaction_id;
                let st = computed_state(transaction, on_chain_balance, on_chain_nonce);
                let underpriced = old(self).txs_map().dom().contains(id) && old(self).txs_map()[
                    id].transaction.transaction.spec_cost().as_nat()
                    >= transaction.transaction.spec_cost().as_nat();
                &&& map_of(final(self).sender_info@) == map_of(old(self).sender_info@).insert(
                    transaction.transaction_id.sender,
                    (SenderInfo { state_nonce: on_chain_nonce, balance: on_chain_balance }),
                )
                &&& (underpriced ==> r == Err::<AddedTransaction, PoolError>(
                    (PoolError {
                        hash: transaction.transaction.hash,
                        kind: PoolErrorKind::RelpacementUnderpriced,
                    }),
                ) && final(self).txs_map() == old(self).txs_map() && final(self).by_hash_map()
                    == old(self).by_hash_map() && final(self).pending_map() == old(
                    self,
                ).pending_map() && final(self).parked_map() == old(self).parked_map())
                &&& (!underpriced ==> {
                    &&& r matches Ok(added) && added.spec_transaction() == transaction
                        && added.spec_hash() == transaction.transaction.hash && ((
                    added is Pending) <==> subpool_of(st) == SubPool::Pending)
                    &&& (subpool_of(st) == SubPool::Pending ==> final(self).pending_map().dom().contains(
                        id,
                    ) && !final(self).parked_map().dom().contains(id))
                    &&& (subpool_of(st) == SubPool::Parked ==> final(self).parked_map().dom().contains(
                        id,
                    ) && !final(self).pending_map().dom().contains(id))
                    &&& final(self).txs_map() == old(self).txs_map().insert(
                        id,
                        (PoolInternalTransaction {
                            transaction,
                            state: st,
                            subpool: subpool_of(st),
                        }),
                    )
                    &&& (!old(self).txs_map().dom().contains(id) ==> final(self).by_hash_map()
                        == old(self).by_hash_map().insert(
                        transaction.transaction.hash,
                        transaction,
                    ))
                    &&& (old(self).txs_map().dom().contains(id) ==> ({
                        let prev = old(self).txs_map()[id].transaction;
                        &&& prev.transaction.spec_cost().as_nat()
                            < transaction.transaction.spec_cost().as_nat()
                        &&& final(self).by_hash_map() == old(self).by_hash_map().remove(
                            prev.transaction.hash,
                        ).insert(transaction.transaction.hash, transaction)
                        &&& !final(self).by_hash_map().dom().contains(prev.transaction.hash)
                    }))
                })
            }),
    {
        let hash = transaction.hash();
        if self.contains(&hash) {
            return Err(PoolError::new(hash, PoolErrorKind::AlreadyImported));
        }
        match self.validate_auth(&transaction, on_chain_nonce) {
            Ok(()) => {},
            Err(e) => {
                return Err(e);
            },
        }
        self.update_sender_info(transaction.sender_id(), on_chain_nonce, on_chain_balance);
        let res = self.all_transactions.insert_tx(transaction, on_chain_balance, on_chain_nonce);
        match res {
            Ok(ok) => {
                let ghost id = transaction.transaction_id;
                if let Some((replaced, replaced_subpool)) = ok.replaced_tx {
                    let _ = self.remove_from_subpool(&replaced.transaction_id, replaced_subpool);
                }
                proof {
                    if ok.sub_pool == SubPool::Pending {
                        assert(!self.pending_map().dom().contains(id));
                    } else {
                        assert(!self.parked_map().dom().contains(id));
                    }
                }
                self.add_transaction_to_subpool(ok.transaction, ok.sub_pool);
                proof {
                    let st = computed_state(transaction, on_chain_balance, on_chain_nonce);
                    let e_new = PoolInternalTransaction {
                        transaction,
                        state: st,
                        subpool: subpool_of(st),
                    };
                    assert forall|id2: TransactionId|
                        #[trigger] self.txs_map().dom().contains(id2) implies if self.txs_map()[
                    id2].subpool == SubPool::Pending {
                        self.pending_map().dom().contains(id2) && self.pending_map()[
                        id2].transaction == self.txs_map()[id2].transaction
                    } else {
                        self.parked_map().dom().contains(id2) && self.parked_map()[
                        id2].transaction == self.txs_map()[id2].transaction
                    } by {
                        if id2 != id {
                            assert(old(self).txs_map().dom().contains(id2));
                            assert(self.txs_map()[id2] == old(self).txs_map()[id2]);
                        }
                    }
                    assert forall|id2: TransactionId|
                        #[trigger] self.pending_map().dom().contains(id2) implies self.txs_map().dom().contains(
                        id2,
                    ) && self.txs_map()[id2].subpool == SubPool::Pending by {
                        if id2 != id {
                            assert(old(self).pending_map().dom().contains(id2));
                        }
                    }
                    assert forall|id2: TransactionId|
                        #[trigger] self.parked_map().dom().contains(id2) implies self.txs_map().dom().contains(
                        id2,
                    ) && self.txs_map()[id2].subpool == SubPool::Parked by {
                        if id2 != id {
                            assert(old(self).parked_map().dom().contains(id2));
                        }
                    }
                }
                let added = if ok.sub_pool.is_pending() {
                    AddedTransaction::Pending(AddedPendingTransaction { transaction: ok.transaction })
                } else {
                    AddedTransaction::Parked { transaction: ok.transaction }
                };
                Ok(added)
            },
            Err(err) => match err {
                InsertErr::Underpriced { transaction: t } => Err(
                    PoolError::new(t.hash(), PoolErrorKind::RelpacementUnderpriced),
                ),
                InsertErr::InvalidTransaction { transaction: t } => Err(
                    PoolError::new(t.hash(), PoolErrorKind::InvalidTransaction),
                ),
            },
        }
    }

    /// Refreshes the cached on-chain values of a sender.
    #[verifier::loop_isolation(false)]
    fn update_sender_info(&mut self, sender_id: SenderId, state_nonce: u64, balance: U256)
        requires
            keys_unique(old(self).sender_info@),
        ensures
            keys_unique(final(self).sender_info@),
            map_of(final(self).sender_info@) == map_of(old(self).sender_info@).insert(
                sender_id,
                (SenderInfo { state_nonce, balance }),
            ),
            final(self).all_transactions == old(self).all_transactions,
            final(self).pending_pool == old(self).pending_pool,
            final(self).parked_pool == old(self).parked_pool,
            final(self).config == old(self).config,
    {
        let n: usize = self.sender_info.len();
        let mut i: usize = 0;
        while i < n
            invariant
                n == self.sender_info@.len(),
                i <= n,
                *self == *old(self),
                forall|j: int| 0 <= j < i ==> (#[trigger] self.sender_info@[j]).0 != sender_id,
            decreases n - i,
        {
            let p = self.sender_info[i];
            if p.0 == sender_id {
                proof {
                    assert((self.sender_info@[i as int]).0 == sender_id);
                    lemma_map_of_update_at(
                        self.sender_info@,
                        i as int,
                        (SenderInfo { state_nonce, balance }),
                    );
                }
                let mut info = p.1;
                info.update(state_nonce, balance);
                self.sender_info[i] = (sender_id, info);
                return ;
            }
            i += 1;
        }
        proof {
            assert(!has_key(self.sender_info@, sender_id));
            lemma_map_of_push(self.sender_info@, (sender_id, SenderInfo { state_nonce, balance }));
        }
        let mut info = SenderInfo { state_nonce: 0, balance: U256::zero() };
        info.update(state_nonce, balance);
        self.sender_info.push((sender_id, info));
    }

    /// Takes a transaction out of the sub-pool its stored word names.
    fn remove_from_subpool(&mut self, tx_id: &TransactionId, subpool: SubPool) -> (r: Option<
        ValidPoolTransaction,
    >)
        requires
            old(self).pending_pool.wf(),
            old(self).parked_pool.wf(),
        ensures
            final(self).pending_pool.wf(),
            final(self).parked_pool.wf(),
            final(self).all_transactions == old(self).all_transactions,
            final(self).sender_info == old(self).sender_info,
            final(self).config == old(self).config,
            subpool == SubPool::Pending ==> final(self).parked_pool == old(self).parked_pool && (
            if old(self).pending_map().dom().contains(*tx_id) {
                final(self).pending_map() == old(self).pending_map().remove(*tx_id) && r == Some(
                    old(self).pending_map()[*tx_id].transaction,
                )
            } else {
                r is None && final(self).pending_pool == old(self).pending_pool
            }),
            subpool == SubPool::Parked ==> final(self).pending_pool == old(self).pending_pool && (
            if old(self).parked_map().dom().contains(*tx_id) {
                final(self).parked_map() == old(self).parked_map().remove(*tx_id) && r == Some(
                    old(self).parked_map()[*tx_id].transaction,
                )
            } else {
                r is None && final(self).parked_pool == old(self).parked_pool
            }),
    {
        match subpool {
            SubPool::Pending => self.pending_pool.remove_transaction(tx_id),
            SubPool::Parked => self.parked_pool.remove_transaction(tx_id),
        }
    }

    /// Places a transaction in the sub-pool chosen for it.
    fn add_transaction_to_subpool(&mut self, transaction: ValidPoolTransaction, subpool: SubPool)
        requires
            old(self).pending_pool.wf(),
            old(self).parked_pool.wf(),
            transaction.wf(),
            subpool == SubPool::Pending ==> !old(self).pending_map().dom().contains(
                transaction.transaction_id,
            ),
            subpool == SubPool::Parked ==> !old(self).parked_map().dom().contains(
                transaction.transaction_id,
            ),
        ensures
            final(self).pending_pool.wf(),
            final(self).parked_pool.wf(),
            final(self).all_transactions == old(self).all_transactions,
            final(self).sender_info == old(self).sender_info,
            final(self).config == old(self).config,
            subpool == SubPool::Pending ==> final(self).parked_pool == old(self).parked_pool
                && final(self).pending_map() == old(self).pending_map().insert(
                transaction.transaction_id,
                (PendingTransaction {
                    submission_id: old(self).pending_pool.submission_id,
                    transaction,
                    priority: crate::ordering::spec_priority(transaction.transaction),
                }),
            ),
            subpool == SubPool::Parked ==> final(self).pending_pool == old(self).pending_pool
                && final(self).parked_map() == old(self).parked_map().insert(
                transaction.transaction_id,
                (ParkedPoolTransaction {
                    transaction,
                    submission_id: old(self).parked_pool.submission_id,
                }),
            ),
    {
        match subpool {
            SubPool::Parked => {
                self.parked_pool.add_transaction(transaction);
            },
            SubPool::Pending => {
                self.pending_pool.add_transaction(transaction, 0);
            },
        }
    }

    /// Removes a live transaction by id from the index and from its
    /// sub-pool.
    pub fn remove_transaction(&mut self, id: &TransactionId) -> (r: Option<ValidPoolTransaction>)
        requires
            old(self).wf(),
        ensures
            final(self).wf(),
            !old(self).txs_map().dom().contains(*id) ==> r is None && *final(self) == *old(self),
            old(self).txs_map().dom().contains(*id) ==> {
                let e = old(self).txs_map()[*id];
                &&& r == Some(e.transaction)
                &&& final(self).txs_map() == old(self).txs_map().remove(*id)
                &&& final(self).by_hash_map() == old(self).by_hash_map().remove(
                    e.transaction.transaction.hash,
                )
            },
    {
        proof {
            lemma_ids_sorted_unique(self.all_transactions.txs@);
            lemma_map_of_is(self.all_transactions.txs@);
        }
        let removed = self.all_transactions.remove_transaction(id);
        match removed {
            Some((tx, subpool)) => {
                proof {
                    assert(tx.transaction_id == *id);
                }
                let _ = self.remove_from_subpool(&tx.transaction_id, subpool);
                proof {
                    let e = old(self).txs_map()[*id];
                    assert forall|id2: TransactionId|
                        #[trigger] self.txs_map().dom().contains(id2) implies if self.txs_map()[
                    id2].subpool == SubPool::Pending {
                        self.pending_map().dom().contains(id2) && self.pending_map()[
                        id2].transaction == self.txs_map()[id2].transaction
                    } else {
                        self.parked_map().dom().contains(id2) && self.parked_map()[
                        id2].transaction == self.txs_map()[id2].transaction
                    } by {
                        assert(id2 != *id);
                        assert(old(self).txs_map().dom().contains(id2));
                        assert(self.txs_map()[id2] == old(self).txs_map()[id2]);
                    }
                    assert forall|id2: TransactionId|
                        #[trigger] self.pending_map().dom().contains(id2) implies self.txs_map().dom().contains(
                        id2,
                    ) && self.txs_map()[id2].subpool == SubPool::Pending by {
                        assert(old(self).pending_map().dom().contains(id2));
                        assert(id2 != *id);
                    }
                    assert forall|id2: TransactionId|
                        #[trigger] self.parked_map().dom().contains(id2) implies self.txs_map().dom().contains(
                        id2,
                    ) && self.txs_map()[id2].subpool == SubPool::Parked by {
                        assert(old(self).parked_map().dom().contains(id2));
                        assert(id2 != *id);
                    }
                }
                Some(tx)
            },
            None => None,
        }
    }

    /// Removes every transaction whose hash is listed; unknown hashes are
    /// ignored. Returns the removed transactions; afterwards none of the
    /// listed hashes is live.
    #[verifier::loop_isolation(false)]
    pub fn remove_transactions(&mut self, hashes: Vec<TxHash>) -> (r: Vec<ValidPoolTransaction>)
        requires
            old(self).wf(),
        ensures
            final(self).wf(),
            r@.len() <= hashes@.len(),
            forall|j: int|
                0 <= j < hashes@.len() ==> !final(self).by_hash_map().dom().contains(
                    #[trigger] hashes@[j],
                ),
    {
        let n: usize = hashes.len();
        let mut out: Vec<ValidPoolTransaction> = Vec::new();
        let mut i: usize = 0;
        while i < n
            invariant
                i <= n,
                out@.len() <= i,
                self.wf(),
                forall|j: int|
                    0 <= j < i ==> !self.by_hash_map().dom().contains(#[trigger] hashes@[j]),
            decreases n - i,
        {
            let removed = self.remove_transaction_by_hash(&hashes[i]);
            if let Some(tx) = removed {
                out.push(tx);
            }
            i += 1;
        }
        out
    }

    /// Removes a live transaction by hash from the index and from its
    /// sub-pool.
    pub fn remove_transaction_by_hash(&mut self, tx_hash: &TxHash) -> (r: Option<
        ValidPoolTransaction,
    >)
        requires
            old(self).wf(),
        ensures
            final(self).wf(),
            !old(self).by_hash_map().dom().contains(*tx_hash) ==> r is None && *final(self) == *old(
                self,
            ),
            old(self).by_hash_map().dom().contains(*tx_hash) ==> {
                let v = old(self).by_hash_map()[*tx_hash];
                &&& r == Some(v)
                &&& final(self).txs_map() == old(self).txs_map().remove(v.transaction_id)
                &&& final(self).by_hash_map() == old(self).by_hash_map().remove(*tx_hash)
            },
    {
        proof {
            if old(self).by_hash_map().dom().contains(*tx_hash) {
                assert(old(self).txs_map().dom().contains(
                    old(self).by_hash_map()[*tx_hash].transaction_id,
                ));
            }
        }
        let found = self.all_transactions.get(tx_hash);
        match found {
            Some(tx) => self.remove_transaction(&tx.transaction_id),
            None => None,
        }
    }

    /// The live transaction with this hash, if any.
    pub fn get(&self, tx_hash: &TxHash) -> (r: Option<ValidPoolTransaction>)
        requires
            self.wf(),
        ensures
            r == if self.by_hash_map().dom().contains(*tx_hash) {
                Some(self.by_hash_map()[*tx_hash])
            } else {
                None::<ValidPoolTransaction>
            },
    {
        self.all_transactions.get(tx_hash)
    }

    /// Whether a transaction with this hash is live.
    pub fn contains(&self, tx_hash: &TxHash) -> (r: bool)
        requires
            self.wf(),
        ensures
            r == self.by_hash_map().dom().contains(*tx_hash),
    {
        self.all_transactions.contains(tx_hash)
    }

    /// The reserved authorization check: it accepts everything.
    fn validate_auth(
        &self,
        transaction: &ValidPoolTransaction,
        on_chain_nonce: u64,
    ) -> (r: Result<(), PoolError>)
        ensures
            r is Ok,
    {
        Ok(())
    }

    /// A snapshot iterator over the executable sub-pool.
    pub fn best_transactions(&self) -> (r: BestTransactions)
        requires
            self.wf(),
        ensures
            r.wf(),
            r.all@ == self.pending_pool.by_id@,
            r.invalid@.len() == 0,
            r.independent@.len() == self.pending_pool.independent@.len(),
    {
        self.pending_pool.best()
    }
}

/// Law: the two indices of a well-formed pool agree. Every live
/// transaction's hash entry names the same transaction id, and every hash
/// entry is backed by a live transaction carrying that hash.
pub proof fn lemma_indices_lockstep(p: AllTransactions)
    requires
        p.wf(),
    ensures
        forall|id: TransactionId|
            #[trigger] p.txs_map().dom().contains(id) ==> p.by_hash_map().dom().contains(
                p.txs_map()[id].transaction.transaction.hash,
            ) && p.by_hash_map()[p.txs_map()[id].transaction.transaction.hash].transaction_id
                == id,
        forall|h: TxHash|
            #[trigger] p.by_hash_map().dom().contains(h) ==> p.txs_map().dom().contains(
                p.by_hash_map()[h].transaction_id,
            ) && p.txs_map()[p.by_hash_map()[h].transaction_id].transaction.transaction.hash == h,
{
    lemma_ids_sorted_unique(p.txs@);
    lemma_map_of_is(p.txs@);
    assert forall|id: TransactionId| #[trigger] p.txs_map().dom().contains(
        id,
    ) implies p.by_hash_map().dom().contains(p.txs_map()[id].transaction.transaction.hash)
        && p.by_hash_map()[p.txs_map()[id].transaction.transaction.hash].transaction_id == id by {
        let w = choose|w: int| 0 <= w < p.txs@.len() && (#[trigger] p.txs@[w]).0 == id;
        assert(internal_keyed(p.txs@[w]));
        assert(p.txs_map()[id].transaction.transaction_id == id);
    }
}

/// Law: within each sub-pool, one sender's entries stand in strictly
/// increasing nonce order.
pub proof fn lemma_subpool_nonces_strictly_increase(p: TxPool)
    requires
        p.wf(),
    ensures
        forall|i: int, j: int|
            0 <= i < j < p.pending_pool.by_id@.len() && (#[trigger] p.pending_pool.by_id@[
            i]).0.sender == (#[trigger] p.pending_pool.by_id@[j]).0.sender
                ==> p.pending_pool.by_id@[i].0.nonce < p.pending_pool.by_id@[j].0.nonce,
        forall|i: int, j: int|
            0 <= i < j < p.parked_pool.by_id@.len() && (#[trigger] p.parked_pool.by_id@[
            i]).0.sender == (#[trigger] p.parked_pool.by_id@[j]).0.sender
                ==> p.parked_pool.by_id@[i].0.nonce < p.parked_pool.by_id@[j].0.nonce,
{
    assert forall|i: int, j: int|
        0 <= i < j < p.pending_pool.by_id@.len() && (#[trigger] p.pending_pool.by_id@[i]).0.sender
            == (#[trigger] p.pending_pool.by_id@[j]).0.sender implies p.pending_pool.by_id@[
    i].0.nonce < p.pending_pool.by_id@[j].0.nonce by {
        assert(id_lt(p.pending_pool.by_id@[i].0, p.pending_pool.by_id@[j].0));
    }
    assert forall|i: int, j: int|
        0 <= i < j < p.parked_pool.by_id@.len() && (#[trigger] p.parked_pool.by_id@[i]).0.sender
            == (#[trigger] p.parked_pool.by_id@[j]).0.sender implies p.parked_pool.by_id@[
    i].0.nonce < p.parked_pool.by_id@[j].0.nonce by {
        assert(id_lt(p.parked_pool.by_id@[i].0, p.parked_pool.by_id@[j].0));
    }
}

/// Law: a live transaction sits in the pending sub-pool exactly when its
/// insertion-time readiness word says the sender could fund it and no
/// earlier nonce was missing; otherwise it sits parked.
pub proof fn lemma_subpool_matches_state(p: TxPool)
    requires
        p.wf(),
    ensures
        forall|id: TransactionId|
            #[trigger] p.txs_map().dom().contains(id) ==> (p.pending_map().dom().contains(id) <==> (
            p.txs_map()[id].state.has_balance && !p.txs_map()[id].state.has_ancestor)),
        forall|id: TransactionId|
            #[trigger] p.txs_map().dom().contains(id) ==> (p.parked_map().dom().contains(id) <==> !(
            p.txs_map()[id].state.has_balance && !p.txs_map()[id].state.has_ancestor)),
{
    lemma_ids_sorted_unique(p.all_transactions.txs@);
    lemma_map_of_is(p.all_transactions.txs@);
    assert forall|id: TransactionId| #[trigger] p.txs_map().dom().contains(id) implies (
    p.pending_map().dom().contains(id) <==> (p.txs_map()[id].state.has_balance && !p.txs_map()[
        id].state.has_ancestor)) && (p.parked_map().dom().contains(id) <==> !(p.txs_map()[
        id].state.has_balance && !p.txs_map()[id].state.has_ancestor)) by {
        let w = choose|w: int|
            0 <= w < p.all_transactions.txs@.len() && (#[trigger] p.all_transactions.txs@[w]).0
                == id;
        assert(internal_keyed(p.all_transactions.txs@[w]));
        assert(p.txs_map()[id].subpool == subpool_of(p.txs_map()[id].state));
    }
}

/// The position of a hash in the secondary index, if it is there.
#[verifier::loop_isolation(false)]
fn find_hash(v: &Vec<(TxHash, ValidPoolTransaction)>, h: &TxHash) -> (r: Option<usize>)
    ensures
        r matches Some(i) ==> i < v@.len() && (v@[i as int]).0 == *h,
        r is None ==> !has_key(v@, *h),
{
    let n: usize = v.len();
    let mut i: usize = 0;
    while i < n
        invariant
            n == v@.len(),
            i <= n,
            forall|j: int| 0 <= j < i ==> (#[trigger] v@[j]).0 != *h,
        decreases n - i,
    {
        let p = &v[i];
        if p.0 == *h {
            return Some(i);
        }
        i += 1;
    }
    None
}

} // verus!
