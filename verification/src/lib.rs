//! An in-memory transaction mempool.
//!
//! Candidate transactions are validated against the latest chain state,
//! classified as executable (*pending*) or blocked (*parked*), deduplicated
//! by hash, and replaced in-place when a strictly better bid arrives for the
//! same `(sender, nonce)` slot. A snapshot iterator streams the executable
//! subset to a block builder in priority order.

pub mod config;
pub mod error;
pub mod identifier;
pub mod maps;
pub mod ordering;
pub mod pool;
pub mod primitives;
pub mod storage;
pub mod test_utils;
pub mod traits;
pub mod validate;

use vstd::prelude::*;

use crate::config::PoolConfig;
use crate::error::{PoolError, PoolErrorKind, PoolResult};
use crate::identifier::{SenderId, SenderIdentifiers, TransactionId};
use crate::ordering::PintOrdering;
use crate::pool::best::BestTransactions;
use crate::pool::txpool::{computed_state, TxPool};
use crate::primitives::transaction::Transaction;
use crate::primitives::types::{Address, TxHash};
use crate::primitives::utils::now_millis;
use crate::storage::StateProviderFactory;
use crate::traits::{PintPooledTransaction, TransactionOrigin};
use crate::validate::pint::{account_or_default, spec_validate, PintTransactionValidator};
use crate::validate::{TransactionValidationOutcome, ValidPoolTransaction};

verus! {

/// The id an address gets from the registry: its interned id if it has
/// one, else the next free id.
pub open spec fn interned_id(ids: SenderIdentifiers, addr: Address) -> SenderId {
    if ids.addr_map().dom().contains(addr) {
        ids.addr_map()[addr]
    } else {
        SenderId(ids.id)
    }
}

/// The public face of the mempool: a validator, the sender registry, and
/// the pool itself. A submission is validated, keyed, stamped, and then
/// admitted, replaced, or rejected, with exactly one answer per call.
pub struct Pool<Client: StateProviderFactory> {
    pub validator: PintTransactionValidator<Client>,
    pub identifiers: SenderIdentifiers,
    pub pool: TxPool,
}

impl<Client: StateProviderFactory> Pool<Client> {
    pub open spec fn wf(self) -> bool {
        &&& self.validator.wf()
        &&& self.identifiers.wf()
        &&& self.pool.wf()
    }

    /// Everything one admission promises, stated over the pool before and
    /// after the call. `ImportError` stays possible throughout: the state
    /// provider may fail at any submission, deciding nothing.
    pub open spec fn add_contract(
        pre: Self,
        post: Self,
        origin: TransactionOrigin,
        transaction: PintPooledTransaction,
        r: PoolResult<TxHash>,
    ) -> bool {
        let acct = account_or_default(pre.validator.spec_accounts(), transaction.sender);
        let outcome = spec_validate(transaction, acct, origin);
        let id = TransactionId {
            sender: interned_id(pre.identifiers, transaction.sender),
            nonce: transaction.nonce,
        };
        &&& (r matches Err(e) ==> e.hash == transaction.hash)
        &&& (r matches Err(e) && e.kind == PoolErrorKind::InvalidTransaction ==> outcome is Invalid
            && post.pool == pre.pool && post.identifiers == pre.identifiers)
        &&& (r matches Err(e) && e.kind == PoolErrorKind::ImportError ==> post.pool == pre.pool
            && post.identifiers == pre.identifiers)
        &&& (r matches Err(e) && e.kind == PoolErrorKind::AlreadyImported ==> outcome is Valid
            && pre.pool.by_hash_map().dom().contains(transaction.hash) && post.pool == pre.pool)
        &&& (r matches Err(e) && e.kind == PoolErrorKind::RelpacementUnderpriced ==> outcome
            is Valid && !pre.pool.by_hash_map().dom().contains(transaction.hash)
            && pre.pool.txs_map().dom().contains(id) && pre.pool.txs_map()[
        id].transaction.transaction.spec_cost().as_nat() >= transaction.spec_cost().as_nat()
            && post.pool.by_hash_map() == pre.pool.by_hash_map() && post.pool.txs_map()
            == pre.pool.txs_map() && post.pool.pending_map() == pre.pool.pending_map()
            && post.pool.parked_map() == pre.pool.parked_map())
        &&& (outcome is Invalid ==> (r == Err::<TxHash, PoolError>(
            (PoolError { hash: transaction.hash, kind: PoolErrorKind::InvalidTransaction }),
        ) || (transaction.tx_type == 0 && transaction.spec_cost().as_nat() > 0 && r == Err::<
            TxHash,
            PoolError,
        >((PoolError { hash: transaction.hash, kind: PoolErrorKind::ImportError })))))
        &&& ((transaction.tx_type != 0 || transaction.spec_cost().as_nat() == 0) ==> r == Err::<
            TxHash,
            PoolError,
        >((PoolError { hash: transaction.hash, kind: PoolErrorKind::InvalidTransaction })))
        &&& ((outcome is Valid && pre.pool.by_hash_map().dom().contains(transaction.hash)) ==> (r
            == Err::<TxHash, PoolError>(
            (PoolError { hash: transaction.hash, kind: PoolErrorKind::AlreadyImported }),
        ) || r == Err::<TxHash, PoolError>(
            (PoolError { hash: transaction.hash, kind: PoolErrorKind::ImportError }),
        )))
        &&& ((outcome is Valid && !pre.pool.by_hash_map().dom().contains(transaction.hash) && (
        !pre.pool.txs_map().dom().contains(id) || pre.pool.txs_map()[
        id].transaction.transaction.spec_cost().as_nat() < transaction.spec_cost().as_nat()))
            ==> (r == Ok::<TxHash, PoolError>(transaction.hash) || r == Err::<TxHash, PoolError>(
            (PoolError { hash: transaction.hash, kind: PoolErrorKind::ImportError }),
        )))
        &&& (r matches Ok(h) ==> {
            &&& h == transaction.hash
            &&& outcome is Valid
            &&& !pre.pool.by_hash_map().dom().contains(transaction.hash)
            &&& post.pool.by_hash_map().dom().contains(transaction.hash)
            &&& post.pool.by_hash_map()[transaction.hash].transaction == transaction
            &&& post.pool.by_hash_map()[transaction.hash].transaction_id == id
            &&& post.pool.by_hash_map()[transaction.hash].origin == origin
            &&& post.pool.txs_map().dom().contains(id)
            &&& post.pool.txs_map()[id].transaction.transaction == transaction
            &&& (post.pool.pending_map().dom().contains(id) || post.pool.parked_map().dom().contains(
                id,
            ))
        })
    }

    pub fn new(
        validator: PintTransactionValidator<Client>,
        ordering: PintOrdering,
        config: PoolConfig,
    ) -> (r: Pool<Client>)
        requires
            validator.wf(),
            1 <= config.max_new_pending_txs_notifications <= usize::MAX / 2,
        ensures
            r.wf(),
            r.validator == validator,
            r.identifiers.id == 0,
            r.pool.by_hash_map() == Map::<TxHash, ValidPoolTransaction>::empty(),
            r.pool.pending_pool.by_id@.len() == 0,
            r.pool.parked_pool.by_id@.len() == 0,
    {
        Pool {
            validator,
            identifiers: SenderIdentifiers::new(),
            pool: TxPool::new(ordering, config),
        }
    }

    /// What mapping one validation outcome into the pool promises: the
    /// two rejected shapes turn into their errors and change nothing; a
    /// valid one is admitted, deduplicated, or outbid exactly as the
    /// indices stand.
    pub open spec fn outcome_contract(
        pre: Self,
        post: Self,
        origin: TransactionOrigin,
        outcome: TransactionValidationOutcome,
        r: PoolResult<TxHash>,
    ) -> bool {
        match outcome {
            TransactionValidationOutcome::Invalid(t, _) => r == Err::<TxHash, PoolError>(
                (PoolError { hash: t.hash, kind: PoolErrorKind::InvalidTransaction }),
            ) && post.pool == pre.pool && post.identifiers == pre.identifiers,
            TransactionValidationOutcome::Error(h, _) => r == Err::<TxHash, PoolError>(
                (PoolError { hash: h, kind: PoolErrorKind::ImportError }),
            ) && post.pool == pre.pool && post.identifiers == pre.identifiers,
            TransactionValidationOutcome::Valid { transaction, balance, nonce, propagate: _ } => ({
                let id = TransactionId {
                    sender: interned_id(pre.identifiers, transaction.sender),
                    nonce: transaction.nonce,
                };
                if pre.pool.by_hash_map().dom().contains(transaction.hash) {
                    r == Err::<TxHash, PoolError>(
                        (PoolError { hash: transaction.hash, kind: PoolErrorKind::AlreadyImported }),
                    ) && post.pool == pre.pool
                } else if pre.pool.txs_map().dom().contains(id) && pre.pool.txs_map()[
                    id].transaction.transaction.spec_cost().as_nat()
                    >= transaction.spec_cost().as_nat() {
                    r == Err::<TxHash, PoolError>(
                        (PoolError {
                            hash: transaction.hash,
                            kind: PoolErrorKind::RelpacementUnderpriced,
                        }),
                    ) && post.pool.by_hash_map() == pre.pool.by_hash_map()
                        && post.pool.txs_map() == pre.pool.txs_map()
                        && post.pool.pending_map() == pre.pool.pending_map()
                        && post.pool.parked_map() == pre.pool.parked_map()
                } else {
                    &&& r == Ok::<TxHash, PoolError>(transaction.hash)
                    &&& post.pool.by_hash_map().dom().contains(transaction.hash)
                    &&& post.pool.by_hash_map()[transaction.hash].transaction == transaction
                    &&& post.pool.by_hash_map()[transaction.hash].transaction_id == id
                    &&& post.pool.by_hash_map()[transaction.hash].origin == origin
                    &&& post.pool.txs_map().dom().contains(id)
                    &&& post.pool.txs_map()[id].transaction.transaction == transaction
                    &&& post.pool.txs_map()[id].state == computed_state(
                        post.pool.by_hash_map()[transaction.hash],
                        balance,
                        nonce,
                    )
                }
            }),
        }
    }

    /// Maps one validation outcome into the pool: interning, keying and
    /// stamping a valid transaction, or turning the rejection into its
    /// error.
    fn apply_outcome(
        &mut self,
        origin: TransactionOrigin,
        tx: TransactionValidationOutcome,
    ) -> (r: PoolResult<TxHash>)
        requires
            old(self).wf(),
            old(self).identifiers.id < u64::MAX,
            tx matches TransactionValidationOutcome::Valid { transaction, nonce, .. } ==> nonce
                <= transaction.nonce && transaction.spec_cost().as_nat() > 0,
        ensures
            final(self).wf(),
            final(self).validator == old(self).validator,
            final(self).identifiers.id <= old(self).identifiers.id + 1,
            Self::outcome_contract(*old(self), *final(self), origin, tx, r),
    {
        match tx {
            TransactionValidationOutcome::Valid { transaction, balance, nonce, propagate: _ } => {
                let sender_id = self.identifiers.sender_id_or_create(transaction.sender());
                let transaction_id = TransactionId::new(sender_id, transaction.nonce());
                let tx = ValidPoolTransaction {
                    transaction,
                    transaction_id,
                    origin,
                    timestamp: now_millis(),
                };
                let added = self.pool.add_transaction(tx, balance, nonce);
                match added {
                    Ok(added) => Ok(added.hash()),
                    Err(e) => Err(e),
                }
            },
            TransactionValidationOutcome::Invalid(tx, _) => Err(
                PoolError::new(tx.hash(), PoolErrorKind::InvalidTransaction),
            ),
            TransactionValidationOutcome::Error(tx_hash, _) => Err(
                PoolError::new(tx_hash, PoolErrorKind::ImportError),
            ),
        }
    }

    /// Validates and admits one submission. Exactly one answer comes
    /// back: the hash on success, or the error that names why not.
    pub fn add_transaction(
        &mut self,
        origin: TransactionOrigin,
        transaction: PintPooledTransaction,
    ) -> (r: PoolResult<TxHash>)
        requires
            old(self).wf(),
            old(self).identifiers.id < u64::MAX,
        ensures
            final(self).wf(),
            final(self).validator == old(self).validator,
            final(self).identifiers.id <= old(self).identifiers.id + 1,
            Self::add_contract(*old(self), *final(self), origin, transaction, r),
    {
        let outcome = self.validator.validate_transaction(origin, transaction);
        proof {
            let acct = account_or_default(old(self).validator.spec_accounts(), transaction.sender);
            if !(outcome is Error) {
                assert(outcome == spec_validate(transaction, acct, origin));
            }
        }
        self.apply_outcome(origin, outcome)
    }

    /// What a whole batch promises: some chain of pool states runs from
    /// the state before the call to the state after it, and each
    /// submission's answer satisfies the single-admission contract for
    /// its own step of that chain.
    pub open spec fn batch_contract(
        pre: Self,
        post: Self,
        origin: TransactionOrigin,
        transactions: Seq<PintPooledTransaction>,
        r: Seq<PoolResult<TxHash>>,
    ) -> bool {
        exists|states: Seq<Pool<Client>>|
            #![auto]
            {
                &&& states.len() == transactions.len() + 1
                &&& states[0] == pre
                &&& states[transactions.len() as int] == post
                &&& forall|i: int|
                    0 <= i < transactions.len() ==> Self::add_contract(
                        states[i],
                        states[i + 1],
                        origin,
                        transactions[i],
                        r[i],
                    )
            }
    }

    /// Validates and admits a batch of submissions, answering each one:
    /// every answer names its own submission's hash, state-free
    /// rejections are forced, and each step obeys the single-admission
    /// contract.
    #[verifier::loop_isolation(false)]
    pub fn add_transactions(
        &mut self,
        origin: TransactionOrigin,
        transactions: Vec<PintPooledTransaction>,
    ) -> (r: Vec<PoolResult<TxHash>>)
        requires
            old(self).wf(),
            old(self).identifiers.id + transactions@.len() <= u64::MAX,
        ensures
            final(self).wf(),
            final(self).validator == old(self).validator,
            r@.len() == transactions@.len(),
            Self::batch_contract(*old(self), *final(self), origin, transactions@, r@),
            forall|i: int|
                0 <= i < r@.len() ==> ((#[trigger] r@[i]) matches Ok(h) ==> h == transactions@[
                i].hash) && (r@[i] matches Err(e) ==> e.hash == transactions@[i].hash),
            forall|i: int|
                0 <= i < r@.len() ==> (((#[trigger] transactions@[i]).tx_type != 0
                    || transactions@[i].spec_cost().as_nat() == 0) ==> r@[i] == Err::<
                    TxHash,
                    PoolError,
                >(
                    (PoolError {
                        hash: transactions@[i].hash,
                        kind: PoolErrorKind::InvalidTransaction,
                    }),
                )),
    {
        let n: usize = transactions.len();
        let mut out: Vec<PoolResult<TxHash>> = Vec::new();
        let ghost mut states: Seq<Pool<Client>> = Seq::empty().push(*old(self));
        let mut i: usize = 0;
        while i < n
            invariant
                i <= n,
                out@.len() == i,
                self.wf(),
                self.validator == old(self).validator,
                self.identifiers.id <= old(self).identifiers.id + i,
                states.len() == i + 1,
                states[0] == *old(self),
                states[i as int] == *self,
                forall|j: int|
                    0 <= j < i ==> Self::add_contract(
                        states[j],
                        states[j + 1],
                        origin,
                        transactions@[j],
                        #[trigger] out@[j],
                    ),
                forall|j: int|
                    0 <= j < i ==> ((#[trigger] out@[j]) matches Ok(h) ==> h == transactions@[
                    j].hash) && (out@[j] matches Err(e) ==> e.hash == transactions@[j].hash),
                forall|j: int|
                    0 <= j < i ==> (((#[trigger] transactions@[j]).tx_type != 0
                        || transactions@[j].spec_cost().as_nat() == 0) ==> out@[j] == Err::<
                        TxHash,
                        PoolError,
                    >(
                        (PoolError {
                            hash: transactions@[j].hash,
                            kind: PoolErrorKind::InvalidTransaction,
                        }),
                    )),
            decreases n - i,
        {
            let res = self.add_transaction(origin, transactions[i]);
            proof {
                states = states.push(*self);
            }
            out.push(res);
            i += 1;
        }
        proof {
            assert(Self::batch_contract(*old(self), *self, origin, transactions@, out@)) by {
                assert(states.len() == transactions@.len() + 1);
                assert(states[transactions@.len() as int] == *self);
            }
        }
        out
    }

    /// Admits a submission that arrived from a peer.
    pub fn add_external_transaction(&mut self, transaction: PintPooledTransaction) -> (r:
        PoolResult<TxHash>)
        requires
            old(self).wf(),
            old(self).identifiers.id < u64::MAX,
        ensures
            final(self).wf(),
            final(self).validator == old(self).validator,
            Self::add_contract(
                *old(self),
                *final(self),
                TransactionOrigin::External,
                transaction,
                r,
            ),
    {
        self.add_transaction(TransactionOrigin::External, transaction)
    }

    /// The live transaction with this hash, if any.
    pub fn get(&self, tx_hash: &TxHash) -> (r: Option<ValidPoolTransaction>)
        requires
            self.wf(),
        ensures
            r == if self.pool.by_hash_map().dom().contains(*tx_hash) {
                Some(self.pool.by_hash_map()[*tx_hash])
            } else {
                None::<ValidPoolTransaction>
            },
    {
        self.pool.get(tx_hash)
    }

    /// A snapshot iterator over the executable sub-pool. The iterator owns
    /// everything it reads: later admissions or removals do not change
    /// what it yields.
    pub fn best_transactions(&self) -> (r: BestTransactions)
        requires
            self.wf(),
        ensures
            r.wf(),
            r.all@ == self.pool.pending_pool.by_id@,
            r.invalid@.len() == 0,
    {
        self.pool.best_transactions()
    }
}

} // verus!
