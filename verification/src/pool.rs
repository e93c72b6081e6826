//! The pool proper: the primary index, the two sub-pools, the best-first
//! iterator and the admission results.
use vstd::prelude::*;

use crate::primitives::types::TxHash;
use crate::validate::ValidPoolTransaction;

pub mod best;
pub mod parked;
pub mod pending;
pub mod state;
pub mod txpool;

verus! {

/// The outcome of a successful admission: where the transaction landed.
#[derive(Clone, Copy, Debug)]
pub enum AddedTransaction {
    /// Admitted straight into the pending sub-pool.
    Pending(AddedPendingTransaction),
    /// Admitted, but parked until a nonce gap closes or funds arrive.
    Parked { transaction: ValidPoolTransaction },
}

impl AddedTransaction {
    /// The spec-level hash of the admitted transaction.
    pub open spec fn spec_hash(self) -> TxHash {
        match self {
            AddedTransaction::Pending(tx) => tx.transaction.transaction.hash,
            AddedTransaction::Parked { transaction } => transaction.transaction.hash,
        }
    }

    /// The spec-level transaction this outcome carries.
    pub open spec fn spec_transaction(self) -> ValidPoolTransaction {
        match self {
            AddedTransaction::Pending(tx) => tx.transaction,
            AddedTransaction::Parked { transaction } => transaction,
        }
    }

    pub fn hash(&self) -> (r: TxHash)
        ensures
            r == self.spec_hash(),
    {
        match self {
            AddedTransaction::Pending(tx) => tx.transaction.hash(),
            AddedTransaction::Parked { transaction } => transaction.hash(),
        }
    }
}

/// An admission that went straight to the pending sub-pool.
#[derive(Clone, Copy, Debug)]
pub struct AddedPendingTransaction {
    pub transaction: ValidPoolTransaction,
}

} // verus!
