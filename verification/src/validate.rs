//! Validation: the outcome type, and the transaction as it exists after
//! validation succeeded.
use vstd::prelude::*;

use crate::error::InvalidPoolTransactionError;
use crate::identifier::{SenderId, TransactionId};
use crate::primitives::types::{TxHash, U256};
use crate::storage::ProviderError;
use crate::traits::{PintPooledTransaction, TransactionOrigin};

pub mod pint;
pub mod task;

verus! {

/// A transaction the validator accepted, keyed and stamped for the pool.
///
/// Once constructed, the key's nonce equals the transaction's nonce; the
/// pool keeps that tie as an invariant.
#[derive(Clone, Copy, Debug)]
pub struct ValidPoolTransaction {
    pub transaction: PintPooledTransaction,
    pub transaction_id: TransactionId,
    pub origin: TransactionOrigin,
    pub timestamp: u64,
}

impl ValidPoolTransaction {
    /// The key agrees with the transaction it keys.
    pub open spec fn wf(self) -> bool {
        self.transaction_id.nonce == self.transaction.nonce
    }

    pub fn id(&self) -> (r: &TransactionId)
        ensures
            *r == self.transaction_id,
    {
        &self.transaction_id
    }

    pub fn sender_id(&self) -> (r: SenderId)
        ensures
            r == self.transaction_id.sender,
    {
        self.transaction_id.sender
    }

    pub fn hash(&self) -> (r: TxHash)
        ensures
            r == self.transaction.hash,
    {
        self.transaction.hash()
    }

    pub fn nonce(&self) -> (r: u64)
        ensures
            r == self.transaction.nonce,
    {
        self.transaction.nonce
    }

    /// True when `other` bids strictly less than this incumbent, i.e. when
    /// `other` would be refused as a replacement.
    pub fn is_underpriced(&self, other: &ValidPoolTransaction) -> (r: bool)
        ensures
            r == (self.transaction.spec_cost().as_nat() > other.transaction.spec_cost().as_nat()),
    {
        let own = self.transaction.cost();
        let theirs = other.transaction.cost();
        theirs.lt(&own)
    }

    pub fn cost(&self) -> (r: U256)
        ensures
            r == self.transaction.spec_cost(),
    {
        self.transaction.cost()
    }
}

/// What the validator concluded about one submission.
#[derive(Clone, Copy, Debug)]
pub enum TransactionValidationOutcome {
    /// Admissible, carrying the sender's on-chain balance and nonce at the
    /// latest snapshot, and whether the transaction may be propagated.
    Valid { transaction: PintPooledTransaction, balance: U256, nonce: u64, propagate: bool },
    /// Rejected for good by a rule of the protocol.
    Invalid(PintPooledTransaction, InvalidPoolTransactionError),
    /// Not decided: the state provider failed; the caller may retry.
    Error(TxHash, ProviderError),
}

impl TransactionValidationOutcome {
    pub fn is_valid(&self) -> (r: bool)
        ensures
            r == (self is Valid),
    {
        matches!(self, TransactionValidationOutcome::Valid { .. })
    }
}

} // verus!
