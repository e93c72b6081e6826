//! The transaction the pool works on, and where a submission came from.
use vstd::prelude::*;

use crate::primitives::transaction::Transaction;
use crate::primitives::types::{Address, ChainId, TxHash, U256};

verus! {

/// Where a submission entered the system. Only `Private` suppresses
/// propagation to peers.
#[derive(Clone, Copy, Debug, PartialEq, Eq, Structural)]
pub enum TransactionOrigin {
    Local,
    External,
    Private,
}

impl Default for TransactionOrigin {
    fn default() -> (r: TransactionOrigin)
        ensures
            r == TransactionOrigin::Local,
    {
        TransactionOrigin::Local
    }
}

/// The pool's concrete transaction: the fields the mempool reads of a
/// recovered, signed transaction, held as plain values.
#[derive(Clone, Copy, Debug)]
pub struct PintPooledTransaction {
    pub tx_type: u8,
    pub chain_id: ChainId,
    pub hash: TxHash,
    pub sender: Address,
    pub fee: u128,
    pub nonce: u64,
    pub value: U256,
}

impl PintPooledTransaction {
    /// The bid this transaction is willing to pay: its advertised fee.
    pub open spec fn spec_cost(self) -> U256 {
        U256 { hi: 0, lo: self.fee }
    }

    pub fn tx_type(&self) -> (r: u8)
        ensures
            r == self.tx_type,
    {
        self.tx_type
    }

    pub fn hash(&self) -> (r: TxHash)
        ensures
            r == self.hash,
    {
        self.hash
    }

    pub fn sender(&self) -> (r: Address)
        ensures
            r == self.sender,
    {
        self.sender
    }

    pub fn cost(&self) -> (r: U256)
        ensures
            r == self.spec_cost(),
    {
        match self.get_priority() {
            Some(c) => U256::from_u128(c),
            None => U256::zero(),
        }
    }
}

impl Transaction for PintPooledTransaction {
    open spec fn spec_chain_id(&self) -> ChainId {
        self.chain_id
    }

    open spec fn spec_nonce(&self) -> u64 {
        self.nonce
    }

    open spec fn spec_value(&self) -> U256 {
        self.value
    }

    open spec fn spec_get_priority(&self) -> Option<u128> {
        Some(self.fee)
    }

    fn chain_id(&self) -> (r: ChainId) {
        self.chain_id
    }

    fn nonce(&self) -> (r: u64) {
        self.nonce
    }

    fn value(&self) -> (r: U256) {
        self.value
    }

    fn get_priority(&self) -> (r: Option<u128>) {
        Some(self.fee)
    }
}

} // verus!
