//! Errors of the transaction pool.
use vstd::prelude::*;

use crate::primitives::types::TxHash;
use crate::validate::ValidPoolTransaction;

verus! {

pub type PoolResult<T> = Result<T, PoolError>;

/// An error correlated with the submission it rejects.
#[derive(Clone, Copy, Debug)]
pub struct PoolError {
    pub hash: TxHash,
    pub kind: PoolErrorKind,
}

impl PoolError {
    pub fn new(hash: TxHash, kind: PoolErrorKind) -> (r: PoolError)
        ensures
            r == (PoolError { hash, kind }),
    {
        PoolError { hash, kind }
    }
}

/// Why a submission was rejected.
#[derive(Clone, Copy, Debug, PartialEq, Eq, Structural)]
pub enum PoolErrorKind {
    AlreadyImported,
    InvalidTransaction,
    RelpacementUnderpriced,
    ImportError,
}

/// Why the primary index refused an insertion, carrying the refused
/// transaction back to the caller.
#[derive(Clone, Copy, Debug)]
pub enum InsertErr {
    Underpriced { transaction: ValidPoolTransaction },
    InvalidTransaction { transaction: ValidPoolTransaction },
}

/// Why validation found a transaction invalid.
#[derive(Clone, Copy, Debug, PartialEq, Eq, Structural)]
pub enum InvalidPoolTransactionError {
    TxTypeNotSupported,
    NotEnoughFee,
    NonceNotConsistent,
}

/// Failures of the validation service itself.
#[derive(Clone, Copy, Debug, PartialEq, Eq, Structural)]
pub enum TransactionValidatoneError {
    ValidationServiceUnreachable,
}

} // verus!
