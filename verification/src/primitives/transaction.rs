//! The capability a raw transaction exposes to the rest of the system.
use vstd::prelude::*;

use crate::primitives::types::{ChainId, U256};

verus! {

/// A raw transaction: the fields every consumer may read.
///
/// Each executable getter is pinned to a spec-level counterpart so that
/// contracts over generic transactions can speak about the values returned.
pub trait Transaction: Sized {
    /// The chain this transaction commits to.
    spec fn spec_chain_id(&self) -> ChainId;

    /// The sender-local sequence number.
    spec fn spec_nonce(&self) -> u64;

    /// The amount transferred.
    spec fn spec_value(&self) -> U256;

    /// The advertised priority, if any.
    spec fn spec_get_priority(&self) -> Option<u128>;

    fn chain_id(&self) -> (r: ChainId)
        ensures
            r == self.spec_chain_id(),
    ;

    fn nonce(&self) -> (r: u64)
        ensures
            r == self.spec_nonce(),
    ;

    fn value(&self) -> (r: U256)
        ensures
            r == self.spec_value(),
    ;

    fn get_priority(&self) -> (r: Option<u128>)
        ensures
            r == self.spec_get_priority(),
    ;
}

/// Failure modes of decoding a wire-format transaction.
#[derive(Clone, Copy, Debug, PartialEq, Eq, Structural)]
pub enum DecodeError {
    InvalidTxType,
    SignatureLengthError,
    SignatureDecodeError,
    InputTooShort,
    TryFromError,
    InvalidAddress,
}

/// Failure modes of encoding a transaction.
#[derive(Clone, Copy, Debug, PartialEq, Eq, Structural)]
pub enum EncodeError {
    InvalidSomething,
}

/// A transaction that can be written to its wire format.
pub trait Encodable {
    fn encode(&self) -> Result<Vec<u8>, EncodeError>;
}

/// A transaction that can be read back from its wire format, together with
/// the number of bytes consumed.
pub trait Decodable: Sized {
    fn decode(data: &Vec<u8>) -> Result<(Self, usize), DecodeError>;
}

} // verus!
