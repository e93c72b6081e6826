//! A transaction paired with the sender recovered from its signature.
use vstd::prelude::*;

use crate::primitives::transaction::Transaction;
use crate::primitives::types::{Address, ChainId, U256};

verus! {

/// A transaction together with its recovered signer. Construction does not
/// re-check the signature; the caller vouches for the pairing.
#[derive(Clone, Copy, Debug)]
pub struct Recovered<T> {
    pub inner: T,
    pub signer: Address,
}

impl<T: Transaction> Recovered<T> {
    pub fn new_unchecked(inner: T, signer: Address) -> (r: Recovered<T>)
        ensures
            r.inner == inner && r.signer == signer,
    {
        Recovered { inner, signer }
    }

    pub fn inner(&self) -> (r: &T)
        ensures
            r == self.inner,
    {
        &self.inner
    }

    pub fn signer(&self) -> (r: Address)
        ensures
            r == self.signer,
    {
        self.signer
    }

    pub fn chain_id(&self) -> (r: ChainId)
        ensures
            r == self.inner.spec_chain_id(),
    {
        self.inner.chain_id()
    }

    pub fn nonce(&self) -> (r: u64)
        ensures
            r == self.inner.spec_nonce(),
    {
        self.inner.nonce()
    }

    pub fn value(&self) -> (r: U256)
        ensures
            r == self.inner.spec_value(),
    {
        self.inner.value()
    }

    pub fn get_priority(&self) -> (r: Option<u128>)
        ensures
            r == self.inner.spec_get_priority(),
    {
        self.inner.get_priority()
    }
}

} // verus!
