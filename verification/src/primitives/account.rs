//! The on-chain account record the validator reads.
use vstd::prelude::*;

use crate::primitives::types::U256;

verus! {

/// On-chain state of a sender: its next expected nonce and its balance.
#[derive(Clone, Copy, Debug)]
pub struct Account {
    pub nonce: u64,
    pub balance: U256,
}

impl Default for Account {
    /// The account an unseen address is treated as: nonce 0, balance 0.
    fn default() -> (r: Account)
        ensures
            r == (Account { nonce: 0, balance: U256 { hi: 0, lo: 0 } }),
            r.balance.as_nat() == 0,
    {
        Account { nonce: 0, balance: U256 { hi: 0, lo: 0 } }
    }
}

} // verus!
