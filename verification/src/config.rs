//! Configuration of the transaction pool.
use vstd::prelude::*;

verus! {

/// Tunables of the pool. The only knob is the buffer capacity of the
/// broadcast channel that announces newly pending transactions.
pub struct PoolConfig {
    pub max_new_pending_txs_notifications: usize,
}

impl Default for PoolConfig {
    fn default() -> (r: Self)
        ensures
            r.max_new_pending_txs_notifications == 1,
    {
        PoolConfig { max_new_pending_txs_notifications: 1 }
    }
}

} // verus!
