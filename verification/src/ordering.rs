//! How pending transactions are ranked against each other.
use vstd::prelude::*;

use crate::primitives::transaction::Transaction;
use crate::primitives::types::U256;
use crate::traits::PintPooledTransaction;

verus! {

/// A ranking value: either an advertised priority or none at all. Any
/// advertised value outranks an absent one.
#[derive(Clone, Copy, Debug, PartialEq, Eq, Structural)]
pub enum Priority {
    Value(U256),
    /// No priority advertised; ranks below every `Value`.
    Missing,
}

/// The total order on rankings.
pub open spec fn priority_le(a: Priority, b: Priority) -> bool {
    match (a, b) {
        (Priority::Missing, _) => true,
        (Priority::Value(_), Priority::Missing) => false,
        (Priority::Value(x), Priority::Value(y)) => x.as_nat() <= y.as_nat(),
    }
}

impl Priority {
    pub fn le(&self, other: &Priority) -> (r: bool)
        ensures
            r == priority_le(*self, *other),
    {
        match (self, other) {
            (Priority::Missing, _) => true,
            (Priority::Value(_), Priority::Missing) => false,
            (Priority::Value(x), Priority::Value(y)) => x.le(y),
        }
    }
}

/// The concrete ordering of this pool: rank by the advertised priority,
/// read as a 256-bit amount.
#[derive(Clone, Copy, Debug)]
pub struct PintOrdering;

/// The ranking [`PintOrdering`] assigns to a transaction.
pub open spec fn spec_priority(t: PintPooledTransaction) -> Priority {
    match t.spec_get_priority() {
        Some(v) => Priority::Value(U256 { hi: 0, lo: v }),
        None => Priority::Missing,
    }
}

impl PintOrdering {
    pub fn priority(&self, transaction: &PintPooledTransaction) -> (r: Priority)
        ensures
            r == spec_priority(*transaction),
    {
        match transaction.get_priority() {
            Some(v) => Priority::Value(U256::from_u128(v)),
            None => Priority::Missing,
        }
    }
}

impl Default for PintOrdering {
    fn default() -> PintOrdering {
        PintOrdering
    }
}

} // verus!
