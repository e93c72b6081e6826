//! The per-transaction readiness word and the sub-pool derived from it.
use vstd::prelude::*;

verus! {

/// What was known about a transaction when it was inserted: whether the
/// sender could fund it, and whether an earlier nonce is still missing.
#[derive(Clone, Copy, Debug, PartialEq, Eq, Structural)]
pub struct TxState {
    pub has_balance: bool,
    pub has_ancestor: bool,
}

impl TxState {
    pub fn has_balance(&mut self)
        ensures
            final(self).has_balance == true,
            final(self).has_ancestor == old(self).has_ancestor,
    {
        self.has_balance = true;
    }

    pub fn has_no_balance(&mut self)
        ensures
            final(self).has_balance == false,
            final(self).has_ancestor == old(self).has_ancestor,
    {
        self.has_balance = false;
    }

    pub fn has_ancestor(&mut self)
        ensures
            final(self).has_ancestor == true,
            final(self).has_balance == old(self).has_balance,
    {
        self.has_ancestor = true;
    }

    pub fn has_no_ancestor(&mut self)
        ensures
            final(self).has_ancestor == false,
            final(self).has_balance == old(self).has_balance,
    {
        self.has_ancestor = false;
    }
}

impl Default for TxState {
    fn default() -> (r: TxState)
        ensures
            r == (TxState { has_balance: false, has_ancestor: false }),
    {
        TxState { has_balance: false, has_ancestor: false }
    }
}

/// The two sub-pools a live transaction can sit in.
#[derive(Clone, Copy, Debug, PartialEq, Eq, Structural)]
pub enum SubPool {
    Pending,
    Parked,
}

/// The sub-pool a readiness word assigns: pending exactly when the sender
/// can fund the transaction and no earlier nonce is missing.
pub open spec fn subpool_of(state: TxState) -> SubPool {
    if state.has_balance && !state.has_ancestor {
        SubPool::Pending
    } else {
        SubPool::Parked
    }
}

impl SubPool {
    pub fn is_pending(&self) -> (r: bool)
        ensures
            r == (*self == SubPool::Pending),
    {
        matches!(self, SubPool::Pending)
    }
}

impl From<TxState> for SubPool {
    fn from(value: TxState) -> SubPool {
        if value.has_balance && !value.has_ancestor {
            SubPool::Pending
        } else {
            SubPool::Parked
        }
    }
}

impl vstd::std_specs::convert::FromSpecImpl<TxState> for SubPool {
    open spec fn obeys_from_spec() -> bool {
        true
    }

    open spec fn from_spec(value: TxState) -> SubPool {
        subpool_of(value)
    }
}

} // verus!
