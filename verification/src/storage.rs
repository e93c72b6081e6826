//! The capability the validator consumes: a snapshot of on-chain accounts,
//! and a factory handing out the latest snapshot.
use vstd::prelude::*;

use crate::primitives::account::Account;
use crate::primitives::types::Address;

verus! {

/// Failures of the storage layer beneath a state provider.
#[derive(Clone, Copy, Debug, PartialEq, Eq, Structural)]
pub enum DatabaseError {
    LockError,
    StateNotFoundError,
}

/// Failures of a state provider. Transient: a caller may retry.
#[derive(Clone, Copy, Debug, PartialEq, Eq, Structural)]
pub enum ProviderError {
    InvalidSomething,
    DatabaseError(DatabaseError),
}

/// A point-in-time view of the accounts on chain.
///
/// `spec_accounts` is the mathematical content of the snapshot; a
/// successful lookup returns exactly what that map holds.
pub trait StateProvider: Sized {
    /// The snapshot as a map from address to account.
    spec fn spec_accounts(&self) -> Map<Address, Account>;

    /// The provider's own well-formedness.
    spec fn wf(&self) -> bool;

    /// The account of `address`, or `None` for an address the chain has
    /// never seen. An error is transient and decides nothing.
    fn basic_account(&self, address: &Address) -> (r: Result<Option<Account>, ProviderError>)
        requires
            self.wf(),
        ensures
            r matches Ok(acct) ==> acct == if self.spec_accounts().dom().contains(*address) {
                Some(self.spec_accounts()[*address])
            } else {
                None::<Account>
            },
    ;
}

/// Hands out a snapshot of the latest committed state.
pub trait StateProviderFactory: Sized {
    type Provider: StateProvider;

    /// The accounts the latest snapshot will show.
    spec fn spec_latest_accounts(&self) -> Map<Address, Account>;

    /// The factory's own well-formedness.
    spec fn wf(&self) -> bool;

    /// The latest snapshot. An error is transient and decides nothing.
    fn latest(&self) -> (r: Result<Self::Provider, ProviderError>)
        requires
            self.wf(),
        ensures
            r matches Ok(p) ==> p.wf() && p.spec_accounts() == self.spec_latest_accounts(),
    ;
}

} // verus!
