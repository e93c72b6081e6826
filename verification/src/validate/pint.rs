//! The validator: state-free checks first, then checks against the
//! sender's on-chain account.
use vstd::prelude::*;

use crate::error::InvalidPoolTransactionError;
use crate::primitives::account::Account;
use crate::primitives::types::Address;
use crate::storage::{StateProvider, StateProviderFactory};
use crate::traits::{PintPooledTransaction, TransactionOrigin};
use crate::validate::TransactionValidationOutcome;

verus! {

/// The account validation reads for a sender: what the snapshot shows, or
/// a blank account for an address the chain has never seen.
pub open spec fn account_or_default(accounts: Map<Address, Account>, sender: Address) -> Account {
    if accounts.dom().contains(sender) {
        accounts[sender]
    } else {
        Account { nonce: 0, balance: crate::primitives::types::U256 { hi: 0, lo: 0 } }
    }
}

/// The whole decision of validation, given the sender's account: the type
/// must be the supported one, the bid positive, the nonce not in the past;
/// a valid outcome carries the account's balance and nonce, and propagates
/// unless the submission was private.
pub open spec fn spec_validate(
    tx: PintPooledTransaction,
    account: Account,
    origin: TransactionOrigin,
) -> TransactionValidationOutcome {
    if tx.tx_type != 0 {
        TransactionValidationOutcome::Invalid(tx, InvalidPoolTransactionError::TxTypeNotSupported)
    } else if tx.spec_cost().as_nat() == 0 {
        TransactionValidationOutcome::Invalid(tx, InvalidPoolTransactionError::NotEnoughFee)
    } else if tx.nonce < account.nonce {
        TransactionValidationOutcome::Invalid(tx, InvalidPoolTransactionError::NonceNotConsistent)
    } else {
        TransactionValidationOutcome::Valid {
            transaction: tx,
            balance: account.balance,
            nonce: account.nonce,
            propagate: origin != TransactionOrigin::Private,
        }
    }
}

/// Validator for the pool's transactions, over any source of state
/// snapshots.
pub struct PintTransactionValidator<Client> {
    pub inner: PintTransactionValidatorInner<Client>,
}

impl<Client: StateProviderFactory> PintTransactionValidator<Client> {
    pub open spec fn wf(&self) -> bool {
        self.inner.client.wf()
    }

    /// The accounts the latest snapshot shows.
    pub open spec fn spec_accounts(&self) -> Map<Address, Account> {
        self.inner.client.spec_latest_accounts()
    }

    /// Validates one transaction against the latest snapshot. Everything
    /// but a snapshot failure is decided by [`spec_validate`].
    pub fn validate_one(&self, origin: TransactionOrigin, transaction: PintPooledTransaction) -> (r:
        TransactionValidationOutcome)
        requires
            self.wf(),
        ensures
            !(r is Error) ==> r == spec_validate(
                transaction,
                account_or_default(self.spec_accounts(), transaction.sender),
                origin,
            ),
            r matches TransactionValidationOutcome::Error(h, _) ==> h == transaction.hash
                && transaction.tx_type == 0 && transaction.spec_cost().as_nat() > 0,
    {
        self.inner.validate_one(origin, transaction)
    }

    /// The synchronous heart of the validator capability: identical to
    /// [`Self::validate_one`].
    pub fn validate_transaction(
        &self,
        origin: TransactionOrigin,
        transaction: PintPooledTransaction,
    ) -> (r: TransactionValidationOutcome)
        requires
            self.wf(),
        ensures
            !(r is Error) ==> r == spec_validate(
                transaction,
                account_or_default(self.spec_accounts(), transaction.sender),
                origin,
            ),
            r matches TransactionValidationOutcome::Error(h, _) ==> h == transaction.hash
                && transaction.tx_type == 0 && transaction.spec_cost().as_nat() > 0,
    {
        self.validate_one(origin, transaction)
    }
}

/// The validator's state: the snapshot source and the advisory fee cap.
pub struct PintTransactionValidatorInner<Client> {
    pub client: Client,
    pub tx_fee_cap: Option<u128>,
}

impl<Client: StateProviderFactory> PintTransactionValidatorInner<Client> {
    pub fn validate_one(&self, origin: TransactionOrigin, transaction: PintPooledTransaction) -> (r:
        TransactionValidationOutcome)
        requires
            self.client.wf(),
        ensures
            !(r is Error) ==> r == spec_validate(
                transaction,
                account_or_default(self.client.spec_latest_accounts(), transaction.sender),
                origin,
            ),
            r matches TransactionValidationOutcome::Error(h, _) ==> h == transaction.hash
                && transaction.tx_type == 0 && transaction.spec_cost().as_nat() > 0,
    {
        let mut provider: Option<Client::Provider> = None;
        self.validate_one_with_provider(origin, transaction, &mut provider)
    }

    /// Validates one transaction, materializing the snapshot at most once
    /// across a batch that passes the same `maybe_state` back in.
    pub fn validate_one_with_provider(
        &self,
        origin: TransactionOrigin,
        transaction: PintPooledTransaction,
        maybe_state: &mut Option<Client::Provider>,
    ) -> (r: TransactionValidationOutcome)
        requires
            self.client.wf(),
            (*old(maybe_state)) matches Some(p) ==> p.wf() && p.spec_accounts()
                == self.client.spec_latest_accounts(),
        ensures
            (*final(maybe_state)) matches Some(p) ==> p.wf() && p.spec_accounts()
                == self.client.spec_latest_accounts(),
            !(r is Error) ==> r == spec_validate(
                transaction,
                account_or_default(self.client.spec_latest_accounts(), transaction.sender),
                origin,
            ),
            r matches TransactionValidationOutcome::Error(h, _) ==> h == transaction.hash
                && transaction.tx_type == 0 && transaction.spec_cost().as_nat() > 0,
    {
        match self.validate_one_no_state(origin, transaction) {
            Ok(transaction) => {
                if maybe_state.is_none() {
                    match self.client.latest() {
                        Ok(new_state) => {
                            *maybe_state = Some(new_state);
                        },
                        Err(err) => {
                            return TransactionValidationOutcome::Error(transaction.hash(), err);
                        },
                    }
                }
                let state = maybe_state.as_ref().unwrap();
                self.validate_one_against_state(origin, transaction, state)
            },
            Err(invalid_outcome) => invalid_outcome,
        }
    }

    /// The state-dependent half: takes the snapshot the provider handed
    /// back and decides exactly as [`spec_validate`] says.
    pub fn validate_one_against_state<P: StateProvider>(
        &self,
        origin: TransactionOrigin,
        transaction: PintPooledTransaction,
        state: &P,
    ) -> (r: TransactionValidationOutcome)
        requires
            state.wf(),
            transaction.tx_type == 0,
            transaction.spec_cost().as_nat() > 0,
        ensures
            !(r is Error) ==> r == spec_validate(
                transaction,
                account_or_default(state.spec_accounts(), transaction.sender),
                origin,
            ),
            r matches TransactionValidationOutcome::Error(h, _) ==> h == transaction.hash
                && transaction.tx_type == 0 && transaction.spec_cost().as_nat() > 0,
    {
        let account = match state.basic_account(&transaction.sender()) {
            Ok(Some(acct)) => acct,
            Ok(None) => Account::default(),
            Err(err) => {
                return TransactionValidationOutcome::Error(transaction.hash(), err);
            },
        };
        if transaction.nonce < account.nonce {
            return TransactionValidationOutcome::Invalid(
                transaction,
                InvalidPoolTransactionError::NonceNotConsistent,
            );
        }
        TransactionValidationOutcome::Valid {
            transaction,
            balance: account.balance,
            nonce: account.nonce,
            propagate: !matches!(origin, TransactionOrigin::Private),
        }
    }

    /// The state-free half: the supported type and a positive bid. Returns
    /// the transaction unchanged when both hold, the exact rejection when
    /// not.
    pub fn validate_one_no_state(
        &self,
        origin: TransactionOrigin,
        transaction: PintPooledTransaction,
    ) -> (r: Result<PintPooledTransaction, TransactionValidationOutcome>)
        ensures
            r matches Ok(t) ==> t == transaction && transaction.tx_type == 0
                && transaction.spec_cost().as_nat() > 0,
            r is Err <==> (transaction.tx_type != 0 || transaction.spec_cost().as_nat() == 0),
            transaction.tx_type != 0 ==> r == Err::<
                PintPooledTransaction,
                TransactionValidationOutcome,
            >(
                TransactionValidationOutcome::Invalid(
                    transaction,
                    InvalidPoolTransactionError::TxTypeNotSupported,
                ),
            ),
            transaction.tx_type == 0 && transaction.spec_cost().as_nat() == 0 ==> r == Err::<
                PintPooledTransaction,
                TransactionValidationOutcome,
            >(
                TransactionValidationOutcome::Invalid(
                    transaction,
                    InvalidPoolTransactionError::NotEnoughFee,
                ),
            ),
    {
        if transaction.tx_type() != 0 {
            return Err(
                TransactionValidationOutcome::Invalid(
                    transaction,
                    InvalidPoolTransactionError::TxTypeNotSupported,
                ),
            );
        }
        let cost = transaction.cost();
        if cost.is_zero() {
            return Err(
                TransactionValidationOutcome::Invalid(
                    transaction,
                    InvalidPoolTransactionError::NotEnoughFee,
                ),
            );
        }
        Ok(transaction)
    }
}

/// Builds a validator around a snapshot source, with the default advisory
/// fee cap of one billion.
pub struct PintTransactionValidatorBuilder<Client> {
    pub client: Client,
    pub tx_fee_cap: Option<u128>,
}

impl<Client> PintTransactionValidatorBuilder<Client> {
    pub fn new(client: Client) -> (r: PintTransactionValidatorBuilder<Client>)
        ensures
            r.client == client,
            r.tx_fee_cap == Some(1000000000u128),
    {
        PintTransactionValidatorBuilder { client, tx_fee_cap: Some(1000000000) }
    }

    pub fn set_tx_fee_cap(self, fee_cap: u128) -> (r: PintTransactionValidatorBuilder<Client>)
        ensures
            r.client == self.client,
            r.tx_fee_cap == Some(fee_cap),
    {
        PintTransactionValidatorBuilder { client: self.client, tx_fee_cap: Some(fee_cap) }
    }

    pub fn build(self) -> (r: PintTransactionValidator<Client>)
        ensures
            r.inner.client == self.client,
            r.inner.tx_fee_cap == self.tx_fee_cap,
    {
        let PintTransactionValidatorBuilder { client, tx_fee_cap } = self;
        PintTransactionValidator {
            inner: PintTransactionValidatorInner { client, tx_fee_cap },
        }
    }
}

} // verus!
