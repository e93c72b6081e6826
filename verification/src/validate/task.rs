//! The production-path adapter around a validator. It preserves the
//! outcome exactly; a runtime may dispatch the call to a worker.
use vstd::prelude::*;

use crate::storage::StateProviderFactory;
use crate::traits::{PintPooledTransaction, TransactionOrigin};
use crate::validate::pint::{account_or_default, spec_validate, PintTransactionValidator};
use crate::validate::TransactionValidationOutcome;

verus! {

pub struct TransactionValidationTaskExecutor<V> {
    pub validator: V,
}

impl<V> TransactionValidationTaskExecutor<V> {
    pub fn new(validator: V) -> (r: TransactionValidationTaskExecutor<V>)
        ensures
            r.validator == validator,
    {
        TransactionValidationTaskExecutor { validator }
    }
}

impl<Client: StateProviderFactory> TransactionValidationTaskExecutor<
    PintTransactionValidator<Client>,
> {
    /// Exactly the wrapped validator's outcome.
    pub fn validate_transaction(
        &self,
        origin: TransactionOrigin,
        transaction: PintPooledTransaction,
    ) -> (r: TransactionValidationOutcome)
        requires
            self.validator.wf(),
        ensures
            !(r is Error) ==> r == spec_validate(
                transaction,
                account_or_default(self.validator.spec_accounts(), transaction.sender),
                origin,
            ),
            r matches TransactionValidationOutcome::Error(h, _) ==> h == transaction.hash
                && transaction.tx_type == 0 && transaction.spec_cost().as_nat() > 0,
    {
        self.validator.validate_transaction(origin, transaction)
    }
}

} // verus!
