use transaction_pool::error::{InvalidPoolTransactionError, PoolErrorKind};
use transaction_pool::ordering::PintOrdering;
use transaction_pool::primitives::transaction::Transaction;
use transaction_pool::primitives::types::{Address, B256, U256};
use transaction_pool::test_utils::mock::{ExtendedAccount, MockPintProvider, UnreachableProvider};
use transaction_pool::traits::{PintPooledTransaction, TransactionOrigin};
use transaction_pool::validate::pint::PintTransactionValidatorBuilder;
use transaction_pool::validate::TransactionValidationOutcome;
use transaction_pool::Pool;

// fee = 1, value = 1, nonce = 0
fn get_transaction() -> PintPooledTransaction {
    PintPooledTransaction {
        tx_type: 0,
        chain_id: 1,
        hash: B256::from_u128(0x1001),
        sender: Address::from_byte([0x25; 20]),
        fee: 1,
        nonce: 0,
        value: U256::from(1),
    }
}

fn get_transaction_with_zero_fee() -> PintPooledTransaction {
    PintPooledTransaction {
        tx_type: 0,
        chain_id: 1,
        hash: B256::from_u128(0x1002),
        sender: Address::from_byte([0x25; 20]),
        fee: 0,
        nonce: 0,
        value: U256::from(1),
    }
}

#[test]
fn test_validate_pending_transaction() {
    let transaction = get_transaction();
    let mut provider = MockPintProvider::default();

    provider.add_account(
        transaction.sender(),
        ExtendedAccount::new(transaction.nonce(), U256::max_value()),
    );

    let validator = PintTransactionValidatorBuilder::new(provider).build();

    let outcome: TransactionValidationOutcome =
        validator.validate_one(TransactionOrigin::External, transaction.clone());
    assert!(outcome.is_valid());

    let mut pool = Pool::new(validator, PintOrdering::default(), Default::default());

    let res = pool.add_external_transaction(transaction.clone());
    assert!(res.is_ok());
    let tx = pool.get(&transaction.hash());
    assert!(tx.is_some());
}

#[test]
fn test_validate_parked_transaction() {
    let transaction = get_transaction();
    let mut provider = MockPintProvider::default();

    provider.add_account(
        transaction.sender(),
        ExtendedAccount::new(transaction.nonce(), U256::zero()),
    );

    let validator = PintTransactionValidatorBuilder::new(provider).build();

    let outcome: TransactionValidationOutcome =
        validator.validate_one(TransactionOrigin::External, transaction.clone());
    assert!(outcome.is_valid());

    let mut pool = Pool::new(validator, PintOrdering::default(), Default::default());

    let res = pool.add_external_transaction(transaction.clone());
    assert!(res.is_ok());
    let tx = pool.get(&transaction.hash());
    assert!(tx.is_some());
}

#[test]
fn test_validate_invalid_on_nonce() {
    let transaction = get_transaction();
    let mut provider = MockPintProvider::default();

    provider.add_account(
        transaction.sender(),
        ExtendedAccount::new(transaction.nonce() + 1, U256::max_value()),
    );

    let validator = PintTransactionValidatorBuilder::new(provider).build();

    let outcome: TransactionValidationOutcome =
        validator.validate_one(TransactionOrigin::External, transaction.clone());
    assert!(!outcome.is_valid());

    let mut pool = Pool::new(validator, PintOrdering::default(), Default::default());

    let res = pool.add_external_transaction(transaction.clone());
    assert!(res.is_err());
    let tx = pool.get(&transaction.hash());
    assert!(tx.is_none());
}

#[test]
fn test_validate_invalid_on_fee() {
    let transaction = get_transaction_with_zero_fee();
    let mut provider = MockPintProvider::default();

    provider.add_account(
        transaction.sender(),
        ExtendedAccount::new(transaction.nonce(), U256::max_value()),
    );

    let validator = PintTransactionValidatorBuilder::new(provider).build();

    let outcome: TransactionValidationOutcome =
        validator.validate_one(TransactionOrigin::External, transaction.clone());
    assert!(!outcome.is_valid());

    let mut pool = Pool::new(validator, PintOrdering::default(), Default::default());

    let res = pool.add_external_transaction(transaction.clone());
    assert!(res.is_err());
    let tx = pool.get(&transaction.hash());
    assert!(tx.is_none());
}

#[test]
fn validate_rejects_unsupported_tx_type() {
    let mut transaction = get_transaction();
    transaction.tx_type = 2;
    let provider = MockPintProvider::default();
    let validator = PintTransactionValidatorBuilder::new(provider).build();

    let outcome = validator.validate_one(TransactionOrigin::External, transaction);
    match outcome {
        TransactionValidationOutcome::Invalid(tx, kind) => {
            assert_eq!(tx.hash, transaction.hash);
            assert_eq!(kind, InvalidPoolTransactionError::TxTypeNotSupported);
        }
        _ => panic!("expected a type rejection"),
    }
}

#[test]
fn validate_rejects_zero_cost() {
    let transaction = get_transaction_with_zero_fee();
    let provider = MockPintProvider::default();
    let validator = PintTransactionValidatorBuilder::new(provider).build();

    let outcome = validator.validate_one(TransactionOrigin::External, transaction);
    match outcome {
        TransactionValidationOutcome::Invalid(_, kind) => {
            assert_eq!(kind, InvalidPoolTransactionError::NotEnoughFee);
        }
        _ => panic!("expected a fee rejection"),
    }
}

#[test]
fn validate_rejects_stale_nonce() {
    let mut transaction = get_transaction();
    transaction.nonce = 4;
    let mut provider = MockPintProvider::default();
    provider.add_account(transaction.sender(), ExtendedAccount::new(5, U256::from(100)));
    let validator = PintTransactionValidatorBuilder::new(provider).build();

    let outcome = validator.validate_one(TransactionOrigin::External, transaction);
    match outcome {
        TransactionValidationOutcome::Invalid(_, kind) => {
            assert_eq!(kind, InvalidPoolTransactionError::NonceNotConsistent);
        }
        _ => panic!("expected a nonce rejection"),
    }
}

#[test]
fn validate_returns_exact_account_values() {
    let mut transaction = get_transaction();
    transaction.nonce = 5;
    let mut provider = MockPintProvider::default();
    provider.add_account(transaction.sender(), ExtendedAccount::new(3, U256::from(77)));
    let validator = PintTransactionValidatorBuilder::new(provider).build();

    let outcome = validator.validate_one(TransactionOrigin::External, transaction);
    match outcome {
        TransactionValidationOutcome::Valid { transaction: tx, balance, nonce, propagate } => {
            assert_eq!(tx.hash, transaction.hash);
            assert_eq!(balance, U256::from(77));
            assert_eq!(nonce, 3);
            assert!(propagate);
        }
        _ => panic!("expected a valid outcome"),
    }
}

#[test]
fn validate_private_suppresses_propagation() {
    let transaction = get_transaction();
    let mut provider = MockPintProvider::default();
    provider.add_account(transaction.sender(), ExtendedAccount::new(0, U256::from(100)));
    let validator = PintTransactionValidatorBuilder::new(provider).build();

    let outcome = validator.validate_one(TransactionOrigin::Private, transaction);
    match outcome {
        TransactionValidationOutcome::Valid { propagate, .. } => {
            assert!(!propagate);
        }
        _ => panic!("expected a valid outcome"),
    }
}

#[test]
fn validate_missing_account_reads_as_blank() {
    // an unseen sender is treated as {nonce: 0, balance: 0}
    let transaction = get_transaction();
    let provider = MockPintProvider::default();
    let validator = PintTransactionValidatorBuilder::new(provider).build();

    let outcome = validator.validate_one(TransactionOrigin::External, transaction);
    match outcome {
        TransactionValidationOutcome::Valid { balance, nonce, .. } => {
            assert_eq!(balance, U256::zero());
            assert_eq!(nonce, 0);
        }
        _ => panic!("expected a valid outcome"),
    }
}

#[test]
fn task_executor_preserves_the_outcome() {
    let transaction = get_transaction();
    let mut provider = MockPintProvider::default();
    provider.add_account(transaction.sender(), ExtendedAccount::new(0, U256::from(100)));
    let validator = PintTransactionValidatorBuilder::new(provider).build();
    let executor =
        transaction_pool::validate::task::TransactionValidationTaskExecutor::new(validator);

    let outcome = executor.validate_transaction(TransactionOrigin::External, transaction);
    match outcome {
        TransactionValidationOutcome::Valid { balance, nonce, propagate, .. } => {
            assert_eq!(balance, U256::from(100));
            assert_eq!(nonce, 0);
            assert!(propagate);
        }
        _ => panic!("expected a valid outcome"),
    }
}

#[test]
fn batch_validation_reuses_one_snapshot() {
    let tx1 = get_transaction();
    let mut tx2 = tx1;
    tx2.hash = B256::from_u128(0x1003);
    tx2.nonce = 1;
    let mut provider = MockPintProvider::default();
    provider.add_account(tx1.sender(), ExtendedAccount::new(0, U256::from(100)));
    let validator = PintTransactionValidatorBuilder::new(provider).build();

    let mut state = None;
    let o1 = validator
        .inner
        .validate_one_with_provider(TransactionOrigin::External, tx1, &mut state);
    assert!(state.is_some());
    let o2 = validator
        .inner
        .validate_one_with_provider(TransactionOrigin::External, tx2, &mut state);
    assert!(o1.is_valid());
    assert!(o2.is_valid());
}

#[test]
fn builder_carries_the_fee_cap() {
    let builder = PintTransactionValidatorBuilder::new(MockPintProvider::default());
    assert_eq!(builder.tx_fee_cap, Some(1_000_000_000));
    let builder = builder.set_tx_fee_cap(5);
    assert_eq!(builder.tx_fee_cap, Some(5));
}

#[test]
fn import_error_when_provider_unreachable() {
    let transaction = get_transaction();
    let validator = PintTransactionValidatorBuilder::new(UnreachableProvider).build();

    let mut pool = Pool::new(validator, PintOrdering::default(), Default::default());
    let res = pool.add_external_transaction(transaction);
    assert_eq!(res.unwrap_err().kind, PoolErrorKind::ImportError);
    assert!(pool.get(&transaction.hash()).is_none());
}
