use transaction_pool::error::PoolErrorKind;
use transaction_pool::identifier::SenderIdentifiers;
use transaction_pool::ordering::PintOrdering;
use transaction_pool::pool::txpool::TxPool;
use transaction_pool::primitives::transaction::Transaction;
use transaction_pool::primitives::types::{Address, B256, U256};
use transaction_pool::test_utils::mock::{
    ExtendedAccount, MockOrdering, MockPintProvider, MockTransaction, MockTransactionFactory,
};
use transaction_pool::traits::PintPooledTransaction;
use transaction_pool::validate::pint::PintTransactionValidatorBuilder;
use transaction_pool::Pool;

fn tx_with(sender_byte: u8, hash_tag: u128, fee: u128, nonce: u64, value: u64) -> PintPooledTransaction {
    PintPooledTransaction {
        tx_type: 0,
        chain_id: 1,
        hash: B256::from_u128(hash_tag),
        sender: Address::from_byte([sender_byte; 20]),
        fee,
        nonce,
        value: U256::from(value),
    }
}

fn pool_with_account(
    sender: Address,
    nonce: u64,
    balance: u64,
) -> Pool<MockPintProvider> {
    let mut provider = MockPintProvider::default();
    provider.add_account(sender, ExtendedAccount::new(nonce, U256::from(balance)));
    let validator = PintTransactionValidatorBuilder::new(provider).build();
    Pool::new(validator, PintOrdering::default(), Default::default())
}

#[test]
fn pending_admission() {
    // on-chain {nonce: 0, balance: 100}; tx {nonce: 0, fee: 1, value: 0}
    let tx = tx_with(0x0a, 1, 1, 0, 0);
    let mut pool = pool_with_account(tx.sender, 0, 100);

    let res = pool.add_external_transaction(tx);
    assert_eq!(res.unwrap(), tx.hash);
    assert_eq!(1, pool.pool.pending_pool.len());
    assert_eq!(0, pool.pool.parked_pool.len());
    let got = pool.get(&tx.hash());
    assert_eq!(got.unwrap().transaction.hash, tx.hash);
}

#[test]
fn parked_by_balance() {
    // on-chain {nonce: 0, balance: 10}; tx {nonce: 0, fee: 10, value: 10}: 20 > 10
    let tx = tx_with(0x0b, 2, 10, 0, 10);
    let mut pool = pool_with_account(tx.sender, 0, 10);

    let res = pool.add_external_transaction(tx);
    assert!(res.is_ok());
    assert_eq!(0, pool.pool.pending_pool.len());
    assert_eq!(1, pool.pool.parked_pool.len());
}

#[test]
fn pending_when_balance_exactly_covers_cost_and_value() {
    // cost + value == balance sits exactly on the funding boundary: pending
    let tx = tx_with(0x1b, 12, 10, 0, 10);
    let mut pool = pool_with_account(tx.sender, 0, 20);

    assert!(pool.add_external_transaction(tx).is_ok());
    assert_eq!(1, pool.pool.pending_pool.len());
    assert_eq!(0, pool.pool.parked_pool.len());
}

#[test]
fn parked_by_nonce_gap() {
    // on-chain {nonce: 0, balance: 100}; tx {nonce: 1, fee: 10, value: 10}
    let tx = tx_with(0x0c, 3, 10, 1, 10);
    let mut pool = pool_with_account(tx.sender, 0, 100);

    let res = pool.add_external_transaction(tx);
    assert!(res.is_ok());
    assert_eq!(0, pool.pool.pending_pool.len());
    assert_eq!(1, pool.pool.parked_pool.len());
}

#[test]
fn replacement_accepted() {
    // tx1 {nonce: 0, fee: 1}, then tx2 {nonce: 0, fee: 2}, same sender
    let tx1 = tx_with(0x0d, 4, 1, 0, 0);
    let mut tx2 = tx1;
    tx2.hash = B256::from_u128(5);
    tx2.fee = 2;
    let mut pool = pool_with_account(tx1.sender, 0, 100);

    assert!(pool.add_external_transaction(tx1).is_ok());
    assert!(pool.add_external_transaction(tx2).is_ok());
    assert_eq!(1, pool.pool.pending_pool.len());
    assert!(pool.get(&tx1.hash()).is_none());
    assert!(pool.get(&tx2.hash()).is_some());
}

#[test]
fn replacement_rejected() {
    // tx1 {nonce: 0, fee: 2}, then tx2 {nonce: 0, fee: 1}
    let tx1 = tx_with(0x0e, 6, 2, 0, 0);
    let mut tx2 = tx1;
    tx2.hash = B256::from_u128(7);
    tx2.fee = 1;
    let mut pool = pool_with_account(tx1.sender, 0, 100);

    assert!(pool.add_external_transaction(tx1).is_ok());
    let res = pool.add_external_transaction(tx2);
    assert_eq!(res.unwrap_err().kind, PoolErrorKind::RelpacementUnderpriced);
    assert_eq!(1, pool.pool.pending_pool.len());
    assert!(pool.get(&tx1.hash()).is_some());
    assert!(pool.get(&tx2.hash()).is_none());
}

#[test]
fn replacement_rejected_on_equal_cost() {
    // a replacement must bid strictly more; an equal bid keeps the incumbent
    let tx1 = tx_with(0x0f, 8, 2, 0, 0);
    let mut tx2 = tx1;
    tx2.hash = B256::from_u128(9);
    let mut pool = pool_with_account(tx1.sender, 0, 100);

    assert!(pool.add_external_transaction(tx1).is_ok());
    let res = pool.add_external_transaction(tx2);
    assert_eq!(res.unwrap_err().kind, PoolErrorKind::RelpacementUnderpriced);
    assert!(pool.get(&tx1.hash()).is_some());
}

#[test]
fn duplicate_hash_rejected() {
    let tx = tx_with(0x10, 10, 1, 0, 0);
    let mut pool = pool_with_account(tx.sender, 0, 100);

    assert!(pool.add_external_transaction(tx).is_ok());
    let res = pool.add_external_transaction(tx);
    assert_eq!(res.unwrap_err().kind, PoolErrorKind::AlreadyImported);
    assert_eq!(1, pool.pool.pending_pool.len());
}

#[test]
fn best_iterator_yields_by_priority_across_senders() {
    let mut factory = MockTransactionFactory::default();
    let mut pool = TxPool::new(MockOrdering::default(), Default::default());
    let balance = U256::from(1000);

    let mut low = MockTransaction::pint_tx();
    low.set_fee(1);
    let mut high = MockTransaction::pint_tx();
    high.set_fee(50);
    let mut mid = MockTransaction::pint_tx();
    mid.set_fee(10);

    let vlow = factory.validate(low);
    let vhigh = factory.validate(high);
    let vmid = factory.validate(mid);
    pool.add_transaction(vlow.clone(), balance, 0).unwrap();
    pool.add_transaction(vhigh.clone(), balance, 0).unwrap();
    pool.add_transaction(vmid.clone(), balance, 0).unwrap();

    let mut best = pool.best_transactions();
    assert_eq!(best.next().unwrap().transaction.hash, vhigh.transaction.hash);
    assert_eq!(best.next().unwrap().transaction.hash, vmid.transaction.hash);
    assert_eq!(best.next().unwrap().transaction.hash, vlow.transaction.hash);
    assert!(best.next().is_none());
}

#[test]
fn best_iterator_keeps_sender_nonce_order() {
    // a sender's later nonce outbids everyone, yet must come after its
    // earlier nonce; an unrelated mid-priority sender goes first
    let mut factory = MockTransactionFactory::default();
    let mut pool = TxPool::new(MockOrdering::default(), Default::default());
    let balance = U256::from(1000);

    let mut a0 = MockTransaction::pint_tx();
    a0.set_fee(1);
    let mut a1 = a0.next();
    a1.set_fee(100);
    let mut b0 = MockTransaction::pint_tx();
    b0.set_fee(50);

    let va0 = factory.validate(a0);
    let va1 = factory.validate(a1);
    let vb0 = factory.validate(b0);
    pool.add_transaction(va0.clone(), balance, 0).unwrap();
    pool.add_transaction(va1.clone(), balance, 1).unwrap();
    pool.add_transaction(vb0.clone(), balance, 0).unwrap();
    assert_eq!(3, pool.pending_pool.len());

    let mut best = pool.best_transactions();
    assert_eq!(best.next().unwrap().transaction.hash, vb0.transaction.hash);
    assert_eq!(best.next().unwrap().transaction.hash, va0.transaction.hash);
    assert_eq!(best.next().unwrap().transaction.hash, va1.transaction.hash);
    assert!(best.next().is_none());
}

#[test]
fn best_iterator_is_a_snapshot() {
    let mut factory = MockTransactionFactory::default();
    let mut pool = TxPool::new(MockOrdering::default(), Default::default());
    let balance = U256::from(1000);

    let mut tx1 = MockTransaction::pint_tx();
    tx1.set_fee(5);
    let vtx1 = factory.validate(tx1);
    pool.add_transaction(vtx1.clone(), balance, 0).unwrap();

    let mut best = pool.best_transactions();

    // mutations after the snapshot: a new admission and a removal
    let mut tx2 = MockTransaction::pint_tx();
    tx2.set_fee(500);
    let vtx2 = factory.validate(tx2);
    pool.add_transaction(vtx2.clone(), balance, 0).unwrap();
    pool.remove_transaction(vtx1.id());

    // the iterator still sees exactly the snapshot: tx1, not tx2
    assert_eq!(best.next().unwrap().transaction.hash, vtx1.transaction.hash);
    assert!(best.next().is_none());
}

#[test]
fn best_iterator_skips_marked_senders() {
    let mut factory = MockTransactionFactory::default();
    let mut pool = TxPool::new(MockOrdering::default(), Default::default());
    let balance = U256::from(1000);

    let mut a0 = MockTransaction::pint_tx();
    a0.set_fee(100);
    let mut a1 = a0.next();
    a1.set_fee(90);
    let mut b0 = MockTransaction::pint_tx();
    b0.set_fee(1);

    let va0 = factory.validate(a0);
    let va1 = factory.validate(a1);
    let vb0 = factory.validate(b0);
    pool.add_transaction(va0.clone(), balance, 0).unwrap();
    pool.add_transaction(va1.clone(), balance, 1).unwrap();
    pool.add_transaction(vb0.clone(), balance, 0).unwrap();

    let mut best = pool.best_transactions();
    let first = best.next().unwrap();
    assert_eq!(first.transaction.hash, va0.transaction.hash);
    best.mark_invalid(first.transaction_id.sender);
    // the sender's remaining transaction is skipped
    assert_eq!(best.next().unwrap().transaction.hash, vb0.transaction.hash);
    assert!(best.next().is_none());
}

#[test]
fn best_iterator_yields_top_unfailed_sender() {
    // the top-ranked sender is failed before iteration starts: the yield
    // is the best among the senders still standing
    let mut factory = MockTransactionFactory::default();
    let mut pool = TxPool::new(MockOrdering::default(), Default::default());
    let balance = U256::from(1000);

    let mut top = MockTransaction::pint_tx();
    top.set_fee(100);
    let mut runner_up = MockTransaction::pint_tx();
    runner_up.set_fee(10);

    let vtop = factory.validate(top);
    let vrunner = factory.validate(runner_up);
    pool.add_transaction(vtop.clone(), balance, 0).unwrap();
    pool.add_transaction(vrunner.clone(), balance, 0).unwrap();

    let mut best = pool.best_transactions();
    best.mark_invalid(vtop.transaction_id.sender);
    assert_eq!(best.next().unwrap().transaction.hash, vrunner.transaction.hash);
    assert!(best.next().is_none());
}

#[test]
fn removed_transactions_leave_both_indices() {
    let mut factory = MockTransactionFactory::default();
    let mut pool = TxPool::new(MockOrdering::default(), Default::default());
    let balance = U256::from(100);

    let mut tx1 = MockTransaction::pint_tx();
    tx1.set_fee(1);
    let mut tx2 = MockTransaction::pint_tx();
    tx2.set_fee(1);
    tx2.set_nonce(3);

    let vtx1 = factory.validate(tx1);
    let vtx2 = factory.validate(tx2);
    pool.add_transaction(vtx1.clone(), balance, 0).unwrap();
    pool.add_transaction(vtx2.clone(), balance, 0).unwrap();

    let hashes = vec![vtx1.transaction.hash, vtx2.transaction.hash];
    let removed = pool.remove_transactions(hashes);
    assert_eq!(removed.len(), 2);
    assert!(pool.get(&vtx1.transaction.hash).is_none());
    assert!(pool.get(&vtx2.transaction.hash).is_none());
    assert_eq!(0, pool.pending_pool.len());
    assert_eq!(0, pool.parked_pool.len());
}

#[test]
fn batch_admission_answers_each_submission() {
    let good = tx_with(0x20, 20, 5, 0, 0);
    let duplicate = good;
    let mut bad_type = tx_with(0x20, 21, 5, 1, 0);
    bad_type.tx_type = 7;
    let mut pool = pool_with_account(good.sender, 0, 100);

    let results = pool.add_transactions(
        transaction_pool::traits::TransactionOrigin::External,
        vec![good, duplicate, bad_type],
    );
    assert_eq!(results.len(), 3);
    assert_eq!(*results[0].as_ref().unwrap(), good.hash);
    assert_eq!(
        results[1].as_ref().unwrap_err().kind,
        PoolErrorKind::AlreadyImported
    );
    assert_eq!(
        results[2].as_ref().unwrap_err().kind,
        PoolErrorKind::InvalidTransaction
    );
}

#[test]
fn empty_pool_yields_nothing() {
    let pool = TxPool::new(MockOrdering::default(), Default::default());
    let mut best = pool.best_transactions();
    assert!(best.next().is_none());
}

#[test]
fn removing_an_unknown_id_changes_nothing() {
    let mut factory = MockTransactionFactory::default();
    let mut pool = TxPool::new(MockOrdering::default(), Default::default());
    let mut tx = MockTransaction::pint_tx();
    tx.set_fee(1);
    let vtx = factory.validate(tx);
    pool.add_transaction(vtx.clone(), U256::from(100), 0).unwrap();

    let stranger = factory.validate(MockTransaction::pint_tx());
    assert!(pool.remove_transaction(stranger.id()).is_none());
    assert_eq!(1, pool.pending_pool.len());
}

#[test]
fn sender_ids_are_interned_once() {
    let mut ids = SenderIdentifiers::default();
    let a = Address::from_byte([1; 20]);
    let b = Address::from_byte([2; 20]);

    let ia = ids.sender_id_or_create(a);
    let ib = ids.sender_id_or_create(b);
    let ia2 = ids.sender_id_or_create(a);

    assert_eq!(ia, ia2);
    assert_ne!(ia, ib);
    assert_eq!(ids.sender_id(&a), Some(ia));
    assert_eq!(ids.address(&ib), Some(b));
    assert_eq!(ids.sender_id(&Address::from_byte([3; 20])), None);
}
