use transaction_pool::error::PoolErrorKind;
use transaction_pool::pool::txpool::TxPool;
use transaction_pool::primitives::types::U256;
use transaction_pool::test_utils::mock::{MockOrdering, MockTransaction, MockTransactionFactory};

#[test]
fn test_insert_pending_pool() {
    let mut factory = MockTransactionFactory::default();
    let mut pool = TxPool::new(MockOrdering::default(), Default::default());

    let mut tx = MockTransaction::pint_tx();
    tx.set_fee(1);

    let vtx = factory.validate(tx);
    let on_chain_balance = U256::from(100);
    let on_chain_nonce: u64 = 0;

    let _res = pool.add_transaction(vtx.clone(), on_chain_balance, on_chain_nonce);

    assert_eq!(1, pool.pending_pool.len());
    assert_eq!(0, pool.parked_pool.len());
}

#[test]
fn test_insert_already_imported() {
    let mut factory = MockTransactionFactory::default();
    let mut pool = TxPool::new(MockOrdering::default(), Default::default());

    let mut tx = MockTransaction::pint_tx();
    tx.set_fee(1);

    let vtx = factory.validate(tx);
    let on_chain_balance = U256::from(100);
    let on_chain_nonce: u64 = 0;

    let _ = pool.add_transaction(vtx.clone(), on_chain_balance, on_chain_nonce);
    let _res = pool.add_transaction(vtx.clone(), on_chain_balance, on_chain_nonce);

    assert_eq!(_res.unwrap_err().kind, PoolErrorKind::AlreadyImported);
    assert_eq!(1, pool.pending_pool.len());
}

#[test]
fn test_insert_parked_pool_nonce() {
    let mut factory = MockTransactionFactory::default();
    let mut pool = TxPool::new(MockOrdering::default(), Default::default());

    let mut tx = MockTransaction::pint_tx();
    tx.set_fee(10);
    tx.set_value(U256::from(10));
    tx.set_nonce(1);

    let vtx = factory.validate(tx);
    let on_chain_balance = U256::from(10);
    let on_chain_nonce: u64 = 0;

    let _res = pool.add_transaction(vtx.clone(), on_chain_balance, on_chain_nonce);

    assert_eq!(0, pool.pending_pool.len());
    assert_eq!(1, pool.parked_pool.len());
}

#[test]
fn test_insert_parked_pool_balance() {
    let mut factory = MockTransactionFactory::default();
    let mut pool = TxPool::new(MockOrdering::default(), Default::default());

    let mut tx = MockTransaction::pint_tx();
    tx.set_fee(10);
    tx.set_value(U256::from(10));
    tx.set_nonce(0);

    let vtx = factory.validate(tx);
    let on_chain_balance = U256::from(10);
    let on_chain_nonce: u64 = 0;

    let _res = pool.add_transaction(vtx.clone(), on_chain_balance, on_chain_nonce);

    assert_eq!(0, pool.pending_pool.len());
    assert_eq!(1, pool.parked_pool.len());
}

#[test]
fn test_insert_txs_same_sender() {
    let mut factory = MockTransactionFactory::default();
    let mut pool = TxPool::new(MockOrdering::default(), Default::default());

    let mut tx = MockTransaction::pint_tx();
    tx.set_fee(1);

    let mut next_tx = tx.next();
    next_tx.set_fee(1);

    let vtx = factory.validate(tx);
    let next_vtx = factory.validate(next_tx);

    let on_chain_balance = U256::from(100);
    let on_chain_nonce: u64 = 0;

    let _res = pool.add_transaction(vtx.clone(), on_chain_balance, on_chain_nonce);
    let _res = pool.add_transaction(next_vtx.clone(), on_chain_balance, on_chain_nonce);
    assert_eq!(1, pool.pending_pool.len());
    assert_eq!(1, pool.parked_pool.len());
}

#[test]
fn test_replace_tx_with_higher_fee_pending() {
    let mut factory = MockTransactionFactory::default();
    let mut pool = TxPool::new(MockOrdering::default(), Default::default());

    let mut tx = MockTransaction::pint_tx();
    tx.set_fee(1);

    let mut next_tx = tx.next();
    next_tx.set_nonce(0);
    next_tx.set_fee(2);

    let vtx = factory.validate(tx);
    let next_vtx = factory.validate(next_tx);

    let on_chain_balance = U256::from(100);
    let on_chain_nonce: u64 = 0;

    let _res = pool.add_transaction(vtx.clone(), on_chain_balance, on_chain_nonce);
    let _res = pool.add_transaction(next_vtx.clone(), on_chain_balance, on_chain_nonce);
    assert_eq!(1, pool.pending_pool.len());
    assert_eq!(0, pool.parked_pool.len());
}

#[test]
fn test_replace_tx_with_higher_fee_parked() {
    let mut factory = MockTransactionFactory::default();
    let mut pool = TxPool::new(MockOrdering::default(), Default::default());

    let mut tx = MockTransaction::pint_tx();
    tx.set_nonce(1);
    tx.set_fee(1);

    let mut next_tx = tx.next();
    next_tx.set_nonce(1);
    next_tx.set_fee(2);

    let vtx = factory.validate(tx);
    let next_vtx = factory.validate(next_tx);

    let on_chain_balance = U256::from(100);
    let on_chain_nonce: u64 = 0;

    let _res = pool.add_transaction(vtx.clone(), on_chain_balance, on_chain_nonce);
    let _res = pool.add_transaction(next_vtx.clone(), on_chain_balance, on_chain_nonce);
    assert_eq!(0, pool.pending_pool.len());
    assert_eq!(1, pool.parked_pool.len());
}

#[test]
fn test_replace_tx_with_lower_fee_pending() {
    let mut factory = MockTransactionFactory::default();
    let mut pool = TxPool::new(MockOrdering::default(), Default::default());

    let mut tx = MockTransaction::pint_tx();
    tx.set_fee(2);

    let mut next_tx = tx.next();
    next_tx.set_nonce(0);
    next_tx.set_fee(1);

    let vtx = factory.validate(tx);
    let next_vtx = factory.validate(next_tx);

    let on_chain_balance = U256::from(100);
    let on_chain_nonce: u64 = 0;

    let _res = pool.add_transaction(vtx.clone(), on_chain_balance, on_chain_nonce);
    let _res = pool.add_transaction(next_vtx.clone(), on_chain_balance, on_chain_nonce);
    assert_eq!(1, pool.pending_pool.len());
    assert_eq!(0, pool.parked_pool.len());
    assert_eq!(
        _res.unwrap_err().kind,
        PoolErrorKind::RelpacementUnderpriced
    )
}

#[test]
fn test_replace_tx_with_lower_fee_parked() {
    let mut factory = MockTransactionFactory::default();
    let mut pool = TxPool::new(MockOrdering::default(), Default::default());

    let mut tx = MockTransaction::pint_tx();
    tx.set_nonce(1);
    tx.set_fee(2);

    let mut next_tx = tx.next();
    next_tx.set_nonce(1);
    next_tx.set_fee(1);

    let vtx = factory.validate(tx);
    let next_vtx = factory.validate(next_tx);

    let on_chain_balance = U256::from(100);
    let on_chain_nonce: u64 = 0;

    let _res = pool.add_transaction(vtx.clone(), on_chain_balance, on_chain_nonce);
    let _res = pool.add_transaction(next_vtx.clone(), on_chain_balance, on_chain_nonce);
    assert_eq!(0, pool.pending_pool.len());
    assert_eq!(1, pool.parked_pool.len());
    assert_eq!(
        _res.unwrap_err().kind,
        PoolErrorKind::RelpacementUnderpriced
    )
}

#[test]
fn test_multiple_senders() {
    let mut factory = MockTransactionFactory::default();
    let mut pool = TxPool::new(MockOrdering::default(), Default::default());

    let mut tx1 = MockTransaction::pint_tx();
    tx1.set_fee(1);
    let mut tx2 = MockTransaction::pint_tx();
    tx2.set_fee(1);

    let vtx1 = factory.validate(tx1);
    let vtx2 = factory.validate(tx2);

    let on_chain_balance = U256::from(100);
    let on_chain_nonce: u64 = 0;

    let _res = pool.add_transaction(vtx1.clone(), on_chain_balance, on_chain_nonce);
    let _res = pool.add_transaction(vtx2.clone(), on_chain_balance, on_chain_nonce);

    assert_eq!(2, pool.pending_pool.len());
    assert_eq!(0, pool.parked_pool.len());
}

#[test]
fn test_remove_pending_tx() {
    let mut factory = MockTransactionFactory::default();
    let mut pool = TxPool::new(MockOrdering::default(), Default::default());

    let mut tx = MockTransaction::pint_tx();
    tx.set_fee(1);

    let vtx = factory.validate(tx);
    let on_chain_balance = U256::from(100);
    let on_chain_nonce: u64 = 0;

    let _res = pool.add_transaction(vtx.clone(), on_chain_balance, on_chain_nonce);
    assert_eq!(1, pool.pending_pool.len());

    pool.remove_transaction(vtx.id());
    assert_eq!(0, pool.pending_pool.len());
}

#[test]
fn test_remove_parked_tx() {
    let mut factory = MockTransactionFactory::default();
    let mut pool = TxPool::new(MockOrdering::default(), Default::default());

    let mut tx = MockTransaction::pint_tx();
    tx.set_nonce(1);
    tx.set_fee(1);

    let vtx = factory.validate(tx);
    let on_chain_balance = U256::from(100);
    let on_chain_nonce: u64 = 0;

    let _res = pool.add_transaction(vtx.clone(), on_chain_balance, on_chain_nonce);
    assert_eq!(1, pool.parked_pool.len());

    pool.remove_transaction(vtx.id());
    assert_eq!(0, pool.pending_pool.len());
}
