use transaction_pool::ordering::{PintOrdering, Priority};
use transaction_pool::primitives::types::{Address, B256, U256};
use transaction_pool::primitives::signed::Recovered;
use transaction_pool::primitives::utils::normalize_v;
use transaction_pool::traits::PintPooledTransaction;

#[test]
fn make_block() {}

#[test]
fn u256_compares_as_numbers() {
    let two = U256::from(2);
    let three = U256::from(3);
    assert!(two.lt(&three));
    assert!(two.le(&three));
    assert!(!three.le(&two));
    assert!(three.le(&three));
    assert!(!three.lt(&three));

    // a value with a high limb outranks any low-limb value
    let big = U256 { hi: 1, lo: 0 };
    let small = U256 { hi: 0, lo: u128::MAX };
    assert!(small.lt(&big));
}

#[test]
fn u256_checked_add_carries_and_overflows() {
    // carry out of the low limb
    let a = U256 { hi: 0, lo: u128::MAX };
    let b = U256::from(1);
    let sum = a.checked_add(b).unwrap();
    assert_eq!(sum, U256 { hi: 1, lo: 0 });

    // no room past the top
    let max = U256::max_value();
    assert!(max.checked_add(U256::from(1)).is_none());
    assert_eq!(max.checked_add(U256::zero()).unwrap(), max);

    // plain addition
    let c = U256::from(40).checked_add(U256::from(2)).unwrap();
    assert_eq!(c, U256::from(42));
}

#[test]
fn u256_zero_and_default() {
    assert!(U256::zero().is_zero());
    assert!(U256::default().is_zero());
    assert!(!U256::from(7).is_zero());
}

#[test]
fn address_bytes_round_trip() {
    let mut raw = [0u8; 20];
    let mut i: usize = 0;
    while i < 20 {
        raw[i] = (i as u8) * 3 + 1;
        i += 1;
    }
    let addr = Address::from_byte(raw);
    assert_eq!(addr.get_addr(), raw.to_vec());

    let other = Address::from_byte([9; 20]);
    assert_ne!(addr, other);
    assert_eq!(addr, Address::from_byte(raw));
}

#[test]
fn b256_equality_is_by_value() {
    assert_eq!(B256::from_u128(7), B256::new(0, 7));
    assert_ne!(B256::from_u128(7), B256::from_u128(8));
}

#[test]
fn random_identifiers_differ() {
    // two draws of 256 bits collide with vanishing probability
    assert_ne!(B256::random(), B256::random());
    assert_ne!(Address::random(), Address::random());
}

#[test]
fn priority_orders_values_above_missing() {
    let none = Priority::Missing;
    let low = Priority::Value(U256::from(1));
    let high = Priority::Value(U256::from(2));
    assert!(none.le(&low));
    assert!(low.le(&high));
    assert!(!high.le(&low));
    assert!(low.le(&low));
    assert!(!low.le(&none));
}

#[test]
fn ordering_ranks_by_advertised_fee() {
    let tx = PintPooledTransaction {
        tx_type: 0,
        chain_id: 1,
        hash: B256::from_u128(1),
        sender: Address::from_byte([1; 20]),
        fee: 5,
        nonce: 0,
        value: U256::zero(),
    };
    let ordering = PintOrdering::default();
    assert_eq!(ordering.priority(&tx), Priority::Value(U256::from(5)));
}

#[test]
fn recovered_exposes_its_signer_and_fields() {
    let signer = Address::from_byte([4; 20]);
    let tx = PintPooledTransaction {
        tx_type: 0,
        chain_id: 9,
        hash: B256::from_u128(2),
        sender: signer,
        fee: 3,
        nonce: 8,
        value: U256::from(6),
    };
    let recovered = Recovered::new_unchecked(tx, signer);
    assert_eq!(recovered.signer(), signer);
    assert_eq!(recovered.chain_id(), 9);
    assert_eq!(recovered.nonce(), 8);
    assert_eq!(recovered.value(), U256::from(6));
    assert_eq!(recovered.get_priority(), Some(3));
    assert_eq!(recovered.inner().hash, tx.hash);
}

#[test]
fn normalize_v_accepts_only_parities() {
    assert_eq!(normalize_v(0), Some(false));
    assert_eq!(normalize_v(1), Some(true));
    assert_eq!(normalize_v(2), None);
    assert_eq!(normalize_v(u64::MAX), None);
}
