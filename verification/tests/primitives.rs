use artemis::primitives::{Address, U256};

#[test]
fn zero_address_is_zero() {
    assert!(Address::zero().is_zero());
    assert_eq!(Address::zero().bytes, [0u8; 20]);
}

#[test]
fn address_with_one_set_byte_is_not_zero() {
    let mut bytes = [0u8; 20];
    bytes[19] = 1;
    assert!(!Address { bytes }.is_zero());
    let mut bytes = [0u8; 20];
    bytes[0] = 0x80;
    assert!(!Address { bytes }.is_zero());
}

#[test]
fn addresses_compare_by_bytes() {
    let mut a = [7u8; 20];
    let b = [7u8; 20];
    assert!(Address { bytes: a } == Address { bytes: b });
    a[10] = 8;
    assert!(Address { bytes: a } != Address { bytes: b });
    a[10] = 7;
    a[19] = 0;
    assert!(Address { bytes: a } != Address { bytes: b });
}

#[test]
fn amounts_from_integers() {
    assert_eq!(U256::zero(), U256 { hi: 0, lo: 0 });
    assert_eq!(U256::from_u64(42), U256 { hi: 0, lo: 42 });
    assert_eq!(U256::from_u64(u64::MAX), U256 { hi: 0, lo: u64::MAX as u128 });
    assert_eq!(U256::from_u128(u128::MAX), U256 { hi: 0, lo: u128::MAX });
}

#[test]
fn amounts_order_by_high_half_first() {
    let small = U256 { hi: 0, lo: u128::MAX };
    let large = U256 { hi: 1, lo: 0 };
    assert!(small.lt(&large));
    assert!(small.le(&large));
    assert!(!large.lt(&small));
    assert!(!large.le(&small));
}

#[test]
fn equal_amounts_are_le_but_not_lt() {
    let a = U256 { hi: 3, lo: 9 };
    assert!(a.le(&a));
    assert!(!a.lt(&a));
}

#[test]
fn amounts_order_by_low_half_when_high_halves_agree() {
    let a = U256 { hi: 5, lo: 1 };
    let b = U256 { hi: 5, lo: 2 };
    assert!(a.lt(&b));
    assert!(a.le(&b));
    assert!(!b.lt(&a));
    assert!(!b.le(&a));
}

#[test]
fn sub_without_borrow() {
    let a = U256 { hi: 7, lo: 100 };
    let b = U256 { hi: 2, lo: 40 };
    assert_eq!(a.sub(&b), U256 { hi: 5, lo: 60 });
}

#[test]
fn sub_borrows_from_the_high_half() {
    let a = U256 { hi: 1, lo: 0 };
    let b = U256 { hi: 0, lo: 1 };
    assert_eq!(a.sub(&b), U256 { hi: 0, lo: u128::MAX });
    let a = U256 { hi: 9, lo: 5 };
    let b = U256 { hi: 3, lo: 6 };
    assert_eq!(a.sub(&b), U256 { hi: 5, lo: u128::MAX });
}

#[test]
fn sub_of_itself_is_zero() {
    let a = U256 { hi: u128::MAX, lo: u128::MAX };
    assert_eq!(a.sub(&a), U256::zero());
}
