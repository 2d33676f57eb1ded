use autopilot::auction::{InvalidPrice, Price};
use autopilot::eth::{bytes_eq, Address, Integer, OrderUid, U256};
use autopilot::keyed::{contains_key, copy_of, find, keys_distinct};

#[test]
fn byte_arrays_compare_by_content() {
    assert!(bytes_eq(&[1u8, 2, 3], &[1u8, 2, 3]));
    assert!(!bytes_eq(&[1u8, 2, 3], &[1u8, 2, 4]));
    assert!(bytes_eq::<0>(&[], &[]));
}

#[test]
fn addresses_and_uids_compare_by_content() {
    let mut other = [7u8; 20];
    assert!(Address([7; 20]).same(&Address(other)));
    other[19] = 8;
    assert!(!Address([7; 20]).same(&Address(other)));
    let mut uid = [3u8; 56];
    assert!(OrderUid([3; 56]).same(&OrderUid(uid)));
    uid[0] = 4;
    assert!(!OrderUid([3; 56]).same(&OrderUid(uid)));
}

#[test]
fn wide_integers_are_ordered_from_the_most_significant_word() {
    let small = U256::from_words([u64::MAX, u64::MAX, u64::MAX, 0]);
    let large = U256::from_words([0, 0, 0, 1]);
    assert!(small.less_than(&large));
    assert!(!large.less_than(&small));
    assert!(!large.less_than(&large));
    let low = U256::from_words([1, 5, 0, 0]);
    let high = U256::from_words([0, 6, 0, 0]);
    assert!(low.less_than(&high));
    assert!(U256::from_u64(3).less_than(&U256::from_u64(4)));
    assert!(!U256::from_u64(4).less_than(&U256::from_u64(3)));
}

#[test]
fn wide_integers_keep_their_words() {
    let n = U256::from_words([1, 2, 3, 4]);
    assert_eq!(n.to_words(), [1, 2, 3, 4]);
    assert_eq!((n.w0, n.w1, n.w2, n.w3), (1, 2, 3, 4));
    assert!(n.same(&U256 { w0: 1, w1: 2, w2: 3, w3: 4 }));
    assert!(!n.same(&U256 { w0: 1, w1: 2, w2: 3, w3: 5 }));
}

#[test]
fn zero_is_recognised() {
    assert!(U256::zero().is_zero());
    assert!(U256::from_u64(0).is_zero());
    assert!(!U256::from_u64(1).is_zero());
    assert!(!U256::from_words([0, 0, 0, 1]).is_zero());
}

#[test]
fn signed_integers_below_zero_are_recognised() {
    assert!(!Integer::from_u64(0).is_negative());
    assert!(!Integer::from_u64(5).is_negative());
    assert!(Integer { negative: true, magnitude: U256::from_u64(5) }.is_negative());
    assert!(!Integer { negative: true, magnitude: U256::zero() }.is_negative());
}

#[test]
fn price_must_be_positive() {
    assert_eq!(Price::new(U256::zero()), Err(InvalidPrice));
    let price = Price::new(U256::from_u64(3)).unwrap();
    assert_eq!(price.get(), U256::from_u64(3));
}

#[test]
fn keys_are_found_at_their_first_position() {
    let list = vec![Address([1; 20]), Address([2; 20]), Address([1; 20])];
    assert_eq!(find(&list, &Address([1; 20])), Some(0));
    assert_eq!(find(&list, &Address([2; 20])), Some(1));
    assert_eq!(find(&list, &Address([3; 20])), None);
    assert!(contains_key(&list, &Address([2; 20])));
    assert!(!contains_key(&list, &Address([9; 20])));
}

#[test]
fn repeated_keys_are_detected() {
    assert!(keys_distinct::<Address>(&vec![]));
    assert!(keys_distinct(&vec![Address([1; 20]), Address([2; 20])]));
    assert!(!keys_distinct(&vec![Address([1; 20]), Address([2; 20]), Address([1; 20])]));
}

#[test]
fn copies_hold_the_same_items() {
    assert_eq!(copy_of(&vec![3u8, 1, 2]), vec![3u8, 1, 2]);
    assert_eq!(copy_of::<u8>(&vec![]), Vec::<u8>::new());
}
