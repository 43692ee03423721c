use num_traits::{One, Zero};
use vnc::biguint::BigUint;

#[test]
fn leading_zeros_are_dropped() {
    assert_eq!(BigUint::from_bytes_be(&[0, 0, 1, 2]).to_bytes_be(), vec![1, 2]);
    assert_eq!(BigUint::from_bytes_be(&[0, 0]).to_bytes_be(), vec![0]);
    assert_eq!(BigUint::from_bytes_be(&[]).to_bytes_be(), vec![0]);
}

#[test]
fn words_become_bytes() {
    assert_eq!(BigUint::from(0u32).to_bytes_be(), vec![0]);
    assert_eq!(BigUint::from(256u32).to_bytes_be(), vec![1, 0]);
    assert_eq!(BigUint::from(0x0102_0304u32).to_bytes_be(), vec![1, 2, 3, 4]);
}

#[test]
fn remainders() {
    let n = BigUint::from(1000u32);
    assert_eq!(n.modulo(&BigUint::from(251u32)).to_bytes_be(), vec![247]);
    assert_eq!(n.modulo(&BigUint::from(1001u32)).to_bytes_be(), vec![3, 232]);
    assert_eq!(n.modulo(&BigUint::from(10u32)).to_bytes_be(), vec![0]);
}

#[test]
fn modular_powers() {
    let two = BigUint::from(2u32);
    assert_eq!(two.modpow(&BigUint::from(7u32), &BigUint::from(251u32)).to_bytes_be(), vec![128]);
    assert_eq!(two.modpow(&BigUint::from(10u32), &BigUint::from(1000u32)).to_bytes_be(), vec![24]);
    assert_eq!(two.modpow(&BigUint::from(0u32), &BigUint::from(251u32)).to_bytes_be(), vec![1]);
    assert_eq!(two.modpow(&BigUint::from(0u32), &BigUint::from(10u32)).to_bytes_be(), vec![1]);
    assert_eq!(two.modpow(&BigUint::from(0u32), &BigUint::from(1u32)).to_bytes_be(), vec![0]);
    assert_eq!(two.modpow(&BigUint::from(5u32), &BigUint::from(1u32)).to_bytes_be(), vec![0]);
}

#[test]
fn zero_and_one() {
    assert!(BigUint::from(0u32).is_zero());
    assert!(!BigUint::from(0u32).is_one());
    assert!(BigUint::from_bytes_be(&[0, 0, 1]).is_one());
    assert!(!BigUint::from(1u32).is_zero());
    assert!(!BigUint::from(256u32).is_zero());
    assert!(!BigUint::from(257u32).is_one());
}

#[test]
fn zero_and_one_in_any_spelling() {
    let spellings: [&[u8]; 8] =
        [&[], &[0], &[0, 0, 0], &[1], &[0, 1], &[1, 0], &[1, 1], &[0, 0, 0, 0, 0, 0, 0, 0, 1]];
    for bytes in spellings {
        let expected = num_bigint::BigUint::from_bytes_be(bytes);
        let n = BigUint::from_bytes_be(bytes);
        assert_eq!(n.is_zero(), expected.is_zero());
        assert_eq!(n.is_one(), expected.is_one());
    }
}
