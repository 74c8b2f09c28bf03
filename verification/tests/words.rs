use callchain::bytes::{push_all, push_be, push_le, push_zeros, read_u128, read_u64};
use callchain::words::{
    address_to_u256, u128_to_u256, u256_to_address, u256_to_u128, u256_to_u64, u256_to_u8,
    u64_to_u256, zero_address, zero_word, Address, U256,
};

#[test]
fn numbers_are_written_and_read_in_big_endian_order() {
    let mut out = vec![9];
    push_be(&mut out, 0x0102_0304_0506_0708, 8);
    assert_eq!(out, vec![9, 1, 2, 3, 4, 5, 6, 7, 8]);
    assert_eq!(read_u64(&out, 1), 0x0102_0304_0506_0708);
    push_be(&mut out, 0xff, 16);
    assert_eq!(read_u128(&out, 9), 0xff);
    push_zeros(&mut out, 2);
    push_all(&mut out, &[5]);
    assert_eq!(out[25..], [0, 0, 5]);
}

#[test]
fn numbers_are_written_in_little_endian_order() {
    let mut out = Vec::new();
    push_le(&mut out, 0x0102, 4);
    assert_eq!(out, vec![2, 1, 0, 0]);
}

#[test]
fn words_keep_their_bytes() {
    let bytes: Vec<u8> = (0..32).collect();
    let word = U256::from_be_slice(&bytes);
    assert_eq!(word.hi, 0x0001_0203_0405_0607_0809_0a0b_0c0d_0e0f);
    assert_eq!(word.lo, 0x1011_1213_1415_1617_1819_1a1b_1c1d_1e1f);
    assert_eq!(word.to_be_bytes(), bytes);
    let mut out = Vec::new();
    word.push_to(&mut out);
    assert_eq!(out, bytes);
    assert!(zero_word().is_zero());
    assert!(!word.is_zero());
}

#[test]
fn addresses_keep_their_bytes() {
    let bytes: Vec<u8> = (1..21).collect();
    let address = Address::from_slice(&bytes);
    assert_eq!(address.hi, 0x0102_0304);
    assert_eq!(address.to_bytes(), bytes);
    let mut out = vec![7];
    address.push_to(&mut out);
    assert_eq!(Address::read_at(&out, 1), address);
    assert!(zero_address().is_zero());
    assert!(!address.is_zero());
    assert_eq!(Address::repeat_byte(3).to_bytes(), vec![3; 20]);
}

#[test]
fn words_round_trip_what_they_hold() {
    assert_eq!(u256_to_u64(u64_to_u256(u64::MAX)), u64::MAX);
    assert_eq!(u256_to_u128(u128_to_u256(u128::MAX)), u128::MAX);
    let address = Address::repeat_byte(0xab);
    assert_eq!(u256_to_address(address_to_u256(address)), address);
    assert_eq!(address_to_u256(address).to_be_bytes()[..12], [0; 12]);
}

#[test]
fn words_lose_what_does_not_fit() {
    let word = U256 { hi: 1, lo: 0x1_0000_0000_0000_0005 };
    assert_eq!(u256_to_u64(word), 5);
    assert_eq!(u256_to_u128(word), 0x1_0000_0000_0000_0005);
    assert_eq!(u256_to_u8(U256 { hi: 0, lo: 0x1ff }), 0xff);
}

#[test]
fn word_sums_carry_and_stop_at_the_limit() {
    let top = U256 { hi: u128::MAX, lo: u128::MAX };
    let one = u64_to_u256(1);
    let low = U256 { hi: 0, lo: u128::MAX };
    assert_eq!(low.checked_add(one), Some(U256 { hi: 1, lo: 0 }));
    assert_eq!(U256 { hi: 1, lo: 0 }.checked_sub(one), Some(low));
    assert_eq!(top.checked_add(one), None);
    assert_eq!(zero_word().checked_sub(one), None);
    assert_eq!(low.offset(2), U256 { hi: 1, lo: 1 });
    assert_eq!(top.offset(1), zero_word());
}
