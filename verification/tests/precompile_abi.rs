use callchain::precompiles::abi::{
    decode_address, decode_address_array, decode_bytes, decode_bytes32, decode_bytes32_array,
    decode_selector, decode_string, decode_u128, decode_u128_array, decode_u256_usize, decode_u64,
    decode_u8, encode_address, encode_u128, encode_u64, encode_u8, push_address, push_u128,
    push_u64, push_u8, read_string32, write_string32,
};
use callchain::words::{address_to_u256, u128_to_u256, u64_to_u256, Address, U256};

fn args(words: &[U256]) -> Vec<u8> {
    let mut out = vec![0xaa, 0xbb, 0xcc, 0xdd];
    for w in words {
        w.push_to(&mut out);
    }
    out
}

#[test]
fn words_of_calldata_are_read_in_place() {
    let a = Address::repeat_byte(7);
    let input = args(&[u64_to_u256(9), u128_to_u256(1 << 100), address_to_u256(a)]);
    assert_eq!(decode_selector(&input), 0xaabb_ccdd);
    assert_eq!(decode_u64(&input, 4), Some(9));
    assert_eq!(decode_u256_usize(&input, 4), Some(9));
    assert_eq!(decode_u8(&input, 4), Some(9));
    assert_eq!(decode_u128(&input, 36), Some(1 << 100));
    assert_eq!(decode_address(&input, 68), Some(a));
    assert_eq!(decode_bytes32(&input, 68), Some(address_to_u256(a)));
    assert_eq!(decode_u64(&input, 69), None);
    assert_eq!(decode_u128(&input, 69), None);
    assert_eq!(decode_address(&input, 100), None);
    assert_eq!(decode_bytes32(&input, 100), None);
}

#[test]
fn dynamic_arguments_are_followed() {
    let mut input = args(&[u64_to_u256(32), u64_to_u256(5)]);
    input.extend_from_slice("héy!".as_bytes());
    assert_eq!(decode_bytes(&input, 4), Some("héy!".as_bytes().to_vec()));
    assert_eq!(decode_string(&input, 4), Some("héy!".to_string()));
    let n = input.len();
    input[n - 1] = 0xff;
    assert_eq!(decode_string(&input, 4), None);
    assert_eq!(decode_bytes(&input[..n - 1], 4), None);
    let far = args(&[u64_to_u256(u64::MAX)]);
    assert_eq!(decode_bytes(&far, 4), None);
}

#[test]
fn arrays_are_read_item_by_item() {
    let a = Address::repeat_byte(7);
    let items = [u64_to_u256(32), u64_to_u256(2), address_to_u256(a), u64_to_u256(3)];
    let input = args(&items);
    assert_eq!(decode_bytes32_array(&input, 4), Some(items[2..].to_vec()));
    let second = Address { hi: 0, lo: 3 };
    assert_eq!(decode_address_array(&input, 4), Some(vec![a, second]));
    assert_eq!(decode_u128_array(&input, 4).unwrap()[1], 3);
    assert_eq!(decode_u128_array(&input[..input.len() - 1], 4), None);
    let many = args(&[u64_to_u256(32), u64_to_u256(u64::MAX), u64_to_u256(1)]);
    assert_eq!(decode_u128_array(&many, 4), None);
}

#[test]
fn results_are_padded_to_words() {
    assert_eq!(encode_u64(5), u64_to_u256(5).to_be_bytes());
    assert_eq!(encode_u8(5), u64_to_u256(5).to_be_bytes());
    assert_eq!(encode_u128(5), u64_to_u256(5).to_be_bytes());
    let a = Address::repeat_byte(7);
    assert_eq!(encode_address(a), address_to_u256(a).to_be_bytes());
    let mut out = Vec::new();
    push_u64(&mut out, 1);
    push_u128(&mut out, 2);
    push_u8(&mut out, 3);
    push_address(&mut out, a);
    assert_eq!(out.len(), 128);
    assert_eq!((out[31], out[63], out[95]), (1, 2, 3));
}

#[test]
fn short_strings_come_back_from_their_word() {
    for s in ["", "GOLD", "señor", "0123456789abcdef0123456789abcdef"] {
        assert_eq!(read_string32(write_string32(s)), s);
    }
    let long = "0123456789abcdef0123456789abcdefg";
    assert_eq!(read_string32(write_string32(long)), long[..32]);
    assert_eq!(read_string32(U256 { hi: u128::MAX, lo: 0 }), "");
}
