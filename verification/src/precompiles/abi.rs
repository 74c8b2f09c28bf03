//! Contract ABI: reading arguments out of calldata and laying out results.
//!
//! An argument list is a row of 32-byte words behind a 4-byte selector. A number sits in the last
//! bytes of its word. A dynamic argument is an offset, counted from the first word, to a length
//! word with the elements behind it.

use crate::bytes::{
    be_bytes, be_nat, lemma_be_bytes_len, push_be, push_zeros, read_u128, read_u64, zeros,
};
use crate::words::{Address, U256};
use vstd::prelude::*;
use vstd::utf8::{decode_utf8, encode_utf8, valid_utf8};

verus! {

#[verifier::opaque]
pub open spec fn u64_at(input: Seq<u8>, at: int) -> u64 {
    be_nat(input.subrange(at + 24, at + 32)) as u64
}

#[verifier::opaque]
pub open spec fn u128_at(input: Seq<u8>, at: int) -> u128 {
    be_nat(input.subrange(at + 16, at + 32)) as u128
}

#[verifier::opaque]
pub open spec fn address_at(input: Seq<u8>, at: int) -> Address {
    Address::from_be(input.subrange(at + 12, at + 32))
}

#[verifier::opaque]
pub open spec fn word_at(input: Seq<u8>, at: int) -> U256 {
    U256::from_be(input.subrange(at, at + 32))
}

/// The number in the word at `slot_offset`, if the input reaches that far.
pub fn decode_u64(input: &[u8], slot_offset: usize) -> (r: Option<u64>)
    requires
        slot_offset + 32 <= usize::MAX,
    ensures
        r == if input@.len() < slot_offset + 32 {
            None
        } else {
            Some(u64_at(input@, slot_offset as int))
        },
{
    if input.len() < slot_offset + 32 {
        return None;
    }
    proof {
        reveal(u64_at);
    }
    Some(read_u64(input, slot_offset + 24))
}

pub fn decode_u128(input: &[u8], slot_offset: usize) -> (r: Option<u128>)
    requires
        slot_offset + 32 <= usize::MAX,
    ensures
        r == if input@.len() < slot_offset + 32 {
            None
        } else {
            Some(u128_at(input@, slot_offset as int))
        },
{
    if input.len() < slot_offset + 32 {
        return None;
    }
    proof {
        reveal(u128_at);
    }
    Some(read_u128(input, slot_offset + 16))
}

pub fn decode_u8(input: &[u8], slot_offset: usize) -> (r: Option<u8>)
    requires
        slot_offset + 32 <= usize::MAX,
    ensures
        r == if input@.len() < slot_offset + 32 {
            None
        } else {
            Some(input@[slot_offset + 31])
        },
{
    if input.len() < slot_offset + 32 {
        return None;
    }
    Some(input[slot_offset + 31])
}

pub fn decode_address(input: &[u8], slot_offset: usize) -> (r: Option<Address>)
    requires
        slot_offset + 32 <= usize::MAX,
    ensures
        r == if input@.len() < slot_offset + 32 {
            None
        } else {
            Some(address_at(input@, slot_offset as int))
        },
{
    if input.len() < slot_offset + 32 {
        return None;
    }
    proof {
        reveal(address_at);
    }
    Some(Address::read_at(input, slot_offset + 12))
}

/// The whole word at `slot_offset`, if the input reaches that far.
pub fn decode_bytes32(input: &[u8], slot_offset: usize) -> (r: Option<U256>)
    requires
        slot_offset + 32 <= usize::MAX,
    ensures
        r == if input@.len() < slot_offset + 32 {
            None
        } else {
            Some(word_at(input@, slot_offset as int))
        },
{
    if input.len() < slot_offset + 32 {
        return None;
    }
    let hi: u128 = read_u128(input, slot_offset);
    let lo: u128 = read_u128(input, slot_offset + 16);
    proof {
        reveal(word_at);
        let w = input@.subrange(slot_offset as int, slot_offset + 32);
        assert(w.subrange(0, 16) =~= input@.subrange(slot_offset as int, slot_offset + 16));
        assert(w.subrange(16, 32) =~= input@.subrange(slot_offset + 16, slot_offset + 32));
    }
    Some(U256 { hi, lo })
}

/// The number in the word at `slot_offset`, as a position or a length.
pub fn decode_u256_usize(input: &[u8], slot_offset: usize) -> (r: Option<u64>)
    requires
        slot_offset + 32 <= usize::MAX,
    ensures
        r == if input@.len() < slot_offset + 32 {
            None
        } else {
            Some(u64_at(input@, slot_offset as int))
        },
{
    decode_u64(input, slot_offset)
}

/// Where a dynamic argument lies: the position behind its length word, and its length.
pub struct Extent {
    pub start: usize,
    pub len: usize,
}

/// Where the elements of the dynamic argument at `slot` start, and how many there are, if the
/// input holds all of them at `unit` bytes each.
pub open spec fn extent_at(input: Seq<u8>, slot: int, unit: int) -> Option<(int, int)> {
    if input.len() < slot + 32 {
        None
    } else {
        let head = 4 + u64_at(input, slot);
        if input.len() < head + 32 {
            None
        } else {
            let n = u64_at(input, head);
            if input.len() < head + 32 + n * unit {
                None
            } else {
                Some((head + 32, n as int))
            }
        }
    }
}

fn decode_extent(input: &[u8], slot_offset: usize, unit: u8) -> (r: Option<Extent>)
    requires
        slot_offset + 32 <= usize::MAX,
        unit > 0,
    ensures
        match r {
            Some(e) => extent_at(input@, slot_offset as int, unit as int) == Some(
                (e.start as int, e.len as int),
            ) && e.start + e.len * unit <= input@.len(),
            None => extent_at(input@, slot_offset as int, unit as int) is None,
        },
{
    let total: u128 = input.len() as u128;
    match decode_u256_usize(input, slot_offset) {
        None => None,
        Some(offset) => {
            let head: u128 = 4 + offset as u128;
            if total < head + 32 {
                return None;
            }
            let n: u64 = match decode_u256_usize(input, head as usize) {
                Some(n) => n,
                None => {
                    return None;
                },
            };
            proof {
                assert(n as int * unit as int <= 0xffff_ffff_ffff_ffff * 0xff) by (nonlinear_arith)
                    requires
                        0 <= n <= 0xffff_ffff_ffff_ffff,
                        0 <= unit <= 0xff,
                ;
                assert(0 <= n as int * unit as int) by (nonlinear_arith);
            }
            if total < head + 32 + n as u128 * unit as u128 {
                return None;
            }
            proof {
                assert(n as int <= n as int * unit as int) by (nonlinear_arith)
                    requires
                        unit >= 1,
                ;
            }
            Some(Extent { start: head as usize + 32, len: n as usize })
        },
    }
}

pub open spec fn bytes_at(input: Seq<u8>, slot: int) -> Option<Seq<u8>> {
    match extent_at(input, slot, 1) {
        Some((start, n)) => Some(input.subrange(start, start + n)),
        None => None,
    }
}

/// The dynamic byte string at `slot_offset`.
pub fn decode_bytes(input: &[u8], slot_offset: usize) -> (r: Option<Vec<u8>>)
    requires
        slot_offset + 32 <= usize::MAX,
    ensures
        match r {
            Some(v) => bytes_at(input@, slot_offset as int) == Some(v@),
            None => bytes_at(input@, slot_offset as int) is None,
        },
{
    match decode_extent(input, slot_offset, 1) {
        None => None,
        Some(e) => {
            let mut out: Vec<u8> = Vec::new();
            let mut i: usize = 0;
            while i < e.len
                invariant
                    i <= e.len,
                    e.start + e.len <= input.len(),
                    out@ == input@.subrange(e.start as int, e.start + i),
                decreases e.len - i,
            {
                out.push(input[e.start + i]);
                i += 1;
            }
            Some(out)
        },
    }
}

/// `String::from_utf8` of the standard library: the string that the bytes encode, or an error
/// where they are not UTF-8.
#[verifier::external_body]
fn utf8_string(bytes: Vec<u8>) -> (r: Result<String, std::string::FromUtf8Error>)
    ensures
        r is Ok <==> valid_utf8(bytes@),
        r matches Ok(s) ==> s@ == decode_utf8(bytes@),
{
    String::from_utf8(bytes)
}

/// The error of `String::from_utf8`.
#[verifier::external_type_specification]
#[verifier::external_body]
pub struct ExFromUtf8Error(std::string::FromUtf8Error);

pub open spec fn string_at(input: Seq<u8>, slot: int) -> Option<Seq<char>> {
    match bytes_at(input, slot) {
        Some(b) => if valid_utf8(b) {
            Some(decode_utf8(b))
        } else {
            None
        },
        None => None,
    }
}

/// The dynamic string at `slot_offset`.
pub fn decode_string(input: &[u8], slot_offset: usize) -> (r: Option<String>)
    requires
        slot_offset + 32 <= usize::MAX,
    ensures
        match r {
            Some(s) => string_at(input@, slot_offset as int) == Some(s@),
            None => string_at(input@, slot_offset as int) is None,
        },
{
    match decode_bytes(input, slot_offset) {
        Some(b) => utf8_string(b).ok(),
        None => None,
    }
}

pub open spec fn words_at(input: Seq<u8>, slot: int) -> Option<Seq<U256>> {
    match extent_at(input, slot, 32) {
        Some((start, n)) => Some(Seq::new(n as nat, |i: int| word_at(input, start + i * 32))),
        None => None,
    }
}

/// The dynamic array of words at `slot_offset`.
pub fn decode_bytes32_array(input: &[u8], slot_offset: usize) -> (r: Option<Vec<U256>>)
    requires
        slot_offset + 32 <= usize::MAX,
    ensures
        match r {
            Some(v) => words_at(input@, slot_offset as int) == Some(v@),
            None => words_at(input@, slot_offset as int) is None,
        },
{
    match decode_extent(input, slot_offset, 32) {
        None => None,
        Some(e) => {
            let mut out: Vec<U256> = Vec::new();
            let mut i: usize = 0;
            while i < e.len
                invariant
                    i <= e.len,
                    e.start + e.len * 32 <= input.len(),
                    out@ == Seq::new(i as nat, |j: int| word_at(input@, e.start + j * 32)),
                decreases e.len - i,
            {
                match decode_bytes32(input, e.start + i * 32) {
                    Some(w) => out.push(w),
                    None => {
                        return None;
                    },
                }
                i += 1;
            }
            Some(out)
        },
    }
}

pub open spec fn addresses_at(input: Seq<u8>, slot: int) -> Option<Seq<Address>> {
    match extent_at(input, slot, 32) {
        Some((start, n)) => Some(Seq::new(n as nat, |i: int| address_at(input, start + i * 32))),
        None => None,
    }
}

/// The dynamic array of addresses at `slot_offset`.
pub fn decode_address_array(input: &[u8], slot_offset: usize) -> (r: Option<Vec<Address>>)
    requires
        slot_offset + 32 <= usize::MAX,
    ensures
        match r {
            Some(v) => addresses_at(input@, slot_offset as int) == Some(v@),
            None => addresses_at(input@, slot_offset as int) is None,
        },
{
    match decode_extent(input, slot_offset, 32) {
        None => None,
        Some(e) => {
            let mut out: Vec<Address> = Vec::new();
            let mut i: usize = 0;
            while i < e.len
                invariant
                    i <= e.len,
                    e.start + e.len * 32 <= input.len(),
                    out@ == Seq::new(i as nat, |j: int| address_at(input@, e.start + j * 32)),
                decreases e.len - i,
            {
                match decode_address(input, e.start + i * 32) {
                    Some(a) => out.push(a),
                    None => {
                        return None;
                    },
                }
                i += 1;
            }
            Some(out)
        },
    }
}

pub open spec fn amounts_at(input: Seq<u8>, slot: int) -> Option<Seq<u128>> {
    match extent_at(input, slot, 32) {
        Some((start, n)) => Some(Seq::new(n as nat, |i: int| u128_at(input, start + i * 32))),
        None => None,
    }
}

/// The dynamic array of amounts at `slot_offset`.
pub fn decode_u128_array(input: &[u8], slot_offset: usize) -> (r: Option<Vec<u128>>)
    requires
        slot_offset + 32 <= usize::MAX,
    ensures
        match r {
            Some(v) => amounts_at(input@, slot_offset as int) == Some(v@),
            None => amounts_at(input@, slot_offset as int) is None,
        },
{
    match decode_extent(input, slot_offset, 32) {
        None => None,
        Some(e) => {
            let mut out: Vec<u128> = Vec::new();
            let mut i: usize = 0;
            while i < e.len
                invariant
                    i <= e.len,
                    e.start + e.len * 32 <= input.len(),
                    out@ == Seq::new(i as nat, |j: int| u128_at(input@, e.start + j * 32)),
                decreases e.len - i,
            {
                match decode_u128(input, e.start + i * 32) {
                    Some(v) => out.push(v),
                    None => {
                        return None;
                    },
                }
                i += 1;
            }
            Some(out)
        },
    }
}

/// The first four bytes of calldata, as a number.
pub open spec fn selector_of(calldata: Seq<u8>) -> u32 {
    (((calldata[0] * 0x100 + calldata[1]) * 0x100 + calldata[2]) * 0x100 + calldata[3]) as u32
}

pub fn decode_selector(calldata: &[u8]) -> (r: u32)
    requires
        calldata@.len() >= 4,
    ensures
        r == selector_of(calldata@),
{
    ((calldata[0] as u32 * 0x100 + calldata[1] as u32) * 0x100 + calldata[2] as u32) * 0x100
        + calldata[3] as u32
}

/// The word of a number, as bytes.
pub open spec fn number_word(v: nat, width: nat) -> Seq<u8> {
    zeros((32 - width) as nat) + be_bytes(v, width)
}

pub proof fn lemma_number_word_len(v: nat, width: nat)
    requires
        width <= 32,
    ensures
        number_word(v, width).len() == 32,
{
    lemma_be_bytes_len(v, width);
}

pub open spec fn address_word_bytes(a: Address) -> Seq<u8> {
    zeros(12) + a.bytes()
}

fn push_number(out: &mut Vec<u8>, v: u128, width: usize)
    requires
        width <= 32,
    ensures
        final(out)@ == old(out)@ + number_word(v as nat, width as nat),
{
    push_zeros(out, 32 - width);
    push_be(out, v, width);
}

pub fn push_u128(out: &mut Vec<u8>, v: u128)
    ensures
        final(out)@ == old(out)@ + number_word(v as nat, 16),
{
    push_number(out, v, 16);
}

pub fn push_u64(out: &mut Vec<u8>, v: u64)
    ensures
        final(out)@ == old(out)@ + number_word(v as nat, 8),
{
    push_number(out, v as u128, 8);
}

pub fn push_u8(out: &mut Vec<u8>, v: u8)
    ensures
        final(out)@ == old(out)@ + number_word(v as nat, 1),
{
    push_number(out, v as u128, 1);
}

pub fn push_address(out: &mut Vec<u8>, a: Address)
    ensures
        final(out)@ == old(out)@ + address_word_bytes(a),
{
    push_zeros(out, 12);
    a.push_to(out);
}

pub fn encode_u128(v: u128) -> (r: Vec<u8>)
    ensures
        r@ == number_word(v as nat, 16),
{
    let mut out: Vec<u8> = Vec::new();
    push_u128(&mut out, v);
    out
}

pub fn encode_u64(v: u64) -> (r: Vec<u8>)
    ensures
        r@ == number_word(v as nat, 8),
{
    let mut out: Vec<u8> = Vec::new();
    push_u64(&mut out, v);
    out
}

pub fn encode_u8(v: u8) -> (r: Vec<u8>)
    ensures
        r@ == number_word(v as nat, 1),
{
    let mut out: Vec<u8> = Vec::new();
    push_u8(&mut out, v);
    out
}

pub fn encode_address(a: Address) -> (r: Vec<u8>)
    ensures
        r@ == address_word_bytes(a),
{
    let mut out: Vec<u8> = Vec::new();
    push_address(&mut out, a);
    out
}

/// The 32 bytes that hold the beginning of a byte string, padded with zeros.
pub open spec fn padded32(s: Seq<u8>) -> Seq<u8> {
    if s.len() >= 32 {
        s.subrange(0, 32)
    } else {
        s + zeros((32 - s.len()) as nat)
    }
}

/// The word that holds the first 32 bytes of a string.
pub open spec fn string_word(s: Seq<char>) -> U256 {
    U256::from_be(padded32(encode_utf8(s)))
}

pub fn write_string32(s: &str) -> (r: U256)
    ensures
        r == string_word(s@),
{
    let bytes = s.as_bytes();
    let mut out: Vec<u8> = Vec::new();
    let mut i: usize = 0;
    while i < 32
        invariant
            i <= 32,
            bytes@ == encode_utf8(s@),
            out@.len() == i,
            forall|j: int| 0 <= j < i ==> out@[j] == padded32(bytes@)[j],
        decreases 32 - i,
    {
        if i < bytes.len() {
            out.push(bytes[i]);
        } else {
            out.push(0u8);
        }
        i += 1;
    }
    proof {
        assert(out@ =~= padded32(bytes@));
    }
    U256::from_be_slice(out.as_slice())
}

/// How many bytes of `s` come before its first zero byte.
pub open spec fn text_len(s: Seq<u8>) -> int
    decreases s.len(),
{
    if s.len() == 0 || s[0] == 0 {
        0
    } else {
        1 + text_len(s.subrange(1, s.len() as int))
    }
}

/// The string in a word: its bytes before the first zero byte; empty where they are not UTF-8.
pub open spec fn string_of(v: U256) -> Seq<char> {
    let b = v.bytes().subrange(0, text_len(v.bytes()));
    if valid_utf8(b) {
        decode_utf8(b)
    } else {
        Seq::empty()
    }
}

pub proof fn lemma_text_len(s: Seq<u8>, n: int)
    requires
        0 <= n <= s.len(),
        forall|i: int| 0 <= i < n ==> #[trigger] s[i] != 0,
        n < s.len() ==> s[n] == 0,
    ensures
        text_len(s) == n,
    decreases n,
{
    if n > 0 {
        let t = s.subrange(1, s.len() as int);
        assert(s[0] != 0);
        assert forall|i: int| 0 <= i < n - 1 implies #[trigger] t[i] != 0 by {
            assert(t[i] == s[i + 1]);
        }
        lemma_text_len(t, n - 1);
    }
}

pub fn read_string32(v: U256) -> (r: String)
    ensures
        r@ == string_of(v),
{
    let bytes = v.to_be_bytes();
    proof {
        crate::words::lemma_word_from_be_of_bytes(v);
    }
    let mut out: Vec<u8> = Vec::new();
    let mut i: usize = 0;
    while i < 32 && bytes[i] != 0
        invariant
            i <= 32,
            bytes@.len() == 32,
            out@ == bytes@.subrange(0, i as int),
            forall|j: int| 0 <= j < i ==> #[trigger] bytes@[j] != 0,
        decreases 32 - i,
    {
        out.push(bytes[i]);
        i += 1;
    }
    proof {
        lemma_text_len(bytes@, i as int);
    }
    match utf8_string(out) {
        Ok(s) => s,
        Err(_) => String::new(),
    }
}

/// A string of at most 32 bytes without a zero byte comes back from its word.
pub proof fn law_string_word_round_trip(s: Seq<char>)
    requires
        encode_utf8(s).len() <= 32,
        forall|i: int| 0 <= i < encode_utf8(s).len() ==> #[trigger] encode_utf8(s)[i] != 0,
    ensures
        string_of(string_word(s)) == s,
{
    let b = encode_utf8(s);
    let p = padded32(b);
    assert(p.len() == 32);
    crate::words::lemma_word_bytes_of_from_be(p);
    assert forall|i: int| 0 <= i < b.len() implies #[trigger] p[i] != 0 by {
        assert(p[i] == b[i]);
    }
    lemma_text_len(p, b.len() as int);
    assert(p.subrange(0, b.len() as int) =~= b);
    vstd::utf8::encode_utf8_valid_utf8(s);
    vstd::utf8::encode_utf8_decode_utf8(s);
}

} // verus!
