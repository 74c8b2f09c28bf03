//! Machine words of the ledger: 256-bit storage words and 160-bit account addresses.

use crate::bytes::{
    be_bytes, be_nat, lemma_base_values, lemma_be_bytes_len, lemma_be_nat_bound, push_be, read_u128,
};
use vstd::prelude::*;

verus! {

/// A 256-bit word, held as its high and its low 128 bits.
#[derive(Clone, Copy, Debug, PartialEq, Eq, Hash, Structural)]
pub struct U256 {
    pub hi: u128,
    pub lo: u128,
}

/// A 160-bit account address, held as its high 32 and its low 128 bits.
#[derive(Clone, Copy, Debug, PartialEq, Eq, Hash, Structural)]
pub struct Address {
    pub hi: u32,
    pub lo: u128,
}

/// `2^128`.
pub open spec fn limb() -> int {
    0x1_0000_0000_0000_0000_0000_0000_0000_0000int
}

/// The word that is zero in every bit.
#[verifier::allow_in_spec]
pub fn zero_word() -> U256
    returns
        (U256 { hi: 0, lo: 0 }),
{
    U256 { hi: 0, lo: 0 }
}

/// The address that is zero in every bit.
#[verifier::allow_in_spec]
pub fn zero_address() -> Address
    returns
        (Address { hi: 0, lo: 0 }),
{
    Address { hi: 0, lo: 0 }
}

impl U256 {
    /// The number that the word stands for.
    pub open spec fn value(self) -> int {
        self.hi * limb() + self.lo
    }

    /// The 32 bytes of the word, most significant first.
    pub open spec fn bytes(self) -> Seq<u8> {
        be_bytes(self.hi as nat, 16) + be_bytes(self.lo as nat, 16)
    }

    /// The word that 32 bytes spell.
    pub open spec fn from_be(s: Seq<u8>) -> U256 {
        U256 {
            hi: be_nat(s.subrange(0, 16)) as u128,
            lo: be_nat(s.subrange(16, 32)) as u128,
        }
    }

    /// Reads a word from its 32 bytes.
    pub fn from_be_slice(s: &[u8]) -> (r: U256)
        requires
            s@.len() == 32,
        ensures
            r == Self::from_be(s@),
    {
        U256 { hi: read_u128(s, 0), lo: read_u128(s, 16) }
    }

    /// Appends the 32 bytes of the word to `out`.
    pub fn push_to(self, out: &mut Vec<u8>)
        ensures
            final(out)@ == old(out)@ + self.bytes(),
    {
        push_be(out, self.hi, 16);
        push_be(out, self.lo, 16);
    }

    /// The 32 bytes of the word.
    pub fn to_be_bytes(self) -> (r: Vec<u8>)
        ensures
            r@ == self.bytes(),
    {
        let mut out: Vec<u8> = Vec::new();
        self.push_to(&mut out);
        out
    }

    pub fn is_zero(self) -> (r: bool)
        ensures
            r == (self == zero_word()),
    {
        self.hi == 0 && self.lo == 0
    }

    /// The word whose 32 bytes are all `b`.
    pub fn repeat_byte(b: u8) -> (r: U256)
        ensures
            r.bytes() == Seq::new(32, |i: int| b),
    {
        let mut out: Vec<u8> = Vec::new();
        let mut i: usize = 0;
        while i < 32
            invariant
                i <= 32,
                out@ == Seq::new(i as nat, |j: int| b),
            decreases 32 - i,
        {
            out.push(b);
            i += 1;
        }
        proof {
            lemma_word_bytes_of_from_be(out@);
        }
        U256::from_be_slice(out.as_slice())
    }

    /// The sum, if it fits 256 bits.
    pub fn checked_add(self, other: U256) -> (r: Option<U256>)
        ensures
            r matches Some(s) ==> s.value() == self.value() + other.value(),
            r is Some <==> self.value() + other.value() < limb() * limb(),
    {
        let carry: u128 = if self.lo > u128::MAX - other.lo { 1 } else { 0 };
        let lo: u128 = self.lo.wrapping_add(other.lo);
        proof {
            lemma_add_halves(self, other);
        }
        match self.hi.checked_add(other.hi) {
            None => None,
            Some(h) => match h.checked_add(carry) {
                None => None,
                Some(hi) => Some(U256 { hi, lo }),
            },
        }
    }

    /// The difference, if it is not negative.
    pub fn checked_sub(self, other: U256) -> (r: Option<U256>)
        ensures
            r matches Some(d) ==> d.value() == self.value() - other.value(),
            r is Some <==> self.value() >= other.value(),
    {
        proof {
            lemma_order_halves(self, other);
        }
        if self.hi < other.hi || (self.hi == other.hi && self.lo < other.lo) {
            None
        } else {
            let borrow: u128 = if self.lo < other.lo { 1 } else { 0 };
            let lo: u128 = self.lo.wrapping_sub(other.lo);
            Some(U256 { hi: self.hi - other.hi - borrow, lo })
        }
    }

    /// The word `n` places after this one, counting round past the largest word.
    pub open spec fn plus(self, n: u64) -> U256 {
        if self.lo + n < limb() {
            U256 { hi: self.hi, lo: (self.lo + n) as u128 }
        } else {
            U256 {
                hi: if self.hi == u128::MAX { 0 } else { (self.hi + 1) as u128 },
                lo: (self.lo + n - limb()) as u128,
            }
        }
    }

    pub fn offset(self, n: u64) -> (r: U256)
        ensures
            r == self.plus(n),
    {
        if self.lo <= u128::MAX - n as u128 {
            U256 { hi: self.hi, lo: self.lo + n as u128 }
        } else {
            let hi: u128 = if self.hi == u128::MAX { 0 } else { self.hi + 1 };
            U256 { hi, lo: n as u128 - (u128::MAX - self.lo) - 1 }
        }
    }
}

impl Address {
    /// The 20 bytes of the address, most significant first.
    pub open spec fn bytes(self) -> Seq<u8> {
        be_bytes(self.hi as nat, 4) + be_bytes(self.lo as nat, 16)
    }

    /// The address that 20 bytes spell.
    pub open spec fn from_be(s: Seq<u8>) -> Address {
        Address {
            hi: be_nat(s.subrange(0, 4)) as u32,
            lo: be_nat(s.subrange(4, 20)) as u128,
        }
    }

    /// Reads an address from its 20 bytes.
    pub fn from_slice(s: &[u8]) -> (r: Address)
        requires
            s@.len() == 20,
        ensures
            r == Self::from_be(s@),
    {
        proof {
            assert(s@.subrange(0, 20) =~= s@);
        }
        Address::read_at(s, 0)
    }

    /// Reads the address held in `s[at..at + 20]`.
    pub fn read_at(s: &[u8], at: usize) -> (r: Address)
        requires
            at + 20 <= s.len(),
        ensures
            r == Self::from_be(s@.subrange(at as int, at + 20)),
    {
        let hi: u32 = ((s[at] as u32 * 256 + s[at + 1] as u32) * 256 + s[at + 2] as u32) * 256
            + s[at + 3] as u32;
        let lo: u128 = read_u128(s, at + 4);
        proof {
            let w = s@.subrange(at as int, at + 20);
            let top = w.subrange(0, 4);
            reveal_with_fuel(be_nat, 5);
            assert(top.drop_last().last() == s@[at + 2]);
            assert(top.drop_last().drop_last().last() == s@[at + 1]);
            assert(top.drop_last().drop_last().drop_last().last() == s@[at as int]);
            assert(be_nat(top) == hi);
            assert(w.subrange(4, 20) =~= s@.subrange(at + 4, at + 20));
        }
        Address { hi, lo }
    }

    /// Appends the 20 bytes of the address to `out`.
    pub fn push_to(self, out: &mut Vec<u8>)
        ensures
            final(out)@ == old(out)@ + self.bytes(),
    {
        push_be(out, self.hi as u128, 4);
        push_be(out, self.lo, 16);
    }

    /// The 20 bytes of the address.
    pub fn to_bytes(self) -> (r: Vec<u8>)
        ensures
            r@ == self.bytes(),
    {
        let mut out: Vec<u8> = Vec::new();
        self.push_to(&mut out);
        out
    }

    /// The address whose 20 bytes are all `b`.
    pub fn repeat_byte(b: u8) -> (r: Address)
        ensures
            r.bytes() == Seq::new(20, |i: int| b),
    {
        let mut out: Vec<u8> = Vec::new();
        let mut i: usize = 0;
        while i < 20
            invariant
                i <= 20,
                out@ == Seq::new(i as nat, |j: int| b),
            decreases 20 - i,
        {
            out.push(b);
            i += 1;
        }
        proof {
            lemma_address_bytes_of_from_be(out@);
        }
        Address::from_slice(out.as_slice())
    }

    pub fn is_zero(self) -> (r: bool)
        ensures
            r == (self == zero_address()),
    {
        self.hi == 0 && self.lo == 0
    }
}

proof fn lemma_add_halves(a: U256, b: U256)
    ensures
        ({
            let lo = a.lo + b.lo;
            let carry: int = if lo >= limb() { 1 } else { 0 };
            &&& a.value() + b.value() == (a.hi + b.hi + carry) * limb() + (lo - carry * limb())
            &&& (a.value() + b.value() < limb() * limb() <==> a.hi + b.hi + carry < limb())
        }),
{
    let lo = a.lo + b.lo;
    let carry: int = if lo >= limb() { 1 } else { 0 };
    let h = a.hi + b.hi + carry;
    let r = lo - carry * limb();
    let l = limb();
    assert(a.hi * l + b.hi * l + carry * l == h * l) by (nonlinear_arith)
        requires
            h == a.hi + b.hi + carry,
    ;
    if h < l {
        assert(h * l + r < l * l) by (nonlinear_arith)
            requires
                h + 1 <= l,
                0 <= r < l,
        ;
    } else {
        assert(h * l + r >= l * l) by (nonlinear_arith)
            requires
                h >= l,
                0 <= r,
                l > 0,
        ;
    }
}

proof fn lemma_order_halves(a: U256, b: U256)
    ensures
        a.value() < b.value() <==> a.hi < b.hi || (a.hi == b.hi && a.lo < b.lo),
{
    let l = limb();
    if a.hi < b.hi {
        assert(a.hi * l + l <= b.hi * l) by (nonlinear_arith)
            requires
                a.hi + 1 <= b.hi,
                l > 0,
        ;
    } else if a.hi > b.hi {
        assert(b.hi * l + l <= a.hi * l) by (nonlinear_arith)
            requires
                b.hi + 1 <= a.hi,
                l > 0,
        ;
    }
}

/// A word read from 32 bytes has those bytes.
pub proof fn lemma_word_bytes_of_from_be(s: Seq<u8>)
    requires
        s.len() == 32,
    ensures
        U256::from_be(s).bytes() == s,
{
    lemma_base_values();
    let a = s.subrange(0, 16);
    let b = s.subrange(16, 32);
    lemma_be_nat_bound(a);
    lemma_be_nat_bound(b);
    crate::bytes::lemma_write_of_read(a);
    crate::bytes::lemma_write_of_read(b);
    assert(a + b =~= s);
}

/// A word read from its own bytes is the word.
pub proof fn lemma_word_from_be_of_bytes(w: U256)
    ensures
        w.bytes().len() == 32,
        U256::from_be(w.bytes()) == w,
{
    lemma_base_values();
    lemma_be_bytes_len(w.hi as nat, 16);
    lemma_be_bytes_len(w.lo as nat, 16);
    crate::bytes::lemma_read_of_write(w.hi as nat, 16);
    crate::bytes::lemma_read_of_write(w.lo as nat, 16);
    assert(w.bytes().subrange(0, 16) =~= be_bytes(w.hi as nat, 16));
    assert(w.bytes().subrange(16, 32) =~= be_bytes(w.lo as nat, 16));
}

/// An address read from 20 bytes has those bytes.
pub proof fn lemma_address_bytes_of_from_be(s: Seq<u8>)
    requires
        s.len() == 20,
    ensures
        Address::from_be(s).bytes() == s,
{
    lemma_base_values();
    let a = s.subrange(0, 4);
    let b = s.subrange(4, 20);
    lemma_be_nat_bound(a);
    lemma_be_nat_bound(b);
    crate::bytes::lemma_write_of_read(a);
    crate::bytes::lemma_write_of_read(b);
    assert(a + b =~= s);
}

/// An address read from its own bytes is the address.
pub proof fn lemma_address_from_be_of_bytes(a: Address)
    ensures
        a.bytes().len() == 20,
        Address::from_be(a.bytes()) == a,
{
    lemma_base_values();
    lemma_be_bytes_len(a.hi as nat, 4);
    lemma_be_bytes_len(a.lo as nat, 16);
    crate::bytes::lemma_read_of_write(a.hi as nat, 4);
    crate::bytes::lemma_read_of_write(a.lo as nat, 16);
    assert(a.bytes().subrange(0, 4) =~= be_bytes(a.hi as nat, 4));
    assert(a.bytes().subrange(4, 20) =~= be_bytes(a.lo as nat, 16));
}

/// The low 64 bits of a word.
pub open spec fn u64_of(v: U256) -> u64 {
    (v.lo % 0x1_0000_0000_0000_0000) as u64
}

/// The last byte of a word.
pub open spec fn u8_of(v: U256) -> u8 {
    (v.lo % 0x100) as u8
}

/// The low 160 bits of a word, as an address.
pub open spec fn address_of(v: U256) -> Address {
    Address { hi: (v.hi % 0x1_0000_0000) as u32, lo: v.lo }
}

/// The word of a number below `2^128`.
pub open spec fn word(v: u128) -> U256 {
    U256 { hi: 0, lo: v }
}

/// The word of an address.
pub open spec fn address_word(a: Address) -> U256 {
    U256 { hi: a.hi as u128, lo: a.lo }
}

pub fn u256_to_u64(v: U256) -> (r: u64)
    ensures
        r == u64_of(v),
{
    (v.lo % 0x1_0000_0000_0000_0000) as u64
}

pub fn u256_to_u128(v: U256) -> (r: u128)
    ensures
        r == v.lo,
{
    v.lo
}

pub fn u256_to_u8(v: U256) -> (r: u8)
    ensures
        r == u8_of(v),
{
    (v.lo % 0x100) as u8
}

pub fn u256_to_address(v: U256) -> (r: Address)
    ensures
        r == address_of(v),
{
    Address { hi: (v.hi % 0x1_0000_0000) as u32, lo: v.lo }
}

pub fn u64_to_u256(v: u64) -> (r: U256)
    ensures
        r == word(v as u128),
{
    U256 { hi: 0, lo: v as u128 }
}

pub fn u128_to_u256(v: u128) -> (r: U256)
    ensures
        r == word(v),
{
    U256 { hi: 0, lo: v }
}

pub fn address_to_u256(a: Address) -> (r: U256)
    ensures
        r == address_word(a),
{
    U256 { hi: a.hi as u128, lo: a.lo }
}

/// Storing a number in a word and reading it back gives the number.
pub proof fn law_word_round_trips(n: u64, v: u128, a: Address, b: u8)
    ensures
        u64_of(word(n as u128)) == n,
        word(v).lo == v,
        address_of(address_word(a)) == a,
        u8_of(word(b as u128)) == b,
{
}

} // verus!
