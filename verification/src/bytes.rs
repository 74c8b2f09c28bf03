//! Byte strings of numbers: the number a byte string spells, and the byte string of a number.

use vstd::prelude::*;

verus! {

/// The number that `s` spells in base 256, most significant byte first.
pub open spec fn be_nat(s: Seq<u8>) -> nat
    decreases s.len(),
{
    if s.len() == 0 {
        0
    } else {
        be_nat(s.drop_last()) * 256 + s.last() as nat
    }
}

/// The `n` low-order base-256 digits of `v`, most significant first.
pub open spec fn be_bytes(v: nat, n: nat) -> Seq<u8>
    decreases n,
{
    if n == 0 {
        Seq::empty()
    } else {
        be_bytes(v / 256, (n - 1) as nat).push((v % 256) as u8)
    }
}

/// `256` to the power `n`.
pub open spec fn base(n: nat) -> nat
    decreases n,
{
    if n == 0 {
        1
    } else {
        256 * base((n - 1) as nat)
    }
}

/// The byte string of `n` zeros.
pub open spec fn zeros(n: nat) -> Seq<u8> {
    Seq::new(n, |i: int| 0u8)
}

pub proof fn lemma_be_bytes_len(v: nat, n: nat)
    ensures
        be_bytes(v, n).len() == n,
    decreases n,
{
    if n > 0 {
        lemma_be_bytes_len(v / 256, (n - 1) as nat);
    }
}

pub proof fn lemma_be_nat_bound(s: Seq<u8>)
    ensures
        be_nat(s) < base(s.len()),
    decreases s.len(),
{
    if s.len() > 0 {
        lemma_be_nat_bound(s.drop_last());
        let hi = be_nat(s.drop_last());
        let b = base((s.len() - 1) as nat);
        assert(hi * 256 + s.last() as nat <= (hi + 1) * 256 - 1);
        assert((hi + 1) * 256 <= b * 256) by (nonlinear_arith)
            requires
                hi + 1 <= b,
        ;
    }
}

/// Writing a number and reading it back gives the number, if it fits.
pub proof fn lemma_read_of_write(v: nat, n: nat)
    requires
        v < base(n),
    ensures
        be_nat(be_bytes(v, n)) == v,
    decreases n,
{
    lemma_be_bytes_len(v, n);
    if n > 0 {
        assert(v / 256 < base((n - 1) as nat));
        lemma_read_of_write(v / 256, (n - 1) as nat);
        let s = be_bytes(v, n);
        assert(s.drop_last() =~= be_bytes(v / 256, (n - 1) as nat));
    }
}

/// Reading a byte string and writing the number back gives the byte string.
pub proof fn lemma_write_of_read(s: Seq<u8>)
    ensures
        be_bytes(be_nat(s), s.len()) == s,
    decreases s.len(),
{
    if s.len() > 0 {
        lemma_write_of_read(s.drop_last());
        let v = be_nat(s);
        assert(v / 256 == be_nat(s.drop_last()));
        assert(v % 256 == s.last() as nat);
        assert(be_bytes(v, s.len()) =~= s.drop_last().push(s.last()));
        assert(s.drop_last().push(s.last()) =~= s);
    } else {
        assert(be_bytes(be_nat(s), 0) =~= s);
    }
}

/// A byte string read in two parts: the front counts `256^|back|` times.
pub proof fn lemma_be_nat_concat(front: Seq<u8>, back: Seq<u8>)
    ensures
        be_nat(front + back) == be_nat(front) * base(back.len()) + be_nat(back),
    decreases back.len(),
{
    if back.len() == 0 {
        assert(front + back =~= front);
        let x = be_nat(front);
        let y = base(back.len());
        assert(x * y == x) by (nonlinear_arith)
            requires
                y == 1,
        ;
    } else {
        let b = back.drop_last();
        lemma_be_nat_concat(front, b);
        assert((front + back).drop_last() =~= front + b);
        let x = be_nat(front);
        let y = base(b.len());
        assert((x * y) * 256 == x * (256 * y)) by (nonlinear_arith);
        assert(base(back.len()) == 256 * y);
        assert((front + back).last() == back.last());
        assert((x * y + be_nat(b)) * 256 == (x * y) * 256 + be_nat(b) * 256);
    }
}

pub proof fn lemma_base_values()
    ensures
        base(1) == 0x100,
        base(4) == 0x1_0000_0000,
        base(8) == 0x1_0000_0000_0000_0000,
        base(16) == 0x1_0000_0000_0000_0000_0000_0000_0000_0000,
        base(20) == 0x1_0000_0000_0000_0000_0000_0000_0000_0000_0000_0000int,
        base(24) == base(8) * base(16),
        base(32) == base(16) * base(16),
{
    reveal_with_fuel(base, 33);
}

/// Reads the big-endian number held in `bytes[at..at + 8]`.
pub fn read_u64(bytes: &[u8], at: usize) -> (r: u64)
    requires
        at + 8 <= bytes.len(),
    ensures
        r as nat == be_nat(bytes@.subrange(at as int, at + 8)),
{
    let mut r: u64 = 0;
    let mut i: usize = 0;
    while i < 8
        invariant
            i <= 8,
            at + 8 <= bytes.len(),
            r as nat == be_nat(bytes@.subrange(at as int, at + i)),
        decreases 8 - i,
    {
        let ghost done = bytes@.subrange(at as int, at + i);
        let ghost next = bytes@.subrange(at as int, at + i + 1);
        proof {
            lemma_be_nat_bound(next);
            lemma_base_values();
            assert(next.drop_last() =~= done);
            lemma_base_monotone((i + 1) as nat, 8);
        }
        r = r * 256 + bytes[at + i] as u64;
        i += 1;
    }
    r
}

/// Reads the big-endian number held in `bytes[at..at + 16]`.
pub fn read_u128(bytes: &[u8], at: usize) -> (r: u128)
    requires
        at + 16 <= bytes.len(),
    ensures
        r as nat == be_nat(bytes@.subrange(at as int, at + 16)),
{
    let mut r: u128 = 0;
    let mut i: usize = 0;
    while i < 16
        invariant
            i <= 16,
            at + 16 <= bytes.len(),
            r as nat == be_nat(bytes@.subrange(at as int, at + i)),
        decreases 16 - i,
    {
        let ghost done = bytes@.subrange(at as int, at + i);
        let ghost next = bytes@.subrange(at as int, at + i + 1);
        proof {
            lemma_be_nat_bound(next);
            lemma_base_values();
            assert(next.drop_last() =~= done);
            lemma_base_monotone((i + 1) as nat, 16);
        }
        r = r * 256 + bytes[at + i] as u128;
        i += 1;
    }
    r
}

pub proof fn lemma_base_monotone(m: nat, n: nat)
    requires
        m <= n,
    ensures
        base(m) <= base(n),
    decreases n - m,
{
    if m < n {
        lemma_base_monotone(m, (n - 1) as nat);
    }
}

/// Appends the big-endian digits of `v` that `n` bytes hold.
pub fn push_be(out: &mut Vec<u8>, v: u128, n: usize)
    ensures
        final(out)@ == old(out)@ + be_bytes(v as nat, n as nat),
    decreases n,
{
    if n > 0 {
        push_be(out, v / 256, n - 1);
        out.push((v % 256) as u8);
        proof {
            lemma_be_bytes_len(v as nat / 256, (n - 1) as nat);
        }
    }
}

/// Appends all of `tail`.
pub fn push_all(out: &mut Vec<u8>, tail: &[u8])
    ensures
        final(out)@ == old(out)@ + tail@,
{
    let mut i: usize = 0;
    while i < tail.len()
        invariant
            i <= tail@.len(),
            out@ == old(out)@ + tail@.subrange(0, i as int),
        decreases tail@.len() - i,
    {
        out.push(tail[i]);
        i += 1;
    }
    proof {
        assert(tail@.subrange(0, tail@.len() as int) =~= tail@);
    }
}

/// Appends `n` zero bytes.
pub fn push_zeros(out: &mut Vec<u8>, n: usize)
    ensures
        final(out)@ == old(out)@ + zeros(n as nat),
{
    let mut i: usize = 0;
    while i < n
        invariant
            i <= n,
            out@ == old(out)@ + zeros(i as nat),
        decreases n - i,
    {
        out.push(0u8);
        i += 1;
    }
}

/// The `n` low-order base-256 digits of `v`, least significant first.
pub open spec fn le_bytes(v: nat, n: nat) -> Seq<u8>
    decreases n,
{
    if n == 0 {
        Seq::empty()
    } else {
        seq![(v % 256) as u8] + le_bytes(v / 256, (n - 1) as nat)
    }
}

pub proof fn lemma_le_bytes_len(v: nat, n: nat)
    ensures
        le_bytes(v, n).len() == n,
    decreases n,
{
    if n > 0 {
        lemma_le_bytes_len(v / 256, (n - 1) as nat);
    }
}

/// Numbers that fit have the same digits only if they are the same.
pub proof fn lemma_le_bytes_injective(v: nat, w: nat, n: nat)
    requires
        v < base(n),
        w < base(n),
        le_bytes(v, n) == le_bytes(w, n),
    ensures
        v == w,
    decreases n,
{
    if n > 0 {
        let tv = le_bytes(v / 256, (n - 1) as nat);
        let tw = le_bytes(w / 256, (n - 1) as nat);
        let sv = le_bytes(v, n);
        let sw = le_bytes(w, n);
        lemma_le_bytes_len(v / 256, (n - 1) as nat);
        lemma_le_bytes_len(w / 256, (n - 1) as nat);
        assert(sv[0] == (v % 256) as u8);
        assert(sw[0] == (w % 256) as u8);
        assert(tv =~= sv.subrange(1, sv.len() as int));
        assert(tw =~= sw.subrange(1, sw.len() as int));
        lemma_le_bytes_injective(v / 256, w / 256, (n - 1) as nat);
    }
}

/// Appends the little-endian digits of `v` that `n` bytes hold.
pub fn push_le(out: &mut Vec<u8>, v: u128, n: usize)
    ensures
        final(out)@ == old(out)@ + le_bytes(v as nat, n as nat),
    decreases n,
{
    if n > 0 {
        out.push((v % 256) as u8);
        push_le(out, v / 256, n - 1);
        proof {
            assert(out@ =~= old(out)@ + le_bytes(v as nat, n as nat));
        }
    }
}

} // verus!
