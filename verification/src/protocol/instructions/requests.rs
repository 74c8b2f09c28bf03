//! What an instruction asks of a service: the values that are handed to the oracle and to the
//! shielded pool.

use crate::protocol::instructions::types::Instruction;
use crate::words::U256;
use vstd::prelude::*;

verus! {

/// The number of bytes of a signature.
pub const SIGNATURE_LEN: usize = 64;

/// A price for the oracle. It is quoted in the asset with the number 0.
#[derive(Debug)]
pub struct OracleRequest {
    pub validator_id: u32,
    pub base: u64,
    pub quote: u64,
    pub price: u128,
    pub block_number: u64,
    pub timestamp: u64,
    pub signature: [u8; 64],
    pub sources: Vec<String>,
}

/// The same texts, in the same order.
pub open spec fn same_texts(a: Seq<String>, b: Seq<String>) -> bool {
    a.len() == b.len() && forall|i: int| 0 <= i < a.len() ==> (#[trigger] a[i])@ == b[i]@
}

fn copy_texts(texts: &Vec<String>) -> (r: Vec<String>)
    ensures
        same_texts(r@, texts@),
{
    let mut r: Vec<String> = Vec::new();
    let mut i: usize = 0;
    while i < texts.len()
        invariant
            i <= texts@.len(),
            same_texts(r@, texts@.take(i as int)),
        decreases texts@.len() - i,
    {
        r.push(texts[i].clone());
        i = i + 1;
    }
    assert(texts@.take(i as int) == texts@);
    r
}

fn signature_of(bytes: &Vec<u8>) -> (r: [u8; 64])
    requires
        bytes@.len() == SIGNATURE_LEN,
    ensures
        r@ == bytes@,
{
    let mut r: [u8; 64] = [0;64];
    let mut i: usize = 0;
    while i < SIGNATURE_LEN
        invariant
            i <= SIGNATURE_LEN,
            bytes@.len() == SIGNATURE_LEN,
            forall|k: int| 0 <= k < i ==> r@[k] == bytes@[k],
        decreases SIGNATURE_LEN - i,
    {
        r[i] = bytes[i];
        i = i + 1;
    }
    assert(r@ == bytes@);
    r
}

/// The price that an instruction submits for a validator; nothing where it submits none or its
/// signature has not the right length.
pub fn oracle_request(i: &Instruction, validator_id: u32) -> (r: Option<OracleRequest>)
    ensures
        match *i {
            Instruction::OracleSubmit {
                asset_id,
                price,
                block_number,
                timestamp,
                signature,
                sources,
            } if signature@.len() == SIGNATURE_LEN => {
                &&& r matches Some(q)
                &&& q.validator_id == validator_id
                &&& q.base == asset_id
                &&& q.quote == 0
                &&& q.price == price
                &&& q.block_number == block_number
                &&& q.timestamp == timestamp
                &&& q.signature@ == signature@
                &&& same_texts(q.sources@, sources@)
            },
            _ => r is None,
        },
{
    match i {
        Instruction::OracleSubmit {
            asset_id,
            price,
            block_number,
            timestamp,
            signature,
            sources,
        } => {
            if signature.len() != SIGNATURE_LEN {
                return None;
            }
            Some(
                OracleRequest {
                    validator_id,
                    base: *asset_id,
                    quote: 0,
                    price: *price,
                    block_number: *block_number,
                    timestamp: *timestamp,
                    signature: signature_of(signature),
                    sources: copy_texts(sources),
                },
            )
        },
        _ => None,
    }
}

/// A proof as the pool takes it: its bytes, what it spends and makes, and in which asset.
#[derive(Debug)]
pub struct ZkProof {
    pub proof_data: Vec<u8>,
    pub nullifiers: Vec<U256>,
    pub commitments: Vec<U256>,
    pub asset_id: u64,
}

/// What a proof says.
pub struct ProofModel {
    pub proof_data: Seq<u8>,
    pub nullifiers: Seq<U256>,
    pub commitments: Seq<U256>,
    pub asset_id: u64,
}

impl View for ZkProof {
    type V = ProofModel;

    open spec fn view(&self) -> ProofModel {
        ProofModel {
            proof_data: self.proof_data@,
            nullifiers: self.nullifiers@,
            commitments: self.commitments@,
            asset_id: self.asset_id,
        }
    }
}

/// A proof to check: under which name its circuit goes, and with what public amount.
#[derive(Debug)]
pub struct ProofCheck {
    pub proof: ZkProof,
    pub circuit: &'static str,
    pub amount: Option<u128>,
}

fn copy_words(words: &Vec<U256>) -> (r: Vec<U256>)
    ensures
        r@ == words@,
{
    let mut r: Vec<U256> = Vec::new();
    let mut i: usize = 0;
    while i < words.len()
        invariant
            i <= words@.len(),
            r@ == words@.take(i as int),
        decreases words@.len() - i,
    {
        r.push(words[i]);
        i = i + 1;
        assert(words@.take(i as int) == words@.take(i - 1).push(words@[i - 1]));
    }
    assert(words@.take(i as int) == words@);
    r
}

fn copy_bytes(bytes: &Vec<u8>) -> (r: Vec<u8>)
    ensures
        r@ == bytes@,
{
    let r = bytes.clone();
    assert(r@ == bytes@);
    r
}

/// The proof that an instruction carries: of a transfer, what it spends and makes; of a withdrawal,
/// the one nullifier that it spends, and its amount is public.
pub fn proof_check(i: &Instruction) -> (r: Option<ProofCheck>)
    ensures
        match *i {
            Instruction::ShieldedTransfer { asset_id, proof, nullifiers, commitments, .. } => {
                &&& r matches Some(c)
                &&& c.proof@ == (ProofModel {
                    proof_data: proof@,
                    nullifiers: nullifiers@,
                    commitments: commitments@,
                    asset_id,
                })
                &&& c.circuit == "transfer"
                &&& c.amount is None
            },
            Instruction::ShieldedWithdraw { asset_id, amount, proof, nullifier, .. } => {
                &&& r matches Some(c)
                &&& c.proof@ == (ProofModel {
                    proof_data: proof@,
                    nullifiers: seq![nullifier],
                    commitments: Seq::empty(),
                    asset_id,
                })
                &&& c.circuit == "withdraw"
                &&& c.amount == Some(amount)
            },
            _ => r is None,
        },
{
    match i {
        Instruction::ShieldedTransfer { asset_id, proof, nullifiers, commitments, .. } => Some(
            ProofCheck {
                proof: ZkProof {
                    proof_data: copy_bytes(proof),
                    nullifiers: copy_words(nullifiers),
                    commitments: copy_words(commitments),
                    asset_id: *asset_id,
                },
                circuit: "transfer",
                amount: None,
            },
        ),
        Instruction::ShieldedWithdraw { asset_id, amount, proof, nullifier, .. } => {
            let mut nullifiers: Vec<U256> = Vec::new();
            nullifiers.push(*nullifier);
            let proof = ZkProof {
                proof_data: copy_bytes(proof),
                nullifiers,
                commitments: Vec::new(),
                asset_id: *asset_id,
            };
            assert(proof@.nullifiers == seq![*nullifier]);
            Some(ProofCheck { proof, circuit: "withdraw", amount: Some(*amount) })
        },
        _ => None,
    }
}

/// The same byte strings, in the same order.
pub open spec fn same_strings(a: Seq<Vec<u8>>, b: Seq<Vec<u8>>) -> bool {
    a.len() == b.len() && forall|i: int| 0 <= i < a.len() ==> (#[trigger] a[i])@ == b[i]@
}

/// The encrypted notes that an instruction carries: a transfer may carry several, a deposit one.
pub fn notes_to_read(i: &Instruction) -> (r: Vec<Vec<u8>>)
    ensures
        match *i {
            Instruction::ShieldedTransfer { encrypted_notes, .. } => same_strings(
                r@,
                encrypted_notes@,
            ),
            Instruction::ShieldedDeposit { encrypted_note, .. } => same_strings(
                r@,
                seq![encrypted_note],
            ),
            _ => r@.len() == 0,
        },
{
    let mut r: Vec<Vec<u8>> = Vec::new();
    match i {
        Instruction::ShieldedTransfer { encrypted_notes, .. } => {
            let mut k: usize = 0;
            while k < encrypted_notes.len()
                invariant
                    k <= encrypted_notes@.len(),
                    same_strings(r@, encrypted_notes@.take(k as int)),
                decreases encrypted_notes@.len() - k,
            {
                r.push(copy_bytes(&encrypted_notes[k]));
                k = k + 1;
            }
            assert(encrypted_notes@.take(k as int) == encrypted_notes@);
        },
        Instruction::ShieldedDeposit { encrypted_note, .. } => {
            r.push(copy_bytes(encrypted_note));
        },
        _ => {},
    }
    r
}

/// A transfer for the pool, with the notes that could be read. The notes that it spends are not
/// handed over: the proof stands for them.
#[derive(Debug)]
pub struct TransferRequest<N> {
    pub input_notes: Vec<N>,
    pub output_notes: Vec<N>,
    pub proof: ZkProof,
}

/// The notes that could be read, in their order.
pub open spec fn readable<N>(decoded: Seq<Option<N>>) -> Seq<N>
    decreases decoded.len(),
{
    if decoded.len() == 0 {
        Seq::empty()
    } else {
        let rest = readable(decoded.drop_last());
        match decoded.last() {
            Some(n) => rest.push(n),
            None => rest,
        }
    }
}

/// Keeps the notes that could be read and drops the others.
pub fn readable_notes<N>(decoded: Vec<Option<N>>) -> (r: Vec<N>)
    ensures
        r@ == readable(decoded@),
{
    let mut r: Vec<N> = Vec::new();
    for note in notes: decoded
        invariant
            notes.seq() == decoded@,
            r@ == readable(decoded@.take(notes.index() as int)),
    {
        assert(decoded@.take(notes.index() + 1).drop_last() == decoded@.take(notes.index() as int));
        if let Some(n) = note {
            r.push(n);
        }
    }
    assert(decoded@.take(decoded@.len() as int) == decoded@);
    r
}

/// The transfer that an instruction asks the pool for, given what became of reading each of its
/// encrypted notes.
pub fn transfer_request<N>(i: &Instruction, decoded: Vec<Option<N>>) -> (r: Option<
    TransferRequest<N>,
>)
    ensures
        match *i {
            Instruction::ShieldedTransfer { asset_id, proof, nullifiers, commitments, .. } => {
                &&& r matches Some(t)
                &&& t.input_notes@ == Seq::<N>::empty()
                &&& t.output_notes@ == readable(decoded@)
                &&& t.proof@ == (ProofModel {
                    proof_data: proof@,
                    nullifiers: nullifiers@,
                    commitments: commitments@,
                    asset_id,
                })
            },
            _ => r is None,
        },
{
    match i {
        Instruction::ShieldedTransfer { asset_id, proof, nullifiers, commitments, .. } => Some(
            TransferRequest {
                input_notes: Vec::new(),
                output_notes: readable_notes(decoded),
                proof: ZkProof {
                    proof_data: copy_bytes(proof),
                    nullifiers: copy_words(nullifiers),
                    commitments: copy_words(commitments),
                    asset_id: *asset_id,
                },
            },
        ),
        _ => None,
    }
}

/// The nullifier that an instruction asks the pool to use up for a withdrawal.
pub fn withdraw_request(i: &Instruction) -> (r: Option<U256>)
    ensures
        r == match *i {
            Instruction::ShieldedWithdraw { nullifier, .. } => Some(nullifier),
            _ => None,
        },
{
    match i {
        Instruction::ShieldedWithdraw { nullifier, .. } => Some(*nullifier),
        _ => None,
    }
}

/// A deposit for the pool: under which commitment, and with which note.
#[derive(Debug)]
pub struct DepositRequest<N> {
    pub commitment: U256,
    pub note: N,
}

/// The deposit that an instruction asks the pool for, given its note.
pub fn deposit_request<N>(i: &Instruction, note: N) -> (r: Option<DepositRequest<N>>)
    ensures
        r == match *i {
            Instruction::ShieldedDeposit { commitment, .. } => Some(
                DepositRequest { commitment, note },
            ),
            _ => None,
        },
{
    match i {
        Instruction::ShieldedDeposit { commitment, .. } => Some(
            DepositRequest { commitment: *commitment, note },
        ),
        _ => None,
    }
}

} // verus!
