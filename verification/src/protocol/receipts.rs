//! Receipts of transactions and the hashes that a block commits to.

use crate::bytes::{be_bytes, push_be};
use crate::crypto::{keccak256, keccak256_word};
use crate::primitives::{ExecutionStatus, FeeCurrency};
use crate::words::{Address, U256};
use vstd::prelude::*;

verus! {

/// A log in a receipt.
#[derive(Debug)]
pub struct LogEntry {
    pub address: Address,
    pub topics: Vec<U256>,
    pub data: Vec<u8>,
}

/// What a change of state is about.
#[derive(Clone, Copy, Debug, PartialEq, Eq, Structural)]
pub enum ChangeType {
    Balance,
    Allowance,
    Nonce,
}

/// A change of state.
#[derive(Debug)]
pub struct StateChange {
    pub change_type: ChangeType,
    pub key: Vec<u8>,
    pub old_value: Vec<u8>,
    pub new_value: Vec<u8>,
}

/// A memo in a receipt.
#[derive(Debug)]
pub struct MemoEntry {
    pub content: String,
    pub reference: Option<String>,
}

/// How an instruction ended.
#[derive(Debug)]
pub struct InstructionExecResult {
    pub success: bool,
    pub gas_used: u64,
    pub revert_reason: Option<String>,
}

/// The receipt of a transaction of the protocol layer.
#[derive(Debug)]
pub struct ProtocolReceipt {
    pub tx_hash: U256,
    pub status: ExecutionStatus,
    pub gas_used: u64,
    pub gas_payer: Address,
    pub fee_currency: FeeCurrency,
    pub fee_amount: u128,
    pub instruction_results: Vec<InstructionExecResult>,
    pub logs: Vec<LogEntry>,
    pub memos: Vec<MemoEntry>,
    pub state_changes: Vec<StateChange>,
}

/// The receipt of a transaction of the EVM layer.
#[derive(Debug)]
pub struct EvmReceipt {
    pub logs_bloom: Vec<u8>,
    pub contract_address: Option<Address>,
    pub logs: Vec<LogEntry>,
    pub gas_used: u64,
    pub status: bool,
}

/// The receipt of a shielded transaction; it holds no amount.
#[derive(Debug)]
pub struct ShieldedReceipt {
    pub nullifiers: Vec<U256>,
    pub commitments: Vec<U256>,
    pub encrypted_event: Vec<u8>,
    pub gas_used: u64,
}

/// The receipt of a transfer over an external bridge.
#[derive(Clone, Copy, Debug)]
pub struct ExternalBridgeReceipt {
    pub source_tx_hash: U256,
    pub source_block: u64,
    pub confirmations: u64,
    pub status: bool,
}

/// The bytes of a receipt that are hashed: the transaction's hash, its outcome and its gas.
pub open spec fn receipt_bytes(receipt: ProtocolReceipt) -> Seq<u8> {
    receipt.tx_hash.bytes().push(
        if receipt.status is Success {
            1u8
        } else {
            0u8
        },
    ) + be_bytes(receipt.gas_used as nat, 8)
}

fn rlp_encode_receipt(receipt: &ProtocolReceipt) -> (r: Vec<u8>)
    ensures
        r@ == receipt_bytes(*receipt),
{
    let mut buf: Vec<u8> = receipt.tx_hash.to_be_bytes();
    buf.push(
        match &receipt.status {
            ExecutionStatus::Success => 1,
            ExecutionStatus::Reverted { .. } => 0,
        },
    );
    push_be(&mut buf, receipt.gas_used as u128, 8);
    buf
}

/// The hash of each receipt.
pub open spec fn receipt_leaves(receipts: Seq<ProtocolReceipt>) -> Seq<U256> {
    Seq::new(receipts.len(), |i: int| keccak256_word(receipt_bytes(receipts[i])))
}

/// The hashes of the receipts, in turn.
pub fn hash_receipts(receipts: &[ProtocolReceipt]) -> (r: Vec<U256>)
    ensures
        r@ == receipt_leaves(receipts@),
{
    let mut leaves: Vec<U256> = Vec::new();
    let mut i: usize = 0;
    while i < receipts.len()
        invariant
            i <= receipts@.len(),
            leaves@ == receipt_leaves(receipts@).subrange(0, i as int),
        decreases receipts@.len() - i,
    {
        let encoded: Vec<u8> = rlp_encode_receipt(&receipts[i]);
        leaves.push(keccak256(encoded.as_slice()));
        i += 1;
    }
    proof {
        let all = receipt_leaves(receipts@);
        assert(all.subrange(0, all.len() as int) =~= all);
    }
    leaves
}

/// The root of the receipts, as `build_merkle_root` makes it of their hashes; there is none where
/// there is no receipt.
pub fn compute_receipt_root<F: Fn(Vec<U256>) -> Option<U256>>(
    receipts: &[ProtocolReceipt],
    build_merkle_root: F,
) -> (r: Option<U256>)
    requires
        forall|leaves: Vec<U256>|
            leaves@.len() == receipts@.len() ==> #[trigger] build_merkle_root.requires((leaves,)),
    ensures
        receipts@.len() == 0 ==> r is None,
        receipts@.len() > 0 ==> exists|leaves: Vec<U256>|
            leaves@ == receipt_leaves(receipts@) && #[trigger] build_merkle_root.ensures(
                (leaves,),
                r,
            ),
{
    if receipts.len() == 0 {
        return None;
    }
    let leaves: Vec<U256> = hash_receipts(receipts);
    build_merkle_root(leaves)
}

/// The first receipt kept under a hash.
pub open spec fn receipt_position(
    receipts: Seq<(U256, ProtocolReceipt)>,
    tx_hash: U256,
    from: int,
) -> int
    decreases receipts.len() - from,
{
    if from >= receipts.len() || receipts[from].0 == tx_hash {
        from
    } else {
        receipt_position(receipts, tx_hash, from + 1)
    }
}

/// The receipt of a transaction, where there is one.
pub fn get_receipt<'a>(receipts: &'a [(U256, ProtocolReceipt)], tx_hash: &U256) -> (r: Option<
    &'a ProtocolReceipt,
>)
    ensures
        ({
            let at = receipt_position(receipts@, *tx_hash, 0);
            match r {
                Some(found) => 0 <= at < receipts@.len() && *found == receipts@[at].1
                    && receipts@[at].0 == *tx_hash,
                None => at == receipts@.len() && forall|i: int|
                    0 <= i < receipts@.len() ==> (#[trigger] receipts@[i]).0 != *tx_hash,
            }
        }),
{
    let mut i: usize = 0;
    while i < receipts.len()
        invariant
            i <= receipts@.len(),
            receipt_position(receipts@, *tx_hash, 0) == receipt_position(
                receipts@,
                *tx_hash,
                i as int,
            ),
            forall|j: int| 0 <= j < i ==> (#[trigger] receipts@[j]).0 != *tx_hash,
        decreases receipts@.len() - i,
    {
        if receipts[i].0 == *tx_hash {
            return Some(&receipts[i].1);
        }
        i += 1;
    }
    None
}

/// Whether a receipt is more than `keep_receipt` blocks old.
pub fn should_prune_receipt(receipt_height: u64, current_height: u64, keep_receipt: u64) -> (r:
    bool)
    ensures
        r == (current_height - receipt_height > keep_receipt),
{
    current_height.saturating_sub(receipt_height) > keep_receipt
}

} // verus!
