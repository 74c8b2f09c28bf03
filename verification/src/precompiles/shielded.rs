//! Shielded-pool precompile: commitments in a hash tree, nullifiers, and moves between the pool
//! and transparent balances.
//!
//! The hash that joins two nodes and the verifier of zero-knowledge proofs are handed in; both
//! have to give the same answer to the same question every time.

pub mod laws;

use crate::precompiles::abi::{
    address_at, bytes_at, decode_address, decode_bytes, decode_bytes32, decode_bytes32_array,
    decode_selector, decode_u128, decode_u64, encode_u64, encode_u8, number_word, selector_of,
    u128_at, u64_at, word_at, words_at,
};
use crate::precompiles::asset::{balance_read, balance_write, holding, load_bal, save_bal};
use crate::precompiles::slots::{
    balance_slot, commitment_slot, shielded_address, slot_shielded_commitment, slot_tag,
    slot_tagged, slot_tree_node, tag_slot, tagged_slot, tree_node_slot,
};
use crate::precompiles::steps::{able, group_steps};
use crate::precompiles::storage::{
    fatal, ok_bytes, ok_empty, out_of_gas, outcome, refused, Fault, Outcome, PrecompileError,
    PrecompileResult, StatefulPrecompile, StorageCtx, StorageProvider, World,
};
use crate::words::{
    law_word_round_trips, u256_to_u64, u256_to_u8, u64_of, u64_to_u256, u8_of, word, zero_word,
    Address, U256,
};
use vstd::prelude::*;

verus! {

/// The depth of the commitment tree.
pub const DEPTH: u8 = 32;

/// A proof to be verified: that the spender of `nullifier` may take `amount` out of the pool.
#[derive(Debug)]
pub struct ProofRequest {
    pub proof_data: Vec<u8>,
    pub nullifier: U256,
    pub asset_id: u64,
    pub merkle_root: U256,
    pub amount: u128,
}

/// A proof request, as a mathematical value.
pub struct ProofModel {
    pub proof_data: Seq<u8>,
    pub nullifier: U256,
    pub asset_id: u64,
    pub merkle_root: U256,
    pub amount: u128,
}

impl View for ProofRequest {
    type V = ProofModel;

    open spec fn view(&self) -> ProofModel {
        ProofModel {
            proof_data: self.proof_data@,
            nullifier: self.nullifier,
            asset_id: self.asset_id,
            merkle_root: self.merkle_root,
            amount: self.amount,
        }
    }
}

/// What `hash` makes of two nodes.
pub open spec fn pair_hash<H: Fn(U256, U256) -> U256>(hash: H, l: U256, r: U256) -> U256 {
    choose|o: U256| hash.ensures((l, r), o)
}

/// Whether `hash` can be applied to any two nodes and always gives the same answer.
pub open spec fn is_function<H: Fn(U256, U256) -> U256>(hash: H) -> bool {
    &&& forall|l: U256, r: U256| #[trigger] hash.requires((l, r))
    &&& forall|l: U256, r: U256, o: U256| #[trigger]
        hash.ensures((l, r), o) ==> o == pair_hash(hash, l, r)
}

/// An answer about a proof: the verdict, or the text of the error.
pub open spec fn answer(o: Result<bool, String>) -> Result<bool, Seq<char>> {
    match o {
        Ok(valid) => Ok(valid),
        Err(text) => Err(text@),
    }
}

/// Whether `verify` may give this answer about a proof.
pub open spec fn may_answer<V: Fn(ProofRequest) -> Result<bool, String>>(
    verify: V,
    q: ProofModel,
    v: Result<bool, Seq<char>>,
) -> bool {
    exists|p: ProofRequest, o: Result<bool, String>|
        p@ == q && answer(o) == v && #[trigger] verify.ensures((p,), o)
}

/// What `verify` makes of a proof.
pub open spec fn verdict<V: Fn(ProofRequest) -> Result<bool, String>>(
    verify: V,
    q: ProofModel,
) -> Result<bool, Seq<char>> {
    choose|v: Result<bool, Seq<char>>| may_answer(verify, q, v)
}

/// Whether `verify` can be asked about any proof and always gives the same answer.
pub open spec fn is_decision<V: Fn(ProofRequest) -> Result<bool, String>>(verify: V) -> bool {
    &&& forall|p: ProofRequest| #[trigger] verify.requires((p,))
    &&& forall|p: ProofRequest, o: Result<bool, String>| #[trigger]
        verify.ensures((p,), o) ==> answer(o) == verdict(verify, p@)
}

/// The root of an empty subtree of the given height.
pub open spec fn empty_node<H: Fn(U256, U256) -> U256>(hash: H, level: nat) -> U256
    decreases level,
{
    if level == 0 {
        zero_word()
    } else {
        let below = empty_node(hash, (level - 1) as nat);
        pair_hash(hash, below, below)
    }
}

/// The roots of the empty subtrees below the top of the tree.
pub fn empty_hashes<H: Fn(U256, U256) -> U256>(hash: &H) -> (r: Vec<U256>)
    requires
        is_function(*hash),
    ensures
        r@.len() == 32,
        forall|i: int| 0 <= i < 32 ==> r@[i] == empty_node(*hash, i as nat),
{
    let mut out: Vec<U256> = Vec::new();
    let mut last: U256 = zero_word();
    let mut i: usize = 0;
    while i < 32
        invariant
            i <= 32,
            is_function(*hash),
            out@.len() == i,
            last == empty_node(*hash, i as nat),
            forall|j: int| 0 <= j < i ==> out@[j] == empty_node(*hash, j as nat),
        decreases 32 - i,
    {
        out.push(last);
        last = (*hash)(last, last);
        i += 1;
    }
    out
}

/// Writing the nodes from `level` up along the path of leaf position `index`; the root it leads to.
pub open spec fn climb<H: Fn(U256, U256) -> U256>(
    w: World,
    hash: H,
    level: u8,
    index: u64,
    node: U256,
) -> (U256, World)
    decreases DEPTH - level,
{
    if level >= DEPTH {
        (node, w)
    } else {
        let w = w.write(shielded_address(), tree_node_slot(level, index), node);
        if index % 2 == 0 {
            climb(
                w,
                hash,
                (level + 1) as u8,
                index / 2,
                pair_hash(hash, node, empty_node(hash, level as nat)),
            )
        } else {
            let (left, w) = w.sload(shielded_address(), tree_node_slot(level, (index - 1) as u64));
            let left = match left {
                Some(v) => v,
                None => empty_node(hash, level as nat),
            };
            climb(w, hash, (level + 1) as u8, index / 2, pair_hash(hash, left, node))
        }
    }
}

/// Entering a commitment into the tree at the position after the last; the new root.
pub open spec fn insert_effect<H: Fn(U256, U256) -> U256>(w: World, hash: H, commitment: U256) -> (
    U256,
    World,
) {
    let (count, w) = w.read(shielded_address(), tag_slot("cm_count"));
    let (root, w) = climb(w, hash, 0, u64_of(count), commitment);
    (root, w.write(shielded_address(), tag_slot("merkle_root"), root))
}

/// Entering a commitment into the tree and into the list; `false` where the list is full.
pub open spec fn append_effect<H: Fn(U256, U256) -> U256>(w: World, hash: H, commitment: U256) -> (
    bool,
    World,
) {
    let (root, w) = insert_effect(w, hash, commitment);
    let (count, w) = w.read(shielded_address(), tag_slot("cm_count"));
    let w = w.write(shielded_address(), commitment_slot(u64_of(count)), commitment);
    if u64_of(count) == u64::MAX {
        (false, w)
    } else {
        (
            true,
            w.write(
                shielded_address(),
                tag_slot("cm_count"),
                word((u64_of(count) + 1) as u128),
            ),
        )
    }
}

/// Enters a commitment into the tree; returns the new root.
pub fn insert_commitment<P: StorageProvider, H: Fn(U256, U256) -> U256>(
    storage: &mut P,
    hash: &H,
    commitment: U256,
) -> (r: U256)
    requires
        is_function(*hash),
    ensures
        (r, final(storage).world()) == insert_effect(old(storage).world(), *hash, commitment),
{
    let mut index: u64 = u256_to_u64(
        StorageCtx::read(storage, shielded_address(), slot_tag("cm_count")),
    );
    let empties = empty_hashes(hash);
    let mut node: U256 = commitment;
    let mut level: u8 = 0;
    let ghost w0 = storage.world();
    let ghost start = index;
    while level < DEPTH
        invariant
            level <= DEPTH,
            is_function(*hash),
            empties@.len() == 32,
            forall|i: int| 0 <= i < 32 ==> empties@[i] == empty_node(*hash, i as nat),
            climb(storage.world(), *hash, level, index, node) == climb(
                w0,
                *hash,
                0,
                start,
                commitment,
            ),
        decreases DEPTH - level,
    {
        StorageCtx::write(storage, shielded_address(), slot_tree_node(level, index), node);
        let empty = empties[level as usize];
        if index % 2 == 0 {
            node = (*hash)(node, empty);
        } else {
            let left = match StorageCtx::sload(
                storage,
                shielded_address(),
                slot_tree_node(level, index - 1),
            ) {
                Some(v) => v,
                None => empty,
            };
            node = (*hash)(left, node);
        }
        index = index / 2;
        level = level + 1;
    }
    StorageCtx::write(storage, shielded_address(), slot_tag("merkle_root"), node);
    node
}

fn append_commitment<P: StorageProvider, H: Fn(U256, U256) -> U256>(
    storage: &mut P,
    hash: &H,
    commitment: U256,
) -> (r: Result<(), PrecompileError>)
    requires
        is_function(*hash),
    ensures
        (r is Ok, final(storage).world()) == append_effect(
            old(storage).world(),
            *hash,
            commitment,
        ),
        r matches Err(e) ==> e == PrecompileError::Fatal("commitment count overflow"),
{
    let _root = insert_commitment(storage, hash, commitment);
    let count: u64 = u256_to_u64(
        StorageCtx::read(storage, shielded_address(), slot_tag("cm_count")),
    );
    StorageCtx::write(
        storage,
        shielded_address(),
        slot_shielded_commitment(count),
        commitment,
    );
    let next: u64 = count.checked_add(1).ok_or(
        PrecompileError::Fatal("commitment count overflow"),
    )?;
    StorageCtx::write(storage, shielded_address(), slot_tag("cm_count"), u64_to_u256(next));
    Ok(())
}

/// Whether a nullifier is spent.
pub open spec fn spent_read(w: World, nullifier: U256) -> (bool, World) {
    let (v, w) = w.read(shielded_address(), tagged_slot("nullifier", nullifier));
    (u8_of(v) == 1, w)
}

pub open spec fn spend(w: World, nullifier: U256) -> World {
    w.write(shielded_address(), tagged_slot("nullifier", nullifier), word(1))
}

fn nullifier_spent<P: StorageProvider>(storage: &mut P, nullifier: U256) -> (r: bool)
    ensures
        (r, final(storage).world()) == spent_read(old(storage).world(), nullifier),
{
    u256_to_u8(
        StorageCtx::read(storage, shielded_address(), slot_tagged("nullifier", nullifier)),
    ) == 1
}

fn mark_spent<P: StorageProvider>(storage: &mut P, nullifier: U256)
    ensures
        final(storage).world() == spend(old(storage).world(), nullifier),
{
    StorageCtx::write(
        storage,
        shielded_address(),
        slot_tagged("nullifier", nullifier),
        u64_to_u256(1),
    );
}

/// Whether any nullifier from the `i`-th on is spent; stops at the first that is.
pub open spec fn any_spent(w: World, nullifiers: Seq<U256>, i: int) -> (bool, World)
    decreases nullifiers.len() - i,
{
    if i >= nullifiers.len() {
        (false, w)
    } else {
        let (spent, w) = spent_read(w, nullifiers[i]);
        if spent {
            (true, w)
        } else {
            any_spent(w, nullifiers, i + 1)
        }
    }
}

/// Spending the nullifiers from the `i`-th on.
pub open spec fn spend_all(w: World, nullifiers: Seq<U256>, i: int) -> World
    decreases nullifiers.len() - i,
{
    if i >= nullifiers.len() {
        w
    } else {
        spend_all(spend(w, nullifiers[i]), nullifiers, i + 1)
    }
}

/// Entering the commitments from the `i`-th on; `false` where the list fills up.
pub open spec fn append_all<H: Fn(U256, U256) -> U256>(
    w: World,
    hash: H,
    commitments: Seq<U256>,
    i: int,
) -> (bool, World)
    decreases commitments.len() - i,
{
    if i >= commitments.len() {
        (true, w)
    } else {
        let (ok, w) = append_effect(w, hash, commitments[i]);
        if !ok {
            (false, w)
        } else {
            append_all(w, hash, commitments, i + 1)
        }
    }
}

pub open spec fn deposit_effect<H: Fn(U256, U256) -> U256>(
    w: World,
    hash: H,
    input: Seq<u8>,
    sender: Address,
) -> (Outcome, World) {
    let (paid, w) = w.charge(50000);
    if !paid {
        (out_of_gas(), w)
    } else if input.len() < 68 {
        (refused("invalid input"), w)
    } else if input.len() < 100 {
        (refused("invalid commitment"), w)
    } else {
        let asset_id = u64_at(input, 4);
        let amount = u128_at(input, 36);
        let (held, w) = balance_read(w, asset_id, sender);
        if held < amount {
            (refused("shielded deposit: insufficient balance"), w)
        } else {
            let w = balance_write(w, asset_id, sender, (held - amount) as u128);
            let (ok, w) = append_effect(w, hash, word_at(input, 68));
            if ok {
                (w.done(Seq::empty()), w)
            } else {
                (fatal("commitment count overflow"), w)
            }
        }
    }
}

/// The proof that a withdrawal asks to have verified, if it carries one.
pub open spec fn withdrawal_proof(input: Seq<u8>) -> Option<ProofModel> {
    match bytes_at(input, 164) {
        Some(data) => Some(
            ProofModel {
                proof_data: data,
                nullifier: word_at(input, 100),
                asset_id: u64_at(input, 4),
                merkle_root: word_at(input, 132),
                amount: u128_at(input, 68),
            },
        ),
        None => None,
    }
}

/// What a verdict on a proof means for the withdrawal.
pub open spec fn verdict_problem(v: Result<bool, Seq<char>>) -> Option<Fault> {
    match v {
        Ok(true) => None,
        Ok(false) => Some(Fault::Other("shielded withdraw: invalid ZK proof")),
        Err(text) => Some(Fault::ProofSystem(text)),
    }
}

/// Checking what a withdrawal claims: the root it names, and the proof it carries.
pub open spec fn claim_problem<V: Fn(ProofRequest) -> Result<bool, String>>(
    w: World,
    verify: V,
    input: Seq<u8>,
) -> (Option<Fault>, World) {
    if input.len() < 164 {
        (None, w)
    } else {
        let (root, w) = w.read(shielded_address(), tag_slot("merkle_root"));
        if word_at(input, 132) != root {
            (Some(Fault::Other("shielded withdraw: merkle root mismatch")), w)
        } else {
            match withdrawal_proof(input) {
                None => (None, w),
                Some(q) => (verdict_problem(verdict(verify, q)), w),
            }
        }
    }
}

/// A withdrawal whose claim holds.
pub open spec fn release(
    w: World,
    asset_id: u64,
    target: Address,
    amount: u128,
    nullifier: U256,
) -> (Outcome, World) {
    let (spent, w) = spent_read(w, nullifier);
    if spent {
        (refused("shielded withdraw: nullifier already spent"), w)
    } else {
        let w = spend(w, nullifier);
        let (held, w) = balance_read(w, asset_id, target);
        if held + amount > u128::MAX {
            (refused("shielded withdraw: balance overflow"), w)
        } else {
            let w = balance_write(w, asset_id, target, (held + amount) as u128);
            (w.done(Seq::empty()), w)
        }
    }
}

pub open spec fn withdraw_effect<V: Fn(ProofRequest) -> Result<bool, String>>(
    w: World,
    verify: V,
    input: Seq<u8>,
) -> (Outcome, World) {
    let (paid, w) = w.charge(50000);
    if !paid {
        (out_of_gas(), w)
    } else if input.len() < 132 {
        (refused("invalid input"), w)
    } else {
        let (problem, w) = claim_problem(w, verify, input);
        match problem {
            Some(e) => (Outcome::Failed(e), w),
            None => release(
                w,
                u64_at(input, 4),
                address_at(input, 36),
                u128_at(input, 68),
                word_at(input, 100),
            ),
        }
    }
}

pub open spec fn transfer_effect<H: Fn(U256, U256) -> U256>(w: World, hash: H, input: Seq<u8>) -> (
    Outcome,
    World,
) {
    let (paid, w) = w.charge(100000);
    if !paid {
        (out_of_gas(), w)
    } else if input.len() < 100 {
        (refused("invalid input"), w)
    } else {
        match (words_at(input, 36), words_at(input, 68)) {
            (None, _) => (refused("invalid nullifiers"), w),
            (_, None) => (refused("invalid commitments"), w),
            (Some(nullifiers), Some(commitments)) => {
                let (spent, w) = any_spent(w, nullifiers, 0);
                if spent {
                    (refused("shielded transfer: nullifier already spent"), w)
                } else {
                    let w = spend_all(w, nullifiers, 0);
                    let (ok, w) = append_all(w, hash, commitments, 0);
                    if ok {
                        (w.done(Seq::empty()), w)
                    } else {
                        (fatal("commitment count overflow"), w)
                    }
                }
            },
        }
    }
}

pub open spec fn get_merkle_root_effect(w: World, input: Seq<u8>) -> (Outcome, World) {
    let (paid, w) = w.charge(1000);
    if !paid {
        (out_of_gas(), w)
    } else if input.len() < 4 {
        (refused("invalid input"), w)
    } else {
        let (root, w) = w.read(shielded_address(), tag_slot("merkle_root"));
        (w.done(root.bytes()), w)
    }
}

pub open spec fn get_count_effect(w: World, input: Seq<u8>) -> (Outcome, World) {
    let (paid, w) = w.charge(1000);
    if !paid {
        (out_of_gas(), w)
    } else if input.len() < 4 {
        (refused("invalid input"), w)
    } else {
        let (count, w) = w.read(shielded_address(), tag_slot("cm_count"));
        (w.done(number_word(u64_of(count) as nat, 8)), w)
    }
}

pub open spec fn get_commitment_effect(w: World, input: Seq<u8>) -> (Outcome, World) {
    let (paid, w) = w.charge(2000);
    if !paid {
        (out_of_gas(), w)
    } else if input.len() < 12 {
        (refused("invalid input"), w)
    } else if input.len() < 36 {
        (refused("invalid index"), w)
    } else {
        let (v, w) = w.read(shielded_address(), commitment_slot(u64_at(input, 4)));
        (w.done(v.bytes()), w)
    }
}

pub open spec fn is_spent_effect(w: World, input: Seq<u8>) -> (Outcome, World) {
    let (paid, w) = w.charge(2000);
    if !paid {
        (out_of_gas(), w)
    } else if input.len() < 36 {
        (refused("invalid input"), w)
    } else {
        let (spent, w) = spent_read(w, word_at(input, 4));
        (
            w.done(
                number_word(
                    if spent {
                        1
                    } else {
                        0
                    },
                    1,
                ),
            ),
            w,
        )
    }
}

/// The shielded-pool precompile, with the node hash and the proof verifier that it works with.
pub struct ShieldedPrecompile<H, V> {
    pub hash: H,
    pub verify: V,
}

impl<H: Fn(U256, U256) -> U256, V: Fn(ProofRequest) -> Result<bool, String>> ShieldedPrecompile<
    H,
    V,
> {
    pub fn deposit<P: StorageProvider>(
        &self,
        storage: &mut P,
        input: &[u8],
        msg_sender: Address,
    ) -> (r: PrecompileResult)
        requires
            is_function(self.hash),
        ensures
            (outcome(r), final(storage).world()) == deposit_effect(
                old(storage).world(),
                self.hash,
                input@,
                msg_sender,
            ),
    {
        StorageCtx::deduct_gas(storage, 50000).ok_or(PrecompileError::OutOfGas)?;
        if input.len() < 68 {
            return Err(PrecompileError::Other("invalid input"));
        }
        let asset_id: u64 = decode_u64(input, 4).ok_or(PrecompileError::Other("invalid assetId"))?;
        let amount: u128 = decode_u128(input, 36).ok_or(PrecompileError::Other("invalid amount"))?;
        let commitment = decode_bytes32(input, 68).ok_or(
            PrecompileError::Other("invalid commitment"),
        )?;
        let held: u128 = load_bal(storage, asset_id, msg_sender).checked_sub(amount).ok_or(
            PrecompileError::Other("shielded deposit: insufficient balance"),
        )?;
        save_bal(storage, asset_id, msg_sender, held);
        append_commitment(storage, &self.hash, commitment)?;
        ok_empty(storage)
    }

    fn check_claim<P: StorageProvider>(&self, storage: &mut P, input: &[u8]) -> (r: Result<
        (),
        PrecompileError,
    >)
        requires
            is_decision(self.verify),
            input@.len() >= 132,
        ensures
            final(storage).world() == claim_problem(
                old(storage).world(),
                self.verify,
                input@,
            ).1,
            match r {
                Ok(_) => claim_problem(old(storage).world(), self.verify, input@).0 is None,
                Err(e) => claim_problem(old(storage).world(), self.verify, input@).0 == Some(e@),
            },
    {
        if input.len() < 164 {
            return Ok(());
        }
        let asset_id: u64 = decode_u64(input, 4).ok_or(PrecompileError::Other("invalid assetId"))?;
        let amount: u128 = decode_u128(input, 68).ok_or(PrecompileError::Other("invalid amount"))?;
        let nullifier = decode_bytes32(input, 100).ok_or(
            PrecompileError::Other("invalid nullifier"),
        )?;
        let merkle_root = decode_bytes32(input, 132).ok_or(
            PrecompileError::Other("invalid merkleRoot"),
        )?;
        let stored = StorageCtx::read(storage, shielded_address(), slot_tag("merkle_root"));
        if merkle_root != stored {
            return Err(PrecompileError::Other("shielded withdraw: merkle root mismatch"));
        }
        match decode_bytes(input, 164) {
            None => Ok(()),
            Some(proof_data) => {
                let request = ProofRequest {
                    proof_data,
                    nullifier,
                    asset_id,
                    merkle_root,
                    amount,
                };
                let ghost q = request@;
                proof {
                    assert(withdrawal_proof(input@) == Some(q));
                }
                match (self.verify)(request) {
                    Ok(valid) => if valid {
                        Ok(())
                    } else {
                        Err(PrecompileError::Other("shielded withdraw: invalid ZK proof"))
                    },
                    Err(e) => Err(PrecompileError::ProofSystem(e)),
                }
            },
        }
    }

    /// Releases an amount whose claim has been checked.
    pub fn release_to<P: StorageProvider>(
        storage: &mut P,
        asset_id: u64,
        target: Address,
        amount: u128,
        nullifier: U256,
    ) -> (r: PrecompileResult)
        ensures
            (outcome(r), final(storage).world()) == release(
                old(storage).world(),
                asset_id,
                target,
                amount,
                nullifier,
            ),
    {
        if nullifier_spent(storage, nullifier) {
            return Err(PrecompileError::Other("shielded withdraw: nullifier already spent"));
        }
        mark_spent(storage, nullifier);
        let held: u128 = load_bal(storage, asset_id, target).checked_add(amount).ok_or(
            PrecompileError::Other("shielded withdraw: balance overflow"),
        )?;
        save_bal(storage, asset_id, target, held);
        ok_empty(storage)
    }

    pub fn withdraw<P: StorageProvider>(&self, storage: &mut P, input: &[u8]) -> (r:
        PrecompileResult)
        requires
            is_decision(self.verify),
        ensures
            (outcome(r), final(storage).world()) == withdraw_effect(
                old(storage).world(),
                self.verify,
                input@,
            ),
    {
        StorageCtx::deduct_gas(storage, 50000).ok_or(PrecompileError::OutOfGas)?;
        if input.len() < 132 {
            return Err(PrecompileError::Other("invalid input"));
        }
        let asset_id: u64 = decode_u64(input, 4).ok_or(PrecompileError::Other("invalid assetId"))?;
        let target = decode_address(input, 36).ok_or(PrecompileError::Other("invalid target"))?;
        let amount: u128 = decode_u128(input, 68).ok_or(PrecompileError::Other("invalid amount"))?;
        let nullifier = decode_bytes32(input, 100).ok_or(
            PrecompileError::Other("invalid nullifier"),
        )?;
        self.check_claim(storage, input)?;
        Self::release_to(storage, asset_id, target, amount, nullifier)
    }

    pub fn transfer<P: StorageProvider>(&self, storage: &mut P, input: &[u8]) -> (r:
        PrecompileResult)
        requires
            is_function(self.hash),
        ensures
            (outcome(r), final(storage).world()) == transfer_effect(
                old(storage).world(),
                self.hash,
                input@,
            ),
    {
        StorageCtx::deduct_gas(storage, 100000).ok_or(PrecompileError::OutOfGas)?;
        if input.len() < 100 {
            return Err(PrecompileError::Other("invalid input"));
        }
        let nullifiers = decode_bytes32_array(input, 36).ok_or(
            PrecompileError::Other("invalid nullifiers"),
        )?;
        let commitments = decode_bytes32_array(input, 68).ok_or(
            PrecompileError::Other("invalid commitments"),
        )?;
        if spent_among(storage, &nullifiers) {
            return Err(PrecompileError::Other("shielded transfer: nullifier already spent"));
        }
        spend_each(storage, &nullifiers);
        append_each(storage, &self.hash, &commitments)?;
        ok_empty(storage)
    }

    pub fn get_merkle_root<P: StorageProvider>(&self, storage: &mut P, input: &[u8]) -> (r:
        PrecompileResult)
        ensures
            (outcome(r), final(storage).world()) == get_merkle_root_effect(
                old(storage).world(),
                input@,
            ),
    {
        StorageCtx::deduct_gas(storage, 1000).ok_or(PrecompileError::OutOfGas)?;
        if input.len() < 4 {
            return Err(PrecompileError::Other("invalid input"));
        }
        let root = StorageCtx::read(storage, shielded_address(), slot_tag("merkle_root"));
        ok_bytes(storage, root.to_be_bytes())
    }

    pub fn get_commitment_count<P: StorageProvider>(&self, storage: &mut P, input: &[u8]) -> (r:
        PrecompileResult)
        ensures
            (outcome(r), final(storage).world()) == get_count_effect(old(storage).world(), input@),
    {
        StorageCtx::deduct_gas(storage, 1000).ok_or(PrecompileError::OutOfGas)?;
        if input.len() < 4 {
            return Err(PrecompileError::Other("invalid input"));
        }
        let count: u64 = u256_to_u64(
            StorageCtx::read(storage, shielded_address(), slot_tag("cm_count")),
        );
        ok_bytes(storage, encode_u64(count))
    }

    pub fn get_commitment<P: StorageProvider>(&self, storage: &mut P, input: &[u8]) -> (r:
        PrecompileResult)
        ensures
            (outcome(r), final(storage).world()) == get_commitment_effect(
                old(storage).world(),
                input@,
            ),
    {
        StorageCtx::deduct_gas(storage, 2000).ok_or(PrecompileError::OutOfGas)?;
        if input.len() < 12 {
            return Err(PrecompileError::Other("invalid input"));
        }
        let index: u64 = decode_u64(input, 4).ok_or(PrecompileError::Other("invalid index"))?;
        let v = StorageCtx::read(storage, shielded_address(), slot_shielded_commitment(index));
        ok_bytes(storage, v.to_be_bytes())
    }

    pub fn is_nullifier_spent<P: StorageProvider>(&self, storage: &mut P, input: &[u8]) -> (r:
        PrecompileResult)
        ensures
            (outcome(r), final(storage).world()) == is_spent_effect(old(storage).world(), input@),
    {
        StorageCtx::deduct_gas(storage, 2000).ok_or(PrecompileError::OutOfGas)?;
        if input.len() < 36 {
            return Err(PrecompileError::Other("invalid input"));
        }
        let nullifier = decode_bytes32(input, 4).ok_or(
            PrecompileError::Other("invalid nullifier"),
        )?;
        let spent: bool = nullifier_spent(storage, nullifier);
        ok_bytes(
            storage,
            encode_u8(
                if spent {
                    1
                } else {
                    0
                },
            ),
        )
    }
}

fn spent_among<P: StorageProvider>(storage: &mut P, nullifiers: &Vec<U256>) -> (r: bool)
    ensures
        (r, final(storage).world()) == any_spent(old(storage).world(), nullifiers@, 0),
{
    let mut i: usize = 0;
    while i < nullifiers.len()
        invariant
            i <= nullifiers@.len(),
            any_spent(storage.world(), nullifiers@, i as int) == any_spent(
                old(storage).world(),
                nullifiers@,
                0,
            ),
        decreases nullifiers@.len() - i,
    {
        if nullifier_spent(storage, nullifiers[i]) {
            return true;
        }
        i += 1;
    }
    false
}

fn spend_each<P: StorageProvider>(storage: &mut P, nullifiers: &Vec<U256>)
    ensures
        final(storage).world() == spend_all(old(storage).world(), nullifiers@, 0),
{
    let mut i: usize = 0;
    while i < nullifiers.len()
        invariant
            i <= nullifiers@.len(),
            spend_all(storage.world(), nullifiers@, i as int) == spend_all(
                old(storage).world(),
                nullifiers@,
                0,
            ),
        decreases nullifiers@.len() - i,
    {
        mark_spent(storage, nullifiers[i]);
        i += 1;
    }
}

fn append_each<P: StorageProvider, H: Fn(U256, U256) -> U256>(
    storage: &mut P,
    hash: &H,
    commitments: &Vec<U256>,
) -> (r: Result<(), PrecompileError>)
    requires
        is_function(*hash),
    ensures
        (r is Ok, final(storage).world()) == append_all(
            old(storage).world(),
            *hash,
            commitments@,
            0,
        ),
        r matches Err(e) ==> e == PrecompileError::Fatal("commitment count overflow"),
{
    let mut i: usize = 0;
    while i < commitments.len()
        invariant
            i <= commitments@.len(),
            is_function(*hash),
            append_all(storage.world(), *hash, commitments@, i as int) == append_all(
                old(storage).world(),
                *hash,
                commitments@,
                0,
            ),
        decreases commitments@.len() - i,
    {
        append_commitment(storage, hash, commitments[i])?;
        i += 1;
    }
    Ok(())
}

/// What a call of the shielded-pool precompile comes to.
pub open spec fn shielded_effect<
    H: Fn(U256, U256) -> U256,
    V: Fn(ProofRequest) -> Result<bool, String>,
>(w: World, hash: H, verify: V, calldata: Seq<u8>, sender: Address) -> (Outcome, World) {
    if calldata.len() < 4 {
        (refused("too short"), w)
    } else {
        match selector_of(calldata) {
            0x168f44f5 => deposit_effect(w, hash, calldata, sender),
            0x175231d5 => withdraw_effect(w, verify, calldata),
            0x1c3b10f8 => transfer_effect(w, hash, calldata),
            0xe0c7497f => get_merkle_root_effect(w, calldata),
            0x11985ba9 => get_count_effect(w, calldata),
            0x2382d4c4 => get_commitment_effect(w, calldata),
            0x371dff59 => is_spent_effect(w, calldata),
            _ => (refused("unknown selector"), w),
        }
    }
}

impl<
    H: Fn(U256, U256) -> U256,
    V: Fn(ProofRequest) -> Result<bool, String>,
> StatefulPrecompile for ShieldedPrecompile<H, V> {
    open spec fn effect(&self, w: World, calldata: Seq<u8>, sender: Address) -> (Outcome, World) {
        shielded_effect(w, self.hash, self.verify, calldata, sender)
    }

    open spec fn ready(&self) -> bool {
        is_function(self.hash) && is_decision(self.verify)
    }

    fn call<P: StorageProvider>(
        &mut self,
        storage: &mut P,
        calldata: &[u8],
        msg_sender: Address,
    ) -> (r: PrecompileResult) {
        if calldata.len() < 4 {
            return Err(PrecompileError::Other("too short"));
        }
        match decode_selector(calldata) {
            0x168f44f5 => self.deposit(storage, calldata, msg_sender),
            0x175231d5 => self.withdraw(storage, calldata),
            0x1c3b10f8 => self.transfer(storage, calldata),
            0xe0c7497f => self.get_merkle_root(storage, calldata),
            0x11985ba9 => self.get_commitment_count(storage, calldata),
            0x2382d4c4 => self.get_commitment(storage, calldata),
            0x371dff59 => self.is_nullifier_spent(storage, calldata),
            _ => Err(PrecompileError::Other("unknown selector")),
        }
    }
}

/// Whether a nullifier is spent, by what is on record.
pub open spec fn is_spent(w: World, nullifier: U256) -> bool {
    u8_of(w.slot(shielded_address(), tagged_slot("nullifier", nullifier))) == 1
}

/// A withdrawal pays its target and spends its nullifier, and no withdrawal with that nullifier is
/// paid afterwards, whatever it claims.
pub proof fn law_nullifier_pays_once<V: Fn(ProofRequest) -> Result<bool, String>>(
    w: World,
    verify: V,
    input: Seq<u8>,
    later: World,
    again: Seq<u8>,
)
    requires
        able(w, 200_000),
        input.len() >= 132,
        claim_problem(w.charge(50000).1, verify, input).0 is None,
        !is_spent(w, word_at(input, 100)),
        holding(w, u64_at(input, 4), address_at(input, 36)) + u128_at(input, 68) <= u128::MAX,
        later.slots == withdraw_effect(w, verify, input).1.slots,
        able(later, 200_000),
        again.len() >= 132,
        word_at(again, 100) == word_at(input, 100),
    ensures
        ({
            let asset_id = u64_at(input, 4);
            let target = address_at(input, 36);
            let (o, after) = withdraw_effect(w, verify, input);
            &&& o is Done
            &&& holding(after, asset_id, target) == holding(w, asset_id, target) + u128_at(
                input,
                68,
            )
            &&& is_spent(after, word_at(input, 100))
            &&& withdraw_effect(later, verify, again).0 is Failed
            &&& withdraw_effect(later, verify, again).1.slots == later.slots
        }),
{
    broadcast use group_steps;

    law_word_round_trips(0, 0, Address { hi: 0, lo: 0 }, 1);
}

/// A withdrawal whose nullifier is spent is refused and changes nothing. One whose nullifier is not
/// spends it and pays the target exactly its amount, and no other nullifier and no other balance
/// changes.
pub proof fn law_withdrawal_is_exact<V: Fn(ProofRequest) -> Result<bool, String>>(
    w: World,
    verify: V,
    input: Seq<u8>,
)
    requires
        able(w, 200_000),
        input.len() >= 132,
        input.len() >= 164 ==> claim_problem(w.charge(50000).1, verify, input).0 is None,
        holding(w, u64_at(input, 4), address_at(input, 36)) + u128_at(input, 68) <= u128::MAX,
    ensures
        ({
            let asset_id = u64_at(input, 4);
            let target = address_at(input, 36);
            let nullifier = word_at(input, 100);
            let (o, after) = withdraw_effect(w, verify, input);
            if is_spent(w, nullifier) {
                o is Failed && after.slots == w.slots
            } else {
                &&& o is Done
                &&& is_spent(after, nullifier)
                &&& holding(after, asset_id, target) == holding(w, asset_id, target) + u128_at(
                    input,
                    68,
                )
                &&& forall|n: U256|
                    tagged_slot("nullifier", n) != tagged_slot("nullifier", nullifier)
                        ==> #[trigger] is_spent(after, n) == is_spent(w, n)
                &&& forall|id: u64, account: Address|
                    balance_slot(id, account) != balance_slot(asset_id, target)
                        ==> #[trigger] holding(after, id, account) == holding(w, id, account)
            }
        }),
{
    broadcast use group_steps;

    law_word_round_trips(0, 0, Address { hi: 0, lo: 0 }, 1);
}

pub(crate) proof fn lemma_any_spent(w: World, nullifiers: Seq<U256>, i: int)
    requires
        0 <= i <= nullifiers.len(),
        able(w, 2_100 * (nullifiers.len() - i)),
    ensures
        ({
            let (spent, after) = any_spent(w, nullifiers, i);
            &&& spent == exists|j: int|
                i <= j < nullifiers.len() && is_spent(w, #[trigger] nullifiers[j])
            &&& after.slots == w.slots
            &&& !spent ==> able(after, w.gas - 2_100 * (nullifiers.len() - i))
        }),
    decreases nullifiers.len() - i,
{
    broadcast use group_steps;

    if i < nullifiers.len() {
        let (spent, w1) = spent_read(w, nullifiers[i]);
        if !spent {
            lemma_any_spent(w1, nullifiers, i + 1);
            if exists|j: int| i + 1 <= j < nullifiers.len() && is_spent(w1, #[trigger] nullifiers[j]) {
                let j = choose|j: int|
                    i + 1 <= j < nullifiers.len() && is_spent(w1, #[trigger] nullifiers[j]);
                assert(is_spent(w, nullifiers[j]));
            }
            if exists|j: int| i <= j < nullifiers.len() && is_spent(w, #[trigger] nullifiers[j]) {
                let j = choose|j: int|
                    i <= j < nullifiers.len() && is_spent(w, #[trigger] nullifiers[j]);
                assert(is_spent(w1, nullifiers[j]));
            }
        } else {
            assert(is_spent(w, nullifiers[i]));
        }
    }
}

/// A transfer that uses a nullifier which is already spent is refused and changes nothing.
pub proof fn law_spent_nullifier_is_refused<H: Fn(U256, U256) -> U256>(
    w: World,
    hash: H,
    input: Seq<u8>,
    nullifiers: Seq<U256>,
    commitments: Seq<U256>,
    at: int,
)
    requires
        words_at(input, 36) == Some(nullifiers),
        words_at(input, 68) == Some(commitments),
        input.len() >= 100,
        0 <= at < nullifiers.len(),
        is_spent(w, nullifiers[at]),
        able(w, 100_000 + 2_100 * nullifiers.len() as int),
    ensures
        transfer_effect(w, hash, input).0 == refused("shielded transfer: nullifier already spent"),
        transfer_effect(w, hash, input).1.slots == w.slots,
{
    broadcast use group_steps;

    let w1 = w.charge(100000).1;
    assert(is_spent(w1, nullifiers[at]));
    lemma_any_spent(w1, nullifiers, 0);
}

} // verus!
