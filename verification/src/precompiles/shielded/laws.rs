//! What a claim on the pool has to show, and what the pool answers, said of the call and the slots.

use crate::precompiles::abi::{
    address_at, bytes_at, number_word, selector_of, u128_at, u64_at, word_at, words_at,
};
use crate::precompiles::shielded::{
    deposit_effect, get_commitment_effect, get_count_effect, get_merkle_root_effect,
    is_decision, is_spent, is_spent_effect, lemma_any_spent, shielded_effect, transfer_effect, verdict,
    withdraw_effect, ProofModel, ProofRequest,
};
use crate::precompiles::slots::{
    asset_address, balance_slot, commitment_slot, shielded_address, tag_slot, tagged_slot,
};
use crate::precompiles::steps::{able, group_steps};
use crate::precompiles::storage::{Fault, Outcome, World};
use crate::words::{u64_of, word, Address, U256};
use vstd::prelude::*;

verus! {

/// What an account holds of an asset outside the pool.
pub open spec fn outside(w: World, asset_id: u64, account: Address) -> int {
    w.slot(asset_address(), balance_slot(asset_id, account)).lo as int
}

/// Whether a nullifier has been used.
pub open spec fn used(w: World, nullifier: U256) -> bool {
    w.slot(shielded_address(), tagged_slot("nullifier", nullifier)).lo % 0x100 == 1
}

/// The root that the pool has on record.
pub open spec fn root_on_record(w: World) -> U256 {
    w.slot(shielded_address(), tag_slot("merkle_root"))
}

/// A withdrawal is paid out exactly where the root it carries, if any, is the one on record, the
/// proof it carries, if any, is found valid by the verifier for just this proof, nullifier, asset,
/// root and amount, the nullifier has not been used, and the recipient's balance has room. It uses
/// the nullifier and adds the amount to the recipient's balance, and changes no other slot.
pub proof fn law_claim_is_exact<V: Fn(ProofRequest) -> Result<bool, String>>(
    w: World,
    verify: V,
    input: Seq<u8>,
)
    requires
        able(w, 200_000),
    ensures
        ({
            let (o, after) = withdraw_effect(w, verify, input);
            let asset_id = u64_at(input, 4);
            let target = address_at(input, 36);
            let amount = u128_at(input, 68);
            let nullifier = word_at(input, 100);
            let root = word_at(input, 132);
            let carries_proof = bytes_at(input, 164) is Some;
            let found = verdict(
                verify,
                ProofModel {
                    proof_data: bytes_at(input, 164)->0,
                    nullifier,
                    asset_id,
                    merkle_root: root,
                    amount,
                },
            );
            &&& o is Done <==> {
                &&& input.len() >= 132
                &&& input.len() >= 164 ==> root == root_on_record(w)
                &&& carries_proof ==> found == Ok::<bool, Seq<char>>(true)
                &&& !used(w, nullifier)
                &&& outside(w, asset_id, target) + amount <= u128::MAX
            }
            &&& o is Done ==> {
                &&& after.slots == w.slots.insert(
                    (shielded_address(), tagged_slot("nullifier", nullifier)),
                    word(1),
                ).insert(
                    (asset_address(), balance_slot(asset_id, target)),
                    word((outside(w, asset_id, target) + amount) as u128),
                )
                &&& used(after, nullifier)
                &&& outside(after, asset_id, target) == outside(w, asset_id, target) + amount
                &&& after.balances == w.balances
                &&& after.logs == w.logs
            }
            &&& input.len() >= 164 && root != root_on_record(w) ==> {
                &&& o == Outcome::Failed(Fault::Other("shielded withdraw: merkle root mismatch"))
                &&& after.slots == w.slots
            }
            &&& carries_proof && root == root_on_record(w) && found == Ok::<bool, Seq<char>>(false)
                ==> {
                &&& o == Outcome::Failed(Fault::Other("shielded withdraw: invalid ZK proof"))
                &&& after.slots == w.slots
            }
            &&& carries_proof && root == root_on_record(w) ==> (found matches Err(text) ==> {
                &&& o == Outcome::Failed(Fault::ProofSystem(text))
                &&& after.slots == w.slots
            })
            &&& used(w, nullifier) ==> after.slots == w.slots
        }),
{
    broadcast use group_steps;

}

/// What the verifier answers to a request made of the call's own proof, nullifier, asset, root and
/// amount decides a withdrawal that carries them: where the root is not the one on record or the
/// answer is not that the proof is valid, nothing is paid out, and where both are in order, the
/// nullifier has not been used and the balance has room, the amount is.
pub proof fn law_verifier_decides<V: Fn(ProofRequest) -> Result<bool, String>>(
    w: World,
    verify: V,
    input: Seq<u8>,
    request: ProofRequest,
    reply: Result<bool, String>,
)
    requires
        able(w, 200_000),
        is_decision(verify),
        bytes_at(input, 164) == Some(request.proof_data@),
        request.nullifier == word_at(input, 100),
        request.asset_id == u64_at(input, 4),
        request.merkle_root == word_at(input, 132),
        request.amount == u128_at(input, 68),
        verify.ensures((request,), reply),
    ensures
        ({
            let (o, after) = withdraw_effect(w, verify, input);
            let target = address_at(input, 36);
            &&& o is Done <==> {
                &&& request.merkle_root == root_on_record(w)
                &&& reply == Ok::<bool, String>(true)
                &&& !used(w, request.nullifier)
                &&& outside(w, request.asset_id, target) + request.amount <= u128::MAX
            }
            &&& request.merkle_root != root_on_record(w) || reply != Ok::<bool, String>(true)
                ==> o is Failed && after.slots == w.slots
            &&& request.merkle_root == root_on_record(w) ==> (reply matches Err(text) ==> o
                == Outcome::Failed(Fault::ProofSystem(text@)))
        }),
{
    law_claim_is_exact(w, verify, input);
    assert(request@ == ProofModel {
        proof_data: bytes_at(input, 164)->0,
        nullifier: word_at(input, 100),
        asset_id: u64_at(input, 4),
        merkle_root: word_at(input, 132),
        amount: u128_at(input, 68),
    });
}

/// A deposit of more than the caller holds is refused, and so is one without a commitment; neither
/// changes a slot.
pub proof fn law_deposit_needs_cover<H: Fn(U256, U256) -> U256>(
    w: World,
    hash: H,
    input: Seq<u8>,
    sender: Address,
)
    requires
        able(w, 200_000),
        input.len() < 100 || outside(w, u64_at(input, 4), sender) < u128_at(input, 36),
    ensures
        deposit_effect(w, hash, input, sender).0 is Failed,
        deposit_effect(w, hash, input, sender).1.slots == w.slots,
{
    broadcast use group_steps;

}

/// A transfer is refused, and changes no slot, exactly where it cannot be read or one of its
/// nullifiers has been used; the only other failure is a count of commitments at its limit.
pub proof fn law_transfer_needs_fresh_nullifiers<H: Fn(U256, U256) -> U256>(
    w: World,
    hash: H,
    input: Seq<u8>,
)
    requires
        words_at(input, 36) matches Some(nullifiers) ==> able(
            w,
            100_000 + 2_100 * nullifiers.len() as int,
        ),
        able(w, 100_000),
    ensures
        ({
            let (o, after) = transfer_effect(w, hash, input);
            let spoilt = input.len() < 100 || words_at(input, 36) is None || words_at(input, 68)
                is None || exists|j: int|
                0 <= j < words_at(input, 36)->0.len() && used(
                    w,
                    #[trigger] words_at(input, 36)->0[j],
                );
            &&& spoilt ==> o is Failed && after.slots == w.slots
            &&& !spoilt ==> o is Done || o == Outcome::Failed(
                Fault::Fatal("commitment count overflow"),
            )
        }),
{
    broadcast use group_steps;

    if input.len() >= 100 && words_at(input, 36) is Some && words_at(input, 68) is Some {
        let nullifiers = words_at(input, 36)->0;
        let w1 = w.charge(100000).1;
        lemma_any_spent(w1, nullifiers, 0);
        if exists|j: int| 0 <= j < nullifiers.len() && used(w, #[trigger] nullifiers[j]) {
            let j = choose|j: int| 0 <= j < nullifiers.len() && used(w, #[trigger] nullifiers[j]);
            assert(is_spent(w1, nullifiers[j]));
        }
        if exists|j: int| 0 <= j < nullifiers.len() && is_spent(w1, #[trigger] nullifiers[j]) {
            let j = choose|j: int|
                0 <= j < nullifiers.len() && is_spent(w1, #[trigger] nullifiers[j]);
            assert(used(w, nullifiers[j]));
        }
    }
}

/// What is asked of the pool is answered with what is on record, and asking changes no slot.
pub proof fn law_pool_answers(w: World, input: Seq<u8>)
    requires
        able(w, 10_000),
        input.len() >= 36,
    ensures
        ({
            let (root, w1) = get_merkle_root_effect(w, input);
            let (count, w2) = get_count_effect(w, input);
            let (leaf, w3) = get_commitment_effect(w, input);
            let (spent, w4) = is_spent_effect(w, input);
            &&& root is Done && root->data == root_on_record(w).bytes()
            &&& count is Done && count->data == number_word(
                u64_of(w.slot(shielded_address(), tag_slot("cm_count"))) as nat,
                8,
            )
            &&& leaf is Done && leaf->data == w.slot(
                shielded_address(),
                commitment_slot(u64_at(input, 4)),
            ).bytes()
            &&& spent is Done && spent->data == number_word(
                if used(w, word_at(input, 4)) {
                    1
                } else {
                    0
                },
                1,
            )
            &&& w1.slots == w.slots && w2.slots == w.slots && w3.slots == w.slots && w4.slots
                == w.slots
        }),
{
    broadcast use group_steps;

}

/// The first four bytes of the call decide what it does; any others are refused and change nothing.
pub proof fn law_pool_selectors<
    H: Fn(U256, U256) -> U256,
    V: Fn(ProofRequest) -> Result<bool, String>,
>(w: World, hash: H, verify: V, calldata: Seq<u8>, sender: Address)
    requires
        calldata.len() >= 4,
    ensures
        ({
            let s = selector_of(calldata);
            let r = shielded_effect(w, hash, verify, calldata, sender);
            &&& s == 0x168f44f5 ==> r == deposit_effect(w, hash, calldata, sender)
            &&& s == 0x175231d5 ==> r == withdraw_effect(w, verify, calldata)
            &&& s == 0x1c3b10f8 ==> r == transfer_effect(w, hash, calldata)
            &&& s == 0xe0c7497f ==> r == get_merkle_root_effect(w, calldata)
            &&& s == 0x11985ba9 ==> r == get_count_effect(w, calldata)
            &&& s == 0x2382d4c4 ==> r == get_commitment_effect(w, calldata)
            &&& s == 0x371dff59 ==> r == is_spent_effect(w, calldata)
            &&& s != 0x168f44f5 && s != 0x175231d5 && s != 0x1c3b10f8 && s != 0xe0c7497f && s
                != 0x11985ba9 && s != 0x2382d4c4 && s != 0x371dff59 ==> r.0 is Failed && r.1 == w
        }),
{
}

} // verus!
