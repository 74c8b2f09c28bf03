//! What the bridge's calls come to, said of the call and the slots.

use crate::crypto::keccak256_word;
use crate::precompiles::abi::{
    address_at, address_word_bytes, bytes_at, number_word, selector_of, u128_at, u64_at, word_at,
};
use crate::precompiles::bridge::{
    bridge_effect, bridge_to_evm_effect, bridge_to_protocol_effect, deposit_effect, deposit_slots,
    external_deposit_effect, external_withdraw_effect, get_challenge_status_effect,
    initiate_challenge_effect, lemma_deposit_slots, resolve_effect, withdraw_bond_effect,
};
use crate::precompiles::slots::{
    asset_address, asset_meta_slot, balance_slot, bridge_address, tag_slot, tagged_slot,
    validator_address, validator_slot,
};
use crate::precompiles::steps::{able, group_steps};
use crate::precompiles::storage::{Fault, Outcome, World};
use crate::words::{
    address_of, address_word, law_word_round_trips, u64_of, u8_of, word, zero_address, zero_word,
    Address, U256,
};
use vstd::prelude::*;

verus! {

/// What an account holds of an asset.
pub open spec fn held(w: World, asset_id: u64, account: Address) -> int {
    w.slot(asset_address(), balance_slot(asset_id, account)).lo as int
}

/// What has come in over the bridge.
pub open spec fn came_in(w: World) -> int {
    w.slot(bridge_address(), word(0)).lo as int
}

/// What has gone out over the bridge.
pub open spec fn went_out(w: World) -> int {
    w.slot(bridge_address(), word(1)).lo as int
}

/// Whether the bridge takes an asset: it has an issuer, and the bridge is not paused.
pub open spec fn taken(w: World, asset_id: u64) -> bool {
    &&& address_of(w.slot(asset_address(), asset_meta_slot(asset_id, "issuer"))) != zero_address()
    &&& u8_of(w.slot(bridge_address(), tag_slot("paused"))) == 0
}

/// Whether an asset is other than asset 0, and active.
pub open spec fn bridgeable(w: World, asset_id: u64) -> bool {
    &&& asset_id != 0
    &&& u8_of(w.slot(asset_address(), asset_meta_slot(asset_id, "status"))) == 0
}

/// What is on record about a deposit.
pub open spec fn noted(w: World, name: &str, tx: U256) -> U256 {
    w.slot(bridge_address(), tagged_slot(name, tx))
}

/// The slots after an account has been given an amount.
pub open spec fn given(
    slots: Map<(Address, U256), U256>,
    w: World,
    asset_id: u64,
    account: Address,
    amount: int,
) -> Map<(Address, U256), U256> {
    slots.insert(
        (asset_address(), balance_slot(asset_id, account)),
        word((held(w, asset_id, account) + amount) as u128),
    )
}

/// An asset leaves over the bridge exactly where it can be bridged, the caller holds the amount, and
/// the running total has room: the caller's balance falls and the total of what went out rises by
/// the amount, and no other slot changes.
pub proof fn law_outgoing_is_exact(w: World, input: Seq<u8>, sender: Address)
    requires
        able(w, 200_000),
    ensures
        ({
            let (o, after) = bridge_to_evm_effect(w, input, sender);
            let asset_id = u64_at(input, 4);
            let amount = u128_at(input, 68);
            &&& o is Done <==> {
                &&& input.len() >= 100
                &&& bridgeable(w, asset_id)
                &&& taken(w, asset_id)
                &&& held(w, asset_id, sender) >= amount
                &&& went_out(w) + amount <= u128::MAX
            }
            &&& o is Done ==> after.slots == given(w.slots, w, asset_id, sender, -amount).insert(
                (bridge_address(), word(1)),
                word((went_out(w) + amount) as u128),
            )
            &&& o is Failed && went_out(w) + amount <= u128::MAX ==> after.slots == w.slots
        }),
{
    broadcast use group_steps;

}

/// An asset arrives over the bridge exactly where it can be bridged, and the recipient's balance and
/// the running total have room: both rise by the amount, and no other slot changes.
pub proof fn law_incoming_is_exact(w: World, input: Seq<u8>)
    requires
        able(w, 200_000),
    ensures
        ({
            let (o, after) = bridge_to_protocol_effect(w, input);
            let asset_id = u64_at(input, 4);
            let to = address_at(input, 36);
            let amount = u128_at(input, 68);
            &&& o is Done <==> {
                &&& input.len() >= 100
                &&& bridgeable(w, asset_id)
                &&& taken(w, asset_id)
                &&& held(w, asset_id, to) + amount <= u128::MAX
                &&& came_in(w) + amount <= u128::MAX
            }
            &&& o is Done ==> after.slots == given(w.slots, w, asset_id, to, amount as int).insert(
                (bridge_address(), word(0)),
                word((came_in(w) + amount) as u128),
            )
            &&& o is Failed && came_in(w) + amount <= u128::MAX ==> after.slots == w.slots
        }),
{
    broadcast use group_steps;

}

/// A deposit that carries a proof is credited like any other; one that carries none is refused.
pub proof fn law_proved_deposit_is_exact(w: World, input: Seq<u8>)
    requires
        able(w, 200_000),
    ensures
        ({
            let (o, after) = deposit_effect(w, input);
            let asset_id = u64_at(input, 100);
            let to = address_at(input, 36);
            let amount = u128_at(input, 68);
            &&& o is Done <==> {
                &&& input.len() >= 164
                &&& bytes_at(input, 132) is Some
                &&& taken(w, asset_id)
                &&& held(w, asset_id, to) + amount <= u128::MAX
                &&& came_in(w) + amount <= u128::MAX
            }
            &&& o is Done ==> after.slots == given(w.slots, w, asset_id, to, amount as int).insert(
                (bridge_address(), word(0)),
                word((came_in(w) + amount) as u128),
            )
            &&& o is Failed && came_in(w) + amount <= u128::MAX ==> after.slots == w.slots
        }),
{
    broadcast use group_steps;

}

/// A withdrawal to another chain needs a target, a bridge that takes the asset, and cover; it takes
/// the amount from the caller and counts it as gone out.
pub proof fn law_external_withdrawal_is_exact(w: World, input: Seq<u8>, sender: Address)
    requires
        able(w, 200_000),
    ensures
        ({
            let (o, after) = external_withdraw_effect(w, input, sender);
            let asset_id = u64_at(input, 36);
            let amount = u128_at(input, 68);
            &&& o is Done <==> {
                &&& input.len() >= 132
                &&& bytes_at(input, 100) is Some
                &&& taken(w, asset_id)
                &&& held(w, asset_id, sender) >= amount
                &&& went_out(w) + amount <= u128::MAX
            }
            &&& o is Done ==> after.slots == given(w.slots, w, asset_id, sender, -amount).insert(
                (bridge_address(), word(1)),
                word((went_out(w) + amount) as u128),
            )
            &&& o is Failed && went_out(w) + amount <= u128::MAX ==> after.slots == w.slots
        }),
{
    broadcast use group_steps;

}

/// A deposit from another chain is credited exactly where its transaction has not been processed,
/// the bridge takes the asset, and there is room. It is recorded under its transaction with its
/// asset, recipient, amount and block, and with the validator that reported it.
pub proof fn law_external_deposit_is_exact(w: World, input: Seq<u8>, sender: Address)
    requires
        able(w, 400_000),
        deposit_slots(word_at(input, 4)).no_duplicates(),
    ensures
        ({
            let (o, after) = external_deposit_effect(w, input, sender);
            let tx = word_at(input, 4);
            let asset_id = u64_at(input, 36);
            let to = address_at(input, 68);
            let amount = u128_at(input, 100);
            let b = bridge_address();
            let good = {
                &&& input.len() >= 132
                &&& noted(w, "processed", tx) == zero_word()
                &&& taken(w, asset_id)
            };
            let fits = {
                &&& held(w, asset_id, to) + amount <= u128::MAX
                &&& came_in(w) + amount <= u128::MAX
            };
            &&& o is Done <==> good && fits
            &&& o is Done ==> after.slots == given(
                w.slots.insert((b, tagged_slot("processed", tx)), word(1)).insert(
                    (b, tagged_slot("deposit_asset_id", tx)),
                    word(asset_id as u128),
                ).insert((b, tagged_slot("deposit_recipient", tx)), address_word(to)).insert(
                    (b, tagged_slot("deposit_amount", tx)),
                    word(amount),
                ).insert(
                    (b, tagged_slot("deposit_block", tx)),
                    word(w.block_number as u128),
                ).insert((b, tagged_slot("challenge_validator", tx)), address_word(sender)),
                w,
                asset_id,
                to,
                amount as int,
            ).insert((b, word(0)), word((came_in(w) + amount) as u128))
            &&& !good ==> o is Failed && after.slots == w.slots
        }),
{
    broadcast use group_steps;

    lemma_deposit_slots(word_at(input, 4));
}

/// How long a deposit can be challenged, in blocks: 100 unless something else is on record.
pub open spec fn open_for(w: World) -> int {
    let v = u64_of(w.slot(bridge_address(), tag_slot("challenge_period")));
    if v == 0 {
        100
    } else {
        v as int
    }
}

/// What a challenger puts up: 1000 unless something else is on record.
pub open spec fn at_stake(w: World) -> int {
    let v = w.slot(bridge_address(), tag_slot("challenge_bond")).lo;
    if v == 0 {
        1000
    } else {
        v as int
    }
}

/// A challenge is opened exactly against a deposit that is on record, has none yet and is still
/// within the challenge period, by a caller that can put up the bond. The bond leaves the caller's
/// balance; the challenge is recorded with challenger, deadline, bond and the hash of the proof.
pub proof fn law_challenge_is_exact(w: World, input: Seq<u8>, sender: Address)
    requires
        able(w, 400_000),
    ensures
        ({
            let (o, after) = initiate_challenge_effect(w, input, sender);
            let tx = word_at(input, 4);
            let b = bridge_address();
            let made = u64_of(noted(w, "deposit_block", tx)) as int;
            let now = w.block_number as int;
            &&& o is Done <==> {
                &&& input.len() >= 68
                &&& bytes_at(input, 36) is Some
                &&& noted(w, "processed", tx) != zero_word()
                &&& u8_of(noted(w, "challenge_status", tx)) == 0
                &&& made + open_for(w) <= u64::MAX
                &&& now < made + open_for(w)
                &&& held(w, 1, sender) >= at_stake(w)
                &&& now + open_for(w) <= u64::MAX
            }
            &&& o is Done ==> after.slots == given(w.slots, w, 1, sender, -at_stake(w)).insert(
                (b, tagged_slot("challenge_status", tx)),
                word(1),
            ).insert((b, tagged_slot("challenge_challenger", tx)), address_word(sender)).insert(
                (b, tagged_slot("challenge_deadline", tx)),
                word((now + open_for(w)) as u128),
            ).insert((b, tagged_slot("challenge_bond", tx)), word(at_stake(w) as u128)).insert(
                (b, tagged_slot("challenge_proof_hash", tx)),
                keccak256_word(bytes_at(input, 36)->0),
            )
            &&& o is Failed && now + open_for(w) <= u64::MAX ==> after.slots == w.slots
        }),
{
    broadcast use group_steps;

}

/// A challenge is resolved only while it is pending and once its deadline is reached; before, the
/// call is refused and changes nothing.
pub proof fn law_resolution_waits(w: World, input: Seq<u8>, valid: bool)
    requires
        able(w, 900_000),
        input.len() < 36 || u8_of(noted(w, "challenge_status", word_at(input, 4))) != 1
            || w.block_number < u64_of(noted(w, "challenge_deadline", word_at(input, 4))),
    ensures
        resolve_effect(w, input, valid).0 is Failed,
        resolve_effect(w, input, valid).1.slots == w.slots,
{
    broadcast use group_steps;

}

/// A challenge that fails is closed and its bond goes to the validator that reported the deposit, if
/// there is room; nothing else changes.
pub proof fn law_dismissal_is_exact(w: World, input: Seq<u8>)
    requires
        able(w, 600_000),
        input.len() >= 36,
        u8_of(noted(w, "challenge_status", word_at(input, 4))) == 1,
        w.block_number >= u64_of(noted(w, "challenge_deadline", word_at(input, 4))),
    ensures
        ({
            let (o, after) = resolve_effect(w, input, false);
            let tx = word_at(input, 4);
            let bond = noted(w, "challenge_bond", tx).lo;
            let validator = address_of(noted(w, "challenge_validator", tx));
            &&& o is Done
            &&& after.slots == (if held(w, 1, validator) + bond <= u128::MAX {
                given(w.slots, w, 1, validator, bond as int)
            } else {
                w.slots
            }).insert((bridge_address(), tagged_slot("challenge_status", tx)), word(3))
        }),
{
    broadcast use group_steps;

}

/// A challenge that is upheld takes the deposit back from its recipient, as far as the balance
/// covers it, and out of the total of what came in; the deposit counts as not processed; the
/// challenger gets the bond back with a tenth on top; the validator that reported it loses its
/// registration; and the challenge is closed.
pub proof fn law_uphold_is_exact(w: World, input: Seq<u8>)
    requires
        able(w, 900_000),
        input.len() >= 36,
        deposit_slots(word_at(input, 4)).no_duplicates(),
        u8_of(noted(w, "challenge_status", word_at(input, 4))) == 1,
        w.block_number >= u64_of(noted(w, "challenge_deadline", word_at(input, 4))),
        ({
            let tx = word_at(input, 4);
            let bond = noted(w, "challenge_bond", tx).lo;
            let challenger = address_of(noted(w, "challenge_challenger", tx));
            &&& bond + bond / 10 <= u128::MAX
            &&& held(w, 1, challenger) + bond + bond / 10 <= u128::MAX
            &&& balance_slot(
                u64_of(noted(w, "deposit_asset_id", tx)),
                address_of(noted(w, "deposit_recipient", tx)),
            ) != balance_slot(1, challenger)
        }),
    ensures
        ({
            let (o, after) = resolve_effect(w, input, true);
            let tx = word_at(input, 4);
            let b = bridge_address();
            let asset_id = u64_of(noted(w, "deposit_asset_id", tx));
            let recipient = address_of(noted(w, "deposit_recipient", tx));
            let challenger = address_of(noted(w, "challenge_challenger", tx));
            let validator = address_of(noted(w, "challenge_validator", tx));
            let id_slot = validator_slot(validator, "validator_id");
            let amount = noted(w, "deposit_amount", tx).lo;
            let bond = noted(w, "challenge_bond", tx).lo;
            &&& o is Done
            &&& held(after, asset_id, recipient) == if held(w, asset_id, recipient) >= amount {
                held(w, asset_id, recipient) - amount
            } else {
                held(w, asset_id, recipient)
            }
            &&& came_in(after) == if came_in(w) >= amount {
                came_in(w) - amount
            } else {
                0
            }
            &&& noted(after, "processed", tx) == zero_word()
            &&& held(after, 1, challenger) == held(w, 1, challenger) + bond + bond / 10
            &&& u64_of(after.slot(validator_address(), id_slot)) == 0
            &&& noted(after, "challenge_status", tx) == word(2)
            &&& forall|id: u64, account: Address|
                balance_slot(id, account) != balance_slot(asset_id, recipient) && balance_slot(
                    id,
                    account,
                ) != balance_slot(1, challenger) ==> #[trigger] held(after, id, account) == held(
                    w,
                    id,
                    account,
                )
        }),
{
    broadcast use group_steps;

    lemma_deposit_slots(word_at(input, 4));
    law_word_round_trips(0, 0, Address { hi: 0, lo: 0 }, 2);
}

/// The challenger of an upheld challenge, and nobody else, draws the bond with a tenth on top, once.
pub proof fn law_bond_is_drawn_exactly(w: World, input: Seq<u8>, sender: Address)
    requires
        able(w, 200_000),
    ensures
        ({
            let (o, after) = withdraw_bond_effect(w, input, sender);
            let tx = word_at(input, 4);
            let bond = noted(w, "challenge_bond", tx).lo;
            &&& o is Done <==> {
                &&& input.len() >= 36
                &&& u8_of(noted(w, "challenge_status", tx)) == 2
                &&& address_of(noted(w, "challenge_challenger", tx)) == sender
                &&& bond + bond / 10 <= u128::MAX
                &&& held(w, 1, sender) + bond + bond / 10 <= u128::MAX
            }
            &&& o is Done ==> {
                &&& after.slots == given(w.slots, w, 1, sender, bond + bond / 10).insert(
                    (bridge_address(), tagged_slot("challenge_status", tx)),
                    word(4),
                )
                &&& u8_of(noted(after, "challenge_status", tx)) != 2
            }
            &&& o is Failed ==> after.slots == w.slots
        }),
{
    broadcast use group_steps;

}

/// What is asked of the bridge is answered with what is on record, and asking changes no slot.
pub proof fn law_bridge_answers(w: World, calldata: Seq<u8>, sender: Address)
    requires
        able(w, 20_000),
        calldata.len() >= 36,
    ensures
        ({
            let (o, after) = bridge_effect(w, calldata, sender);
            let tx = word_at(calldata, 4);
            let s = selector_of(calldata);
            &&& s == 0xa87e4f2a ==> o is Done && after.slots == w.slots && o->data == number_word(
                came_in(w) as nat,
                16,
            )
            &&& s == 0x9c3e6d1b ==> o is Done && after.slots == w.slots && o->data == number_word(
                went_out(w) as nat,
                16,
            )
            &&& s == 0x2a5d97e9 ==> o is Done && after.slots == w.slots && o->data == number_word(
                u8_of(noted(w, "challenge_status", tx)) as nat,
                1,
            ) + number_word(u64_of(noted(w, "challenge_deadline", tx)) as nat, 8) + number_word(
                noted(w, "challenge_bond", tx).lo as nat,
                16,
            ) + address_word_bytes(address_of(noted(w, "challenge_challenger", tx)))
        }),
{
    broadcast use group_steps;

}

/// The first four bytes of the call decide what it does; any others are refused and change nothing.
/// A challenge that is resolved by a call is dismissed.
pub proof fn law_bridge_selectors(w: World, calldata: Seq<u8>, sender: Address)
    requires
        calldata.len() >= 4,
    ensures
        ({
            let s = selector_of(calldata);
            let r = bridge_effect(w, calldata, sender);
            &&& s == 0xdbae8a2a ==> r == bridge_to_evm_effect(w, calldata, sender)
            &&& s == 0xf0c861e4 ==> r == bridge_to_protocol_effect(w, calldata)
            &&& s == 0x1aba0700 ==> r == external_deposit_effect(w, calldata, sender)
            &&& s == 0x393da669 ==> r == external_withdraw_effect(w, calldata, sender)
            &&& s == 0x2689cfc0 ==> r == deposit_effect(w, calldata)
            &&& s == 0x07dee8d0 ==> r == initiate_challenge_effect(w, calldata, sender)
            &&& s == 0x8a1e5018 ==> r == resolve_effect(w, calldata, false)
            &&& s == 0x2a5d97e9 ==> r == get_challenge_status_effect(w, calldata)
            &&& s == 0x9c4e5e8b ==> r == withdraw_bond_effect(w, calldata, sender)
            &&& !seq![
                0xa87e4f2au32,
                0x9c3e6d1b,
                0xdbae8a2a,
                0xf0c861e4,
                0x1aba0700,
                0x393da669,
                0x2689cfc0,
                0x07dee8d0,
                0x8a1e5018,
                0x2a5d97e9,
                0x9c4e5e8b,
            ].contains(s) ==> r.0 is Failed && r.1 == w
        }),
{
    let known = seq![
        0xa87e4f2au32,
        0x9c3e6d1b,
        0xdbae8a2a,
        0xf0c861e4,
        0x1aba0700,
        0x393da669,
        0x2689cfc0,
        0x07dee8d0,
        0x8a1e5018,
        0x2a5d97e9,
        0x9c4e5e8b,
    ];
    assert(known[0] == 0xa87e4f2a && known[1] == 0x9c3e6d1b && known[2] == 0xdbae8a2a && known[3]
        == 0xf0c861e4 && known[4] == 0x1aba0700 && known[5] == 0x393da669 && known[6]
        == 0x2689cfc0 && known[7] == 0x07dee8d0 && known[8] == 0x8a1e5018 && known[9]
        == 0x2a5d97e9 && known[10] == 0x9c4e5e8b);
}

/// A call runs out of gas, and then changes nothing, exactly where there is less than its price:
/// 30 000 for a move, 50 000 to open a challenge, 100 000 to resolve one, 5 000 to draw a bond.
pub proof fn law_bridge_prices(w: World, input: Seq<u8>, sender: Address, valid: bool)
    ensures
        ({
            let out = Outcome::Failed(Fault::OutOfGas);
            &&& w.gas < 30_000 ==> bridge_to_evm_effect(w, input, sender) == (out, w)
                && bridge_to_protocol_effect(w, input) == (out, w) && external_deposit_effect(
                w,
                input,
                sender,
            ) == (out, w) && external_withdraw_effect(w, input, sender) == (out, w)
                && deposit_effect(w, input) == (out, w)
            &&& w.gas >= 30_000 ==> bridge_to_evm_effect(w, input, sender).0 != out
                && bridge_to_protocol_effect(w, input).0 != out && external_deposit_effect(
                w,
                input,
                sender,
            ).0 != out && external_withdraw_effect(w, input, sender).0 != out && deposit_effect(
                w,
                input,
            ).0 != out
            &&& w.gas < 50_000 ==> initiate_challenge_effect(w, input, sender) == (out, w)
            &&& w.gas >= 50_000 ==> initiate_challenge_effect(w, input, sender).0 != out
            &&& w.gas < 100_000 ==> resolve_effect(w, input, valid) == (out, w)
            &&& w.gas >= 100_000 ==> resolve_effect(w, input, valid).0 != out
            &&& w.gas < 5_000 ==> withdraw_bond_effect(w, input, sender) == (out, w)
            &&& w.gas >= 5_000 ==> withdraw_bond_effect(w, input, sender).0 != out
        }),
{
    reveal(World::charge);
}

} // verus!
