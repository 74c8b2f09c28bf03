//! What a move between the two sides comes to, said slot by slot.

use crate::crypto::keccak256_word;
use crate::precompiles::abi::{address_at, selector_of, u128_at, u64_at};
use crate::precompiles::asset::{balance_read, balance_write};
use crate::precompiles::slots::{asset_address, asset_meta_slot, balance_slot};
use crate::precompiles::steps::{able, group_reads, group_saved, group_steps, law_checkpoint};
use crate::precompiles::storage::{Fault, Outcome, World};
use crate::precompiles::switch::{
    holding_slot, law_switch_is_all_or_nothing, lemma_native_refused, lemma_native_steps, native,
    prepare, switch_effect, switch_to_evm_effect, switch_to_protocol_effect, to_evm, to_protocol,
};
use crate::words::{address_of, address_word, limb, u8_of, word, zero_address, Address, U256};
use vstd::prelude::*;

verus! {

/// What a wrapped token has on record for a holder: a mapping at slot 4.
pub open spec fn tokens(w: World, contract: Address, holder: Address) -> int {
    w.slot(contract, keccak256_word(address_word(holder).bytes() + word(4).bytes())).lo as int
}

/// The total supply of a wrapped token, which is in slot 3.
pub open spec fn tokens_out(w: World, contract: Address) -> int {
    w.slot(contract, word(3)).lo as int
}

/// What an account holds of an asset on the protocol's side.
pub open spec fn held(w: World, asset_id: u64, account: Address) -> int {
    w.slot(asset_address(), balance_slot(asset_id, account)).lo as int
}

/// The supply of an asset on the protocol's side.
pub open spec fn supplied(w: World, asset_id: u64) -> int {
    w.slot(asset_address(), asset_meta_slot(asset_id, "supply")).lo as int
}

/// The contract that is on record for an asset.
pub open spec fn contract_of(w: World, asset_id: u64) -> Address {
    address_of(w.slot(asset_address(), asset_meta_slot(asset_id, "evm_contract")))
}

/// Whether a call is for an asset that is active, by a caller that is known.
pub open spec fn in_order(w: World, input: Seq<u8>, sender: Address) -> bool {
    &&& input.len() >= 100
    &&& sender != zero_address()
    &&& u8_of(w.slot(asset_address(), asset_meta_slot(u64_at(input, 4), "status"))) == 0
}

/// No slot that a move of a wrapped asset touches is another of them.
pub open spec fn apart(asset_id: u64, account: Address, holder: Address, contract: Address) -> bool {
    &&& contract != asset_address()
    &&& keccak256_word(address_word(holder).bytes() + word(4).bytes()) != word(3)
    &&& balance_slot(asset_id, account) != asset_meta_slot(asset_id, "supply")
    &&& balance_slot(asset_id, account) != asset_meta_slot(asset_id, "evm_contract")
}

/// Wrapped tokens move to the protocol's side exactly where the caller holds them, they are part of
/// the total supply, and there is room on the protocol's side; the caller's tokens and the total
/// supply fall by the amount, the recipient's balance and the protocol's supply rise by it, and no
/// other slot changes. Where the move is refused no slot changes.
pub proof fn law_return_of_tokens_is_exact(w: World, input: Seq<u8>, sender: Address)
    requires
        able(w, 500_000),
        u64_at(input, 4) != 1,
        apart(
            u64_at(input, 4),
            address_at(input, 36),
            sender,
            contract_of(w, u64_at(input, 4)),
        ),
    ensures
        ({
            let (o, after) = switch_to_protocol_effect(w, input, sender);
            let asset_id = u64_at(input, 4);
            let to = address_at(input, 36);
            let amount = u128_at(input, 68);
            let contract = contract_of(w, asset_id);
            &&& o is Done <==> {
                &&& in_order(w, input, sender)
                &&& contract != zero_address()
                &&& tokens_out(w, contract) >= amount
                &&& tokens(w, contract, sender) >= amount
                &&& held(w, asset_id, to) + amount <= u128::MAX
                &&& supplied(w, asset_id) + amount <= u128::MAX
            }
            &&& o is Done ==> {
                &&& tokens_out(after, contract) == tokens_out(w, contract) - amount
                &&& tokens(after, contract, sender) == tokens(w, contract, sender) - amount
                &&& held(after, asset_id, to) == held(w, asset_id, to) + amount
                &&& supplied(after, asset_id) == supplied(w, asset_id) + amount
                &&& after.slots == w.slots.insert(
                    (contract, word(3)),
                    word((tokens_out(w, contract) - amount) as u128),
                ).insert(
                    (contract, keccak256_word(address_word(sender).bytes() + word(4).bytes())),
                    word((tokens(w, contract, sender) - amount) as u128),
                ).insert(
                    (asset_address(), balance_slot(asset_id, to)),
                    word((held(w, asset_id, to) + amount) as u128),
                ).insert(
                    (asset_address(), asset_meta_slot(asset_id, "supply")),
                    word((supplied(w, asset_id) + amount) as u128),
                )
                &&& after.balances == w.balances
                &&& after.logs == w.logs
                &&& o->data == Seq::<u8>::empty()
                &&& !o->reverted
            }
            &&& o is Failed ==> after.slots == w.slots && after.balances == w.balances && after.logs
                == w.logs
            &&& in_order(w, input, sender) && contract != zero_address() && tokens_out(w, contract)
                >= amount && tokens(w, contract, sender) < amount ==> o == Outcome::Failed(
                Fault::Other("insufficient ERC-20 balance"),
            )
        }),
{
    broadcast use group_steps;

    reveal(holding_slot);
    law_switch_is_all_or_nothing(w, input, sender);
    let (stop, ready) = prepare(w, input, sender);
    if stop is None {
        let opened = ready.checkpoint();
        let (problem, done) = to_protocol(
            opened,
            u64_at(input, 4),
            sender,
            address_at(input, 36),
            u128_at(input, 68),
        );
        lemma_saved(w, input, sender);
        law_checkpoint(ready, done);
        reveal(World::checkpoint);
    }
}

proof fn lemma_saved(w: World, input: Seq<u8>, sender: Address)
    ensures
        ({
            let opened = prepare(w, input, sender).1.checkpoint();
            let asset_id = u64_at(input, 4);
            let to = address_at(input, 36);
            let amount = u128_at(input, 68);
            &&& to_protocol(opened, asset_id, sender, to, amount).1.saved == opened.saved
            &&& to_evm(opened, asset_id, sender, to, amount).1.saved == opened.saved
        }),
{
    broadcast use {group_reads, group_saved};

}

/// An asset moves to the EVM side exactly where the caller holds it, it is part of the protocol's
/// supply, and there is room on the EVM side; the caller's balance and the protocol's supply fall by
/// the amount, the recipient's tokens and the total supply rise by it, and no other slot changes.
/// Where the move is refused no slot changes.
pub proof fn law_issue_of_tokens_is_exact(w: World, input: Seq<u8>, sender: Address)
    requires
        able(w, 500_000),
        u64_at(input, 4) != 1,
        apart(
            u64_at(input, 4),
            sender,
            address_at(input, 36),
            contract_of(w, u64_at(input, 4)),
        ),
    ensures
        ({
            let (o, after) = switch_to_evm_effect(w, input, sender);
            let asset_id = u64_at(input, 4);
            let to = address_at(input, 36);
            let amount = u128_at(input, 68);
            let contract = contract_of(w, asset_id);
            &&& o is Done <==> {
                &&& in_order(w, input, sender)
                &&& held(w, asset_id, sender) >= amount
                &&& contract != zero_address()
                &&& tokens_out(w, contract) + amount <= u128::MAX
                &&& tokens(w, contract, to) + amount <= u128::MAX
                &&& supplied(w, asset_id) >= amount
            }
            &&& o is Done ==> {
                &&& held(after, asset_id, sender) == held(w, asset_id, sender) - amount
                &&& supplied(after, asset_id) == supplied(w, asset_id) - amount
                &&& tokens_out(after, contract) == tokens_out(w, contract) + amount
                &&& tokens(after, contract, to) == tokens(w, contract, to) + amount
                &&& after.slots == w.slots.insert(
                    (asset_address(), balance_slot(asset_id, sender)),
                    word((held(w, asset_id, sender) - amount) as u128),
                ).insert(
                    (contract, word(3)),
                    word((tokens_out(w, contract) + amount) as u128),
                ).insert(
                    (contract, keccak256_word(address_word(to).bytes() + word(4).bytes())),
                    word((tokens(w, contract, to) + amount) as u128),
                ).insert(
                    (asset_address(), asset_meta_slot(asset_id, "supply")),
                    word((supplied(w, asset_id) - amount) as u128),
                )
                &&& after.balances == w.balances
                &&& after.logs == w.logs
                &&& o->data == Seq::<u8>::empty()
                &&& !o->reverted
            }
            &&& o is Failed ==> after.slots == w.slots && after.balances == w.balances && after.logs
                == w.logs
            &&& in_order(w, input, sender) && held(w, asset_id, sender) < amount ==> o
                == Outcome::Failed(Fault::Other("insufficient protocol balance"))
        }),
{
    broadcast use group_steps;

    reveal(holding_slot);
    law_switch_is_all_or_nothing(w, input, sender);
    let (stop, ready) = prepare(w, input, sender);
    if stop is None {
        let opened = ready.checkpoint();
        let (problem, done) = to_evm(
            opened,
            u64_at(input, 4),
            sender,
            address_at(input, 36),
            u128_at(input, 68),
        );
        lemma_saved(w, input, sender);
        law_checkpoint(ready, done);
        reveal(World::checkpoint);
    }
}

/// The native asset moves to the EVM side exactly where the caller holds it on the protocol's side
/// and the recipient's native balance has room: the one falls and the other rises by the amount, and
/// no other slot and no other native balance changes.
pub proof fn law_native_issue_is_exact(
    w: World,
    input: Seq<u8>,
    sender: Address,
    other: Address,
)
    requires
        able(w, 500_000),
        u64_at(input, 4) == 1,
    ensures
        ({
            let (o, after) = switch_to_evm_effect(w, input, sender);
            let to = address_at(input, 36);
            let amount = u128_at(input, 68);
            &&& o is Done <==> {
                &&& in_order(w, input, sender)
                &&& held(w, 1, sender) >= amount
                &&& native(w, to) + amount < limb() * limb()
            }
            &&& o is Done ==> {
                &&& native(after, to) == native(w, to) + amount
                &&& other != to ==> native(after, other) == native(w, other)
                &&& after.slots == w.slots.insert(
                    (asset_address(), balance_slot(1, sender)),
                    word((held(w, 1, sender) - amount) as u128),
                )
                &&& after.logs == w.logs
            }
            &&& o is Failed ==> after.slots == w.slots && after.balances == w.balances && after.logs
                == w.logs
        }),
{
    broadcast use group_steps;

    law_switch_is_all_or_nothing(w, input, sender);
    let (stop, ready) = prepare(w, input, sender);
    if stop is None {
        let opened = ready.checkpoint();
        let to = address_at(input, 36);
        let amount = u128_at(input, 68);
        let (problem, done) = to_evm(opened, 1, sender, to, amount);
        lemma_saved(w, input, sender);
        law_checkpoint(ready, done);
        reveal(World::checkpoint);
        let (h, a) = balance_read(opened, 1, sender);
        if h >= amount {
            let b = balance_write(a, 1, sender, (h - amount) as u128);
            assert(b.balances == w.balances);
            lemma_native_steps(b, to, amount);
            lemma_native_refused(b, to, other, amount);
        }
    }
}

/// The native asset moves to the protocol's side exactly where the caller holds it natively and the
/// recipient's balance has room: the one falls and the other rises by the amount, and no other slot
/// and no other native balance changes.
pub proof fn law_native_return_is_exact(
    w: World,
    input: Seq<u8>,
    sender: Address,
    other: Address,
)
    requires
        able(w, 500_000),
        u64_at(input, 4) == 1,
    ensures
        ({
            let (o, after) = switch_to_protocol_effect(w, input, sender);
            let to = address_at(input, 36);
            let amount = u128_at(input, 68);
            &&& o is Done <==> {
                &&& in_order(w, input, sender)
                &&& native(w, sender) >= amount
                &&& held(w, 1, to) + amount <= u128::MAX
            }
            &&& o is Done ==> {
                &&& native(after, sender) == native(w, sender) - amount
                &&& other != sender ==> native(after, other) == native(w, other)
                &&& after.slots == w.slots.insert(
                    (asset_address(), balance_slot(1, to)),
                    word((held(w, 1, to) + amount) as u128),
                )
                &&& after.logs == w.logs
            }
            &&& o is Failed ==> after.slots == w.slots && after.balances == w.balances && after.logs
                == w.logs
        }),
{
    broadcast use group_steps;

    law_switch_is_all_or_nothing(w, input, sender);
    let (stop, ready) = prepare(w, input, sender);
    if stop is None {
        let opened = ready.checkpoint();
        let to = address_at(input, 36);
        let amount = u128_at(input, 68);
        let (problem, done) = to_protocol(opened, 1, sender, to, amount);
        lemma_saved(w, input, sender);
        law_checkpoint(ready, done);
        reveal(World::checkpoint);
        assert(opened.balances == w.balances);
        lemma_native_steps(opened, sender, amount);
        lemma_native_refused(opened, sender, other, amount);
    }
}

/// The first four bytes of the call decide what it does; any others are refused and change nothing.
pub proof fn law_switch_selectors(w: World, calldata: Seq<u8>, sender: Address)
    ensures
        calldata.len() >= 4 && selector_of(calldata) == 0x4311f613 ==> switch_effect(
            w,
            calldata,
            sender,
        ) == switch_to_evm_effect(w, calldata, sender),
        calldata.len() >= 4 && selector_of(calldata) == 0xbd8d87d4 ==> switch_effect(
            w,
            calldata,
            sender,
        ) == switch_to_protocol_effect(w, calldata, sender),
        calldata.len() < 4 || (selector_of(calldata) != 0x4311f613 && selector_of(calldata)
            != 0xbd8d87d4) ==> switch_effect(w, calldata, sender).0 is Failed && switch_effect(
            w,
            calldata,
            sender,
        ).1 == w,
{
}

} // verus!
