//! What the asset calls come to, said of the call and the slots.

use crate::precompiles::abi::{
    address_at, address_word_bytes, addresses_at, amounts_at, number_word, selector_of, string_at,
    string_of, string_word, u128_at, u64_at,
};
use crate::precompiles::asset::{
    approve_effect, asset_effect, batch_effect, batch_transfer_effect, burn_effect, cleared,
    compliance_read, compliance_read_all, get_asset_info_effect, get_balance_effect,
    lemma_cleared_all, mint_effect, register_effect, transfer_effect, transfer_from_effect,
};
use crate::precompiles::slots::{
    allowance_slot, asset_address, asset_meta_slot, balance_slot, compliance_address,
    compliance_slot,
};
use crate::precompiles::steps::{able, group_reads, group_steps};
use crate::precompiles::storage::{Fault, Outcome, World};
use crate::words::{
    address_of, address_word, u64_of, u8_of, word, zero_address, zero_word, Address, U256,
};
use vstd::prelude::*;

verus! {

/// What an account holds of an asset.
pub open spec fn held(w: World, asset_id: u64, account: Address) -> int {
    w.slot(asset_address(), balance_slot(asset_id, account)).lo as int
}

/// What a spender may take from an owner.
pub open spec fn takeable(w: World, asset_id: u64, owner: Address, spender: Address) -> int {
    w.slot(asset_address(), allowance_slot(asset_id, owner, spender)).lo as int
}

/// What is on record about an asset.
pub open spec fn noted(w: World, asset_id: u64, name: &str) -> U256 {
    w.slot(asset_address(), asset_meta_slot(asset_id, name))
}

/// Whether an account may move an asset: the asset has no policy, or the account's standing under
/// it is 0.
pub open spec fn passes(w: World, asset_id: u64, account: Address) -> bool {
    let policy = noted(w, asset_id, "compliance").lo % 0x1_0000_0000_0000_0000;
    policy == 0 || w.slot(
        compliance_address(),
        compliance_slot(account, (policy % 0x100) as u8),
    ).lo % 0x100 == 0
}

/// The slots with an account's balance set.
pub open spec fn with_held(
    slots: Map<(Address, U256), U256>,
    asset_id: u64,
    account: Address,
    amount: int,
) -> Map<(Address, U256), U256> {
    slots.insert((asset_address(), balance_slot(asset_id, account)), word(amount as u128))
}

/// A transfer goes through exactly where the caller is known, both sides pass, the caller holds the
/// amount and the recipient's balance has room; the caller's balance falls and the recipient's rises
/// by it, and no other slot changes. A transfer that does not go through changes no slot.
pub proof fn law_transfer_is_exact(w: World, input: Seq<u8>, sender: Address)
    requires
        able(w, 200_000),
    ensures
        ({
            let (o, after) = transfer_effect(w, input, sender);
            let asset_id = u64_at(input, 4);
            let to = address_at(input, 36);
            let amount = u128_at(input, 68);
            &&& o is Done <==> {
                &&& input.len() >= 100
                &&& sender != zero_address()
                &&& passes(w, asset_id, sender)
                &&& passes(w, asset_id, to)
                &&& held(w, asset_id, sender) >= amount
                &&& held(w, asset_id, to) + amount <= u128::MAX
            }
            &&& o is Done ==> after.slots == with_held(
                with_held(w.slots, asset_id, sender, held(w, asset_id, sender) - amount),
                asset_id,
                to,
                held(w, asset_id, to) + amount,
            )
            &&& o is Failed ==> after.slots == w.slots
        }),
{
    broadcast use group_steps;

}

/// A transfer on another's behalf goes through exactly where the caller is known, both sides pass,
/// the owner has allowed the caller the amount and holds it, and the recipient's balance has room.
/// The allowance falls by the amount, along with the owner's balance, and the recipient's rises.
pub proof fn law_transfer_from_is_exact(w: World, input: Seq<u8>, sender: Address)
    requires
        able(w, 200_000),
        ({
            let asset_id = u64_at(input, 4);
            let from = address_at(input, 36);
            let slot = allowance_slot(asset_id, from, sender);
            &&& slot != balance_slot(asset_id, from)
            &&& slot != balance_slot(asset_id, address_at(input, 68))
        }),
    ensures
        ({
            let (o, after) = transfer_from_effect(w, input, sender);
            let asset_id = u64_at(input, 4);
            let from = address_at(input, 36);
            let to = address_at(input, 68);
            let amount = u128_at(input, 100);
            let good = {
                &&& input.len() >= 132
                &&& sender != zero_address()
                &&& passes(w, asset_id, from)
                &&& passes(w, asset_id, to)
                &&& takeable(w, asset_id, from, sender) >= amount
            };
            &&& o is Done <==> good && held(w, asset_id, from) >= amount && held(w, asset_id, to)
                + amount <= u128::MAX
            &&& o is Done ==> after.slots == with_held(
                with_held(
                    w.slots.insert(
                        (asset_address(), allowance_slot(asset_id, from, sender)),
                        word((takeable(w, asset_id, from, sender) - amount) as u128),
                    ),
                    asset_id,
                    from,
                    held(w, asset_id, from) - amount,
                ),
                asset_id,
                to,
                held(w, asset_id, to) + amount,
            )
            &&& !good ==> o is Failed && after.slots == w.slots
        }),
{
    broadcast use group_steps;

}

/// An approval sets the allowance to just the amount, and changes no other slot.
pub proof fn law_approval_is_exact(w: World, input: Seq<u8>, sender: Address)
    requires
        able(w, 100_000),
    ensures
        ({
            let (o, after) = approve_effect(w, input, sender);
            let spender = address_at(input, 36);
            &&& o is Done <==> input.len() >= 100 && sender != zero_address()
            &&& o is Done ==> after.slots == w.slots.insert(
                (asset_address(), allowance_slot(u64_at(input, 4), sender, spender)),
                word(u128_at(input, 68)),
            )
            &&& o is Failed ==> after.slots == w.slots
        }),
{
    broadcast use group_steps;

}

/// Minting goes through exactly where the issuer asks, the supply stays within its type and within
/// the cap, if there is one, and the recipient's balance has room: supply and balance rise by the
/// amount, and no other slot changes.
pub proof fn law_mint_is_exact(w: World, input: Seq<u8>, sender: Address)
    requires
        able(w, 200_000),
        asset_meta_slot(u64_at(input, 4), "supply") != balance_slot(
            u64_at(input, 4),
            address_at(input, 36),
        ),
    ensures
        ({
            let (o, after) = mint_effect(w, input, sender);
            let asset_id = u64_at(input, 4);
            let to = address_at(input, 36);
            let amount = u128_at(input, 68);
            let supply = noted(w, asset_id, "supply").lo;
            let cap = noted(w, asset_id, "max_supply").lo;
            let good = {
                &&& input.len() >= 100
                &&& sender != zero_address()
                &&& address_of(noted(w, asset_id, "issuer")) == sender
                &&& supply + amount <= u128::MAX
                &&& cap == 0 || supply + amount <= cap
            };
            &&& o is Done <==> good && held(w, asset_id, to) + amount <= u128::MAX
            &&& o is Done ==> after.slots == with_held(
                w.slots.insert(
                    (asset_address(), asset_meta_slot(asset_id, "supply")),
                    word((supply + amount) as u128),
                ),
                asset_id,
                to,
                held(w, asset_id, to) + amount,
            )
            &&& !good ==> o is Failed && after.slots == w.slots
        }),
{
    broadcast use group_steps;

}

/// Burning goes through exactly where the holder asks, or a caller that the holder has allowed the
/// amount, and the amount is part of the supply and held: supply and balance fall by it, the
/// allowance too where it was used, and no other slot changes.
pub proof fn law_burn_is_exact(w: World, input: Seq<u8>, sender: Address)
    requires
        able(w, 200_000),
        ({
            let asset_id = u64_at(input, 4);
            let from = address_at(input, 36);
            let supply_slot = asset_meta_slot(asset_id, "supply");
            let slot = allowance_slot(asset_id, from, sender);
            &&& supply_slot != balance_slot(asset_id, from)
            &&& slot != supply_slot
            &&& slot != balance_slot(asset_id, from)
        }),
    ensures
        ({
            let (o, after) = burn_effect(w, input, sender);
            let asset_id = u64_at(input, 4);
            let from = address_at(input, 36);
            let amount = u128_at(input, 68);
            let supply = noted(w, asset_id, "supply").lo;
            let allowance = takeable(w, asset_id, from, sender);
            let asked = {
                &&& input.len() >= 100
                &&& sender != zero_address()
                &&& sender == from || allowance >= amount
            };
            let base = if sender == from {
                w.slots
            } else {
                w.slots.insert(
                    (asset_address(), allowance_slot(asset_id, from, sender)),
                    word((allowance - amount) as u128),
                )
            };
            &&& o is Done <==> asked && supply >= amount && held(w, asset_id, from) >= amount
            &&& o is Done ==> after.slots == with_held(
                base.insert(
                    (asset_address(), asset_meta_slot(asset_id, "supply")),
                    word((supply - amount) as u128),
                ),
                asset_id,
                from,
                held(w, asset_id, from) - amount,
            )
            &&& !asked ==> o is Failed && after.slots == w.slots
        }),
{
    broadcast use group_steps;

}

/// Registration gives an asset the next number, from 1, and records symbol, name, decimals, issuer
/// and cap; it starts with no supply, active and without a policy. The number is the answer.
pub proof fn law_registration_is_exact(w: World, input: Seq<u8>, sender: Address)
    requires
        able(w, 400_000),
    ensures
        ({
            let (o, after) = register_effect(w, input, sender);
            let next = u64_of(w.slot(asset_address(), zero_word()));
            let id: u64 = if next == 0 {
                1
            } else {
                next
            };
            let a = asset_address();
            &&& o is Done <==> {
                &&& input.len() >= 132
                &&& string_at(input, 4) is Some
                &&& string_at(input, 36) is Some
                &&& sender != zero_address()
                &&& id < u64::MAX
            }
            &&& o is Failed ==> after.slots == w.slots
            &&& o is Done ==> {
                &&& o->data == number_word(id as nat, 8)
                &&& after.slots == w.slots.insert((a, zero_word()), word((id + 1) as u128)).insert(
                    (a, asset_meta_slot(id, "symbol")),
                    string_word(string_at(input, 4)->0),
                ).insert(
                    (a, asset_meta_slot(id, "name")),
                    string_word(string_at(input, 36)->0),
                ).insert(
                    (a, asset_meta_slot(id, "decimals")),
                    word((u64_at(input, 68) % 0x100) as u128),
                ).insert((a, asset_meta_slot(id, "issuer")), address_word(sender)).insert(
                    (a, asset_meta_slot(id, "max_supply")),
                    word(u128_at(input, 100)),
                ).insert((a, asset_meta_slot(id, "supply")), zero_word()).insert(
                    (a, asset_meta_slot(id, "status")),
                    zero_word(),
                ).insert((a, asset_meta_slot(id, "compliance")), zero_word()).insert(
                    (a, asset_meta_slot(id, "registered_at")),
                    zero_word(),
                )
            }
        }),
{
    broadcast use group_steps;

}

/// What is asked about an asset is answered with what is on record, and asking changes no slot.
pub proof fn law_asset_answers(w: World, input: Seq<u8>)
    requires
        able(w, 50_000),
    ensures
        ({
            let (balance, w1) = get_balance_effect(w, input);
            let (info, w2) = get_asset_info_effect(w, input);
            let id = u64_at(input, 4);
            &&& balance is Done <==> input.len() >= 68
            &&& balance is Done ==> balance->data == number_word(
                held(w, id, address_at(input, 36)) as nat,
                16,
            )
            &&& info is Done <==> input.len() >= 36
            &&& info is Done ==> info->data == string_word(
                string_of(noted(w, id, "symbol")),
            ).bytes() + string_word(string_of(noted(w, id, "name"))).bytes() + number_word(
                u8_of(noted(w, id, "decimals")) as nat,
                1,
            ) + address_word_bytes(address_of(noted(w, id, "issuer"))) + number_word(
                noted(w, id, "max_supply").lo as nat,
                16,
            ) + number_word(u8_of(noted(w, id, "status")) as nat, 1)
            &&& w1.slots == w.slots
            &&& w2.slots == w.slots
        }),
{
    broadcast use group_steps;

}

/// A batch that cannot be read, is empty, has more recipients than amounts or fewer, or is sent by an
/// unknown caller or one that does not pass, is refused and changes no slot.
pub proof fn law_bad_batch_is_refused(w: World, input: Seq<u8>, sender: Address)
    requires
        addresses_at(input, 36) matches Some(to) ==> able(w, 5_000 * to.len() as int + 10_000),
        able(w, 10_000),
        ({
            ||| input.len() < 100
            ||| addresses_at(input, 36) is None
            ||| amounts_at(input, 68) is None
            ||| addresses_at(input, 36)->0.len() != amounts_at(input, 68)->0.len()
            ||| addresses_at(input, 36)->0.len() == 0
            ||| sender == zero_address()
            ||| !passes(w, u64_at(input, 4), sender)
        }),
    ensures
        batch_transfer_effect(w, input, sender).0 is Failed,
        batch_transfer_effect(w, input, sender).1.slots == w.slots,
{
    broadcast use group_steps;

}

/// A batch with a recipient that does not pass is refused and changes no slot.
pub proof fn law_batch_checks_every_recipient(
    w: World,
    asset_id: u64,
    sender: Address,
    to: Seq<Address>,
    amounts: Seq<u128>,
    at: int,
)
    requires
        able(w, 4_200 * (to.len() + 1) as int),
        0 <= at < to.len(),
        !passes(w, asset_id, to[at]),
    ensures
        batch_effect(w, asset_id, sender, to, amounts).0 is Failed,
        batch_effect(w, asset_id, sender, to, amounts).1.slots == w.slots,
{
    broadcast use {group_steps, group_reads};

    let (ok, w1) = compliance_read(w, asset_id, sender);
    lemma_reads_change_nothing(w1, asset_id, to, 0);
    if compliance_read_all(w1, asset_id, to, 0).0 {
        lemma_cleared_all(w1, asset_id, to, 0);
        assert(cleared(w1, asset_id, to[at]));
    }
}

proof fn lemma_reads_change_nothing(w: World, asset_id: u64, accounts: Seq<Address>, i: int)
    ensures
        compliance_read_all(w, asset_id, accounts, i).1.slots == w.slots,
    decreases accounts.len() - i,
{
    broadcast use group_reads;

    if i < accounts.len() {
        let (ok, w1) = compliance_read(w, asset_id, accounts[i]);
        lemma_reads_change_nothing(w1, asset_id, accounts, i + 1);
    }
}

/// The first four bytes of the call decide what it does; any others are refused and change nothing.
pub proof fn law_asset_selectors(w: World, calldata: Seq<u8>, sender: Address)
    requires
        calldata.len() >= 4,
    ensures
        ({
            let s = selector_of(calldata);
            let r = asset_effect(w, calldata, sender);
            &&& s == 0xd21425df ==> r == get_balance_effect(w, calldata)
            &&& s == 0x4ec3ce7f ==> r == get_asset_info_effect(w, calldata)
            &&& s == 0xd15dcd62 ==> r == transfer_effect(w, calldata, sender)
            &&& s == 0x5f9161bb ==> r == batch_transfer_effect(w, calldata, sender)
            &&& s == 0x7e2ead93 ==> r == approve_effect(w, calldata, sender)
            &&& s == 0xa13e0fba ==> r == transfer_from_effect(w, calldata, sender)
            &&& s == 0xf2be4599 ==> r == mint_effect(w, calldata, sender)
            &&& s == 0x2b7d1480 ==> r == mint_effect(w, calldata, sender)
            &&& s == 0x73712863 ==> r == burn_effect(w, calldata, sender)
            &&& s == 0x484a573d ==> r == register_effect(w, calldata, sender)
            &&& s != 0xd21425df && s != 0x4ec3ce7f && s != 0xd15dcd62 && s != 0x5f9161bb && s
                != 0x7e2ead93 && s != 0xa13e0fba && s != 0xf2be4599 && s != 0x2b7d1480 && s
                != 0x73712863 && s != 0x484a573d ==> r.0 is Failed && r.1 == w
        }),
{
}

/// A call runs out of gas, and then changes nothing, exactly where there is less than its price:
/// 5 000 to transfer, 6 000 on another's behalf, 3 000 to approve, 10 000 to mint, 8 000 to burn,
/// 50 000 to register.
pub proof fn law_asset_prices(w: World, input: Seq<u8>, sender: Address)
    ensures
        ({
            let out = Outcome::Failed(Fault::OutOfGas);
            &&& w.gas < 5_000 ==> transfer_effect(w, input, sender) == (out, w)
            &&& w.gas >= 5_000 ==> transfer_effect(w, input, sender).0 != out
            &&& w.gas < 6_000 ==> transfer_from_effect(w, input, sender) == (out, w)
            &&& w.gas >= 6_000 ==> transfer_from_effect(w, input, sender).0 != out
            &&& w.gas < 3_000 ==> approve_effect(w, input, sender) == (out, w)
            &&& w.gas >= 3_000 ==> approve_effect(w, input, sender).0 != out
            &&& w.gas < 10_000 ==> mint_effect(w, input, sender) == (out, w)
            &&& w.gas >= 10_000 ==> mint_effect(w, input, sender).0 != out
            &&& w.gas < 8_000 ==> burn_effect(w, input, sender) == (out, w)
            &&& w.gas >= 8_000 ==> burn_effect(w, input, sender).0 != out
            &&& w.gas < 50_000 ==> register_effect(w, input, sender) == (out, w)
            &&& w.gas >= 50_000 ==> register_effect(w, input, sender).0 != out
        }),
{
    reveal(World::charge);
}

} // verus!
