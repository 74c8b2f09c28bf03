//! What an agent's calls come to, said of the call and the slots.

use crate::precompiles::abi::{
    address_at, address_word_bytes, addresses_at, amounts_at, number_word, selector_of, u128_at,
    u64_at, word_at,
};
use crate::precompiles::agent::{
    agent_effect, agent_slots, batch_pay_effect, bridge_deposit_effect, credit_all,
    get_agent_balance_effect, get_agent_field_effect, get_agent_owner_effect, grant_balance_effect,
    pay_batch, pay_effect, register_agent_effect, revoke_agent_effect, revoke_balance_effect, total,
};
use crate::precompiles::asset::{balance_read, balance_write};
use crate::precompiles::slots::{
    agent_address, agent_balance_slot, agent_slot, asset_address, balance_slot,
};
use crate::precompiles::steps::{able, group_steps};
use crate::precompiles::storage::{Fault, Outcome, World};
use crate::words::{address_of, address_word, u64_of, word, zero_word, Address, U256};
use vstd::prelude::*;

verus! {

/// What an account holds of an asset.
pub open spec fn held(w: World, asset_id: u64, account: Address) -> int {
    w.slot(asset_address(), balance_slot(asset_id, account)).lo as int
}

/// What an agent holds of an asset.
pub open spec fn carried(w: World, agent_id: u64, asset_id: u64) -> int {
    w.slot(agent_address(), agent_balance_slot(agent_id, asset_id)).lo as int
}

/// What is on record about an agent.
pub open spec fn noted(w: World, agent_id: u64, name: &str) -> U256 {
    w.slot(agent_address(), agent_slot(agent_id, name))
}

/// Whether an agent is on record as this account's.
pub open spec fn belongs(w: World, agent_id: u64, account: Address) -> bool {
    noted(w, agent_id, "owner") != zero_word() && address_of(noted(w, agent_id, "owner")) == account
}

/// The most that an agent may pay at a time: the first half of its permissions.
pub open spec fn most(w: World, agent_id: u64) -> int {
    noted(w, agent_id, "perms").hi as int
}

/// Whether an agent's permissions hold in this block: the expiry, which is in the third quarter, is
/// zero or not past.
pub open spec fn current(w: World, agent_id: u64) -> bool {
    let expiry = noted(w, agent_id, "perms").lo / 0x1_0000_0000_0000_0000;
    expiry == 0 || w.block_number <= expiry
}

/// Whether an agent may pay in an asset: the native one, or any where the last bit of its
/// permissions is set.
pub open spec fn covers(w: World, agent_id: u64, asset_id: u64) -> bool {
    asset_id == 1 || noted(w, agent_id, "perms").lo % 2 == 1
}

/// The slots after an account's balance has changed by an amount.
pub open spec fn given(
    slots: Map<(Address, U256), U256>,
    w: World,
    asset_id: u64,
    account: Address,
    amount: int,
) -> Map<(Address, U256), U256> {
    slots.insert(
        (asset_address(), balance_slot(asset_id, account)),
        word((held(w, asset_id, account) + amount) as u128),
    )
}

/// The slots after an agent's balance has changed by an amount.
pub open spec fn handed(
    slots: Map<(Address, U256), U256>,
    w: World,
    agent_id: u64,
    asset_id: u64,
    amount: int,
) -> Map<(Address, U256), U256> {
    slots.insert(
        (agent_address(), agent_balance_slot(agent_id, asset_id)),
        word((carried(w, agent_id, asset_id) + amount) as u128),
    )
}

/// An owner gives an agent an amount exactly where they hold it and the agent's balance has room: the
/// one falls and the other rises by it, and no other slot changes.
pub proof fn law_grant_is_exact(w: World, input: Seq<u8>, sender: Address)
    requires
        able(w, 200_000),
    ensures
        ({
            let (o, after) = grant_balance_effect(w, input, sender);
            let agent_id = u64_at(input, 4);
            let asset_id = u64_at(input, 36);
            let amount = u128_at(input, 68);
            &&& o is Done <==> {
                &&& input.len() >= 100
                &&& belongs(w, agent_id, sender)
                &&& held(w, asset_id, sender) >= amount
                &&& carried(w, agent_id, asset_id) + amount <= u128::MAX
            }
            &&& o is Done ==> after.slots == handed(
                given(w.slots, w, asset_id, sender, -amount),
                w,
                agent_id,
                asset_id,
                amount as int,
            )
            &&& o is Failed && carried(w, agent_id, asset_id) + amount <= u128::MAX ==> after.slots
                == w.slots
        }),
{
    broadcast use group_steps;

}

/// An owner clears what an agent holds of an asset; nobody else does.
pub proof fn law_revocation_is_exact(w: World, input: Seq<u8>, sender: Address)
    requires
        able(w, 200_000),
    ensures
        ({
            let (o, after) = revoke_balance_effect(w, input, sender);
            let agent_id = u64_at(input, 4);
            &&& o is Done <==> input.len() >= 68 && belongs(w, agent_id, sender)
            &&& o is Done ==> after.slots == w.slots.insert(
                (agent_address(), agent_balance_slot(agent_id, u64_at(input, 36))),
                word(0),
            )
            &&& o is Failed ==> after.slots == w.slots
        }),
{
    broadcast use group_steps;

}

/// An agent pays exactly where its owner asks, its permissions hold and cover the amount and the
/// asset, it has the amount, and the recipient's balance has room: the one balance falls and the
/// other rises by the amount, and no other slot changes.
pub proof fn law_payment_is_exact(w: World, input: Seq<u8>, sender: Address)
    requires
        able(w, 200_000),
    ensures
        ({
            let (o, after) = pay_effect(w, input, sender);
            let agent_id = u64_at(input, 4);
            let asset_id = u64_at(input, 36);
            let to = address_at(input, 68);
            let amount = u128_at(input, 100);
            let good = {
                &&& input.len() >= 132
                &&& belongs(w, agent_id, sender)
                &&& current(w, agent_id)
                &&& amount <= most(w, agent_id)
                &&& covers(w, agent_id, asset_id)
                &&& carried(w, agent_id, asset_id) >= amount
            };
            &&& o is Done <==> good && held(w, asset_id, to) + amount <= u128::MAX
            &&& o is Done ==> after.slots == given(
                handed(w.slots, w, agent_id, asset_id, -amount),
                w,
                asset_id,
                to,
                amount as int,
            )
            &&& !good ==> o is Failed && after.slots == w.slots
            &&& input.len() >= 132 && belongs(w, agent_id, sender) && current(w, agent_id) && amount
                > most(w, agent_id) ==> o == Outcome::Failed(
                Fault::OverLimit { amount, limit: most(w, agent_id) as u128 },
            )
        }),
{
    broadcast use group_steps;

    lemma_last_bit(noted(w, u64_at(input, 4), "perms").lo);
}

proof fn lemma_last_bit(v: u128)
    ensures
        (v % 0x100) % 2 == v % 2,
{
}

/// An agent's holdings go over the bridge exactly where its owner asks, its permissions hold and
/// cover the asset, the agent has the amount and the owner too: both balances fall by it, and no
/// other slot changes.
pub proof fn law_agent_bridging_is_exact(w: World, input: Seq<u8>, sender: Address)
    requires
        able(w, 200_000),
    ensures
        ({
            let (o, after) = bridge_deposit_effect(w, input, sender);
            let agent_id = u64_at(input, 4);
            let asset_id = u64_at(input, 36);
            let amount = u128_at(input, 68);
            let head = 4 + u64_at(input, 132);
            let good = {
                &&& input.len() >= 164
                &&& input.len() >= head + 32
                &&& input.len() >= head + 32 + u64_at(input, head)
                &&& belongs(w, agent_id, sender)
                &&& current(w, agent_id)
                &&& covers(w, agent_id, asset_id)
                &&& carried(w, agent_id, asset_id) >= amount
            };
            &&& o is Done <==> good && held(w, asset_id, sender) >= amount
            &&& o is Done ==> after.slots == given(
                handed(w.slots, w, agent_id, asset_id, -amount),
                w,
                asset_id,
                sender,
                -amount,
            )
            &&& !good ==> o is Failed && after.slots == w.slots
        }),
{
    broadcast use group_steps;

    lemma_last_bit(noted(w, u64_at(input, 4), "perms").lo);
}

/// What the amounts of a batch add up to.
pub open spec fn in_all(amounts: Seq<u128>) -> int
    decreases amounts.len(),
{
    if amounts.len() == 0 {
        0
    } else {
        amounts[0] + in_all(amounts.drop_first())
    }
}

proof fn lemma_in_all(amounts: Seq<u128>)
    ensures
        in_all(amounts) == total(amounts),
    decreases amounts.len(),
{
    reveal_with_fuel(in_all, 3);
    reveal_with_fuel(total, 3);
    if amounts.len() == 1 {
        assert(amounts.drop_first().len() == 0);
        assert(amounts.drop_last().len() == 0);
    } else if amounts.len() > 1 {
        lemma_in_all(amounts.drop_first());
        lemma_in_all(amounts.drop_last());
        lemma_in_all(amounts.drop_first().drop_last());
        assert(amounts.drop_first().drop_last() =~= amounts.drop_last().drop_first());
        assert(amounts.drop_last()[0] == amounts[0]);
        assert(amounts.drop_first().last() == amounts.last());
    }
}

proof fn lemma_credits(
    w: World,
    asset_id: u64,
    limit: u128,
    to: Seq<Address>,
    amounts: Seq<u128>,
    i: int,
)
    requires
        0 <= i <= to.len() == amounts.len(),
        able(w, 24_200 * (to.len() - i)),
    ensures
        ({
            let (failure, after) = credit_all(w, asset_id, limit, to, amounts, i);
            &&& failure is None ==> forall|j: int|
                i <= j < to.len() ==> #[trigger] amounts[j] <= limit
            &&& forall|key: U256| #[trigger]
                after.slot(agent_address(), key) == w.slot(agent_address(), key)
        }),
    decreases to.len() - i,
{
    broadcast use group_steps;

    if i < to.len() && amounts[i] <= limit {
        let (h, w1) = balance_read(w, asset_id, to[i]);
        if h + amounts[i] <= u128::MAX {
            let w2 = balance_write(w1, asset_id, to[i], (h + amounts[i]) as u128);
            lemma_credits(w2, asset_id, limit, to, amounts, i + 1);
        }
    }
}

/// A batch is paid only where the owner asks, there are as many amounts as recipients and at least
/// one, the agent's permissions hold and cover the asset and each amount, and the agent has all the
/// amounts together; its balance falls by just that. Otherwise it fails.
pub proof fn law_batch_payment_is_bounded(w: World, input: Seq<u8>, sender: Address)
    requires
        addresses_at(input, 68) matches Some(to) ==> able(w, 60_000 * (to.len() + 1) as int),
        able(w, 60_000),
    ensures
        ({
            let (o, after) = batch_pay_effect(w, input, sender);
            let agent_id = u64_at(input, 4);
            let asset_id = u64_at(input, 36);
            o is Done ==> {
                &&& input.len() >= 132
                &&& belongs(w, agent_id, sender)
                &&& addresses_at(input, 68) matches Some(to)
                &&& amounts_at(input, 100) matches Some(amounts)
                &&& to.len() == amounts.len()
                &&& to.len() > 0
                &&& current(w, agent_id)
                &&& covers(w, agent_id, asset_id)
                &&& forall|j: int|
                    0 <= j < amounts.len() ==> #[trigger] amounts[j] <= most(w, agent_id)
                &&& carried(w, agent_id, asset_id) >= in_all(amounts)
                &&& carried(after, agent_id, asset_id) == carried(w, agent_id, asset_id) - in_all(
                    amounts,
                )
            }
        }),
{
    broadcast use group_steps;

    if addresses_at(input, 68) is Some && amounts_at(input, 100) is Some {
        let to = addresses_at(input, 68)->0;
        let amounts = amounts_at(input, 100)->0;
        lemma_in_all(amounts);
        lemma_total_bounds(amounts);
        let agent_id = u64_at(input, 4);
        let asset_id = u64_at(input, 36);
        lemma_last_bit(noted(w, agent_id, "perms").lo);
        if to.len() == amounts.len() {
            let w1 = w.read(agent_address(), agent_slot(agent_id, "owner")).1;
            let w2 = w1.read(agent_address(), agent_slot(agent_id, "owner")).1;
            let w3 = w2.charge((30000 * to.len()) as int).1;
            if to.len() > 0 {
                assert(30_000 * to.len() <= w2.gas);
                lemma_pay_batch(w3, agent_id, asset_id, to, amounts);
            }
        }
    }
}

proof fn lemma_total_bounds(amounts: Seq<u128>)
    ensures
        total(amounts) >= 0,
    decreases amounts.len(),
{
    if amounts.len() > 0 {
        lemma_total_bounds(amounts.drop_last());
    }
}

proof fn lemma_pay_batch(
    w: World,
    agent_id: u64,
    asset_id: u64,
    to: Seq<Address>,
    amounts: Seq<u128>,
)
    requires
        to.len() == amounts.len(),
        able(w, 24_200 * (to.len() + 1) as int + 5_000),
    ensures
        ({
            let (o, after) = pay_batch(w, agent_id, asset_id, to, amounts);
            o is Done ==> {
                &&& current(w, agent_id)
                &&& covers(w, agent_id, asset_id)
                &&& forall|j: int|
                    0 <= j < amounts.len() ==> #[trigger] amounts[j] <= most(w, agent_id)
                &&& carried(w, agent_id, asset_id) >= total(amounts)
                &&& carried(after, agent_id, asset_id) == carried(w, agent_id, asset_id) - total(
                    amounts,
                )
            }
        }),
{
    broadcast use group_steps;

    lemma_last_bit(noted(w, agent_id, "perms").lo);
    lemma_total_bounds(amounts);
    let w1 = w.read(agent_address(), agent_slot(agent_id, "perms")).1;
    let w2 = w1.read(agent_address(), agent_balance_slot(agent_id, asset_id)).1;
    let rest = (carried(w, agent_id, asset_id) - total(amounts)) as u128;
    let w3 = w2.write(agent_address(), agent_balance_slot(agent_id, asset_id), word(rest));
    lemma_credits(w3, asset_id, most(w, agent_id) as u128, to, amounts, 0);
}

/// Registering an agent gives it the next number and records owner, key, name, place and block; it
/// may pay up to 1000 at a time in any asset, without expiry.
pub proof fn law_registration_is_exact(w: World, input: Seq<u8>, sender: Address)
    requires
        able(w, 300_000),
        agent_slots(u64_of(w.slot(agent_address(), zero_word()))).no_duplicates(),
    ensures
        ({
            let (o, after) = register_agent_effect(w, input, sender);
            let id = u64_of(w.slot(agent_address(), zero_word()));
            let a = agent_address();
            &&& o is Done <==> input.len() >= 100 && id < u64::MAX
            &&& o is Failed ==> after.slots == w.slots
            &&& o is Done ==> {
                &&& after.slots == w.slots.insert(
                    (a, zero_word()),
                    word((id + 1) as u128),
                ).insert((a, agent_slot(id, "owner")), address_word(sender)).insert(
                    (a, agent_slot(id, "pubkey")),
                    word_at(input, 68),
                ).insert((a, agent_slot(id, "name")), word_at(input, 4)).insert(
                    (a, agent_slot(id, "url")),
                    word_at(input, 36),
                ).insert(
                    (a, agent_slot(id, "perms")),
                    (U256 { hi: 1000, lo: 1 }),
                ).insert((a, agent_slot(id, "block")), word(w.block_number as u128))
            }
        }),
{
    broadcast use group_steps;

}

/// An owner takes an agent off the record, all of it; nobody else does.
pub proof fn law_removal_is_exact(w: World, input: Seq<u8>, sender: Address)
    requires
        able(w, 300_000),
    ensures
        ({
            let (o, after) = revoke_agent_effect(w, input, sender);
            let id = u64_at(input, 4);
            let a = agent_address();
            &&& o is Done <==> input.len() >= 36 && belongs(w, id, sender)
            &&& o is Failed ==> after.slots == w.slots
            &&& o is Done ==> after.slots == w.slots.insert(
                (a, agent_slot(id, "owner")),
                zero_word(),
            ).insert((a, agent_slot(id, "pubkey")), zero_word()).insert(
                (a, agent_slot(id, "name")),
                zero_word(),
            ).insert((a, agent_slot(id, "url")), zero_word()).insert(
                (a, agent_slot(id, "perms")),
                zero_word(),
            ).insert((a, agent_slot(id, "block")), zero_word())
        }),
{
    broadcast use group_steps;

}

/// What is asked about an agent is answered with what is on record, and asking changes no slot.
pub proof fn law_agent_answers(w: World, calldata: Seq<u8>, sender: Address)
    requires
        able(w, 20_000),
        calldata.len() >= 68,
    ensures
        ({
            let (o, after) = agent_effect(w, calldata, sender);
            let id = u64_at(calldata, 4);
            let s = selector_of(calldata);
            &&& s == 0x6b2b421b ==> o is Done && after.slots == w.slots && o->data
                == address_word_bytes(address_of(noted(w, id, "owner")))
            &&& s == 0x4b2bd388 ==> o is Done && after.slots == w.slots && o->data == number_word(
                carried(w, id, u64_at(calldata, 36)) as nat,
                16,
            )
            &&& s == 0x5304a7bf ==> o is Done && after.slots == w.slots && o->data == noted(
                w,
                id,
                "name",
            ).bytes()
            &&& s == 0x2b051ae0 ==> o is Done && after.slots == w.slots && o->data == noted(
                w,
                id,
                "url",
            ).bytes()
            &&& s == 0x234a666d ==> o is Done && after.slots == w.slots && o->data == noted(
                w,
                id,
                "perms",
            ).bytes()
        }),
{
    broadcast use group_steps;

}

/// The first four bytes of the call decide what it does; any others are refused and change nothing.
pub proof fn law_agent_selectors(w: World, calldata: Seq<u8>, sender: Address)
    requires
        calldata.len() >= 4,
    ensures
        ({
            let s = selector_of(calldata);
            let r = agent_effect(w, calldata, sender);
            &&& s == 0x9f32a135 ==> r == register_agent_effect(w, calldata, sender)
            &&& s == 0x80ecf9d4 ==> r == grant_balance_effect(w, calldata, sender)
            &&& s == 0x1946b415 ==> r == revoke_balance_effect(w, calldata, sender)
            &&& s == 0xe699cef8 ==> r == pay_effect(w, calldata, sender)
            &&& s == 0xa0c290b9 ==> r == batch_pay_effect(w, calldata, sender)
            &&& s == 0xa72c6932 ==> r == bridge_deposit_effect(w, calldata, sender)
            &&& s == 0x88311f9c ==> r == revoke_agent_effect(w, calldata, sender)
            &&& s == 0x6b2b421b ==> r == get_agent_owner_effect(w, calldata)
            &&& s == 0x4b2bd388 ==> r == get_agent_balance_effect(w, calldata)
            &&& s == 0x5304a7bf ==> r == get_agent_field_effect(w, calldata, "name")
            &&& s == 0x2b051ae0 ==> r == get_agent_field_effect(w, calldata, "url")
            &&& s == 0x234a666d ==> r == get_agent_field_effect(w, calldata, "perms")
            &&& s != 0x9f32a135 && s != 0x80ecf9d4 && s != 0x1946b415 && s != 0xe699cef8 && s
                != 0xa0c290b9 && s != 0xa72c6932 && s != 0x88311f9c && s != 0x6b2b421b && s
                != 0x4b2bd388 && s != 0x5304a7bf && s != 0x2b051ae0 && s != 0x234a666d ==> r.0
                is Failed && r.1 == w
        }),
{
}

/// A call runs out of gas, and then changes nothing, exactly where there is less than its price:
/// 50 000 to register or to bridge, 30 000 to grant or to pay, 20 000 to revoke.
pub proof fn law_agent_prices(w: World, input: Seq<u8>, sender: Address)
    ensures
        ({
            let out = Outcome::Failed(Fault::OutOfGas);
            &&& w.gas < 50_000 ==> register_agent_effect(w, input, sender) == (out, w)
                && bridge_deposit_effect(w, input, sender) == (out, w)
            &&& w.gas >= 50_000 ==> register_agent_effect(w, input, sender).0 != out
                && bridge_deposit_effect(w, input, sender).0 != out
            &&& w.gas < 30_000 ==> grant_balance_effect(w, input, sender) == (out, w) && pay_effect(
                w,
                input,
                sender,
            ) == (out, w)
            &&& w.gas >= 30_000 ==> grant_balance_effect(w, input, sender).0 != out && pay_effect(
                w,
                input,
                sender,
            ).0 != out
            &&& w.gas < 20_000 ==> revoke_balance_effect(w, input, sender) == (out, w)
                && revoke_agent_effect(w, input, sender) == (out, w)
            &&& w.gas >= 20_000 ==> revoke_balance_effect(w, input, sender).0 != out
                && revoke_agent_effect(w, input, sender).0 != out
        }),
{
    reveal(World::charge);
}

} // verus!
