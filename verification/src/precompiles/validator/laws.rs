//! What the validator calls come to, said of the call and the slots.

use crate::precompiles::abi::{
    address_at, address_word_bytes, number_word, selector_of, u128_at, u64_at, word_at,
};
use crate::precompiles::slots::{
    asset_address, balance_slot, tag_slot, validator_address, validator_slot,
};
use crate::precompiles::steps::{able, group_steps};
use crate::precompiles::storage::{Fault, Outcome, World};
use crate::precompiles::validator::{
    claim_effect, get_by_index_effect, get_pubkey_effect, get_stake_effect, get_status_effect,
    get_unbond_height_effect, pay_back, stake_effect, unstake_effect, validator_effect,
};
use crate::words::{
    address_of, address_word, u64_of, u8_of, word, zero_address, zero_word, Address, U256,
};
use vstd::prelude::*;

verus! {

/// What is on record about a validator.
pub open spec fn noted(w: World, account: Address, name: &str) -> U256 {
    w.slot(validator_address(), validator_slot(account, name))
}

/// What an account holds of the native asset.
pub open spec fn held(w: World, account: Address) -> int {
    w.slot(asset_address(), balance_slot(1, account)).lo as int
}

/// An account becomes a validator exactly where it stakes at least a million of the native asset,
/// holds it, is not one already, and there is room. The stake moves to the escrow account, which is
/// the zero address; the account gets the next number, and is recorded under it with stake, key and
/// standing.
pub proof fn law_stake_is_exact(w: World, input: Seq<u8>, sender: Address)
    requires
        able(w, 500_000),
        balance_slot(1, sender) != balance_slot(1, zero_address()),
    ensures
        ({
            let (o, after) = stake_effect(w, input, sender);
            let amount = u128_at(input, 36);
            let v = validator_address();
            let a = asset_address();
            let count = u64_of(w.slot(v, word(0)));
            let id = (count + 1) as u64;
            let good = {
                &&& input.len() >= 68
                &&& amount >= 1_000_000
                &&& u64_of(noted(w, sender, "validator_id")) == 0
                &&& held(w, sender) >= amount
            };
            &&& o is Done <==> good && held(w, zero_address()) + amount <= u128::MAX && count
                < u64::MAX
            &&& !good ==> o is Failed && after.slots == w.slots
            &&& o is Done ==> after.slots == w.slots.insert(
                (a, balance_slot(1, sender)),
                word((held(w, sender) - amount) as u128),
            ).insert(
                (a, balance_slot(1, zero_address())),
                word((held(w, zero_address()) + amount) as u128),
            ).insert((v, word(0)), word(id as u128)).insert(
                (v, validator_slot(sender, "validator_id")),
                word(id as u128),
            ).insert((v, tag_slot("validators").plus(id)), address_word(sender)).insert(
                (v, validator_slot(sender, "stake")),
                word(amount),
            ).insert((v, validator_slot(sender, "pubkey")), word_at(input, 4)).insert(
                (v, validator_slot(sender, "status")),
                word(1),
            )
        }),
{
    broadcast use group_steps;

}

/// A validator starts to leave exactly under its own number and while it is active. Its standing
/// becomes 2 as of this block, and its number and stake are entered as the next request.
pub proof fn law_unstake_is_exact(w: World, input: Seq<u8>, sender: Address)
    requires
        able(w, 300_000),
        word(1) != validator_slot(sender, "status"),
        word(1) != validator_slot(sender, "unbond_at"),
    ensures
        ({
            let (o, after) = unstake_effect(w, input, sender);
            let v = validator_address();
            let id = u64_of(noted(w, sender, "validator_id"));
            let count = u64_of(w.slot(v, word(1)));
            let good = {
                &&& input.len() >= 36
                &&& id != 0
                &&& id == u64_at(input, 4)
                &&& u8_of(noted(w, sender, "status")) == 1
            };
            &&& o is Done <==> good && count < u64::MAX
            &&& !good ==> o is Failed && after.slots == w.slots
            &&& o is Done ==> after.slots == w.slots.insert(
                (v, validator_slot(sender, "status")),
                word(2),
            ).insert(
                (v, validator_slot(sender, "unbond_at")),
                word(w.block_number as u128),
            ).insert(
                (v, tag_slot("unbonding").plus(count)),
                (U256 { hi: id as u128, lo: noted(w, sender, "stake").lo }),
            ).insert((v, word(1)), word((count + 1) as u128))
        }),
{
    broadcast use group_steps;

}

/// A stake is not paid back before 120 960 blocks have passed since the validator started to leave,
/// nor to an account that is not leaving or names another number; such a claim changes no slot.
pub proof fn law_claim_waits(w: World, input: Seq<u8>, sender: Address)
    requires
        able(w, 100_000),
        ({
            ||| input.len() < 36
            ||| u64_of(noted(w, sender, "validator_id")) == 0
            ||| u64_of(noted(w, sender, "validator_id")) != u64_at(input, 4)
            ||| u8_of(noted(w, sender, "status")) != 2
            ||| w.block_number < u64_of(noted(w, sender, "unbond_at")) + 120_960
        }),
    ensures
        claim_effect(w, input, sender).0 is Failed,
        claim_effect(w, input, sender).1.slots == w.slots,
{
    broadcast use group_steps;

}

/// Paying a stake back takes it from the escrow account, gives it to the validator, and clears its
/// number, stake and standing; no other slot changes.
pub proof fn law_payback_is_exact(w: World, sender: Address, amount: u128)
    requires
        able(w, 300_000),
        balance_slot(1, sender) != balance_slot(1, zero_address()),
    ensures
        ({
            let (o, after) = pay_back(w, sender, amount);
            let v = validator_address();
            let a = asset_address();
            &&& o is Done <==> held(w, zero_address()) >= amount && held(w, sender) + amount
                <= u128::MAX
            &&& held(w, zero_address()) < amount ==> after.slots == w.slots
            &&& o is Done ==> after.slots == w.slots.insert(
                (a, balance_slot(1, zero_address())),
                word((held(w, zero_address()) - amount) as u128),
            ).insert(
                (a, balance_slot(1, sender)),
                word((held(w, sender) + amount) as u128),
            ).insert((v, validator_slot(sender, "validator_id")), zero_word()).insert(
                (v, validator_slot(sender, "stake")),
                zero_word(),
            ).insert((v, validator_slot(sender, "status")), zero_word())
        }),
{
    broadcast use group_steps;

}

/// What is asked about a validator is answered with what is on record, and asking changes no slot.
pub proof fn law_validator_answers(w: World, input: Seq<u8>)
    requires
        able(w, 20_000),
    ensures
        ({
            let account = address_at(input, 4);
            let (stake, w1) = get_stake_effect(w, input);
            let (status, w2) = get_status_effect(w, input);
            let (key, w3) = get_pubkey_effect(w, input);
            let (since, w4) = get_unbond_height_effect(w, input);
            let (member, w5) = get_by_index_effect(w, input);
            &&& input.len() < 36 ==> stake is Failed && status is Failed && key is Failed && since
                is Failed && member is Failed
            &&& input.len() >= 36 ==> {
                &&& stake is Done && stake->data == number_word(
                    noted(w, account, "stake").lo as nat,
                    16,
                )
                &&& status is Done && status->data == number_word(
                    u8_of(noted(w, account, "status")) as nat,
                    1,
                )
                &&& key is Done && key->data == noted(w, account, "pubkey").bytes()
                &&& since is Done && since->data == number_word(
                    u64_of(noted(w, account, "unbond_at")) as nat,
                    8,
                )
                &&& member is Done && member->data == address_word_bytes(
                    address_of(
                        w.slot(
                            validator_address(),
                            tag_slot("validators").plus(u64_at(input, 4)),
                        ),
                    ),
                )
            }
            &&& w1.slots == w.slots && w2.slots == w.slots && w3.slots == w.slots && w4.slots
                == w.slots && w5.slots == w.slots
        }),
{
    broadcast use group_steps;

}

/// The first four bytes of the call decide what it does, and its price; any others are refused and
/// change nothing.
pub proof fn law_validator_selectors(w: World, calldata: Seq<u8>, sender: Address)
    requires
        calldata.len() >= 4,
    ensures
        ({
            let s = selector_of(calldata);
            let r = validator_effect(w, calldata, sender);
            let out = Outcome::Failed(Fault::OutOfGas);
            &&& s == 0x48720640 ==> r == stake_effect(w, calldata, sender)
            &&& s == 0xd29ab87a ==> r == unstake_effect(w, calldata, sender)
            &&& s == 0x6ab76049 ==> r == claim_effect(w, calldata, sender)
            &&& s == 0x34664846 ==> r == get_stake_effect(w, calldata)
            &&& s == 0xa310624f ==> r == get_status_effect(w, calldata)
            &&& s == 0x9511f44f ==> r == get_pubkey_effect(w, calldata)
            &&& s == 0x528e09b6 ==> r == get_unbond_height_effect(w, calldata)
            &&& s == 0x3fce1b0d ==> r == get_by_index_effect(w, calldata)
            &&& s == 0x48720640 ==> (r.0 == out <==> w.gas < 50_000)
            &&& s == 0xd29ab87a || s == 0x6ab76049 ==> (r.0 == out <==> w.gas < 30_000)
            &&& s != 0x48720640 && s != 0xd29ab87a && s != 0x6ab76049 && s != 0x34664846 && s
                != 0xa310624f && s != 0x9511f44f && s != 0x528e09b6 && s != 0x3fce1b0d ==> r.0
                is Failed && r.1 == w
        }),
{
    reveal(World::charge);
}

} // verus!
