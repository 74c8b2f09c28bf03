//! What the compliance calls come to, said of the call and the slots.

use crate::precompiles::abi::{address_at, number_word, selector_of, u64_at};
use crate::precompiles::compliance::{
    check_compliance_effect, compliance_effect, update_compliance_effect,
};
use crate::precompiles::slots::{
    asset_address, asset_meta_slot, compliance_address, compliance_slot,
};
use crate::precompiles::steps::{able, group_steps};
use crate::precompiles::storage::{Fault, Outcome, World};
use crate::words::{address_of, word, zero_address, Address};
use vstd::prelude::*;

verus! {

/// An update goes through exactly where the issuer of the asset asks for one of the four standings:
/// it sets the account's standing under the asset's policy, and changes no other slot.
pub proof fn law_update_is_exact(w: World, input: Seq<u8>, sender: Address)
    requires
        able(w, 100_000),
    ensures
        ({
            let (o, after) = update_compliance_effect(w, input, sender);
            let asset_id = u64_at(input, 4);
            let policy = w.slot(asset_address(), asset_meta_slot(asset_id, "compliance")).lo;
            let issuer = address_of(w.slot(asset_address(), asset_meta_slot(asset_id, "issuer")));
            &&& o is Done <==> {
                &&& input.len() >= 100
                &&& input[99] <= 3
                &&& sender != zero_address()
                &&& issuer == sender
            }
            &&& o is Done ==> after.slots == w.slots.insert(
                (
                    compliance_address(),
                    compliance_slot(address_at(input, 36), (policy % 0x100) as u8),
                ),
                word(input[99] as u128),
            )
            &&& o is Failed ==> after.slots == w.slots
        }),
{
    broadcast use group_steps;

}

/// A check finds an account in order exactly where there is no policy or its standing under it is 0,
/// and changes no slot.
pub proof fn law_check_is_exact(w: World, input: Seq<u8>)
    requires
        able(w, 10_000),
    ensures
        ({
            let (o, after) = check_compliance_effect(w, input);
            let policy = input[67];
            let standing = w.slot(
                compliance_address(),
                compliance_slot(address_at(input, 4), policy),
            ).lo % 0x100;
            &&& o is Done <==> input.len() >= 68
            &&& o is Done ==> o->data == number_word(
                if policy == 0 || standing == 0 {
                    1
                } else {
                    0
                },
                1,
            )
            &&& after.slots == w.slots
        }),
{
    broadcast use group_steps;

}

/// The first four bytes of the call decide what it does, and its price; any others are refused and
/// change nothing.
pub proof fn law_compliance_selectors(w: World, calldata: Seq<u8>, sender: Address)
    requires
        calldata.len() >= 4,
    ensures
        ({
            let s = selector_of(calldata);
            let r = compliance_effect(w, calldata, sender);
            let out = Outcome::Failed(Fault::OutOfGas);
            &&& s == 0xa4b7f66d ==> r == update_compliance_effect(w, calldata, sender)
            &&& s == 0xa4b7f66d ==> (r.0 == out <==> w.gas < 10_000)
            &&& s == 0x0ae9b34b ==> r == check_compliance_effect(w, calldata)
            &&& s == 0x0ae9b34b ==> (r.0 == out <==> w.gas < 1_000)
            &&& s != 0xa4b7f66d && s != 0x0ae9b34b ==> r.0 is Failed && r.1 == w
        }),
{
    reveal(World::charge);
}

} // verus!
