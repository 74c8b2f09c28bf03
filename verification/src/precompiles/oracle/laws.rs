//! What the price calls come to, said of the call and the slots.

use crate::crypto::keccak256_word;
use crate::precompiles::abi::{number_word, selector_of, u128_at, u64_at};
use crate::precompiles::oracle::{
    get_amount_effect, is_stale_effect, lemma_price_log_gas, oracle_effect, price_slots,
    submit_price_effect,
};
use crate::precompiles::slots::{
    asset_meta_slot, oracle_address, validator_address, validator_slot,
};
use crate::precompiles::steps::{able, group_steps};
use crate::precompiles::storage::{Fault, LogModel, Outcome, World};
use crate::words::{u64_of, word, Address, U256};
use vstd::prelude::*;
use vstd::string::StringSliceAdditionalSpecFns;

verus! {

/// What is on record about the price of an asset.
pub open spec fn noted(w: World, asset_id: u64, name: &str) -> U256 {
    w.slot(oracle_address(), asset_meta_slot(asset_id, name))
}

/// A price is taken exactly from a validator, while the count has room. It is recorded with its time
/// and block, the count rises by one, the average over all submissions moves with it, and the
/// submission is logged.
pub proof fn law_submission_is_exact(w: World, input: Seq<u8>, sender: Address)
    requires
        able(w, 300_000),
        price_slots(u64_at(input, 4)).no_duplicates(),
        u64_of(noted(w, u64_at(input, 4), "count")) < u64::MAX,
        noted(w, u64_at(input, 4), "twap").lo * u64_of(noted(w, u64_at(input, 4), "count"))
            + u128_at(input, 36) <= u128::MAX,
    ensures
        ({
            let (o, after) = submit_price_effect(w, input, sender);
            let asset_id = u64_at(input, 4);
            let price = u128_at(input, 36);
            let time = u64_at(input, 68);
            let block = u64_at(input, 100);
            let n = u64_of(noted(w, asset_id, "count")) as int;
            let average = noted(w, asset_id, "twap").lo;
            let next = noted(after, asset_id, "twap").lo;
            &&& o is Done <==> {
                &&& input.len() >= 132
                &&& u64_of(
                    w.slot(validator_address(), validator_slot(sender, "validator_id")),
                ) != 0
            }
            &&& o is Failed ==> after.slots == w.slots && after.logs == w.logs
            &&& o is Done ==> {
                &&& noted(after, asset_id, "price") == word(price)
                &&& noted(after, asset_id, "ts") == word(time as u128)
                &&& noted(after, asset_id, "block") == word(block as u128)
                &&& noted(after, asset_id, "count") == word((n + 1) as u128)
                &&& (n + 1) * next <= average * n + price < (n + 1) * (next + 1)
                &&& after.logs == w.logs.push(
                    LogModel {
                        address: oracle_address(),
                        topics: seq![
                            keccak256_word(
                                "PriceSubmitted(uint64,uint128,uint64,uint64)".spec_bytes(),
                            ),
                        ],
                        data: number_word(asset_id as nat, 8) + number_word(price as nat, 16)
                            + number_word(time as nat, 8) + number_word(block as nat, 8),
                    },
                )
                &&& forall|a: Address, k: U256|
                    a != oracle_address() || !price_slots(asset_id).contains(k)
                        ==> #[trigger] after.slot(a, k) == w.slot(a, k)
            }
        }),
{
    broadcast use group_steps;

    let asset_id = u64_at(input, 4);
    let price = u128_at(input, 36);
    let n = u64_of(noted(w, asset_id, "count")) as int;
    let average = noted(w, asset_id, "twap").lo;
    lemma_price_log_gas(asset_id, price, u64_at(input, 68), u64_at(input, 100));
    let keys = price_slots(asset_id);
    assert(keys[0] == asset_meta_slot(asset_id, "price"));
    assert(keys[1] == asset_meta_slot(asset_id, "ts"));
    assert(keys[2] == asset_meta_slot(asset_id, "block"));
    assert(keys[3] == asset_meta_slot(asset_id, "count"));
    assert(keys[4] == asset_meta_slot(asset_id, "twap"));
    let sum = average * n + price;
    assert(sum >= 0) by (nonlinear_arith)
        requires
            sum == average * n + price,
            n >= 0,
    ;
    let q = sum / (n + 1);
    assert(0 <= q <= sum && (n + 1) * q <= sum < (n + 1) * (q + 1)) by (nonlinear_arith)
        requires
            sum >= 0,
            n >= 0,
            q == sum / (n + 1),
    ;
    if n == 0 {
        assert(sum == price) by (nonlinear_arith)
            requires
                sum == average * n + price,
                n == 0,
        ;
    }
}

/// A price is stale exactly where more than an hour has passed since its time. Prices and averages
/// are answered as recorded. Asking changes no slot.
pub proof fn law_price_answers(w: World, input: Seq<u8>)
    requires
        able(w, 10_000),
        input.len() >= 36,
    ensures
        ({
            let id = u64_at(input, 4);
            let (stale, w1) = is_stale_effect(w, input);
            let (price, w2) = get_amount_effect(w, input, "price");
            let (average, w3) = get_amount_effect(w, input, "twap");
            let time = u64_of(noted(w, id, "ts"));
            &&& w.timestamp.value() <= u64::MAX && time + 3600 <= u64::MAX ==> stale is Done
                && stale->data == number_word(
                if w.timestamp.value() > time + 3600 {
                    1
                } else {
                    0
                },
                1,
            )
            &&& price is Done && price->data == number_word(noted(w, id, "price").lo as nat, 16)
            &&& average is Done && average->data == number_word(noted(w, id, "twap").lo as nat, 16)
            &&& w1.slots == w.slots && w2.slots == w.slots && w3.slots == w.slots
        }),
{
    broadcast use group_steps;

    lemma_small_value(w.timestamp);
}

proof fn lemma_small_value(v: U256)
    ensures
        v.value() <= u64::MAX ==> v.value() == v.lo,
{
    if v.value() <= u64::MAX && v.hi > 0 {
        assert(v.hi * crate::words::limb() >= crate::words::limb()) by (nonlinear_arith)
            requires
                v.hi > 0,
                crate::words::limb() > 0,
        ;
    }
}

/// The first four bytes of the call decide what it does, and its price; any others are refused and
/// change nothing.
pub proof fn law_oracle_selectors(w: World, calldata: Seq<u8>, sender: Address)
    requires
        calldata.len() >= 4,
    ensures
        ({
            let s = selector_of(calldata);
            let r = oracle_effect(w, calldata, sender);
            let out = Outcome::Failed(Fault::OutOfGas);
            &&& s == 0x763e4d8c ==> r == get_amount_effect(w, calldata, "price")
            &&& s == 0xabcdef01 ==> r == get_amount_effect(w, calldata, "twap")
            &&& s == 0x12345678 ==> r == is_stale_effect(w, calldata)
            &&& s == 0x7ae919f7 ==> r == submit_price_effect(w, calldata, sender)
            &&& s == 0x7ae919f7 ==> (r.0 == out <==> w.gas < 30_000)
            &&& s == 0x763e4d8c || s == 0xabcdef01 || s == 0x12345678 ==> (r.0 == out <==> w.gas
                < 1_000)
            &&& s != 0x763e4d8c && s != 0xabcdef01 && s != 0x12345678 && s != 0x7ae919f7 ==> r.0
                is Failed && r.1 == w
        }),
{
    reveal(World::charge);
}

} // verus!
