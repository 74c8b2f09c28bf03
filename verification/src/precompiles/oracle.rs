//! Oracle precompile: prices submitted by validators, with a running average.

pub mod laws;

use crate::crypto::{keccak256, keccak256_word};
use crate::precompiles::abi::{
    decode_selector, decode_u128, decode_u64, encode_u128, encode_u8, lemma_number_word_len,
    number_word, push_u128, push_u64, selector_of, u128_at, u64_at,
};
use crate::precompiles::slots::{
    asset_meta_slot, oracle_address, slot_asset_meta, slot_validator_by_addr, validator_address,
    validator_slot,
};
use crate::precompiles::steps::{able, group_steps};
use crate::precompiles::storage::{
    fatal, log_gas, ok_bytes, ok_empty, out_of_gas, outcome, refused, LogData, LogModel, Outcome,
    PrecompileError, PrecompileResult, StatefulPrecompile, StorageCtx, StorageProvider, World,
};
use crate::words::{
    u128_to_u256, u256_to_u128, u256_to_u64, u64_of, u64_to_u256, word, Address, U256,
};
use vstd::prelude::*;
use vstd::string::StringSliceAdditionalSpecFns;

verus! {

/// How many seconds a price stays fresh.
pub const STALE_THRESHOLD_SECS: u64 = 3600;

/// A field of the price record of an asset.
pub open spec fn price_read(w: World, asset_id: u64, field: &str) -> (U256, World) {
    w.read(oracle_address(), asset_meta_slot(asset_id, field))
}

pub open spec fn price_write(w: World, asset_id: u64, field: &str, v: U256) -> World {
    w.write(oracle_address(), asset_meta_slot(asset_id, field), v)
}

fn load<P: StorageProvider>(storage: &mut P, asset_id: u64, field: &str) -> (r: U256)
    ensures
        (r, final(storage).world()) == price_read(old(storage).world(), asset_id, field),
{
    StorageCtx::read(storage, oracle_address(), slot_asset_meta(asset_id, field))
}

fn save<P: StorageProvider>(storage: &mut P, asset_id: u64, field: &str, v: U256)
    ensures
        final(storage).world() == price_write(old(storage).world(), asset_id, field, v),
{
    StorageCtx::write(storage, oracle_address(), slot_asset_meta(asset_id, field), v);
}

/// Handing out an amount of the price record.
pub open spec fn get_amount_effect(w: World, input: Seq<u8>, field: &str) -> (Outcome, World) {
    let (paid, w) = w.charge(1000);
    if !paid {
        (out_of_gas(), w)
    } else if input.len() < 36 {
        (refused("invalid assetId"), w)
    } else {
        let (v, w) = price_read(w, u64_at(input, 4), field);
        (w.done(number_word(v.lo as nat, 16)), w)
    }
}

pub open spec fn is_stale_effect(w: World, input: Seq<u8>) -> (Outcome, World) {
    let (paid, w) = w.charge(1000);
    if !paid {
        (out_of_gas(), w)
    } else if input.len() < 36 {
        (refused("invalid assetId"), w)
    } else if w.timestamp.value() > u64::MAX {
        (fatal("timestamp overflow"), w)
    } else {
        let now = w.timestamp.lo;
        let (ts, w) = price_read(w, u64_at(input, 4), "ts");
        if u64_of(ts) + STALE_THRESHOLD_SECS > u64::MAX {
            (fatal("staleness overflow"), w)
        } else {
            let stale = u64_of(ts) + STALE_THRESHOLD_SECS < now;
            (
                w.done(
                    number_word(
                        if stale {
                            1
                        } else {
                            0
                        },
                        1,
                    ),
                ),
                w,
            )
        }
    }
}

/// The running average after one more price, where it can be computed.
pub open spec fn next_average(average: u128, count: u64, price: u128) -> Option<u128> {
    if count == 0 {
        Some(price)
    } else if average * count + price > u128::MAX {
        None
    } else {
        Some(((average * count + price) / (count + 1)) as u128)
    }
}

/// The record of a submitted price.
pub open spec fn price_log(asset_id: u64, price: u128, timestamp: u64, block: u64) -> LogModel {
    LogModel {
        address: oracle_address(),
        topics: seq![
            keccak256_word("PriceSubmitted(uint64,uint128,uint64,uint64)".spec_bytes()),
        ],
        data: number_word(asset_id as nat, 8) + number_word(price as nat, 16) + number_word(
            timestamp as nat,
            8,
        ) + number_word(block as nat, 8),
    }
}

pub open spec fn submit_price_effect(w: World, input: Seq<u8>, sender: Address) -> (
    Outcome,
    World,
) {
    let (paid, w) = w.charge(30000);
    if !paid {
        (out_of_gas(), w)
    } else if input.len() < 132 {
        (refused("invalid input"), w)
    } else {
        let (id, w) = w.read(validator_address(), validator_slot(sender, "validator_id"));
        if u64_of(id) == 0 {
            (refused("oracle submit: caller is not a validator"), w)
        } else {
            record_price(
                w,
                u64_at(input, 4),
                u128_at(input, 36),
                u64_at(input, 68),
                u64_at(input, 100),
            )
        }
    }
}

/// Recording a price that a validator submitted.
pub open spec fn record_price(
    w: World,
    asset_id: u64,
    price: u128,
    timestamp: u64,
    block: u64,
) -> (Outcome, World) {
    let w = price_write(w, asset_id, "price", word(price));
    let w = price_write(w, asset_id, "ts", word(timestamp as u128));
    let w = price_write(w, asset_id, "block", word(block as u128));
    let (count, w) = price_read(w, asset_id, "count");
    let (average, w) = price_read(w, asset_id, "twap");
    match next_average(average.lo, u64_of(count), price) {
        None => (fatal("average overflow"), w),
        Some(next) => {
            let w = price_write(w, asset_id, "twap", word(next));
            if u64_of(count) == u64::MAX {
                (fatal("price count overflow"), w)
            } else {
                let w = price_write(w, asset_id, "count", word((u64_of(count) + 1) as u128));
                let (logged, w) = w.emit(price_log(asset_id, price, timestamp, block));
                (w.done(Seq::empty()), w)
            }
        },
    }
}

/// The running average lies between the old average and the price.
pub proof fn law_average_is_between(average: u128, count: u64, price: u128)
    requires
        count > 0,
        next_average(average, count, price) is Some,
    ensures
        average <= price ==> average <= next_average(average, count, price)->0 <= price,
        price <= average ==> price <= next_average(average, count, price)->0 <= average,
{
    let a = average as int;
    let c = count as int;
    let p = price as int;
    let q = (a * c + p) / (c + 1);
    assert(a <= p ==> a * (c + 1) <= a * c + p <= p * (c + 1)) by (nonlinear_arith)
        requires
            c > 0,
    ;
    assert(p <= a ==> p * (c + 1) <= a * c + p <= a * (c + 1)) by (nonlinear_arith)
        requires
            c > 0,
    ;
    if a <= p {
        vstd::arithmetic::div_mod::lemma_div_is_ordered(a * (c + 1), a * c + p, c + 1);
        vstd::arithmetic::div_mod::lemma_div_is_ordered(a * c + p, p * (c + 1), c + 1);
    } else {
        vstd::arithmetic::div_mod::lemma_div_is_ordered(p * (c + 1), a * c + p, c + 1);
        vstd::arithmetic::div_mod::lemma_div_is_ordered(a * c + p, a * (c + 1), c + 1);
    }
    vstd::arithmetic::div_mod::lemma_div_by_multiple(a, c + 1);
    vstd::arithmetic::div_mod::lemma_div_by_multiple(p, c + 1);
}

/// The running average after one more price, where it can be computed.
pub fn advance_average(average: u128, count: u64, price: u128) -> (r: Option<u128>)
    ensures
        r == next_average(average, count, price),
{
    if count == 0 {
        return Some(price);
    }
    match average.checked_mul(count as u128) {
        None => {
            None
        },
        Some(weighted) => match weighted.checked_add(price) {
            None => None,
            Some(sum) => Some(sum / (count as u128 + 1)),
        },
    }
}

/// The oracle precompile.
#[derive(Clone, Copy, Debug)]
pub struct OraclePrecompile;

impl OraclePrecompile {
    fn get_amount<P: StorageProvider>(storage: &mut P, input: &[u8], field: &str) -> (r:
        PrecompileResult)
        ensures
            (outcome(r), final(storage).world()) == get_amount_effect(
                old(storage).world(),
                input@,
                field,
            ),
    {
        StorageCtx::deduct_gas(storage, 1000).ok_or(PrecompileError::OutOfGas)?;
        let asset_id: u64 = decode_u64(input, 4).ok_or(PrecompileError::Other("invalid assetId"))?;
        let v: u128 = u256_to_u128(load(storage, asset_id, field));
        ok_bytes(storage, encode_u128(v))
    }

    pub fn get_price<P: StorageProvider>(&self, storage: &mut P, input: &[u8]) -> (r:
        PrecompileResult)
        ensures
            (outcome(r), final(storage).world()) == get_amount_effect(
                old(storage).world(),
                input@,
                "price",
            ),
    {
        OraclePrecompile::get_amount(storage, input, "price")
    }

    pub fn get_twap<P: StorageProvider>(&self, storage: &mut P, input: &[u8]) -> (r:
        PrecompileResult)
        ensures
            (outcome(r), final(storage).world()) == get_amount_effect(
                old(storage).world(),
                input@,
                "twap",
            ),
    {
        OraclePrecompile::get_amount(storage, input, "twap")
    }

    pub fn is_stale<P: StorageProvider>(&self, storage: &mut P, input: &[u8]) -> (r:
        PrecompileResult)
        ensures
            (outcome(r), final(storage).world()) == is_stale_effect(old(storage).world(), input@),
    {
        StorageCtx::deduct_gas(storage, 1000).ok_or(PrecompileError::OutOfGas)?;
        let asset_id: u64 = decode_u64(input, 4).ok_or(PrecompileError::Other("invalid assetId"))?;
        let timestamp = StorageCtx::timestamp(storage);
        if timestamp.hi != 0 || timestamp.lo > u64::MAX as u128 {
            return Err(PrecompileError::Fatal("timestamp overflow"));
        }
        let now: u64 = timestamp.lo as u64;
        let ts: u64 = u256_to_u64(load(storage, asset_id, "ts"));
        let limit: u64 = ts.checked_add(STALE_THRESHOLD_SECS).ok_or(
            PrecompileError::Fatal("staleness overflow"),
        )?;
        ok_bytes(
            storage,
            encode_u8(
                if limit < now {
                    1
                } else {
                    0
                },
            ),
        )
    }

    pub fn submit_price<P: StorageProvider>(
        &self,
        storage: &mut P,
        input: &[u8],
        msg_sender: Address,
    ) -> (r: PrecompileResult)
        ensures
            (outcome(r), final(storage).world()) == submit_price_effect(
                old(storage).world(),
                input@,
                msg_sender,
            ),
    {
        StorageCtx::deduct_gas(storage, 30000).ok_or(PrecompileError::OutOfGas)?;
        if input.len() < 132 {
            return Err(PrecompileError::Other("invalid input"));
        }
        let asset_id: u64 = decode_u64(input, 4).ok_or(PrecompileError::Other("invalid assetId"))?;
        let price: u128 = decode_u128(input, 36).ok_or(PrecompileError::Other("invalid price"))?;
        let timestamp: u64 = decode_u64(input, 68).ok_or(
            PrecompileError::Other("invalid timestamp"),
        )?;
        let block: u64 = decode_u64(input, 100).ok_or(
            PrecompileError::Other("invalid blockNumber"),
        )?;
        let id: u64 = u256_to_u64(
            StorageCtx::read(storage, validator_address(), slot_validator_by_addr(msg_sender)),
        );
        if id == 0 {
            return Err(PrecompileError::Other("oracle submit: caller is not a validator"));
        }
        OraclePrecompile::record(storage, asset_id, price, timestamp, block)
    }

    fn record<P: StorageProvider>(
        storage: &mut P,
        asset_id: u64,
        price: u128,
        timestamp: u64,
        block: u64,
    ) -> (r: PrecompileResult)
        ensures
            (outcome(r), final(storage).world()) == record_price(
                old(storage).world(),
                asset_id,
                price,
                timestamp,
                block,
            ),
    {
        save(storage, asset_id, "price", u128_to_u256(price));
        save(storage, asset_id, "ts", u64_to_u256(timestamp));
        save(storage, asset_id, "block", u64_to_u256(block));
        let count: u64 = u256_to_u64(load(storage, asset_id, "count"));
        let average: u128 = u256_to_u128(load(storage, asset_id, "twap"));
        let next: u128 = advance_average(average, count, price).ok_or(
            PrecompileError::Fatal("average overflow"),
        )?;
        save(storage, asset_id, "twap", u128_to_u256(next));
        let next_count: u64 = count.checked_add(1).ok_or(
            PrecompileError::Fatal("price count overflow"),
        )?;
        save(storage, asset_id, "count", u64_to_u256(next_count));
        let event = price_event(asset_id, price, timestamp, block);
        let _ = StorageCtx::emit_event(storage, oracle_address(), event);
        ok_empty(storage)
    }
}

fn price_event(asset_id: u64, price: u128, timestamp: u64, block: u64) -> (r: LogData)
    ensures
        (LogModel { address: oracle_address(), topics: r.topics@, data: r.data@ }) == price_log(
            asset_id,
            price,
            timestamp,
            block,
        ),
{
    let mut topics: Vec<U256> = Vec::new();
    topics.push(keccak256("PriceSubmitted(uint64,uint128,uint64,uint64)".as_bytes()));
    let mut data: Vec<u8> = Vec::new();
    push_u64(&mut data, asset_id);
    push_u128(&mut data, price);
    push_u64(&mut data, timestamp);
    push_u64(&mut data, block);
    proof {
        let model = price_log(asset_id, price, timestamp, block);
        assert(topics@ =~= model.topics);
        assert(data@ =~= model.data);
    }
    LogData { topics, data }
}

/// What a call of the oracle precompile comes to.
pub open spec fn oracle_effect(w: World, calldata: Seq<u8>, sender: Address) -> (Outcome, World) {
    if calldata.len() < 4 {
        (refused("invalid input"), w)
    } else {
        match selector_of(calldata) {
            0x763e4d8c => get_amount_effect(w, calldata, "price"),
            0xabcdef01 => get_amount_effect(w, calldata, "twap"),
            0x12345678 => is_stale_effect(w, calldata),
            0x7ae919f7 => submit_price_effect(w, calldata, sender),
            _ => (refused("unknown selector"), w),
        }
    }
}

impl StatefulPrecompile for OraclePrecompile {
    open spec fn effect(&self, w: World, calldata: Seq<u8>, sender: Address) -> (Outcome, World) {
        oracle_effect(w, calldata, sender)
    }

    open spec fn ready(&self) -> bool {
        true
    }

    fn call<P: StorageProvider>(
        &mut self,
        storage: &mut P,
        calldata: &[u8],
        msg_sender: Address,
    ) -> (r: PrecompileResult) {
        if calldata.len() < 4 {
            return Err(PrecompileError::Other("invalid input"));
        }
        match decode_selector(calldata) {
            0x763e4d8c => self.get_price(storage, calldata),
            0xabcdef01 => self.get_twap(storage, calldata),
            0x12345678 => self.is_stale(storage, calldata),
            0x7ae919f7 => self.submit_price(storage, calldata, msg_sender),
            _ => Err(PrecompileError::Other("unknown selector")),
        }
    }
}

/// The field of a price record.
pub open spec fn price_field(w: World, asset_id: u64, name: &str) -> U256 {
    w.slot(oracle_address(), asset_meta_slot(asset_id, name))
}

/// The slots of a price record.
pub open spec fn price_slots(asset_id: u64) -> Seq<U256> {
    seq![
        asset_meta_slot(asset_id, "price"),
        asset_meta_slot(asset_id, "ts"),
        asset_meta_slot(asset_id, "block"),
        asset_meta_slot(asset_id, "count"),
        asset_meta_slot(asset_id, "twap"),
    ]
}

/// A price that a validator submits is the price that is read afterwards; one that anyone else
/// submits changes nothing.
pub proof fn law_submitted_price_is_read(
    w: World,
    input: Seq<u8>,
    sender: Address,
    query: Seq<u8>,
)
    requires
        able(w, 250_000),
        input.len() >= 132,
        price_slots(u64_at(input, 4)).no_duplicates(),
        u64_of(price_field(w, u64_at(input, 4), "count")) < u64::MAX,
        next_average(
            price_field(w, u64_at(input, 4), "twap").lo,
            u64_of(price_field(w, u64_at(input, 4), "count")),
            u128_at(input, 36),
        ) is Some,
        query.len() >= 36,
        u64_at(query, 4) == u64_at(input, 4),
    ensures
        ({
            let asset_id = u64_at(input, 4);
            let (o, after) = submit_price_effect(w, input, sender);
            if u64_of(w.slot(validator_address(), validator_slot(sender, "validator_id"))) == 0 {
                o is Failed && after.slots == w.slots
            } else {
                let (answer, end) = get_amount_effect(after, query, "price");
                &&& o is Done
                &&& answer == end.done(number_word(u128_at(input, 36) as nat, 16))
                &&& u64_of(price_field(after, asset_id, "ts")) == u64_at(input, 68)
                &&& u64_of(price_field(after, asset_id, "count")) == u64_of(
                    price_field(w, asset_id, "count"),
                ) + 1
            }
        }),
{
    broadcast use group_steps;

    let id = u64_at(input, 4);
    let s = price_slots(id);
    assert forall|i: int, j: int| 0 <= i < j < 5 implies #[trigger] s[i] != #[trigger] s[j] by {}
    lemma_price_log_gas(id, u128_at(input, 36), u64_at(input, 68), u64_at(input, 100));
}

pub(crate) proof fn lemma_price_log_gas(asset_id: u64, price: u128, timestamp: u64, block: u64)
    ensures
        ({
            let log = price_log(asset_id, price, timestamp, block);
            log_gas(log.topics.len(), log.data.len()) <= 2000
        }),
{
    lemma_number_word_len(asset_id as nat, 8);
    lemma_number_word_len(price as nat, 16);
    lemma_number_word_len(timestamp as nat, 8);
    lemma_number_word_len(block as nat, 8);
}

} // verus!
