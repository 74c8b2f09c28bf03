//! Validator precompile: staking into escrow, unbonding and reclaiming the stake.

pub mod laws;

use crate::precompiles::abi::{
    address_at, address_word_bytes, decode_address, decode_bytes32, decode_selector, decode_u128,
    decode_u64, encode_address, encode_u128, encode_u64, encode_u8, number_word, selector_of,
    u128_at, u64_at, word_at,
};
use crate::precompiles::asset::{balance_read, balance_write, holding, load_bal, save_bal};
use crate::precompiles::slots::{
    balance_slot, slot_tag, slot_validator, tag_slot, validator_address, validator_slot,
};
use crate::precompiles::steps::{able, group_steps};
use crate::precompiles::storage::{
    fatal, ok_bytes, ok_empty, out_of_gas, outcome, refused, Outcome, PrecompileError,
    PrecompileResult, StatefulPrecompile, StorageCtx, StorageProvider, World,
};
use crate::words::{
    address_of, address_to_u256, address_word, law_word_round_trips, u128_to_u256, u256_to_address,
    u256_to_u128, u256_to_u64, u256_to_u8, u64_of, u64_to_u256, u8_of, word, zero_address,
    zero_word, Address, U256,
};
use vstd::prelude::*;

verus! {

/// The native asset.
pub const CALL_ASSET_ID: u64 = 1;

/// The least stake of a validator.
pub const MIN_SELF_STAKE: u128 = 1_000_000;

/// How many blocks a stake stays locked after it is withdrawn.
pub const UNBONDING_PERIOD_BLOCKS: u64 = 120_960;

/// The account that holds the stakes.
#[verifier::allow_in_spec]
pub fn staking_escrow() -> Address
    returns
        zero_address(),
{
    zero_address()
}

/// A field of a validator.
pub open spec fn field_read(w: World, account: Address, field: &str) -> (U256, World) {
    w.read(validator_address(), validator_slot(account, field))
}

pub open spec fn field_write(w: World, account: Address, field: &str, v: U256) -> World {
    w.write(validator_address(), validator_slot(account, field), v)
}

fn load<P: StorageProvider>(storage: &mut P, account: Address, field: &str) -> (r: U256)
    ensures
        (r, final(storage).world()) == field_read(old(storage).world(), account, field),
{
    StorageCtx::read(storage, validator_address(), slot_validator(account, field))
}

fn save<P: StorageProvider>(storage: &mut P, account: Address, field: &str, v: U256)
    ensures
        final(storage).world() == field_write(old(storage).world(), account, field, v),
{
    StorageCtx::write(storage, validator_address(), slot_validator(account, field), v);
}

/// The slot of the number of validators ever registered.
pub open spec fn count_slot() -> U256 {
    word(0)
}

/// The slot of the number of unbonding requests.
pub open spec fn unbonding_count_slot() -> U256 {
    word(1)
}

/// The slot of the account of the validator with the given identity.
pub open spec fn member_slot(index: u64) -> U256 {
    tag_slot("validators").plus(index)
}

/// The slot of an unbonding request.
pub open spec fn unbonding_slot(index: u64) -> U256 {
    tag_slot("unbonding").plus(index)
}

/// The word of an unbonding request: the validator's identity before the amount.
pub open spec fn request_word(id: u64, amount: u128) -> U256 {
    U256 { hi: id as u128, lo: amount }
}

pub open spec fn request_id(v: U256) -> u64 {
    (v.hi % 0x1_0000_0000_0000_0000) as u64
}

pub open spec fn stake_effect(w: World, input: Seq<u8>, sender: Address) -> (Outcome, World) {
    let (paid, w) = w.charge(50000);
    if !paid {
        (out_of_gas(), w)
    } else if input.len() < 68 {
        (refused("invalid input"), w)
    } else {
        let amount = u128_at(input, 36);
        if amount < MIN_SELF_STAKE {
            (refused("validator stake: below minimum 1000000"), w)
        } else {
            let (existing, w) = field_read(w, sender, "validator_id");
            if u64_of(existing) != 0 {
                (refused("validator stake: already staked"), w)
            } else {
                let (held, w) = balance_read(w, CALL_ASSET_ID, sender);
                if held < amount {
                    (refused("validator stake: insufficient balance"), w)
                } else {
                    let w = balance_write(w, CALL_ASSET_ID, sender, (held - amount) as u128);
                    let (escrow, w) = balance_read(w, CALL_ASSET_ID, staking_escrow());
                    if escrow + amount > u128::MAX {
                        (refused("validator stake: escrow overflow"), w)
                    } else {
                        let w = balance_write(
                            w,
                            CALL_ASSET_ID,
                            staking_escrow(),
                            (escrow + amount) as u128,
                        );
                        enroll(w, sender, word_at(input, 4), amount)
                    }
                }
            }
        }
    }
}

/// Entering a validator whose stake is in escrow.
pub open spec fn enroll(w: World, sender: Address, pubkey: U256, amount: u128) -> (Outcome, World) {
    let (count, w) = w.read(validator_address(), count_slot());
    if u64_of(count) == u64::MAX {
        (fatal("validator count overflow"), w)
    } else {
        let id = (u64_of(count) + 1) as u64;
        let w = w.write(validator_address(), count_slot(), word(id as u128));
        let w = field_write(w, sender, "validator_id", word(id as u128));
        let w = w.write(validator_address(), member_slot(id), address_word(sender));
        let w = field_write(w, sender, "stake", word(amount));
        let w = field_write(w, sender, "pubkey", pubkey);
        let w = field_write(w, sender, "status", word(1));
        (w.done(Seq::empty()), w)
    }
}

/// Whether `sender` is the validator with identity `id`; if not, why not.
pub open spec fn identity_problem(
    stored: u64,
    id: u64,
    unknown: &'static str,
    mismatch: &'static str,
) -> Option<&'static str> {
    if stored == 0 {
        Some(unknown)
    } else if stored != id {
        Some(mismatch)
    } else {
        None
    }
}

pub open spec fn unstake_effect(w: World, input: Seq<u8>, sender: Address) -> (Outcome, World) {
    let (paid, w) = w.charge(30000);
    if !paid {
        (out_of_gas(), w)
    } else if input.len() < 12 {
        (refused("invalid input"), w)
    } else if input.len() < 36 {
        (refused("invalid validator_id"), w)
    } else {
        let (stored, w) = field_read(w, sender, "validator_id");
        let id = u64_of(stored);
        match identity_problem(
            id,
            u64_at(input, 4),
            "validator unstake: not a validator",
            "validator unstake: id mismatch",
        ) {
            Some(reason) => (refused(reason), w),
            None => {
                let (status, w) = field_read(w, sender, "status");
                if u8_of(status) != 1 {
                    (refused("validator unstake: already unbonding"), w)
                } else {
                    let (stake, w) = field_read(w, sender, "stake");
                    let w = field_write(w, sender, "status", word(2));
                    let w = field_write(w, sender, "unbond_at", word(w.block_number as u128));
                    let (count, w) = w.read(validator_address(), unbonding_count_slot());
                    let w = w.write(
                        validator_address(),
                        unbonding_slot(u64_of(count)),
                        request_word(id, stake.lo),
                    );
                    if u64_of(count) == u64::MAX {
                        (fatal("unbonding count overflow"), w)
                    } else {
                        let w = w.write(
                            validator_address(),
                            unbonding_count_slot(),
                            word((u64_of(count) + 1) as u128),
                        );
                        (w.done(Seq::empty()), w)
                    }
                }
            },
        }
    }
}

/// The amount of the first unbonding request of validator `id` from the `i`-th request on.
pub open spec fn find_request(w: World, id: u64, i: u64, count: u64) -> (Option<u128>, World)
    decreases count - i,
{
    if i >= count {
        (None, w)
    } else {
        let (v, w) = w.read(validator_address(), unbonding_slot(i));
        if request_id(v) == id {
            (Some(v.lo), w)
        } else {
            find_request(w, id, (i + 1) as u64, count)
        }
    }
}

pub open spec fn claim_effect(w: World, input: Seq<u8>, sender: Address) -> (Outcome, World) {
    let (paid, w) = w.charge(30000);
    if !paid {
        (out_of_gas(), w)
    } else if input.len() < 12 {
        (refused("invalid input"), w)
    } else if input.len() < 36 {
        (refused("invalid validator_id"), w)
    } else {
        let (stored, w) = field_read(w, sender, "validator_id");
        let id = u64_of(stored);
        match identity_problem(
            id,
            u64_at(input, 4),
            "validator claim: not a validator",
            "validator claim: id mismatch",
        ) {
            Some(reason) => (refused(reason), w),
            None => {
                let (status, w) = field_read(w, sender, "status");
                if u8_of(status) != 2 {
                    (refused("validator claim: not unbonding"), w)
                } else {
                    let (height, w) = field_read(w, sender, "unbond_at");
                    if u64_of(height) + UNBONDING_PERIOD_BLOCKS > u64::MAX {
                        (fatal("unbonding period overflow"), w)
                    } else if w.block_number < u64_of(height) + UNBONDING_PERIOD_BLOCKS {
                        (refused("validator claim: unbonding period not elapsed"), w)
                    } else {
                        let (count, w) = w.read(validator_address(), unbonding_count_slot());
                        let (found, w) = find_request(w, id, 0, u64_of(count));
                        match found {
                            None => (refused("validator claim: no unbonding request found"), w),
                            Some(amount) => pay_back(w, sender, amount),
                        }
                    }
                }
            },
        }
    }
}

/// Paying a stake back out of escrow and striking the validator off.
pub open spec fn pay_back(w: World, sender: Address, amount: u128) -> (Outcome, World) {
    let (escrow, w) = balance_read(w, CALL_ASSET_ID, staking_escrow());
    if escrow < amount {
        (refused("validator claim: escrow underflow"), w)
    } else {
        let w = balance_write(w, CALL_ASSET_ID, staking_escrow(), (escrow - amount) as u128);
        let (held, w) = balance_read(w, CALL_ASSET_ID, sender);
        if held + amount > u128::MAX {
            (refused("validator claim: balance overflow"), w)
        } else {
            let w = balance_write(w, CALL_ASSET_ID, sender, (held + amount) as u128);
            let w = field_write(w, sender, "validator_id", zero_word());
            let w = field_write(w, sender, "stake", zero_word());
            let w = field_write(w, sender, "status", zero_word());
            (w.done(Seq::empty()), w)
        }
    }
}

/// Reading a field of a validator; the word, or the outcome that stops the call.
pub open spec fn get_field(w: World, input: Seq<u8>, field: &str) -> (Result<U256, Outcome>, World) {
    let (paid, w) = w.charge(1000);
    if !paid {
        (Err(out_of_gas()), w)
    } else if input.len() < 36 {
        (Err(refused("invalid input")), w)
    } else {
        let (v, w) = field_read(w, address_at(input, 4), field);
        (Ok(v), w)
    }
}

pub open spec fn get_stake_effect(w: World, input: Seq<u8>) -> (Outcome, World) {
    let (v, w) = get_field(w, input, "stake");
    match v {
        Err(o) => (o, w),
        Ok(v) => (w.done(number_word(v.lo as nat, 16)), w),
    }
}

pub open spec fn get_status_effect(w: World, input: Seq<u8>) -> (Outcome, World) {
    let (v, w) = get_field(w, input, "status");
    match v {
        Err(o) => (o, w),
        Ok(v) => (w.done(number_word(u8_of(v) as nat, 1)), w),
    }
}

pub open spec fn get_pubkey_effect(w: World, input: Seq<u8>) -> (Outcome, World) {
    let (v, w) = get_field(w, input, "pubkey");
    match v {
        Err(o) => (o, w),
        Ok(v) => (w.done(v.bytes()), w),
    }
}

pub open spec fn get_unbond_height_effect(w: World, input: Seq<u8>) -> (Outcome, World) {
    let (v, w) = get_field(w, input, "unbond_at");
    match v {
        Err(o) => (o, w),
        Ok(v) => (w.done(number_word(u64_of(v) as nat, 8)), w),
    }
}

pub open spec fn get_by_index_effect(w: World, input: Seq<u8>) -> (Outcome, World) {
    let (paid, w) = w.charge(1000);
    if !paid {
        (out_of_gas(), w)
    } else if input.len() < 36 {
        (refused("invalid input"), w)
    } else {
        let (v, w) = w.read(validator_address(), member_slot(u64_at(input, 4)));
        (w.done(address_word_bytes(address_of(v))), w)
    }
}

/// The validator precompile.
#[derive(Clone, Copy, Debug)]
pub struct ValidatorPrecompile;

impl ValidatorPrecompile {
    pub fn stake<P: StorageProvider>(
        &self,
        storage: &mut P,
        input: &[u8],
        msg_sender: Address,
    ) -> (r: PrecompileResult)
        ensures
            (outcome(r), final(storage).world()) == stake_effect(
                old(storage).world(),
                input@,
                msg_sender,
            ),
    {
        StorageCtx::deduct_gas(storage, 50000).ok_or(PrecompileError::OutOfGas)?;
        if input.len() < 68 {
            return Err(PrecompileError::Other("invalid input"));
        }
        let pubkey = decode_bytes32(input, 4).ok_or(PrecompileError::Other("invalid pubkey"))?;
        let amount: u128 = decode_u128(input, 36).ok_or(PrecompileError::Other("invalid amount"))?;
        if amount < MIN_SELF_STAKE {
            return Err(PrecompileError::Other("validator stake: below minimum 1000000"));
        }
        if u256_to_u64(load(storage, msg_sender, "validator_id")) != 0 {
            return Err(PrecompileError::Other("validator stake: already staked"));
        }
        let held: u128 = load_bal(storage, CALL_ASSET_ID, msg_sender).checked_sub(amount).ok_or(
            PrecompileError::Other("validator stake: insufficient balance"),
        )?;
        save_bal(storage, CALL_ASSET_ID, msg_sender, held);
        let escrow: u128 = load_bal(storage, CALL_ASSET_ID, staking_escrow()).checked_add(
            amount,
        ).ok_or(PrecompileError::Other("validator stake: escrow overflow"))?;
        save_bal(storage, CALL_ASSET_ID, staking_escrow(), escrow);
        ValidatorPrecompile::run_enroll(storage, msg_sender, pubkey, amount)
    }

    fn run_enroll<P: StorageProvider>(
        storage: &mut P,
        sender: Address,
        pubkey: U256,
        amount: u128,
    ) -> (r: PrecompileResult)
        ensures
            (outcome(r), final(storage).world()) == enroll(
                old(storage).world(),
                sender,
                pubkey,
                amount,
            ),
    {
        let count: u64 = u256_to_u64(
            StorageCtx::read(storage, validator_address(), u64_to_u256(0)),
        );
        let id: u64 = count.checked_add(1).ok_or(
            PrecompileError::Fatal("validator count overflow"),
        )?;
        StorageCtx::write(storage, validator_address(), u64_to_u256(0), u64_to_u256(id));
        save(storage, sender, "validator_id", u64_to_u256(id));
        StorageCtx::write(
            storage,
            validator_address(),
            slot_tag("validators").offset(id),
            address_to_u256(sender),
        );
        save(storage, sender, "stake", u128_to_u256(amount));
        save(storage, sender, "pubkey", pubkey);
        save(storage, sender, "status", u64_to_u256(1));
        ok_empty(storage)
    }

    pub fn unstake<P: StorageProvider>(
        &self,
        storage: &mut P,
        input: &[u8],
        msg_sender: Address,
    ) -> (r: PrecompileResult)
        ensures
            (outcome(r), final(storage).world()) == unstake_effect(
                old(storage).world(),
                input@,
                msg_sender,
            ),
    {
        StorageCtx::deduct_gas(storage, 30000).ok_or(PrecompileError::OutOfGas)?;
        if input.len() < 12 {
            return Err(PrecompileError::Other("invalid input"));
        }
        let validator_id: u64 = decode_u64(input, 4).ok_or(
            PrecompileError::Other("invalid validator_id"),
        )?;
        let stored: u64 = u256_to_u64(load(storage, msg_sender, "validator_id"));
        if stored == 0 {
            return Err(PrecompileError::Other("validator unstake: not a validator"));
        }
        if stored != validator_id {
            return Err(PrecompileError::Other("validator unstake: id mismatch"));
        }
        if u256_to_u8(load(storage, msg_sender, "status")) != 1 {
            return Err(PrecompileError::Other("validator unstake: already unbonding"));
        }
        let stake: u128 = u256_to_u128(load(storage, msg_sender, "stake"));
        save(storage, msg_sender, "status", u64_to_u256(2));
        let now: u64 = StorageCtx::block_number(storage);
        save(storage, msg_sender, "unbond_at", u64_to_u256(now));
        let count: u64 = u256_to_u64(
            StorageCtx::read(storage, validator_address(), u64_to_u256(1)),
        );
        StorageCtx::write(
            storage,
            validator_address(),
            slot_tag("unbonding").offset(count),
            U256 { hi: stored as u128, lo: stake },
        );
        let next: u64 = count.checked_add(1).ok_or(
            PrecompileError::Fatal("unbonding count overflow"),
        )?;
        StorageCtx::write(storage, validator_address(), u64_to_u256(1), u64_to_u256(next));
        ok_empty(storage)
    }

    pub fn claim_unbonded<P: StorageProvider>(
        &self,
        storage: &mut P,
        input: &[u8],
        msg_sender: Address,
    ) -> (r: PrecompileResult)
        ensures
            (outcome(r), final(storage).world()) == claim_effect(
                old(storage).world(),
                input@,
                msg_sender,
            ),
    {
        StorageCtx::deduct_gas(storage, 30000).ok_or(PrecompileError::OutOfGas)?;
        if input.len() < 12 {
            return Err(PrecompileError::Other("invalid input"));
        }
        let validator_id: u64 = decode_u64(input, 4).ok_or(
            PrecompileError::Other("invalid validator_id"),
        )?;
        let stored: u64 = u256_to_u64(load(storage, msg_sender, "validator_id"));
        if stored == 0 {
            return Err(PrecompileError::Other("validator claim: not a validator"));
        }
        if stored != validator_id {
            return Err(PrecompileError::Other("validator claim: id mismatch"));
        }
        if u256_to_u8(load(storage, msg_sender, "status")) != 2 {
            return Err(PrecompileError::Other("validator claim: not unbonding"));
        }
        let height: u64 = u256_to_u64(load(storage, msg_sender, "unbond_at"));
        let now: u64 = StorageCtx::block_number(storage);
        let free_at: u64 = height.checked_add(UNBONDING_PERIOD_BLOCKS).ok_or(
            PrecompileError::Fatal("unbonding period overflow"),
        )?;
        if now < free_at {
            return Err(PrecompileError::Other("validator claim: unbonding period not elapsed"));
        }
        let count: u64 = u256_to_u64(
            StorageCtx::read(storage, validator_address(), u64_to_u256(1)),
        );
        let amount: u128 = ValidatorPrecompile::search(storage, stored, count).ok_or(
            PrecompileError::Other("validator claim: no unbonding request found"),
        )?;
        ValidatorPrecompile::run_pay_back(storage, msg_sender, amount)
    }

    fn search<P: StorageProvider>(storage: &mut P, id: u64, count: u64) -> (r: Option<u128>)
        ensures
            (r, final(storage).world()) == find_request(old(storage).world(), id, 0, count),
    {
        let mut i: u64 = 0;
        while i < count
            invariant
                i <= count,
                find_request(storage.world(), id, i, count) == find_request(
                    old(storage).world(),
                    id,
                    0,
                    count,
                ),
            decreases count - i,
        {
            let v = StorageCtx::read(
                storage,
                validator_address(),
                slot_tag("unbonding").offset(i),
            );
            if (v.hi % 0x1_0000_0000_0000_0000) as u64 == id {
                return Some(v.lo);
            }
            i += 1;
        }
        None
    }

    fn run_pay_back<P: StorageProvider>(storage: &mut P, sender: Address, amount: u128) -> (r:
        PrecompileResult)
        ensures
            (outcome(r), final(storage).world()) == pay_back(
                old(storage).world(),
                sender,
                amount,
            ),
    {
        let escrow: u128 = load_bal(storage, CALL_ASSET_ID, staking_escrow()).checked_sub(
            amount,
        ).ok_or(PrecompileError::Other("validator claim: escrow underflow"))?;
        save_bal(storage, CALL_ASSET_ID, staking_escrow(), escrow);
        let held: u128 = load_bal(storage, CALL_ASSET_ID, sender).checked_add(amount).ok_or(
            PrecompileError::Other("validator claim: balance overflow"),
        )?;
        save_bal(storage, CALL_ASSET_ID, sender, held);
        save(storage, sender, "validator_id", zero_word());
        save(storage, sender, "stake", zero_word());
        save(storage, sender, "status", zero_word());
        ok_empty(storage)
    }

    fn load_field<P: StorageProvider>(storage: &mut P, input: &[u8], field: &str) -> (r: Result<
        U256,
        PrecompileError,
    >)
        ensures
            final(storage).world() == get_field(old(storage).world(), input@, field).1,
            match r {
                Ok(v) => get_field(old(storage).world(), input@, field).0 == Ok::<U256, Outcome>(
                    v,
                ),
                Err(e) => get_field(old(storage).world(), input@, field).0 == Err::<U256, Outcome>(
                    Outcome::Failed(e@),
                ),
            },
    {
        StorageCtx::deduct_gas(storage, 1000).ok_or(PrecompileError::OutOfGas)?;
        if input.len() < 36 {
            return Err(PrecompileError::Other("invalid input"));
        }
        let account = decode_address(input, 4).ok_or(PrecompileError::Other("invalid address"))?;
        Ok(load(storage, account, field))
    }

    pub fn get_validator_stake<P: StorageProvider>(&self, storage: &mut P, input: &[u8]) -> (r:
        PrecompileResult)
        ensures
            (outcome(r), final(storage).world()) == get_stake_effect(old(storage).world(), input@),
    {
        let v = ValidatorPrecompile::load_field(storage, input, "stake")?;
        ok_bytes(storage, encode_u128(u256_to_u128(v)))
    }

    pub fn get_validator_status<P: StorageProvider>(&self, storage: &mut P, input: &[u8]) -> (r:
        PrecompileResult)
        ensures
            (outcome(r), final(storage).world()) == get_status_effect(
                old(storage).world(),
                input@,
            ),
    {
        let v = ValidatorPrecompile::load_field(storage, input, "status")?;
        ok_bytes(storage, encode_u8(u256_to_u8(v)))
    }

    pub fn get_validator_pubkey<P: StorageProvider>(&self, storage: &mut P, input: &[u8]) -> (r:
        PrecompileResult)
        ensures
            (outcome(r), final(storage).world()) == get_pubkey_effect(
                old(storage).world(),
                input@,
            ),
    {
        let v = ValidatorPrecompile::load_field(storage, input, "pubkey")?;
        ok_bytes(storage, v.to_be_bytes())
    }

    pub fn get_unbond_height<P: StorageProvider>(&self, storage: &mut P, input: &[u8]) -> (r:
        PrecompileResult)
        ensures
            (outcome(r), final(storage).world()) == get_unbond_height_effect(
                old(storage).world(),
                input@,
            ),
    {
        let v = ValidatorPrecompile::load_field(storage, input, "unbond_at")?;
        ok_bytes(storage, encode_u64(u256_to_u64(v)))
    }

    pub fn get_validator_by_index<P: StorageProvider>(&self, storage: &mut P, input: &[u8]) -> (r:
        PrecompileResult)
        ensures
            (outcome(r), final(storage).world()) == get_by_index_effect(
                old(storage).world(),
                input@,
            ),
    {
        StorageCtx::deduct_gas(storage, 1000).ok_or(PrecompileError::OutOfGas)?;
        if input.len() < 36 {
            return Err(PrecompileError::Other("invalid input"));
        }
        let index: u64 = decode_u64(input, 4).ok_or(PrecompileError::Other("invalid index"))?;
        let v = StorageCtx::read(
            storage,
            validator_address(),
            slot_tag("validators").offset(index),
        );
        ok_bytes(storage, encode_address(u256_to_address(v)))
    }
}

/// What a call of the validator precompile comes to.
pub open spec fn validator_effect(w: World, calldata: Seq<u8>, sender: Address) -> (
    Outcome,
    World,
) {
    if calldata.len() < 4 {
        (refused("invalid input"), w)
    } else {
        match selector_of(calldata) {
            0x48720640 => stake_effect(w, calldata, sender),
            0xd29ab87a => unstake_effect(w, calldata, sender),
            0x6ab76049 => claim_effect(w, calldata, sender),
            0x34664846 => get_stake_effect(w, calldata),
            0xa310624f => get_status_effect(w, calldata),
            0x9511f44f => get_pubkey_effect(w, calldata),
            0x528e09b6 => get_unbond_height_effect(w, calldata),
            0x3fce1b0d => get_by_index_effect(w, calldata),
            _ => (refused("unknown selector"), w),
        }
    }
}

impl StatefulPrecompile for ValidatorPrecompile {
    open spec fn effect(&self, w: World, calldata: Seq<u8>, sender: Address) -> (Outcome, World) {
        validator_effect(w, calldata, sender)
    }

    open spec fn ready(&self) -> bool {
        true
    }

    fn call<P: StorageProvider>(
        &mut self,
        storage: &mut P,
        calldata: &[u8],
        msg_sender: Address,
    ) -> (r: PrecompileResult) {
        if calldata.len() < 4 {
            return Err(PrecompileError::Other("invalid input"));
        }
        match decode_selector(calldata) {
            0x48720640 => self.stake(storage, calldata, msg_sender),
            0xd29ab87a => self.unstake(storage, calldata, msg_sender),
            0x6ab76049 => self.claim_unbonded(storage, calldata, msg_sender),
            0x34664846 => self.get_validator_stake(storage, calldata),
            0xa310624f => self.get_validator_status(storage, calldata),
            0x9511f44f => self.get_validator_pubkey(storage, calldata),
            0x528e09b6 => self.get_unbond_height(storage, calldata),
            0x3fce1b0d => self.get_validator_by_index(storage, calldata),
            _ => Err(PrecompileError::Other("unknown selector")),
        }
    }
}

/// The field of a validator.
pub open spec fn validator_field(w: World, account: Address, name: &str) -> U256 {
    w.slot(validator_address(), validator_slot(account, name))
}

/// The slots that entering the validators writes.
pub open spec fn entry_slots(account: Address, id: u64) -> Seq<U256> {
    seq![
        count_slot(),
        member_slot(id),
        validator_slot(account, "validator_id"),
        validator_slot(account, "stake"),
        validator_slot(account, "pubkey"),
        validator_slot(account, "status"),
    ]
}

/// The slots that leaving the validators writes, and that of the identity.
pub open spec fn exit_slots(account: Address, request: u64) -> Seq<U256> {
    seq![
        unbonding_count_slot(),
        unbonding_slot(request),
        validator_slot(account, "status"),
        validator_slot(account, "unbond_at"),
        validator_slot(account, "validator_id"),
    ]
}

proof fn lemma_entry_slots(account: Address, id: u64)
    requires
        entry_slots(account, id).no_duplicates(),
    ensures
        forall|i: int, j: int|
            0 <= i < j < 6 ==> #[trigger] entry_slots(account, id)[i] != #[trigger] entry_slots(
                account,
                id,
            )[j],
        count_slot() == entry_slots(account, id)[0],
        member_slot(id) == entry_slots(account, id)[1],
        validator_slot(account, "validator_id") == entry_slots(account, id)[2],
        validator_slot(account, "stake") == entry_slots(account, id)[3],
        validator_slot(account, "pubkey") == entry_slots(account, id)[4],
        validator_slot(account, "status") == entry_slots(account, id)[5],
{
}

proof fn lemma_exit_slots(account: Address, request: u64)
    requires
        exit_slots(account, request).no_duplicates(),
    ensures
        forall|i: int, j: int|
            0 <= i < j < 5 ==> #[trigger] exit_slots(account, request)[i]
                != #[trigger] exit_slots(account, request)[j],
        unbonding_count_slot() == exit_slots(account, request)[0],
        unbonding_slot(request) == exit_slots(account, request)[1],
        validator_slot(account, "status") == exit_slots(account, request)[2],
        validator_slot(account, "unbond_at") == exit_slots(account, request)[3],
        validator_slot(account, "validator_id") == exit_slots(account, request)[4],
{
}

/// Staking moves the amount into escrow and makes the sender an active validator under the next
/// number. It takes the least stake, and nobody stakes twice.
pub proof fn law_stake_makes_validator(w: World, input: Seq<u8>, sender: Address)
    requires
        able(w, 400_000),
        input.len() >= 68,
        u64_of(w.slot(validator_address(), count_slot())) < u64::MAX,
        entry_slots(
            sender,
            (u64_of(w.slot(validator_address(), count_slot())) + 1) as u64,
        ).no_duplicates(),
        balance_slot(CALL_ASSET_ID, sender) != balance_slot(CALL_ASSET_ID, staking_escrow()),
        holding(w, CALL_ASSET_ID, staking_escrow()) + u128_at(input, 36) <= u128::MAX,
    ensures
        ({
            let amount = u128_at(input, 36);
            let id = (u64_of(w.slot(validator_address(), count_slot())) + 1) as u64;
            let (o, after) = stake_effect(w, input, sender);
            if amount < MIN_SELF_STAKE || u64_of(validator_field(w, sender, "validator_id")) != 0
                || holding(w, CALL_ASSET_ID, sender) < amount {
                o is Failed && after.slots == w.slots
            } else {
                &&& o is Done
                &&& holding(after, CALL_ASSET_ID, sender) == holding(w, CALL_ASSET_ID, sender)
                    - amount
                &&& holding(after, CALL_ASSET_ID, staking_escrow()) == holding(
                    w,
                    CALL_ASSET_ID,
                    staking_escrow(),
                ) + amount
                &&& u64_of(validator_field(after, sender, "validator_id")) == id
                &&& validator_field(after, sender, "stake").lo == amount
                &&& u8_of(validator_field(after, sender, "status")) == 1
                &&& u64_of(after.slot(validator_address(), count_slot())) == id
            }
        }),
{
    broadcast use group_steps;

    let id = (u64_of(w.slot(validator_address(), count_slot())) + 1) as u64;
    lemma_entry_slots(sender, id);
    law_word_round_trips(id, 0, sender, 1);
}

/// A validator leaves once; until the wait is over its stake is not paid back.
pub proof fn law_unbonding_waits(w: World, input: Seq<u8>, sender: Address, later: World)
    requires
        able(w, 400_000),
        input.len() >= 36,
        u64_of(w.slot(validator_address(), unbonding_count_slot())) < u64::MAX,
        exit_slots(
            sender,
            u64_of(w.slot(validator_address(), unbonding_count_slot())),
        ).no_duplicates(),
        unstake_effect(w, input, sender).0 is Done,
        later.slots == unstake_effect(w, input, sender).1.slots,
        able(later, 100_000),
        w.block_number + UNBONDING_PERIOD_BLOCKS <= u64::MAX,
        later.block_number < w.block_number + UNBONDING_PERIOD_BLOCKS,
    ensures
        unstake_effect(later, input, sender).0 == refused("validator unstake: already unbonding"),
        unstake_effect(later, input, sender).1.slots == later.slots,
        claim_effect(later, input, sender).0 == refused(
            "validator claim: unbonding period not elapsed",
        ),
        claim_effect(later, input, sender).1.slots == later.slots,
{
    broadcast use group_steps;

    lemma_exit_slots(sender, u64_of(w.slot(validator_address(), unbonding_count_slot())));
    law_word_round_trips(w.block_number, 0, sender, 2);
}

/// Paying a stake back takes it out of escrow, gives it to its owner and strikes the owner off, so
/// that it is paid once.
pub proof fn law_stake_is_paid_back_once(
    w: World,
    sender: Address,
    amount: u128,
    later: World,
    input: Seq<u8>,
)
    requires
        able(w, 200_000),
        balance_slot(CALL_ASSET_ID, sender) != balance_slot(CALL_ASSET_ID, staking_escrow()),
        holding(w, CALL_ASSET_ID, staking_escrow()) >= amount,
        holding(w, CALL_ASSET_ID, sender) + amount <= u128::MAX,
        later.slots == pay_back(w, sender, amount).1.slots,
        able(later, 100_000),
        input.len() >= 36,
    ensures
        ({
            let (o, after) = pay_back(w, sender, amount);
            &&& o is Done
            &&& holding(after, CALL_ASSET_ID, sender) == holding(w, CALL_ASSET_ID, sender) + amount
            &&& holding(after, CALL_ASSET_ID, staking_escrow()) == holding(
                w,
                CALL_ASSET_ID,
                staking_escrow(),
            ) - amount
            &&& claim_effect(later, input, sender).0 == refused("validator claim: not a validator")
            &&& claim_effect(later, input, sender).1.slots == later.slots
        }),
{
    broadcast use group_steps;

}

/// The amount of the first unbonding request on record of validator `id`, from the `i`-th on.
pub open spec fn requested(w: World, id: u64, i: u64, count: u64) -> Option<u128>
    decreases count - i,
{
    if i >= count {
        None
    } else {
        let v = w.slot(validator_address(), unbonding_slot(i));
        if request_id(v) == id {
            Some(v.lo)
        } else {
            requested(w, id, (i + 1) as u64, count)
        }
    }
}

/// How many unbonding requests are on record.
pub open spec fn request_count(w: World) -> u64 {
    u64_of(w.slot(validator_address(), unbonding_count_slot()))
}

proof fn lemma_find_request(w: World, id: u64, i: u64, count: u64)
    requires
        i <= count,
        able(w, 2_100 * (count - i)),
    ensures
        ({
            let (found, after) = find_request(w, id, i, count);
            &&& found == requested(w, id, i, count)
            &&& after.slots == w.slots
            &&& able(after, w.gas - 2_100 * (count - i))
        }),
    decreases count - i,
{
    broadcast use group_steps;

    if i < count {
        let (v, next) = w.read(validator_address(), unbonding_slot(i));
        if request_id(v) != id {
            lemma_find_request(next, id, (i + 1) as u64, count);
            lemma_requested_of_slots(w, next, id, (i + 1) as u64, count);
        }
    }
}

proof fn lemma_requested_of_slots(w: World, other: World, id: u64, i: u64, count: u64)
    requires
        w.slots == other.slots,
    ensures
        requested(w, id, i, count) == requested(other, id, i, count),
    decreases count - i,
{
    if i < count {
        lemma_requested_of_slots(w, other, id, (i + 1) as u64, count);
    }
}

/// Whether an account may claim what validator `id` had staked: it is that validator, it is
/// leaving, and the wait is over.
pub open spec fn may_claim(w: World, sender: Address, id: u64) -> bool {
    &&& id != 0
    &&& u64_of(validator_field(w, sender, "validator_id")) == id
    &&& u8_of(validator_field(w, sender, "status")) == 2
    &&& u64_of(validator_field(w, sender, "unbond_at")) + UNBONDING_PERIOD_BLOCKS <= w.block_number
}

/// A claim is paid where the sender is the validator that it names, is leaving and has waited long
/// enough, and the escrow has the amount that was asked for: the amount goes from the escrow to the
/// sender, where their balances are kept in different slots; the two hold together what they held,
/// no other balance changes, the sender is struck off, and a second claim is refused. Any other claim
/// is refused and changes nothing.
pub proof fn law_claim_is_paid_to_who_may_claim(
    w: World,
    input: Seq<u8>,
    sender: Address,
    later: World,
    again: Seq<u8>,
)
    requires
        able(w, 300_000 + 2_100 * request_count(w)),
        input.len() >= 36,
        balance_slot(CALL_ASSET_ID, sender) != balance_slot(CALL_ASSET_ID, staking_escrow()) ==> (
        requested(w, u64_at(input, 4), 0, request_count(w)) matches Some(amount) ==> holding(
            w,
            CALL_ASSET_ID,
            sender,
        ) + amount <= u128::MAX),
        later.slots == claim_effect(w, input, sender).1.slots,
        able(later, 100_000),
        again.len() >= 36,
    ensures
        ({
            let id = u64_at(input, 4);
            let (o, after) = claim_effect(w, input, sender);
            match requested(w, id, 0, request_count(w)) {
                Some(amount) if may_claim(w, sender, id) && holding(
                    w,
                    CALL_ASSET_ID,
                    staking_escrow(),
                ) >= amount => {
                    &&& o is Done
                    &&& balance_slot(CALL_ASSET_ID, sender) != balance_slot(
                        CALL_ASSET_ID,
                        staking_escrow(),
                    ) ==> {
                        &&& holding(after, CALL_ASSET_ID, sender) == holding(
                            w,
                            CALL_ASSET_ID,
                            sender,
                        ) + amount
                        &&& holding(after, CALL_ASSET_ID, staking_escrow()) == holding(
                            w,
                            CALL_ASSET_ID,
                            staking_escrow(),
                        ) - amount
                    }
                    &&& holding(after, CALL_ASSET_ID, sender) + holding(
                        after,
                        CALL_ASSET_ID,
                        staking_escrow(),
                    ) == holding(w, CALL_ASSET_ID, sender) + holding(
                        w,
                        CALL_ASSET_ID,
                        staking_escrow(),
                    )
                    &&& forall|id: u64, account: Address|
                        balance_slot(id, account) != balance_slot(CALL_ASSET_ID, sender)
                            && balance_slot(id, account) != balance_slot(
                            CALL_ASSET_ID,
                            staking_escrow(),
                        ) ==> #[trigger] holding(after, id, account) == holding(w, id, account)
                    &&& validator_field(after, sender, "validator_id") == zero_word()
                    &&& validator_field(after, sender, "stake") == zero_word()
                    &&& validator_field(after, sender, "status") == zero_word()
                    &&& claim_effect(later, again, sender).0 == refused(
                        "validator claim: not a validator",
                    )
                    &&& claim_effect(later, again, sender).1.slots == later.slots
                },
                _ => o is Failed && after.slots == w.slots,
            }
        }),
{
    broadcast use group_steps;

    let (paid, w1) = w.charge(30000);
    let (stored, w2) = field_read(w1, sender, "validator_id");
    let (status, w3) = field_read(w2, sender, "status");
    let (height, w4) = field_read(w3, sender, "unbond_at");
    let (count, w5) = w4.read(validator_address(), unbonding_count_slot());
    let id = u64_at(input, 4);
    if may_claim(w, sender, id) {
        lemma_find_request(w5, id, 0, request_count(w));
        lemma_requested_of_slots(w, w5, id, 0, request_count(w));
    }
}

/// The slots of the first `count` unbonding requests are none of those that leaving writes.
pub open spec fn requests_apart(account: Address, count: u64) -> bool {
    forall|i: u64|
        i < count ==> {
            &&& (#[trigger] unbonding_slot(i)) != unbonding_count_slot()
            &&& unbonding_slot(i) != unbonding_slot(count)
            &&& unbonding_slot(i) != validator_slot(account, "status")
            &&& unbonding_slot(i) != validator_slot(account, "unbond_at")
        }
}

proof fn lemma_request_is_last(w: World, id: u64, i: u64, count: u64, amount: u128)
    requires
        i <= count < u64::MAX,
        w.slot(validator_address(), unbonding_slot(count)) == request_word(id, amount),
        forall|j: u64|
            i <= j < count ==> request_id(
                w.slot(validator_address(), #[trigger] unbonding_slot(j)),
            ) != id,
    ensures
        requested(w, id, i, (count + 1) as u64) == Some(amount),
    decreases count - i,
{
    if i < count {
        lemma_request_is_last(w, id, (i + 1) as u64, count, amount);
        assert(request_id(w.slot(validator_address(), unbonding_slot(i))) != id);
    }
}

/// A validator that leaves gets back, once the wait is over, exactly the stake that it had on
/// record when it left.
pub proof fn law_unstaked_stake_comes_back(
    w: World,
    input: Seq<u8>,
    sender: Address,
    later: World,
)
    requires
        able(w, 400_000),
        input.len() >= 36,
        request_count(w) < u64::MAX,
        exit_slots(sender, request_count(w)).no_duplicates(),
        requests_apart(sender, request_count(w)),
        forall|i: u64|
            i < request_count(w) ==> request_id(
                w.slot(validator_address(), #[trigger] unbonding_slot(i)),
            ) != u64_at(input, 4),
        unstake_effect(w, input, sender).0 is Done,
        later.slots == unstake_effect(w, input, sender).1.slots,
        able(later, 300_000 + 2_100 * (request_count(w) + 1)),
        w.block_number + UNBONDING_PERIOD_BLOCKS <= later.block_number,
        balance_slot(CALL_ASSET_ID, sender) != balance_slot(CALL_ASSET_ID, staking_escrow()),
        holding(w, CALL_ASSET_ID, staking_escrow()) >= validator_field(w, sender, "stake").lo,
        holding(w, CALL_ASSET_ID, sender) + validator_field(w, sender, "stake").lo <= u128::MAX,
    ensures
        ({
            let stake = validator_field(w, sender, "stake").lo;
            let (o, after) = claim_effect(later, input, sender);
            &&& o is Done
            &&& holding(after, CALL_ASSET_ID, sender) == holding(w, CALL_ASSET_ID, sender) + stake
            &&& holding(after, CALL_ASSET_ID, staking_escrow()) == holding(
                w,
                CALL_ASSET_ID,
                staking_escrow(),
            ) - stake
        }),
{
    let id = u64_at(input, 4);
    let count = request_count(w);
    let stake = validator_field(w, sender, "stake").lo;
    lemma_unstake_records(w, input, sender);
    assert forall|j: u64| j < count implies request_id(
        later.slot(validator_address(), #[trigger] unbonding_slot(j)),
    ) != id by {
        assert(later.slot(validator_address(), unbonding_slot(j)) == w.slot(
            validator_address(),
            unbonding_slot(j),
        ));
    }
    lemma_request_is_last(later, id, 0, count, stake);
    let left = unstake_effect(w, input, sender).1;
    assert forall|account: Address| #[trigger]
        holding(later, CALL_ASSET_ID, account) == holding(w, CALL_ASSET_ID, account) by {
        assert(holding(left, CALL_ASSET_ID, account) == holding(w, CALL_ASSET_ID, account));
    }
    let after = claim_effect(later, input, sender).1;
    let last = World { gas: u64::MAX, slots: after.slots, ..later };
    law_claim_is_paid_to_who_may_claim(later, input, sender, last, input);
}

proof fn lemma_unstake_records(w: World, input: Seq<u8>, sender: Address)
    requires
        able(w, 400_000),
        input.len() >= 36,
        request_count(w) < u64::MAX,
        exit_slots(sender, request_count(w)).no_duplicates(),
        requests_apart(sender, request_count(w)),
        unstake_effect(w, input, sender).0 is Done,
    ensures
        ({
            let id = u64_at(input, 4);
            let count = request_count(w);
            let after = unstake_effect(w, input, sender).1;
            &&& id != 0
            &&& u64_of(validator_field(after, sender, "validator_id")) == id
            &&& u8_of(validator_field(after, sender, "status")) == 2
            &&& u64_of(validator_field(after, sender, "unbond_at")) == w.block_number
            &&& request_count(after) == count + 1
            &&& after.slot(validator_address(), unbonding_slot(count)) == request_word(
                id,
                validator_field(w, sender, "stake").lo,
            )
            &&& forall|i: u64|
                i < count ==> after.slot(validator_address(), #[trigger] unbonding_slot(i))
                    == w.slot(validator_address(), unbonding_slot(i))
            &&& forall|account: Address| #[trigger]
                holding(after, CALL_ASSET_ID, account) == holding(w, CALL_ASSET_ID, account)
        }),
{
    broadcast use group_steps;

    let count = request_count(w);
    lemma_exit_slots(sender, count);
    law_word_round_trips(w.block_number, 0, sender, 2);
    law_word_round_trips((count + 1) as u64, 0, sender, 2);
}

} // verus!
