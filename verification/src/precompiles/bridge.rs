//! Bridge precompile: deposits and withdrawals across chains, with challenges against deposits.

pub mod laws;

use crate::crypto::{keccak256, keccak256_word};
use crate::precompiles::abi::{
    address_at, address_word_bytes, bytes_at, decode_address, decode_bytes, decode_bytes32,
    decode_selector, decode_u128, decode_u64, encode_u128, number_word, push_address, push_u128,
    push_u64, push_u8, selector_of, u128_at, u64_at, word_at,
};
use crate::precompiles::asset::{
    balance_read, balance_write, field, holding, load_bal, meta_read, save_bal,
};
use crate::precompiles::slots::{
    asset_address, balance_slot, bridge_address, slot_asset_meta, slot_tag, slot_tagged,
    slot_validator_by_addr, tag_slot, tagged_slot, validator_address, validator_slot,
};
use crate::precompiles::steps::{able, group_steps};
use crate::precompiles::storage::{
    fatal, ok_bytes, ok_empty, out_of_gas, outcome, refused, Outcome, PrecompileError,
    PrecompileResult, StatefulPrecompile, StorageCtx, StorageProvider, World,
};
use crate::words::{
    address_of, address_to_u256, address_word, u128_to_u256, u256_to_address, u256_to_u128,
    u256_to_u64, u256_to_u8, u64_of, u64_to_u256, u8_of, word, zero_address, zero_word, Address,
    U256,
};
use vstd::prelude::*;

verus! {

/// The state of a bridge operation.
#[derive(Clone, Copy, Debug)]
pub struct BridgeOpStatus {
    pub op_id: u64,
    pub completed: bool,
    pub confirmations: u64,
    pub source_tx_hash: Option<U256>,
}

/// Running totals of a bridge.
#[derive(Clone, Copy, Debug)]
pub struct BridgeState {
    pub total_deposits: u128,
    pub total_withdrawals: u128,
    pub pending_ops: u64,
}

impl Default for BridgeState {
    fn default() -> (r: Self)
        ensures
            r == (BridgeState { total_deposits: 0, total_withdrawals: 0, pending_ops: 0 }),
    {
        BridgeState { total_deposits: 0, total_withdrawals: 0, pending_ops: 0 }
    }
}

/// The status of an operation that has not started.
pub fn bridge_get_status() -> (r: BridgeOpStatus)
    ensures
        r == (BridgeOpStatus { op_id: 0, completed: false, confirmations: 0, source_tx_hash: None }),
{
    BridgeOpStatus { op_id: 0, completed: false, confirmations: 0, source_tx_hash: None }
}

/// Counts a deposit.
pub fn bridge_deposit(
    state: &mut BridgeState,
    asset_id: u64,
    from: Address,
    to: Address,
    amount: u128,
)
    requires
        old(state).total_deposits + amount <= u128::MAX,
        old(state).pending_ops < u64::MAX,
    ensures
        *final(state) == (BridgeState {
            total_deposits: (old(state).total_deposits + amount) as u128,
            pending_ops: (old(state).pending_ops + 1) as u64,
            ..*old(state)
        }),
{
    state.total_deposits = state.total_deposits + amount;
    state.pending_ops = state.pending_ops + 1;
}

/// Counts a withdrawal.
pub fn bridge_withdraw(
    state: &mut BridgeState,
    asset_id: u64,
    from: Address,
    to: Address,
    amount: u128,
)
    requires
        old(state).total_withdrawals + amount <= u128::MAX,
        old(state).pending_ops < u64::MAX,
    ensures
        *final(state) == (BridgeState {
            total_withdrawals: (old(state).total_withdrawals + amount) as u128,
            pending_ops: (old(state).pending_ops + 1) as u64,
            ..*old(state)
        }),
{
    state.total_withdrawals = state.total_withdrawals + amount;
    state.pending_ops = state.pending_ops + 1;
}

/// How many blocks a deposit can be challenged, unless configured otherwise.
pub const DEFAULT_CHALLENGE_PERIOD: u64 = 100;

/// The bond of a challenge, unless configured otherwise.
pub const DEFAULT_CHALLENGE_BOND: u128 = 1000;

/// The native asset.
pub const CALL_ASSET_ID: u64 = 1;

/// The slot of the deposit total.
pub open spec fn deposits_slot() -> U256 {
    word(0)
}

/// The slot of the withdrawal total.
pub open spec fn withdrawals_slot() -> U256 {
    word(1)
}

pub open spec fn bridge_read(w: World, key: U256) -> (U256, World) {
    w.read(bridge_address(), key)
}

pub open spec fn bridge_write(w: World, key: U256, v: U256) -> World {
    w.write(bridge_address(), key, v)
}

fn load<P: StorageProvider>(storage: &mut P, key: U256) -> (r: U256)
    ensures
        (r, final(storage).world()) == bridge_read(old(storage).world(), key),
{
    StorageCtx::read(storage, bridge_address(), key)
}

fn save<P: StorageProvider>(storage: &mut P, key: U256, v: U256)
    ensures
        final(storage).world() == bridge_write(old(storage).world(), key, v),
{
    StorageCtx::write(storage, bridge_address(), key, v);
}

/// The configured challenge period.
pub open spec fn period_read(w: World) -> (u64, World) {
    let (v, w) = bridge_read(w, tag_slot("challenge_period"));
    (
        if u64_of(v) == 0 {
            DEFAULT_CHALLENGE_PERIOD
        } else {
            u64_of(v)
        },
        w,
    )
}

fn get_challenge_period<P: StorageProvider>(storage: &mut P) -> (r: u64)
    ensures
        (r, final(storage).world()) == period_read(old(storage).world()),
{
    let v: u64 = u256_to_u64(load(storage, slot_tag("challenge_period")));
    if v == 0 {
        DEFAULT_CHALLENGE_PERIOD
    } else {
        v
    }
}

/// The configured bond.
pub open spec fn bond_read(w: World) -> (u128, World) {
    let (v, w) = bridge_read(w, tag_slot("challenge_bond"));
    (
        if v.lo == 0 {
            DEFAULT_CHALLENGE_BOND
        } else {
            v.lo
        },
        w,
    )
}

fn get_challenge_bond<P: StorageProvider>(storage: &mut P) -> (r: u128)
    ensures
        (r, final(storage).world()) == bond_read(old(storage).world()),
{
    let v: u128 = u256_to_u128(load(storage, slot_tag("challenge_bond")));
    if v == 0 {
        DEFAULT_CHALLENGE_BOND
    } else {
        v
    }
}

/// Whether an asset has an issuer on record.
pub open spec fn registered_read(w: World, asset_id: u64) -> (bool, World) {
    let (issuer, w) = meta_read(w, asset_id, "issuer");
    (address_of(issuer) != zero_address(), w)
}

fn bridge_asset_registered<P: StorageProvider>(storage: &mut P, asset_id: u64) -> (r: bool)
    ensures
        (r, final(storage).world()) == registered_read(old(storage).world(), asset_id),
{
    let v = StorageCtx::read(storage, asset_address(), slot_asset_meta(asset_id, "issuer"));
    !u256_to_address(v).is_zero()
}

/// Whether the bridge is paused.
pub open spec fn paused_read(w: World) -> (bool, World) {
    let (v, w) = bridge_read(w, tag_slot("paused"));
    (u8_of(v) != 0, w)
}

fn bridge_is_paused<P: StorageProvider>(storage: &mut P) -> (r: bool)
    ensures
        (r, final(storage).world()) == paused_read(old(storage).world()),
{
    u256_to_u8(load(storage, slot_tag("paused"))) != 0
}

/// What keeps an asset from crossing the bridge, if anything.
pub open spec fn basic_problem(w: World, asset_id: u64) -> (Option<&'static str>, World) {
    let (registered, w) = registered_read(w, asset_id);
    if !registered {
        (Some("asset not registered"), w)
    } else {
        let (paused, w) = paused_read(w);
        if paused {
            (Some("bridge paused"), w)
        } else {
            (None, w)
        }
    }
}

/// What keeps an asset from crossing to or from the EVM side, if anything.
pub open spec fn asset_problem(w: World, asset_id: u64) -> (Option<&'static str>, World) {
    if asset_id == 0 {
        (Some("asset 0 not bridgeable"), w)
    } else {
        let (problem, w) = basic_problem(w, asset_id);
        if problem is Some {
            (problem, w)
        } else {
            let (status, w) = meta_read(w, asset_id, "status");
            if u8_of(status) != 0 {
                (Some("asset not active"), w)
            } else {
                (None, w)
            }
        }
    }
}

fn bridge_validate_basic<P: StorageProvider>(storage: &mut P, asset_id: u64) -> (r: Result<
    (),
    PrecompileError,
>)
    ensures
        final(storage).world() == basic_problem(old(storage).world(), asset_id).1,
        r == match basic_problem(old(storage).world(), asset_id).0 {
            None => Ok(()),
            Some(reason) => Err(PrecompileError::Other(reason)),
        },
{
    if !bridge_asset_registered(storage, asset_id) {
        return Err(PrecompileError::Other("asset not registered"));
    }
    if bridge_is_paused(storage) {
        return Err(PrecompileError::Other("bridge paused"));
    }
    Ok(())
}

fn bridge_validate_asset<P: StorageProvider>(storage: &mut P, asset_id: u64) -> (r: Result<
    (),
    PrecompileError,
>)
    ensures
        final(storage).world() == asset_problem(old(storage).world(), asset_id).1,
        r == match asset_problem(old(storage).world(), asset_id).0 {
            None => Ok(()),
            Some(reason) => Err(PrecompileError::Other(reason)),
        },
{
    if asset_id == 0 {
        return Err(PrecompileError::Other("asset 0 not bridgeable"));
    }
    bridge_validate_basic(storage, asset_id)?;
    let v = StorageCtx::read(storage, asset_address(), slot_asset_meta(asset_id, "status"));
    if u256_to_u8(v) != 0 {
        return Err(PrecompileError::Other("asset not active"));
    }
    Ok(())
}

/// Crediting an account; the reason where it is refused.
pub open spec fn credit_effect(w: World, asset_id: u64, account: Address, amount: u128) -> (
    Option<&'static str>,
    World,
) {
    let (held, w) = balance_read(w, asset_id, account);
    if held + amount > u128::MAX {
        (Some("balance overflow"), w)
    } else {
        (None, balance_write(w, asset_id, account, (held + amount) as u128))
    }
}

/// Debiting an account; the reason where it is refused.
pub open spec fn debit_effect(w: World, asset_id: u64, account: Address, amount: u128) -> (
    Option<&'static str>,
    World,
) {
    let (held, w) = balance_read(w, asset_id, account);
    if held < amount {
        (Some("insufficient balance"), w)
    } else {
        (None, balance_write(w, asset_id, account, (held - amount) as u128))
    }
}

fn credit_bal<P: StorageProvider>(
    storage: &mut P,
    asset_id: u64,
    account: Address,
    amount: u128,
) -> (r: Result<(), PrecompileError>)
    ensures
        final(storage).world() == credit_effect(old(storage).world(), asset_id, account, amount).1,
        r == match credit_effect(old(storage).world(), asset_id, account, amount).0 {
            None => Ok(()),
            Some(reason) => Err(PrecompileError::Other(reason)),
        },
{
    let bal: u128 = load_bal(storage, asset_id, account).checked_add(amount).ok_or(
        PrecompileError::Other("balance overflow"),
    )?;
    save_bal(storage, asset_id, account, bal);
    Ok(())
}

fn debit_bal<P: StorageProvider>(
    storage: &mut P,
    asset_id: u64,
    account: Address,
    amount: u128,
) -> (r: Result<(), PrecompileError>)
    ensures
        final(storage).world() == debit_effect(old(storage).world(), asset_id, account, amount).1,
        r == match debit_effect(old(storage).world(), asset_id, account, amount).0 {
            None => Ok(()),
            Some(reason) => Err(PrecompileError::Other(reason)),
        },
{
    let bal: u128 = load_bal(storage, asset_id, account).checked_sub(amount).ok_or(
        PrecompileError::Other("insufficient balance"),
    )?;
    save_bal(storage, asset_id, account, bal);
    Ok(())
}

/// Adding to a running total; `false` where it does not fit.
pub open spec fn raise_total(w: World, key: U256, amount: u128) -> (bool, World) {
    let (total, w) = bridge_read(w, key);
    if total.lo + amount > u128::MAX {
        (false, w)
    } else {
        (true, bridge_write(w, key, word((total.lo + amount) as u128)))
    }
}

fn add_total<P: StorageProvider>(storage: &mut P, key: U256, amount: u128) -> (r: Result<
    (),
    PrecompileError,
>)
    ensures
        (r is Ok, final(storage).world()) == raise_total(old(storage).world(), key, amount),
        r matches Err(e) ==> e == PrecompileError::Fatal("bridge total overflow"),
{
    let total: u128 = u256_to_u128(load(storage, key));
    let sum: u128 = total.checked_add(amount).ok_or(
        PrecompileError::Fatal("bridge total overflow"),
    )?;
    save(storage, key, u128_to_u256(sum));
    Ok(())
}

fn add_total_deposits<P: StorageProvider>(storage: &mut P, amount: u128) -> (r: Result<
    (),
    PrecompileError,
>)
    ensures
        (r is Ok, final(storage).world()) == raise_total(
            old(storage).world(),
            deposits_slot(),
            amount,
        ),
        r matches Err(e) ==> e == PrecompileError::Fatal("bridge total overflow"),
{
    add_total(storage, u64_to_u256(0), amount)
}

fn add_total_withdrawals<P: StorageProvider>(storage: &mut P, amount: u128) -> (r: Result<
    (),
    PrecompileError,
>)
    ensures
        (r is Ok, final(storage).world()) == raise_total(
            old(storage).world(),
            withdrawals_slot(),
            amount,
        ),
        r matches Err(e) ==> e == PrecompileError::Fatal("bridge total overflow"),
{
    add_total(storage, u64_to_u256(1), amount)
}

/// Taking from the deposit total, down to zero at most.
pub open spec fn lower_deposits(w: World, amount: u128) -> World {
    let (total, w) = bridge_read(w, deposits_slot());
    bridge_write(
        w,
        deposits_slot(),
        word(
            if total.lo < amount {
                0
            } else {
                (total.lo - amount) as u128
            },
        ),
    )
}

fn sub_total_deposits<P: StorageProvider>(storage: &mut P, amount: u128)
    ensures
        final(storage).world() == lower_deposits(old(storage).world(), amount),
{
    let total: u128 = u256_to_u128(load(storage, u64_to_u256(0)));
    save(storage, u64_to_u256(0), u128_to_u256(total.saturating_sub(amount)));
}

pub open spec fn get_total_effect(w: World, key: U256) -> (Outcome, World) {
    let (paid, w) = w.charge(1500);
    if !paid {
        (out_of_gas(), w)
    } else {
        let (total, w) = bridge_read(w, key);
        (w.done(number_word(total.lo as nat, 16)), w)
    }
}

/// Crediting an account and the deposit total.
pub open spec fn credit_deposit(w: World, asset_id: u64, to: Address, amount: u128) -> (
    Outcome,
    World,
) {
    let (problem, w) = credit_effect(w, asset_id, to, amount);
    match problem {
        Some(reason) => (refused(reason), w),
        None => {
            let (counted, w) = raise_total(w, deposits_slot(), amount);
            if counted {
                (w.done(Seq::empty()), w)
            } else {
                (fatal("bridge total overflow"), w)
            }
        },
    }
}

/// Debiting an account and counting the withdrawal.
pub open spec fn debit_withdrawal(w: World, asset_id: u64, from: Address, amount: u128) -> (
    Outcome,
    World,
) {
    let (problem, w) = debit_effect(w, asset_id, from, amount);
    match problem {
        Some(reason) => (refused(reason), w),
        None => {
            let (counted, w) = raise_total(w, withdrawals_slot(), amount);
            if counted {
                (w.done(Seq::empty()), w)
            } else {
                (fatal("bridge total overflow"), w)
            }
        },
    }
}

pub open spec fn bridge_to_evm_effect(w: World, input: Seq<u8>, sender: Address) -> (
    Outcome,
    World,
) {
    let (paid, w) = w.charge(30000);
    if !paid {
        (out_of_gas(), w)
    } else if input.len() < 100 {
        (refused("invalid input"), w)
    } else {
        let (problem, w) = asset_problem(w, u64_at(input, 4));
        match problem {
            Some(reason) => (refused(reason), w),
            None => debit_withdrawal(w, u64_at(input, 4), sender, u128_at(input, 68)),
        }
    }
}

pub open spec fn bridge_to_protocol_effect(w: World, input: Seq<u8>) -> (Outcome, World) {
    let (paid, w) = w.charge(30000);
    if !paid {
        (out_of_gas(), w)
    } else if input.len() < 100 {
        (refused("invalid input"), w)
    } else {
        let (problem, w) = asset_problem(w, u64_at(input, 4));
        match problem {
            Some(reason) => (refused(reason), w),
            None => credit_deposit(
                w,
                u64_at(input, 4),
                address_at(input, 36),
                u128_at(input, 68),
            ),
        }
    }
}

/// A field of the deposit or challenge with the given source transaction.
pub open spec fn record_read(w: World, field: &str, tx: U256) -> (U256, World) {
    bridge_read(w, tagged_slot(field, tx))
}

pub open spec fn record_write(w: World, field: &str, tx: U256, v: U256) -> World {
    bridge_write(w, tagged_slot(field, tx), v)
}

fn load_record<P: StorageProvider>(storage: &mut P, field: &str, tx: U256) -> (r: U256)
    ensures
        (r, final(storage).world()) == record_read(old(storage).world(), field, tx),
{
    load(storage, slot_tagged(field, tx))
}

fn save_record<P: StorageProvider>(storage: &mut P, field: &str, tx: U256, v: U256)
    ensures
        final(storage).world() == record_write(old(storage).world(), field, tx, v),
{
    save(storage, slot_tagged(field, tx), v);
}

pub open spec fn external_deposit_effect(w: World, input: Seq<u8>, sender: Address) -> (
    Outcome,
    World,
) {
    let (paid, w) = w.charge(30000);
    if !paid {
        (out_of_gas(), w)
    } else if input.len() < 132 {
        (refused("invalid input"), w)
    } else {
        let tx = word_at(input, 4);
        let asset_id = u64_at(input, 36);
        let recipient = address_at(input, 68);
        let amount = u128_at(input, 100);
        let (processed, w) = record_read(w, "processed", tx);
        if processed != zero_word() {
            (refused("source tx already processed"), w)
        } else {
            let (problem, w) = basic_problem(w, asset_id);
            match problem {
                Some(reason) => (refused(reason), w),
                None => {
                    let w = record_write(w, "processed", tx, word(1));
                    let w = record_write(w, "deposit_asset_id", tx, word(asset_id as u128));
                    let w = record_write(w, "deposit_recipient", tx, address_word(recipient));
                    let w = record_write(w, "deposit_amount", tx, word(amount));
                    let w = record_write(w, "deposit_block", tx, word(w.block_number as u128));
                    let w = record_write(w, "challenge_validator", tx, address_word(sender));
                    credit_deposit(w, asset_id, recipient, amount)
                },
            }
        }
    }
}

pub open spec fn external_withdraw_effect(w: World, input: Seq<u8>, sender: Address) -> (
    Outcome,
    World,
) {
    let (paid, w) = w.charge(30000);
    if !paid {
        (out_of_gas(), w)
    } else if input.len() < 132 {
        (refused("invalid input"), w)
    } else if bytes_at(input, 100) is None {
        (refused("invalid targetAddress"), w)
    } else {
        let (problem, w) = basic_problem(w, u64_at(input, 36));
        match problem {
            Some(reason) => (refused(reason), w),
            None => debit_withdrawal(w, u64_at(input, 36), sender, u128_at(input, 68)),
        }
    }
}

pub open spec fn deposit_effect(w: World, input: Seq<u8>) -> (Outcome, World) {
    let (paid, w) = w.charge(30000);
    if !paid {
        (out_of_gas(), w)
    } else if input.len() < 164 {
        (refused("invalid input"), w)
    } else if bytes_at(input, 132) is None {
        (refused("invalid proof"), w)
    } else {
        let (problem, w) = basic_problem(w, u64_at(input, 100));
        match problem {
            Some(reason) => (refused(reason), w),
            None => credit_deposit(
                w,
                u64_at(input, 100),
                address_at(input, 36),
                u128_at(input, 68),
            ),
        }
    }
}

pub open spec fn initiate_challenge_effect(w: World, input: Seq<u8>, sender: Address) -> (
    Outcome,
    World,
) {
    let (paid, w) = w.charge(50000);
    if !paid {
        (out_of_gas(), w)
    } else if input.len() < 68 {
        (refused("invalid input"), w)
    } else {
        match bytes_at(input, 36) {
            None => (refused("invalid proof"), w),
            Some(proof) => {
                let tx = word_at(input, 4);
                let (processed, w) = record_read(w, "processed", tx);
                if processed == zero_word() {
                    (refused("source tx not processed"), w)
                } else {
                    let (status, w) = record_read(w, "challenge_status", tx);
                    if u8_of(status) != 0 {
                        (refused("challenge already exists"), w)
                    } else {
                        open_challenge(w, tx, keccak256_word(proof), sender)
                    }
                }
            },
        }
    }
}

/// Opening a challenge against a processed deposit.
pub open spec fn open_challenge(w: World, tx: U256, proof_hash: U256, sender: Address) -> (
    Outcome,
    World,
) {
    let (height, w) = record_read(w, "deposit_block", tx);
    let (period, w) = period_read(w);
    let now = w.block_number;
    if u64_of(height) + period > u64::MAX {
        (fatal("challenge period overflow"), w)
    } else if now >= u64_of(height) + period {
        (refused("challenge period expired"), w)
    } else {
        let (bond, w) = bond_read(w);
        let (problem, w) = debit_effect(w, CALL_ASSET_ID, sender, bond);
        match problem {
            Some(reason) => (refused(reason), w),
            None => if now + period > u64::MAX {
                (fatal("challenge deadline overflow"), w)
            } else {
                let w = record_write(w, "challenge_status", tx, word(1));
                let w = record_write(w, "challenge_challenger", tx, address_word(sender));
                let w = record_write(w, "challenge_deadline", tx, word((now + period) as u128));
                let w = record_write(w, "challenge_bond", tx, word(bond));
                let w = record_write(w, "challenge_proof_hash", tx, proof_hash);
                (w.done(Seq::empty()), w)
            },
        }
    }
}

/// The bond with its reward.
pub open spec fn rewarded(bond: u128) -> int {
    bond + bond / 10
}

/// Striking a validator off the list.
pub open spec fn slash_effect(w: World, validator: Address) -> World {
    let slot = validator_slot(validator, "validator_id");
    let (id, w) = w.read(validator_address(), slot);
    if u64_of(id) == 0 {
        w
    } else {
        w.write(validator_address(), slot, zero_word())
    }
}

/// The bond on record; the default where the record cannot be read.
pub open spec fn recorded_bond(w: World, tx: U256) -> (u128, World) {
    let (v, w) = w.sload(bridge_address(), tagged_slot("challenge_bond", tx));
    (
        match v {
            Some(v) => v.lo,
            None => DEFAULT_CHALLENGE_BOND,
        },
        w,
    )
}

fn load_bond<P: StorageProvider>(storage: &mut P, tx: U256) -> (r: u128)
    ensures
        (r, final(storage).world()) == recorded_bond(old(storage).world(), tx),
{
    match StorageCtx::sload(storage, bridge_address(), slot_tagged("challenge_bond", tx)) {
        Some(v) => u256_to_u128(v),
        None => DEFAULT_CHALLENGE_BOND,
    }
}

/// A challenge that holds: the deposit is undone, the challenger is paid, the validator struck off.
pub open spec fn uphold_challenge(w: World, tx: U256, bond: u128) -> (Outcome, World) {
    let (asset_id, w) = record_read(w, "deposit_asset_id", tx);
    let (recipient, w) = record_read(w, "deposit_recipient", tx);
    let (amount, w) = record_read(w, "deposit_amount", tx);
    let w = debit_effect(w, u64_of(asset_id), address_of(recipient), amount.lo).1;
    let w = lower_deposits(w, amount.lo);
    let w = record_write(w, "processed", tx, zero_word());
    let (challenger, w) = record_read(w, "challenge_challenger", tx);
    if rewarded(bond) > u128::MAX {
        (fatal("challenge reward overflow"), w)
    } else {
        let w = credit_effect(
            w,
            CALL_ASSET_ID,
            address_of(challenger),
            rewarded(bond) as u128,
        ).1;
        let (validator, w) = record_read(w, "challenge_validator", tx);
        let w = slash_effect(w, address_of(validator));
        let w = record_write(w, "challenge_status", tx, word(2));
        (w.done(Seq::empty()), w)
    }
}

/// A challenge that fails: the bond goes to the validator.
pub open spec fn dismiss_challenge(w: World, tx: U256, bond: u128) -> (Outcome, World) {
    let (validator, w) = record_read(w, "challenge_validator", tx);
    let w = credit_effect(w, CALL_ASSET_ID, address_of(validator), bond).1;
    let w = record_write(w, "challenge_status", tx, word(3));
    (w.done(Seq::empty()), w)
}

/// Resolving a challenge whose fraud proof was found valid or not.
pub open spec fn resolve_effect(w: World, input: Seq<u8>, proof_valid: bool) -> (Outcome, World) {
    let (paid, w) = w.charge(100000);
    if !paid {
        (out_of_gas(), w)
    } else if input.len() < 36 {
        (refused("invalid input"), w)
    } else {
        let tx = word_at(input, 4);
        let (status, w) = record_read(w, "challenge_status", tx);
        if u8_of(status) != 1 {
            (refused("challenge not pending"), w)
        } else {
            let (deadline, w) = record_read(w, "challenge_deadline", tx);
            if w.block_number < u64_of(deadline) {
                (refused("challenge deadline not reached"), w)
            } else {
                let (bond, w) = recorded_bond(w, tx);
                if proof_valid {
                    uphold_challenge(w, tx, bond)
                } else {
                    dismiss_challenge(w, tx, bond)
                }
            }
        }
    }
}

pub open spec fn get_challenge_status_effect(w: World, input: Seq<u8>) -> (Outcome, World) {
    let (paid, w) = w.charge(1500);
    if !paid {
        (out_of_gas(), w)
    } else if input.len() < 36 {
        (refused("invalid input"), w)
    } else {
        let tx = word_at(input, 4);
        let (status, w) = record_read(w, "challenge_status", tx);
        let (deadline, w) = record_read(w, "challenge_deadline", tx);
        let (bond, w) = record_read(w, "challenge_bond", tx);
        let (challenger, w) = record_read(w, "challenge_challenger", tx);
        (
            w.done(
                number_word(u8_of(status) as nat, 1) + number_word(u64_of(deadline) as nat, 8)
                    + number_word(bond.lo as nat, 16) + address_word_bytes(address_of(challenger)),
            ),
            w,
        )
    }
}

pub open spec fn withdraw_bond_effect(w: World, input: Seq<u8>, sender: Address) -> (
    Outcome,
    World,
) {
    let (paid, w) = w.charge(5000);
    if !paid {
        (out_of_gas(), w)
    } else if input.len() < 36 {
        (refused("invalid input"), w)
    } else {
        let tx = word_at(input, 4);
        let (status, w) = record_read(w, "challenge_status", tx);
        if u8_of(status) != 2 {
            (refused("challenge not successful"), w)
        } else {
            let (challenger, w) = record_read(w, "challenge_challenger", tx);
            if address_of(challenger) != sender {
                (refused("not challenger"), w)
            } else {
                let (bond, w) = recorded_bond(w, tx);
                if rewarded(bond) > u128::MAX {
                    (fatal("challenge reward overflow"), w)
                } else {
                    let (problem, w) = credit_effect(
                        w,
                        CALL_ASSET_ID,
                        sender,
                        rewarded(bond) as u128,
                    );
                    match problem {
                        Some(reason) => (refused(reason), w),
                        None => {
                            let w = record_write(w, "challenge_status", tx, word(4));
                            (w.done(Seq::empty()), w)
                        },
                    }
                }
            }
        }
    }
}

/// The bridge precompile.
#[derive(Clone, Copy, Debug)]
pub struct BridgePrecompile;

impl BridgePrecompile {
    fn get_total<P: StorageProvider>(storage: &mut P, key: U256) -> (r: PrecompileResult)
        ensures
            (outcome(r), final(storage).world()) == get_total_effect(old(storage).world(), key),
    {
        StorageCtx::deduct_gas(storage, 1500).ok_or(PrecompileError::OutOfGas)?;
        let total: u128 = u256_to_u128(load(storage, key));
        ok_bytes(storage, encode_u128(total))
    }

    pub fn get_total_deposits<P: StorageProvider>(&self, storage: &mut P) -> (r: PrecompileResult)
        ensures
            (outcome(r), final(storage).world()) == get_total_effect(
                old(storage).world(),
                deposits_slot(),
            ),
    {
        BridgePrecompile::get_total(storage, u64_to_u256(0))
    }

    pub fn get_total_withdrawals<P: StorageProvider>(&self, storage: &mut P) -> (r:
        PrecompileResult)
        ensures
            (outcome(r), final(storage).world()) == get_total_effect(
                old(storage).world(),
                withdrawals_slot(),
            ),
    {
        BridgePrecompile::get_total(storage, u64_to_u256(1))
    }

    fn run_credit_deposit<P: StorageProvider>(
        storage: &mut P,
        asset_id: u64,
        to: Address,
        amount: u128,
    ) -> (r: PrecompileResult)
        ensures
            (outcome(r), final(storage).world()) == credit_deposit(
                old(storage).world(),
                asset_id,
                to,
                amount,
            ),
    {
        credit_bal(storage, asset_id, to, amount)?;
        add_total_deposits(storage, amount)?;
        ok_empty(storage)
    }

    fn run_debit_withdrawal<P: StorageProvider>(
        storage: &mut P,
        asset_id: u64,
        from: Address,
        amount: u128,
    ) -> (r: PrecompileResult)
        ensures
            (outcome(r), final(storage).world()) == debit_withdrawal(
                old(storage).world(),
                asset_id,
                from,
                amount,
            ),
    {
        debit_bal(storage, asset_id, from, amount)?;
        add_total_withdrawals(storage, amount)?;
        ok_empty(storage)
    }

    pub fn bridge_to_evm<P: StorageProvider>(
        &self,
        storage: &mut P,
        input: &[u8],
        msg_sender: Address,
    ) -> (r: PrecompileResult)
        ensures
            (outcome(r), final(storage).world()) == bridge_to_evm_effect(
                old(storage).world(),
                input@,
                msg_sender,
            ),
    {
        StorageCtx::deduct_gas(storage, 30000).ok_or(PrecompileError::OutOfGas)?;
        if input.len() < 100 {
            return Err(PrecompileError::Other("invalid input"));
        }
        let asset_id: u64 = decode_u64(input, 4).ok_or(PrecompileError::Other("invalid assetId"))?;
        let amount: u128 = decode_u128(input, 68).ok_or(PrecompileError::Other("invalid amount"))?;
        bridge_validate_asset(storage, asset_id)?;
        BridgePrecompile::run_debit_withdrawal(storage, asset_id, msg_sender, amount)
    }

    pub fn bridge_to_protocol<P: StorageProvider>(&self, storage: &mut P, input: &[u8]) -> (r:
        PrecompileResult)
        ensures
            (outcome(r), final(storage).world()) == bridge_to_protocol_effect(
                old(storage).world(),
                input@,
            ),
    {
        StorageCtx::deduct_gas(storage, 30000).ok_or(PrecompileError::OutOfGas)?;
        if input.len() < 100 {
            return Err(PrecompileError::Other("invalid input"));
        }
        let asset_id: u64 = decode_u64(input, 4).ok_or(PrecompileError::Other("invalid assetId"))?;
        let to = decode_address(input, 36).ok_or(PrecompileError::Other("invalid to"))?;
        let amount: u128 = decode_u128(input, 68).ok_or(PrecompileError::Other("invalid amount"))?;
        bridge_validate_asset(storage, asset_id)?;
        BridgePrecompile::run_credit_deposit(storage, asset_id, to, amount)
    }

    pub fn external_deposit<P: StorageProvider>(
        &self,
        storage: &mut P,
        input: &[u8],
        msg_sender: Address,
    ) -> (r: PrecompileResult)
        ensures
            (outcome(r), final(storage).world()) == external_deposit_effect(
                old(storage).world(),
                input@,
                msg_sender,
            ),
    {
        StorageCtx::deduct_gas(storage, 30000).ok_or(PrecompileError::OutOfGas)?;
        if input.len() < 132 {
            return Err(PrecompileError::Other("invalid input"));
        }
        let tx = decode_bytes32(input, 4).ok_or(PrecompileError::Other("invalid sourceTxHash"))?;
        let asset_id: u64 = decode_u64(input, 36).ok_or(PrecompileError::Other("invalid assetId"))?;
        let recipient = decode_address(input, 68).ok_or(
            PrecompileError::Other("invalid recipient"),
        )?;
        let amount: u128 = decode_u128(input, 100).ok_or(PrecompileError::Other("invalid amount"))?;
        if !load_record(storage, "processed", tx).is_zero() {
            return Err(PrecompileError::Other("source tx already processed"));
        }
        bridge_validate_basic(storage, asset_id)?;
        save_record(storage, "processed", tx, u64_to_u256(1));
        save_record(storage, "deposit_asset_id", tx, u64_to_u256(asset_id));
        save_record(storage, "deposit_recipient", tx, address_to_u256(recipient));
        save_record(storage, "deposit_amount", tx, u128_to_u256(amount));
        let height: u64 = StorageCtx::block_number(storage);
        save_record(storage, "deposit_block", tx, u64_to_u256(height));
        save_record(storage, "challenge_validator", tx, address_to_u256(msg_sender));
        BridgePrecompile::run_credit_deposit(storage, asset_id, recipient, amount)
    }

    pub fn external_withdraw<P: StorageProvider>(
        &self,
        storage: &mut P,
        input: &[u8],
        msg_sender: Address,
    ) -> (r: PrecompileResult)
        ensures
            (outcome(r), final(storage).world()) == external_withdraw_effect(
                old(storage).world(),
                input@,
                msg_sender,
            ),
    {
        StorageCtx::deduct_gas(storage, 30000).ok_or(PrecompileError::OutOfGas)?;
        if input.len() < 132 {
            return Err(PrecompileError::Other("invalid input"));
        }
        let asset_id: u64 = decode_u64(input, 36).ok_or(PrecompileError::Other("invalid assetId"))?;
        let amount: u128 = decode_u128(input, 68).ok_or(PrecompileError::Other("invalid amount"))?;
        let _target = decode_bytes(input, 100).ok_or(
            PrecompileError::Other("invalid targetAddress"),
        )?;
        bridge_validate_basic(storage, asset_id)?;
        BridgePrecompile::run_debit_withdrawal(storage, asset_id, msg_sender, amount)
    }

    pub fn deposit<P: StorageProvider>(&self, storage: &mut P, input: &[u8]) -> (r:
        PrecompileResult)
        ensures
            (outcome(r), final(storage).world()) == deposit_effect(old(storage).world(), input@),
    {
        StorageCtx::deduct_gas(storage, 30000).ok_or(PrecompileError::OutOfGas)?;
        if input.len() < 164 {
            return Err(PrecompileError::Other("invalid input"));
        }
        let target = decode_address(input, 36).ok_or(
            PrecompileError::Other("invalid targetAddress"),
        )?;
        let amount: u128 = decode_u128(input, 68).ok_or(PrecompileError::Other("invalid amount"))?;
        let asset_id: u64 = decode_u64(input, 100).ok_or(
            PrecompileError::Other("invalid assetId"),
        )?;
        let _proof = decode_bytes(input, 132).ok_or(PrecompileError::Other("invalid proof"))?;
        bridge_validate_basic(storage, asset_id)?;
        BridgePrecompile::run_credit_deposit(storage, asset_id, target, amount)
    }

    pub fn initiate_challenge<P: StorageProvider>(
        &self,
        storage: &mut P,
        input: &[u8],
        msg_sender: Address,
    ) -> (r: PrecompileResult)
        ensures
            (outcome(r), final(storage).world()) == initiate_challenge_effect(
                old(storage).world(),
                input@,
                msg_sender,
            ),
    {
        StorageCtx::deduct_gas(storage, 50000).ok_or(PrecompileError::OutOfGas)?;
        if input.len() < 68 {
            return Err(PrecompileError::Other("invalid input"));
        }
        let tx = decode_bytes32(input, 4).ok_or(PrecompileError::Other("invalid sourceTxHash"))?;
        let fraud_proof = decode_bytes(input, 36).ok_or(PrecompileError::Other("invalid proof"))?;
        if load_record(storage, "processed", tx).is_zero() {
            return Err(PrecompileError::Other("source tx not processed"));
        }
        if u256_to_u8(load_record(storage, "challenge_status", tx)) != 0 {
            return Err(PrecompileError::Other("challenge already exists"));
        }
        BridgePrecompile::run_open_challenge(
            storage,
            tx,
            keccak256(fraud_proof.as_slice()),
            msg_sender,
        )
    }

    fn run_open_challenge<P: StorageProvider>(
        storage: &mut P,
        tx: U256,
        proof_hash: U256,
        msg_sender: Address,
    ) -> (r: PrecompileResult)
        ensures
            (outcome(r), final(storage).world()) == open_challenge(
                old(storage).world(),
                tx,
                proof_hash,
                msg_sender,
            ),
    {
        let height: u64 = u256_to_u64(load_record(storage, "deposit_block", tx));
        let period: u64 = get_challenge_period(storage);
        let now: u64 = StorageCtx::block_number(storage);
        let end: u64 = height.checked_add(period).ok_or(
            PrecompileError::Fatal("challenge period overflow"),
        )?;
        if now >= end {
            return Err(PrecompileError::Other("challenge period expired"));
        }
        let bond: u128 = get_challenge_bond(storage);
        debit_bal(storage, CALL_ASSET_ID, msg_sender, bond)?;
        let deadline: u64 = now.checked_add(period).ok_or(
            PrecompileError::Fatal("challenge deadline overflow"),
        )?;
        save_record(storage, "challenge_status", tx, u64_to_u256(1));
        save_record(storage, "challenge_challenger", tx, address_to_u256(msg_sender));
        save_record(storage, "challenge_deadline", tx, u64_to_u256(deadline));
        save_record(storage, "challenge_bond", tx, u128_to_u256(bond));
        save_record(storage, "challenge_proof_hash", tx, proof_hash);
        ok_empty(storage)
    }

    pub fn resolve_challenge<P: StorageProvider>(&self, storage: &mut P, input: &[u8]) -> (r:
        PrecompileResult)
        ensures
            (outcome(r), final(storage).world()) == resolve_effect(
                old(storage).world(),
                input@,
                false,
            ),
    {
        self.resolve_with(storage, input, verify_fraud_proof())
    }

    /// Resolves a challenge, given what became of its fraud proof.
    pub fn resolve_with<P: StorageProvider>(
        &self,
        storage: &mut P,
        input: &[u8],
        proof_valid: bool,
    ) -> (r: PrecompileResult)
        ensures
            (outcome(r), final(storage).world()) == resolve_effect(
                old(storage).world(),
                input@,
                proof_valid,
            ),
    {
        StorageCtx::deduct_gas(storage, 100000).ok_or(PrecompileError::OutOfGas)?;
        if input.len() < 36 {
            return Err(PrecompileError::Other("invalid input"));
        }
        let tx = decode_bytes32(input, 4).ok_or(PrecompileError::Other("invalid sourceTxHash"))?;
        if u256_to_u8(load_record(storage, "challenge_status", tx)) != 1 {
            return Err(PrecompileError::Other("challenge not pending"));
        }
        let deadline: u64 = u256_to_u64(load_record(storage, "challenge_deadline", tx));
        let now: u64 = StorageCtx::block_number(storage);
        if now < deadline {
            return Err(PrecompileError::Other("challenge deadline not reached"));
        }
        let bond: u128 = load_bond(storage, tx);
        if proof_valid {
            BridgePrecompile::run_uphold(storage, tx, bond)
        } else {
            BridgePrecompile::run_dismiss(storage, tx, bond)
        }
    }

    fn run_uphold<P: StorageProvider>(storage: &mut P, tx: U256, bond: u128) -> (r:
        PrecompileResult)
        ensures
            (outcome(r), final(storage).world()) == uphold_challenge(
                old(storage).world(),
                tx,
                bond,
            ),
    {
        let asset_id: u64 = u256_to_u64(load_record(storage, "deposit_asset_id", tx));
        let recipient = u256_to_address(load_record(storage, "deposit_recipient", tx));
        let amount: u128 = u256_to_u128(load_record(storage, "deposit_amount", tx));
        let _ = debit_bal(storage, asset_id, recipient, amount);
        sub_total_deposits(storage, amount);
        save_record(storage, "processed", tx, zero_word());
        let challenger = u256_to_address(load_record(storage, "challenge_challenger", tx));
        let reward: u128 = bond.checked_add(bond / 10).ok_or(
            PrecompileError::Fatal("challenge reward overflow"),
        )?;
        let _ = credit_bal(storage, CALL_ASSET_ID, challenger, reward);
        let validator = u256_to_address(load_record(storage, "challenge_validator", tx));
        slash_validator_stake(storage, validator);
        save_record(storage, "challenge_status", tx, u64_to_u256(2));
        ok_empty(storage)
    }

    fn run_dismiss<P: StorageProvider>(storage: &mut P, tx: U256, bond: u128) -> (r:
        PrecompileResult)
        ensures
            (outcome(r), final(storage).world()) == dismiss_challenge(
                old(storage).world(),
                tx,
                bond,
            ),
    {
        let validator = u256_to_address(load_record(storage, "challenge_validator", tx));
        let _ = credit_bal(storage, CALL_ASSET_ID, validator, bond);
        save_record(storage, "challenge_status", tx, u64_to_u256(3));
        ok_empty(storage)
    }

    pub fn get_challenge_status<P: StorageProvider>(&self, storage: &mut P, input: &[u8]) -> (r:
        PrecompileResult)
        ensures
            (outcome(r), final(storage).world()) == get_challenge_status_effect(
                old(storage).world(),
                input@,
            ),
    {
        StorageCtx::deduct_gas(storage, 1500).ok_or(PrecompileError::OutOfGas)?;
        if input.len() < 36 {
            return Err(PrecompileError::Other("invalid input"));
        }
        let tx = decode_bytes32(input, 4).ok_or(PrecompileError::Other("invalid sourceTxHash"))?;
        let status: u8 = u256_to_u8(load_record(storage, "challenge_status", tx));
        let deadline: u64 = u256_to_u64(load_record(storage, "challenge_deadline", tx));
        let bond: u128 = u256_to_u128(load_record(storage, "challenge_bond", tx));
        let challenger = u256_to_address(load_record(storage, "challenge_challenger", tx));
        let mut out: Vec<u8> = Vec::new();
        push_u8(&mut out, status);
        push_u64(&mut out, deadline);
        push_u128(&mut out, bond);
        push_address(&mut out, challenger);
        proof {
            assert(out@ =~= number_word(status as nat, 1) + number_word(deadline as nat, 8)
                + number_word(bond as nat, 16) + address_word_bytes(challenger));
        }
        ok_bytes(storage, out)
    }

    pub fn withdraw_challenge_bond<P: StorageProvider>(
        &self,
        storage: &mut P,
        input: &[u8],
        msg_sender: Address,
    ) -> (r: PrecompileResult)
        ensures
            (outcome(r), final(storage).world()) == withdraw_bond_effect(
                old(storage).world(),
                input@,
                msg_sender,
            ),
    {
        StorageCtx::deduct_gas(storage, 5000).ok_or(PrecompileError::OutOfGas)?;
        if input.len() < 36 {
            return Err(PrecompileError::Other("invalid input"));
        }
        let tx = decode_bytes32(input, 4).ok_or(PrecompileError::Other("invalid sourceTxHash"))?;
        if u256_to_u8(load_record(storage, "challenge_status", tx)) != 2 {
            return Err(PrecompileError::Other("challenge not successful"));
        }
        let challenger = u256_to_address(load_record(storage, "challenge_challenger", tx));
        if challenger != msg_sender {
            return Err(PrecompileError::Other("not challenger"));
        }
        let bond: u128 = load_bond(storage, tx);
        let reward: u128 = bond.checked_add(bond / 10).ok_or(
            PrecompileError::Fatal("challenge reward overflow"),
        )?;
        credit_bal(storage, CALL_ASSET_ID, challenger, reward)?;
        save_record(storage, "challenge_status", tx, u64_to_u256(4));
        ok_empty(storage)
    }
}

/// The verdict on a fraud proof: as long as proofs are not checked, none is valid.
fn verify_fraud_proof() -> (r: bool)
    ensures
        !r,
{
    false
}

/// Strikes a validator off the list.
fn slash_validator_stake<P: StorageProvider>(storage: &mut P, validator: Address)
    ensures
        final(storage).world() == slash_effect(old(storage).world(), validator),
{
    let slot = slot_validator_by_addr(validator);
    if u256_to_u64(StorageCtx::read(storage, validator_address(), slot)) == 0 {
        return;
    }
    StorageCtx::write(storage, validator_address(), slot, zero_word());
}

/// What a call of the bridge precompile comes to.
pub open spec fn bridge_effect(w: World, calldata: Seq<u8>, sender: Address) -> (Outcome, World) {
    if calldata.len() < 4 {
        (refused("invalid input"), w)
    } else {
        match selector_of(calldata) {
            0xa87e4f2a => get_total_effect(w, deposits_slot()),
            0x9c3e6d1b => get_total_effect(w, withdrawals_slot()),
            0xdbae8a2a => bridge_to_evm_effect(w, calldata, sender),
            0xf0c861e4 => bridge_to_protocol_effect(w, calldata),
            0x1aba0700 => external_deposit_effect(w, calldata, sender),
            0x393da669 => external_withdraw_effect(w, calldata, sender),
            0x2689cfc0 => deposit_effect(w, calldata),
            0x07dee8d0 => initiate_challenge_effect(w, calldata, sender),
            0x8a1e5018 => resolve_effect(w, calldata, false),
            0x2a5d97e9 => get_challenge_status_effect(w, calldata),
            0x9c4e5e8b => withdraw_bond_effect(w, calldata, sender),
            _ => (refused("unknown selector"), w),
        }
    }
}

impl StatefulPrecompile for BridgePrecompile {
    open spec fn effect(&self, w: World, calldata: Seq<u8>, sender: Address) -> (Outcome, World) {
        bridge_effect(w, calldata, sender)
    }

    open spec fn ready(&self) -> bool {
        true
    }

    fn call<P: StorageProvider>(
        &mut self,
        storage: &mut P,
        calldata: &[u8],
        msg_sender: Address,
    ) -> (r: PrecompileResult) {
        if calldata.len() < 4 {
            return Err(PrecompileError::Other("invalid input"));
        }
        match decode_selector(calldata) {
            0xa87e4f2a => self.get_total_deposits(storage),
            0x9c3e6d1b => self.get_total_withdrawals(storage),
            0xdbae8a2a => self.bridge_to_evm(storage, calldata, msg_sender),
            0xf0c861e4 => self.bridge_to_protocol(storage, calldata),
            0x1aba0700 => self.external_deposit(storage, calldata, msg_sender),
            0x393da669 => self.external_withdraw(storage, calldata, msg_sender),
            0x2689cfc0 => self.deposit(storage, calldata),
            0x07dee8d0 => self.initiate_challenge(storage, calldata, msg_sender),
            0x8a1e5018 => self.resolve_challenge(storage, calldata),
            0x2a5d97e9 => self.get_challenge_status(storage, calldata),
            0x9c4e5e8b => self.withdraw_challenge_bond(storage, calldata, msg_sender),
            _ => Err(PrecompileError::Other("unknown selector")),
        }
    }
}

/// The field of a deposit or challenge.
pub open spec fn bridge_field(w: World, name: &str, tx: U256) -> U256 {
    w.slot(bridge_address(), tagged_slot(name, tx))
}

/// Whether the bridge is paused, by what is on record.
pub open spec fn is_paused(w: World) -> bool {
    u8_of(w.slot(bridge_address(), tag_slot("paused"))) != 0
}

/// While the bridge is paused nothing crosses it.
pub proof fn law_paused_bridge_moves_nothing(w: World, input: Seq<u8>, sender: Address)
    requires
        able(w, 100_000),
        is_paused(w),
    ensures
        bridge_to_evm_effect(w, input, sender).0 is Failed,
        bridge_to_evm_effect(w, input, sender).1.slots == w.slots,
        bridge_to_protocol_effect(w, input).0 is Failed,
        bridge_to_protocol_effect(w, input).1.slots == w.slots,
        external_deposit_effect(w, input, sender).0 is Failed,
        external_deposit_effect(w, input, sender).1.slots == w.slots,
        external_withdraw_effect(w, input, sender).0 is Failed,
        external_withdraw_effect(w, input, sender).1.slots == w.slots,
        deposit_effect(w, input).0 is Failed,
        deposit_effect(w, input).1.slots == w.slots,
{
    broadcast use group_steps;

}

/// The slots of a deposit and its challenge.
pub open spec fn deposit_slots(tx: U256) -> Seq<U256> {
    seq![
        deposits_slot(),
        tagged_slot("processed", tx),
        tagged_slot("deposit_asset_id", tx),
        tagged_slot("deposit_recipient", tx),
        tagged_slot("deposit_amount", tx),
        tagged_slot("deposit_block", tx),
        tagged_slot("challenge_validator", tx),
        tagged_slot("challenge_status", tx),
        tagged_slot("challenge_challenger", tx),
        tagged_slot("challenge_deadline", tx),
        tagged_slot("challenge_bond", tx),
        tagged_slot("challenge_proof_hash", tx),
    ]
}

pub(crate) proof fn lemma_deposit_slots(tx: U256)
    requires
        deposit_slots(tx).no_duplicates(),
    ensures
        forall|i: int, j: int|
            0 <= i < j < 12 ==> #[trigger] deposit_slots(tx)[i] != #[trigger] deposit_slots(tx)[j],
        deposits_slot() == deposit_slots(tx)[0],
        tagged_slot("processed", tx) == deposit_slots(tx)[1],
        tagged_slot("deposit_asset_id", tx) == deposit_slots(tx)[2],
        tagged_slot("deposit_recipient", tx) == deposit_slots(tx)[3],
        tagged_slot("deposit_amount", tx) == deposit_slots(tx)[4],
        tagged_slot("deposit_block", tx) == deposit_slots(tx)[5],
        tagged_slot("challenge_validator", tx) == deposit_slots(tx)[6],
        tagged_slot("challenge_status", tx) == deposit_slots(tx)[7],
        tagged_slot("challenge_challenger", tx) == deposit_slots(tx)[8],
        tagged_slot("challenge_deadline", tx) == deposit_slots(tx)[9],
        tagged_slot("challenge_bond", tx) == deposit_slots(tx)[10],
        tagged_slot("challenge_proof_hash", tx) == deposit_slots(tx)[11],
{
}

/// A deposit from another chain credits its recipient once: it goes on record, and a second deposit
/// with the same source transaction is refused.
pub proof fn law_external_deposit_counts_once(
    w: World,
    input: Seq<u8>,
    sender: Address,
    later: World,
    again: Seq<u8>,
    other: Address,
)
    requires
        able(w, 400_000),
        input.len() >= 132,
        deposit_slots(word_at(input, 4)).no_duplicates(),
        bridge_field(w, "processed", word_at(input, 4)) == zero_word(),
        !is_paused(w),
        address_of(field(w, u64_at(input, 36), "issuer")) != zero_address(),
        holding(w, u64_at(input, 36), address_at(input, 68)) + u128_at(input, 100) <= u128::MAX,
        w.slot(bridge_address(), deposits_slot()).lo + u128_at(input, 100) <= u128::MAX,
        later.slots == external_deposit_effect(w, input, sender).1.slots,
        able(later, 100_000),
        again.len() >= 132,
        word_at(again, 4) == word_at(input, 4),
    ensures
        ({
            let tx = word_at(input, 4);
            let asset_id = u64_at(input, 36);
            let to = address_at(input, 68);
            let amount = u128_at(input, 100);
            let (o, after) = external_deposit_effect(w, input, sender);
            &&& o is Done
            &&& holding(after, asset_id, to) == holding(w, asset_id, to) + amount
            &&& after.slot(bridge_address(), deposits_slot()).lo == w.slot(
                bridge_address(),
                deposits_slot(),
            ).lo + amount
            &&& bridge_field(after, "deposit_amount", tx) == word(amount)
            &&& bridge_field(after, "deposit_recipient", tx) == address_word(to)
            &&& bridge_field(after, "challenge_validator", tx) == address_word(sender)
            &&& external_deposit_effect(later, again, other).0 == refused(
                "source tx already processed",
            )
            &&& external_deposit_effect(later, again, other).1.slots == later.slots
        }),
{
    broadcast use group_steps;

    lemma_deposit_slots(word_at(input, 4));
}

/// The challenge period on record.
pub open spec fn period(w: World) -> u64 {
    period_read(w).0
}

/// A challenge is opened only against a deposit that is on record, that is not challenged yet, and
/// whose period is not over.
pub proof fn law_challenge_needs_open_deposit(w: World, input: Seq<u8>, sender: Address)
    requires
        initiate_challenge_effect(w, input, sender).0 is Done,
        able(w, 400_000),
    ensures
        bridge_field(w, "processed", word_at(input, 4)) != zero_word(),
        u8_of(bridge_field(w, "challenge_status", word_at(input, 4))) == 0,
        w.block_number < u64_of(bridge_field(w, "deposit_block", word_at(input, 4))) + period(w),
{
    broadcast use group_steps;

}

/// A challenge is resolved only while it is pending and after its deadline, and only once.
pub proof fn law_challenge_is_resolved_once(
    w: World,
    input: Seq<u8>,
    valid: bool,
    later: World,
    again: bool,
)
    requires
        able(w, 600_000),
        input.len() >= 36,
        deposit_slots(word_at(input, 4)).no_duplicates(),
        resolve_effect(w, input, valid).0 is Done,
        later.slots == resolve_effect(w, input, valid).1.slots,
        able(later, 200_000),
    ensures
        u8_of(bridge_field(w, "challenge_status", word_at(input, 4))) == 1,
        w.block_number >= u64_of(bridge_field(w, "challenge_deadline", word_at(input, 4))),
        resolve_effect(later, input, again).0 == refused("challenge not pending"),
        resolve_effect(later, input, again).1.slots == later.slots,
{
    broadcast use group_steps;

    lemma_deposit_slots(word_at(input, 4));
}

/// A challenge that fails pays its bond to the validator whose deposit was challenged.
pub proof fn law_failed_challenge_pays_validator(w: World, input: Seq<u8>)
    requires
        able(w, 600_000),
        input.len() >= 36,
        deposit_slots(word_at(input, 4)).no_duplicates(),
        u8_of(bridge_field(w, "challenge_status", word_at(input, 4))) == 1,
        w.block_number >= u64_of(bridge_field(w, "challenge_deadline", word_at(input, 4))),
        holding(
            w,
            CALL_ASSET_ID,
            address_of(bridge_field(w, "challenge_validator", word_at(input, 4))),
        ) + bridge_field(w, "challenge_bond", word_at(input, 4)).lo <= u128::MAX,
    ensures
        ({
            let tx = word_at(input, 4);
            let validator = address_of(bridge_field(w, "challenge_validator", tx));
            let (o, after) = resolve_effect(w, input, false);
            &&& o is Done
            &&& holding(after, CALL_ASSET_ID, validator) == holding(w, CALL_ASSET_ID, validator)
                + bridge_field(w, "challenge_bond", tx).lo
            &&& u8_of(bridge_field(after, "challenge_status", tx)) == 3
            &&& bridge_field(after, "processed", tx) == bridge_field(w, "processed", tx)
        }),
{
    broadcast use group_steps;

    lemma_deposit_slots(word_at(input, 4));
}

/// A challenge that holds undoes the deposit: the recipient is charged where it still holds the
/// amount, the source transaction may be claimed again, and the challenger gets the bond with its
/// reward.
pub proof fn law_upheld_challenge_undoes_deposit(w: World, input: Seq<u8>)
    requires
        able(w, 900_000),
        input.len() >= 36,
        deposit_slots(word_at(input, 4)).no_duplicates(),
        u8_of(bridge_field(w, "challenge_status", word_at(input, 4))) == 1,
        w.block_number >= u64_of(bridge_field(w, "challenge_deadline", word_at(input, 4))),
        ({
            let tx = word_at(input, 4);
            let asset_id = u64_of(bridge_field(w, "deposit_asset_id", tx));
            let recipient = address_of(bridge_field(w, "deposit_recipient", tx));
            let challenger = address_of(bridge_field(w, "challenge_challenger", tx));
            let bond = bridge_field(w, "challenge_bond", tx).lo;
            &&& holding(w, asset_id, recipient) >= bridge_field(w, "deposit_amount", tx).lo
            &&& rewarded(bond) <= u128::MAX
            &&& holding(w, CALL_ASSET_ID, challenger) + rewarded(bond) <= u128::MAX
            &&& balance_slot(asset_id, recipient) != balance_slot(CALL_ASSET_ID, challenger)
        }),
    ensures
        ({
            let tx = word_at(input, 4);
            let asset_id = u64_of(bridge_field(w, "deposit_asset_id", tx));
            let recipient = address_of(bridge_field(w, "deposit_recipient", tx));
            let challenger = address_of(bridge_field(w, "challenge_challenger", tx));
            let amount = bridge_field(w, "deposit_amount", tx).lo;
            let (o, after) = resolve_effect(w, input, true);
            &&& o is Done
            &&& holding(after, asset_id, recipient) == holding(w, asset_id, recipient) - amount
            &&& holding(after, CALL_ASSET_ID, challenger) == holding(w, CALL_ASSET_ID, challenger)
                + rewarded(bridge_field(w, "challenge_bond", tx).lo)
            &&& bridge_field(after, "processed", tx) == zero_word()
            &&& u8_of(bridge_field(after, "challenge_status", tx)) == 2
        }),
{
    broadcast use group_steps;

    lemma_deposit_slots(word_at(input, 4));
}

} // verus!
