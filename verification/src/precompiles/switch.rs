//! Switch precompile: moving value between protocol balances and the EVM side.
//!
//! The native asset lives on the EVM side as native balance; any other asset as a wrapped token
//! whose total supply is in slot 3 and whose holdings are a mapping at slot 4.

pub mod laws;

use crate::crypto::{keccak256, keccak256_word};
use crate::precompiles::abi::{
    address_at, decode_address, decode_selector, decode_u128, decode_u64, selector_of, u128_at,
    u64_at,
};
use crate::precompiles::asset::{
    balance_read, balance_write, holding, load_bal, meta_read, require_caller, save_bal,
};
use crate::precompiles::slots::{
    asset_address, asset_meta_slot, balance_slot, slot_asset_meta, slot_evm_contract,
};
use crate::precompiles::steps::{able, group_reads, group_saved, group_steps, law_checkpoint};
use crate::precompiles::storage::{
    ok_empty, or_zero, out_of_gas, outcome, refused, word_of_value, Outcome, PrecompileError,
    PrecompileResult, StatefulPrecompile, StorageCtx, StorageProvider, World,
};
use crate::words::{
    address_of, address_to_u256, address_word, law_word_round_trips, limb, u128_to_u256,
    u256_to_address, u256_to_u128, u256_to_u8, u64_to_u256, u8_of, word, zero_address, Address, U256,
};
use vstd::prelude::*;

verus! {

/// The slot of a holder's amount of a wrapped token.
#[verifier::opaque]
pub open spec fn holding_slot(holder: Address) -> U256 {
    keccak256_word(address_word(holder).bytes() + word(4).bytes())
}

pub fn erc20_balance_of_slot(holder: Address) -> (r: U256)
    ensures
        r == holding_slot(holder),
{
    let mut key: Vec<u8> = Vec::new();
    address_to_u256(holder).push_to(&mut key);
    u64_to_u256(4).push_to(&mut key);
    proof {
        reveal(holding_slot);
        assert(key@ =~= address_word(holder).bytes() + word(4).bytes());
    }
    keccak256(key.as_slice())
}

/// The slot of the total supply of a wrapped token.
pub open spec fn total_supply_slot() -> U256 {
    word(3)
}

fn erc20_total_supply_slot() -> (r: U256)
    ensures
        r == total_supply_slot(),
{
    u64_to_u256(3)
}

/// Adding to the number in a slot; `false` where it does not fit.
pub open spec fn raise(w: World, address: Address, key: U256, amount: u128) -> (bool, World) {
    let (v, w) = w.read(address, key);
    if v.lo + amount > u128::MAX {
        (false, w)
    } else {
        (true, w.write(address, key, word((v.lo + amount) as u128)))
    }
}

/// Taking from the number in a slot; `false` where it is too low.
pub open spec fn lower(w: World, address: Address, key: U256, amount: u128) -> (bool, World) {
    let (v, w) = w.read(address, key);
    if v.lo < amount {
        (false, w)
    } else {
        (true, w.write(address, key, word((v.lo - amount) as u128)))
    }
}

fn add_to<P: StorageProvider>(
    storage: &mut P,
    address: Address,
    key: U256,
    amount: u128,
    reason: &'static str,
) -> (r: Result<(), PrecompileError>)
    ensures
        final(storage).world() == raise(old(storage).world(), address, key, amount).1,
        r == if raise(old(storage).world(), address, key, amount).0 {
            Ok(())
        } else {
            Err(PrecompileError::Other(reason))
        },
{
    let v: u128 = u256_to_u128(StorageCtx::read(storage, address, key)).checked_add(amount).ok_or(
        PrecompileError::Other(reason),
    )?;
    StorageCtx::write(storage, address, key, u128_to_u256(v));
    Ok(())
}

fn take_from<P: StorageProvider>(
    storage: &mut P,
    address: Address,
    key: U256,
    amount: u128,
    reason: &'static str,
) -> (r: Result<(), PrecompileError>)
    ensures
        final(storage).world() == lower(old(storage).world(), address, key, amount).1,
        r == if lower(old(storage).world(), address, key, amount).0 {
            Ok(())
        } else {
            Err(PrecompileError::Other(reason))
        },
{
    let v: u128 = u256_to_u128(StorageCtx::read(storage, address, key)).checked_sub(amount).ok_or(
        PrecompileError::Other(reason),
    )?;
    StorageCtx::write(storage, address, key, u128_to_u256(v));
    Ok(())
}

/// Minting a wrapped token; the reason where it is refused.
pub open spec fn mint_wrapped(w: World, contract: Address, to: Address, amount: u128) -> (
    Option<&'static str>,
    World,
) {
    let (ok, w) = raise(w, contract, total_supply_slot(), amount);
    if !ok {
        (Some("totalSupply overflow"), w)
    } else {
        let (ok, w) = raise(w, contract, holding_slot(to), amount);
        (
            if ok {
                None
            } else {
                Some("ERC-20 balance overflow")
            },
            w,
        )
    }
}

/// Burning a wrapped token; the reason where it is refused.
pub open spec fn burn_wrapped(w: World, contract: Address, from: Address, amount: u128) -> (
    Option<&'static str>,
    World,
) {
    let (ok, w) = lower(w, contract, total_supply_slot(), amount);
    if !ok {
        (Some("totalSupply underflow"), w)
    } else {
        let (ok, w) = lower(w, contract, holding_slot(from), amount);
        (
            if ok {
                None
            } else {
                Some("insufficient ERC-20 balance")
            },
            w,
        )
    }
}

pub open spec fn refusal(problem: Option<&'static str>) -> Result<(), PrecompileError> {
    match problem {
        None => Ok(()),
        Some(reason) => Err(PrecompileError::Other(reason)),
    }
}

fn erc20_mint<P: StorageProvider>(
    storage: &mut P,
    contract: Address,
    to: Address,
    amount: u128,
) -> (r: Result<(), PrecompileError>)
    ensures
        final(storage).world() == mint_wrapped(old(storage).world(), contract, to, amount).1,
        r == refusal(mint_wrapped(old(storage).world(), contract, to, amount).0),
{
    add_to(storage, contract, erc20_total_supply_slot(), amount, "totalSupply overflow")?;
    add_to(storage, contract, erc20_balance_of_slot(to), amount, "ERC-20 balance overflow")
}

fn erc20_burn<P: StorageProvider>(
    storage: &mut P,
    contract: Address,
    from: Address,
    amount: u128,
) -> (r: Result<(), PrecompileError>)
    ensures
        final(storage).world() == burn_wrapped(old(storage).world(), contract, from, amount).1,
        r == refusal(burn_wrapped(old(storage).world(), contract, from, amount).0),
{
    take_from(storage, contract, erc20_total_supply_slot(), amount, "totalSupply underflow")?;
    take_from(
        storage,
        contract,
        erc20_balance_of_slot(from),
        amount,
        "insufficient ERC-20 balance",
    )
}

/// The contract that wraps an asset, if one is on record.
pub open spec fn contract_read(w: World, asset_id: u64) -> (Option<Address>, World) {
    let (v, w) = meta_read(w, asset_id, "evm_contract");
    (
        if address_of(v) == zero_address() {
            None
        } else {
            Some(address_of(v))
        },
        w,
    )
}

/// Moving value to the EVM side; the reason where it is refused.
pub open spec fn to_evm(w: World, asset_id: u64, sender: Address, to: Address, amount: u128) -> (
    Option<&'static str>,
    World,
) {
    let (held, w) = balance_read(w, asset_id, sender);
    if held < amount {
        (Some("insufficient protocol balance"), w)
    } else {
        let w = balance_write(w, asset_id, sender, (held - amount) as u128);
        if asset_id == 1 {
            let (ok, w) = w.balance_add(to, word(amount));
            (
                if ok {
                    None
                } else {
                    Some("native balance add failed")
                },
                w,
            )
        } else {
            let (contract, w) = contract_read(w, asset_id);
            match contract {
                None => (Some("EVM contract not registered for asset"), w),
                Some(contract) => {
                    let (problem, w) = mint_wrapped(w, contract, to, amount);
                    if problem is Some {
                        (problem, w)
                    } else {
                        let (ok, w) = lower(
                            w,
                            asset_address(),
                            asset_meta_slot(asset_id, "supply"),
                            amount,
                        );
                        (
                            if ok {
                                None
                            } else {
                                Some("protocol supply underflow")
                            },
                            w,
                        )
                    }
                },
            }
        }
    }
}

/// Taking value off the EVM side; the reason where it is refused.
pub open spec fn leave_evm(w: World, asset_id: u64, sender: Address, amount: u128) -> (
    Option<&'static str>,
    World,
) {
    if asset_id == 1 {
        let (ok, w) = w.balance_sub(sender, word(amount));
        (
            if ok {
                None
            } else {
                Some("insufficient native balance")
            },
            w,
        )
    } else {
        let (contract, w) = contract_read(w, asset_id);
        match contract {
            None => (Some("EVM contract not registered for asset"), w),
            Some(contract) => burn_wrapped(w, contract, sender, amount),
        }
    }
}

/// Moving value to the protocol side; the reason where it is refused.
pub open spec fn to_protocol(
    w: World,
    asset_id: u64,
    sender: Address,
    to: Address,
    amount: u128,
) -> (Option<&'static str>, World) {
    let (problem, w) = leave_evm(w, asset_id, sender, amount);
    if problem is Some {
        (problem, w)
    } else {
        let (held, w) = balance_read(w, asset_id, to);
        if held + amount > u128::MAX {
            (Some("protocol balance overflow"), w)
        } else {
            let w = balance_write(w, asset_id, to, (held + amount) as u128);
            if asset_id == 1 {
                (None, w)
            } else {
                let (ok, w) = raise(
                    w,
                    asset_address(),
                    asset_meta_slot(asset_id, "supply"),
                    amount,
                );
                (
                    if ok {
                        None
                    } else {
                        Some("protocol supply overflow")
                    },
                    w,
                )
            }
        }
    }
}

/// Closing a checkpoint: kept on success, undone on failure.
pub open spec fn settle(problem: Option<&'static str>, w: World) -> (Outcome, World) {
    match problem {
        None => {
            let w = w.commit();
            (w.done(Seq::empty()), w)
        },
        Some(reason) => (refused(reason), w.revert()),
    }
}

/// What comes before either move; `Err` holds the outcome that stops the call.
pub open spec fn prepare(w: World, input: Seq<u8>, sender: Address) -> (
    Option<Outcome>,
    World,
) {
    let (paid, w) = w.charge(20000);
    if !paid {
        (Some(out_of_gas()), w)
    } else if input.len() < 100 {
        (Some(refused("invalid input")), w)
    } else if sender == zero_address() {
        (Some(refused("caller not available")), w)
    } else {
        let (status, w) = meta_read(w, u64_at(input, 4), "status");
        if u8_of(status) != 0 {
            (Some(refused("asset not active")), w)
        } else {
            (None, w)
        }
    }
}

pub open spec fn switch_to_evm_effect(w: World, input: Seq<u8>, sender: Address) -> (
    Outcome,
    World,
) {
    let (stop, w) = prepare(w, input, sender);
    match stop {
        Some(o) => (o, w),
        None => {
            let (problem, w) = to_evm(
                w.checkpoint(),
                u64_at(input, 4),
                sender,
                address_at(input, 36),
                u128_at(input, 68),
            );
            settle(problem, w)
        },
    }
}

pub open spec fn switch_to_protocol_effect(w: World, input: Seq<u8>, sender: Address) -> (
    Outcome,
    World,
) {
    let (stop, w) = prepare(w, input, sender);
    match stop {
        Some(o) => (o, w),
        None => {
            let (problem, w) = to_protocol(
                w.checkpoint(),
                u64_at(input, 4),
                sender,
                address_at(input, 36),
                u128_at(input, 68),
            );
            settle(problem, w)
        },
    }
}

/// The switch precompile.
#[derive(Clone, Copy, Debug)]
pub struct SwitchPrecompile;

impl SwitchPrecompile {
    fn read_evm_contract<P: StorageProvider>(storage: &mut P, asset_id: u64) -> (r: Result<
        Address,
        PrecompileError,
    >)
        ensures
            final(storage).world() == contract_read(old(storage).world(), asset_id).1,
            r == match contract_read(old(storage).world(), asset_id).0 {
                Some(a) => Ok(a),
                None => Err(PrecompileError::Other("EVM contract not registered for asset")),
            },
    {
        let a = u256_to_address(
            StorageCtx::read(storage, asset_address(), slot_evm_contract(asset_id)),
        );
        if a.is_zero() {
            Err(PrecompileError::Other("EVM contract not registered for asset"))
        } else {
            Ok(a)
        }
    }

    fn check_asset_active<P: StorageProvider>(storage: &mut P, asset_id: u64) -> (r: Result<
        (),
        PrecompileError,
    >)
        ensures
            final(storage).world() == meta_read(old(storage).world(), asset_id, "status").1,
            r == if u8_of(meta_read(old(storage).world(), asset_id, "status").0) == 0 {
                Ok(())
            } else {
                Err(PrecompileError::Other("asset not active"))
            },
    {
        let v = StorageCtx::read(storage, asset_address(), slot_asset_meta(asset_id, "status"));
        if u256_to_u8(v) != 0 {
            return Err(PrecompileError::Other("asset not active"));
        }
        Ok(())
    }

    fn open_call<P: StorageProvider>(storage: &mut P, input: &[u8], msg_sender: Address) -> (r:
        Result<(u64, Address, u128), PrecompileError>)
        ensures
            final(storage).world() == prepare(old(storage).world(), input@, msg_sender).1,
            match r {
                Ok(args) => prepare(old(storage).world(), input@, msg_sender).0 is None && args == (
                    u64_at(input@, 4),
                    address_at(input@, 36),
                    u128_at(input@, 68),
                ),
                Err(e) => prepare(old(storage).world(), input@, msg_sender).0 == Some(
                    Outcome::Failed(e@),
                ),
            },
    {
        StorageCtx::deduct_gas(storage, 20000).ok_or(PrecompileError::OutOfGas)?;
        if input.len() < 100 {
            return Err(PrecompileError::Other("invalid input"));
        }
        let asset_id: u64 = decode_u64(input, 4).ok_or(PrecompileError::Other("invalid asset_id"))?;
        let to = decode_address(input, 36).ok_or(PrecompileError::Other("invalid to address"))?;
        let amount: u128 = decode_u128(input, 68).ok_or(PrecompileError::Other("invalid amount"))?;
        let _sender = require_caller(msg_sender)?;
        SwitchPrecompile::check_asset_active(storage, asset_id)?;
        Ok((asset_id, to, amount))
    }

    fn move_to_evm<P: StorageProvider>(
        storage: &mut P,
        asset_id: u64,
        sender: Address,
        to: Address,
        amount: u128,
    ) -> (r: Result<(), PrecompileError>)
        ensures
            final(storage).world() == to_evm(
                old(storage).world(),
                asset_id,
                sender,
                to,
                amount,
            ).1,
            r == refusal(to_evm(old(storage).world(), asset_id, sender, to, amount).0),
    {
        let held: u128 = load_bal(storage, asset_id, sender).checked_sub(amount).ok_or(
            PrecompileError::Other("insufficient protocol balance"),
        )?;
        save_bal(storage, asset_id, sender, held);
        if asset_id == 1 {
            StorageCtx::balance_add(storage, to, u128_to_u256(amount)).ok_or(
                PrecompileError::Other("native balance add failed"),
            )?;
            Ok(())
        } else {
            let contract = SwitchPrecompile::read_evm_contract(storage, asset_id)?;
            erc20_mint(storage, contract, to, amount)?;
            take_from(
                storage,
                asset_address(),
                slot_asset_meta(asset_id, "supply"),
                amount,
                "protocol supply underflow",
            )
        }
    }

    fn move_off_evm<P: StorageProvider>(
        storage: &mut P,
        asset_id: u64,
        sender: Address,
        amount: u128,
    ) -> (r: Result<(), PrecompileError>)
        ensures
            final(storage).world() == leave_evm(old(storage).world(), asset_id, sender, amount).1,
            r == refusal(leave_evm(old(storage).world(), asset_id, sender, amount).0),
    {
        if asset_id == 1 {
            StorageCtx::balance_sub(storage, sender, u128_to_u256(amount)).ok_or(
                PrecompileError::Other("insufficient native balance"),
            )?;
            Ok(())
        } else {
            let contract = SwitchPrecompile::read_evm_contract(storage, asset_id)?;
            erc20_burn(storage, contract, sender, amount)
        }
    }

    fn move_to_protocol<P: StorageProvider>(
        storage: &mut P,
        asset_id: u64,
        sender: Address,
        to: Address,
        amount: u128,
    ) -> (r: Result<(), PrecompileError>)
        ensures
            final(storage).world() == to_protocol(
                old(storage).world(),
                asset_id,
                sender,
                to,
                amount,
            ).1,
            r == refusal(to_protocol(old(storage).world(), asset_id, sender, to, amount).0),
    {
        SwitchPrecompile::move_off_evm(storage, asset_id, sender, amount)?;
        let held: u128 = load_bal(storage, asset_id, to).checked_add(amount).ok_or(
            PrecompileError::Other("protocol balance overflow"),
        )?;
        save_bal(storage, asset_id, to, held);
        if asset_id == 1 {
            Ok(())
        } else {
            add_to(
                storage,
                asset_address(),
                slot_asset_meta(asset_id, "supply"),
                amount,
                "protocol supply overflow",
            )
        }
    }

    pub fn switch_to_evm<P: StorageProvider>(
        &self,
        storage: &mut P,
        input: &[u8],
        msg_sender: Address,
    ) -> (r: PrecompileResult)
        ensures
            (outcome(r), final(storage).world()) == switch_to_evm_effect(
                old(storage).world(),
                input@,
                msg_sender,
            ),
    {
        let (asset_id, to, amount) = SwitchPrecompile::open_call(storage, input, msg_sender)?;
        let guard = StorageCtx::checkpoint(storage);
        match SwitchPrecompile::move_to_evm(storage, asset_id, msg_sender, to, amount) {
            Ok(()) => {
                guard.commit(storage);
                ok_empty(storage)
            },
            Err(e) => {
                guard.revert(storage);
                Err(e)
            },
        }
    }

    pub fn switch_to_protocol<P: StorageProvider>(
        &self,
        storage: &mut P,
        input: &[u8],
        msg_sender: Address,
    ) -> (r: PrecompileResult)
        ensures
            (outcome(r), final(storage).world()) == switch_to_protocol_effect(
                old(storage).world(),
                input@,
                msg_sender,
            ),
    {
        let (asset_id, to, amount) = SwitchPrecompile::open_call(storage, input, msg_sender)?;
        let guard = StorageCtx::checkpoint(storage);
        match SwitchPrecompile::move_to_protocol(storage, asset_id, msg_sender, to, amount) {
            Ok(()) => {
                guard.commit(storage);
                ok_empty(storage)
            },
            Err(e) => {
                guard.revert(storage);
                Err(e)
            },
        }
    }
}

/// What a call of the switch precompile comes to.
pub open spec fn switch_effect(w: World, calldata: Seq<u8>, sender: Address) -> (Outcome, World) {
    if calldata.len() < 4 {
        (refused("too short"), w)
    } else {
        match selector_of(calldata) {
            0x4311f613 => switch_to_evm_effect(w, calldata, sender),
            0xbd8d87d4 => switch_to_protocol_effect(w, calldata, sender),
            _ => (refused("unknown selector"), w),
        }
    }
}

impl StatefulPrecompile for SwitchPrecompile {
    open spec fn effect(&self, w: World, calldata: Seq<u8>, sender: Address) -> (Outcome, World) {
        switch_effect(w, calldata, sender)
    }

    open spec fn ready(&self) -> bool {
        true
    }

    fn call<P: StorageProvider>(
        &mut self,
        storage: &mut P,
        calldata: &[u8],
        msg_sender: Address,
    ) -> (r: PrecompileResult) {
        if calldata.len() < 4 {
            return Err(PrecompileError::Other("too short"));
        }
        match decode_selector(calldata) {
            0x4311f613 => self.switch_to_evm(storage, calldata, msg_sender),
            0xbd8d87d4 => self.switch_to_protocol(storage, calldata, msg_sender),
            _ => Err(PrecompileError::Other("unknown selector")),
        }
    }
}

/// What an account holds of a wrapped token.
pub open spec fn wrapped(w: World, contract: Address, holder: Address) -> u128 {
    w.slot(contract, holding_slot(holder)).lo
}

/// A move in either direction succeeds as a whole or leaves no trace in storage, balances and logs.
pub proof fn law_switch_is_all_or_nothing(w: World, input: Seq<u8>, sender: Address)
    ensures
        switch_to_evm_effect(w, input, sender).0 is Failed ==> {
            let after = switch_to_evm_effect(w, input, sender).1;
            after.slots == w.slots && after.balances == w.balances && after.logs == w.logs
        },
        switch_to_protocol_effect(w, input, sender).0 is Failed ==> {
            let after = switch_to_protocol_effect(w, input, sender).1;
            after.slots == w.slots && after.balances == w.balances && after.logs == w.logs
        },
{
    broadcast use {group_reads, group_saved};

    let (stop, ready) = prepare(w, input, sender);
    let asset_id = u64_at(input, 4);
    let to = address_at(input, 36);
    let amount = u128_at(input, 68);
    let opened = ready.checkpoint();
    let out = to_evm(opened, asset_id, sender, to, amount).1;
    assert(out.saved == opened.saved);
    law_checkpoint(ready, out);
    let back = to_protocol(opened, asset_id, sender, to, amount).1;
    assert(back.saved == opened.saved);
    law_checkpoint(ready, back);
}

/// Moving an asset to the EVM side takes it from the sender's balance and gives it to the recipient
/// as wrapped tokens; moving it back does the reverse. There and back again leaves both sides as they
/// were.
pub proof fn law_there_and_back(
    w: World,
    asset_id: u64,
    owner: Address,
    amount: u128,
    contract: Address,
)
    requires
        able(w, 500_000),
        asset_id != 1,
        contract != zero_address(),
        contract != asset_address(),
        w.slot(asset_address(), asset_meta_slot(asset_id, "evm_contract")) == address_word(contract),
        asset_meta_slot(asset_id, "evm_contract") != asset_meta_slot(asset_id, "supply"),
        asset_meta_slot(asset_id, "evm_contract") != balance_slot(asset_id, owner),
        asset_meta_slot(asset_id, "supply") != balance_slot(asset_id, owner),
        total_supply_slot() != holding_slot(owner),
        holding(w, asset_id, owner) >= amount,
        w.slot(asset_address(), asset_meta_slot(asset_id, "supply")).lo >= amount,
        w.slot(contract, total_supply_slot()).lo + amount <= u128::MAX,
        wrapped(w, contract, owner) + amount <= u128::MAX,
    ensures
        ({
            let (out, w1) = to_evm(w, asset_id, owner, owner, amount);
            let (back, w2) = to_protocol(w1, asset_id, owner, owner, amount);
            &&& out is None
            &&& holding(w1, asset_id, owner) == holding(w, asset_id, owner) - amount
            &&& wrapped(w1, contract, owner) == wrapped(w, contract, owner) + amount
            &&& back is None
            &&& holding(w2, asset_id, owner) == holding(w, asset_id, owner)
            &&& wrapped(w2, contract, owner) == wrapped(w, contract, owner)
            &&& w2.slot(contract, total_supply_slot()).lo == w.slot(
                contract,
                total_supply_slot(),
            ).lo
            &&& w2.slot(asset_address(), asset_meta_slot(asset_id, "supply")).lo == w.slot(
                asset_address(),
                asset_meta_slot(asset_id, "supply"),
            ).lo
        }),
{
    broadcast use group_steps;

    law_word_round_trips(0, 0, contract, 0);
}

/// What an account holds natively on the EVM side.
pub open spec fn native(w: World, account: Address) -> int {
    or_zero(w.balances, account).value()
}

pub(crate) proof fn lemma_native_steps(w: World, account: Address, amount: u128)
    requires
        able(w, 0),
    ensures
        native(w, account) + amount < limb() * limb() ==> {
            let (ok, after) = w.balance_add(account, word(amount));
            &&& ok
            &&& native(after, account) == native(w, account) + amount
            &&& after.slots == w.slots
            &&& after.gas == w.gas
            &&& able(after, w.gas as int)
        },
        native(w, account) >= amount ==> {
            let (ok, after) = w.balance_sub(account, word(amount));
            &&& ok
            &&& native(after, account) == native(w, account) - amount
            &&& after.slots == w.slots
            &&& after.gas == w.gas
            &&& able(after, w.gas as int)
        },
{
    reveal(World::balance_add);
    reveal(World::balance_sub);
    assert(w.backend.writes[w.accesses] is Served);
    lemma_word_of_value(native(w, account) + amount);
    lemma_word_of_value(native(w, account) - amount);
}

pub(crate) proof fn lemma_native_refused(w: World, account: Address, other: Address, amount: u128)
    requires
        able(w, 0),
    ensures
        native(w, account) + amount >= limb() * limb() ==> !w.balance_add(account, word(amount)).0,
        native(w, account) < amount ==> !w.balance_sub(account, word(amount)).0,
        other != account ==> {
            &&& native(w.balance_add(account, word(amount)).1, other) == native(w, other)
            &&& native(w.balance_sub(account, word(amount)).1, other) == native(w, other)
        },
        w.balance_add(account, word(amount)).1.logs == w.logs,
        w.balance_sub(account, word(amount)).1.logs == w.logs,
{
    reveal(World::balance_add);
    reveal(World::balance_sub);
}

proof fn lemma_word_of_value(v: int)
    ensures
        0 <= v < limb() * limb() ==> word_of_value(v).value() == v,
{
    if 0 <= v < limb() * limb() {
        assert(0 <= v / limb() < limb() && v == limb() * (v / limb()) + v % limb())
            by (nonlinear_arith)
            requires
                0 <= v < limb() * limb(),
                limb() > 0,
        ;
    }
}

/// Moving the native asset to the EVM side takes it from the sender's balance and gives it to the
/// recipient natively; moving it back does the reverse. There and back again leaves both sides as
/// they were.
pub proof fn law_native_there_and_back(w: World, owner: Address, amount: u128)
    requires
        able(w, 500_000),
        holding(w, 1, owner) >= amount,
        native(w, owner) + amount < limb() * limb(),
    ensures
        ({
            let (out, w1) = to_evm(w, 1, owner, owner, amount);
            let (back, w2) = to_protocol(w1, 1, owner, owner, amount);
            &&& out is None
            &&& holding(w1, 1, owner) == holding(w, 1, owner) - amount
            &&& native(w1, owner) == native(w, owner) + amount
            &&& back is None
            &&& holding(w2, 1, owner) == holding(w, 1, owner)
            &&& native(w2, owner) == native(w, owner)
        }),
{
    broadcast use group_steps;

    let (held, a) = balance_read(w, 1, owner);
    let b = balance_write(a, 1, owner, (held - amount) as u128);
    assert(native(b, owner) == native(w, owner));
    lemma_native_steps(b, owner, amount);
    let w1 = b.balance_add(owner, word(amount)).1;
    assert(to_evm(w, 1, owner, owner, amount) == (None::<&'static str>, w1));
    lemma_native_steps(w1, owner, amount);
}

} // verus!
