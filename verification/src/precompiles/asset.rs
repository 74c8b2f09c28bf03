//! Asset precompile: balances, allowances, supply and registration of protocol assets.

pub mod laws;

use crate::precompiles::abi::{
    address_at, address_word_bytes, addresses_at, amounts_at, decode_address, decode_address_array,
    decode_selector, decode_string, decode_u128, decode_u128_array, decode_u64, encode_u128,
    encode_u64, number_word, push_address, push_u128, push_u8, read_string32, selector_of,
    string_at, string_of, string_word, u128_at, u64_at, write_string32,
};
use crate::precompiles::slots::{
    allowance_slot, asset_address, asset_meta_slot, balance_slot, compliance_address,
    compliance_slot, slot_allowance, slot_asset_meta, slot_balance, slot_compliance,
};
use crate::precompiles::steps::{able, group_reads, group_steps};
use crate::precompiles::storage::{
    ok_bytes, ok_empty, out_of_gas, outcome, refused, Outcome, PrecompileError, PrecompileResult,
    StatefulPrecompile, StorageCtx, StorageProvider, World,
};
use crate::words::{
    address_of, address_to_u256, address_word, law_word_round_trips, u128_to_u256, u256_to_address,
    u256_to_u128, u256_to_u64, u256_to_u8, u64_of, u64_to_u256, u8_of, word, zero_address,
    zero_word, Address, U256,
};
use vstd::prelude::*;

verus! {

/// Reading an account's balance.
pub open spec fn balance_read(w: World, asset_id: u64, account: Address) -> (u128, World) {
    let (v, w) = w.read(asset_address(), balance_slot(asset_id, account));
    (v.lo, w)
}

/// Writing an account's balance.
pub open spec fn balance_write(w: World, asset_id: u64, account: Address, amount: u128) -> World {
    w.write(asset_address(), balance_slot(asset_id, account), word(amount))
}

pub fn load_bal<P: StorageProvider>(storage: &mut P, asset_id: u64, account: Address) -> (r: u128)
    ensures
        (r, final(storage).world()) == balance_read(old(storage).world(), asset_id, account),
{
    u256_to_u128(StorageCtx::read(storage, asset_address(), slot_balance(asset_id, account)))
}

pub fn save_bal<P: StorageProvider>(
    storage: &mut P,
    asset_id: u64,
    account: Address,
    amount: u128,
)
    ensures
        final(storage).world() == balance_write(old(storage).world(), asset_id, account, amount),
{
    StorageCtx::write(
        storage,
        asset_address(),
        slot_balance(asset_id, account),
        u128_to_u256(amount),
    );
}

/// Reading a field of an asset.
pub open spec fn meta_read(w: World, asset_id: u64, field: &str) -> (U256, World) {
    w.read(asset_address(), asset_meta_slot(asset_id, field))
}

pub open spec fn meta_write(w: World, asset_id: u64, field: &str, v: U256) -> World {
    w.write(asset_address(), asset_meta_slot(asset_id, field), v)
}

fn load_meta<P: StorageProvider>(storage: &mut P, asset_id: u64, field: &str) -> (r: U256)
    ensures
        (r, final(storage).world()) == meta_read(old(storage).world(), asset_id, field),
{
    StorageCtx::read(storage, asset_address(), slot_asset_meta(asset_id, field))
}

fn save_meta<P: StorageProvider>(storage: &mut P, asset_id: u64, field: &str, v: U256)
    ensures
        final(storage).world() == meta_write(old(storage).world(), asset_id, field, v),
{
    StorageCtx::write(storage, asset_address(), slot_asset_meta(asset_id, field), v);
}

fn load_meta_u128<P: StorageProvider>(storage: &mut P, asset_id: u64, field: &str) -> (r: u128)
    ensures
        final(storage).world() == meta_read(old(storage).world(), asset_id, field).1,
        r == meta_read(old(storage).world(), asset_id, field).0.lo,
{
    u256_to_u128(load_meta(storage, asset_id, field))
}

fn load_meta_u8<P: StorageProvider>(storage: &mut P, asset_id: u64, field: &str) -> (r: u8)
    ensures
        final(storage).world() == meta_read(old(storage).world(), asset_id, field).1,
        r == u8_of(meta_read(old(storage).world(), asset_id, field).0),
{
    u256_to_u8(load_meta(storage, asset_id, field))
}

fn load_meta_address<P: StorageProvider>(storage: &mut P, asset_id: u64, field: &str) -> (r:
    Address)
    ensures
        final(storage).world() == meta_read(old(storage).world(), asset_id, field).1,
        r == address_of(meta_read(old(storage).world(), asset_id, field).0),
{
    u256_to_address(load_meta(storage, asset_id, field))
}

fn load_meta_string<P: StorageProvider>(storage: &mut P, asset_id: u64, field: &str) -> (r:
    String)
    ensures
        final(storage).world() == meta_read(old(storage).world(), asset_id, field).1,
        r@ == string_of(meta_read(old(storage).world(), asset_id, field).0),
{
    read_string32(load_meta(storage, asset_id, field))
}

/// What is on record of an asset.
#[derive(Debug)]
pub struct AssetMeta {
    pub symbol: String,
    pub name: String,
    pub decimals: u8,
    pub issuer: Address,
    pub max_supply: u128,
    pub status: u8,
}

/// What is on record of an asset, as a mathematical value.
pub struct AssetRecord {
    pub symbol: Seq<char>,
    pub name: Seq<char>,
    pub decimals: u8,
    pub issuer: Address,
    pub max_supply: u128,
    pub status: u8,
}

impl AssetMeta {
    pub open spec fn record(self) -> AssetRecord {
        AssetRecord {
            symbol: self.symbol@,
            name: self.name@,
            decimals: self.decimals,
            issuer: self.issuer,
            max_supply: self.max_supply,
            status: self.status,
        }
    }

    /// Reads the record of an asset, field by field.
    pub fn load<P: StorageProvider>(storage: &mut P, asset_id: u64) -> (r: Self)
        ensures
            (r.record(), final(storage).world()) == record_read(old(storage).world(), asset_id),
    {
        let symbol = load_meta_string(storage, asset_id, "symbol");
        let name = load_meta_string(storage, asset_id, "name");
        let decimals: u8 = load_meta_u8(storage, asset_id, "decimals");
        let issuer = load_meta_address(storage, asset_id, "issuer");
        let max_supply: u128 = load_meta_u128(storage, asset_id, "max_supply");
        let status: u8 = load_meta_u8(storage, asset_id, "status");
        AssetMeta { symbol, name, decimals, issuer, max_supply, status }
    }
}

/// Reading the record of an asset.
pub open spec fn record_read(w: World, asset_id: u64) -> (AssetRecord, World) {
    let (symbol, w) = meta_read(w, asset_id, "symbol");
    let (name, w) = meta_read(w, asset_id, "name");
    let (decimals, w) = meta_read(w, asset_id, "decimals");
    let (issuer, w) = meta_read(w, asset_id, "issuer");
    let (max_supply, w) = meta_read(w, asset_id, "max_supply");
    let (status, w) = meta_read(w, asset_id, "status");
    (
        AssetRecord {
            symbol: string_of(symbol),
            name: string_of(name),
            decimals: u8_of(decimals),
            issuer: address_of(issuer),
            max_supply: max_supply.lo,
            status: u8_of(status),
        },
        w,
    )
}

/// Whether an account may hold an asset under the asset's compliance policy.
pub open spec fn compliance_read(w: World, asset_id: u64, account: Address) -> (bool, World) {
    let (policy, w) = meta_read(w, asset_id, "compliance");
    if u64_of(policy) == 0 {
        (true, w)
    } else {
        let (status, w) = w.read(
            compliance_address(),
            compliance_slot(account, (u64_of(policy) % 0x100) as u8),
        );
        (u8_of(status) == 0, w)
    }
}

/// The caller of a write: any account but the zero address.
pub fn require_caller(msg_sender: Address) -> (r: Result<Address, PrecompileError>)
    ensures
        r == if msg_sender == zero_address() {
            Err(PrecompileError::Other("caller not available"))
        } else {
            Ok(msg_sender)
        },
{
    if msg_sender.is_zero() {
        Err(PrecompileError::Other("caller not available"))
    } else {
        Ok(msg_sender)
    }
}

fn decode_asset_addr_amount(input: &[u8]) -> (r: Option<(u64, Address, u128)>)
    ensures
        r == if input@.len() < 100 {
            None
        } else {
            Some((u64_at(input@, 4), address_at(input@, 36), u128_at(input@, 68)))
        },
{
    if input.len() < 100 {
        return None;
    }
    match (decode_u64(input, 4), decode_address(input, 36), decode_u128(input, 68)) {
        (Some(a), Some(b), Some(c)) => Some((a, b, c)),
        _ => None,
    }
}

pub open spec fn get_balance_effect(w: World, input: Seq<u8>) -> (Outcome, World) {
    let (paid, w) = w.charge(800);
    if !paid {
        (out_of_gas(), w)
    } else if input.len() < 68 {
        (refused("invalid input"), w)
    } else {
        let (balance, w) = balance_read(w, u64_at(input, 4), address_at(input, 36));
        (w.done(number_word(balance as nat, 16)), w)
    }
}

pub open spec fn transfer_effect(w: World, input: Seq<u8>, sender: Address) -> (Outcome, World) {
    let (paid, w) = w.charge(5000);
    if !paid {
        (out_of_gas(), w)
    } else if input.len() < 100 {
        (refused("invalid input"), w)
    } else if sender == zero_address() {
        (refused("caller not available"), w)
    } else {
        let asset_id = u64_at(input, 4);
        let to = address_at(input, 36);
        let amount = u128_at(input, 68);
        let (sender_ok, w) = compliance_read(w, asset_id, sender);
        if !sender_ok {
            (refused("compliance check failed"), w)
        } else {
            let (to_ok, w) = compliance_read(w, asset_id, to);
            if !to_ok {
                (refused("compliance check failed"), w)
            } else {
                move_effect(w, asset_id, sender, to, amount)
            }
        }
    }
}

/// Moving an amount between two accounts: both balances are read before either is written, and the
/// recipient's is written last.
pub open spec fn move_effect(
    w: World,
    asset_id: u64,
    from: Address,
    to: Address,
    amount: u128,
) -> (Outcome, World) {
    let (from_balance, w) = balance_read(w, asset_id, from);
    if from_balance < amount {
        (refused("insufficient balance"), w)
    } else {
        let (to_balance, w) = balance_read(w, asset_id, to);
        if to_balance + amount > u128::MAX {
            (refused("balance overflow"), w)
        } else {
            let w = balance_write(w, asset_id, from, (from_balance - amount) as u128);
            let w = balance_write(w, asset_id, to, (to_balance + amount) as u128);
            (w.done(Seq::empty()), w)
        }
    }
}

pub open spec fn get_asset_info_effect(w: World, input: Seq<u8>) -> (Outcome, World) {
    let (paid, w) = w.charge(1000);
    if !paid {
        (out_of_gas(), w)
    } else if input.len() < 36 {
        (refused("invalid input"), w)
    } else {
        let (meta, w) = record_read(w, u64_at(input, 4));
        (w.done(record_bytes(meta)), w)
    }
}

/// The six words in which a record is handed out.
pub open spec fn record_bytes(meta: AssetRecord) -> Seq<u8> {
    string_word(meta.symbol).bytes() + string_word(meta.name).bytes() + number_word(
        meta.decimals as nat,
        1,
    ) + address_word_bytes(meta.issuer) + number_word(meta.max_supply as nat, 16) + number_word(
        meta.status as nat,
        1,
    )
}

/// Whether all accounts from the `i`-th on pass the compliance policy; stops at the first that
/// does not.
pub open spec fn compliance_read_all(
    w: World,
    asset_id: u64,
    accounts: Seq<Address>,
    i: int,
) -> (bool, World)
    decreases accounts.len() - i,
{
    if i >= accounts.len() {
        (true, w)
    } else {
        let (ok, w) = compliance_read(w, asset_id, accounts[i]);
        if !ok {
            (false, w)
        } else {
            compliance_read_all(w, asset_id, accounts, i + 1)
        }
    }
}

/// Paying the recipients from the `i`-th on out of a `purse`; what is left in the purse, or why the
/// payments stopped.
pub open spec fn pay_all(
    w: World,
    asset_id: u64,
    purse: u128,
    to: Seq<Address>,
    amounts: Seq<u128>,
    i: int,
) -> (Result<u128, &'static str>, World)
    decreases to.len() - i,
{
    if i >= to.len() {
        (Ok(purse), w)
    } else if purse < amounts[i] {
        (Err("insufficient balance"), w)
    } else {
        let (balance, w) = balance_read(w, asset_id, to[i]);
        if balance + amounts[i] > u128::MAX {
            (Err("balance overflow"), w)
        } else {
            let w = balance_write(w, asset_id, to[i], (balance + amounts[i]) as u128);
            pay_all(w, asset_id, (purse - amounts[i]) as u128, to, amounts, i + 1)
        }
    }
}

pub open spec fn batch_transfer_effect(w: World, input: Seq<u8>, sender: Address) -> (
    Outcome,
    World,
) {
    if input.len() < 100 {
        (refused("invalid input"), w)
    } else {
        match (addresses_at(input, 36), amounts_at(input, 68)) {
            (None, _) => (refused("invalid recipients array"), w),
            (_, None) => (refused("invalid amounts array"), w),
            (Some(to), Some(amounts)) => if to.len() != amounts.len() {
                (refused("recipients and amounts length mismatch"), w)
            } else if to.len() == 0 {
                (refused("empty batch"), w)
            } else {
                let (paid, w) = w.charge((5000 * to.len()) as int);
                if !paid {
                    (out_of_gas(), w)
                } else {
                    batch_effect(w, u64_at(input, 4), sender, to, amounts)
                }
            },
        }
    }
}

/// A batch of transfers, once its gas is paid.
pub open spec fn batch_effect(
    w: World,
    asset_id: u64,
    sender: Address,
    to: Seq<Address>,
    amounts: Seq<u128>,
) -> (Outcome, World) {
    if sender == zero_address() {
        (refused("caller not available"), w)
    } else {
        let (sender_ok, w) = compliance_read(w, asset_id, sender);
        if !sender_ok {
            (refused("compliance check failed"), w)
        } else {
            let (all_ok, w) = compliance_read_all(w, asset_id, to, 0);
            if !all_ok {
                (refused("compliance check failed"), w)
            } else {
                let (purse, w) = balance_read(w, asset_id, sender);
                let (left, w) = pay_all(w, asset_id, purse, to, amounts, 0);
                match left {
                    Err(reason) => (refused(reason), w),
                    Ok(left) => {
                        let w = balance_write(w, asset_id, sender, left);
                        (w.done(Seq::empty()), w)
                    },
                }
            }
        }
    }
}

pub open spec fn approve_effect(w: World, input: Seq<u8>, sender: Address) -> (Outcome, World) {
    let (paid, w) = w.charge(3000);
    if !paid {
        (out_of_gas(), w)
    } else if input.len() < 100 {
        (refused("invalid input"), w)
    } else if sender == zero_address() {
        (refused("caller not available"), w)
    } else {
        let w = w.write(
            asset_address(),
            allowance_slot(u64_at(input, 4), sender, address_at(input, 36)),
            word(u128_at(input, 68)),
        );
        (w.done(Seq::empty()), w)
    }
}

/// Using up `amount` of an allowance; `false` where the allowance is lower.
pub open spec fn spend_allowance_effect(
    w: World,
    asset_id: u64,
    owner: Address,
    spender: Address,
    amount: u128,
) -> (bool, World) {
    let slot = allowance_slot(asset_id, owner, spender);
    let (allowance, w) = w.read(asset_address(), slot);
    if allowance.lo < amount {
        (false, w)
    } else {
        (true, w.write(asset_address(), slot, word((allowance.lo - amount) as u128)))
    }
}

pub open spec fn transfer_from_effect(w: World, input: Seq<u8>, sender: Address) -> (
    Outcome,
    World,
) {
    let (paid, w) = w.charge(6000);
    if !paid {
        (out_of_gas(), w)
    } else if input.len() < 132 {
        (refused("invalid input"), w)
    } else if sender == zero_address() {
        (refused("caller not available"), w)
    } else {
        let asset_id = u64_at(input, 4);
        let from = address_at(input, 36);
        let to = address_at(input, 68);
        let amount = u128_at(input, 100);
        let (from_ok, w) = compliance_read(w, asset_id, from);
        if !from_ok {
            (refused("compliance check failed"), w)
        } else {
            let (to_ok, w) = compliance_read(w, asset_id, to);
            if !to_ok {
                (refused("compliance check failed"), w)
            } else {
                let (allowed, w) = spend_allowance_effect(w, asset_id, from, sender, amount);
                if !allowed {
                    (refused("insufficient allowance"), w)
                } else {
                    move_effect(w, asset_id, from, to, amount)
                }
            }
        }
    }
}

pub open spec fn mint_effect(w: World, input: Seq<u8>, sender: Address) -> (Outcome, World) {
    let (paid, w) = w.charge(10000);
    if !paid {
        (out_of_gas(), w)
    } else if input.len() < 100 {
        (refused("invalid input"), w)
    } else if sender == zero_address() {
        (refused("caller not available"), w)
    } else {
        let asset_id = u64_at(input, 4);
        let to = address_at(input, 36);
        let amount = u128_at(input, 68);
        let (meta, w) = record_read(w, asset_id);
        if meta.issuer != sender {
            (refused("not asset issuer"), w)
        } else {
            let (supply, w) = meta_read(w, asset_id, "supply");
            if supply.lo + amount > u128::MAX {
                (refused("supply overflow"), w)
            } else if meta.max_supply > 0 && supply.lo + amount > meta.max_supply {
                (refused("max supply exceeded"), w)
            } else {
                let w = meta_write(w, asset_id, "supply", word((supply.lo + amount) as u128));
                let (balance, w) = balance_read(w, asset_id, to);
                if balance + amount > u128::MAX {
                    (refused("balance overflow"), w)
                } else {
                    let w = balance_write(w, asset_id, to, (balance + amount) as u128);
                    (w.done(Seq::empty()), w)
                }
            }
        }
    }
}

pub open spec fn burn_effect(w: World, input: Seq<u8>, sender: Address) -> (Outcome, World) {
    let (paid, w) = w.charge(8000);
    if !paid {
        (out_of_gas(), w)
    } else if input.len() < 100 {
        (refused("invalid input"), w)
    } else if sender == zero_address() {
        (refused("caller not available"), w)
    } else {
        let asset_id = u64_at(input, 4);
        let from = address_at(input, 36);
        let amount = u128_at(input, 68);
        let (allowed, w) = if sender == from {
            (true, w)
        } else {
            spend_allowance_effect(w, asset_id, from, sender, amount)
        };
        if !allowed {
            (refused("insufficient allowance"), w)
        } else {
            let (supply, w) = meta_read(w, asset_id, "supply");
            if supply.lo < amount {
                (refused("supply underflow"), w)
            } else {
                let w = meta_write(w, asset_id, "supply", word((supply.lo - amount) as u128));
                let (balance, w) = balance_read(w, asset_id, from);
                if balance < amount {
                    (refused("insufficient balance"), w)
                } else {
                    let w = balance_write(w, asset_id, from, (balance - amount) as u128);
                    (w.done(Seq::empty()), w)
                }
            }
        }
    }
}

pub open spec fn register_effect(w: World, input: Seq<u8>, sender: Address) -> (Outcome, World) {
    let (paid, w) = w.charge(50000);
    if !paid {
        (out_of_gas(), w)
    } else if input.len() < 132 {
        (refused("invalid input"), w)
    } else {
        match (string_at(input, 4), string_at(input, 36)) {
            (None, _) => (refused("invalid symbol"), w),
            (_, None) => (refused("invalid name"), w),
            (Some(symbol), Some(name)) => if sender == zero_address() {
                (refused("caller not available"), w)
            } else {
                let (next, w) = w.read(asset_address(), zero_word());
                let asset_id: u64 = if u64_of(next) == 0 {
                    1
                } else {
                    u64_of(next)
                };
                if asset_id == u64::MAX {
                    (refused("asset id overflow"), w)
                } else {
                    let w = w.write(asset_address(), zero_word(), word((asset_id + 1) as u128));
                    let w = meta_write(w, asset_id, "symbol", string_word(symbol));
                    let w = meta_write(w, asset_id, "name", string_word(name));
                    let w = meta_write(w, asset_id, "decimals", word((u64_at(input, 68) % 0x100) as u128));
                    let w = meta_write(w, asset_id, "issuer", address_word(sender));
                    let w = meta_write(w, asset_id, "max_supply", word(u128_at(input, 100)));
                    let w = meta_write(w, asset_id, "supply", zero_word());
                    let w = meta_write(w, asset_id, "status", zero_word());
                    let w = meta_write(w, asset_id, "compliance", zero_word());
                    let w = meta_write(w, asset_id, "registered_at", zero_word());
                    (w.done(number_word(asset_id as nat, 8)), w)
                }
            },
        }
    }
}

/// The asset precompile.
#[derive(Clone, Copy, Debug)]
pub struct AssetPrecompile;

impl AssetPrecompile {
    fn check_compliance<P: StorageProvider>(
        storage: &mut P,
        asset_id: u64,
        account: Address,
    ) -> (r: Result<(), PrecompileError>)
        ensures
            (r is Ok, final(storage).world()) == compliance_read(
                old(storage).world(),
                asset_id,
                account,
            ),
            r matches Err(e) ==> e == PrecompileError::Other("compliance check failed"),
    {
        let policy_id: u64 = u256_to_u64(load_meta(storage, asset_id, "compliance"));
        if policy_id == 0 {
            return Ok(());
        }
        let slot = slot_compliance(account, (policy_id % 0x100) as u8);
        let status: u8 = u256_to_u8(StorageCtx::read(storage, compliance_address(), slot));
        if status == 0 {
            Ok(())
        } else {
            Err(PrecompileError::Other("compliance check failed"))
        }
    }

    pub fn get_balance<P: StorageProvider>(&self, storage: &mut P, input: &[u8]) -> (r:
        PrecompileResult)
        ensures
            (outcome(r), final(storage).world()) == get_balance_effect(
                old(storage).world(),
                input@,
            ),
    {
        StorageCtx::deduct_gas(storage, 800).ok_or(PrecompileError::OutOfGas)?;
        if input.len() < 68 {
            return Err(PrecompileError::Other("invalid input"));
        }
        let asset_id: u64 = decode_u64(input, 4).ok_or(PrecompileError::Other("invalid asset_id"))?;
        let addr = decode_address(input, 36).ok_or(PrecompileError::Other("invalid address"))?;
        let balance: u128 = load_bal(storage, asset_id, addr);
        ok_bytes(storage, encode_u128(balance))
    }

    pub fn transfer<P: StorageProvider>(
        &self,
        storage: &mut P,
        input: &[u8],
        msg_sender: Address,
    ) -> (r: PrecompileResult)
        ensures
            (outcome(r), final(storage).world()) == transfer_effect(
                old(storage).world(),
                input@,
                msg_sender,
            ),
    {
        StorageCtx::deduct_gas(storage, 5000).ok_or(PrecompileError::OutOfGas)?;
        let (asset_id, to, amount) = decode_asset_addr_amount(input).ok_or(
            PrecompileError::Other("invalid input"),
        )?;
        let from = require_caller(msg_sender)?;
        AssetPrecompile::check_compliance(storage, asset_id, from)?;
        AssetPrecompile::check_compliance(storage, asset_id, to)?;
        AssetPrecompile::move_balance(storage, asset_id, from, to, amount)
    }

    fn move_balance<P: StorageProvider>(
        storage: &mut P,
        asset_id: u64,
        from: Address,
        to: Address,
        amount: u128,
    ) -> (r: PrecompileResult)
        ensures
            (outcome(r), final(storage).world()) == move_effect(
                old(storage).world(),
                asset_id,
                from,
                to,
                amount,
            ),
    {
        let from_balance: u128 = load_bal(storage, asset_id, from).checked_sub(amount).ok_or(
            PrecompileError::Other("insufficient balance"),
        )?;
        let to_balance: u128 = load_bal(storage, asset_id, to).checked_add(amount).ok_or(
            PrecompileError::Other("balance overflow"),
        )?;
        save_bal(storage, asset_id, from, from_balance);
        save_bal(storage, asset_id, to, to_balance);
        ok_empty(storage)
    }

    pub fn get_asset_info<P: StorageProvider>(&self, storage: &mut P, input: &[u8]) -> (r:
        PrecompileResult)
        ensures
            (outcome(r), final(storage).world()) == get_asset_info_effect(
                old(storage).world(),
                input@,
            ),
    {
        StorageCtx::deduct_gas(storage, 1000).ok_or(PrecompileError::OutOfGas)?;
        if input.len() < 36 {
            return Err(PrecompileError::Other("invalid input"));
        }
        let asset_id: u64 = decode_u64(input, 4).ok_or(PrecompileError::Other("invalid asset_id"))?;
        let meta = AssetMeta::load(storage, asset_id);
        let mut out: Vec<u8> = Vec::new();
        write_string32(meta.symbol.as_str()).push_to(&mut out);
        write_string32(meta.name.as_str()).push_to(&mut out);
        push_u8(&mut out, meta.decimals);
        push_address(&mut out, meta.issuer);
        push_u128(&mut out, meta.max_supply);
        push_u8(&mut out, meta.status);
        proof {
            assert(out@ =~= record_bytes(meta.record()));
        }
        ok_bytes(storage, out)
    }

    pub fn batch_transfer<P: StorageProvider>(
        &self,
        storage: &mut P,
        input: &[u8],
        msg_sender: Address,
    ) -> (r: PrecompileResult)
        ensures
            (outcome(r), final(storage).world()) == batch_transfer_effect(
                old(storage).world(),
                input@,
                msg_sender,
            ),
    {
        if input.len() < 100 {
            return Err(PrecompileError::Other("invalid input"));
        }
        let asset_id: u64 = decode_u64(input, 4).ok_or(PrecompileError::Other("invalid asset_id"))?;
        let recipients = decode_address_array(input, 36).ok_or(
            PrecompileError::Other("invalid recipients array"),
        )?;
        let amounts = decode_u128_array(input, 68).ok_or(
            PrecompileError::Other("invalid amounts array"),
        )?;
        if recipients.len() != amounts.len() {
            return Err(PrecompileError::Other("recipients and amounts length mismatch"));
        }
        if recipients.len() == 0 {
            return Err(PrecompileError::Other("empty batch"));
        }
        charge_each(storage, 5000, recipients.len())?;
        AssetPrecompile::run_batch(storage, asset_id, msg_sender, &recipients, &amounts)
    }

    fn run_batch<P: StorageProvider>(
        storage: &mut P,
        asset_id: u64,
        msg_sender: Address,
        to: &Vec<Address>,
        amounts: &Vec<u128>,
    ) -> (r: PrecompileResult)
        requires
            to@.len() == amounts@.len(),
        ensures
            (outcome(r), final(storage).world()) == batch_effect(
                old(storage).world(),
                asset_id,
                msg_sender,
                to@,
                amounts@,
            ),
    {
        let from = require_caller(msg_sender)?;
        AssetPrecompile::check_compliance(storage, asset_id, from)?;
        AssetPrecompile::check_all(storage, asset_id, to)?;
        let purse: u128 = load_bal(storage, asset_id, from);
        let left: u128 = AssetPrecompile::pay_each(storage, asset_id, purse, to, amounts)?;
        save_bal(storage, asset_id, from, left);
        ok_empty(storage)
    }

    fn check_all<P: StorageProvider>(storage: &mut P, asset_id: u64, accounts: &Vec<Address>) -> (r:
        Result<(), PrecompileError>)
        ensures
            (r is Ok, final(storage).world()) == compliance_read_all(
                old(storage).world(),
                asset_id,
                accounts@,
                0,
            ),
            r matches Err(e) ==> e == PrecompileError::Other("compliance check failed"),
    {
        let mut i: usize = 0;
        while i < accounts.len()
            invariant
                i <= accounts@.len(),
                compliance_read_all(storage.world(), asset_id, accounts@, i as int)
                    == compliance_read_all(old(storage).world(), asset_id, accounts@, 0),
            decreases accounts@.len() - i,
        {
            AssetPrecompile::check_compliance(storage, asset_id, accounts[i])?;
            i += 1;
        }
        Ok(())
    }

    fn pay_each<P: StorageProvider>(
        storage: &mut P,
        asset_id: u64,
        purse: u128,
        to: &Vec<Address>,
        amounts: &Vec<u128>,
    ) -> (r: Result<u128, PrecompileError>)
        requires
            to@.len() == amounts@.len(),
        ensures
            ({
                let (left, w) = pay_all(old(storage).world(), asset_id, purse, to@, amounts@, 0);
                &&& final(storage).world() == w
                &&& r == match left {
                    Ok(v) => Ok(v),
                    Err(reason) => Err(PrecompileError::Other(reason)),
                }
            }),
    {
        let mut left: u128 = purse;
        let mut i: usize = 0;
        while i < to.len()
            invariant
                i <= to@.len(),
                to@.len() == amounts@.len(),
                pay_all(storage.world(), asset_id, left, to@, amounts@, i as int) == pay_all(
                    old(storage).world(),
                    asset_id,
                    purse,
                    to@,
                    amounts@,
                    0,
                ),
            decreases to@.len() - i,
        {
            let amount: u128 = amounts[i];
            left = left.checked_sub(amount).ok_or(PrecompileError::Other("insufficient balance"))?;
            let balance: u128 = load_bal(storage, asset_id, to[i]).checked_add(amount).ok_or(
                PrecompileError::Other("balance overflow"),
            )?;
            save_bal(storage, asset_id, to[i], balance);
            i += 1;
        }
        Ok(left)
    }

    pub fn approve<P: StorageProvider>(
        &self,
        storage: &mut P,
        input: &[u8],
        msg_sender: Address,
    ) -> (r: PrecompileResult)
        ensures
            (outcome(r), final(storage).world()) == approve_effect(
                old(storage).world(),
                input@,
                msg_sender,
            ),
    {
        StorageCtx::deduct_gas(storage, 3000).ok_or(PrecompileError::OutOfGas)?;
        let (asset_id, spender, amount) = decode_asset_addr_amount(input).ok_or(
            PrecompileError::Other("invalid input"),
        )?;
        let owner = require_caller(msg_sender)?;
        let slot = slot_allowance(asset_id, owner, spender);
        StorageCtx::write(storage, asset_address(), slot, u128_to_u256(amount));
        ok_empty(storage)
    }

    fn spend_allowance<P: StorageProvider>(
        storage: &mut P,
        asset_id: u64,
        owner: Address,
        spender: Address,
        amount: u128,
    ) -> (r: Result<(), PrecompileError>)
        ensures
            (r is Ok, final(storage).world()) == spend_allowance_effect(
                old(storage).world(),
                asset_id,
                owner,
                spender,
                amount,
            ),
            r matches Err(e) ==> e == PrecompileError::Other("insufficient allowance"),
    {
        let slot = slot_allowance(asset_id, owner, spender);
        let allowance: u128 = u256_to_u128(StorageCtx::read(storage, asset_address(), slot));
        if allowance < amount {
            return Err(PrecompileError::Other("insufficient allowance"));
        }
        StorageCtx::write(storage, asset_address(), slot, u128_to_u256(allowance - amount));
        Ok(())
    }

    pub fn transfer_from<P: StorageProvider>(
        &self,
        storage: &mut P,
        input: &[u8],
        msg_sender: Address,
    ) -> (r: PrecompileResult)
        ensures
            (outcome(r), final(storage).world()) == transfer_from_effect(
                old(storage).world(),
                input@,
                msg_sender,
            ),
    {
        StorageCtx::deduct_gas(storage, 6000).ok_or(PrecompileError::OutOfGas)?;
        if input.len() < 132 {
            return Err(PrecompileError::Other("invalid input"));
        }
        let asset_id: u64 = decode_u64(input, 4).ok_or(PrecompileError::Other("invalid asset_id"))?;
        let from = decode_address(input, 36).ok_or(PrecompileError::Other("invalid from address"))?;
        let to = decode_address(input, 68).ok_or(PrecompileError::Other("invalid to address"))?;
        let amount: u128 = decode_u128(input, 100).ok_or(PrecompileError::Other("invalid amount"))?;
        let spender = require_caller(msg_sender)?;
        AssetPrecompile::check_compliance(storage, asset_id, from)?;
        AssetPrecompile::check_compliance(storage, asset_id, to)?;
        AssetPrecompile::spend_allowance(storage, asset_id, from, spender, amount)?;
        AssetPrecompile::move_balance(storage, asset_id, from, to, amount)
    }

    pub fn mint<P: StorageProvider>(
        &self,
        storage: &mut P,
        input: &[u8],
        msg_sender: Address,
    ) -> (r: PrecompileResult)
        ensures
            (outcome(r), final(storage).world()) == mint_effect(
                old(storage).world(),
                input@,
                msg_sender,
            ),
    {
        StorageCtx::deduct_gas(storage, 10000).ok_or(PrecompileError::OutOfGas)?;
        let (asset_id, to, amount) = decode_asset_addr_amount(input).ok_or(
            PrecompileError::Other("invalid input"),
        )?;
        let caller = require_caller(msg_sender)?;
        let meta = AssetMeta::load(storage, asset_id);
        if meta.issuer != caller {
            return Err(PrecompileError::Other("not asset issuer"));
        }
        let supply: u128 = load_meta_u128(storage, asset_id, "supply");
        let new_supply: u128 = supply.checked_add(amount).ok_or(
            PrecompileError::Other("supply overflow"),
        )?;
        if meta.max_supply > 0 && new_supply > meta.max_supply {
            return Err(PrecompileError::Other("max supply exceeded"));
        }
        save_meta(storage, asset_id, "supply", u128_to_u256(new_supply));
        let balance: u128 = load_bal(storage, asset_id, to).checked_add(amount).ok_or(
            PrecompileError::Other("balance overflow"),
        )?;
        save_bal(storage, asset_id, to, balance);
        ok_empty(storage)
    }

    pub fn burn<P: StorageProvider>(
        &self,
        storage: &mut P,
        input: &[u8],
        msg_sender: Address,
    ) -> (r: PrecompileResult)
        ensures
            (outcome(r), final(storage).world()) == burn_effect(
                old(storage).world(),
                input@,
                msg_sender,
            ),
    {
        StorageCtx::deduct_gas(storage, 8000).ok_or(PrecompileError::OutOfGas)?;
        let (asset_id, from, amount) = decode_asset_addr_amount(input).ok_or(
            PrecompileError::Other("invalid input"),
        )?;
        let caller = require_caller(msg_sender)?;
        if caller != from {
            AssetPrecompile::spend_allowance(storage, asset_id, from, caller, amount)?;
        }
        let supply: u128 = load_meta_u128(storage, asset_id, "supply");
        let new_supply: u128 = supply.checked_sub(amount).ok_or(
            PrecompileError::Other("supply underflow"),
        )?;
        save_meta(storage, asset_id, "supply", u128_to_u256(new_supply));
        let balance: u128 = load_bal(storage, asset_id, from).checked_sub(amount).ok_or(
            PrecompileError::Other("insufficient balance"),
        )?;
        save_bal(storage, asset_id, from, balance);
        ok_empty(storage)
    }

    pub fn register<P: StorageProvider>(
        &self,
        storage: &mut P,
        input: &[u8],
        msg_sender: Address,
    ) -> (r: PrecompileResult)
        ensures
            (outcome(r), final(storage).world()) == register_effect(
                old(storage).world(),
                input@,
                msg_sender,
            ),
    {
        StorageCtx::deduct_gas(storage, 50000).ok_or(PrecompileError::OutOfGas)?;
        if input.len() < 132 {
            return Err(PrecompileError::Other("invalid input"));
        }
        let symbol = decode_string(input, 4).ok_or(PrecompileError::Other("invalid symbol"))?;
        let name = decode_string(input, 36).ok_or(PrecompileError::Other("invalid name"))?;
        let decimals: u64 = decode_u64(input, 68).ok_or(PrecompileError::Other("invalid decimals"))?
            % 0x100;
        let max_supply: u128 = decode_u128(input, 100).ok_or(
            PrecompileError::Other("invalid maxSupply"),
        )?;
        let caller = require_caller(msg_sender)?;
        let next: u64 = u256_to_u64(StorageCtx::read(storage, asset_address(), zero_word()));
        let asset_id: u64 = if next == 0 {
            1
        } else {
            next
        };
        let next_id: u64 = asset_id.checked_add(1).ok_or(
            PrecompileError::Other("asset id overflow"),
        )?;
        StorageCtx::write(storage, asset_address(), zero_word(), u64_to_u256(next_id));
        save_meta(storage, asset_id, "symbol", write_string32(symbol.as_str()));
        save_meta(storage, asset_id, "name", write_string32(name.as_str()));
        save_meta(storage, asset_id, "decimals", u64_to_u256(decimals));
        save_meta(storage, asset_id, "issuer", address_to_u256(caller));
        save_meta(storage, asset_id, "max_supply", u128_to_u256(max_supply));
        save_meta(storage, asset_id, "supply", zero_word());
        save_meta(storage, asset_id, "status", zero_word());
        save_meta(storage, asset_id, "compliance", zero_word());
        save_meta(storage, asset_id, "registered_at", zero_word());
        ok_bytes(storage, encode_u64(asset_id))
    }
}

/// Charges `price` for each of `n` items.
pub fn charge_each<P: StorageProvider>(storage: &mut P, price: u64, n: usize) -> (r: Result<
    (),
    PrecompileError,
>)
    ensures
        (r is Ok, final(storage).world()) == old(storage).world().charge(price * n),
        r matches Err(e) ==> e is OutOfGas,
{
    proof {
        reveal(World::charge);
    }
    match price.checked_mul(n as u64) {
        Some(gas) => StorageCtx::deduct_gas(storage, gas).ok_or(PrecompileError::OutOfGas),
        None => Err(PrecompileError::OutOfGas),
    }
}

/// What a call of the asset precompile comes to.
pub open spec fn asset_effect(w: World, calldata: Seq<u8>, sender: Address) -> (Outcome, World) {
    if calldata.len() < 4 {
        (refused("invalid input"), w)
    } else {
        match selector_of(calldata) {
            0xd21425df => get_balance_effect(w, calldata),
            0x4ec3ce7f => get_asset_info_effect(w, calldata),
            0xd15dcd62 => transfer_effect(w, calldata, sender),
            0x5f9161bb => batch_transfer_effect(w, calldata, sender),
            0x7e2ead93 => approve_effect(w, calldata, sender),
            0xa13e0fba => transfer_from_effect(w, calldata, sender),
            0xf2be4599 => mint_effect(w, calldata, sender),
            0x2b7d1480 => mint_effect(w, calldata, sender),
            0x73712863 => burn_effect(w, calldata, sender),
            0x484a573d => register_effect(w, calldata, sender),
            _ => (refused("unknown selector"), w),
        }
    }
}

impl StatefulPrecompile for AssetPrecompile {
    open spec fn effect(&self, w: World, calldata: Seq<u8>, sender: Address) -> (Outcome, World) {
        asset_effect(w, calldata, sender)
    }

    open spec fn ready(&self) -> bool {
        true
    }

    fn call<P: StorageProvider>(
        &mut self,
        storage: &mut P,
        calldata: &[u8],
        msg_sender: Address,
    ) -> (r: PrecompileResult) {
        if calldata.len() < 4 {
            return Err(PrecompileError::Other("invalid input"));
        }
        match decode_selector(calldata) {
            0xd21425df => self.get_balance(storage, calldata),
            0x4ec3ce7f => self.get_asset_info(storage, calldata),
            0xd15dcd62 => self.transfer(storage, calldata, msg_sender),
            0x5f9161bb => self.batch_transfer(storage, calldata, msg_sender),
            0x7e2ead93 => self.approve(storage, calldata, msg_sender),
            0xa13e0fba => self.transfer_from(storage, calldata, msg_sender),
            0xf2be4599 => self.mint(storage, calldata, msg_sender),
            0x2b7d1480 => self.mint(storage, calldata, msg_sender),
            0x73712863 => self.burn(storage, calldata, msg_sender),
            0x484a573d => self.register(storage, calldata, msg_sender),
            _ => Err(PrecompileError::Other("unknown selector")),
        }
    }
}

/// What an account holds of an asset.
pub open spec fn holding(w: World, asset_id: u64, account: Address) -> u128 {
    w.slot(asset_address(), balance_slot(asset_id, account)).lo
}

/// Whether an account may hold an asset, by what is on record.
pub open spec fn cleared(w: World, asset_id: u64, account: Address) -> bool {
    let policy = u64_of(w.slot(asset_address(), asset_meta_slot(asset_id, "compliance")));
    policy == 0 || u8_of(
        w.slot(compliance_address(), compliance_slot(account, (policy % 0x100) as u8)),
    ) == 0
}

/// A transfer between two accounts that are cleared takes the amount from the one and gives it to
/// the other, where the one holds it; nothing else changes. A transfer to oneself adds the amount.
pub proof fn law_transfer_moves_amount(w: World, input: Seq<u8>, sender: Address)
    requires
        able(w, 100_000),
        input.len() >= 100,
        sender != zero_address(),
        cleared(w, u64_at(input, 4), sender),
        cleared(w, u64_at(input, 4), address_at(input, 36)),
        holding(w, u64_at(input, 4), sender) >= u128_at(input, 68),
        holding(w, u64_at(input, 4), address_at(input, 36)) + u128_at(input, 68) <= u128::MAX,
        sender != address_at(input, 36) ==> balance_slot(u64_at(input, 4), sender) != balance_slot(
            u64_at(input, 4),
            address_at(input, 36),
        ),
    ensures
        ({
            let asset_id = u64_at(input, 4);
            let to = address_at(input, 36);
            let amount = u128_at(input, 68);
            let (o, after) = transfer_effect(w, input, sender);
            &&& o is Done
            &&& sender != to ==> holding(after, asset_id, sender) == holding(w, asset_id, sender)
                - amount
            &&& holding(after, asset_id, to) == holding(w, asset_id, to) + amount
            &&& forall|a: Address, k: U256|
                (a, k) != (asset_address(), balance_slot(asset_id, sender)) && (a, k) != (
                    asset_address(),
                    balance_slot(asset_id, to),
                ) ==> #[trigger] after.slot(a, k) == w.slot(a, k)
        }),
{
    broadcast use group_steps;

}

/// A transfer that is refused changes no slot.
pub proof fn law_refused_transfer_changes_nothing(w: World, input: Seq<u8>, sender: Address)
    requires
        transfer_effect(w, input, sender).0 is Failed,
    ensures
        transfer_effect(w, input, sender).1.slots == w.slots,
        transfer_effect(w, input, sender).1.logs == w.logs,
{
    broadcast use group_reads;

}

/// What a spender may still take from an owner.
pub open spec fn allowed(w: World, asset_id: u64, owner: Address, spender: Address) -> u128 {
    w.slot(asset_address(), allowance_slot(asset_id, owner, spender)).lo
}

/// An approval sets the allowance, and nothing else.
pub proof fn law_approve_sets_allowance(w: World, input: Seq<u8>, sender: Address)
    requires
        able(w, 30_000),
        input.len() >= 100,
        sender != zero_address(),
    ensures
        ({
            let asset_id = u64_at(input, 4);
            let spender = address_at(input, 36);
            let (o, after) = approve_effect(w, input, sender);
            &&& o is Done
            &&& allowed(after, asset_id, sender, spender) == u128_at(input, 68)
            &&& forall|a: Address, k: U256|
                (a, k) != (asset_address(), allowance_slot(asset_id, sender, spender))
                    ==> #[trigger] after.slot(a, k) == w.slot(a, k)
        }),
{
    broadcast use group_steps;

}

/// A transfer on behalf of another takes the amount from the owner and from the allowance, and gives
/// it to the recipient. It never takes more than is allowed. To an owner that is the recipient it
/// adds the amount.
pub proof fn law_transfer_from_uses_allowance(w: World, input: Seq<u8>, sender: Address)
    requires
        able(w, 200_000),
        input.len() >= 132,
        sender != zero_address(),
        cleared(w, u64_at(input, 4), address_at(input, 36)),
        cleared(w, u64_at(input, 4), address_at(input, 68)),
        holding(w, u64_at(input, 4), address_at(input, 36)) >= u128_at(input, 100),
        holding(w, u64_at(input, 4), address_at(input, 68)) + u128_at(input, 100) <= u128::MAX,
        ({
            let asset_id = u64_at(input, 4);
            let from = address_at(input, 36);
            let to = address_at(input, 68);
            &&& from != to ==> balance_slot(asset_id, from) != balance_slot(asset_id, to)
            &&& balance_slot(asset_id, from) != allowance_slot(asset_id, from, sender)
            &&& balance_slot(asset_id, to) != allowance_slot(asset_id, from, sender)
        }),
    ensures
        ({
            let asset_id = u64_at(input, 4);
            let from = address_at(input, 36);
            let to = address_at(input, 68);
            let amount = u128_at(input, 100);
            let (o, after) = transfer_from_effect(w, input, sender);
            if allowed(w, asset_id, from, sender) < amount {
                &&& o == refused("insufficient allowance")
                &&& after.slots == w.slots
            } else {
                &&& o is Done
                &&& from != to ==> holding(after, asset_id, from) == holding(w, asset_id, from)
                    - amount
                &&& holding(after, asset_id, to) == holding(w, asset_id, to) + amount
                &&& allowed(after, asset_id, from, sender) == allowed(w, asset_id, from, sender)
                    - amount
            }
        }),
{
    broadcast use group_steps;

}

/// The field of an asset.
pub open spec fn field(w: World, asset_id: u64, name: &str) -> U256 {
    w.slot(asset_address(), asset_meta_slot(asset_id, name))
}

/// Minting is for the issuer; it adds the amount to the supply and to the recipient, and never takes
/// the supply over its maximum.
pub proof fn law_mint_within_cap(w: World, input: Seq<u8>, sender: Address)
    requires
        able(w, 100_000),
        input.len() >= 100,
        sender != zero_address(),
        asset_meta_slot(u64_at(input, 4), "supply") != balance_slot(
            u64_at(input, 4),
            address_at(input, 36),
        ),
        holding(w, u64_at(input, 4), address_at(input, 36)) + u128_at(input, 68) <= u128::MAX,
    ensures
        ({
            let asset_id = u64_at(input, 4);
            let to = address_at(input, 36);
            let amount = u128_at(input, 68);
            let supply = field(w, asset_id, "supply").lo;
            let cap = field(w, asset_id, "max_supply").lo;
            let (o, after) = mint_effect(w, input, sender);
            if address_of(field(w, asset_id, "issuer")) != sender {
                o == refused("not asset issuer") && after.slots == w.slots
            } else if supply + amount > u128::MAX {
                o == refused("supply overflow") && after.slots == w.slots
            } else if cap > 0 && supply + amount > cap {
                o == refused("max supply exceeded") && after.slots == w.slots
            } else {
                &&& o is Done
                &&& field(after, asset_id, "supply").lo == supply + amount
                &&& holding(after, asset_id, to) == holding(w, asset_id, to) + amount
            }
        }),
{
    broadcast use group_steps;

}

/// Burning one's own takes the amount from the supply and from the holder.
pub proof fn law_burn_lowers_supply(w: World, input: Seq<u8>, sender: Address)
    requires
        able(w, 100_000),
        input.len() >= 100,
        sender != zero_address(),
        address_at(input, 36) == sender,
        asset_meta_slot(u64_at(input, 4), "supply") != balance_slot(u64_at(input, 4), sender),
        holding(w, u64_at(input, 4), sender) >= u128_at(input, 68),
        field(w, u64_at(input, 4), "supply").lo >= u128_at(input, 68),
    ensures
        ({
            let asset_id = u64_at(input, 4);
            let amount = u128_at(input, 68);
            let (o, after) = burn_effect(w, input, sender);
            &&& o is Done
            &&& field(after, asset_id, "supply").lo == field(w, asset_id, "supply").lo - amount
            &&& holding(after, asset_id, sender) == holding(w, asset_id, sender) - amount
        }),
{
    broadcast use group_steps;

}

/// The slots of an asset's fields.
pub open spec fn field_slots(asset_id: u64) -> Seq<U256> {
    seq![
        zero_word(),
        asset_meta_slot(asset_id, "symbol"),
        asset_meta_slot(asset_id, "name"),
        asset_meta_slot(asset_id, "decimals"),
        asset_meta_slot(asset_id, "issuer"),
        asset_meta_slot(asset_id, "max_supply"),
        asset_meta_slot(asset_id, "supply"),
        asset_meta_slot(asset_id, "status"),
        asset_meta_slot(asset_id, "compliance"),
        asset_meta_slot(asset_id, "registered_at"),
    ]
}

/// An asset that was just registered is on record as it was asked for, under the next number, with
/// nothing issued and no policy.
pub proof fn law_registered_asset_is_on_record(w: World, input: Seq<u8>, sender: Address)
    requires
        able(w, 300_000),
        input.len() >= 132,
        string_at(input, 4) is Some,
        string_at(input, 36) is Some,
        sender != zero_address(),
        u64_of(w.slot(asset_address(), zero_word())) < u64::MAX,
        ({
            let next = u64_of(w.slot(asset_address(), zero_word()));
            field_slots(if next == 0 {
                1
            } else {
                next
            }).no_duplicates()
        }),
    ensures
        ({
            let next = u64_of(w.slot(asset_address(), zero_word()));
            let id: u64 = if next == 0 {
                1
            } else {
                next
            };
            let (o, after) = register_effect(w, input, sender);
            &&& o == after.done(number_word(id as nat, 8))
            &&& u64_of(after.slot(asset_address(), zero_word())) == id + 1
            &&& field(after, id, "symbol") == string_word(string_at(input, 4)->0)
            &&& field(after, id, "name") == string_word(string_at(input, 36)->0)
            &&& address_of(field(after, id, "issuer")) == sender
            &&& field(after, id, "max_supply").lo == u128_at(input, 100)
            &&& field(after, id, "supply") == zero_word()
            &&& field(after, id, "compliance") == zero_word()
        }),
{
    broadcast use group_steps;

    let next = u64_of(w.slot(asset_address(), zero_word()));
    let id: u64 = if next == 0 {
        1
    } else {
        next
    };
    let s = field_slots(id);
    assert forall|i: int, j: int| 0 <= i < j < 10 implies #[trigger] s[i] != #[trigger] s[j] by {}
    law_word_round_trips((id + 1) as u64, 0, sender, 0);
}

/// The sum of the amounts from `i` on.
pub open spec fn sum_from(amounts: Seq<u128>, i: int) -> int
    decreases amounts.len() - i,
{
    if i >= amounts.len() {
        0
    } else {
        amounts[i] + sum_from(amounts, i + 1)
    }
}

/// The balances of different accounts of a list are kept in different slots.
pub open spec fn apart(asset_id: u64, accounts: Seq<Address>) -> bool {
    forall|i: int, j: int|
        0 <= i < j < accounts.len() ==> balance_slot(asset_id, #[trigger] accounts[i])
            != balance_slot(asset_id, #[trigger] accounts[j])
}

/// What an account is paid from the `i`-th payment on.
pub open spec fn received(to: Seq<Address>, amounts: Seq<u128>, account: Address, i: int) -> int
    decreases to.len() - i,
{
    if i >= to.len() {
        0
    } else {
        received(to, amounts, account, i + 1) + if to[i] == account {
            amounts[i] as int
        } else {
            0
        }
    }
}

proof fn lemma_received_bounds(to: Seq<Address>, amounts: Seq<u128>, account: Address, i: int)
    requires
        0 <= i <= to.len(),
        to.len() == amounts.len(),
    ensures
        0 <= received(to, amounts, account, i) <= sum_from(amounts, i),
    decreases to.len() - i,
{
    if i < to.len() {
        lemma_received_bounds(to, amounts, account, i + 1);
    }
}

proof fn lemma_unpaid_receives_nothing(
    to: Seq<Address>,
    amounts: Seq<u128>,
    account: Address,
    i: int,
)
    requires
        0 <= i <= to.len(),
        !to.contains(account),
    ensures
        received(to, amounts, account, i) == 0,
    decreases to.len() - i,
{
    if i < to.len() {
        assert(to[i] != account);
        lemma_unpaid_receives_nothing(to, amounts, account, i + 1);
    }
}

proof fn lemma_slots_differ(asset_id: u64, accounts: Seq<Address>, a: Address, b: Address)
    requires
        apart(asset_id, accounts),
        accounts.contains(a),
        accounts.contains(b),
        a != b,
    ensures
        balance_slot(asset_id, a) != balance_slot(asset_id, b),
{
    let i = accounts.index_of(a);
    let j = accounts.index_of(b);
    assert(accounts[i] == a && accounts[j] == b);
    if i < j {
        assert(balance_slot(asset_id, accounts[i]) != balance_slot(asset_id, accounts[j]));
    } else {
        assert(balance_slot(asset_id, accounts[j]) != balance_slot(asset_id, accounts[i]));
    }
}

/// Every account of a list can take what it is paid from the `i`-th payment on.
pub open spec fn credits_fit(
    w: World,
    asset_id: u64,
    to: Seq<Address>,
    amounts: Seq<u128>,
    i: int,
    accounts: Seq<Address>,
) -> bool {
    forall|a: Address| #[trigger]
        accounts.contains(a) ==> holding(w, asset_id, a) + received(to, amounts, a, i) <= u128::MAX
}

proof fn lemma_pay_all(
    w: World,
    asset_id: u64,
    purse: u128,
    to: Seq<Address>,
    amounts: Seq<u128>,
    i: int,
    accounts: Seq<Address>,
    spare: int,
)
    requires
        0 <= i <= to.len(),
        to.len() == amounts.len(),
        spare >= 0,
        able(w, spare + 25_000 * (to.len() - i)),
        apart(asset_id, accounts),
        forall|j: int| 0 <= j < to.len() ==> accounts.contains(#[trigger] to[j]),
    ensures
        ({
            let (left, after) = pay_all(w, asset_id, purse, to, amounts, i);
            &&& left is Ok <==> purse >= sum_from(amounts, i) && credits_fit(
                w,
                asset_id,
                to,
                amounts,
                i,
                accounts,
            )
            &&& left is Ok ==> {
                &&& left->Ok_0 == purse - sum_from(amounts, i)
                &&& able(after, spare)
                &&& forall|a: Address| #[trigger]
                    accounts.contains(a) ==> holding(after, asset_id, a) == holding(w, asset_id, a)
                        + received(to, amounts, a, i)
            }
        }),
    decreases to.len() - i,
{
    broadcast use group_steps;

    if i < to.len() {
        let a = to[i];
        assert(accounts.contains(a));
        lemma_received_bounds(to, amounts, a, i + 1);
        if purse >= amounts[i] {
            let (balance, w1) = balance_read(w, asset_id, a);
            if balance + amounts[i] <= u128::MAX {
                let w2 = balance_write(w1, asset_id, a, (balance + amounts[i]) as u128);
                let rest = (purse - amounts[i]) as u128;
                assert forall|b: Address| accounts.contains(b) implies #[trigger] holding(
                    w2,
                    asset_id,
                    b,
                ) == holding(w, asset_id, b) + if b == a {
                    amounts[i] as int
                } else {
                    0
                } by {
                    if b != a {
                        lemma_slots_differ(asset_id, accounts, a, b);
                    }
                }
                lemma_pay_all(w2, asset_id, rest, to, amounts, i + 1, accounts, spare);
                if credits_fit(w, asset_id, to, amounts, i, accounts) {
                    assert forall|b: Address| #[trigger] accounts.contains(b) implies holding(
                        w2,
                        asset_id,
                        b,
                    ) + received(to, amounts, b, i + 1) <= u128::MAX by {
                        assert(holding(w, asset_id, b) + received(to, amounts, b, i) <= u128::MAX);
                    }
                }
                if credits_fit(w2, asset_id, to, amounts, i + 1, accounts) {
                    assert forall|b: Address| #[trigger] accounts.contains(b) implies holding(
                        w,
                        asset_id,
                        b,
                    ) + received(to, amounts, b, i) <= u128::MAX by {
                        assert(holding(w2, asset_id, b) + received(to, amounts, b, i + 1)
                            <= u128::MAX);
                    }
                }
            } else {
                assert(holding(w, asset_id, a) + received(to, amounts, a, i) > u128::MAX);
            }
        }
    } else {
        assert forall|b: Address| #[trigger] accounts.contains(b) implies holding(w, asset_id, b)
            + received(to, amounts, b, i) <= u128::MAX by {}
    }
}

proof fn lemma_compliance_all(
    w: World,
    asset_id: u64,
    accounts: Seq<Address>,
    i: int,
    spare: int,
)
    requires
        0 <= i <= accounts.len(),
        spare >= 0,
        able(w, spare + 4200 * (accounts.len() - i)),
        forall|j: int| i <= j < accounts.len() ==> cleared(w, asset_id, #[trigger] accounts[j]),
    ensures
        ({
            let (ok, after) = compliance_read_all(w, asset_id, accounts, i);
            ok && after.slots == w.slots && able(after, spare)
        }),
    decreases accounts.len() - i,
{
    broadcast use group_steps;

    if i < accounts.len() {
        assert(cleared(w, asset_id, accounts[i]));
        let (ok, w1) = compliance_read(w, asset_id, accounts[i]);
        assert(ok && w1.slots == w.slots);
        assert forall|j: int| i + 1 <= j < accounts.len() implies cleared(
            w1,
            asset_id,
            #[trigger] accounts[j],
        ) by {
            assert(cleared(w, asset_id, accounts[j]));
        }
        lemma_compliance_all(w1, asset_id, accounts, i + 1, spare);
    }
}

/// A batch of transfers gives each recipient but the sender what it is paid, and takes the sum of all
/// payments from the sender. It goes through exactly where the sender holds that sum and every
/// balance can take what is paid to it.
pub proof fn law_batch_moves_every_amount(
    w: World,
    asset_id: u64,
    sender: Address,
    to: Seq<Address>,
    amounts: Seq<u128>,
    accounts: Seq<Address>,
)
    requires
        able(w, 30_000 * (to.len() + 1) as int),
        sender != zero_address(),
        to.len() == amounts.len(),
        apart(asset_id, accounts),
        accounts.contains(sender),
        forall|j: int| 0 <= j < to.len() ==> accounts.contains(#[trigger] to[j]),
        cleared(w, asset_id, sender),
        forall|j: int| 0 <= j < to.len() ==> cleared(w, asset_id, #[trigger] to[j]),
    ensures
        ({
            let (o, after) = batch_effect(w, asset_id, sender, to, amounts);
            &&& o is Done <==> holding(w, asset_id, sender) >= sum_from(amounts, 0) && credits_fit(
                w,
                asset_id,
                to,
                amounts,
                0,
                accounts,
            )
            &&& o is Done ==> {
                &&& holding(after, asset_id, sender) == holding(w, asset_id, sender) - sum_from(
                    amounts,
                    0,
                )
                &&& forall|a: Address| #[trigger]
                    accounts.contains(a) && a != sender ==> holding(after, asset_id, a) == holding(
                        w,
                        asset_id,
                        a,
                    ) + received(to, amounts, a, 0)
            }
        }),
{
    broadcast use group_steps;

    let n = to.len() as int;
    let (ok, w1) = compliance_read(w, asset_id, sender);
    assert(ok && w1.slots == w.slots);
    assert forall|j: int| 0 <= j < n implies cleared(w1, asset_id, #[trigger] to[j]) by {
        assert(cleared(w, asset_id, to[j]));
    }
    lemma_compliance_all(w1, asset_id, to, 0, 25_000 * n + 24_200);
    let (all_ok, w2) = compliance_read_all(w1, asset_id, to, 0);
    let (purse, w3) = balance_read(w2, asset_id, sender);
    assert(forall|a: Address| #[trigger] holding(w3, asset_id, a) == holding(w, asset_id, a));
    assert(credits_fit(w3, asset_id, to, amounts, 0, accounts) == credits_fit(
        w,
        asset_id,
        to,
        amounts,
        0,
        accounts,
    )) by {
        assert forall|a: Address| #[trigger] accounts.contains(a) implies holding(w3, asset_id, a)
            == holding(w, asset_id, a) by {}
    }
    lemma_pay_all(w3, asset_id, purse, to, amounts, 0, accounts, 22_100);
    let (left, w4) = pay_all(w3, asset_id, purse, to, amounts, 0);
    if left is Ok {
        let after = balance_write(w4, asset_id, sender, left->Ok_0);
        assert forall|a: Address| #[trigger] accounts.contains(a) && a != sender implies holding(
            after,
            asset_id,
            a,
        ) == holding(w, asset_id, a) + received(to, amounts, a, 0) by {
            lemma_slots_differ(asset_id, accounts, sender, a);
            assert(holding(w4, asset_id, a) == holding(w3, asset_id, a) + received(
                to,
                amounts,
                a,
                0,
            ));
        }
    }
}

/// The sum of `f` over a list of accounts.
pub open spec fn sum_over(f: spec_fn(Address) -> int, accounts: Seq<Address>) -> int
    decreases accounts.len(),
{
    if accounts.len() == 0 {
        0
    } else {
        sum_over(f, accounts.drop_last()) + f(accounts.last())
    }
}

/// What the accounts of a list hold of an asset together.
pub open spec fn total_holding(w: World, asset_id: u64, accounts: Seq<Address>) -> int {
    sum_over(|a: Address| holding(w, asset_id, a) as int, accounts)
}

proof fn lemma_sum_over_add(
    f: spec_fn(Address) -> int,
    g: spec_fn(Address) -> int,
    h: spec_fn(Address) -> int,
    accounts: Seq<Address>,
)
    requires
        forall|a: Address| #[trigger] accounts.contains(a) ==> h(a) == f(a) + g(a),
    ensures
        sum_over(h, accounts) == sum_over(f, accounts) + sum_over(g, accounts),
    decreases accounts.len(),
{
    if accounts.len() > 0 {
        let head = accounts.drop_last();
        assert forall|a: Address| #[trigger] head.contains(a) implies h(a) == f(a) + g(a) by {
            let i = head.index_of(a);
            assert(accounts[i] == a);
            assert(accounts.contains(a));
        }
        lemma_sum_over_add(f, g, h, head);
        assert(accounts.contains(accounts.last()));
    }
}

/// `v` for one account and nothing for any other.
spec fn only(account: Address, v: int) -> spec_fn(Address) -> int {
    |a: Address|
        if a == account {
            v
        } else {
            0
        }
}

/// What each account is paid from the `i`-th payment on.
spec fn payments(to: Seq<Address>, amounts: Seq<u128>, i: int) -> spec_fn(Address) -> int {
    |a: Address| received(to, amounts, a, i)
}

proof fn lemma_sum_over_one(account: Address, v: int, accounts: Seq<Address>)
    requires
        accounts.no_duplicates(),
    ensures
        sum_over(only(account, v), accounts) == if accounts.contains(account) {
            v
        } else {
            0
        },
    decreases accounts.len(),
{
    if accounts.len() > 0 {
        let head = accounts.drop_last();
        lemma_sum_over_one(account, v, head);
        if accounts.contains(account) {
            let i = accounts.index_of(account);
            if i < head.len() {
                assert(head[i] == account);
                assert(accounts.last() != account);
            } else if head.contains(account) {
                let j = head.index_of(account);
                assert(accounts[j] == accounts[i]);
            }
        } else {
            assert(accounts.contains(accounts.last()));
            if head.contains(account) {
                let j = head.index_of(account);
                assert(accounts[j] == account);
            }
        }
    }
}

proof fn lemma_all_received(
    to: Seq<Address>,
    amounts: Seq<u128>,
    i: int,
    accounts: Seq<Address>,
)
    requires
        0 <= i <= to.len(),
        to.len() == amounts.len(),
        accounts.no_duplicates(),
        forall|j: int| 0 <= j < to.len() ==> accounts.contains(#[trigger] to[j]),
    ensures
        sum_over(payments(to, amounts, i), accounts) == sum_from(amounts, i),
    decreases to.len() - i,
{
    let here = payments(to, amounts, i);
    if i < to.len() {
        lemma_all_received(to, amounts, i + 1, accounts);
        let later = payments(to, amounts, i + 1);
        lemma_sum_over_add(later, only(to[i], amounts[i] as int), here, accounts);
        lemma_sum_over_one(to[i], amounts[i] as int, accounts);
        assert(accounts.contains(to[i]));
    } else {
        lemma_sum_over_add(here, here, here, accounts);
    }
}

/// A batch of transfers keeps what all accounts that take part hold together, but for what the sender
/// pays itself: that is taken away.
pub proof fn law_batch_total(
    w: World,
    asset_id: u64,
    sender: Address,
    to: Seq<Address>,
    amounts: Seq<u128>,
    accounts: Seq<Address>,
)
    requires
        able(w, 30_000 * (to.len() + 1) as int),
        to.len() == amounts.len(),
        apart(asset_id, accounts),
        accounts.contains(sender),
        forall|j: int| 0 <= j < to.len() ==> accounts.contains(#[trigger] to[j]),
        batch_effect(w, asset_id, sender, to, amounts).0 is Done,
    ensures
        total_holding(batch_effect(w, asset_id, sender, to, amounts).1, asset_id, accounts)
            == total_holding(w, asset_id, accounts) - received(to, amounts, sender, 0),
        !to.contains(sender) ==> received(to, amounts, sender, 0) == 0,
{
    broadcast use group_steps;

    let after = batch_effect(w, asset_id, sender, to, amounts).1;
    let (ok, w1) = compliance_read(w, asset_id, sender);
    assert(cleared(w, asset_id, sender));
    lemma_cleared_all(w1, asset_id, to, 0);
    assert forall|j: int| 0 <= j < to.len() implies cleared(w, asset_id, #[trigger] to[j]) by {
        assert(cleared(w1, asset_id, to[j]));
    }
    law_batch_moves_every_amount(w, asset_id, sender, to, amounts, accounts);
    assert forall|i: int, j: int| 0 <= i < j < accounts.len() implies accounts[i] != accounts[j] by {
        assert(balance_slot(asset_id, accounts[i]) != balance_slot(asset_id, accounts[j]));
    }
    assert(accounts.no_duplicates());
    lemma_all_received(to, amounts, 0, accounts);
    if !to.contains(sender) {
        lemma_unpaid_receives_nothing(to, amounts, sender, 0);
    }
    let sum = sum_from(amounts, 0) + received(to, amounts, sender, 0);
    lemma_sum_over_one(sender, sum, accounts);
    let before_f = |a: Address| holding(w, asset_id, a) as int;
    let after_f = |a: Address| holding(after, asset_id, a) as int;
    let paid = payments(to, amounts, 0);
    let charged = only(sender, sum);
    let both = |a: Address| holding(w, asset_id, a) + received(to, amounts, a, 0);
    lemma_sum_over_add(before_f, paid, both, accounts);
    lemma_sum_over_add(after_f, charged, both, accounts);
}

pub(crate) proof fn lemma_cleared_all(w: World, asset_id: u64, accounts: Seq<Address>, i: int)
    requires
        0 <= i <= accounts.len(),
        able(w, 4200 * (accounts.len() - i)),
        compliance_read_all(w, asset_id, accounts, i).0,
    ensures
        forall|j: int| i <= j < accounts.len() ==> cleared(w, asset_id, #[trigger] accounts[j]),
    decreases accounts.len() - i,
{
    broadcast use group_steps;

    if i < accounts.len() {
        let (ok, w1) = compliance_read(w, asset_id, accounts[i]);
        assert(cleared(w, asset_id, accounts[i]));
        lemma_cleared_all(w1, asset_id, accounts, i + 1);
        assert forall|j: int| i <= j < accounts.len() implies cleared(
            w,
            asset_id,
            #[trigger] accounts[j],
        ) by {
            if j > i {
                assert(cleared(w1, asset_id, accounts[j]));
            }
        }
    }
}

} // verus!
