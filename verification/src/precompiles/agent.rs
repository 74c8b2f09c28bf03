//! Agent precompile: registered agents that hold balances of their own and pay within limits.

pub mod laws;

use crate::precompiles::abi::{
    address_at, address_word_bytes, addresses_at, amounts_at, decode_address, decode_address_array,
    decode_bytes32, decode_selector, decode_u128, decode_u128_array, decode_u256_usize, decode_u64,
    encode_address, encode_u128, number_word, selector_of, u128_at, u64_at, word_at,
};
use crate::precompiles::asset::{
    apart, balance_read, balance_write, charge_each, holding, load_bal, save_bal,
};
use crate::precompiles::slots::{
    agent_address, agent_balance_slot, agent_slot, asset_address, balance_slot, slot_agent,
    slot_agent_balance,
};
use crate::precompiles::steps::{able, group_steps};
use crate::precompiles::storage::{
    fatal, ok_bytes, ok_empty, out_of_gas, outcome, refused, Fault, Outcome, PrecompileError,
    PrecompileResult, StatefulPrecompile, StorageCtx, StorageProvider, World,
};
use crate::words::{
    address_of, address_to_u256, address_word, u128_to_u256, u256_to_address, u256_to_u128,
    u256_to_u64, u64_of, u64_to_u256, word, zero_address, zero_word, Address, U256,
};
use vstd::prelude::*;

verus! {

/// The native asset.
pub const CALL_ASSET_ID: u64 = 1;

/// What an agent may do: how much per payment, until which block (no limit if zero), and whether
/// it may pay in other assets than the native one.
#[derive(Clone, Copy, Debug, PartialEq, Eq, Structural)]
pub struct AgentPerms {
    pub per_tx_limit: u128,
    pub expires_at: u64,
    pub flags: u8,
}

/// The word that holds permissions: the limit in the first half, the expiry in the next eight
/// bytes, the flags in the last byte.
pub open spec fn packed_perms(p: AgentPerms) -> U256 {
    U256 {
        hi: p.per_tx_limit,
        lo: (p.expires_at * 0x1_0000_0000_0000_0000 + p.flags) as u128,
    }
}

/// The permissions in a word.
pub open spec fn perms_of(w: U256) -> AgentPerms {
    AgentPerms {
        per_tx_limit: w.hi,
        expires_at: (w.lo / 0x1_0000_0000_0000_0000) as u64,
        flags: (w.lo % 0x100) as u8,
    }
}

/// Permissions come back from their word.
pub proof fn law_perms_round_trip(p: AgentPerms)
    ensures
        perms_of(packed_perms(p)) == p,
{
    let lo = p.expires_at * 0x1_0000_0000_0000_0000 + p.flags;
    assert(lo % 0x100 == p.flags);
}

pub fn pack_agent_perms(p: AgentPerms) -> (r: U256)
    ensures
        r == packed_perms(p),
{
    U256 {
        hi: p.per_tx_limit,
        lo: p.expires_at as u128 * 0x1_0000_0000_0000_0000 + p.flags as u128,
    }
}

pub fn unpack_agent_perms(w: U256) -> (r: AgentPerms)
    ensures
        r == perms_of(w),
{
    AgentPerms {
        per_tx_limit: w.hi,
        expires_at: (w.lo / 0x1_0000_0000_0000_0000) as u64,
        flags: (w.lo % 0x100) as u8,
    }
}

pub open spec fn agent_read(w: World, agent_id: u64, field: &str) -> (U256, World) {
    w.read(agent_address(), agent_slot(agent_id, field))
}

pub open spec fn agent_write(w: World, agent_id: u64, field: &str, v: U256) -> World {
    w.write(agent_address(), agent_slot(agent_id, field), v)
}

fn load_agent<P: StorageProvider>(storage: &mut P, agent_id: u64, field: &str) -> (r: U256)
    ensures
        (r, final(storage).world()) == agent_read(old(storage).world(), agent_id, field),
{
    StorageCtx::read(storage, agent_address(), slot_agent(agent_id, field))
}

fn save_agent<P: StorageProvider>(storage: &mut P, agent_id: u64, field: &str, v: U256)
    ensures
        final(storage).world() == agent_write(old(storage).world(), agent_id, field, v),
{
    StorageCtx::write(storage, agent_address(), slot_agent(agent_id, field), v);
}

pub open spec fn purse_read(w: World, agent_id: u64, asset_id: u64) -> (u128, World) {
    let (v, w) = w.read(agent_address(), agent_balance_slot(agent_id, asset_id));
    (v.lo, w)
}

pub open spec fn purse_write(w: World, agent_id: u64, asset_id: u64, amount: u128) -> World {
    w.write(agent_address(), agent_balance_slot(agent_id, asset_id), word(amount))
}

fn load_purse<P: StorageProvider>(storage: &mut P, agent_id: u64, asset_id: u64) -> (r: u128)
    ensures
        (r, final(storage).world()) == purse_read(old(storage).world(), agent_id, asset_id),
{
    u256_to_u128(
        StorageCtx::read(storage, agent_address(), slot_agent_balance(agent_id, asset_id)),
    )
}

fn save_purse<P: StorageProvider>(storage: &mut P, agent_id: u64, asset_id: u64, amount: u128)
    ensures
        final(storage).world() == purse_write(old(storage).world(), agent_id, asset_id, amount),
{
    StorageCtx::write(
        storage,
        agent_address(),
        slot_agent_balance(agent_id, asset_id),
        u128_to_u256(amount),
    );
}

/// Whether the agent exists and belongs to `sender`; if not, why not.
pub open spec fn ownership_read(w: World, agent_id: u64, sender: Address) -> (
    Option<&'static str>,
    World,
) {
    let (first, w) = agent_read(w, agent_id, "owner");
    if first == zero_word() {
        (Some("agent: not found"), w)
    } else {
        let (owner, w) = agent_read(w, agent_id, "owner");
        if address_of(owner) != sender {
            (Some("agent: sender is not owner"), w)
        } else {
            (None, w)
        }
    }
}

fn agent_exists<P: StorageProvider>(storage: &mut P, agent_id: u64) -> (r: bool)
    ensures
        final(storage).world() == agent_read(old(storage).world(), agent_id, "owner").1,
        r == (agent_read(old(storage).world(), agent_id, "owner").0 != zero_word()),
{
    !load_agent(storage, agent_id, "owner").is_zero()
}

fn agent_check_owner<P: StorageProvider>(storage: &mut P, agent_id: u64, sender: Address) -> (r:
    Result<(), PrecompileError>)
    ensures
        final(storage).world() == agent_read(old(storage).world(), agent_id, "owner").1,
        r == if address_of(agent_read(old(storage).world(), agent_id, "owner").0) == sender {
            Ok(())
        } else {
            Err(PrecompileError::Other("agent: sender is not owner"))
        },
{
    let owner = u256_to_address(load_agent(storage, agent_id, "owner"));
    if owner != sender {
        return Err(PrecompileError::Other("agent: sender is not owner"));
    }
    Ok(())
}

fn require_agent<P: StorageProvider>(storage: &mut P, agent_id: u64, sender: Address) -> (r: Result<
    (),
    PrecompileError,
>)
    ensures
        final(storage).world() == ownership_read(old(storage).world(), agent_id, sender).1,
        r == match ownership_read(old(storage).world(), agent_id, sender).0 {
            None => Ok(()),
            Some(reason) => Err(PrecompileError::Other(reason)),
        },
{
    if !agent_exists(storage, agent_id) {
        return Err(PrecompileError::Other("agent: not found"));
    }
    agent_check_owner(storage, agent_id, sender)
}

pub open spec fn register_agent_effect(w: World, input: Seq<u8>, sender: Address) -> (
    Outcome,
    World,
) {
    let (paid, w) = w.charge(50000);
    if !paid {
        (out_of_gas(), w)
    } else if input.len() < 100 {
        (refused("invalid input"), w)
    } else {
        let (count, w) = w.read(agent_address(), zero_word());
        let id = u64_of(count);
        if id == u64::MAX {
            (fatal("agent count overflow"), w)
        } else {
            let w = w.write(agent_address(), zero_word(), word((id + 1) as u128));
            let w = agent_write(w, id, "owner", address_word(sender));
            let w = agent_write(w, id, "pubkey", word_at(input, 68));
            let w = agent_write(w, id, "name", word_at(input, 4));
            let w = agent_write(w, id, "url", word_at(input, 36));
            let w = agent_write(
                w,
                id,
                "perms",
                packed_perms(AgentPerms { per_tx_limit: 1000, expires_at: 0, flags: 1 }),
            );
            let w = agent_write(w, id, "block", word(w.block_number as u128));
            (w.done(Seq::empty()), w)
        }
    }
}

pub open spec fn grant_balance_effect(w: World, input: Seq<u8>, sender: Address) -> (
    Outcome,
    World,
) {
    let (paid, w) = w.charge(30000);
    if !paid {
        (out_of_gas(), w)
    } else if input.len() < 68 {
        (refused("invalid input"), w)
    } else if input.len() < 100 {
        (refused("invalid amount"), w)
    } else {
        let agent_id = u64_at(input, 4);
        let asset_id = u64_at(input, 36);
        let amount = u128_at(input, 68);
        let (problem, w) = ownership_read(w, agent_id, sender);
        match problem {
            Some(reason) => (refused(reason), w),
            None => {
                let (held, w) = balance_read(w, asset_id, sender);
                if held < amount {
                    (refused("agent grant: insufficient balance"), w)
                } else {
                    let w = balance_write(w, asset_id, sender, (held - amount) as u128);
                    let (purse, w) = purse_read(w, agent_id, asset_id);
                    if purse + amount > u128::MAX {
                        (refused("agent grant: balance overflow"), w)
                    } else {
                        let w = purse_write(w, agent_id, asset_id, (purse + amount) as u128);
                        (w.done(Seq::empty()), w)
                    }
                }
            },
        }
    }
}

pub open spec fn revoke_balance_effect(w: World, input: Seq<u8>, sender: Address) -> (
    Outcome,
    World,
) {
    let (paid, w) = w.charge(20000);
    if !paid {
        (out_of_gas(), w)
    } else if input.len() < 36 {
        (refused("invalid input"), w)
    } else if input.len() < 68 {
        (refused("invalid assetId"), w)
    } else {
        let agent_id = u64_at(input, 4);
        let (problem, w) = ownership_read(w, agent_id, sender);
        match problem {
            Some(reason) => (refused(reason), w),
            None => {
                let w = purse_write(w, agent_id, u64_at(input, 36), 0);
                (w.done(Seq::empty()), w)
            },
        }
    }
}

/// Whether permissions have run out at block `now`.
pub open spec fn perms_expired(p: AgentPerms, now: u64) -> bool {
    p.expires_at != 0 && now > p.expires_at
}

/// Whether permissions cover payments in an asset.
pub open spec fn asset_allowed(p: AgentPerms, asset_id: u64) -> bool {
    asset_id == CALL_ASSET_ID || p.flags % 2 == 1
}

pub open spec fn pay_effect(w: World, input: Seq<u8>, sender: Address) -> (Outcome, World) {
    let (paid, w) = w.charge(30000);
    if !paid {
        (out_of_gas(), w)
    } else if input.len() < 132 {
        (refused("invalid input"), w)
    } else {
        let agent_id = u64_at(input, 4);
        let asset_id = u64_at(input, 36);
        let to = address_at(input, 68);
        let amount = u128_at(input, 100);
        let (problem, w) = ownership_read(w, agent_id, sender);
        match problem {
            Some(reason) => (refused(reason), w),
            None => {
                let (packed, w) = agent_read(w, agent_id, "perms");
                let perms = perms_of(packed);
                if perms_expired(perms, w.block_number) {
                    (refused("agent: permissions expired"), w)
                } else if amount > perms.per_tx_limit {
                    (
                        Outcome::Failed(Fault::OverLimit { amount, limit: perms.per_tx_limit }),
                        w,
                    )
                } else if !asset_allowed(perms, asset_id) {
                    (refused("agent: asset not allowed"), w)
                } else {
                    let (purse, w) = purse_read(w, agent_id, asset_id);
                    if purse < amount {
                        (refused("agent pay: insufficient balance"), w)
                    } else {
                        let w = purse_write(w, agent_id, asset_id, (purse - amount) as u128);
                        let (held, w) = balance_read(w, asset_id, to);
                        if held + amount > u128::MAX {
                            (refused("agent pay: balance overflow"), w)
                        } else {
                            let w = balance_write(w, asset_id, to, (held + amount) as u128);
                            (w.done(Seq::empty()), w)
                        }
                    }
                }
            },
        }
    }
}

/// The sum of amounts.
pub open spec fn total(amounts: Seq<u128>) -> int
    decreases amounts.len(),
{
    if amounts.len() == 0 {
        0
    } else {
        total(amounts.drop_last()) + amounts.last()
    }
}

/// Crediting the recipients from the `i`-th on; the failure that stopped it, if any.
pub open spec fn credit_all(
    w: World,
    asset_id: u64,
    limit: u128,
    to: Seq<Address>,
    amounts: Seq<u128>,
    i: int,
) -> (Option<Fault>, World)
    decreases to.len() - i,
{
    if i >= to.len() {
        (None, w)
    } else if amounts[i] > limit {
        (Some(Fault::OverLimit { amount: amounts[i], limit }), w)
    } else {
        let (held, w) = balance_read(w, asset_id, to[i]);
        if held + amounts[i] > u128::MAX {
            (Some(Fault::Other("agent batch pay: balance overflow")), w)
        } else {
            let w = balance_write(w, asset_id, to[i], (held + amounts[i]) as u128);
            credit_all(w, asset_id, limit, to, amounts, i + 1)
        }
    }
}

pub open spec fn batch_pay_effect(w: World, input: Seq<u8>, sender: Address) -> (Outcome, World) {
    if input.len() < 132 {
        (refused("invalid input"), w)
    } else {
        let agent_id = u64_at(input, 4);
        let (problem, w) = ownership_read(w, agent_id, sender);
        match problem {
            Some(reason) => (refused(reason), w),
            None => match (addresses_at(input, 68), amounts_at(input, 100)) {
                (None, _) => (refused("invalid to array"), w),
                (_, None) => (refused("invalid amounts array"), w),
                (Some(to), Some(amounts)) => if to.len() != amounts.len() {
                    (refused("array length mismatch"), w)
                } else if to.len() == 0 {
                    (refused("empty batch"), w)
                } else {
                    let (paid, w) = w.charge((30000 * to.len()) as int);
                    if !paid {
                        (out_of_gas(), w)
                    } else {
                        pay_batch(w, agent_id, u64_at(input, 36), to, amounts)
                    }
                },
            },
        }
    }
}

/// A batch of payments out of an agent's purse, once its gas is paid.
pub open spec fn pay_batch(
    w: World,
    agent_id: u64,
    asset_id: u64,
    to: Seq<Address>,
    amounts: Seq<u128>,
) -> (Outcome, World) {
    let (packed, w) = agent_read(w, agent_id, "perms");
    let perms = perms_of(packed);
    if perms_expired(perms, w.block_number) {
        (refused("agent: permissions expired"), w)
    } else if !asset_allowed(perms, asset_id) {
        (refused("agent: asset not allowed"), w)
    } else {
        let (purse, w) = purse_read(w, agent_id, asset_id);
        if total(amounts) > u128::MAX {
            (fatal("batch total overflow"), w)
        } else if purse < total(amounts) {
            (refused("agent batch pay: insufficient balance"), w)
        } else {
            let w = purse_write(w, agent_id, asset_id, (purse - total(amounts)) as u128);
            let (failure, w) = credit_all(w, asset_id, perms.per_tx_limit, to, amounts, 0);
            match failure {
                Some(e) => (Outcome::Failed(e), w),
                None => (w.done(Seq::empty()), w),
            }
        }
    }
}

/// What is wrong with the target address of a bridge deposit, if anything.
pub open spec fn target_problem(input: Seq<u8>) -> Option<&'static str> {
    let head = 4 + u64_at(input, 132);
    if input.len() < head + 32 {
        Some("invalid targetAddress")
    } else if input.len() < head + 32 + u64_at(input, head) {
        Some("targetAddress data too short")
    } else {
        None
    }
}

pub open spec fn bridge_deposit_effect(w: World, input: Seq<u8>, sender: Address) -> (
    Outcome,
    World,
) {
    let (paid, w) = w.charge(50000);
    if !paid {
        (out_of_gas(), w)
    } else if input.len() < 164 {
        (refused("invalid input"), w)
    } else {
        match target_problem(input) {
            Some(reason) => (refused(reason), w),
            None => {
                let agent_id = u64_at(input, 4);
                let (problem, w) = ownership_read(w, agent_id, sender);
                match problem {
                    Some(reason) => (refused(reason), w),
                    None => withdraw_to_bridge(
                        w,
                        agent_id,
                        u64_at(input, 36),
                        u128_at(input, 68),
                        sender,
                    ),
                }
            },
        }
    }
}

/// Taking a bridge deposit out of the agent's purse and out of its owner's balance.
pub open spec fn withdraw_to_bridge(
    w: World,
    agent_id: u64,
    asset_id: u64,
    amount: u128,
    sender: Address,
) -> (Outcome, World) {
    let (packed, w) = agent_read(w, agent_id, "perms");
    let perms = perms_of(packed);
    if perms_expired(perms, w.block_number) {
        (refused("agent: permissions expired"), w)
    } else if !asset_allowed(perms, asset_id) {
        (refused("agent: asset not allowed"), w)
    } else {
        let (purse, w) = purse_read(w, agent_id, asset_id);
        if purse < amount {
            (refused("agent bridge deposit: insufficient agent balance"), w)
        } else {
            let w = purse_write(w, agent_id, asset_id, (purse - amount) as u128);
            let (held, w) = balance_read(w, asset_id, sender);
            if held < amount {
                (refused("agent bridge deposit: insufficient sender balance"), w)
            } else {
                let w = balance_write(w, asset_id, sender, (held - amount) as u128);
                (w.done(Seq::empty()), w)
            }
        }
    }
}

pub open spec fn revoke_agent_effect(w: World, input: Seq<u8>, sender: Address) -> (
    Outcome,
    World,
) {
    let (paid, w) = w.charge(20000);
    if !paid {
        (out_of_gas(), w)
    } else if input.len() < 12 {
        (refused("invalid input"), w)
    } else if input.len() < 36 {
        (refused("invalid agentId"), w)
    } else {
        let id = u64_at(input, 4);
        let (problem, w) = ownership_read(w, id, sender);
        match problem {
            Some(reason) => (refused(reason), w),
            None => {
                let w = agent_write(w, id, "owner", zero_word());
                let w = agent_write(w, id, "pubkey", zero_word());
                let w = agent_write(w, id, "name", zero_word());
                let w = agent_write(w, id, "url", zero_word());
                let w = agent_write(w, id, "perms", zero_word());
                let w = agent_write(w, id, "block", zero_word());
                (w.done(Seq::empty()), w)
            },
        }
    }
}

pub open spec fn get_agent_owner_effect(w: World, input: Seq<u8>) -> (Outcome, World) {
    let (paid, w) = w.charge(2000);
    if !paid {
        (out_of_gas(), w)
    } else if input.len() < 12 {
        (refused("invalid input"), w)
    } else if input.len() < 36 {
        (refused("invalid agentId"), w)
    } else {
        let (owner, w) = agent_read(w, u64_at(input, 4), "owner");
        (w.done(address_word_bytes(address_of(owner))), w)
    }
}

pub open spec fn get_agent_balance_effect(w: World, input: Seq<u8>) -> (Outcome, World) {
    let (paid, w) = w.charge(2000);
    if !paid {
        (out_of_gas(), w)
    } else if input.len() < 36 {
        (refused("invalid input"), w)
    } else if input.len() < 68 {
        (refused("invalid assetId"), w)
    } else {
        let (purse, w) = purse_read(w, u64_at(input, 4), u64_at(input, 36));
        (w.done(number_word(purse as nat, 16)), w)
    }
}

/// Handing out a field of an agent as it is stored.
pub open spec fn get_agent_field_effect(w: World, input: Seq<u8>, field: &str) -> (
    Outcome,
    World,
) {
    let (paid, w) = w.charge(2000);
    if !paid {
        (out_of_gas(), w)
    } else if input.len() < 12 {
        (refused("invalid input"), w)
    } else if input.len() < 36 {
        (refused("invalid agentId"), w)
    } else {
        let (v, w) = agent_read(w, u64_at(input, 4), field);
        (w.done(v.bytes()), w)
    }
}

/// The agent precompile.
#[derive(Clone, Copy, Debug)]
pub struct AgentPrecompile;

impl AgentPrecompile {
    pub fn register_agent<P: StorageProvider>(
        &self,
        storage: &mut P,
        input: &[u8],
        msg_sender: Address,
    ) -> (r: PrecompileResult)
        ensures
            (outcome(r), final(storage).world()) == register_agent_effect(
                old(storage).world(),
                input@,
                msg_sender,
            ),
    {
        StorageCtx::deduct_gas(storage, 50000).ok_or(PrecompileError::OutOfGas)?;
        if input.len() < 100 {
            return Err(PrecompileError::Other("invalid input"));
        }
        let name = decode_bytes32(input, 4).ok_or(PrecompileError::Other("invalid name"))?;
        let url = decode_bytes32(input, 36).ok_or(PrecompileError::Other("invalid url"))?;
        let pubkey_hash = decode_bytes32(input, 68).ok_or(
            PrecompileError::Other("invalid pubkeyHash"),
        )?;
        let agent_id: u64 = u256_to_u64(StorageCtx::read(storage, agent_address(), zero_word()));
        let count: u64 = agent_id.checked_add(1).ok_or(
            PrecompileError::Fatal("agent count overflow"),
        )?;
        StorageCtx::write(storage, agent_address(), zero_word(), u64_to_u256(count));
        save_agent(storage, agent_id, "owner", address_to_u256(msg_sender));
        save_agent(storage, agent_id, "pubkey", pubkey_hash);
        save_agent(storage, agent_id, "name", name);
        save_agent(storage, agent_id, "url", url);
        save_agent(
            storage,
            agent_id,
            "perms",
            pack_agent_perms(AgentPerms { per_tx_limit: 1000, expires_at: 0, flags: 1 }),
        );
        let block_number: u64 = StorageCtx::block_number(storage);
        save_agent(storage, agent_id, "block", u64_to_u256(block_number));
        ok_empty(storage)
    }

    pub fn grant_balance<P: StorageProvider>(
        &self,
        storage: &mut P,
        input: &[u8],
        msg_sender: Address,
    ) -> (r: PrecompileResult)
        ensures
            (outcome(r), final(storage).world()) == grant_balance_effect(
                old(storage).world(),
                input@,
                msg_sender,
            ),
    {
        StorageCtx::deduct_gas(storage, 30000).ok_or(PrecompileError::OutOfGas)?;
        if input.len() < 68 {
            return Err(PrecompileError::Other("invalid input"));
        }
        let agent_id: u64 = decode_u64(input, 4).ok_or(PrecompileError::Other("invalid agentId"))?;
        let asset_id: u64 = decode_u64(input, 36).ok_or(PrecompileError::Other("invalid assetId"))?;
        let amount: u128 = decode_u128(input, 68).ok_or(PrecompileError::Other("invalid amount"))?;
        require_agent(storage, agent_id, msg_sender)?;
        let held: u128 = load_bal(storage, asset_id, msg_sender).checked_sub(amount).ok_or(
            PrecompileError::Other("agent grant: insufficient balance"),
        )?;
        save_bal(storage, asset_id, msg_sender, held);
        let purse: u128 = load_purse(storage, agent_id, asset_id).checked_add(amount).ok_or(
            PrecompileError::Other("agent grant: balance overflow"),
        )?;
        save_purse(storage, agent_id, asset_id, purse);
        ok_empty(storage)
    }

    pub fn revoke_balance<P: StorageProvider>(
        &self,
        storage: &mut P,
        input: &[u8],
        msg_sender: Address,
    ) -> (r: PrecompileResult)
        ensures
            (outcome(r), final(storage).world()) == revoke_balance_effect(
                old(storage).world(),
                input@,
                msg_sender,
            ),
    {
        StorageCtx::deduct_gas(storage, 20000).ok_or(PrecompileError::OutOfGas)?;
        if input.len() < 36 {
            return Err(PrecompileError::Other("invalid input"));
        }
        let agent_id: u64 = decode_u64(input, 4).ok_or(PrecompileError::Other("invalid agentId"))?;
        let asset_id: u64 = decode_u64(input, 36).ok_or(PrecompileError::Other("invalid assetId"))?;
        require_agent(storage, agent_id, msg_sender)?;
        save_purse(storage, agent_id, asset_id, 0);
        ok_empty(storage)
    }

    pub fn pay<P: StorageProvider>(
        &self,
        storage: &mut P,
        input: &[u8],
        msg_sender: Address,
    ) -> (r: PrecompileResult)
        ensures
            (outcome(r), final(storage).world()) == pay_effect(
                old(storage).world(),
                input@,
                msg_sender,
            ),
    {
        StorageCtx::deduct_gas(storage, 30000).ok_or(PrecompileError::OutOfGas)?;
        if input.len() < 132 {
            return Err(PrecompileError::Other("invalid input"));
        }
        let agent_id: u64 = decode_u64(input, 4).ok_or(PrecompileError::Other("invalid agentId"))?;
        let asset_id: u64 = decode_u64(input, 36).ok_or(PrecompileError::Other("invalid assetId"))?;
        let to = decode_address(input, 68).ok_or(PrecompileError::Other("invalid to"))?;
        let amount: u128 = decode_u128(input, 100).ok_or(PrecompileError::Other("invalid amount"))?;
        require_agent(storage, agent_id, msg_sender)?;
        let perms = unpack_agent_perms(load_agent(storage, agent_id, "perms"));
        let now: u64 = StorageCtx::block_number(storage);
        if perms.expires_at != 0 && now > perms.expires_at {
            return Err(PrecompileError::Other("agent: permissions expired"));
        }
        if amount > perms.per_tx_limit {
            return Err(PrecompileError::OverLimit { amount, limit: perms.per_tx_limit });
        }
        if asset_id != CALL_ASSET_ID && perms.flags % 2 == 0 {
            return Err(PrecompileError::Other("agent: asset not allowed"));
        }
        let purse: u128 = load_purse(storage, agent_id, asset_id).checked_sub(amount).ok_or(
            PrecompileError::Other("agent pay: insufficient balance"),
        )?;
        save_purse(storage, agent_id, asset_id, purse);
        let held: u128 = load_bal(storage, asset_id, to).checked_add(amount).ok_or(
            PrecompileError::Other("agent pay: balance overflow"),
        )?;
        save_bal(storage, asset_id, to, held);
        ok_empty(storage)
    }

    pub fn batch_pay<P: StorageProvider>(
        &self,
        storage: &mut P,
        input: &[u8],
        msg_sender: Address,
    ) -> (r: PrecompileResult)
        ensures
            (outcome(r), final(storage).world()) == batch_pay_effect(
                old(storage).world(),
                input@,
                msg_sender,
            ),
    {
        if input.len() < 132 {
            return Err(PrecompileError::Other("invalid input"));
        }
        let agent_id: u64 = decode_u64(input, 4).ok_or(PrecompileError::Other("invalid agentId"))?;
        let asset_id: u64 = decode_u64(input, 36).ok_or(PrecompileError::Other("invalid assetId"))?;
        require_agent(storage, agent_id, msg_sender)?;
        let to = decode_address_array(input, 68).ok_or(PrecompileError::Other("invalid to array"))?;
        let amounts = decode_u128_array(input, 100).ok_or(
            PrecompileError::Other("invalid amounts array"),
        )?;
        if to.len() != amounts.len() {
            return Err(PrecompileError::Other("array length mismatch"));
        }
        if to.len() == 0 {
            return Err(PrecompileError::Other("empty batch"));
        }
        charge_each(storage, 30000, to.len())?;
        AgentPrecompile::run_batch(storage, agent_id, asset_id, &to, &amounts)
    }

    fn run_batch<P: StorageProvider>(
        storage: &mut P,
        agent_id: u64,
        asset_id: u64,
        to: &Vec<Address>,
        amounts: &Vec<u128>,
    ) -> (r: PrecompileResult)
        requires
            to@.len() == amounts@.len(),
        ensures
            (outcome(r), final(storage).world()) == pay_batch(
                old(storage).world(),
                agent_id,
                asset_id,
                to@,
                amounts@,
            ),
    {
        let perms = unpack_agent_perms(load_agent(storage, agent_id, "perms"));
        let now: u64 = StorageCtx::block_number(storage);
        if perms.expires_at != 0 && now > perms.expires_at {
            return Err(PrecompileError::Other("agent: permissions expired"));
        }
        if asset_id != CALL_ASSET_ID && perms.flags % 2 == 0 {
            return Err(PrecompileError::Other("agent: asset not allowed"));
        }
        let held: u128 = load_purse(storage, agent_id, asset_id);
        let sum: u128 = sum_amounts(amounts).ok_or(
            PrecompileError::Fatal("batch total overflow"),
        )?;
        let purse: u128 = held.checked_sub(sum).ok_or(
            PrecompileError::Other("agent batch pay: insufficient balance"),
        )?;
        save_purse(storage, agent_id, asset_id, purse);
        credit_each(storage, asset_id, perms.per_tx_limit, to, amounts)?;
        ok_empty(storage)
    }

    pub fn bridge_deposit<P: StorageProvider>(
        &self,
        storage: &mut P,
        input: &[u8],
        msg_sender: Address,
    ) -> (r: PrecompileResult)
        ensures
            (outcome(r), final(storage).world()) == bridge_deposit_effect(
                old(storage).world(),
                input@,
                msg_sender,
            ),
    {
        StorageCtx::deduct_gas(storage, 50000).ok_or(PrecompileError::OutOfGas)?;
        if input.len() < 164 {
            return Err(PrecompileError::Other("invalid input"));
        }
        let agent_id: u64 = decode_u64(input, 4).ok_or(PrecompileError::Other("invalid agentId"))?;
        let asset_id: u64 = decode_u64(input, 36).ok_or(PrecompileError::Other("invalid assetId"))?;
        let amount: u128 = decode_u128(input, 68).ok_or(PrecompileError::Other("invalid amount"))?;
        check_target(input)?;
        require_agent(storage, agent_id, msg_sender)?;
        AgentPrecompile::take_for_bridge(storage, agent_id, asset_id, amount, msg_sender)
    }

    fn take_for_bridge<P: StorageProvider>(
        storage: &mut P,
        agent_id: u64,
        asset_id: u64,
        amount: u128,
        sender: Address,
    ) -> (r: PrecompileResult)
        ensures
            (outcome(r), final(storage).world()) == withdraw_to_bridge(
                old(storage).world(),
                agent_id,
                asset_id,
                amount,
                sender,
            ),
    {
        let perms = unpack_agent_perms(load_agent(storage, agent_id, "perms"));
        let now: u64 = StorageCtx::block_number(storage);
        if perms.expires_at != 0 && now > perms.expires_at {
            return Err(PrecompileError::Other("agent: permissions expired"));
        }
        if asset_id != CALL_ASSET_ID && perms.flags % 2 == 0 {
            return Err(PrecompileError::Other("agent: asset not allowed"));
        }
        let purse: u128 = load_purse(storage, agent_id, asset_id).checked_sub(amount).ok_or(
            PrecompileError::Other("agent bridge deposit: insufficient agent balance"),
        )?;
        save_purse(storage, agent_id, asset_id, purse);
        let held: u128 = load_bal(storage, asset_id, sender).checked_sub(amount).ok_or(
            PrecompileError::Other("agent bridge deposit: insufficient sender balance"),
        )?;
        save_bal(storage, asset_id, sender, held);
        ok_empty(storage)
    }

    pub fn revoke_agent<P: StorageProvider>(
        &self,
        storage: &mut P,
        input: &[u8],
        msg_sender: Address,
    ) -> (r: PrecompileResult)
        ensures
            (outcome(r), final(storage).world()) == revoke_agent_effect(
                old(storage).world(),
                input@,
                msg_sender,
            ),
    {
        StorageCtx::deduct_gas(storage, 20000).ok_or(PrecompileError::OutOfGas)?;
        if input.len() < 12 {
            return Err(PrecompileError::Other("invalid input"));
        }
        let agent_id: u64 = decode_u64(input, 4).ok_or(PrecompileError::Other("invalid agentId"))?;
        require_agent(storage, agent_id, msg_sender)?;
        save_agent(storage, agent_id, "owner", zero_word());
        save_agent(storage, agent_id, "pubkey", zero_word());
        save_agent(storage, agent_id, "name", zero_word());
        save_agent(storage, agent_id, "url", zero_word());
        save_agent(storage, agent_id, "perms", zero_word());
        save_agent(storage, agent_id, "block", zero_word());
        ok_empty(storage)
    }

    pub fn get_agent_owner<P: StorageProvider>(&self, storage: &mut P, input: &[u8]) -> (r:
        PrecompileResult)
        ensures
            (outcome(r), final(storage).world()) == get_agent_owner_effect(
                old(storage).world(),
                input@,
            ),
    {
        StorageCtx::deduct_gas(storage, 2000).ok_or(PrecompileError::OutOfGas)?;
        if input.len() < 12 {
            return Err(PrecompileError::Other("invalid input"));
        }
        let agent_id: u64 = decode_u64(input, 4).ok_or(PrecompileError::Other("invalid agentId"))?;
        let owner = u256_to_address(load_agent(storage, agent_id, "owner"));
        ok_bytes(storage, encode_address(owner))
    }

    pub fn get_agent_balance<P: StorageProvider>(&self, storage: &mut P, input: &[u8]) -> (r:
        PrecompileResult)
        ensures
            (outcome(r), final(storage).world()) == get_agent_balance_effect(
                old(storage).world(),
                input@,
            ),
    {
        StorageCtx::deduct_gas(storage, 2000).ok_or(PrecompileError::OutOfGas)?;
        if input.len() < 36 {
            return Err(PrecompileError::Other("invalid input"));
        }
        let agent_id: u64 = decode_u64(input, 4).ok_or(PrecompileError::Other("invalid agentId"))?;
        let asset_id: u64 = decode_u64(input, 36).ok_or(PrecompileError::Other("invalid assetId"))?;
        let balance: u128 = load_purse(storage, agent_id, asset_id);
        ok_bytes(storage, encode_u128(balance))
    }

    fn get_agent_field<P: StorageProvider>(storage: &mut P, input: &[u8], field: &str) -> (r:
        PrecompileResult)
        ensures
            (outcome(r), final(storage).world()) == get_agent_field_effect(
                old(storage).world(),
                input@,
                field,
            ),
    {
        StorageCtx::deduct_gas(storage, 2000).ok_or(PrecompileError::OutOfGas)?;
        if input.len() < 12 {
            return Err(PrecompileError::Other("invalid input"));
        }
        let agent_id: u64 = decode_u64(input, 4).ok_or(PrecompileError::Other("invalid agentId"))?;
        let v = load_agent(storage, agent_id, field);
        ok_bytes(storage, v.to_be_bytes())
    }

    pub fn get_agent_name<P: StorageProvider>(&self, storage: &mut P, input: &[u8]) -> (r:
        PrecompileResult)
        ensures
            (outcome(r), final(storage).world()) == get_agent_field_effect(
                old(storage).world(),
                input@,
                "name",
            ),
    {
        AgentPrecompile::get_agent_field(storage, input, "name")
    }

    pub fn get_agent_url<P: StorageProvider>(&self, storage: &mut P, input: &[u8]) -> (r:
        PrecompileResult)
        ensures
            (outcome(r), final(storage).world()) == get_agent_field_effect(
                old(storage).world(),
                input@,
                "url",
            ),
    {
        AgentPrecompile::get_agent_field(storage, input, "url")
    }

    pub fn get_agent_perms<P: StorageProvider>(&self, storage: &mut P, input: &[u8]) -> (r:
        PrecompileResult)
        ensures
            (outcome(r), final(storage).world()) == get_agent_field_effect(
                old(storage).world(),
                input@,
                "perms",
            ),
    {
        AgentPrecompile::get_agent_field(storage, input, "perms")
    }
}

fn check_target(input: &[u8]) -> (r: Result<(), PrecompileError>)
    requires
        input@.len() >= 164,
    ensures
        r == match target_problem(input@) {
            None => Ok(()),
            Some(reason) => Err(PrecompileError::Other(reason)),
        },
{
    let offset: u64 = decode_u256_usize(input, 132).ok_or(
        PrecompileError::Other("invalid targetAddress offset"),
    )?;
    let size: u128 = input.len() as u128;
    let head: u128 = 4 + offset as u128;
    if size < head + 32 {
        return Err(PrecompileError::Other("invalid targetAddress"));
    }
    let len: u64 = decode_u256_usize(input, head as usize).ok_or(
        PrecompileError::Other("invalid targetAddress length"),
    )?;
    if size < head + 32 + len as u128 {
        return Err(PrecompileError::Other("targetAddress data too short"));
    }
    Ok(())
}

proof fn lemma_total_prefix(amounts: Seq<u128>, i: int)
    requires
        0 <= i <= amounts.len(),
    ensures
        total(amounts.subrange(0, i)) <= total(amounts),
    decreases amounts.len() - i,
{
    if i < amounts.len() {
        lemma_total_prefix(amounts, i + 1);
        assert(amounts.subrange(0, i + 1).drop_last() =~= amounts.subrange(0, i));
    } else {
        assert(amounts.subrange(0, i) =~= amounts);
    }
}

/// The sum of amounts, if it fits.
pub fn sum_amounts(amounts: &Vec<u128>) -> (r: Option<u128>)
    ensures
        match r {
            Some(s) => s == total(amounts@),
            None => total(amounts@) > u128::MAX,
        },
{
    let mut sum: u128 = 0;
    let mut i: usize = 0;
    while i < amounts.len()
        invariant
            i <= amounts@.len(),
            sum == total(amounts@.subrange(0, i as int)),
        decreases amounts@.len() - i,
    {
        proof {
            assert(amounts@.subrange(0, i + 1).drop_last() =~= amounts@.subrange(0, i as int));
            lemma_total_prefix(amounts@, i + 1);
        }
        match sum.checked_add(amounts[i]) {
            Some(s) => {
                sum = s;
            },
            None => {
                return None;
            },
        }
        i += 1;
    }
    proof {
        assert(amounts@.subrange(0, amounts@.len() as int) =~= amounts@);
    }
    Some(sum)
}

fn credit_each<P: StorageProvider>(
    storage: &mut P,
    asset_id: u64,
    limit: u128,
    to: &Vec<Address>,
    amounts: &Vec<u128>,
) -> (r: Result<(), PrecompileError>)
    requires
        to@.len() == amounts@.len(),
    ensures
        ({
            let (failure, w) = credit_all(
                old(storage).world(),
                asset_id,
                limit,
                to@,
                amounts@,
                0,
            );
            &&& final(storage).world() == w
            &&& match r {
                Ok(_) => failure is None,
                Err(e) => failure == Some(e@),
            }
        }),
{
    let mut i: usize = 0;
    while i < to.len()
        invariant
            i <= to@.len(),
            to@.len() == amounts@.len(),
            credit_all(storage.world(), asset_id, limit, to@, amounts@, i as int) == credit_all(
                old(storage).world(),
                asset_id,
                limit,
                to@,
                amounts@,
                0,
            ),
        decreases to@.len() - i,
    {
        let amount: u128 = amounts[i];
        if amount > limit {
            return Err(PrecompileError::OverLimit { amount, limit });
        }
        let held: u128 = load_bal(storage, asset_id, to[i]).checked_add(amount).ok_or(
            PrecompileError::Other("agent batch pay: balance overflow"),
        )?;
        save_bal(storage, asset_id, to[i], held);
        i += 1;
    }
    Ok(())
}

/// What a call of the agent precompile comes to.
pub open spec fn agent_effect(w: World, calldata: Seq<u8>, sender: Address) -> (Outcome, World) {
    if calldata.len() < 4 {
        (refused("too short"), w)
    } else {
        match selector_of(calldata) {
            0x9f32a135 => register_agent_effect(w, calldata, sender),
            0x80ecf9d4 => grant_balance_effect(w, calldata, sender),
            0x1946b415 => revoke_balance_effect(w, calldata, sender),
            0xe699cef8 => pay_effect(w, calldata, sender),
            0xa0c290b9 => batch_pay_effect(w, calldata, sender),
            0xa72c6932 => bridge_deposit_effect(w, calldata, sender),
            0x88311f9c => revoke_agent_effect(w, calldata, sender),
            0x6b2b421b => get_agent_owner_effect(w, calldata),
            0x4b2bd388 => get_agent_balance_effect(w, calldata),
            0x5304a7bf => get_agent_field_effect(w, calldata, "name"),
            0x2b051ae0 => get_agent_field_effect(w, calldata, "url"),
            0x234a666d => get_agent_field_effect(w, calldata, "perms"),
            _ => (refused("unknown selector"), w),
        }
    }
}

impl StatefulPrecompile for AgentPrecompile {
    open spec fn effect(&self, w: World, calldata: Seq<u8>, sender: Address) -> (Outcome, World) {
        agent_effect(w, calldata, sender)
    }

    open spec fn ready(&self) -> bool {
        true
    }

    fn call<P: StorageProvider>(
        &mut self,
        storage: &mut P,
        calldata: &[u8],
        msg_sender: Address,
    ) -> (r: PrecompileResult) {
        if calldata.len() < 4 {
            return Err(PrecompileError::Other("too short"));
        }
        match decode_selector(calldata) {
            0x9f32a135 => self.register_agent(storage, calldata, msg_sender),
            0x80ecf9d4 => self.grant_balance(storage, calldata, msg_sender),
            0x1946b415 => self.revoke_balance(storage, calldata, msg_sender),
            0xe699cef8 => self.pay(storage, calldata, msg_sender),
            0xa0c290b9 => self.batch_pay(storage, calldata, msg_sender),
            0xa72c6932 => self.bridge_deposit(storage, calldata, msg_sender),
            0x88311f9c => self.revoke_agent(storage, calldata, msg_sender),
            0x6b2b421b => self.get_agent_owner(storage, calldata),
            0x4b2bd388 => self.get_agent_balance(storage, calldata),
            0x5304a7bf => self.get_agent_name(storage, calldata),
            0x2b051ae0 => self.get_agent_url(storage, calldata),
            0x234a666d => self.get_agent_perms(storage, calldata),
            _ => Err(PrecompileError::Other("unknown selector")),
        }
    }
}

/// What an agent may spend of an asset.
pub open spec fn purse(w: World, agent_id: u64, asset_id: u64) -> u128 {
    w.slot(agent_address(), agent_balance_slot(agent_id, asset_id)).lo
}

/// The field of an agent.
pub open spec fn agent_field(w: World, agent_id: u64, name: &str) -> U256 {
    w.slot(agent_address(), agent_slot(agent_id, name))
}

/// Whether an account owns an agent, by what is on record.
pub open spec fn owns(w: World, agent_id: u64, account: Address) -> bool {
    agent_field(w, agent_id, "owner") != zero_word() && address_of(
        agent_field(w, agent_id, "owner"),
    ) == account
}

/// A grant moves the amount from the owner to the agent, where the owner holds it.
pub proof fn law_grant_moves_amount(w: World, input: Seq<u8>, sender: Address)
    requires
        able(w, 100_000),
        input.len() >= 100,
        owns(w, u64_at(input, 4), sender),
        holding(w, u64_at(input, 36), sender) >= u128_at(input, 68),
        purse(w, u64_at(input, 4), u64_at(input, 36)) + u128_at(input, 68) <= u128::MAX,
    ensures
        ({
            let agent_id = u64_at(input, 4);
            let asset_id = u64_at(input, 36);
            let amount = u128_at(input, 68);
            let (o, after) = grant_balance_effect(w, input, sender);
            &&& o is Done
            &&& holding(after, asset_id, sender) == holding(w, asset_id, sender) - amount
            &&& purse(after, agent_id, asset_id) == purse(w, agent_id, asset_id) + amount
        }),
{
    broadcast use group_steps;

}

/// A payment of an agent moves the amount from its purse to the recipient. It is refused where the
/// permissions have run out, where it is over the limit, where they do not cover the asset, and
/// where the purse does not hold it; a refused payment changes nothing.
pub proof fn law_pay_within_permissions(w: World, input: Seq<u8>, sender: Address)
    requires
        able(w, 100_000),
        input.len() >= 132,
        owns(w, u64_at(input, 4), sender),
        holding(w, u64_at(input, 36), address_at(input, 68)) + u128_at(input, 100) <= u128::MAX,
    ensures
        ({
            let agent_id = u64_at(input, 4);
            let asset_id = u64_at(input, 36);
            let to = address_at(input, 68);
            let amount = u128_at(input, 100);
            let perms = perms_of(agent_field(w, agent_id, "perms"));
            let (o, after) = pay_effect(w, input, sender);
            let permitted = !perms_expired(perms, w.block_number) && amount <= perms.per_tx_limit
                && asset_allowed(perms, asset_id) && amount <= purse(w, agent_id, asset_id);
            if permitted {
                &&& o is Done
                &&& purse(after, agent_id, asset_id) == purse(w, agent_id, asset_id) - amount
                &&& holding(after, asset_id, to) == holding(w, asset_id, to) + amount
            } else {
                o is Failed && after.slots == w.slots
            }
        }),
{
    broadcast use group_steps;

}

/// Who does not own an agent can do nothing with it.
pub proof fn law_only_owner_uses_agent(w: World, input: Seq<u8>, sender: Address)
    requires
        able(w, 100_000),
        input.len() >= 164,
        !owns(w, u64_at(input, 4), sender),
    ensures
        grant_balance_effect(w, input, sender).0 is Failed,
        grant_balance_effect(w, input, sender).1.slots == w.slots,
        revoke_balance_effect(w, input, sender).0 is Failed,
        revoke_balance_effect(w, input, sender).1.slots == w.slots,
        pay_effect(w, input, sender).0 is Failed,
        pay_effect(w, input, sender).1.slots == w.slots,
        batch_pay_effect(w, input, sender).0 is Failed,
        batch_pay_effect(w, input, sender).1.slots == w.slots,
        bridge_deposit_effect(w, input, sender).0 is Failed,
        bridge_deposit_effect(w, input, sender).1.slots == w.slots,
        revoke_agent_effect(w, input, sender).0 is Failed,
        revoke_agent_effect(w, input, sender).1.slots == w.slots,
{
    broadcast use group_steps;

}

/// The slots of an agent's fields.
pub open spec fn agent_slots(agent_id: u64) -> Seq<U256> {
    seq![
        zero_word(),
        agent_slot(agent_id, "owner"),
        agent_slot(agent_id, "pubkey"),
        agent_slot(agent_id, "name"),
        agent_slot(agent_id, "url"),
        agent_slot(agent_id, "perms"),
        agent_slot(agent_id, "block"),
    ]
}

/// An agent that was just registered belongs to whoever registered it and has the usual
/// permissions.
pub proof fn law_registered_agent_is_on_record(w: World, input: Seq<u8>, sender: Address)
    requires
        able(w, 250_000),
        input.len() >= 100,
        sender != zero_address(),
        u64_of(w.slot(agent_address(), zero_word())) < u64::MAX,
        agent_slots(u64_of(w.slot(agent_address(), zero_word()))).no_duplicates(),
    ensures
        ({
            let id = u64_of(w.slot(agent_address(), zero_word()));
            let (o, after) = register_agent_effect(w, input, sender);
            &&& o is Done
            &&& owns(after, id, sender)
            &&& u64_of(after.slot(agent_address(), zero_word())) == id + 1
            &&& perms_of(agent_field(after, id, "perms")) == (AgentPerms {
                per_tx_limit: 1000,
                expires_at: 0,
                flags: 1,
            })
            &&& agent_field(after, id, "name") == word_at(input, 4)
            &&& agent_field(after, id, "url") == word_at(input, 36)
            &&& agent_field(after, id, "pubkey") == word_at(input, 68)
        }),
{
    broadcast use group_steps;

    let id = u64_of(w.slot(agent_address(), zero_word()));
    let s = agent_slots(id);
    assert forall|i: int, j: int| 0 <= i < j < 7 implies #[trigger] s[i] != #[trigger] s[j] by {}
    law_perms_round_trip(AgentPerms { per_tx_limit: 1000, expires_at: 0, flags: 1 });
}

/// An agent that was revoked is gone: nobody owns it.
pub proof fn law_revoked_agent_is_gone(
    w: World,
    input: Seq<u8>,
    sender: Address,
    anyone: Address,
)
    requires
        able(w, 250_000),
        input.len() >= 36,
        owns(w, u64_at(input, 4), sender),
        agent_slots(u64_at(input, 4)).no_duplicates(),
    ensures
        ({
            let (o, after) = revoke_agent_effect(w, input, sender);
            o is Done && !owns(after, u64_at(input, 4), anyone)
        }),
{
    broadcast use group_steps;

    let s = agent_slots(u64_at(input, 4));
    assert forall|i: int, j: int| 0 <= i < j < 7 implies #[trigger] s[i] != #[trigger] s[j] by {}
}

proof fn lemma_credit_all(
    w: World,
    asset_id: u64,
    limit: u128,
    to: Seq<Address>,
    amounts: Seq<u128>,
    i: int,
)
    requires
        0 <= i <= to.len(),
        to.len() == amounts.len(),
        able(w, 25_000 * (to.len() - i)),
        apart(asset_id, to),
        forall|j: int| i <= j < to.len() ==> #[trigger] amounts[j] <= limit,
        forall|j: int|
            i <= j < to.len() ==> holding(w, asset_id, #[trigger] to[j]) + amounts[j]
                <= u128::MAX,
    ensures
        ({
            let (failure, after) = credit_all(w, asset_id, limit, to, amounts, i);
            &&& failure is None
            &&& forall|j: int|
                i <= j < to.len() ==> holding(after, asset_id, #[trigger] to[j]) == holding(
                    w,
                    asset_id,
                    to[j],
                ) + amounts[j]
            &&& forall|a: Address, k: U256|
                (a != asset_address() || forall|j: int|
                    i <= j < to.len() ==> k != balance_slot(asset_id, #[trigger] to[j]))
                    ==> #[trigger] after.slot(a, k) == w.slot(a, k)
        }),
    decreases to.len() - i,
{
    broadcast use group_steps;

    if i < to.len() {
        assert(amounts[i] <= limit);
        let (held, w1) = balance_read(w, asset_id, to[i]);
        let w2 = balance_write(w1, asset_id, to[i], (held + amounts[i]) as u128);
        assert forall|j: int| i + 1 <= j < to.len() implies holding(w2, asset_id, #[trigger] to[j])
            == holding(w, asset_id, to[j]) by {
            assert(balance_slot(asset_id, to[i]) != balance_slot(asset_id, to[j]));
        }
        lemma_credit_all(w2, asset_id, limit, to, amounts, i + 1);
        let after = credit_all(w, asset_id, limit, to, amounts, i).1;
        assert forall|j: int| i <= j < to.len() implies holding(after, asset_id, #[trigger] to[j])
            == holding(w, asset_id, to[j]) + amounts[j] by {
            if j == i {
                assert forall|m: int| i + 1 <= m < to.len() implies balance_slot(asset_id, to[i])
                    != balance_slot(asset_id, #[trigger] to[m]) by {}
                assert(after.slot(asset_address(), balance_slot(asset_id, to[i])) == w2.slot(
                    asset_address(),
                    balance_slot(asset_id, to[i]),
                ));
            }
        }
        assert forall|a: Address, k: U256|
            (a != asset_address() || forall|j: int|
                i <= j < to.len() ==> k != balance_slot(asset_id, #[trigger] to[j])) implies
            #[trigger] after.slot(a, k) == w.slot(a, k) by {
            if a == asset_address() {
                assert(k != balance_slot(asset_id, to[i]));
            }
            assert(after.slot(a, k) == w2.slot(a, k));
        }
    }
}

/// A batch of payments takes the sum from the agent's purse and gives each recipient its amount.
pub proof fn law_batch_pays_every_amount(
    w: World,
    agent_id: u64,
    asset_id: u64,
    to: Seq<Address>,
    amounts: Seq<u128>,
)
    requires
        able(w, 30_000 * (to.len() + 1) as int),
        to.len() == amounts.len(),
        apart(asset_id, to),
        ({
            let perms = perms_of(agent_field(w, agent_id, "perms"));
            &&& !perms_expired(perms, w.block_number)
            &&& asset_allowed(perms, asset_id)
            &&& forall|j: int| 0 <= j < to.len() ==> #[trigger] amounts[j] <= perms.per_tx_limit
        }),
        total(amounts) <= purse(w, agent_id, asset_id),
        forall|j: int|
            0 <= j < to.len() ==> holding(w, asset_id, #[trigger] to[j]) + amounts[j]
                <= u128::MAX,
    ensures
        ({
            let (o, after) = pay_batch(w, agent_id, asset_id, to, amounts);
            &&& o is Done
            &&& purse(after, agent_id, asset_id) == purse(w, agent_id, asset_id) - total(amounts)
            &&& forall|j: int|
                0 <= j < to.len() ==> holding(after, asset_id, #[trigger] to[j]) == holding(
                    w,
                    asset_id,
                    to[j],
                ) + amounts[j]
        }),
{
    broadcast use group_steps;

    lemma_total_not_negative(amounts);
    let (packed, w1) = agent_read(w, agent_id, "perms");
    let (held, w2) = purse_read(w1, agent_id, asset_id);
    let w3 = purse_write(w2, agent_id, asset_id, (held - total(amounts)) as u128);
    assert forall|j: int| 0 <= j < to.len() implies holding(w3, asset_id, #[trigger] to[j])
        == holding(w, asset_id, to[j]) by {}
    lemma_credit_all(w3, asset_id, perms_of(packed).per_tx_limit, to, amounts, 0);
}

proof fn lemma_total_not_negative(amounts: Seq<u128>)
    ensures
        total(amounts) >= 0,
    decreases amounts.len(),
{
    if amounts.len() > 0 {
        lemma_total_not_negative(amounts.drop_last());
    }
}

} // verus!
