//! Governance precompile: proposals with deposits, votes, a timelock and an emergency stop.

pub mod laws;

use crate::precompiles::abi::{
    decode_bytes32, decode_selector, decode_u64, decode_u8, encode_u64, encode_u8, number_word,
    push_u128, selector_of, u64_at, word_at,
};
use crate::precompiles::asset::{balance_read, balance_write, load_bal, save_bal};
use crate::precompiles::slots::{
    governance_address, proposal_slot, slot_gov_proposal, slot_gov_voter, slot_tag,
    slot_validator_by_addr, tag_slot, validator_address, validator_slot, voter_slot,
};
use crate::precompiles::steps::{able, group_steps};
use crate::precompiles::storage::{
    fatal, ok_bytes, ok_empty, out_of_gas, outcome, refused, Outcome, PrecompileError,
    PrecompileResult, StatefulPrecompile, StorageCtx, StorageProvider, World,
};
use crate::words::{
    address_to_u256, address_word, law_word_round_trips, u128_to_u256, u256_to_u128, u256_to_u64,
    u256_to_u8, u64_of, u64_to_u256, u8_of, word, zero_word, Address, U256,
};
use vstd::prelude::*;

verus! {

/// The native asset.
pub const CALL_ASSET_ID: u64 = 1;

/// What a proposal costs its proposer.
pub const PROPOSAL_DEPOSIT: u128 = 10_000;

/// How many blocks a queued proposal waits.
pub const GOV_TIMELOCK_BLOCKS: u64 = 100;

/// The share of votes in favour that a proposal needs, in hundredths of a percent.
pub const GOV_QUORUM_BPS: u128 = 3_333;

/// A field of a proposal.
pub open spec fn field_read(w: World, id: u64, field: &str) -> (U256, World) {
    w.read(governance_address(), proposal_slot(id, field))
}

pub open spec fn field_write(w: World, id: u64, field: &str, v: U256) -> World {
    w.write(governance_address(), proposal_slot(id, field), v)
}

fn load<P: StorageProvider>(storage: &mut P, id: u64, field: &str) -> (r: U256)
    ensures
        (r, final(storage).world()) == field_read(old(storage).world(), id, field),
{
    StorageCtx::read(storage, governance_address(), slot_gov_proposal(id, field))
}

fn save<P: StorageProvider>(storage: &mut P, id: u64, field: &str, v: U256)
    ensures
        final(storage).world() == field_write(old(storage).world(), id, field, v),
{
    StorageCtx::write(storage, governance_address(), slot_gov_proposal(id, field), v);
}

/// Whether an account is a registered validator.
pub open spec fn validator_read(w: World, account: Address) -> (bool, World) {
    let (id, w) = w.read(validator_address(), validator_slot(account, "validator_id"));
    (u64_of(id) != 0, w)
}

fn is_validator<P: StorageProvider>(storage: &mut P, account: Address) -> (r: bool)
    ensures
        (r, final(storage).world()) == validator_read(old(storage).world(), account),
{
    u256_to_u64(StorageCtx::read(storage, validator_address(), slot_validator_by_addr(account)))
        != 0
}

pub open spec fn submit_proposal_effect(w: World, input: Seq<u8>, sender: Address) -> (
    Outcome,
    World,
) {
    let (paid, w) = w.charge(50000);
    if !paid {
        (out_of_gas(), w)
    } else if input.len() < 100 {
        (refused("invalid input"), w)
    } else {
        let (held, w) = balance_read(w, CALL_ASSET_ID, sender);
        if held < PROPOSAL_DEPOSIT {
            (refused("governance: insufficient balance for proposal deposit"), w)
        } else {
            let w = balance_write(w, CALL_ASSET_ID, sender, (held - PROPOSAL_DEPOSIT) as u128);
            enter_proposal(w, sender, word_at(input, 4), word_at(input, 36), word_at(input, 68))
        }
    }
}

/// Entering a proposal whose deposit is paid.
pub open spec fn enter_proposal(
    w: World,
    sender: Address,
    title: U256,
    description: U256,
    data_hash: U256,
) -> (Outcome, World) {
    let (count, w) = w.read(governance_address(), zero_word());
    if u64_of(count) == u64::MAX {
        (fatal("proposal count overflow"), w)
    } else {
        let id = (u64_of(count) + 1) as u64;
        let w = w.write(governance_address(), zero_word(), word(id as u128));
        let w = field_write(w, id, "proposer", address_word(sender));
        let w = field_write(w, id, "title", title);
        let w = field_write(w, id, "desc", description);
        let w = field_write(w, id, "data", data_hash);
        let w = field_write(w, id, "status", word(1));
        let w = field_write(w, id, "votes_for", zero_word());
        let w = field_write(w, id, "votes_against", zero_word());
        let w = field_write(w, id, "votes_abstain", zero_word());
        let w = field_write(w, id, "deposit", word(PROPOSAL_DEPOSIT));
        (w.done(Seq::empty()), w)
    }
}

/// The tally that a vote counts towards.
pub open spec fn tally_field(vote: u8) -> &'static str {
    if vote == 1 {
        "votes_for"
    } else if vote == 2 {
        "votes_against"
    } else {
        "votes_abstain"
    }
}

fn tally_name(vote: u8) -> (r: &'static str)
    ensures
        r == tally_field(vote),
{
    if vote == 1 {
        "votes_for"
    } else if vote == 2 {
        "votes_against"
    } else {
        "votes_abstain"
    }
}

pub open spec fn vote_effect(w: World, input: Seq<u8>, sender: Address) -> (Outcome, World) {
    let (paid, w) = w.charge(20000);
    if !paid {
        (out_of_gas(), w)
    } else if input.len() < 36 {
        (refused("invalid input"), w)
    } else if input.len() < 68 {
        (refused("invalid vote"), w)
    } else {
        let id = u64_at(input, 4);
        let vote = input[67];
        if vote < 1 || vote > 3 {
            (refused("governance: invalid vote value"), w)
        } else {
            let (status, w) = field_read(w, id, "status");
            if u8_of(status) != 1 {
                (refused("governance: proposal not active"), w)
            } else {
                let slot = voter_slot(id, sender);
                let (voted, w) = w.read(governance_address(), slot);
                if voted != zero_word() {
                    (refused("governance: already voted"), w)
                } else {
                    let w = w.write(governance_address(), slot, word(vote as u128));
                    let (tally, w) = field_read(w, id, tally_field(vote));
                    if tally.lo == u128::MAX {
                        (fatal("vote tally overflow"), w)
                    } else {
                        let w = field_write(w, id, tally_field(vote), word((tally.lo + 1) as u128));
                        (w.done(Seq::empty()), w)
                    }
                }
            }
        }
    }
}

/// Whether a count of votes is enough: some vote was cast, and those in favour make up the share
/// that is needed. `None` where the count outgrows its type.
pub open spec fn quorum_reached(votes_for: u128, votes_against: u128, votes_abstain: u128) -> Option<
    bool,
> {
    let total = votes_for + votes_against + votes_abstain;
    if total > u128::MAX {
        None
    } else if total == 0 {
        Some(false)
    } else if votes_for * 10_000 > u128::MAX || total * GOV_QUORUM_BPS > u128::MAX {
        None
    } else {
        Some(votes_for * 10_000 >= total * GOV_QUORUM_BPS)
    }
}

pub fn check_quorum(votes_for: u128, votes_against: u128, votes_abstain: u128) -> (r: Option<bool>)
    ensures
        r == quorum_reached(votes_for, votes_against, votes_abstain),
{
    let partial: u128 = match votes_for.checked_add(votes_against) {
        Some(v) => v,
        None => {
            return None;
        },
    };
    let total: u128 = match partial.checked_add(votes_abstain) {
        Some(v) => v,
        None => {
            return None;
        },
    };
    if total == 0 {
        return Some(false);
    }
    match (votes_for.checked_mul(10_000), total.checked_mul(GOV_QUORUM_BPS)) {
        (Some(have), Some(need)) => Some(have >= need),
        _ => None,
    }
}

pub open spec fn queue_effect(w: World, input: Seq<u8>) -> (Outcome, World) {
    let (paid, w) = w.charge(20000);
    if !paid {
        (out_of_gas(), w)
    } else if input.len() < 12 {
        (refused("invalid input"), w)
    } else if input.len() < 36 {
        (refused("invalid proposalId"), w)
    } else {
        let id = u64_at(input, 4);
        let (status, w) = field_read(w, id, "status");
        if u8_of(status) != 1 {
            (refused("governance: proposal not active"), w)
        } else {
            let (votes_for, w) = field_read(w, id, "votes_for");
            let (votes_against, w) = field_read(w, id, "votes_against");
            let (votes_abstain, w) = field_read(w, id, "votes_abstain");
            match quorum_reached(votes_for.lo, votes_against.lo, votes_abstain.lo) {
                None => (fatal("vote count overflow"), w),
                Some(false) => (refused("governance: quorum not reached"), w),
                Some(true) => {
                    let w = field_write(w, id, "status", word(2));
                    let w = field_write(w, id, "queued_at", word(w.block_number as u128));
                    (w.done(Seq::empty()), w)
                },
            }
        }
    }
}

pub open spec fn execute_effect(w: World, input: Seq<u8>) -> (Outcome, World) {
    let (paid, w) = w.charge(20000);
    if !paid {
        (out_of_gas(), w)
    } else if input.len() < 12 {
        (refused("invalid input"), w)
    } else if input.len() < 36 {
        (refused("invalid proposalId"), w)
    } else {
        let id = u64_at(input, 4);
        let (status, w) = field_read(w, id, "status");
        if u8_of(status) != 2 {
            (refused("governance: proposal not queued"), w)
        } else {
            let (queued_at, w) = field_read(w, id, "queued_at");
            if u64_of(queued_at) + GOV_TIMELOCK_BLOCKS > u64::MAX {
                (fatal("timelock overflow"), w)
            } else if w.block_number < u64_of(queued_at) + GOV_TIMELOCK_BLOCKS {
                (refused("governance: timelock not elapsed"), w)
            } else {
                let w = field_write(w, id, "status", word(3));
                (w.done(Seq::empty()), w)
            }
        }
    }
}

/// Setting or clearing the emergency stop, by a validator.
pub open spec fn set_pause(w: World, sender: Address, paused: U256, reason: U256) -> (
    Outcome,
    World,
) {
    let (validator, w) = validator_read(w, sender);
    if !validator {
        (refused("governance: sender not a registered validator"), w)
    } else {
        let w = w.write(governance_address(), tag_slot("paused"), paused);
        let w = w.write(governance_address(), tag_slot("pause_reason"), reason);
        (w.done(Seq::empty()), w)
    }
}

pub open spec fn emergency_pause_effect(w: World, input: Seq<u8>, sender: Address) -> (
    Outcome,
    World,
) {
    let (paid, w) = w.charge(30000);
    if !paid {
        (out_of_gas(), w)
    } else if input.len() < 36 {
        (refused("invalid input"), w)
    } else {
        set_pause(w, sender, word(1), word_at(input, 4))
    }
}

pub open spec fn emergency_resume_effect(w: World, input: Seq<u8>, sender: Address) -> (
    Outcome,
    World,
) {
    let (paid, w) = w.charge(20000);
    if !paid {
        (out_of_gas(), w)
    } else if input.len() < 4 {
        (refused("invalid input"), w)
    } else {
        set_pause(w, sender, zero_word(), zero_word())
    }
}

pub open spec fn get_status_effect(w: World, input: Seq<u8>) -> (Outcome, World) {
    let (paid, w) = w.charge(2000);
    if !paid {
        (out_of_gas(), w)
    } else if input.len() < 12 {
        (refused("invalid input"), w)
    } else if input.len() < 36 {
        (refused("invalid proposalId"), w)
    } else {
        let (status, w) = field_read(w, u64_at(input, 4), "status");
        (w.done(number_word(u8_of(status) as nat, 1)), w)
    }
}

pub open spec fn get_votes_effect(w: World, input: Seq<u8>) -> (Outcome, World) {
    let (paid, w) = w.charge(2000);
    if !paid {
        (out_of_gas(), w)
    } else if input.len() < 12 {
        (refused("invalid input"), w)
    } else if input.len() < 36 {
        (refused("invalid proposalId"), w)
    } else {
        let id = u64_at(input, 4);
        let (votes_for, w) = field_read(w, id, "votes_for");
        let (votes_against, w) = field_read(w, id, "votes_against");
        let (votes_abstain, w) = field_read(w, id, "votes_abstain");
        (
            w.done(
                number_word(votes_for.lo as nat, 16) + number_word(votes_against.lo as nat, 16)
                    + number_word(votes_abstain.lo as nat, 16),
            ),
            w,
        )
    }
}

pub open spec fn is_paused_effect(w: World, input: Seq<u8>) -> (Outcome, World) {
    let (paid, w) = w.charge(1000);
    if !paid {
        (out_of_gas(), w)
    } else if input.len() < 4 {
        (refused("invalid input"), w)
    } else {
        let (v, w) = w.read(governance_address(), tag_slot("paused"));
        (
            w.done(
                number_word(
                    if u8_of(v) == 1 {
                        1
                    } else {
                        0
                    },
                    1,
                ),
            ),
            w,
        )
    }
}

pub open spec fn get_count_effect(w: World, input: Seq<u8>) -> (Outcome, World) {
    let (paid, w) = w.charge(1000);
    if !paid {
        (out_of_gas(), w)
    } else if input.len() < 4 {
        (refused("invalid input"), w)
    } else {
        let (count, w) = w.read(governance_address(), zero_word());
        (w.done(number_word(u64_of(count) as nat, 8)), w)
    }
}

/// The governance precompile.
#[derive(Clone, Copy, Debug)]
pub struct GovernancePrecompile;

impl GovernancePrecompile {
    pub fn submit_proposal<P: StorageProvider>(
        &self,
        storage: &mut P,
        input: &[u8],
        msg_sender: Address,
    ) -> (r: PrecompileResult)
        ensures
            (outcome(r), final(storage).world()) == submit_proposal_effect(
                old(storage).world(),
                input@,
                msg_sender,
            ),
    {
        StorageCtx::deduct_gas(storage, 50000).ok_or(PrecompileError::OutOfGas)?;
        if input.len() < 100 {
            return Err(PrecompileError::Other("invalid input"));
        }
        let title = decode_bytes32(input, 4).ok_or(PrecompileError::Other("invalid title"))?;
        let description = decode_bytes32(input, 36).ok_or(
            PrecompileError::Other("invalid description"),
        )?;
        let data_hash = decode_bytes32(input, 68).ok_or(
            PrecompileError::Other("invalid dataHash"),
        )?;
        let held: u128 = load_bal(storage, CALL_ASSET_ID, msg_sender);
        if held < PROPOSAL_DEPOSIT {
            return Err(
                PrecompileError::Other("governance: insufficient balance for proposal deposit"),
            );
        }
        save_bal(storage, CALL_ASSET_ID, msg_sender, held - PROPOSAL_DEPOSIT);
        GovernancePrecompile::enter(storage, msg_sender, title, description, data_hash)
    }

    fn enter<P: StorageProvider>(
        storage: &mut P,
        sender: Address,
        title: U256,
        description: U256,
        data_hash: U256,
    ) -> (r: PrecompileResult)
        ensures
            (outcome(r), final(storage).world()) == enter_proposal(
                old(storage).world(),
                sender,
                title,
                description,
                data_hash,
            ),
    {
        let count: u64 = u256_to_u64(StorageCtx::read(storage, governance_address(), zero_word()));
        let id: u64 = count.checked_add(1).ok_or(
            PrecompileError::Fatal("proposal count overflow"),
        )?;
        StorageCtx::write(storage, governance_address(), zero_word(), u64_to_u256(id));
        save(storage, id, "proposer", address_to_u256(sender));
        save(storage, id, "title", title);
        save(storage, id, "desc", description);
        save(storage, id, "data", data_hash);
        save(storage, id, "status", u64_to_u256(1));
        save(storage, id, "votes_for", zero_word());
        save(storage, id, "votes_against", zero_word());
        save(storage, id, "votes_abstain", zero_word());
        save(storage, id, "deposit", u128_to_u256(PROPOSAL_DEPOSIT));
        ok_empty(storage)
    }

    pub fn vote<P: StorageProvider>(
        &self,
        storage: &mut P,
        input: &[u8],
        msg_sender: Address,
    ) -> (r: PrecompileResult)
        ensures
            (outcome(r), final(storage).world()) == vote_effect(
                old(storage).world(),
                input@,
                msg_sender,
            ),
    {
        StorageCtx::deduct_gas(storage, 20000).ok_or(PrecompileError::OutOfGas)?;
        if input.len() < 36 {
            return Err(PrecompileError::Other("invalid input"));
        }
        let id: u64 = decode_u64(input, 4).ok_or(PrecompileError::Other("invalid proposalId"))?;
        let vote: u8 = decode_u8(input, 36).ok_or(PrecompileError::Other("invalid vote"))?;
        if vote < 1 || vote > 3 {
            return Err(PrecompileError::Other("governance: invalid vote value"));
        }
        if u256_to_u8(load(storage, id, "status")) != 1 {
            return Err(PrecompileError::Other("governance: proposal not active"));
        }
        let slot = slot_gov_voter(id, msg_sender);
        if !StorageCtx::read(storage, governance_address(), slot).is_zero() {
            return Err(PrecompileError::Other("governance: already voted"));
        }
        StorageCtx::write(storage, governance_address(), slot, u64_to_u256(vote as u64));
        let tally: u128 = u256_to_u128(load(storage, id, tally_name(vote)));
        let next: u128 = tally.checked_add(1).ok_or(PrecompileError::Fatal("vote tally overflow"))?;
        save(storage, id, tally_name(vote), u128_to_u256(next));
        ok_empty(storage)
    }

    pub fn queue<P: StorageProvider>(&self, storage: &mut P, input: &[u8]) -> (r: PrecompileResult)
        ensures
            (outcome(r), final(storage).world()) == queue_effect(old(storage).world(), input@),
    {
        StorageCtx::deduct_gas(storage, 20000).ok_or(PrecompileError::OutOfGas)?;
        if input.len() < 12 {
            return Err(PrecompileError::Other("invalid input"));
        }
        let id: u64 = decode_u64(input, 4).ok_or(PrecompileError::Other("invalid proposalId"))?;
        if u256_to_u8(load(storage, id, "status")) != 1 {
            return Err(PrecompileError::Other("governance: proposal not active"));
        }
        let votes_for: u128 = u256_to_u128(load(storage, id, "votes_for"));
        let votes_against: u128 = u256_to_u128(load(storage, id, "votes_against"));
        let votes_abstain: u128 = u256_to_u128(load(storage, id, "votes_abstain"));
        let enough: bool = check_quorum(votes_for, votes_against, votes_abstain).ok_or(
            PrecompileError::Fatal("vote count overflow"),
        )?;
        if !enough {
            return Err(PrecompileError::Other("governance: quorum not reached"));
        }
        save(storage, id, "status", u64_to_u256(2));
        let now: u64 = StorageCtx::block_number(storage);
        save(storage, id, "queued_at", u64_to_u256(now));
        ok_empty(storage)
    }

    pub fn execute<P: StorageProvider>(&self, storage: &mut P, input: &[u8]) -> (r:
        PrecompileResult)
        ensures
            (outcome(r), final(storage).world()) == execute_effect(old(storage).world(), input@),
    {
        StorageCtx::deduct_gas(storage, 20000).ok_or(PrecompileError::OutOfGas)?;
        if input.len() < 12 {
            return Err(PrecompileError::Other("invalid input"));
        }
        let id: u64 = decode_u64(input, 4).ok_or(PrecompileError::Other("invalid proposalId"))?;
        if u256_to_u8(load(storage, id, "status")) != 2 {
            return Err(PrecompileError::Other("governance: proposal not queued"));
        }
        let queued_at: u64 = u256_to_u64(load(storage, id, "queued_at"));
        let now: u64 = StorageCtx::block_number(storage);
        let free_at: u64 = queued_at.checked_add(GOV_TIMELOCK_BLOCKS).ok_or(
            PrecompileError::Fatal("timelock overflow"),
        )?;
        if now < free_at {
            return Err(PrecompileError::Other("governance: timelock not elapsed"));
        }
        save(storage, id, "status", u64_to_u256(3));
        ok_empty(storage)
    }

    fn run_set_pause<P: StorageProvider>(
        storage: &mut P,
        sender: Address,
        paused: U256,
        reason: U256,
    ) -> (r: PrecompileResult)
        ensures
            (outcome(r), final(storage).world()) == set_pause(
                old(storage).world(),
                sender,
                paused,
                reason,
            ),
    {
        if !is_validator(storage, sender) {
            return Err(PrecompileError::Other("governance: sender not a registered validator"));
        }
        StorageCtx::write(storage, governance_address(), slot_tag("paused"), paused);
        StorageCtx::write(storage, governance_address(), slot_tag("pause_reason"), reason);
        ok_empty(storage)
    }

    pub fn emergency_pause<P: StorageProvider>(
        &self,
        storage: &mut P,
        input: &[u8],
        msg_sender: Address,
    ) -> (r: PrecompileResult)
        ensures
            (outcome(r), final(storage).world()) == emergency_pause_effect(
                old(storage).world(),
                input@,
                msg_sender,
            ),
    {
        StorageCtx::deduct_gas(storage, 30000).ok_or(PrecompileError::OutOfGas)?;
        if input.len() < 36 {
            return Err(PrecompileError::Other("invalid input"));
        }
        let reason = decode_bytes32(input, 4).ok_or(PrecompileError::Other("invalid reason"))?;
        GovernancePrecompile::run_set_pause(storage, msg_sender, u64_to_u256(1), reason)
    }

    pub fn emergency_resume<P: StorageProvider>(
        &self,
        storage: &mut P,
        input: &[u8],
        msg_sender: Address,
    ) -> (r: PrecompileResult)
        ensures
            (outcome(r), final(storage).world()) == emergency_resume_effect(
                old(storage).world(),
                input@,
                msg_sender,
            ),
    {
        StorageCtx::deduct_gas(storage, 20000).ok_or(PrecompileError::OutOfGas)?;
        if input.len() < 4 {
            return Err(PrecompileError::Other("invalid input"));
        }
        GovernancePrecompile::run_set_pause(storage, msg_sender, zero_word(), zero_word())
    }

    pub fn get_proposal_status<P: StorageProvider>(&self, storage: &mut P, input: &[u8]) -> (r:
        PrecompileResult)
        ensures
            (outcome(r), final(storage).world()) == get_status_effect(
                old(storage).world(),
                input@,
            ),
    {
        StorageCtx::deduct_gas(storage, 2000).ok_or(PrecompileError::OutOfGas)?;
        if input.len() < 12 {
            return Err(PrecompileError::Other("invalid input"));
        }
        let id: u64 = decode_u64(input, 4).ok_or(PrecompileError::Other("invalid proposalId"))?;
        let status: u8 = u256_to_u8(load(storage, id, "status"));
        ok_bytes(storage, encode_u8(status))
    }

    pub fn get_proposal_votes<P: StorageProvider>(&self, storage: &mut P, input: &[u8]) -> (r:
        PrecompileResult)
        ensures
            (outcome(r), final(storage).world()) == get_votes_effect(old(storage).world(), input@),
    {
        StorageCtx::deduct_gas(storage, 2000).ok_or(PrecompileError::OutOfGas)?;
        if input.len() < 12 {
            return Err(PrecompileError::Other("invalid input"));
        }
        let id: u64 = decode_u64(input, 4).ok_or(PrecompileError::Other("invalid proposalId"))?;
        let votes_for: u128 = u256_to_u128(load(storage, id, "votes_for"));
        let votes_against: u128 = u256_to_u128(load(storage, id, "votes_against"));
        let votes_abstain: u128 = u256_to_u128(load(storage, id, "votes_abstain"));
        let mut out: Vec<u8> = Vec::new();
        push_u128(&mut out, votes_for);
        push_u128(&mut out, votes_against);
        push_u128(&mut out, votes_abstain);
        proof {
            assert(out@ =~= number_word(votes_for as nat, 16) + number_word(
                votes_against as nat,
                16,
            ) + number_word(votes_abstain as nat, 16));
        }
        ok_bytes(storage, out)
    }

    pub fn is_paused<P: StorageProvider>(&self, storage: &mut P, input: &[u8]) -> (r:
        PrecompileResult)
        ensures
            (outcome(r), final(storage).world()) == is_paused_effect(old(storage).world(), input@),
    {
        StorageCtx::deduct_gas(storage, 1000).ok_or(PrecompileError::OutOfGas)?;
        if input.len() < 4 {
            return Err(PrecompileError::Other("invalid input"));
        }
        let v: u8 = u256_to_u8(
            StorageCtx::read(storage, governance_address(), slot_tag("paused")),
        );
        ok_bytes(
            storage,
            encode_u8(
                if v == 1 {
                    1
                } else {
                    0
                },
            ),
        )
    }

    pub fn get_proposal_count<P: StorageProvider>(&self, storage: &mut P, input: &[u8]) -> (r:
        PrecompileResult)
        ensures
            (outcome(r), final(storage).world()) == get_count_effect(old(storage).world(), input@),
    {
        StorageCtx::deduct_gas(storage, 1000).ok_or(PrecompileError::OutOfGas)?;
        if input.len() < 4 {
            return Err(PrecompileError::Other("invalid input"));
        }
        let count: u64 = u256_to_u64(StorageCtx::read(storage, governance_address(), zero_word()));
        ok_bytes(storage, encode_u64(count))
    }
}

/// What a call of the governance precompile comes to.
pub open spec fn governance_effect(w: World, calldata: Seq<u8>, sender: Address) -> (
    Outcome,
    World,
) {
    if calldata.len() < 4 {
        (refused("too short"), w)
    } else {
        match selector_of(calldata) {
            0x13169e1c => submit_proposal_effect(w, calldata, sender),
            0x023d033b => vote_effect(w, calldata, sender),
            0xfe72d010 => queue_effect(w, calldata),
            0x50f701f4 => execute_effect(w, calldata),
            0x7b391c64 => emergency_pause_effect(w, calldata, sender),
            0x597c1a8d => emergency_resume_effect(w, calldata, sender),
            0x7d62d795 => get_status_effect(w, calldata),
            0xeb795856 => get_votes_effect(w, calldata),
            0x2dfe3874 => is_paused_effect(w, calldata),
            0x96ce4373 => get_count_effect(w, calldata),
            _ => (refused("unknown selector"), w),
        }
    }
}

impl StatefulPrecompile for GovernancePrecompile {
    open spec fn effect(&self, w: World, calldata: Seq<u8>, sender: Address) -> (Outcome, World) {
        governance_effect(w, calldata, sender)
    }

    open spec fn ready(&self) -> bool {
        true
    }

    fn call<P: StorageProvider>(
        &mut self,
        storage: &mut P,
        calldata: &[u8],
        msg_sender: Address,
    ) -> (r: PrecompileResult) {
        if calldata.len() < 4 {
            return Err(PrecompileError::Other("too short"));
        }
        match decode_selector(calldata) {
            0x13169e1c => self.submit_proposal(storage, calldata, msg_sender),
            0x023d033b => self.vote(storage, calldata, msg_sender),
            0xfe72d010 => self.queue(storage, calldata),
            0x50f701f4 => self.execute(storage, calldata),
            0x7b391c64 => self.emergency_pause(storage, calldata, msg_sender),
            0x597c1a8d => self.emergency_resume(storage, calldata, msg_sender),
            0x7d62d795 => self.get_proposal_status(storage, calldata),
            0xeb795856 => self.get_proposal_votes(storage, calldata),
            0x2dfe3874 => self.is_paused(storage, calldata),
            0x96ce4373 => self.get_proposal_count(storage, calldata),
            _ => Err(PrecompileError::Other("unknown selector")),
        }
    }
}

/// The field of a proposal.
pub open spec fn proposal_field(w: World, id: u64, name: &str) -> U256 {
    w.slot(governance_address(), proposal_slot(id, name))
}

/// A vote counts once: it adds one to its side, and the same account does not vote on the proposal
/// again.
pub proof fn law_vote_counts_once(
    w: World,
    input: Seq<u8>,
    sender: Address,
    later: World,
    again: Seq<u8>,
)
    requires
        able(w, 100_000),
        input.len() >= 68,
        1 <= input[67] <= 3,
        u8_of(proposal_field(w, u64_at(input, 4), "status")) == 1,
        w.slot(governance_address(), voter_slot(u64_at(input, 4), sender)) == zero_word(),
        proposal_field(w, u64_at(input, 4), tally_field(input[67])).lo < u128::MAX,
        voter_slot(u64_at(input, 4), sender) != proposal_slot(
            u64_at(input, 4),
            tally_field(input[67]),
        ),
        later.slots == vote_effect(w, input, sender).1.slots,
        able(later, 100_000),
        again.len() >= 68,
        1 <= again[67] <= 3,
        u64_at(again, 4) == u64_at(input, 4),
    ensures
        ({
            let id = u64_at(input, 4);
            let tally = tally_field(input[67]);
            let (o, after) = vote_effect(w, input, sender);
            &&& o is Done
            &&& proposal_field(after, id, tally).lo == proposal_field(w, id, tally).lo + 1
            &&& vote_effect(later, again, sender).0 is Failed
            &&& vote_effect(later, again, sender).1.slots == later.slots
        }),
{
    broadcast use group_steps;

}

/// A proposal is executed only after it was queued and the wait is over, and only once: it is
/// neither executed nor queued again.
pub proof fn law_executed_once_after_wait(w: World, input: Seq<u8>, later: World)
    requires
        able(w, 100_000),
        input.len() >= 36,
        execute_effect(w, input).0 is Done,
        later.slots == execute_effect(w, input).1.slots,
        able(later, 100_000),
    ensures
        u8_of(proposal_field(w, u64_at(input, 4), "status")) == 2,
        w.block_number >= u64_of(proposal_field(w, u64_at(input, 4), "queued_at"))
            + GOV_TIMELOCK_BLOCKS,
        execute_effect(later, input).0 == refused("governance: proposal not queued"),
        execute_effect(later, input).1.slots == later.slots,
        queue_effect(later, input).0 == refused("governance: proposal not active"),
        queue_effect(later, input).1.slots == later.slots,
{
    broadcast use group_steps;

}

/// A proposal that was just queued waits: before its time it is not executed.
pub proof fn law_queued_proposal_waits(w: World, input: Seq<u8>, later: World)
    requires
        able(w, 100_000),
        input.len() >= 36,
        queue_effect(w, input).0 is Done,
        proposal_slot(u64_at(input, 4), "status") != proposal_slot(
            u64_at(input, 4),
            "queued_at",
        ),
        w.block_number + GOV_TIMELOCK_BLOCKS <= u64::MAX,
        later.slots == queue_effect(w, input).1.slots,
        able(later, 100_000),
        later.block_number < w.block_number + GOV_TIMELOCK_BLOCKS,
    ensures
        execute_effect(later, input).0 == refused("governance: timelock not elapsed"),
        execute_effect(later, input).1.slots == later.slots,
{
    broadcast use group_steps;

    law_word_round_trips(w.block_number, 0, Address { hi: 0, lo: 0 }, 2);
}

/// Only a validator pauses or resumes.
pub proof fn law_only_validators_pause(w: World, input: Seq<u8>, sender: Address)
    requires
        able(w, 100_000),
        input.len() >= 36,
        u64_of(w.slot(validator_address(), validator_slot(sender, "validator_id"))) == 0,
    ensures
        emergency_pause_effect(w, input, sender).0 is Failed,
        emergency_pause_effect(w, input, sender).1.slots == w.slots,
        emergency_resume_effect(w, input, sender).0 is Failed,
        emergency_resume_effect(w, input, sender).1.slots == w.slots,
{
    broadcast use group_steps;

}

} // verus!
