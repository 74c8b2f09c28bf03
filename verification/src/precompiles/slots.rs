//! Where the precompiles live and where they keep their state.
//!
//! A slot is the hash of a key; a key is a row of tags, numbers and addresses.

pub mod laws;

use crate::bytes::{be_bytes, push_all, push_be};
use crate::crypto::{keccak256, keccak256_word};
use crate::words::{Address, U256};
use vstd::prelude::*;
use vstd::string::StringSliceAdditionalSpecFns;

verus! {

/// The address of the price oracle precompile.
#[verifier::allow_in_spec]
pub fn oracle_address() -> Address
    returns
        (Address { hi: 0, lo: 0x101 }),
{
    Address { hi: 0, lo: 0x101 }
}

/// The address of the protocol balance precompile.
#[verifier::allow_in_spec]
pub fn balance_address() -> Address
    returns
        (Address { hi: 0, lo: 0x102 }),
{
    Address { hi: 0, lo: 0x102 }
}

/// The address of the bridge precompile.
#[verifier::allow_in_spec]
pub fn bridge_address() -> Address
    returns
        (Address { hi: 0, lo: 0x103 }),
{
    Address { hi: 0, lo: 0x103 }
}

/// The address of the asset precompile.
#[verifier::allow_in_spec]
pub fn asset_address() -> Address
    returns
        (Address { hi: 0, lo: 0x201 }),
{
    Address { hi: 0, lo: 0x201 }
}

/// The address of the shielded pool precompile.
#[verifier::allow_in_spec]
pub fn shielded_address() -> Address
    returns
        (Address { hi: 0, lo: 0x202 }),
{
    Address { hi: 0, lo: 0x202 }
}

/// The address of the governance precompile.
#[verifier::allow_in_spec]
pub fn governance_address() -> Address
    returns
        (Address { hi: 0, lo: 0x203 }),
{
    Address { hi: 0, lo: 0x203 }
}

/// The address of the validator precompile.
#[verifier::allow_in_spec]
pub fn validator_address() -> Address
    returns
        (Address { hi: 0, lo: 0x204 }),
{
    Address { hi: 0, lo: 0x204 }
}

/// The address of the compliance precompile.
#[verifier::allow_in_spec]
pub fn compliance_address() -> Address
    returns
        (Address { hi: 0, lo: 0x205 }),
{
    Address { hi: 0, lo: 0x205 }
}

/// The address of the switch precompile.
#[verifier::allow_in_spec]
pub fn switch_address() -> Address
    returns
        (Address { hi: 0, lo: 0x207 }),
{
    Address { hi: 0, lo: 0x207 }
}

/// The address of the agent precompile.
#[verifier::allow_in_spec]
pub fn agent_address() -> Address
    returns
        (Address { hi: 0, lo: 0x209 }),
{
    Address { hi: 0, lo: 0x209 }
}

/// The slot of a singleton.
#[verifier::opaque]
pub open spec fn tag_slot(tag: &str) -> U256 {
    keccak256_word(tag.spec_bytes())
}

pub fn slot_tag(tag: &str) -> (r: U256)
    ensures
        r == tag_slot(tag),
{
    let mut key: Vec<u8> = Vec::new();
    push_all(&mut key, tag.as_bytes());
    proof {
        reveal(tag_slot);
        assert(key@ =~= tag.spec_bytes());
    }
    keccak256(key.as_slice())
}

/// The slot of a field of the record with the given hash.
#[verifier::opaque]
pub open spec fn tagged_slot(tag: &str, hash: U256) -> U256 {
    keccak256_word(tag.spec_bytes() + hash.bytes())
}

pub fn slot_tagged(tag: &str, hash: U256) -> (r: U256)
    ensures
        r == tagged_slot(tag, hash),
{
    let mut key: Vec<u8> = Vec::new();
    push_all(&mut key, tag.as_bytes());
    hash.push_to(&mut key);
    proof {
        reveal(tagged_slot);
        assert(key@ =~= tag.spec_bytes() + hash.bytes());
    }
    keccak256(key.as_slice())
}

/// The slot of a field of an asset.
#[verifier::opaque]
pub open spec fn asset_meta_slot(asset_id: u64, field: &str) -> U256 {
    keccak256_word(be_bytes(asset_id as nat, 8) + field.spec_bytes())
}

pub fn slot_asset_meta(asset_id: u64, field: &str) -> (r: U256)
    ensures
        r == asset_meta_slot(asset_id, field),
{
    let mut key: Vec<u8> = Vec::new();
    push_be(&mut key, asset_id as u128, 8);
    push_all(&mut key, field.as_bytes());
    proof {
        reveal(asset_meta_slot);
        assert(key@ =~= be_bytes(asset_id as nat, 8) + field.spec_bytes());
    }
    keccak256(key.as_slice())
}

/// The slot of an account's balance of an asset.
#[verifier::opaque]
pub open spec fn balance_slot(asset_id: u64, account: Address) -> U256 {
    keccak256_word(be_bytes(asset_id as nat, 8) + account.bytes())
}

pub fn slot_balance(asset_id: u64, account: Address) -> (r: U256)
    ensures
        r == balance_slot(asset_id, account),
{
    let mut key: Vec<u8> = Vec::new();
    push_be(&mut key, asset_id as u128, 8);
    account.push_to(&mut key);
    proof {
        reveal(balance_slot);
        assert(key@ =~= be_bytes(asset_id as nat, 8) + account.bytes());
    }
    keccak256(key.as_slice())
}

/// The slot of what `spender` may still take from `owner`.
#[verifier::opaque]
pub open spec fn allowance_slot(asset_id: u64, owner: Address, spender: Address) -> U256 {
    keccak256_word(be_bytes(asset_id as nat, 8) + owner.bytes() + spender.bytes())
}

pub fn slot_allowance(asset_id: u64, owner: Address, spender: Address) -> (r: U256)
    ensures
        r == allowance_slot(asset_id, owner, spender),
{
    let mut key: Vec<u8> = Vec::new();
    push_be(&mut key, asset_id as u128, 8);
    owner.push_to(&mut key);
    spender.push_to(&mut key);
    proof {
        reveal(allowance_slot);
        assert(key@ =~= be_bytes(asset_id as nat, 8) + owner.bytes() + spender.bytes());
    }
    keccak256(key.as_slice())
}

/// The slot of an account's standing under a compliance policy.
#[verifier::opaque]
pub open spec fn compliance_slot(account: Address, policy_id: u8) -> U256 {
    keccak256_word(account.bytes() + be_bytes(policy_id as nat, 1))
}

pub fn slot_compliance(account: Address, policy_id: u8) -> (r: U256)
    ensures
        r == compliance_slot(account, policy_id),
{
    let mut key: Vec<u8> = Vec::new();
    account.push_to(&mut key);
    push_be(&mut key, policy_id as u128, 1);
    proof {
        reveal(compliance_slot);
        assert(key@ =~= account.bytes() + be_bytes(policy_id as nat, 1));
    }
    keccak256(key.as_slice())
}

/// The slot of a field of an agent.
#[verifier::opaque]
pub open spec fn agent_slot(agent_id: u64, field: &str) -> U256 {
    keccak256_word("agent".spec_bytes() + be_bytes(agent_id as nat, 8) + field.spec_bytes())
}

pub fn slot_agent(agent_id: u64, field: &str) -> (r: U256)
    ensures
        r == agent_slot(agent_id, field),
{
    let mut key: Vec<u8> = Vec::new();
    push_all(&mut key, "agent".as_bytes());
    push_be(&mut key, agent_id as u128, 8);
    push_all(&mut key, field.as_bytes());
    proof {
        reveal(agent_slot);
        assert(key@ =~= "agent".spec_bytes() + be_bytes(agent_id as nat, 8) + field.spec_bytes());
    }
    keccak256(key.as_slice())
}

/// The slot of an agent's balance of an asset.
#[verifier::opaque]
pub open spec fn agent_balance_slot(agent_id: u64, asset_id: u64) -> U256 {
    keccak256_word("abalance".spec_bytes() + be_bytes(agent_id as nat, 8) + be_bytes(asset_id as nat, 8))
}

pub fn slot_agent_balance(agent_id: u64, asset_id: u64) -> (r: U256)
    ensures
        r == agent_balance_slot(agent_id, asset_id),
{
    let mut key: Vec<u8> = Vec::new();
    push_all(&mut key, "abalance".as_bytes());
    push_be(&mut key, agent_id as u128, 8);
    push_be(&mut key, asset_id as u128, 8);
    proof {
        reveal(agent_balance_slot);
        assert(key@ =~= "abalance".spec_bytes() + be_bytes(agent_id as nat, 8) + be_bytes(asset_id as nat, 8));
    }
    keccak256(key.as_slice())
}

/// The slot of a field of a validator.
#[verifier::opaque]
pub open spec fn validator_slot(account: Address, field: &str) -> U256 {
    keccak256_word(account.bytes() + field.spec_bytes())
}

pub fn slot_validator(account: Address, field: &str) -> (r: U256)
    ensures
        r == validator_slot(account, field),
{
    let mut key: Vec<u8> = Vec::new();
    account.push_to(&mut key);
    push_all(&mut key, field.as_bytes());
    proof {
        reveal(validator_slot);
        assert(key@ =~= account.bytes() + field.spec_bytes());
    }
    keccak256(key.as_slice())
}

/// The slot of a field of a proposal.
#[verifier::opaque]
pub open spec fn proposal_slot(proposal_id: u64, field: &str) -> U256 {
    keccak256_word("proposal".spec_bytes() + be_bytes(proposal_id as nat, 8) + field.spec_bytes())
}

pub fn slot_gov_proposal(proposal_id: u64, field: &str) -> (r: U256)
    ensures
        r == proposal_slot(proposal_id, field),
{
    let mut key: Vec<u8> = Vec::new();
    push_all(&mut key, "proposal".as_bytes());
    push_be(&mut key, proposal_id as u128, 8);
    push_all(&mut key, field.as_bytes());
    proof {
        reveal(proposal_slot);
        assert(key@ =~= "proposal".spec_bytes() + be_bytes(proposal_id as nat, 8) + field.spec_bytes());
    }
    keccak256(key.as_slice())
}

/// The slot of an account's vote on a proposal.
#[verifier::opaque]
pub open spec fn voter_slot(proposal_id: u64, voter: Address) -> U256 {
    keccak256_word("vote".spec_bytes() + be_bytes(proposal_id as nat, 8) + voter.bytes())
}

pub fn slot_gov_voter(proposal_id: u64, voter: Address) -> (r: U256)
    ensures
        r == voter_slot(proposal_id, voter),
{
    let mut key: Vec<u8> = Vec::new();
    push_all(&mut key, "vote".as_bytes());
    push_be(&mut key, proposal_id as u128, 8);
    voter.push_to(&mut key);
    proof {
        reveal(voter_slot);
        assert(key@ =~= "vote".spec_bytes() + be_bytes(proposal_id as nat, 8) + voter.bytes());
    }
    keccak256(key.as_slice())
}

/// The slot of a commitment of the shielded pool.
#[verifier::opaque]
pub open spec fn commitment_slot(index: u64) -> U256 {
    keccak256_word("commitment".spec_bytes() + be_bytes(index as nat, 8))
}

pub fn slot_shielded_commitment(index: u64) -> (r: U256)
    ensures
        r == commitment_slot(index),
{
    let mut key: Vec<u8> = Vec::new();
    push_all(&mut key, "commitment".as_bytes());
    push_be(&mut key, index as u128, 8);
    proof {
        reveal(commitment_slot);
        assert(key@ =~= "commitment".spec_bytes() + be_bytes(index as nat, 8));
    }
    keccak256(key.as_slice())
}

/// The slot of a node of the commitment tree.
#[verifier::opaque]
pub open spec fn tree_node_slot(level: u8, index: u64) -> U256 {
    keccak256_word("tree".spec_bytes() + be_bytes(level as nat, 1) + be_bytes(index as nat, 8))
}

pub fn slot_tree_node(level: u8, index: u64) -> (r: U256)
    ensures
        r == tree_node_slot(level, index),
{
    let mut key: Vec<u8> = Vec::new();
    push_all(&mut key, "tree".as_bytes());
    push_be(&mut key, level as u128, 1);
    push_be(&mut key, index as u128, 8);
    proof {
        reveal(tree_node_slot);
        assert(key@ =~= "tree".spec_bytes() + be_bytes(level as nat, 1) + be_bytes(index as nat, 8));
    }
    keccak256(key.as_slice())
}

/// The slot in which the identity of a validator is kept.
pub fn slot_validator_by_addr(account: Address) -> (r: U256)
    ensures
        r == validator_slot(account, "validator_id"),
{
    slot_validator(account, "validator_id")
}

/// The slot of the contract that wraps an asset on the EVM side.
pub fn slot_evm_contract(asset_id: u64) -> (r: U256)
    ensures
        r == asset_meta_slot(asset_id, "evm_contract"),
{
    slot_asset_meta(asset_id, "evm_contract")
}

} // verus!
