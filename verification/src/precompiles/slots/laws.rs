//! Every slot is the hash of a byte string from which all that it is for can be read back, so that
//! two things share a slot only where the hash collides.

use crate::bytes::{be_bytes, be_nat, lemma_base_values, lemma_be_bytes_len, lemma_read_of_write};
use crate::crypto::keccak256_word;
use crate::precompiles::slots::{
    agent_balance_slot, agent_slot, allowance_slot, asset_meta_slot, balance_slot, commitment_slot,
    compliance_slot, proposal_slot, tag_slot, tagged_slot, tree_node_slot, validator_slot,
    voter_slot,
};
use crate::words::{
    lemma_address_from_be_of_bytes, lemma_word_from_be_of_bytes, Address, U256,
};
use vstd::prelude::*;
use vstd::string::StringSliceAdditionalSpecFns;

verus! {

/// A number that is written in 8 bytes is read back.
proof fn lemma_number(v: u64)
    ensures
        be_bytes(v as nat, 8).len() == 8,
        be_nat(be_bytes(v as nat, 8)) == v,
{
    lemma_base_values();
    lemma_be_bytes_len(v as nat, 8);
    lemma_read_of_write(v as nat, 8);
}

/// The slot of a balance tells asset and account; that of an allowance also the spender.
pub proof fn law_balance_slots_tell_apart(asset_id: u64, owner: Address, spender: Address)
    ensures
        exists|p: Seq<u8>|
            balance_slot(asset_id, owner) == #[trigger] keccak256_word(p) && p.len() == 28 && be_nat(
                p.subrange(0, 8),
            ) == asset_id && Address::from_be(p.subrange(8, 28)) == owner,
        exists|p: Seq<u8>|
            allowance_slot(asset_id, owner, spender) == #[trigger] keccak256_word(p) && p.len() == 48
                && be_nat(p.subrange(0, 8)) == asset_id && Address::from_be(p.subrange(8, 28))
                == owner && Address::from_be(p.subrange(28, 48)) == spender,
{
    reveal(balance_slot);
    reveal(allowance_slot);
    lemma_number(asset_id);
    lemma_address_from_be_of_bytes(owner);
    lemma_address_from_be_of_bytes(spender);
    let a = be_bytes(asset_id as nat, 8);
    let p = a + owner.bytes();
    assert(p.subrange(0, 8) =~= a);
    assert(p.subrange(8, 28) =~= owner.bytes());
    assert(balance_slot(asset_id, owner) == keccak256_word(p));
    let q = a + owner.bytes() + spender.bytes();
    assert(q.subrange(0, 8) =~= a);
    assert(q.subrange(8, 28) =~= owner.bytes());
    assert(q.subrange(28, 48) =~= spender.bytes());
    assert(allowance_slot(asset_id, owner, spender) == keccak256_word(q));
}

/// The slot of a field tells the field's name and what it is a field of.
pub proof fn law_field_slots_tell_apart(id: u64, account: Address, name: &str)
    ensures
        exists|p: Seq<u8>|
            asset_meta_slot(id, name) == #[trigger] keccak256_word(p) && p.len() == 8
                + name.spec_bytes().len() && be_nat(p.subrange(0, 8)) == id && p.subrange(
                8,
                p.len() as int,
            ) == name.spec_bytes(),
        exists|p: Seq<u8>|
            validator_slot(account, name) == #[trigger] keccak256_word(p) && p.len() == 20
                + name.spec_bytes().len() && Address::from_be(p.subrange(0, 20)) == account
                && p.subrange(20, p.len() as int) == name.spec_bytes(),
        exists|p: Seq<u8>|
            ({
                let k = "agent".spec_bytes().len() as int;
                &&& agent_slot(id, name) == #[trigger] keccak256_word(p)
                &&& p.len() == k + 8 + name.spec_bytes().len()
                &&& p.subrange(0, k) == "agent".spec_bytes()
                &&& be_nat(p.subrange(k, k + 8)) == id
                &&& p.subrange(k + 8, p.len() as int) == name.spec_bytes()
            }),
        exists|p: Seq<u8>|
            ({
                let k = "proposal".spec_bytes().len() as int;
                &&& proposal_slot(id, name) == #[trigger] keccak256_word(p)
                &&& p.len() == k + 8 + name.spec_bytes().len()
                &&& p.subrange(0, k) == "proposal".spec_bytes()
                &&& be_nat(p.subrange(k, k + 8)) == id
                &&& p.subrange(k + 8, p.len() as int) == name.spec_bytes()
            }),
{
    reveal(asset_meta_slot);
    reveal(validator_slot);
    reveal(agent_slot);
    reveal(proposal_slot);
    lemma_number(id);
    lemma_address_from_be_of_bytes(account);
    let n = be_bytes(id as nat, 8);
    let f = name.spec_bytes();
    let p = n + f;
    assert(p.subrange(0, 8) =~= n);
    assert(p.subrange(8, p.len() as int) =~= f);
    assert(asset_meta_slot(id, name) == keccak256_word(p));
    let q = account.bytes() + f;
    assert(q.subrange(0, 20) =~= account.bytes());
    assert(q.subrange(20, q.len() as int) =~= f);
    assert(validator_slot(account, name) == keccak256_word(q));
    let t = "agent".spec_bytes();
    let r = t + n + f;
    assert(r.subrange(0, t.len() as int) =~= t);
    assert(r.subrange(t.len() as int, t.len() as int + 8) =~= n);
    assert(r.subrange(t.len() as int + 8, r.len() as int) =~= f);
    assert(agent_slot(id, name) == keccak256_word(r));
    let u = "proposal".spec_bytes();
    let s = u + n + f;
    assert(s.subrange(0, u.len() as int) =~= u);
    assert(s.subrange(u.len() as int, u.len() as int + 8) =~= n);
    assert(s.subrange(u.len() as int + 8, s.len() as int) =~= f);
    assert(proposal_slot(id, name) == keccak256_word(s));
}

/// The slot of a standing tells account and policy; that of a vote the proposal and the voter; that
/// of what an agent holds the agent and the asset.
pub proof fn law_paired_slots_tell_apart(id: u64, asset_id: u64, account: Address, policy: u8)
    ensures
        exists|p: Seq<u8>|
            compliance_slot(account, policy) == #[trigger] keccak256_word(p) && p.len() == 21
                && Address::from_be(p.subrange(0, 20)) == account && p[20] == policy,
        exists|p: Seq<u8>|
            ({
                let k = "vote".spec_bytes().len() as int;
                &&& voter_slot(id, account) == #[trigger] keccak256_word(p)
                &&& p.len() == k + 28
                &&& p.subrange(0, k) == "vote".spec_bytes()
                &&& be_nat(p.subrange(k, k + 8)) == id
                &&& Address::from_be(p.subrange(k + 8, k + 28)) == account
            }),
        exists|p: Seq<u8>|
            ({
                let k = "abalance".spec_bytes().len() as int;
                &&& agent_balance_slot(id, asset_id) == #[trigger] keccak256_word(p)
                &&& p.len() == k + 16
                &&& p.subrange(0, k) == "abalance".spec_bytes()
                &&& be_nat(p.subrange(k, k + 8)) == id
                &&& be_nat(p.subrange(k + 8, k + 16)) == asset_id
            }),
{
    reveal(compliance_slot);
    reveal(voter_slot);
    reveal(agent_balance_slot);
    lemma_number(id);
    lemma_number(asset_id);
    lemma_address_from_be_of_bytes(account);
    reveal_with_fuel(be_bytes, 2);
    let n = be_bytes(id as nat, 8);
    let m = be_bytes(asset_id as nat, 8);
    let p = account.bytes() + be_bytes(policy as nat, 1);
    assert(p.subrange(0, 20) =~= account.bytes());
    assert(p[20] == policy);
    assert(compliance_slot(account, policy) == keccak256_word(p));
    let t = "vote".spec_bytes();
    let q = t + n + account.bytes();
    assert(q.subrange(0, t.len() as int) =~= t);
    assert(q.subrange(t.len() as int, t.len() as int + 8) =~= n);
    assert(q.subrange(t.len() as int + 8, t.len() as int + 28) =~= account.bytes());
    assert(voter_slot(id, account) == keccak256_word(q));
    let u = "abalance".spec_bytes();
    let r = u + n + m;
    assert(r.subrange(0, u.len() as int) =~= u);
    assert(r.subrange(u.len() as int, u.len() as int + 8) =~= n);
    assert(r.subrange(u.len() as int + 8, u.len() as int + 16) =~= m);
    assert(agent_balance_slot(id, asset_id) == keccak256_word(r));
}

/// The slot of a commitment tells its place, that of a tree node its level and place, and that of
/// something under a tag the tag and what it is for.
pub proof fn law_tagged_slots_tell_apart(tag: &str, v: U256, level: u8, index: u64)
    ensures
        tag_slot(tag) == keccak256_word(tag.spec_bytes()),
        exists|p: Seq<u8>|
            ({
                let k = tag.spec_bytes().len() as int;
                &&& tagged_slot(tag, v) == #[trigger] keccak256_word(p)
                &&& p.len() == k + 32
                &&& p.subrange(0, k) == tag.spec_bytes()
                &&& U256::from_be(p.subrange(k, k + 32)) == v
            }),
        exists|p: Seq<u8>|
            ({
                let k = "commitment".spec_bytes().len() as int;
                &&& commitment_slot(index) == #[trigger] keccak256_word(p)
                &&& p.len() == k + 8
                &&& p.subrange(0, k) == "commitment".spec_bytes()
                &&& be_nat(p.subrange(k, k + 8)) == index
            }),
        exists|p: Seq<u8>|
            ({
                let k = "tree".spec_bytes().len() as int;
                &&& tree_node_slot(level, index) == #[trigger] keccak256_word(p)
                &&& p.len() == k + 9
                &&& p.subrange(0, k) == "tree".spec_bytes()
                &&& p[k] == level
                &&& be_nat(p.subrange(k + 1, k + 9)) == index
            }),
{
    reveal(tag_slot);
    reveal(tagged_slot);
    reveal(commitment_slot);
    reveal(tree_node_slot);
    lemma_number(index);
    lemma_word_from_be_of_bytes(v);
    reveal_with_fuel(be_bytes, 2);
    let n = be_bytes(index as nat, 8);
    let t = tag.spec_bytes();
    let p = t + v.bytes();
    assert(p.subrange(0, t.len() as int) =~= t);
    assert(p.subrange(t.len() as int, t.len() as int + 32) =~= v.bytes());
    assert(tagged_slot(tag, v) == keccak256_word(p));
    let c = "commitment".spec_bytes();
    let q = c + n;
    assert(q.subrange(0, c.len() as int) =~= c);
    assert(q.subrange(c.len() as int, c.len() as int + 8) =~= n);
    assert(commitment_slot(index) == keccak256_word(q));
    let u = "tree".spec_bytes();
    let r = u + be_bytes(level as nat, 1) + n;
    assert(r.subrange(0, u.len() as int) =~= u);
    assert(r[u.len() as int] == level);
    assert(r.subrange(u.len() as int + 1, u.len() as int + 9) =~= n);
    assert(tree_node_slot(level, index) == keccak256_word(r));
}

} // verus!
