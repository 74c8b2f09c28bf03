use callchain::precompiles::governance::{check_quorum, GovernancePrecompile};
use callchain::precompiles::slots::{
    asset_address, governance_address, slot_balance, slot_gov_proposal, slot_validator_by_addr,
    validator_address,
};
use callchain::precompiles::storage::{
    HashMapStorageProvider, PrecompileError, PrecompileResult, StatefulPrecompile, StorageCtx,
};
use callchain::protocol::CALL_ASSET_ID;
use callchain::words::{u128_to_u256, u64_to_u256, zero_address, Address, U256};

#[test]
fn test_governance_address() {
    assert_eq!(
        governance_address(),
        Address { hi: 0, lo: 0x203 }
    );
}

#[test]
fn test_governance_precompile_submit_and_get() {
    let mut provider = HashMapStorageProvider::new(1_000_000);
    let sender = Address::repeat_byte(0x44);

    {
        // Seed sender balance
        let sender_slot = slot_balance(CALL_ASSET_ID, sender);
        StorageCtx::sstore(&mut provider,
            asset_address(),
            sender_slot,
            u128_to_u256(100_000),
        );

        let mut precompile = GovernancePrecompile;

        // submitProposal(title, description, dataHash)
        let mut input = vec![0u8; 100];
        input[0..4].copy_from_slice(&[0x13, 0x16, 0x9e, 0x1c]);
        input[4..36].copy_from_slice(b"My Proposal_____________________");
        input[36..68].copy_from_slice(b"Description_____________________");
        input[68..100].copy_from_slice(&[0xDDu8; 32]);

        let result = precompile.call(&mut provider, &input, sender);
        assert!(result.is_ok(), "submit failed: {:?}", result.err());

        // getProposalCount
        let mut input = vec![0u8; 4];
        input[0..4].copy_from_slice(&[0x96, 0xce, 0x43, 0x73]);
        let result = precompile.call(&mut provider, &input, zero_address()).unwrap();
        let count = u64::from_be_bytes({
            let mut buf = [0u8; 8];
            buf.copy_from_slice(&result.bytes[24..32]);
            buf
        });
        assert_eq!(count, 1);

        // getProposalStatus(1)
        let mut input = vec![0u8; 36];
        input[0..4].copy_from_slice(&[0x7d, 0x62, 0xd7, 0x95]);
        input[28..36].copy_from_slice(&1u64.to_be_bytes());
        let result = precompile.call(&mut provider, &input, zero_address()).unwrap();
        assert_eq!(result.bytes[31], 1); // active

        // getProposalVotes(1)
        let mut input = vec![0u8; 36];
        input[0..4].copy_from_slice(&[0xeb, 0x79, 0x58, 0x56]);
        input[28..36].copy_from_slice(&1u64.to_be_bytes());
        let result = precompile.call(&mut provider, &input, zero_address()).unwrap();
        assert_eq!(&result.bytes[16..32], &[0u8; 16]); // votes_for = 0
        assert_eq!(&result.bytes[48..64], &[0u8; 16]); // votes_against = 0
        assert_eq!(&result.bytes[80..96], &[0u8; 16]); // votes_abstain = 0
    }
}

#[test]
fn test_governance_precompile_vote_queue_execute() {
    let mut provider = HashMapStorageProvider::new(1_000_000);
    let sender = Address::repeat_byte(0x44);

    {
        // Seed sender balance
        let sender_slot = slot_balance(CALL_ASSET_ID, sender);
        StorageCtx::sstore(&mut provider,
            asset_address(),
            sender_slot,
            u128_to_u256(100_000),
        );

        let mut precompile = GovernancePrecompile;

        // submitProposal
        let mut input = vec![0u8; 100];
        input[0..4].copy_from_slice(&[0x13, 0x16, 0x9e, 0x1c]);
        input[4..36].copy_from_slice(b"Proposal________________________");
        input[36..68].copy_from_slice(b"Desc____________________________");
        input[68..100].copy_from_slice(&[0xEEu8; 32]);
        precompile.call(&mut provider, &input, sender).unwrap();

        // vote(proposalId=1, vote=1=Yes)
        let mut input = vec![0u8; 68];
        input[0..4].copy_from_slice(&[0x02, 0x3d, 0x03, 0x3b]);
        input[28..36].copy_from_slice(&1u64.to_be_bytes());
        // uint8 at slot_offset 36 occupies byte 36+31 = 67
        input[67] = 1;
        let result = precompile.call(&mut provider, &input, sender);
        assert!(result.is_ok(), "vote failed: {:?}", result.err());

        // getProposalVotes(1)
        let mut input = vec![0u8; 36];
        input[0..4].copy_from_slice(&[0xeb, 0x79, 0x58, 0x56]);
        input[28..36].copy_from_slice(&1u64.to_be_bytes());
        let result = precompile.call(&mut provider, &input, zero_address()).unwrap();
        let votes_for = u128::from_be_bytes({
            let mut buf = [0u8; 16];
            buf.copy_from_slice(&result.bytes[16..32]);
            buf
        });
        assert_eq!(votes_for, 1);

        // queue(1)
        let mut input = vec![0u8; 36];
        input[0..4].copy_from_slice(&[0xfe, 0x72, 0xd0, 0x10]);
        input[28..36].copy_from_slice(&1u64.to_be_bytes());
        let result = precompile.call(&mut provider, &input, sender);
        assert!(result.is_ok(), "queue failed: {:?}", result.err());

        // getProposalStatus(1) should be 2 (queued)
        let mut input = vec![0u8; 36];
        input[0..4].copy_from_slice(&[0x7d, 0x62, 0xd7, 0x95]);
        input[28..36].copy_from_slice(&1u64.to_be_bytes());
        let result = precompile.call(&mut provider, &input, zero_address()).unwrap();
        assert_eq!(result.bytes[31], 2);
    }
}

#[test]
fn test_governance_precompile_emergency_pause_and_resume() {
    let mut provider = HashMapStorageProvider::new(1_000_000);
    let sender = Address::repeat_byte(0x44);

    {
        // Seed validator so pause/resume work
        StorageCtx::sstore(&mut provider,
            validator_address(),
            slot_validator_by_addr(sender),
            u64_to_u256(1),
        );

        let mut precompile = GovernancePrecompile;

        // isPaused() -> false
        let mut input = vec![0u8; 4];
        input[0..4].copy_from_slice(&[0x2d, 0xfe, 0x38, 0x74]);
        let result = precompile.call(&mut provider, &input, zero_address()).unwrap();
        assert_eq!(result.bytes[31], 0);

        // emergencyPause(reason)
        let mut input = vec![0u8; 36];
        input[0..4].copy_from_slice(&[0x7b, 0x39, 0x1c, 0x64]);
        input[4..36].copy_from_slice(b"Emergency reason________________");
        let result = precompile.call(&mut provider, &input, sender);
        assert!(result.is_ok(), "pause failed: {:?}", result.err());

        // isPaused() -> true
        let mut input = vec![0u8; 4];
        input[0..4].copy_from_slice(&[0x2d, 0xfe, 0x38, 0x74]);
        let result = precompile.call(&mut provider, &input, zero_address()).unwrap();
        assert_eq!(result.bytes[31], 1);

        // emergencyResume()
        let mut input = vec![0u8; 4];
        input[0..4].copy_from_slice(&[0x59, 0x7c, 0x1a, 0x8d]);
        let result = precompile.call(&mut provider, &input, sender);
        assert!(result.is_ok(), "resume failed: {:?}", result.err());

        // isPaused() -> false
        let mut input = vec![0u8; 4];
        input[0..4].copy_from_slice(&[0x2d, 0xfe, 0x38, 0x74]);
        let result = precompile.call(&mut provider, &input, zero_address()).unwrap();
        assert_eq!(result.bytes[31], 0);
    }
}

/// Calldata: a selector, which methods do not read, and words.
fn args(words: &[U256]) -> Vec<u8> {
    let mut out = vec![0; 4];
    for w in words {
        w.push_to(&mut out);
    }
    out
}

fn why(r: PrecompileResult) -> &'static str {
    match r {
        Err(PrecompileError::Other(s)) => s,
        Err(PrecompileError::Fatal(s)) => s,
        Err(PrecompileError::OutOfGas) => "out of gas",
        Err(_) => "other",
        Ok(_) => "done",
    }
}

fn addr(n: u8) -> Address {
    Address::repeat_byte(n)
}

/// Proposal 1 is open; block 10.
fn proposed() -> HashMapStorageProvider {
    let mut p = HashMapStorageProvider::with_block(100_000_000, 1, 10);
    p.set(asset_address(), slot_balance(1, addr(1)), u128_to_u256(10_001));
    let input = args(&[U256::repeat_byte(1), U256::repeat_byte(2), U256::repeat_byte(3)]);
    GovernancePrecompile.submit_proposal(&mut p, &input, addr(1)).unwrap();
    p
}

fn vote(p: &mut HashMapStorageProvider, voter: u8, value: u64) -> &'static str {
    why(GovernancePrecompile.vote(p, &args(&[u64_to_u256(1), u64_to_u256(value)]), addr(voter)))
}

#[test]
fn proposal_takes_its_deposit() {
    let mut p = proposed();
    let left = p.get(asset_address(), slot_balance(1, addr(1)));
    assert_eq!(left, Some(u128_to_u256(1)));
    let title = p.get(governance_address(), slot_gov_proposal(1, "title"));
    assert_eq!(title, Some(U256::repeat_byte(1)));
    let count = GovernancePrecompile.get_proposal_count(&mut p, &[0; 4]).unwrap().bytes;
    assert_eq!(count, u64_to_u256(1).to_be_bytes());
    let input = args(&[U256::repeat_byte(1), U256::repeat_byte(2), U256::repeat_byte(3)]);
    let again = GovernancePrecompile.submit_proposal(&mut p, &input, addr(1));
    assert_eq!(why(again), "governance: insufficient balance for proposal deposit");
}

#[test]
fn vote_counts_once() {
    let mut p = proposed();
    assert_eq!(vote(&mut p, 2, 1), "done");
    assert_eq!(vote(&mut p, 2, 2), "governance: already voted");
    assert_eq!(vote(&mut p, 3, 2), "done");
    assert_eq!(vote(&mut p, 4, 3), "done");
    assert_eq!(vote(&mut p, 5, 4), "governance: invalid vote value");
    let votes = GovernancePrecompile.get_proposal_votes(&mut p, &args(&[u64_to_u256(1)]));
    let votes = votes.unwrap().bytes;
    assert_eq!((votes[31], votes[63], votes[95]), (1, 1, 1));
}

#[test]
fn executed_once_after_the_wait() {
    let mut p = proposed();
    let id = args(&[u64_to_u256(1)]);
    let r = GovernancePrecompile.queue(&mut p, &id);
    assert_eq!(why(r), "governance: quorum not reached");
    let r = GovernancePrecompile.execute(&mut p, &id);
    assert_eq!(why(r), "governance: proposal not queued");
    vote(&mut p, 2, 1);
    assert_eq!(why(GovernancePrecompile.queue(&mut p, &id)), "done");
    assert_eq!(why(GovernancePrecompile.queue(&mut p, &id)), "governance: proposal not active");
    assert_eq!(vote(&mut p, 3, 1), "governance: proposal not active");
    p.set_block_number(109);
    let r = GovernancePrecompile.execute(&mut p, &id);
    assert_eq!(why(r), "governance: timelock not elapsed");
    p.set_block_number(110);
    assert_eq!(why(GovernancePrecompile.execute(&mut p, &id)), "done");
    let r = GovernancePrecompile.execute(&mut p, &id);
    assert_eq!(why(r), "governance: proposal not queued");
    let status = GovernancePrecompile.get_proposal_status(&mut p, &id).unwrap().bytes;
    assert_eq!(status, u64_to_u256(3).to_be_bytes());
}

#[test]
fn only_validators_pause() {
    let mut p = proposed();
    let reason = args(&[U256::repeat_byte(7)]);
    let r = GovernancePrecompile.emergency_pause(&mut p, &reason, addr(2));
    assert_eq!(why(r), "governance: sender not a registered validator");
    p.set(validator_address(), slot_validator_by_addr(addr(2)), u64_to_u256(1));
    let r = GovernancePrecompile.emergency_pause(&mut p, &reason, addr(2));
    assert_eq!(why(r), "done");
    let paused = GovernancePrecompile.is_paused(&mut p, &[0; 4]).unwrap().bytes;
    assert_eq!(paused, u64_to_u256(1).to_be_bytes());
    let r = GovernancePrecompile.emergency_resume(&mut p, &[0; 4], addr(3));
    assert_eq!(why(r), "governance: sender not a registered validator");
    let r = GovernancePrecompile.emergency_resume(&mut p, &[0; 4], addr(2));
    assert_eq!(why(r), "done");
    let paused = GovernancePrecompile.is_paused(&mut p, &[0; 4]).unwrap().bytes;
    assert_eq!(paused, vec![0; 32]);
}

#[test]
fn quorum_is_a_third_in_favour() {
    assert_eq!(check_quorum(0, 0, 0), Some(false));
    assert_eq!(check_quorum(1, 1, 1), Some(true));
    assert_eq!(check_quorum(3332, 6668, 0), Some(false));
    assert_eq!(check_quorum(3333, 6667, 0), Some(true));
    assert_eq!(check_quorum(u128::MAX, 1, 0), None);
    assert_eq!(check_quorum(u128::MAX / 2, 0, 0), None);
}
