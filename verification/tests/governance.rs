use callchain::protocol::economics::TOTAL_SUPPLY;
use callchain::protocol::governance::{
    GovernanceError, GovernanceManager, ProposalState, ProposalType, Vote,
    EXECUTION_TIMEOUT_BLOCKS, PROPOSAL_DEPOSIT, REVIEW_PERIOD_BLOCKS, VOTING_PERIOD_BLOCKS,
};
use callchain::words::Address;

fn test_addr(n: u8) -> Address {
    Address::repeat_byte(n)
}

fn one_million_call() -> u128 {
    1_000_000 * 10u128.pow(18)
}

fn make_manager_with_validators(count: u8) -> GovernanceManager {
    let mut mgr = GovernanceManager::new();
    for i in 1..=count {
        mgr.register_validator(i as u32, test_addr(i));
        // Small balance so balance-weighted voting doesn't dominate
        mgr.set_call_balance(test_addr(i), 1);
    }
    mgr
}

#[test]
fn test_proposal_submit_and_vote() {
    let mut mgr = make_manager_with_validators(3);

    // Give proposer enough balance for deposit
    let proposer = test_addr(10);
    mgr.set_call_balance(proposer, PROPOSAL_DEPOSIT * 2);

    let id = mgr
        .submit_proposal(
            proposer,
            ProposalType::ParameterChange {
                param_id: "max_block_size".into(),
                new_value: "10000000".into(),
            },
            "Increase block size".into(),
            "Double the max block size".into(),
            vec![],
        )
        .unwrap();

    assert_eq!(id, 0);

    // Deposit was deducted
    let balance = mgr.call_balances.get(proposer).unwrap();
    assert_eq!(*balance, PROPOSAL_DEPOSIT);

    // Advance to voting period
    mgr.set_current_block(REVIEW_PERIOD_BLOCKS + 1);

    // Validators vote yes
    mgr.vote(id, test_addr(1), Vote::Yes).unwrap();
    mgr.vote(id, test_addr(2), Vote::Yes).unwrap();
    mgr.vote(id, test_addr(3), Vote::No).unwrap();

    let proposal = mgr.get_proposal(id).unwrap();
    assert_eq!(proposal.voting_power_yes, 2); // 2 validators voted yes
    assert_eq!(proposal.voting_power_no, 1);
}

#[test]
fn test_proposal_passes_quorum() {
    let mut mgr = make_manager_with_validators(3);

    let proposer = test_addr(10);
    mgr.set_call_balance(proposer, PROPOSAL_DEPOSIT * 2);

    let id = mgr
        .submit_proposal(
            proposer,
            ProposalType::ParameterChange {
                param_id: "test".into(),
                new_value: "1".into(),
            },
            "Test".into(),
            "Test proposal".into(),
            vec![],
        )
        .unwrap();

    // Advance past voting
    mgr.set_current_block(REVIEW_PERIOD_BLOCKS + VOTING_PERIOD_BLOCKS + 1);

    // All 3 validators voted yes during voting (we'll simulate by directly setting)
    {
        let mut p = mgr.proposals.remove(id).unwrap();
        p.voting_power_yes = 3;
        mgr.proposals.insert(id, p);
    }

    // Queue should pass and move to queued
    mgr.queue_proposal(id).unwrap();

    let proposal = mgr.get_proposal(id).unwrap();
    assert_eq!(proposal.state, ProposalState::Queued);
    assert!(proposal.execution_block.is_some());
}

#[test]
fn test_proposal_fails_quorum() {
    let mut mgr = make_manager_with_validators(3);

    let proposer = test_addr(10);
    mgr.set_call_balance(proposer, PROPOSAL_DEPOSIT * 2);

    let id = mgr
        .submit_proposal(
            proposer,
            ProposalType::ParameterChange {
                param_id: "test".into(),
                new_value: "1".into(),
            },
            "Test".into(),
            "Test proposal".into(),
            vec![],
        )
        .unwrap();

    // Advance past voting without any votes
    mgr.set_current_block(REVIEW_PERIOD_BLOCKS + VOTING_PERIOD_BLOCKS + 1);

    let result = mgr.queue_proposal(id);
    assert!(result.is_err());

    let proposal = mgr.get_proposal(id).unwrap();
    assert_eq!(proposal.state, ProposalState::Defeated);
}

#[test]
fn test_proposal_timelock_execution() {
    let mut mgr = make_manager_with_validators(3);

    let proposer = test_addr(10);
    mgr.set_call_balance(proposer, PROPOSAL_DEPOSIT * 2);

    let id = mgr
        .submit_proposal(
            proposer,
            ProposalType::ParameterChange {
                param_id: "test".into(),
                new_value: "1".into(),
            },
            "Test".into(),
            "Test proposal".into(),
            vec![],
        )
        .unwrap();

    // Set votes, advance past voting
    {
        let mut p = mgr.proposals.remove(id).unwrap();
        p.voting_power_yes = 3;
        mgr.proposals.insert(id, p);
    }
    mgr.set_current_block(REVIEW_PERIOD_BLOCKS + VOTING_PERIOD_BLOCKS + 1);
    mgr.queue_proposal(id).unwrap();

    // Cannot execute before timelock
    let result = mgr.execute_proposal(id);
    assert!(result.is_err());

    // Advance past timelock
    let exec_block = mgr.get_proposal(id).unwrap().execution_block.unwrap();
    mgr.set_current_block(exec_block + 1);
    mgr.execute_proposal(id).unwrap();

    let proposal = mgr.get_proposal(id).unwrap();
    assert_eq!(proposal.state, ProposalState::Executed);

    // Deposit returned to proposer
    let balance = mgr.call_balances.get(proposer).unwrap();
    assert_eq!(*balance, PROPOSAL_DEPOSIT * 2 - PROPOSAL_DEPOSIT + PROPOSAL_DEPOSIT); // deposit deducted then restored
}

#[test]
fn test_proposal_expire_confiscate_deposit() {
    let mut mgr = make_manager_with_validators(3);

    let proposer = test_addr(10);
    mgr.set_call_balance(proposer, PROPOSAL_DEPOSIT * 2);

    let id = mgr
        .submit_proposal(
            proposer,
            ProposalType::ParameterChange {
                param_id: "test".into(),
                new_value: "1".into(),
            },
            "Test".into(),
            "Test proposal".into(),
            vec![],
        )
        .unwrap();

    // Queue the proposal
    {
        let mut p = mgr.proposals.remove(id).unwrap();
        p.voting_power_yes = 3;
        mgr.proposals.insert(id, p);
    }
    mgr.set_current_block(REVIEW_PERIOD_BLOCKS + VOTING_PERIOD_BLOCKS + 1);
    mgr.queue_proposal(id).unwrap();

    // Advance past execution timeout
    let exec_block = mgr.get_proposal(id).unwrap().execution_block.unwrap();
    mgr.set_current_block(exec_block + EXECUTION_TIMEOUT_BLOCKS + 1);

    mgr.expire_proposal(id).unwrap();

    let proposal = mgr.get_proposal(id).unwrap();
    assert_eq!(proposal.state, ProposalState::Expired);

    // Deposit confiscated
    assert!(mgr.deposits.get(proposer).is_none());
}

#[test]
fn test_validator_voting_1_1() {
    let mut mgr = make_manager_with_validators(3);

    let proposer = test_addr(10);
    mgr.set_call_balance(proposer, PROPOSAL_DEPOSIT * 2);

    let id = mgr
        .submit_proposal(
            proposer,
            ProposalType::ValidatorSlash {
                validator_id: 99,
                reason: "offline".into(),
            },
            "Slash offline validator".into(),
            "Validator 99 has been offline".into(),
            vec![],
        )
        .unwrap();

    mgr.set_current_block(REVIEW_PERIOD_BLOCKS + 1);

    // Each validator gets 1 vote regardless of balance
    mgr.vote(id, test_addr(1), Vote::Yes).unwrap();
    mgr.vote(id, test_addr(2), Vote::Yes).unwrap();

    let proposal = mgr.get_proposal(id).unwrap();
    assert_eq!(proposal.voting_power_yes, 2);
}

#[test]
fn test_call_holder_voting_balance_weighted() {
    let mut mgr = make_manager_with_validators(3);

    let proposer = test_addr(10);
    let big_holder = test_addr(20);
    mgr.set_call_balance(proposer, PROPOSAL_DEPOSIT * 2);
    mgr.set_call_balance(big_holder, TOTAL_SUPPLY / 4); // 25% of supply

    let id = mgr
        .submit_proposal(
            proposer,
            ProposalType::TreasurySpend {
                recipient: test_addr(30),
                amount: one_million_call(),
                asset_id: 0,
            },
            "Treasury spend".into(),
            "Send 1M CALL to address".into(),
            vec![],
        )
        .unwrap();

    mgr.set_current_block(REVIEW_PERIOD_BLOCKS + 1);

    // Big holder votes yes — voting power = their CALL balance
    mgr.vote(id, big_holder, Vote::Yes).unwrap();

    let proposal = mgr.get_proposal(id).unwrap();
    assert_eq!(proposal.voting_power_yes, TOTAL_SUPPLY / 4);
}

#[test]
fn test_vote_delegation() {
    let mut mgr = make_manager_with_validators(3);

    let delegator = test_addr(50);
    let delegate = test_addr(51);
    mgr.set_call_balance(delegator, 5_000_000);
    mgr.set_call_balance(delegate, 1_000_000);

    mgr.delegate_vote(delegator, delegate, 5_000_000, 1_000_000)
        .unwrap();

    // Delegated power for delegate
    let delegated = mgr.get_delegated_voting_power(delegate);
    assert_eq!(delegated, 5_000_000);

    // Undelegate
    mgr.undelegate_vote(delegator).unwrap();
    let delegated = mgr.get_delegated_voting_power(delegate);
    assert_eq!(delegated, 0);
}

#[test]
fn test_emergency_pause_2_3_signatures() {
    let mut mgr = make_manager_with_validators(3);

    // 2/3 of 3 = 2 signatures needed
    let result = mgr
        .emergency_pause_initiate(1, "critical bug".into())
        .unwrap();
    assert!(!result); // need more signatures

    let result = mgr
        .emergency_pause_initiate(2, "critical bug".into())
        .unwrap();
    assert!(result); // 2/3 reached, pause activated

    assert!(mgr.is_paused());
    assert_eq!(mgr.emergency_pause.pause_reason, "critical bug");

    // Resume
    mgr.emergency_pause_resume().unwrap();
    assert!(!mgr.is_paused());
}

#[test]
fn test_compliance_update_issuer_validator_joint() {
    let mut mgr = make_manager_with_validators(3);

    let proposer = test_addr(10);
    mgr.set_call_balance(proposer, PROPOSAL_DEPOSIT * 2);

    // Register an issuer
    let issuer = test_addr(20);
    mgr.register_asset_issuer(1, issuer);
    mgr.set_call_balance(issuer, PROPOSAL_DEPOSIT);

    let id = mgr
        .submit_proposal(
            issuer,
            ProposalType::ComplianceUpdate {
                asset_id: 1,
                new_policy: 1, // OFAC blacklist
            },
            "Update compliance".into(),
            "Enable OFAC blacklist".into(),
            vec![],
        )
        .unwrap();

    mgr.set_current_block(REVIEW_PERIOD_BLOCKS + 1);

    // Issuer votes — should have weight of total_supply / 10
    mgr.vote(id, issuer, Vote::Yes).unwrap();

    let proposal = mgr.get_proposal(id).unwrap();
    assert_eq!(proposal.voting_power_yes, TOTAL_SUPPLY / 10);

    // A validator also votes — adds 1 more
    mgr.vote(id, test_addr(1), Vote::Yes).unwrap();
    let proposal = mgr.get_proposal(id).unwrap();
    assert_eq!(proposal.voting_power_yes, TOTAL_SUPPLY / 10 + 1);
}

#[test]
fn test_proposal_insufficient_deposit() {
    let mut mgr = GovernanceManager::new();
    let proposer = test_addr(1);
    mgr.set_call_balance(proposer, PROPOSAL_DEPOSIT - 1);

    let result = mgr.submit_proposal(
        proposer,
        ProposalType::ParameterChange {
            param_id: "test".into(),
            new_value: "1".into(),
        },
        "Test".into(),
        "Test".into(),
        vec![],
    );
    assert!(matches!(result, Err(GovernanceError::InsufficientDeposit)));
}

#[test]
fn test_voting_before_period_rejected() {
    let mut mgr = make_manager_with_validators(3);
    let proposer = test_addr(10);
    mgr.set_call_balance(proposer, PROPOSAL_DEPOSIT * 2);

    let id = mgr
        .submit_proposal(
            proposer,
            ProposalType::ParameterChange {
                param_id: "test".into(),
                new_value: "1".into(),
            },
            "Test".into(),
            "Test".into(),
            vec![],
        )
        .unwrap();

    // Voting hasn't started yet (need to pass REVIEW_PERIOD_BLOCKS)
    let result = mgr.vote(id, test_addr(1), Vote::Yes);
    assert!(matches!(result, Err(GovernanceError::VotingNotStarted)));
}

#[test]
fn test_fee_currency_proposal_lifecycle() {
    let mut mgr = make_manager_with_validators(3);
    let proposer = test_addr(10);
    mgr.set_call_balance(proposer, PROPOSAL_DEPOSIT * 2);

    // FeeCurrencyAdd proposal
    let id = mgr
        .submit_proposal(
            proposer,
            ProposalType::FeeCurrencyAdd {
                asset_id: 5,
                name: "USDC".into(),
                oracle_price_key: "USDC/USD".into(),
            },
            "Add USDC as fee currency".into(),
            "USDC market cap > 100M".into(),
            vec![],
        )
        .unwrap();

    let proposal = mgr.get_proposal(id).unwrap();
    // Simple majority quorum for fee currency proposals
    assert_eq!(proposal.quorum_required, 2); // 3/2 + 1 = 2
}

#[test]
fn test_proposal_state_machine_full() {
    let mut mgr = make_manager_with_validators(3);
    let proposer = test_addr(10);
    mgr.set_call_balance(proposer, PROPOSAL_DEPOSIT * 2);

    let id = mgr
        .submit_proposal(
            proposer,
            ProposalType::ParameterChange {
                param_id: "test".into(),
                new_value: "1".into(),
            },
            "Test".into(),
            "Test".into(),
            vec![],
        )
        .unwrap();

    let p = mgr.get_proposal(id).unwrap();
    assert_eq!(p.state, ProposalState::Pending);

    // Advance past review into voting
    mgr.set_current_block(REVIEW_PERIOD_BLOCKS + 1);

    // Vote
    mgr.vote(id, test_addr(1), Vote::Yes).unwrap();
    let p = mgr.get_proposal(id).unwrap();
    assert_eq!(p.state, ProposalState::Active);

    // Advance past voting, pass
    mgr.set_current_block(REVIEW_PERIOD_BLOCKS + VOTING_PERIOD_BLOCKS + 1);
    {
        let mut p = mgr.proposals.remove(id).unwrap();
        p.voting_power_yes = 3; // ensure quorum
        mgr.proposals.insert(id, p);
    }
    mgr.queue_proposal(id).unwrap();

    let p = mgr.get_proposal(id).unwrap();
    assert_eq!(p.state, ProposalState::Queued);

    // Advance past timelock, execute
    let exec = p.execution_block.unwrap();
    mgr.set_current_block(exec + 1);
    mgr.execute_proposal(id).unwrap();

    let p = mgr.get_proposal(id).unwrap();
    assert_eq!(p.state, ProposalState::Executed);
}

#[test]
fn test_voter_cannot_vote_twice_same_proposal() {
    let mut mgr = make_manager_with_validators(3);
    let proposer = test_addr(10);
    mgr.set_call_balance(proposer, PROPOSAL_DEPOSIT * 2);

    let id = mgr
        .submit_proposal(
            proposer,
            ProposalType::ParameterChange {
                param_id: "test".into(),
                new_value: "1".into(),
            },
            "Test".into(),
            "Test".into(),
            vec![],
        )
        .unwrap();

    mgr.set_current_block(REVIEW_PERIOD_BLOCKS + 1);
    mgr.vote(id, test_addr(1), Vote::Yes).unwrap();
    // Second vote by same address should be rejected
    assert!(matches!(
        mgr.vote(id, test_addr(1), Vote::Yes),
        Err(GovernanceError::AlreadyVoted)
    ));

    let proposal = mgr.get_proposal(id).unwrap();
    assert_eq!(proposal.voting_power_yes, 1);
}

#[test]
fn test_protocol_upgrade_dual_quorum() {
    let mut mgr = make_manager_with_validators(3);
    let proposer = test_addr(10);
    mgr.set_call_balance(proposer, PROPOSAL_DEPOSIT * 2);

    let id = mgr
        .submit_proposal(
            proposer,
            ProposalType::ProtocolUpgrade {
                activation_block: 1_000_000,
                changelog: "v1.1.0 release".into(),
            },
            "Protocol upgrade".into(),
            "Upgrade to v1.1.0".into(),
            vec![],
        )
        .unwrap();

    let proposal = mgr.get_proposal(id).unwrap();
    // max(2/3 validators, 20% total supply)
    // 2/3 of 3 = 2, 20% of 1B = 200M
    assert_eq!(proposal.quorum_required, TOTAL_SUPPLY / 5);
}

fn parameter_change(data: &[u8]) -> (GovernanceManager, u64) {
    let mut mgr = make_manager_with_validators(3);
    let proposer = test_addr(10);
    mgr.set_call_balance(proposer, PROPOSAL_DEPOSIT);
    let kind = ProposalType::ParameterChange { param_id: "a".into(), new_value: "1".into() };
    let id = mgr
        .submit_proposal(proposer, kind, "t".into(), "d".into(), data.to_vec())
        .unwrap();
    mgr.set_current_block(REVIEW_PERIOD_BLOCKS);
    for n in 1..=3 {
        mgr.vote(id, test_addr(n), Vote::Yes).unwrap();
    }
    mgr.set_current_block(REVIEW_PERIOD_BLOCKS + VOTING_PERIOD_BLOCKS + 1);
    mgr.queue_proposal(id).unwrap();
    let at = mgr.get_proposal(id).unwrap().execution_block.unwrap();
    mgr.set_current_block(at);
    (mgr, id)
}

#[test]
fn data_of_a_parameter_change_is_read_as_json() {
    let (mut mgr, id) = parameter_change(br#"{"max_block_size": [1, 2.5, null]}"#);
    mgr.execute_proposal(id).unwrap();
    assert_eq!(mgr.call_balances.get(test_addr(10)), Some(&PROPOSAL_DEPOSIT));
    let (mut mgr, id) = parameter_change(b"{max_block_size");
    let failed = mgr.execute_proposal(id);
    assert!(matches!(
        failed,
        Err(GovernanceError::ExecutionFailed("invalid execution_data JSON"))
    ));
    assert_eq!(mgr.get_proposal(id).unwrap().state, ProposalState::Executed);
    assert_eq!(mgr.call_balances.get(test_addr(10)), Some(&0));
}

#[test]
fn unreadable_data_fails_whatever_they_are() {
    let (mut mgr, id) = parameter_change(b"1");
    assert!(mgr.execute_parsed(id, false).is_err());
    let (mut mgr, id) = parameter_change(b"{");
    mgr.execute_parsed(id, true).unwrap();
}

#[test]
fn executed_once_and_only_after_the_wait() {
    let (mut mgr, id) = parameter_change(b"");
    let at = mgr.current_block;
    mgr.set_current_block(at - 1);
    let early = mgr.execute_proposal(id);
    assert!(matches!(early, Err(GovernanceError::TimelockNotElapsed)));
    mgr.set_current_block(at);
    mgr.execute_proposal(id).unwrap();
    let again = mgr.execute_proposal(id);
    assert!(matches!(again, Err(GovernanceError::ProposalNotQueued)));
    assert!(matches!(mgr.execute_proposal(99), Err(GovernanceError::ProposalNotFound)));
    assert_eq!(mgr.get_all_proposals().len(), 1);
}

#[test]
fn defeated_proposal_loses_its_deposit() {
    let mut mgr = make_manager_with_validators(3);
    let proposer = test_addr(10);
    mgr.set_call_balance(proposer, PROPOSAL_DEPOSIT);
    let kind = ProposalType::ValidatorSlash { validator_id: 1, reason: "r".into() };
    let id = mgr.submit_proposal(proposer, kind, "t".into(), "d".into(), vec![]).unwrap();
    let early = mgr.queue_proposal(id);
    assert!(matches!(early, Err(GovernanceError::VotingPeriodNotEnded)));
    mgr.set_current_block(REVIEW_PERIOD_BLOCKS + VOTING_PERIOD_BLOCKS + 1);
    let late = mgr.vote(id, test_addr(1), Vote::Yes);
    assert!(matches!(late, Err(GovernanceError::VotingPeriodClosed)));
    let defeated = mgr.queue_proposal(id);
    assert!(matches!(defeated, Err(GovernanceError::ProposalDefeated)));
    assert_eq!(mgr.get_proposal(id).unwrap().state, ProposalState::Defeated);
    assert_eq!(mgr.deposits.get(proposer), None);
    assert_eq!(mgr.call_balances.get(proposer), Some(&0));
    assert!(matches!(mgr.queue_proposal(7), Err(GovernanceError::ProposalNotFound)));
}

#[test]
fn voters_without_power_are_refused_and_have_voted() {
    let mut mgr = make_manager_with_validators(1);
    let proposer = test_addr(10);
    mgr.set_call_balance(proposer, PROPOSAL_DEPOSIT);
    let kind = ProposalType::EmergencyPause { reason: "r".into() };
    let id = mgr.submit_proposal(proposer, kind, "t".into(), "d".into(), vec![]).unwrap();
    let early = mgr.vote(id, test_addr(9), Vote::Yes);
    assert!(matches!(early, Err(GovernanceError::VotingNotStarted)));
    mgr.set_current_block(REVIEW_PERIOD_BLOCKS);
    let powerless = mgr.vote(id, test_addr(9), Vote::Yes);
    assert!(matches!(powerless, Err(GovernanceError::NoVotingPower)));
    let again = mgr.vote(id, test_addr(9), Vote::Yes);
    assert!(matches!(again, Err(GovernanceError::AlreadyVoted)));
    assert!(matches!(mgr.vote(5, test_addr(1), Vote::No), Err(GovernanceError::ProposalNotFound)));
    mgr.vote(id, test_addr(1), Vote::Yes).unwrap();
    mgr.set_current_block(REVIEW_PERIOD_BLOCKS + VOTING_PERIOD_BLOCKS + 1);
    mgr.queue_proposal(id).unwrap();
    mgr.execute_proposal(id).unwrap();
    assert!(mgr.is_paused());
    assert_eq!(mgr.emergency_pause.pause_reason, "r");
}

#[test]
fn treasury_and_slashing_change_balances() {
    let mut mgr = make_manager_with_validators(3);
    let proposer = test_addr(10);
    mgr.set_call_balance(proposer, 3 * PROPOSAL_DEPOSIT);
    let spend = ProposalType::TreasurySpend { recipient: test_addr(11), amount: 5, asset_id: 1 };
    let id = mgr.submit_proposal(proposer, spend, "t".into(), "d".into(), vec![]).unwrap();
    let mut p = mgr.proposals.remove(id).unwrap();
    p.voting_power_yes = TOTAL_SUPPLY;
    mgr.proposals.insert(id, p);
    mgr.set_current_block(REVIEW_PERIOD_BLOCKS + VOTING_PERIOD_BLOCKS + 1);
    mgr.queue_proposal(id).unwrap();
    mgr.set_current_block(mgr.get_proposal(id).unwrap().execution_block.unwrap());
    mgr.execute_proposal(id).unwrap();
    assert_eq!(mgr.call_balances.get(test_addr(11)), Some(&5));
    assert_eq!(mgr.call_balances.get(proposer), Some(&(3 * PROPOSAL_DEPOSIT - 5)));

    let slash = ProposalType::ValidatorSlash { validator_id: 2, reason: "r".into() };
    let id = mgr.submit_proposal(proposer, slash, "t".into(), "d".into(), vec![]).unwrap();
    let mut p = mgr.proposals.remove(id).unwrap();
    p.voting_power_yes = 3;
    mgr.proposals.insert(id, p);
    mgr.set_current_block(mgr.get_proposal(id).unwrap().end_block + 1);
    mgr.queue_proposal(id).unwrap();
    mgr.set_current_block(mgr.get_proposal(id).unwrap().execution_block.unwrap());
    mgr.execute_proposal(id).unwrap();
    assert!(!mgr.validator_addresses.contains_key(2));
    assert_eq!(mgr.call_balances.get(test_addr(2)), None);
}

#[test]
fn delegations_count_until_they_expire() {
    let mut mgr = GovernanceManager::default();
    mgr.set_call_balance(test_addr(1), 10);
    let over = mgr.delegate_vote(test_addr(1), test_addr(2), 11, 100);
    assert!(matches!(over, Err(GovernanceError::InsufficientBalanceForDelegation)));
    mgr.delegate_vote(test_addr(1), test_addr(2), 7, 100).unwrap();
    mgr.set_current_block(100);
    assert_eq!(mgr.get_delegated_voting_power(test_addr(2)), 7);
    assert_eq!(mgr.get_delegated_voting_power(test_addr(1)), 0);
    mgr.set_current_block(101);
    assert_eq!(mgr.get_delegated_voting_power(test_addr(2)), 0);
    mgr.undelegate_vote(test_addr(1)).unwrap();
    let again = mgr.undelegate_vote(test_addr(1));
    assert!(matches!(again, Err(GovernanceError::NoDelegation)));
}

#[test]
fn pause_needs_validators_and_ends_once() {
    let mut mgr = GovernanceManager::new();
    let none = mgr.emergency_pause_initiate(1, "r".into());
    assert!(matches!(none, Err(GovernanceError::NoValidators)));
    let idle = mgr.emergency_pause_resume();
    assert!(matches!(idle, Err(GovernanceError::NotPaused)));
    mgr.register_validator(1, test_addr(1));
    let unknown = mgr.emergency_pause_initiate(2, "r".into());
    assert!(matches!(unknown, Err(GovernanceError::ValidatorNotFound)));
    assert!(mgr.emergency_pause_initiate(1, "r".into()).unwrap());
    assert!(mgr.is_paused());
    mgr.emergency_pause_resume().unwrap();
    assert!(!mgr.is_paused());
    assert!(mgr.emergency_pause.pause_signatures.is_empty());
}

#[test]
fn queued_proposals_expire() {
    let (mut mgr, id) = parameter_change(b"");
    let at = mgr.current_block;
    let early = mgr.expire_proposal(id);
    assert!(matches!(early, Err(GovernanceError::ExecutionTimeoutNotReached)));
    mgr.set_current_block(at + EXECUTION_TIMEOUT_BLOCKS);
    mgr.expire_proposal(id).unwrap();
    assert_eq!(mgr.get_proposal(id).unwrap().state, ProposalState::Expired);
    let again = mgr.expire_proposal(id);
    assert!(matches!(again, Err(GovernanceError::ProposalNotQueued)));
    assert!(matches!(mgr.expire_proposal(9), Err(GovernanceError::ProposalNotFound)));
}

#[test]
fn only_signatures_of_validators_count_for_a_pause() {
    let mut mgr = GovernanceManager::new();
    for id in 1..=6u32 {
        mgr.register_validator(id, test_addr(id as u8));
    }
    for id in 1..=3 {
        assert!(!mgr.emergency_pause_initiate(id, "r".into()).unwrap());
    }
    mgr.validator_addresses.remove(1);
    assert!(!mgr.emergency_pause_initiate(4, "r".into()).unwrap());
    assert!(!mgr.is_paused());
    assert!(mgr.emergency_pause_initiate(5, "s".into()).unwrap());
    assert!(mgr.is_paused());
    assert_eq!(mgr.emergency_pause.pause_reason, "s");
}

#[test]
fn proposal_is_executed_at_most_once() {
    let (mut mgr, id) = parameter_change(b"");
    mgr.queue_proposal(id).unwrap();
    let early = mgr.execute_proposal(id);
    assert!(matches!(early, Err(GovernanceError::TimelockNotElapsed)));
    let at = mgr.get_proposal(id).unwrap().execution_block.unwrap();
    mgr.set_current_block(at);
    mgr.execute_proposal(id).unwrap();
    let again = mgr.queue_proposal(id);
    assert!(matches!(again, Err(GovernanceError::ProposalNotQueued)));
    mgr.set_current_block(at + EXECUTION_TIMEOUT_BLOCKS);
    assert!(matches!(mgr.queue_proposal(id), Err(GovernanceError::ProposalNotQueued)));
    assert!(matches!(mgr.execute_proposal(id), Err(GovernanceError::ProposalNotQueued)));
    assert!(matches!(mgr.expire_proposal(id), Err(GovernanceError::ProposalNotQueued)));
    assert_eq!(mgr.get_proposal(id).unwrap().state, ProposalState::Executed);
}

#[test]
fn expired_and_defeated_proposals_stay_so() {
    let (mut mgr, id) = parameter_change(b"");
    let at = mgr.current_block;
    mgr.set_current_block(at + EXECUTION_TIMEOUT_BLOCKS);
    mgr.expire_proposal(id).unwrap();
    assert!(matches!(mgr.queue_proposal(id), Err(GovernanceError::ProposalNotQueued)));
    assert_eq!(mgr.get_proposal(id).unwrap().state, ProposalState::Expired);
    let mut mgr = make_manager_with_validators(3);
    mgr.set_call_balance(test_addr(10), PROPOSAL_DEPOSIT);
    let kind = ProposalType::FeeCurrencyCap { new_cap_bps: 1 };
    let id = mgr.submit_proposal(test_addr(10), kind, "t".into(), "d".into(), vec![]).unwrap();
    mgr.set_current_block(REVIEW_PERIOD_BLOCKS + VOTING_PERIOD_BLOCKS + 1);
    for _ in 0..2 {
        assert!(matches!(mgr.queue_proposal(id), Err(GovernanceError::ProposalDefeated)));
        assert_eq!(mgr.get_proposal(id).unwrap().state, ProposalState::Defeated);
    }
}
