use callchain::protocol::account::AccountState;
use callchain::protocol::compliance::{ComplianceEngine, ComplianceStatus};
use callchain::protocol::errors::ProtocolError;
use callchain::protocol::governance::{ProposalType, Vote};
use callchain::protocol::instructions::exec::{
    execute_instruction, execute_protocol_instructions, settle_instruction, unasked, AgentReply,
    Reply, Services, Stage,
};
use callchain::protocol::instructions::requests::{
    deposit_request, notes_to_read, oracle_request, proof_check, readable_notes, transfer_request,
    withdraw_request,
};
use callchain::protocol::instructions::types::{
    Instruction, InstructionResult, PaymentEntry, PaymentMemo,
};
use callchain::protocol::registry::AssetRegistry;
use callchain::words::{zero_word, Address, U256};

const NO_SERVICES: Services = Services { oracle: false, governance: false };

fn no_agent(_: &Instruction, _: Address) -> AgentReply {
    None
}

fn no_service(_: &Instruction, _: Address, _: Stage) -> Reply {
    unasked()
}

fn test_addr(n: u8) -> Address {
    Address::repeat_byte(n)
}

#[test]
fn test_execute_transfer() {
    let mut account = AccountState::new();
    account
        .balances
        .set_balance(1, test_addr(1), 1000)
        .unwrap();
    let mut registry = AssetRegistry::new();
    registry
        .register_asset("CALL".into(), "Callchain".into(), 18, test_addr(1), 0, 0, 0)
        .unwrap();
    let mut compliance = ComplianceEngine::new();

    let instructions = vec![Instruction::Transfer {
        asset_id: 1,
        to: test_addr(2),
        amount: 500,
        memo: None,
    }];

    let results = execute_protocol_instructions(
        &instructions,
        &mut account,
        &mut registry,
        &mut compliance,
        test_addr(1),
        NO_SERVICES,
        &no_agent,
        &no_service,
    )
    .expect("execute");

    assert_eq!(results.len(), 1);
    assert_eq!(account.get_balance(1, &test_addr(1)), 500);
    assert_eq!(account.get_balance(1, &test_addr(2)), 500);
}

#[test]
fn test_execute_batch_transfer() {
    let mut account = AccountState::new();
    account
        .balances
        .set_balance(1, test_addr(1), 3000)
        .unwrap();
    let mut registry = AssetRegistry::new();
    registry
        .register_asset("CALL".into(), "Callchain".into(), 18, test_addr(1), 0, 0, 0)
        .unwrap();
    let mut compliance = ComplianceEngine::new();

    let instructions = vec![Instruction::BatchTransfer {
        asset_id: 1,
        payments: vec![
            PaymentEntry {
                to: test_addr(2),
                amount: 1000,
                memo: None,
            },
            PaymentEntry {
                to: test_addr(3),
                amount: 1000,
                memo: None,
            },
        ],
    }];

    let results = execute_protocol_instructions(
        &instructions,
        &mut account,
        &mut registry,
        &mut compliance,
        test_addr(1),
        NO_SERVICES,
        &no_agent,
        &no_service,
    )
    .expect("execute");
    assert_eq!(results.len(), 1);
    assert_eq!(account.get_balance(1, &test_addr(1)), 1000);
}

#[test]
fn test_execute_approve_and_transfer_from() {
    let mut account = AccountState::new();
    account
        .balances
        .set_balance(1, test_addr(1), 1000)
        .unwrap();
    let mut registry = AssetRegistry::new();
    registry
        .register_asset("CALL".into(), "Callchain".into(), 18, test_addr(1), 0, 0, 0)
        .unwrap();
    let mut compliance = ComplianceEngine::new();

    let instructions = vec![
        Instruction::Approve {
            asset_id: 1,
            spender: test_addr(1), // approve to self for this test
            amount: 500,
        },
        Instruction::TransferFrom {
            asset_id: 1,
            from: test_addr(1),
            to: test_addr(3),
            amount: 300,
        },
    ];

    let results = execute_protocol_instructions(
        &instructions,
        &mut account,
        &mut registry,
        &mut compliance,
        test_addr(1),
        NO_SERVICES,
        &no_agent,
        &no_service,
    )
    .expect("execute");
    assert_eq!(results.len(), 2);
    assert_eq!(account.get_balance(1, &test_addr(3)), 300);
}

#[test]
fn test_execute_mint_issuer_only() {
    // Mint requires sender to be the asset issuer.
    let mut account = AccountState::new();
    let mut registry = AssetRegistry::new();
    registry
        .register_asset("T".into(), "Test".into(), 18, test_addr(1), 0, 100, 0)
        .unwrap();
    let mut compliance = ComplianceEngine::new();

    // Non-issuer tries to mint — should fail
    let instructions = vec![Instruction::Mint {
        asset_id: 1,
        to: test_addr(99),
        amount: 1000,
    }];
    let result = execute_protocol_instructions(
        &instructions,
        &mut account,
        &mut registry,
        &mut compliance,
        test_addr(99), // not the issuer
        NO_SERVICES,
        &no_agent,
        &no_service,
    );
    assert!(result.is_err());

    // Issuer mints — should succeed
    let result = execute_protocol_instructions(
        &instructions,
        &mut account,
        &mut registry,
        &mut compliance,
        test_addr(1), // the issuer
        NO_SERVICES,
        &no_agent,
        &no_service,
    );
    assert!(result.is_ok());
    assert_eq!(account.get_balance(1, &test_addr(99)), 1000);
}

#[test]
fn test_execute_burn_issuer_only() {
    let mut account = AccountState::new();
    let mut registry = AssetRegistry::new();
    registry
        .register_asset("T".into(), "Test".into(), 18, test_addr(1), 0, 100, 0)
        .unwrap();
    account
        .balances
        .set_balance(1, test_addr(1), 1000)
        .unwrap();
    let mut compliance = ComplianceEngine::new();

    // Non-issuer tries to burn — should fail
    let instructions = vec![Instruction::Burn {
        asset_id: 1,
        from: test_addr(1),
        amount: 500,
    }];
    let result = execute_protocol_instructions(
        &instructions,
        &mut account,
        &mut registry,
        &mut compliance,
        test_addr(99), // not the issuer
        NO_SERVICES,
        &no_agent,
        &no_service,
    );
    assert!(result.is_err());

    // Issuer burns — should succeed
    let result = execute_protocol_instructions(
        &instructions,
        &mut account,
        &mut registry,
        &mut compliance,
        test_addr(1), // the issuer
        NO_SERVICES,
        &no_agent,
        &no_service,
    );
    assert!(result.is_ok());
    assert_eq!(account.get_balance(1, &test_addr(1)), 500);
}

#[test]
fn test_memo_size_limits() {
    let memo_ok = PaymentMemo {
        message: "a".repeat(256),
        reference: Some("r".repeat(128)),
        metadata: Some(vec![0u8; 1024]),
    };
    assert!(memo_ok.validate().is_ok());

    let memo_big = PaymentMemo {
        message: "a".repeat(257),
        reference: None,
        metadata: None,
    };
    assert!(memo_big.validate().is_err());

    let memo_ref_big = PaymentMemo {
        message: "ok".into(),
        reference: Some("r".repeat(129)),
        metadata: None,
    };
    assert!(memo_ref_big.validate().is_err());

    let memo_meta_big = PaymentMemo {
        message: "ok".into(),
        reference: None,
        metadata: Some(vec![0u8; 1025]),
    };
    assert!(memo_meta_big.validate().is_err());
}

#[test]
fn test_instruction_rollback_on_failure() {
    let mut account = AccountState::new();
    account
        .balances
        .set_balance(1, test_addr(1), 1000)
        .unwrap();
    let mut registry = AssetRegistry::new();
    let mut compliance = ComplianceEngine::new();

    let instructions = vec![
        Instruction::Transfer {
            asset_id: 1,
            to: test_addr(2),
            amount: 200,
            memo: None,
        },
        Instruction::Transfer {
            asset_id: 1,
            to: test_addr(3),
            amount: 2000, // insufficient — should trigger rollback
            memo: None,
        },
    ];

    let result = execute_protocol_instructions(
        &instructions,
        &mut account,
        &mut registry,
        &mut compliance,
        test_addr(1),
        NO_SERVICES,
        &no_agent,
        &no_service,
    );
    assert!(result.is_err());
    // State should be rolled back to original
    assert_eq!(account.get_balance(1, &test_addr(1)), 1000);
    assert_eq!(account.get_balance(1, &test_addr(2)), 0);
}

#[test]
fn test_atomic_multi_instruction() {
    let mut account = AccountState::new();
    account
        .balances
        .set_balance(1, test_addr(1), 1000)
        .unwrap();
    let mut registry = AssetRegistry::new();
    registry
        .register_asset("CALL".into(), "Callchain".into(), 18, test_addr(1), 0, 0, 0)
        .unwrap();
    let mut compliance = ComplianceEngine::new();

    let instructions = vec![
        Instruction::Transfer {
            asset_id: 1,
            to: test_addr(2),
            amount: 300,
            memo: None,
        },
        Instruction::Transfer {
            asset_id: 1,
            to: test_addr(3),
            amount: 200,
            memo: None,
        },
    ];

    let results = execute_protocol_instructions(
        &instructions,
        &mut account,
        &mut registry,
        &mut compliance,
        test_addr(1),
        NO_SERVICES,
        &no_agent,
        &no_service,
    )
    .expect("execute");
    assert_eq!(results.len(), 2);
    assert_eq!(account.get_balance(1, &test_addr(1)), 500);
    assert_eq!(account.get_balance(1, &test_addr(2)), 300);
    assert_eq!(account.get_balance(1, &test_addr(3)), 200);
}

const ALL_SERVICES: Services = Services { oracle: true, governance: true };

/// An issuer with 1000 units of the native asset, number 1, and another account with 10.
fn world() -> (AccountState, AssetRegistry, ComplianceEngine) {
    let mut account = AccountState::new();
    account.balances.set_balance(1, test_addr(1), 1000).unwrap();
    account.balances.set_balance(1, test_addr(2), 10).unwrap();
    let mut registry = AssetRegistry::new();
    registry
        .register_asset("CALL".into(), "Callchain".into(), 18, test_addr(1), 2, 0, 50)
        .unwrap();
    (account, registry, ComplianceEngine::new())
}

fn settle(
    instruction: &Instruction,
    world: &mut (AccountState, AssetRegistry, ComplianceEngine),
    sender: Address,
    services: Services,
    checked: Reply,
    performed: Reply,
) -> Result<InstructionResult, ProtocolError> {
    let (account, registry, compliance) = world;
    settle_instruction(
        instruction,
        account,
        registry,
        compliance,
        sender,
        services,
        None,
        checked,
        performed,
    )
}

fn no() -> Reply {
    Reply { accepted: false, number: 0, reason: "full" }
}

fn yes(number: u128) -> Reply {
    Reply { accepted: true, number, reason: "" }
}

fn text(r: Result<InstructionResult, ProtocolError>) -> &'static str {
    match r {
        Err(ProtocolError::InvalidInstruction(s)) => s,
        Err(ProtocolError::Refused { by, reason: "full" }) => by,
        Err(ProtocolError::AssetError(s)) => s,
        Err(ProtocolError::Compliance(s)) => s,
        Err(ProtocolError::Unauthorized) => "unauthorized",
        Err(ProtocolError::InsufficientBalance) => "insufficient",
        Err(_) => "other",
        Ok(_) => "done",
    }
}

#[test]
fn inactive_assets_are_untouched() {
    let mut w = world();
    let transfer =
        Instruction::Transfer { asset_id: 1, to: test_addr(2), amount: 5, memo: None };
    w.1.freeze_asset(1, &test_addr(1)).unwrap();
    let r = settle(&transfer, &mut w, test_addr(1), NO_SERVICES, unasked(), unasked());
    assert_eq!(text(r), "asset is frozen");
    w.1.delist_asset(1, &test_addr(1)).unwrap();
    let r = settle(&transfer, &mut w, test_addr(1), NO_SERVICES, unasked(), unasked());
    assert_eq!(text(r), "asset is delisted");
    let unknown = Instruction::Approve { asset_id: 9, spender: test_addr(2), amount: 5 };
    let r = settle(&unknown, &mut w, test_addr(1), NO_SERVICES, unasked(), unasked());
    assert_eq!(text(r), "asset not found");
    assert_eq!(w.0.get_balance(1, &test_addr(2)), 10);
}

#[test]
fn compliance_is_enforced_for_every_party() {
    let mut w = world();
    let flag = Instruction::UpdateCompliance {
        asset_id: 1,
        target: test_addr(2),
        status: ComplianceStatus::Flagged,
    };
    let r = settle(&flag, &mut w, test_addr(2), NO_SERVICES, unasked(), unasked());
    assert_eq!(text(r), "unauthorized");
    let r = settle(&flag, &mut w, test_addr(1), NO_SERVICES, unasked(), unasked());
    assert_eq!(text(r), "done");
    let pay = Instruction::BatchTransfer {
        asset_id: 1,
        payments: vec![
            PaymentEntry { to: test_addr(3), amount: 5, memo: None },
            PaymentEntry { to: test_addr(2), amount: 5, memo: None },
        ],
    };
    let r = settle(&pay, &mut w, test_addr(1), NO_SERVICES, unasked(), unasked());
    assert_eq!(text(r), "compliance check failed");
    assert_eq!(w.0.get_balance(1, &test_addr(3)), 5);
    let from = Instruction::TransferFrom {
        asset_id: 1,
        from: test_addr(2),
        to: test_addr(3),
        amount: 1,
    };
    let r = settle(&from, &mut w, test_addr(1), NO_SERVICES, unasked(), unasked());
    assert_eq!(text(r), "compliance check failed");
}

#[test]
fn only_the_issuer_mints_and_burns() {
    let mut w = world();
    let mint = Instruction::Mint { asset_id: 1, to: test_addr(3), amount: 50 };
    let burn = Instruction::Burn { asset_id: 1, from: test_addr(2), amount: 10 };
    for instruction in [&mint, &burn] {
        let r = settle(instruction, &mut w, test_addr(2), NO_SERVICES, unasked(), unasked());
        assert_eq!(text(r), "unauthorized");
    }
    let r = settle(&mint, &mut w, test_addr(1), NO_SERVICES, unasked(), unasked());
    assert_eq!(text(r), "done");
    let r = settle(&mint, &mut w, test_addr(1), NO_SERVICES, unasked(), unasked());
    assert_eq!(text(r), "mint would exceed max supply cap");
    let r = settle(&burn, &mut w, test_addr(1), NO_SERVICES, unasked(), unasked());
    assert_eq!(text(r), "done");
    assert_eq!(w.0.get_balance(1, &test_addr(3)), 50);
    assert_eq!(w.0.get_balance(1, &test_addr(2)), 0);
    assert_eq!(w.1.get_asset(1).unwrap().protocol_supply, 50);
}

#[test]
fn bridge_deposits_need_a_proof() {
    let mut w = world();
    let deposit = |proof: Vec<u8>, asset_id: u64| Instruction::BridgeDeposit {
        source_chain: 1,
        target_address: test_addr(4),
        amount: 7,
        asset_id,
        proof,
    };
    let r = settle(&deposit(vec![], 1), &mut w, test_addr(2), NO_SERVICES, unasked(), unasked());
    assert_eq!(text(r), "bridge deposit: empty proof");
    let r = settle(&deposit(vec![1], 2), &mut w, test_addr(2), NO_SERVICES, unasked(), unasked());
    assert_eq!(text(r), "asset not found");
    let r = settle(&deposit(vec![1], 1), &mut w, test_addr(2), NO_SERVICES, unasked(), unasked());
    assert_eq!(text(r), "done");
    assert_eq!(w.0.get_balance(1, &test_addr(4)), 7);
}

#[test]
fn shielded_pool_is_asked_and_answers_count() {
    let mut w = world();
    let deposit = Instruction::ShieldedDeposit {
        asset_id: 1,
        amount: 100,
        commitment: zero_word(),
        encrypted_note: vec![],
    };
    let r = settle(&deposit, &mut w, test_addr(2), NO_SERVICES, yes(0), yes(0));
    assert_eq!(text(r), "insufficient");
    let r = settle(&deposit, &mut w, test_addr(1), NO_SERVICES, no(), yes(0));
    assert_eq!(text(r), "shielded deposit: invalid encrypted note");
    let r = settle(&deposit, &mut w, test_addr(1), NO_SERVICES, yes(0), yes(0));
    assert_eq!(text(r), "done");
    assert_eq!(w.0.get_balance(1, &test_addr(1)), 800);
    let withdraw = Instruction::ShieldedWithdraw {
        asset_id: 1,
        target: test_addr(5),
        amount: 30,
        proof: vec![],
        nullifier: zero_word(),
    };
    let r = settle(&withdraw, &mut w, test_addr(1), NO_SERVICES, unasked(), yes(0));
    assert_eq!(text(r), "shielded withdraw: invalid ZK proof");
    let r = settle(&withdraw, &mut w, test_addr(1), NO_SERVICES, yes(0), no());
    assert_eq!(text(r), "shielded withdraw");
    let r = settle(&withdraw, &mut w, test_addr(1), NO_SERVICES, yes(0), yes(0));
    assert_eq!(text(r), "done");
    assert_eq!(w.0.get_balance(0, &test_addr(5)), 30);
    let transfer = Instruction::ShieldedTransfer {
        asset_id: 1,
        proof: vec![],
        nullifiers: vec![],
        commitments: vec![],
        encrypted_notes: vec![],
    };
    let r = settle(&transfer, &mut w, test_addr(1), NO_SERVICES, unasked(), unasked());
    assert_eq!(text(r), "shielded transfer: invalid ZK proof structure");
    let r = settle(&transfer, &mut w, test_addr(1), NO_SERVICES, yes(0), yes(0));
    assert_eq!(text(r), "done");
}

#[test]
fn oracle_takes_signed_prices_of_validators() {
    let mut w = world();
    let submit = |n: usize| Instruction::OracleSubmit {
        asset_id: 1,
        price: 5,
        block_number: 1,
        timestamp: 1,
        signature: vec![0; n],
        sources: vec![],
    };
    let r = settle(&submit(64), &mut w, test_addr(1), NO_SERVICES, yes(3), yes(0));
    assert_eq!(text(r), "oracle not available");
    let r = settle(&submit(64), &mut w, test_addr(1), ALL_SERVICES, unasked(), yes(0));
    assert_eq!(text(r), "oracle: sender not a registered validator");
    let r = settle(&submit(63), &mut w, test_addr(1), ALL_SERVICES, yes(3), yes(0));
    assert_eq!(text(r), "oracle: signature must be 64 bytes");
    let r = settle(&submit(64), &mut w, test_addr(1), ALL_SERVICES, yes(3), no());
    assert_eq!(text(r), "oracle");
    let r = settle(&submit(64), &mut w, test_addr(1), ALL_SERVICES, yes(3), yes(0));
    assert_eq!(text(r), "done");
}

#[test]
fn governance_takes_a_deposit() {
    let mut w = world();
    let propose = Instruction::GovernanceSubmitProposal {
        proposal_type: ProposalType::FeeCurrencyCap { new_cap_bps: 1 },
        title: "t".into(),
        description: "d".into(),
        execution_data: vec![],
    };
    let r = settle(&propose, &mut w, test_addr(1), NO_SERVICES, yes(1), yes(0));
    assert_eq!(text(r), "governance not available");
    let r = settle(&propose, &mut w, test_addr(1), ALL_SERVICES, yes(1001), yes(0));
    assert_eq!(text(r), "governance: insufficient balance for proposal deposit");
    let r = settle(&propose, &mut w, test_addr(1), ALL_SERVICES, yes(400), yes(0));
    assert_eq!(text(r), "done");
    assert_eq!(w.0.get_balance(1, &test_addr(1)), 600);
    let vote = Instruction::GovernanceVote { proposal_id: 1, vote: Vote::Yes };
    let r = settle(&vote, &mut w, test_addr(1), ALL_SERVICES, unasked(), no());
    assert_eq!(text(r), "governance");
    let pause = Instruction::GovernanceEmergencyPause { reason: "r".into() };
    let r = settle(&pause, &mut w, test_addr(1), ALL_SERVICES, unasked(), yes(0));
    assert_eq!(text(r), "governance: sender not a registered validator");
}

#[test]
fn services_are_asked_with_what_was_looked_up() {
    let (mut account, mut registry, mut compliance) = world();
    let propose = Instruction::GovernanceSubmitProposal {
        proposal_type: ProposalType::FeeCurrencyCap { new_cap_bps: 1 },
        title: "t".into(),
        description: "d".into(),
        execution_data: vec![],
    };
    let service = |_: &Instruction, sender: Address, stage: Stage| match stage {
        Stage::Check => yes(25),
        Stage::Perform { with } => {
            Reply { accepted: with == 25 && sender == test_addr(1), number: 0, reason: "no" }
        }
    };
    let r = execute_instruction(
        &propose,
        &mut account,
        &mut registry,
        &mut compliance,
        test_addr(1),
        ALL_SERVICES,
        &no_agent,
        &service,
    );
    assert_eq!(text(r), "done");
    assert_eq!(account.get_balance(1, &test_addr(1)), 975);
}

#[test]
fn agents_come_first() {
    let (mut account, mut registry, mut compliance) = world();
    let agent = |i: &Instruction, _: Address| match i {
        Instruction::AgentCall { .. } => Some(Ok(InstructionResult::Success)),
        _ => None,
    };
    let call = Instruction::AgentCall { agent_id: 1, target: test_addr(1), data: vec![] };
    let transfer =
        Instruction::Transfer { asset_id: 1, to: test_addr(2), amount: 5, memo: None };
    let results = execute_protocol_instructions(
        &[call, transfer],
        &mut account,
        &mut registry,
        &mut compliance,
        test_addr(1),
        NO_SERVICES,
        &agent,
        &no_service,
    );
    assert_eq!(results.unwrap().len(), 2);
    assert_eq!(account.get_balance(1, &test_addr(2)), 15);
    let call = Instruction::AgentCall { agent_id: 1, target: test_addr(1), data: vec![] };
    let failed = execute_protocol_instructions(
        &[call],
        &mut account,
        &mut registry,
        &mut compliance,
        test_addr(1),
        NO_SERVICES,
        &no_agent,
        &no_service,
    );
    let failure = failed.unwrap_err();
    assert_eq!(failure.index, 0);
    assert_eq!(text(Err(failure.error)), "AgentCall requires an agent executor");
}

#[test]
fn failed_transaction_is_taken_back() {
    let (mut account, mut registry, mut compliance) = world();
    let flag = Instruction::UpdateCompliance {
        asset_id: 1,
        target: test_addr(3),
        status: ComplianceStatus::Restricted,
    };
    let approve = Instruction::Approve { asset_id: 1, spender: test_addr(2), amount: 9 };
    let pay = Instruction::Transfer { asset_id: 1, to: test_addr(2), amount: 5, memo: None };
    let fail = Instruction::Transfer { asset_id: 1, to: test_addr(3), amount: 5, memo: None };
    let failed = execute_protocol_instructions(
        &[flag, approve, pay, fail],
        &mut account,
        &mut registry,
        &mut compliance,
        test_addr(1),
        NO_SERVICES,
        &no_agent,
        &no_service,
    );
    assert_eq!(failed.unwrap_err().index, 3);
    assert_eq!(account.get_balance(1, &test_addr(1)), 1000);
    assert_eq!(account.get_balance(1, &test_addr(2)), 10);
    assert_eq!(account.allowances.get_allowance(1, &test_addr(1), &test_addr(2)), 0);
    compliance.check_compliance_by_policy_id(&test_addr(3), 2).unwrap();
}

#[test]
fn memos_are_limited_in_bytes() {
    let memo = |m: usize, r: usize, d: usize| PaymentMemo {
        message: "m".repeat(m),
        reference: Some("r".repeat(r)),
        metadata: Some(vec![0; d]),
    };
    memo(256, 128, 1024).validate().unwrap();
    let long = |m: PaymentMemo| match m.validate() {
        Err(ProtocolError::InvalidInstruction(s)) => s,
        _ => "",
    };
    assert_eq!(long(memo(257, 0, 0)), "memo message too long");
    assert_eq!(long(memo(0, 129, 0)), "memo reference too long");
    assert_eq!(long(memo(0, 0, 1025)), "memo metadata too long");
}

#[test]
fn failed_transaction_takes_its_supply_back() {
    let a = test_addr;
    let mut account = AccountState::new();
    let mut registry = AssetRegistry::new();
    registry.register_asset("T".into(), "Test".into(), 18, a(1), 0, 100, 0).unwrap();
    let mut compliance = ComplianceEngine::new();
    let mint = Instruction::Mint { asset_id: 1, to: a(2), amount: 10 };
    let fail = Instruction::Transfer { asset_id: 1, to: a(3), amount: 2000, memo: None };
    let failed = execute_protocol_instructions(
        &[mint, fail],
        &mut account,
        &mut registry,
        &mut compliance,
        a(1),
        NO_SERVICES,
        &no_agent,
        &no_service,
    );
    assert_eq!(failed.unwrap_err().index, 1);
    assert_eq!(account.get_balance(1, &a(2)), 0);
    assert_eq!(account.get_balance(1, &a(3)), 0);
    assert_eq!(registry.get_asset(1).unwrap().protocol_supply, 0);
}

#[test]
fn paying_oneself_in_a_transaction_makes_no_money() {
    let mut w = world();
    let pay = Instruction::Transfer { asset_id: 1, to: test_addr(1), amount: 400, memo: None };
    let r = settle(&pay, &mut w, test_addr(1), NO_SERVICES, unasked(), unasked());
    assert_eq!(text(r), "done");
    assert_eq!(w.0.get_balance(1, &test_addr(1)), 1000);
}

fn shielded_transfer() -> Instruction {
    Instruction::ShieldedTransfer {
        asset_id: 4,
        proof: vec![1, 2],
        nullifiers: vec![U256::repeat_byte(3)],
        commitments: vec![U256::repeat_byte(4), U256::repeat_byte(5)],
        encrypted_notes: vec![vec![7], vec![], vec![8, 9]],
    }
}

fn shielded_withdraw() -> Instruction {
    Instruction::ShieldedWithdraw {
        asset_id: 4,
        target: test_addr(1),
        amount: 6,
        proof: vec![1],
        nullifier: U256::repeat_byte(3),
    }
}

fn shielded_deposit() -> Instruction {
    Instruction::ShieldedDeposit {
        asset_id: 4,
        amount: 6,
        commitment: U256::repeat_byte(2),
        encrypted_note: vec![9, 9],
    }
}

fn signed_price(len: usize) -> Instruction {
    Instruction::OracleSubmit {
        asset_id: 5,
        price: 77,
        block_number: 1000,
        timestamp: 50,
        signature: (0..len).map(|b| b as u8).collect(),
        sources: vec!["x".into(), "y".into()],
    }
}

#[test]
fn price_is_handed_to_the_oracle_as_submitted() {
    let request = oracle_request(&signed_price(64), 3).unwrap();
    assert_eq!(request.validator_id, 3);
    assert_eq!((request.base, request.quote), (5, 0));
    assert_eq!((request.price, request.block_number, request.timestamp), (77, 1000, 50));
    assert_eq!(request.signature.to_vec(), (0..64u8).collect::<Vec<u8>>());
    assert_eq!(request.sources, ["x", "y"]);
    assert!(oracle_request(&signed_price(63), 3).is_none());
    assert!(oracle_request(&signed_price(65), 3).is_none());
    assert!(oracle_request(&shielded_deposit(), 3).is_none());
}

#[test]
fn proofs_are_handed_to_the_pool_as_submitted() {
    let check = proof_check(&shielded_transfer()).unwrap();
    assert_eq!((check.circuit, check.amount), ("transfer", None));
    assert_eq!(check.proof.proof_data, vec![1, 2]);
    assert_eq!(check.proof.nullifiers, vec![U256::repeat_byte(3)]);
    assert_eq!(check.proof.commitments, vec![U256::repeat_byte(4), U256::repeat_byte(5)]);
    assert_eq!(check.proof.asset_id, 4);
    let check = proof_check(&shielded_withdraw()).unwrap();
    assert_eq!((check.circuit, check.amount), ("withdraw", Some(6)));
    assert_eq!(check.proof.nullifiers, vec![U256::repeat_byte(3)]);
    assert!(check.proof.commitments.is_empty());
    assert!(proof_check(&shielded_deposit()).is_none());
}

#[test]
fn notes_that_cannot_be_read_are_dropped() {
    assert_eq!(readable_notes(vec![None, Some(1), None, Some(2)]), vec![1, 2]);
    let notes = notes_to_read(&shielded_transfer());
    assert_eq!(notes, vec![vec![7], vec![], vec![8, 9]]);
    let decoded: Vec<Option<u8>> = notes.iter().map(|n| n.first().copied()).collect();
    let request = transfer_request(&shielded_transfer(), decoded).unwrap();
    assert!(request.input_notes.is_empty());
    assert_eq!(request.output_notes, vec![7, 8]);
    assert_eq!(request.proof.proof_data, vec![1, 2]);
    assert!(transfer_request::<u8>(&shielded_withdraw(), vec![]).is_none());
}

#[test]
fn withdrawals_and_deposits_name_what_the_pool_needs() {
    assert_eq!(withdraw_request(&shielded_withdraw()), Some(U256::repeat_byte(3)));
    assert_eq!(withdraw_request(&shielded_deposit()), None);
    assert_eq!(notes_to_read(&shielded_deposit()), vec![vec![9, 9]]);
    assert!(notes_to_read(&shielded_withdraw()).is_empty());
    let request = deposit_request(&shielded_deposit(), "note").unwrap();
    assert_eq!((request.commitment, request.note), (U256::repeat_byte(2), "note"));
    assert!(deposit_request(&shielded_transfer(), "note").is_none());
}

#[test]
fn payments_keep_the_total_and_mints_do_not() {
    let mut w = world();
    let total = |account: &AccountState| -> u128 {
        (1..=4).map(|n| account.get_balance(1, &test_addr(n))).sum()
    };
    let before = total(&w.0);
    let pay = |to: u8, amount: u128| PaymentEntry { to: test_addr(to), amount, memo: None };
    let batch = Instruction::BatchTransfer {
        asset_id: 1,
        payments: vec![pay(1, 100), pay(2, 50), pay(3, 7), pay(1, 3)],
    };
    let r = settle(&batch, &mut w, test_addr(1), NO_SERVICES, unasked(), unasked());
    assert_eq!(text(r), "done");
    assert_eq!(total(&w.0), before);
    assert_eq!(w.0.get_balance(1, &test_addr(1)), 943);
    let supply = w.1.get_asset(1).unwrap().protocol_supply;
    let mint = Instruction::Mint { asset_id: 1, to: test_addr(4), amount: 25 };
    let r = settle(&mint, &mut w, test_addr(1), NO_SERVICES, unasked(), unasked());
    assert_eq!(text(r), "done");
    assert_eq!(total(&w.0), before + 25);
    assert_eq!(w.1.get_asset(1).unwrap().protocol_supply, supply + 25);
    let burn = Instruction::Burn { asset_id: 1, from: test_addr(4), amount: 24 };
    let r = settle(&burn, &mut w, test_addr(1), NO_SERVICES, unasked(), unasked());
    assert_eq!(text(r), "done");
    assert_eq!(total(&w.0), before + 1);
}
