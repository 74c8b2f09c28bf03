use callchain::crypto::keccak256;
use callchain::primitives::{ExecutionStatus, FeeCurrency};
use callchain::protocol::receipts::{
    compute_receipt_root, get_receipt, hash_receipts, should_prune_receipt, ExternalBridgeReceipt,
    InstructionExecResult, ProtocolReceipt, ShieldedReceipt,
};
use callchain::words::{zero_address, zero_word, U256};

fn merkle_root(mut level: Vec<U256>) -> Option<U256> {
    while level.len() > 1 {
        level = level
            .chunks(2)
            .map(|pair| {
                let mut data = pair[0].to_be_bytes();
                data.extend_from_slice(&pair[pair.len() - 1].to_be_bytes());
                keccak256(&data)
            })
            .collect();
    }
    level.pop()
}

#[test]
fn test_receipt_creation_success() {
    let receipt = ProtocolReceipt {
        tx_hash: zero_word(),
        status: ExecutionStatus::Success,
        gas_used: 10_000,
        gas_payer: zero_address(),
        fee_currency: FeeCurrency::Call,
        fee_amount: 1_000_000,
        instruction_results: vec![InstructionExecResult {
            success: true,
            gas_used: 10_000,
            revert_reason: None,
        }],
        logs: Vec::new(),
        memos: Vec::new(),
        state_changes: Vec::new(),
    };
    assert_eq!(receipt.gas_used, 10_000);
    assert!(matches!(receipt.status, ExecutionStatus::Success));
}

#[test]
fn test_receipt_creation_reverted() {
    let receipt = ProtocolReceipt {
        tx_hash: zero_word(),
        status: ExecutionStatus::Reverted {
            reason: "out of gas".into(),
        },
        gas_used: 5_000,
        gas_payer: zero_address(),
        fee_currency: FeeCurrency::Call,
        fee_amount: 500_000,
        instruction_results: vec![InstructionExecResult {
            success: false,
            gas_used: 5_000,
            revert_reason: Some("out of gas".into()),
        }],
        logs: Vec::new(),
        memos: Vec::new(),
        state_changes: Vec::new(),
    };
    assert!(matches!(receipt.status, ExecutionStatus::Reverted { .. }));
}

#[test]
fn test_receipt_root_computation() {
    let receipts = vec![
        (
            zero_word(),
            ProtocolReceipt {
                tx_hash: zero_word(),
                status: ExecutionStatus::Success,
                gas_used: 10_000,
                gas_payer: zero_address(),
                fee_currency: FeeCurrency::Call,
                fee_amount: 0,
                instruction_results: vec![],
                logs: vec![],
                memos: vec![],
                state_changes: vec![],
            },
        ),
        (
            U256::repeat_byte(1),
            ProtocolReceipt {
                tx_hash: U256::repeat_byte(1),
                status: ExecutionStatus::Success,
                gas_used: 20_000,
                gas_payer: zero_address(),
                fee_currency: FeeCurrency::Call,
                fee_amount: 0,
                instruction_results: vec![],
                logs: vec![],
                memos: vec![],
                state_changes: vec![],
            },
        ),
    ];

    let receipt_list: Vec<_> = receipts.into_iter().map(|(_, r)| r).collect();
    let root = compute_receipt_root(&receipt_list, merkle_root);
    assert!(root.is_some());
}

#[test]
fn test_shielded_receipt_hides_amounts() {
    let receipt = ShieldedReceipt {
        nullifiers: vec![U256::repeat_byte(1)],
        commitments: vec![U256::repeat_byte(2)],
        encrypted_event: vec![0u8; 64],
        gas_used: 50_000,
    };
    // Shielded receipt contains no amount fields — only nullifiers/commitments
    assert_eq!(receipt.nullifiers.len(), 1);
    assert_eq!(receipt.commitments.len(), 1);
}

#[test]
fn test_external_bridge_receipt_source_tx() {
    let receipt = ExternalBridgeReceipt {
        source_tx_hash: U256::repeat_byte(0xAB),
        source_block: 12345,
        confirmations: 100,
        status: true,
    };
    assert_eq!(receipt.source_block, 12345);
    assert_eq!(receipt.confirmations, 100);
    assert!(receipt.status);
}

fn receipt(n: u8, status: ExecutionStatus) -> ProtocolReceipt {
    ProtocolReceipt {
        tx_hash: U256::repeat_byte(n),
        status,
        gas_used: 0x0102,
        gas_payer: zero_address(),
        fee_currency: FeeCurrency::Call,
        fee_amount: 0,
        instruction_results: vec![],
        logs: vec![],
        memos: vec![],
        state_changes: vec![],
    }
}

#[test]
fn receipts_are_hashed_in_turn() {
    let reverted = ExecutionStatus::Reverted { reason: "no".into() };
    let receipts = [receipt(1, ExecutionStatus::Success), receipt(2, reverted)];
    let mut first = vec![1; 32];
    first.extend_from_slice(&[1, 0, 0, 0, 0, 0, 0, 1, 2]);
    let mut second = vec![2; 32];
    second.extend_from_slice(&[0, 0, 0, 0, 0, 0, 0, 1, 2]);
    assert_eq!(hash_receipts(&receipts), vec![keccak256(&first), keccak256(&second)]);
    let mut both = keccak256(&first).to_be_bytes();
    both.extend_from_slice(&keccak256(&second).to_be_bytes());
    assert_eq!(compute_receipt_root(&receipts, merkle_root), Some(keccak256(&both)));
    assert_eq!(compute_receipt_root(&[], merkle_root), None);
}

#[test]
fn receipts_are_found_by_hash() {
    let kept = [
        (U256::repeat_byte(1), receipt(1, ExecutionStatus::Success)),
        (U256::repeat_byte(2), receipt(2, ExecutionStatus::Success)),
    ];
    let found = get_receipt(&kept, &U256::repeat_byte(2)).unwrap();
    assert_eq!(found.tx_hash, U256::repeat_byte(2));
    assert!(get_receipt(&kept, &zero_word()).is_none());
}

#[test]
fn old_receipts_are_pruned() {
    assert!(should_prune_receipt(10, 111, 100));
    assert!(!should_prune_receipt(10, 110, 100));
    assert!(!should_prune_receipt(110, 10, 0));
}
