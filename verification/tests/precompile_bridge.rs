use callchain::precompiles::asset::load_bal;
use callchain::precompiles::bridge::{
    bridge_deposit, bridge_get_status, bridge_withdraw, BridgePrecompile, BridgeState,
};
use callchain::precompiles::slots::{
    asset_address, bridge_address, slot_asset_meta, slot_balance, slot_tag, slot_tagged,
    slot_validator_by_addr, validator_address,
};
use callchain::precompiles::storage::{
    HashMapStorageProvider, PrecompileError, PrecompileResult, StatefulPrecompile, StorageCtx,
};
use callchain::protocol::CALL_ASSET_ID;
use callchain::words::{
    address_to_u256, u128_to_u256, u256_to_address, u256_to_u128, u256_to_u64, u64_to_u256,
    zero_address, Address, U256,
};

#[test]
fn test_bridge_address() {
    assert_eq!(
        bridge_address(),
        Address { hi: 0, lo: 0x103 }
    );
}

#[test]
fn test_bridge_precompile_protocol_balance() {
    let status = bridge_get_status();
    assert!(!status.completed);
    assert_eq!(status.confirmations, 0);
}

#[test]
fn test_bridge_deposit_and_withdraw() {
    let mut state = BridgeState::default();
    bridge_deposit(&mut state, 1, zero_address(), zero_address(), 1000);
    assert_eq!(state.total_deposits, 1000);
    assert_eq!(state.pending_ops, 1);

    bridge_withdraw(&mut state, 1, zero_address(), zero_address(), 500);
    assert_eq!(state.total_withdrawals, 500);
    assert_eq!(state.pending_ops, 2);
}

#[test]
fn test_bridge_precompile_stateful_reads() {
    let mut provider = HashMapStorageProvider::new(1_000_000);

    {
        StorageCtx::sstore(&mut provider,
            bridge_address(),
            u64_to_u256(0),
            u128_to_u256(5000),
        );
        StorageCtx::sstore(&mut provider,
            bridge_address(),
            u64_to_u256(1),
            u128_to_u256(2000),
        );

        let mut precompile = BridgePrecompile;

        // getTotalDeposits
        let mut input = vec![0u8; 4];
        input[0..4].copy_from_slice(&[0xa8, 0x7e, 0x4f, 0x2a]);
        let result = precompile.call(&mut provider, &input, zero_address()).unwrap();
        let deposits = u128::from_be_bytes({
            let mut buf = [0u8; 16];
            buf.copy_from_slice(&result.bytes[16..32]);
            buf
        });
        assert_eq!(deposits, 5000);

        // getTotalWithdrawals
        let mut input = vec![0u8; 4];
        input[0..4].copy_from_slice(&[0x9c, 0x3e, 0x6d, 0x1b]);
        let result = precompile.call(&mut provider, &input, zero_address()).unwrap();
        let withdrawals = u128::from_be_bytes({
            let mut buf = [0u8; 16];
            buf.copy_from_slice(&result.bytes[16..32]);
            buf
        });
        assert_eq!(withdrawals, 2000);
    }
}

#[test]
fn test_external_deposit_records_metadata() {
    let mut provider = HashMapStorageProvider::with_block(1_000_000, 1, 10);
    let validator = Address::repeat_byte(0x11);
    let recipient = Address::repeat_byte(0x22);
    let source_tx_hash = [0xABu8; 32];

    {
        // Register asset_id=1
        StorageCtx::sstore(&mut provider,
            asset_address(),
            slot_asset_meta(1u64, "issuer"),
            u64_to_u256(1),
        );

        let mut precompile = BridgePrecompile;

        // externalDeposit(sourceTxHash, assetId=1, recipient, amount=1000)
        let mut input = vec![0u8; 132];
        input[0..4].copy_from_slice(&[0x1a, 0xba, 0x07, 0x00]);
        input[4..36].copy_from_slice(&source_tx_hash);
        input[60..68].copy_from_slice(&1u64.to_be_bytes());
        input[80..100].copy_from_slice(&recipient.to_bytes());
        input[116..132].copy_from_slice(&1000u128.to_be_bytes());

        let result = precompile.call(&mut provider, &input, validator);
        assert!(result.is_ok(), "external_deposit failed: {:?}", result.err());

        // Verify metadata stored
        let stored_asset_id = StorageCtx::sload(&mut provider, bridge_address(), slot_tagged("deposit_asset_id", U256::from_be_slice(&source_tx_hash)))
            .map(u256_to_u64).unwrap_or(0);
        assert_eq!(stored_asset_id, 1);

        let stored_recipient = StorageCtx::sload(&mut provider, bridge_address(), slot_tagged("deposit_recipient", U256::from_be_slice(&source_tx_hash)))
            .map(u256_to_address).unwrap_or(zero_address());
        assert_eq!(stored_recipient, recipient);

        let stored_amount = StorageCtx::sload(&mut provider, bridge_address(), slot_tagged("deposit_amount", U256::from_be_slice(&source_tx_hash)))
            .map(u256_to_u128).unwrap_or(0);
        assert_eq!(stored_amount, 1000);

        let stored_height = StorageCtx::sload(&mut provider, bridge_address(), slot_tagged("deposit_block", U256::from_be_slice(&source_tx_hash)))
            .map(u256_to_u64).unwrap_or(0);
        assert_eq!(stored_height, 10);

        let stored_validator = StorageCtx::sload(&mut provider, bridge_address(), slot_tagged("challenge_validator", U256::from_be_slice(&source_tx_hash)))
            .map(u256_to_address).unwrap_or(zero_address());
        assert_eq!(stored_validator, validator);
    }
}

#[test]
fn test_initiate_challenge_success() {
    let mut provider = HashMapStorageProvider::with_block(1_000_000, 1, 10);
    let validator = Address::repeat_byte(0x11);
    let challenger = Address::repeat_byte(0x33);
    let recipient = Address::repeat_byte(0x22);
    let source_tx_hash = [0xABu8; 32];

    {
        // Register asset_id=1 and seed challenger balance
        StorageCtx::sstore(&mut provider,
            asset_address(),
            slot_asset_meta(1u64, "issuer"),
            u64_to_u256(1),
        );
        StorageCtx::sstore(&mut provider,
            asset_address(),
            slot_balance(CALL_ASSET_ID, challenger),
            u128_to_u256(5000),
        );
        // Seed recipient balance for externalDeposit
        StorageCtx::sstore(&mut provider,
            asset_address(),
            slot_balance(1, recipient),
            u128_to_u256(0),
        );

        let mut precompile = BridgePrecompile;

        // 1. externalDeposit
        let mut input = vec![0u8; 132];
        input[0..4].copy_from_slice(&[0x1a, 0xba, 0x07, 0x00]);
        input[4..36].copy_from_slice(&source_tx_hash);
        input[60..68].copy_from_slice(&1u64.to_be_bytes());
        input[80..100].copy_from_slice(&recipient.to_bytes());
        input[116..132].copy_from_slice(&1000u128.to_be_bytes());
        precompile.call(&mut provider, &input, validator).unwrap();

        // 2. initiateChallenge at block 10 (within period)
        let mut input = vec![0u8; 132];
        input[0..4].copy_from_slice(&[0x07, 0xde, 0xe8, 0xd0]);
        input[4..36].copy_from_slice(&source_tx_hash);
        // proof offset = 64
        input[36 + 24..36 + 32].copy_from_slice(&64u64.to_be_bytes());
        // proof data: len=4, data="proof"
        let proof_abs = 4 + 64;
        input[proof_abs + 24..proof_abs + 32].copy_from_slice(&5u64.to_be_bytes());
        input[proof_abs + 32..proof_abs + 37].copy_from_slice(b"proof");

        let result = precompile.call(&mut provider, &input, challenger);
        assert!(result.is_ok(), "initiate_challenge failed: {:?}", result.err());

        // Verify challenge stored
        let status = StorageCtx::sload(&mut provider, bridge_address(), slot_tagged("challenge_status", U256::from_be_slice(&source_tx_hash)))
            .map(|v| v.to_be_bytes()[31]).unwrap_or(0);
        assert_eq!(status, 1); // Pending

        let stored_challenger = StorageCtx::sload(&mut provider, bridge_address(), slot_tagged("challenge_challenger", U256::from_be_slice(&source_tx_hash)))
            .map(u256_to_address).unwrap_or(zero_address());
        assert_eq!(stored_challenger, challenger);

        let deadline = StorageCtx::sload(&mut provider, bridge_address(), slot_tagged("challenge_deadline", U256::from_be_slice(&source_tx_hash)))
            .map(u256_to_u64).unwrap_or(0);
        assert_eq!(deadline, 110); // block 10 + period 100

        // Bond deducted from challenger
        let challenger_bal = load_bal(&mut provider, CALL_ASSET_ID, challenger);
        assert_eq!(challenger_bal, 4000); // 5000 - 1000 bond
    }
}

#[test]
fn test_initiate_challenge_fails_not_processed() {
    let mut provider = HashMapStorageProvider::with_block(1_000_000, 1, 10);
    let challenger = Address::repeat_byte(0x33);
    let source_tx_hash = [0xABu8; 32];

    {
        let mut precompile = BridgePrecompile;

        let mut input = vec![0u8; 132];
        input[0..4].copy_from_slice(&[0x07, 0xde, 0xe8, 0xd0]);
        input[4..36].copy_from_slice(&source_tx_hash);
        input[36 + 24..36 + 32].copy_from_slice(&64u64.to_be_bytes());
        let proof_abs = 4 + 64;
        input[proof_abs + 24..proof_abs + 32].copy_from_slice(&5u64.to_be_bytes());
        input[proof_abs + 32..proof_abs + 37].copy_from_slice(b"proof");

        let result = precompile.call(&mut provider, &input, challenger);
        assert!(result.is_err(), "should fail: source tx not processed");
    }
}

#[test]
fn test_initiate_challenge_fails_period_expired() {
    let mut provider = HashMapStorageProvider::with_block(1_000_000, 1, 100);
    let validator = Address::repeat_byte(0x11);
    let challenger = Address::repeat_byte(0x33);
    let recipient = Address::repeat_byte(0x22);
    let source_tx_hash = [0xABu8; 32];

    // externalDeposit at block 100
    {
        StorageCtx::sstore(&mut provider,
            asset_address(),
            slot_asset_meta(1u64, "issuer"),
            u64_to_u256(1),
        );
        StorageCtx::sstore(&mut provider,
            asset_address(),
            slot_balance(CALL_ASSET_ID, challenger),
            u128_to_u256(5000),
        );
        StorageCtx::sstore(&mut provider,
            asset_address(),
            slot_balance(1, recipient),
            u128_to_u256(0),
        );

        let mut precompile = BridgePrecompile;

        let mut input = vec![0u8; 132];
        input[0..4].copy_from_slice(&[0x1a, 0xba, 0x07, 0x00]);
        input[4..36].copy_from_slice(&source_tx_hash);
        input[60..68].copy_from_slice(&1u64.to_be_bytes());
        input[80..100].copy_from_slice(&recipient.to_bytes());
        input[116..132].copy_from_slice(&1000u128.to_be_bytes());
        precompile.call(&mut provider, &input, validator).unwrap();
    }

    // initiateChallenge at block 200 (deposit at block 100, period = 100, so expired)
    provider.set_block_number(200);
    {
        let mut precompile = BridgePrecompile;

        let mut input = vec![0u8; 132];
        input[0..4].copy_from_slice(&[0x07, 0xde, 0xe8, 0xd0]);
        input[4..36].copy_from_slice(&source_tx_hash);
        input[36 + 24..36 + 32].copy_from_slice(&64u64.to_be_bytes());
        let proof_abs = 4 + 64;
        input[proof_abs + 24..proof_abs + 32].copy_from_slice(&5u64.to_be_bytes());
        input[proof_abs + 32..proof_abs + 37].copy_from_slice(b"proof");

        let result = precompile.call(&mut provider, &input, challenger);
        assert!(result.is_err(), "should fail: challenge period expired");
    }
}

#[test]
fn test_initiate_challenge_fails_already_challenged() {
    let mut provider = HashMapStorageProvider::with_block(1_000_000, 1, 10);
    let validator = Address::repeat_byte(0x11);
    let challenger = Address::repeat_byte(0x33);
    let recipient = Address::repeat_byte(0x22);
    let source_tx_hash = [0xABu8; 32];

    {
        StorageCtx::sstore(&mut provider,
            asset_address(),
            slot_asset_meta(1u64, "issuer"),
            u64_to_u256(1),
        );
        StorageCtx::sstore(&mut provider,
            asset_address(),
            slot_balance(CALL_ASSET_ID, challenger),
            u128_to_u256(5000),
        );
        StorageCtx::sstore(&mut provider,
            asset_address(),
            slot_balance(1, recipient),
            u128_to_u256(0),
        );

        let mut precompile = BridgePrecompile;

        // externalDeposit
        let mut input = vec![0u8; 132];
        input[0..4].copy_from_slice(&[0x1a, 0xba, 0x07, 0x00]);
        input[4..36].copy_from_slice(&source_tx_hash);
        input[60..68].copy_from_slice(&1u64.to_be_bytes());
        input[80..100].copy_from_slice(&recipient.to_bytes());
        input[116..132].copy_from_slice(&1000u128.to_be_bytes());
        precompile.call(&mut provider, &input, validator).unwrap();

        // First challenge
        let mut input = vec![0u8; 132];
        input[0..4].copy_from_slice(&[0x07, 0xde, 0xe8, 0xd0]);
        input[4..36].copy_from_slice(&source_tx_hash);
        input[36 + 24..36 + 32].copy_from_slice(&64u64.to_be_bytes());
        let proof_abs = 4 + 64;
        input[proof_abs + 24..proof_abs + 32].copy_from_slice(&5u64.to_be_bytes());
        input[proof_abs + 32..proof_abs + 37].copy_from_slice(b"proof");
        precompile.call(&mut provider, &input, challenger).unwrap();

        // Second challenge should fail
        let result = precompile.call(&mut provider, &input, challenger);
        assert!(result.is_err(), "should fail: already challenged");
    }
}

#[test]
fn test_resolve_challenge_false_proof_bond_forfeited() {
    let mut provider = HashMapStorageProvider::with_block(1_000_000, 1, 10);
    let validator = Address::repeat_byte(0x11);
    let challenger = Address::repeat_byte(0x33);
    let recipient = Address::repeat_byte(0x22);
    let source_tx_hash = [0xABu8; 32];

    // Setup state and externalDeposit + initiateChallenge at block 10
    {
        StorageCtx::sstore(&mut provider,
            asset_address(),
            slot_asset_meta(1u64, "issuer"),
            u64_to_u256(1),
        );
        StorageCtx::sstore(&mut provider,
            asset_address(),
            slot_balance(CALL_ASSET_ID, challenger),
            u128_to_u256(5000),
        );
        StorageCtx::sstore(&mut provider,
            asset_address(),
            slot_balance(CALL_ASSET_ID, validator),
            u128_to_u256(100),
        );
        StorageCtx::sstore(&mut provider,
            asset_address(),
            slot_balance(1, recipient),
            u128_to_u256(0),
        );

        let mut precompile = BridgePrecompile;

        // externalDeposit
        let mut input = vec![0u8; 132];
        input[0..4].copy_from_slice(&[0x1a, 0xba, 0x07, 0x00]);
        input[4..36].copy_from_slice(&source_tx_hash);
        input[60..68].copy_from_slice(&1u64.to_be_bytes());
        input[80..100].copy_from_slice(&recipient.to_bytes());
        input[116..132].copy_from_slice(&1000u128.to_be_bytes());
        precompile.call(&mut provider, &input, validator).unwrap();

        // initiateChallenge
        let mut input = vec![0u8; 132];
        input[0..4].copy_from_slice(&[0x07, 0xde, 0xe8, 0xd0]);
        input[4..36].copy_from_slice(&source_tx_hash);
        input[36 + 24..36 + 32].copy_from_slice(&64u64.to_be_bytes());
        let proof_abs = 4 + 64;
        input[proof_abs + 24..proof_abs + 32].copy_from_slice(&5u64.to_be_bytes());
        input[proof_abs + 32..proof_abs + 37].copy_from_slice(b"proof");
        precompile.call(&mut provider, &input, challenger).unwrap();
    }

    // resolveChallenge at block 120 (deadline = 10 + 100 = 110)
    // Since verify_fraud_proof returns false, challenge fails
    provider.set_block_number(120);
    {
        let mut precompile = BridgePrecompile;

        let mut input = vec![0u8; 36];
        input[0..4].copy_from_slice(&[0x8a, 0x1e, 0x50, 0x18]);
        input[4..36].copy_from_slice(&source_tx_hash);

        let result = precompile.call(&mut provider, &input, zero_address());
        assert!(result.is_ok(), "resolve_challenge failed: {:?}", result.err());

        // Status should be Failed (3)
        let status = StorageCtx::sload(&mut provider, bridge_address(), slot_tagged("challenge_status", U256::from_be_slice(&source_tx_hash)))
            .map(|v| v.to_be_bytes()[31]).unwrap_or(0);
        assert_eq!(status, 3);

        // Validator should have received the bond
        let validator_bal = load_bal(&mut provider, CALL_ASSET_ID, validator);
        assert_eq!(validator_bal, 1100); // 100 + 1000 bond
    }
}

#[test]
fn test_get_challenge_status() {
    let mut provider = HashMapStorageProvider::with_block(1_000_000, 1, 10);
    let validator = Address::repeat_byte(0x11);
    let challenger = Address::repeat_byte(0x33);
    let recipient = Address::repeat_byte(0x22);
    let source_tx_hash = [0xABu8; 32];

    {
        StorageCtx::sstore(&mut provider,
            asset_address(),
            slot_asset_meta(1u64, "issuer"),
            u64_to_u256(1),
        );
        StorageCtx::sstore(&mut provider,
            asset_address(),
            slot_balance(CALL_ASSET_ID, challenger),
            u128_to_u256(5000),
        );
        StorageCtx::sstore(&mut provider,
            asset_address(),
            slot_balance(1, recipient),
            u128_to_u256(0),
        );

        let mut precompile = BridgePrecompile;

        // externalDeposit
        let mut input = vec![0u8; 132];
        input[0..4].copy_from_slice(&[0x1a, 0xba, 0x07, 0x00]);
        input[4..36].copy_from_slice(&source_tx_hash);
        input[60..68].copy_from_slice(&1u64.to_be_bytes());
        input[80..100].copy_from_slice(&recipient.to_bytes());
        input[116..132].copy_from_slice(&1000u128.to_be_bytes());
        precompile.call(&mut provider, &input, validator).unwrap();

        // initiateChallenge
        let mut input = vec![0u8; 132];
        input[0..4].copy_from_slice(&[0x07, 0xde, 0xe8, 0xd0]);
        input[4..36].copy_from_slice(&source_tx_hash);
        input[36 + 24..36 + 32].copy_from_slice(&64u64.to_be_bytes());
        let proof_abs = 4 + 64;
        input[proof_abs + 24..proof_abs + 32].copy_from_slice(&5u64.to_be_bytes());
        input[proof_abs + 32..proof_abs + 37].copy_from_slice(b"proof");
        precompile.call(&mut provider, &input, challenger).unwrap();

        // getChallengeStatus
        let mut input = vec![0u8; 36];
        input[0..4].copy_from_slice(&[0x2a, 0x5d, 0x97, 0xe9]);
        input[4..36].copy_from_slice(&source_tx_hash);

        let result = precompile.call(&mut provider, &input, zero_address()).unwrap();
        assert_eq!(result.bytes.len(), 128);
        assert_eq!(result.bytes[31], 1); // status = Pending
        let deadline = u64::from_be_bytes({
            let mut buf = [0u8; 8];
            buf.copy_from_slice(&result.bytes[56..64]);
            buf
        });
        assert_eq!(deadline, 110);
        let bond = u128::from_be_bytes({
            let mut buf = [0u8; 16];
            buf.copy_from_slice(&result.bytes[80..96]);
            buf
        });
        assert_eq!(bond, 1000);
        let returned_challenger = Address::from_slice(&result.bytes[108..128]);
        assert_eq!(returned_challenger, challenger);
    }
}

/// Calldata: a selector, which methods do not read, and words.
fn args(words: &[U256]) -> Vec<u8> {
    let mut out = vec![0; 4];
    for w in words {
        w.push_to(&mut out);
    }
    out
}

fn why(r: PrecompileResult) -> &'static str {
    match r {
        Err(PrecompileError::Other(s)) => s,
        Err(PrecompileError::Fatal(s)) => s,
        Err(PrecompileError::OutOfGas) => "out of gas",
        Err(_) => "other",
        Ok(_) => "done",
    }
}

fn addr(n: u8) -> Address {
    Address::repeat_byte(n)
}

fn holds(p: &mut HashMapStorageProvider, asset_id: u64, account: Address) -> u128 {
    load_bal(p, asset_id, account)
}

fn give(p: &mut HashMapStorageProvider, asset_id: u64, account: Address, amount: u128) {
    p.set(asset_address(), slot_balance(asset_id, account), u128_to_u256(amount));
}

/// Asset 2 is registered; block 10.
fn open_bridge() -> HashMapStorageProvider {
    let mut p = HashMapStorageProvider::with_block(100_000_000, 1, 10);
    p.set(asset_address(), slot_asset_meta(2, "issuer"), address_to_u256(addr(1)));
    p.set(asset_address(), slot_asset_meta(2, "symbol"), U256::repeat_byte(b'A'));
    p
}

fn claim(tx: u8, amount: u128) -> Vec<u8> {
    args(&[
        U256::repeat_byte(tx),
        u64_to_u256(2),
        address_to_u256(addr(5)),
        u128_to_u256(amount),
    ])
}

fn challenge(tx: u8) -> Vec<u8> {
    args(&[U256::repeat_byte(tx), u64_to_u256(64), u64_to_u256(0)])
}

fn move_input(asset_id: u64, to: Address, amount: u128) -> Vec<u8> {
    args(&[u64_to_u256(asset_id), address_to_u256(to), u128_to_u256(amount)])
}

#[test]
fn balances_cross_the_bridge_both_ways() {
    let mut p = open_bridge();
    give(&mut p, 2, addr(5), 100);
    let out = move_input(2, addr(6), 30);
    assert_eq!(why(BridgePrecompile.bridge_to_evm(&mut p, &out, addr(5))), "done");
    assert_eq!(holds(&mut p, 2, addr(5)), 70);
    let back = move_input(2, addr(7), 20);
    assert_eq!(why(BridgePrecompile.bridge_to_protocol(&mut p, &back)), "done");
    assert_eq!(holds(&mut p, 2, addr(7)), 20);
    let total = BridgePrecompile.get_total_withdrawals(&mut p).unwrap().bytes;
    assert_eq!(total, u64_to_u256(30).to_be_bytes());
    let total = BridgePrecompile.get_total_deposits(&mut p).unwrap().bytes;
    assert_eq!(total, u64_to_u256(20).to_be_bytes());
    let over = move_input(2, addr(6), 71);
    let r = BridgePrecompile.bridge_to_evm(&mut p, &over, addr(5));
    assert_eq!(why(r), "insufficient balance");
}

#[test]
fn bridge_refuses_what_it_does_not_carry() {
    let mut p = open_bridge();
    give(&mut p, 2, addr(5), 100);
    let mut run = |p: &mut HashMapStorageProvider, asset_id: u64| {
        why(BridgePrecompile.bridge_to_evm(p, &move_input(asset_id, addr(6), 1), addr(5)))
    };
    assert_eq!(run(&mut p, 0), "asset 0 not bridgeable");
    assert_eq!(run(&mut p, 3), "asset not registered");
    p.set(asset_address(), slot_asset_meta(2, "status"), u64_to_u256(1));
    assert_eq!(run(&mut p, 2), "asset not active");
    p.set(bridge_address(), slot_tag("paused"), u64_to_u256(1));
    assert_eq!(run(&mut p, 2), "bridge paused");
    let r = BridgePrecompile.external_deposit(&mut p, &claim(9, 50), addr(3));
    assert_eq!(why(r), "bridge paused");
    assert_eq!(holds(&mut p, 2, addr(5)), 100);
}

#[test]
fn external_deposit_counts_once() {
    let mut p = open_bridge();
    let r = BridgePrecompile.external_deposit(&mut p, &claim(9, 50), addr(3));
    assert_eq!(why(r), "done");
    let r = BridgePrecompile.external_deposit(&mut p, &claim(9, 50), addr(3));
    assert_eq!(why(r), "source tx already processed");
    assert_eq!(holds(&mut p, 2, addr(5)), 50);
}

#[test]
fn challenge_needs_an_open_deposit() {
    let mut p = open_bridge();
    give(&mut p, CALL_ASSET_ID, addr(4), 5000);
    let r = BridgePrecompile.initiate_challenge(&mut p, &challenge(9), addr(4));
    assert_eq!(why(r), "source tx not processed");
    BridgePrecompile.external_deposit(&mut p, &claim(9, 50), addr(3)).unwrap();
    p.set_block_number(110);
    let r = BridgePrecompile.initiate_challenge(&mut p, &challenge(9), addr(4));
    assert_eq!(why(r), "challenge period expired");
    p.set_block_number(109);
    let r = BridgePrecompile.initiate_challenge(&mut p, &challenge(9), addr(8));
    assert_eq!(why(r), "insufficient balance");
    let r = BridgePrecompile.initiate_challenge(&mut p, &challenge(9), addr(4));
    assert_eq!(why(r), "done");
    assert_eq!(holds(&mut p, CALL_ASSET_ID, addr(4)), 4000);
    let r = BridgePrecompile.initiate_challenge(&mut p, &challenge(9), addr(4));
    assert_eq!(why(r), "challenge already exists");
}

/// A deposit of 50 that was challenged, after its deadline.
fn challenged() -> HashMapStorageProvider {
    let mut p = open_bridge();
    give(&mut p, CALL_ASSET_ID, addr(4), 1000);
    BridgePrecompile.external_deposit(&mut p, &claim(9, 50), addr(3)).unwrap();
    BridgePrecompile.initiate_challenge(&mut p, &challenge(9), addr(4)).unwrap();
    p.set_block_number(110);
    p
}

#[test]
fn failed_challenge_pays_the_validator() {
    let mut p = challenged();
    let tx = args(&[U256::repeat_byte(9)]);
    p.set_block_number(109);
    let r = BridgePrecompile.resolve_challenge(&mut p, &tx);
    assert_eq!(why(r), "challenge deadline not reached");
    p.set_block_number(110);
    assert_eq!(why(BridgePrecompile.resolve_challenge(&mut p, &tx)), "done");
    assert_eq!(holds(&mut p, CALL_ASSET_ID, addr(3)), 1000);
    assert_eq!(holds(&mut p, 2, addr(5)), 50);
    let r = BridgePrecompile.resolve_challenge(&mut p, &tx);
    assert_eq!(why(r), "challenge not pending");
    let r = BridgePrecompile.withdraw_challenge_bond(&mut p, &tx, addr(4));
    assert_eq!(why(r), "challenge not successful");
}

#[test]
fn upheld_challenge_undoes_the_deposit() {
    let mut p = challenged();
    let tx = args(&[U256::repeat_byte(9)]);
    p.set(validator_address(), slot_validator_by_addr(addr(3)), u64_to_u256(6));
    assert_eq!(why(BridgePrecompile.resolve_with(&mut p, &tx, true)), "done");
    assert_eq!(holds(&mut p, 2, addr(5)), 0);
    assert_eq!(holds(&mut p, CALL_ASSET_ID, addr(4)), 1100);
    let seat = p.get(validator_address(), slot_validator_by_addr(addr(3)));
    assert_eq!(seat, Some(u64_to_u256(0)));
    let total = BridgePrecompile.get_total_deposits(&mut p).unwrap().bytes;
    assert_eq!(total, vec![0; 32]);
    let status = BridgePrecompile.get_challenge_status(&mut p, &tx).unwrap().bytes;
    assert_eq!(status[31], 2);
    let r = BridgePrecompile.withdraw_challenge_bond(&mut p, &tx, addr(5));
    assert_eq!(why(r), "not challenger");
    let r = BridgePrecompile.withdraw_challenge_bond(&mut p, &tx, addr(4));
    assert_eq!(why(r), "done");
    let r = BridgePrecompile.external_deposit(&mut p, &claim(9, 50), addr(3));
    assert_eq!(why(r), "done");
}

#[test]
fn proofs_and_targets_must_lie_in_the_input() {
    let mut p = open_bridge();
    let mut words = vec![u64_to_u256(1), address_to_u256(addr(5)), u128_to_u256(9)];
    words.extend_from_slice(&[u64_to_u256(2), u64_to_u256(160), u64_to_u256(0)]);
    assert_eq!(why(BridgePrecompile.deposit(&mut p, &args(&words))), "done");
    assert_eq!(holds(&mut p, 2, addr(5)), 9);
    words[4] = u64_to_u256(161);
    assert_eq!(why(BridgePrecompile.deposit(&mut p, &args(&words))), "invalid proof");
    let words = [u64_to_u256(1), u64_to_u256(2), u128_to_u256(4), u64_to_u256(96)];
    let r = BridgePrecompile.external_withdraw(&mut p, &args(&words), addr(5));
    assert_eq!(why(r), "invalid targetAddress");
    let words = [words[0], words[1], words[2], u64_to_u256(128), u64_to_u256(0)];
    let r = BridgePrecompile.external_withdraw(&mut p, &args(&words), addr(5));
    assert_eq!(why(r), "done");
    assert_eq!(holds(&mut p, 2, addr(5)), 5);
}
