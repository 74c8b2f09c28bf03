use callchain::precompiles::slots::{asset_address, slot_balance, validator_address};
use callchain::precompiles::storage::{
    HashMapStorageProvider, PrecompileError, PrecompileResult, StatefulPrecompile, StorageCtx,
};
use callchain::precompiles::validator::{staking_escrow, ValidatorPrecompile};
use callchain::protocol::CALL_ASSET_ID;
use callchain::words::{address_to_u256, u128_to_u256, u64_to_u256, zero_address, Address, U256};

#[test]
fn test_validator_address() {
    assert_eq!(
        validator_address(),
        Address { hi: 0, lo: 0x204 }
    );
}

#[test]
fn test_validator_precompile_stake_and_get() {
    let mut provider = HashMapStorageProvider::new(1_000_000);
    let sender = Address::repeat_byte(0x11);

    {
        // Seed sender balance
        let sender_slot = slot_balance(CALL_ASSET_ID, sender);
        StorageCtx::sstore(&mut provider,
            asset_address(),
            sender_slot,
            u128_to_u256(10_000_000),
        );

        let mut precompile = ValidatorPrecompile;

        // stake(pubkey, amount=5_000_000)
        let mut input = vec![0u8; 68];
        input[0..4].copy_from_slice(&[0x48, 0x72, 0x06, 0x40]);
        input[4..36].copy_from_slice(&[0xAAu8; 32]); // pubkey
        input[52..68].copy_from_slice(&5_000_000u128.to_be_bytes());

        let result = precompile.call(&mut provider, &input, sender);
        assert!(result.is_ok(), "stake failed: {:?}", result.err());

        // getValidatorStake(sender)
        let mut input = vec![0u8; 36];
        input[0..4].copy_from_slice(&[0x34, 0x66, 0x48, 0x46]);
        input[16..36].copy_from_slice(&sender.to_bytes());

        let result = precompile.call(&mut provider, &input, zero_address()).unwrap();
        let stake = u128::from_be_bytes({
            let mut buf = [0u8; 16];
            buf.copy_from_slice(&result.bytes[16..32]);
            buf
        });
        assert_eq!(stake, 5_000_000);

        // getValidatorStatus(sender)
        let mut input = vec![0u8; 36];
        input[0..4].copy_from_slice(&[0xa3, 0x10, 0x62, 0x4f]);
        input[16..36].copy_from_slice(&sender.to_bytes());

        let result = precompile.call(&mut provider, &input, zero_address()).unwrap();
        assert_eq!(result.bytes[31], 1); // active
    }
}

#[test]
fn test_validator_precompile_unstake_and_claim() {
    let mut provider = HashMapStorageProvider::new(1_000_000);
    let sender = Address::repeat_byte(0x11);

    {
        // Seed sender balance
        let sender_slot = slot_balance(CALL_ASSET_ID, sender);
        StorageCtx::sstore(&mut provider,
            asset_address(),
            sender_slot,
            u128_to_u256(10_000_000),
        );

        let mut precompile = ValidatorPrecompile;

        // stake first
        let mut input = vec![0u8; 68];
        input[0..4].copy_from_slice(&[0x48, 0x72, 0x06, 0x40]);
        input[4..36].copy_from_slice(&[0xAAu8; 32]);
        input[52..68].copy_from_slice(&5_000_000u128.to_be_bytes());
        precompile.call(&mut provider, &input, sender).unwrap();

        // unstake(validatorId=1)
        let mut input = vec![0u8; 36];
        input[0..4].copy_from_slice(&[0xd2, 0x9a, 0xb8, 0x7a]);
        input[28..36].copy_from_slice(&1u64.to_be_bytes());
        let result = precompile.call(&mut provider, &input, sender);
        assert!(result.is_ok(), "unstake failed: {:?}", result.err());

        // status should be 2 (unbonding)
        let mut input = vec![0u8; 36];
        input[0..4].copy_from_slice(&[0xa3, 0x10, 0x62, 0x4f]);
        input[16..36].copy_from_slice(&sender.to_bytes());
        let result = precompile.call(&mut provider, &input, zero_address()).unwrap();
        assert_eq!(result.bytes[31], 2);

        // claimUnbonded should fail: period not elapsed
        let mut input = vec![0u8; 36];
        input[0..4].copy_from_slice(&[0x6a, 0xb7, 0x60, 0x49]);
        input[28..36].copy_from_slice(&1u64.to_be_bytes());
        let result = precompile.call(&mut provider, &input, sender);
        assert!(result.is_err(), "claim should fail before period elapsed");
    }
}

#[test]
fn test_validator_precompile_read_methods() {
    let mut provider = HashMapStorageProvider::new(1_000_000);
    let sender = Address::repeat_byte(0x11);

    {
        // Seed sender balance
        let sender_slot = slot_balance(CALL_ASSET_ID, sender);
        StorageCtx::sstore(&mut provider,
            asset_address(),
            sender_slot,
            u128_to_u256(10_000_000),
        );

        let mut precompile = ValidatorPrecompile;

        // stake first
        let mut input = vec![0u8; 68];
        input[0..4].copy_from_slice(&[0x48, 0x72, 0x06, 0x40]);
        input[4..36].copy_from_slice(&[0xAAu8; 32]);
        input[52..68].copy_from_slice(&5_000_000u128.to_be_bytes());
        precompile.call(&mut provider, &input, sender).unwrap();

        // getValidatorPubkey(sender)
        let mut input = vec![0u8; 36];
        input[0..4].copy_from_slice(&[0x95, 0x11, 0xf4, 0x4f]);
        input[16..36].copy_from_slice(&sender.to_bytes());
        let result = precompile.call(&mut provider, &input, zero_address()).unwrap();
        assert_eq!(&result.bytes[..], &[0xAAu8; 32]);

        // getValidatorByIndex(1)
        let mut input = vec![0u8; 36];
        input[0..4].copy_from_slice(&[0x3f, 0xce, 0x1b, 0x0d]);
        input[28..36].copy_from_slice(&1u64.to_be_bytes());
        let result = precompile.call(&mut provider, &input, zero_address()).unwrap();
        let returned_addr = Address::from_slice(&result.bytes[12..32]);
        assert_eq!(returned_addr, sender);

        // unstake to set unbond height
        let mut input = vec![0u8; 36];
        input[0..4].copy_from_slice(&[0xd2, 0x9a, 0xb8, 0x7a]);
        input[28..36].copy_from_slice(&1u64.to_be_bytes());
        precompile.call(&mut provider, &input, sender).unwrap();

        // getUnbondHeight(sender)
        let mut input = vec![0u8; 36];
        input[0..4].copy_from_slice(&[0x52, 0x8e, 0x09, 0xb6]);
        input[16..36].copy_from_slice(&sender.to_bytes());
        let result = precompile.call(&mut provider, &input, zero_address()).unwrap();
        let height = u64::from_be_bytes({
            let mut buf = [0u8; 8];
            buf.copy_from_slice(&result.bytes[24..32]);
            buf
        });
        assert_eq!(height, 0); // block_number defaults to 0 in test provider
    }
}

/// Calldata: a selector, which methods do not read, and words.
fn args(words: &[U256]) -> Vec<u8> {
    let mut out = vec![0; 4];
    for w in words {
        w.push_to(&mut out);
    }
    out
}

fn why(r: PrecompileResult) -> &'static str {
    match r {
        Err(PrecompileError::Other(s)) => s,
        Err(PrecompileError::Fatal(s)) => s,
        Err(PrecompileError::OutOfGas) => "out of gas",
        Err(_) => "other",
        Ok(_) => "done",
    }
}

fn who() -> Address {
    Address::repeat_byte(1)
}

fn balance(p: &HashMapStorageProvider, account: Address) -> U256 {
    p.get(asset_address(), slot_balance(CALL_ASSET_ID, account)).unwrap_or(u64_to_u256(0))
}

fn stake(p: &mut HashMapStorageProvider, amount: u128) -> &'static str {
    let input = args(&[U256::repeat_byte(8), u128_to_u256(amount)]);
    why(ValidatorPrecompile.stake(p, &input, who()))
}

fn staked() -> HashMapStorageProvider {
    let mut p = HashMapStorageProvider::with_block(100_000_000, 1, 10);
    p.set(asset_address(), slot_balance(CALL_ASSET_ID, who()), u128_to_u256(3_000_000));
    assert_eq!(stake(&mut p, 1_500_000), "done");
    p
}

#[test]
fn stake_makes_a_validator() {
    let mut p = HashMapStorageProvider::new(100_000_000);
    assert_eq!(stake(&mut p, 999_999), "validator stake: below minimum 1000000");
    assert_eq!(stake(&mut p, 1_000_000), "validator stake: insufficient balance");
    let mut p = staked();
    assert_eq!(stake(&mut p, 1_000_000), "validator stake: already staked");
    assert_eq!(balance(&p, who()), u128_to_u256(1_500_000));
    assert_eq!(balance(&p, staking_escrow()), u128_to_u256(1_500_000));
    let account = args(&[address_to_u256(who())]);
    let held = ValidatorPrecompile.get_validator_stake(&mut p, &account).unwrap().bytes;
    assert_eq!(held, u128_to_u256(1_500_000).to_be_bytes());
    let key = ValidatorPrecompile.get_validator_pubkey(&mut p, &account).unwrap().bytes;
    assert_eq!(key, vec![8; 32]);
    let status = ValidatorPrecompile.get_validator_status(&mut p, &account).unwrap().bytes;
    assert_eq!(status, u64_to_u256(1).to_be_bytes());
    let first = ValidatorPrecompile.get_validator_by_index(&mut p, &args(&[u64_to_u256(1)]));
    assert_eq!(first.unwrap().bytes, address_to_u256(who()).to_be_bytes());
}

#[test]
fn stake_is_paid_back_once_after_the_wait() {
    let mut p = staked();
    let id = args(&[u64_to_u256(1)]);
    let other = args(&[u64_to_u256(2)]);
    let stranger = Address::repeat_byte(9);
    let r = ValidatorPrecompile.unstake(&mut p, &id, stranger);
    assert_eq!(why(r), "validator unstake: not a validator");
    let r = ValidatorPrecompile.unstake(&mut p, &other, who());
    assert_eq!(why(r), "validator unstake: id mismatch");
    let r = ValidatorPrecompile.claim_unbonded(&mut p, &id, who());
    assert_eq!(why(r), "validator claim: not unbonding");
    assert_eq!(why(ValidatorPrecompile.unstake(&mut p, &id, who())), "done");
    let r = ValidatorPrecompile.unstake(&mut p, &id, who());
    assert_eq!(why(r), "validator unstake: already unbonding");
    let height = ValidatorPrecompile.get_unbond_height(&mut p, &args(&[address_to_u256(who())]));
    assert_eq!(height.unwrap().bytes, u64_to_u256(10).to_be_bytes());
    p.set_block_number(10 + 120_959);
    let r = ValidatorPrecompile.claim_unbonded(&mut p, &id, who());
    assert_eq!(why(r), "validator claim: unbonding period not elapsed");
    p.set_block_number(10 + 120_960);
    let r = ValidatorPrecompile.claim_unbonded(&mut p, &other, who());
    assert_eq!(why(r), "validator claim: id mismatch");
    assert_eq!(why(ValidatorPrecompile.claim_unbonded(&mut p, &id, who())), "done");
    assert_eq!(balance(&p, who()), u128_to_u256(3_000_000));
    assert_eq!(balance(&p, staking_escrow()), u128_to_u256(0));
    let r = ValidatorPrecompile.claim_unbonded(&mut p, &id, who());
    assert_eq!(why(r), "validator claim: not a validator");
}

#[test]
fn refused_claim_moves_no_stake() {
    let mut p = staked();
    let id = args(&[u64_to_u256(1)]);
    assert_eq!(why(ValidatorPrecompile.unstake(&mut p, &id, who())), "done");
    p.set_block_number(10 + 120_960);
    let r = ValidatorPrecompile.claim_unbonded(&mut p, &id, Address::repeat_byte(9));
    assert_eq!(why(r), "validator claim: not a validator");
    let r = ValidatorPrecompile.claim_unbonded(&mut p, &args(&[u64_to_u256(7)]), who());
    assert_eq!(why(r), "validator claim: id mismatch");
    assert_eq!(balance(&p, who()), u128_to_u256(1_500_000));
    assert_eq!(balance(&p, staking_escrow()), u128_to_u256(1_500_000));
    let escrow = slot_balance(CALL_ASSET_ID, staking_escrow());
    p.set(asset_address(), escrow, u128_to_u256(1_499_999));
    let r = ValidatorPrecompile.claim_unbonded(&mut p, &id, who());
    assert_eq!(why(r), "validator claim: escrow underflow");
    assert_eq!(balance(&p, who()), u128_to_u256(1_500_000));
    p.set(asset_address(), escrow, u128_to_u256(1_500_001));
    assert_eq!(why(ValidatorPrecompile.claim_unbonded(&mut p, &id, who())), "done");
    assert_eq!(balance(&p, who()), u128_to_u256(3_000_000));
    assert_eq!(balance(&p, staking_escrow()), u128_to_u256(1));
    let account = args(&[address_to_u256(who())]);
    let status = ValidatorPrecompile.get_validator_status(&mut p, &account).unwrap().bytes;
    assert_eq!(status, u64_to_u256(0).to_be_bytes());
}
