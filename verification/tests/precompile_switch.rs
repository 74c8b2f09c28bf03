use callchain::precompiles::slots::{
    asset_address, slot_asset_meta, slot_balance, slot_evm_contract, switch_address,
};
use callchain::precompiles::storage::{
    HashMapStorageProvider, PrecompileError, PrecompileResult, StatefulPrecompile, StorageCtx,
};
use callchain::precompiles::switch::{erc20_balance_of_slot, SwitchPrecompile};
use callchain::words::{address_to_u256, u128_to_u256, u256_to_u128, u64_to_u256, Address, U256};

fn addr(n: u8) -> Address {
    Address::repeat_byte(n)
}

#[test]
fn test_switch_address() {
    assert_eq!(
        switch_address(),
        Address { hi: 0, lo: 0x207 }
    );
}

#[test]
fn test_switch_to_evm_call() {
    let mut provider = HashMapStorageProvider::new(1_000_000);
    let sender = addr(0x33);
    let recipient = addr(0x44);

    {
        // Seed protocol balance for sender
        StorageCtx::sstore(&mut provider,
            asset_address(),
            slot_balance(1, sender),
            u128_to_u256(1000),
        );

        let mut input = vec![0u8; 100];
        input[0..4].copy_from_slice(&[0x43, 0x11, 0xf6, 0x13]);
        input[28..36].copy_from_slice(&1u64.to_be_bytes());
        input[48..68].copy_from_slice(&recipient.to_bytes());
        input[84..100].copy_from_slice(&500u128.to_be_bytes());

        let mut precompile = SwitchPrecompile;
        let result = precompile.call(&mut provider, &input, sender);
        assert!(result.is_ok(), "switchToEvm failed: {:?}", result.err());

        // Protocol balance deducted
        let sender_bal = StorageCtx::sload(&mut provider, asset_address(), slot_balance(1, sender))
            .map(u256_to_u128)
            .unwrap_or(0);
        assert_eq!(sender_bal, 500);

        // Native EVM balance credited
        let evm_bal = StorageCtx::balance_get(&mut provider, recipient);
        assert_eq!(evm_bal, Some(u64_to_u256(500)));
    }
}

#[test]
fn test_switch_to_protocol_call() {
    let mut provider = HashMapStorageProvider::new(1_000_000);
    let sender = addr(0x33);
    let recipient = addr(0x44);

    {
        // Seed native balance for sender
        StorageCtx::balance_add(&mut provider, sender, u64_to_u256(800)).unwrap();
        // Seed protocol balance for recipient (not needed, just checking)

        let mut input = vec![0u8; 100];
        input[0..4].copy_from_slice(&[0xbd, 0x8d, 0x87, 0xd4]);
        input[28..36].copy_from_slice(&1u64.to_be_bytes());
        input[48..68].copy_from_slice(&recipient.to_bytes());
        input[84..100].copy_from_slice(&300u128.to_be_bytes());

        let mut precompile = SwitchPrecompile;
        let result = precompile.call(&mut provider, &input, sender);
        assert!(result.is_ok(), "switchToProtocol failed: {:?}", result.err());

        // Native EVM balance deducted
        let evm_bal = StorageCtx::balance_get(&mut provider, sender);
        assert_eq!(evm_bal, Some(u64_to_u256(500)));

        // Protocol balance credited to recipient
        let recipient_bal = StorageCtx::sload(&mut provider, asset_address(), slot_balance(1, recipient))
            .map(u256_to_u128)
            .unwrap_or(0);
        assert_eq!(recipient_bal, 300);
    }
}

#[test]
fn test_switch_to_evm_erc20() {
    let mut provider = HashMapStorageProvider::new(1_000_000);
    let sender = addr(0x33);
    let recipient = addr(0x44);
    let contract = addr(0xAA);
    let asset_id = 2u64;

    {
        // Seed protocol balance
        StorageCtx::sstore(&mut provider,
            asset_address(),
            slot_balance(asset_id, sender),
            u128_to_u256(1000),
        );
        // Register asset as active
        StorageCtx::sstore(&mut provider,
            asset_address(),
            slot_asset_meta(asset_id, "status"),
            u64_to_u256(0),
        );
        // Register EVM contract address
        StorageCtx::sstore(&mut provider,
            asset_address(),
            slot_evm_contract(asset_id),
            address_to_u256(contract),
        );
        // Seed supply tracking
        StorageCtx::sstore(&mut provider,
            asset_address(),
            slot_asset_meta(asset_id, "supply"),
            u128_to_u256(1000),
        );

        let mut input = vec![0u8; 100];
        input[0..4].copy_from_slice(&[0x43, 0x11, 0xf6, 0x13]);
        input[28..36].copy_from_slice(&asset_id.to_be_bytes());
        input[48..68].copy_from_slice(&recipient.to_bytes());
        input[84..100].copy_from_slice(&400u128.to_be_bytes());

        let mut precompile = SwitchPrecompile;
        let result = precompile.call(&mut provider, &input, sender);
        assert!(result.is_ok(), "switchToEvm ERC-20 failed: {:?}", result.err());

        // Protocol balance deducted
        let sender_bal = StorageCtx::sload(&mut provider, asset_address(), slot_balance(asset_id, sender))
            .map(u256_to_u128)
            .unwrap_or(0);
        assert_eq!(sender_bal, 600);

        // ERC-20 totalSupply increased
        let total_supply = StorageCtx::sload(&mut provider, contract, u64_to_u256(3))
            .map(u256_to_u128)
            .unwrap_or(0);
        assert_eq!(total_supply, 400);

        // ERC-20 balanceOf recipient increased
        let recipient_bal = StorageCtx::sload(&mut provider, contract, erc20_balance_of_slot(recipient))
            .map(u256_to_u128)
            .unwrap_or(0);
        assert_eq!(recipient_bal, 400);

        // Protocol supply tracking decreased
        let protocol_supply = StorageCtx::sload(&mut provider, asset_address(), slot_asset_meta(asset_id, "supply"))
            .map(u256_to_u128)
            .unwrap_or(0);
        assert_eq!(protocol_supply, 600);
    }
}

#[test]
fn test_switch_to_protocol_erc20() {
    let mut provider = HashMapStorageProvider::new(1_000_000);
    let sender = addr(0x33);
    let recipient = addr(0x44);
    let contract = addr(0xAA);
    let asset_id = 3u64;

    {
        // Register asset as active
        StorageCtx::sstore(&mut provider,
            asset_address(),
            slot_asset_meta(asset_id, "status"),
            u64_to_u256(0),
        );
        // Register EVM contract address
        StorageCtx::sstore(&mut provider,
            asset_address(),
            slot_evm_contract(asset_id),
            address_to_u256(contract),
        );
        // Seed ERC-20 totalSupply
        StorageCtx::sstore(&mut provider,
            contract,
            u64_to_u256(3),
            u128_to_u256(500),
        );
        // Seed ERC-20 balance for sender
        StorageCtx::sstore(&mut provider,
            contract,
            erc20_balance_of_slot(sender),
            u128_to_u256(500),
        );
        // Seed protocol supply tracking
        StorageCtx::sstore(&mut provider,
            asset_address(),
            slot_asset_meta(asset_id, "supply"),
            u128_to_u256(0),
        );

        let mut input = vec![0u8; 100];
        input[0..4].copy_from_slice(&[0xbd, 0x8d, 0x87, 0xd4]);
        input[28..36].copy_from_slice(&asset_id.to_be_bytes());
        input[48..68].copy_from_slice(&recipient.to_bytes());
        input[84..100].copy_from_slice(&200u128.to_be_bytes());

        let mut precompile = SwitchPrecompile;
        let result = precompile.call(&mut provider, &input, sender);
        assert!(result.is_ok(), "switchToProtocol ERC-20 failed: {:?}", result.err());

        // ERC-20 totalSupply decreased
        let total_supply = StorageCtx::sload(&mut provider, contract, u64_to_u256(3))
            .map(u256_to_u128)
            .unwrap_or(0);
        assert_eq!(total_supply, 300);

        // ERC-20 balanceOf sender decreased
        let sender_bal = StorageCtx::sload(&mut provider, contract, erc20_balance_of_slot(sender))
            .map(u256_to_u128)
            .unwrap_or(0);
        assert_eq!(sender_bal, 300);

        // Protocol balance credited to recipient
        let recipient_bal = StorageCtx::sload(&mut provider, asset_address(), slot_balance(asset_id, recipient))
            .map(u256_to_u128)
            .unwrap_or(0);
        assert_eq!(recipient_bal, 200);

        // Protocol supply tracking increased
        let protocol_supply = StorageCtx::sload(&mut provider, asset_address(), slot_asset_meta(asset_id, "supply"))
            .map(u256_to_u128)
            .unwrap_or(0);
        assert_eq!(protocol_supply, 200);
    }
}

#[test]
fn test_switch_to_evm_insufficient_protocol_balance_fails() {
    let mut provider = HashMapStorageProvider::new(1_000_000);
    let sender = addr(0x33);

    {
        // Only 100 protocol balance
        StorageCtx::sstore(&mut provider,
            asset_address(),
            slot_balance(1, sender),
            u128_to_u256(100),
        );

        let mut input = vec![0u8; 100];
        input[0..4].copy_from_slice(&[0x43, 0x11, 0xf6, 0x13]);
        input[28..36].copy_from_slice(&1u64.to_be_bytes());
        input[48..68].copy_from_slice(&sender.to_bytes());
        input[84..100].copy_from_slice(&200u128.to_be_bytes());

        let mut precompile = SwitchPrecompile;
        let result = precompile.call(&mut provider, &input, sender);
        assert!(result.is_err(), "should fail due to insufficient balance");

        // Balance unchanged
        let bal = StorageCtx::sload(&mut provider, asset_address(), slot_balance(1, sender))
            .map(u256_to_u128)
            .unwrap_or(0);
        assert_eq!(bal, 100);
    }
}

#[test]
fn test_switch_to_evm_erc20_no_contract_fails() {
    let mut provider = HashMapStorageProvider::new(1_000_000);
    let sender = addr(0x33);
    let asset_id = 5u64;

    {
        StorageCtx::sstore(&mut provider,
            asset_address(),
            slot_balance(asset_id, sender),
            u128_to_u256(1000),
        );
        StorageCtx::sstore(&mut provider,
            asset_address(),
            slot_asset_meta(asset_id, "status"),
            u64_to_u256(0),
        );
        // evm_contract NOT set

        let mut input = vec![0u8; 100];
        input[0..4].copy_from_slice(&[0x43, 0x11, 0xf6, 0x13]);
        input[28..36].copy_from_slice(&asset_id.to_be_bytes());
        input[48..68].copy_from_slice(&sender.to_bytes());
        input[84..100].copy_from_slice(&100u128.to_be_bytes());

        let mut precompile = SwitchPrecompile;
        let result = precompile.call(&mut provider, &input, sender);
        assert!(result.is_err(), "should fail when EVM contract not registered");
    }
}

/// Calldata: a selector, which methods do not read, and words.
fn args(words: &[U256]) -> Vec<u8> {
    let mut out = vec![0; 4];
    for w in words {
        w.push_to(&mut out);
    }
    out
}

fn why(r: PrecompileResult) -> &'static str {
    match r {
        Err(PrecompileError::Other(s)) => s,
        Err(PrecompileError::Fatal(s)) => s,
        Err(PrecompileError::OutOfGas) => "out of gas",
        Err(_) => "other",
        Ok(_) => "done",
    }
}

fn move_input(asset_id: u64, to: Address, amount: u128) -> Vec<u8> {
    args(&[u64_to_u256(asset_id), address_to_u256(to), u128_to_u256(amount)])
}

#[test]
fn native_asset_goes_there_and_back() {
    let mut p = HashMapStorageProvider::new(100_000_000);
    p.set(asset_address(), slot_balance(1, addr(1)), u128_to_u256(100));
    let input = move_input(1, addr(1), 30);
    assert_eq!(why(SwitchPrecompile.switch_to_evm(&mut p, &input, addr(1))), "done");
    assert_eq!(StorageCtx::balance_get(&mut p, addr(1)), Some(u64_to_u256(30)));
    assert_eq!(why(SwitchPrecompile.switch_to_protocol(&mut p, &input, addr(1))), "done");
    assert_eq!(StorageCtx::balance_get(&mut p, addr(1)), Some(u64_to_u256(0)));
    let held = p.get(asset_address(), slot_balance(1, addr(1)));
    assert_eq!(held, Some(u128_to_u256(100)));
    let r = SwitchPrecompile.switch_to_protocol(&mut p, &input, addr(1));
    assert_eq!(why(r), "insufficient native balance");
}

#[test]
fn wrapped_asset_goes_there_and_back() {
    let mut p = HashMapStorageProvider::new(100_000_000);
    let contract = addr(9);
    p.set(asset_address(), slot_balance(2, addr(1)), u128_to_u256(100));
    p.set(asset_address(), slot_asset_meta(2, "supply"), u128_to_u256(100));
    p.set(asset_address(), slot_evm_contract(2), address_to_u256(contract));
    let input = move_input(2, addr(1), 30);
    assert_eq!(why(SwitchPrecompile.switch_to_evm(&mut p, &input, addr(1))), "done");
    let wrapped = p.get(contract, erc20_balance_of_slot(addr(1)));
    assert_eq!(wrapped, Some(u128_to_u256(30)));
    assert_eq!(p.get(contract, u64_to_u256(3)), Some(u128_to_u256(30)));
    let supply = p.get(asset_address(), slot_asset_meta(2, "supply"));
    assert_eq!(supply, Some(u128_to_u256(70)));
    assert_eq!(why(SwitchPrecompile.switch_to_protocol(&mut p, &input, addr(1))), "done");
    let wrapped = p.get(contract, erc20_balance_of_slot(addr(1)));
    assert_eq!(wrapped, Some(u128_to_u256(0)));
    let held = p.get(asset_address(), slot_balance(2, addr(1)));
    assert_eq!(held, Some(u128_to_u256(100)));
}

#[test]
fn failed_switch_leaves_no_trace() {
    let mut p = HashMapStorageProvider::new(100_000_000);
    p.set(asset_address(), slot_balance(2, addr(1)), u128_to_u256(100));
    p.set(asset_address(), slot_evm_contract(2), address_to_u256(addr(9)));
    let input = move_input(2, addr(1), 30);
    let r = SwitchPrecompile.switch_to_evm(&mut p, &input, addr(1));
    assert_eq!(why(r), "protocol supply underflow");
    let held = p.get(asset_address(), slot_balance(2, addr(1)));
    assert_eq!(held, Some(u128_to_u256(100)));
    assert_eq!(p.get(addr(9), u64_to_u256(3)), None);
    p.set(asset_address(), slot_asset_meta(2, "status"), u64_to_u256(1));
    let r = SwitchPrecompile.switch_to_evm(&mut p, &input, addr(1));
    assert_eq!(why(r), "asset not active");
    let r = SwitchPrecompile.switch_to_evm(&mut p, &input, Address { hi: 0, lo: 0 });
    assert_eq!(why(r), "caller not available");
}
