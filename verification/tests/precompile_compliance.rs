use callchain::precompiles::compliance::{decode_compliance_status, CompliancePrecompile};
use callchain::precompiles::slots::{asset_address, slot_asset_meta};
use callchain::precompiles::storage::{
    HashMapStorageProvider, PrecompileError, PrecompileResult, StatefulPrecompile, StorageCtx,
};
use callchain::protocol::compliance::ComplianceStatus;
use callchain::words::{address_to_u256, u64_to_u256, zero_address, Address, U256};

#[test]
fn test_compliance_precompile_stateful_update_and_check() {
    let mut provider = HashMapStorageProvider::new(1_000_000);
    let issuer = Address::repeat_byte(0x11);
    let target = Address::repeat_byte(0x22);

    {
        // Seed asset metadata: register asset_id=1 with issuer and policy_id=1
        let asset_id = 1u64;
        StorageCtx::sstore(&mut provider,
            asset_address(),
            slot_asset_meta(asset_id, "issuer"),
            u256_from_u8_addr(issuer),
        );
        StorageCtx::sstore(&mut provider,
            asset_address(),
            slot_asset_meta(asset_id, "compliance"),
            u64_to_u256(1),
        );

        let mut precompile = CompliancePrecompile;

        // updateCompliance(assetId=1, target, status=Restricted=3)
        let mut input = vec![0u8; 100];
        input[0..4].copy_from_slice(&[0xa4, 0xb7, 0xf6, 0x6d]);
        input[28..36].copy_from_slice(&asset_id.to_be_bytes());
        input[48..68].copy_from_slice(&target.to_bytes());
        input[99] = 3; // Restricted

        let result = precompile.call(&mut provider, &input, issuer);
        assert!(result.is_ok(), "update_compliance failed: {:?}", result.err());

        // checkCompliance(target, policyId=1) -> false (Restricted)
        let mut input = vec![0u8; 68];
        input[0..4].copy_from_slice(&[0x0a, 0xe9, 0xb3, 0x4b]);
        input[16..36].copy_from_slice(&target.to_bytes());
        input[67] = 1;

        let result = precompile.call(&mut provider, &input, zero_address()).unwrap();
        assert_eq!(result.bytes[31], 0);

        // checkCompliance(target, policyId=0) -> true (no policy)
        let mut input = vec![0u8; 68];
        input[0..4].copy_from_slice(&[0x0a, 0xe9, 0xb3, 0x4b]);
        input[16..36].copy_from_slice(&target.to_bytes());
        input[67] = 0;

        let result = precompile.call(&mut provider, &input, zero_address()).unwrap();
        assert_eq!(result.bytes[31], 1);
    }
}

#[test]
fn test_compliance_precompile_stateful_not_issuer() {
    let mut provider = HashMapStorageProvider::new(1_000_000);
    let issuer = Address::repeat_byte(0x11);

    {
        let asset_id = 1u64;
        StorageCtx::sstore(&mut provider,
            asset_address(),
            slot_asset_meta(asset_id, "issuer"),
            u256_from_u8_addr(issuer),
        );
        StorageCtx::sstore(&mut provider,
            asset_address(),
            slot_asset_meta(asset_id, "compliance"),
            u64_to_u256(1),
        );

        let mut precompile = CompliancePrecompile;

        let mut input = vec![0u8; 100];
        input[0..4].copy_from_slice(&[0xa4, 0xb7, 0xf6, 0x6d]);
        input[28..36].copy_from_slice(&asset_id.to_be_bytes());
        input[48..68].copy_from_slice(&Address::repeat_byte(0x22).to_bytes());
        input[99] = 3;

        let result = precompile.call(&mut provider, &input, Address::repeat_byte(0x99));
        assert!(result.is_err());
    }
}

fn u256_from_u8_addr(addr: Address) -> U256 {
    let mut bytes = [0u8; 32];
    bytes[12..32].copy_from_slice(&addr.to_bytes());
    U256::from_be_slice(&bytes)
}

/// Calldata: a selector, which methods do not read, and words.
fn args(words: &[U256]) -> Vec<u8> {
    let mut out = vec![0; 4];
    for w in words {
        w.push_to(&mut out);
    }
    out
}

fn why(r: PrecompileResult) -> &'static str {
    match r {
        Err(PrecompileError::Other(s)) => s,
        Err(PrecompileError::Fatal(s)) => s,
        Err(PrecompileError::OutOfGas) => "out of gas",
        Err(_) => "other",
        Ok(_) => "done",
    }
}

#[test]
fn check_finds_what_the_issuer_set() {
    let mut p = HashMapStorageProvider::new(1_000_000);
    let (issuer, target) = (Address::repeat_byte(1), Address::repeat_byte(2));
    p.set(asset_address(), slot_asset_meta(1, "issuer"), address_to_u256(issuer));
    p.set(asset_address(), slot_asset_meta(1, "compliance"), u64_to_u256(3));
    let update = |status: u64| args(&[u64_to_u256(1), address_to_u256(target), u64_to_u256(status)]);
    let check = |policy: u64| args(&[address_to_u256(target), u64_to_u256(policy)]);
    let r = CompliancePrecompile.update_compliance(&mut p, &update(2), target);
    assert_eq!(why(r), "not asset issuer");
    let r = CompliancePrecompile.check_compliance(&mut p, &check(3)).unwrap();
    assert_eq!(r.bytes, u64_to_u256(1).to_be_bytes());
    let r = CompliancePrecompile.update_compliance(&mut p, &update(2), issuer);
    assert_eq!(why(r), "done");
    let r = CompliancePrecompile.check_compliance(&mut p, &check(3)).unwrap();
    assert_eq!(r.bytes, u64_to_u256(0).to_be_bytes());
    let r = CompliancePrecompile.check_compliance(&mut p, &check(4)).unwrap();
    assert_eq!(r.bytes, u64_to_u256(1).to_be_bytes());
    let r = CompliancePrecompile.check_compliance(&mut p, &check(0)).unwrap();
    assert_eq!(r.bytes, u64_to_u256(1).to_be_bytes());
    let r = CompliancePrecompile.update_compliance(&mut p, &update(9), issuer);
    assert_eq!(why(r), "invalid compliance status value");
    let r = CompliancePrecompile.update_compliance(&mut p, &update(0), zero_address());
    assert_eq!(why(r), "caller not available");
}

#[test]
fn status_bytes_are_read() {
    assert!(matches!(decode_compliance_status(0), Some(ComplianceStatus::Clear)));
    assert!(matches!(decode_compliance_status(1), Some(ComplianceStatus::UnderReview)));
    assert!(matches!(decode_compliance_status(2), Some(ComplianceStatus::Flagged)));
    assert!(matches!(decode_compliance_status(3), Some(ComplianceStatus::Restricted)));
    assert!(decode_compliance_status(4).is_none());
}
