use callchain::protocol::errors::ProtocolError;
use callchain::protocol::registry::{AssetRegistry, AssetStatus};
use callchain::words::Address;

fn test_addr(n: u8) -> Address {
    Address::repeat_byte(n)
}

#[test]
fn test_register_asset_success() {
    let mut registry = AssetRegistry::new();
    let id = registry
        .register_asset("TEST".into(), "Test Token".into(), 18, test_addr(1), 0, 100, 0)
        .expect("register");
    assert_eq!(id, 1);
    let asset = registry.get_asset(id).expect("lookup");
    assert_eq!(asset.symbol, "TEST");
    assert_eq!(asset.issuer, test_addr(1));
    assert_eq!(asset.status, AssetStatus::Active);
    assert_eq!(asset.registered_at, 100);
    assert_eq!(asset.max_supply, 0); // uncapped
    assert_eq!(asset.protocol_supply, 0);
    assert_eq!(asset.evm_supply, 0);
    assert_eq!(asset.all_supply(), 0);
}

#[test]
fn test_register_asset_with_cap() {
    let mut registry = AssetRegistry::new();
    let id = registry
        .register_asset("CAPPED".into(), "Capped Token".into(), 18, test_addr(1), 0, 100, 1_000_000)
        .expect("register");
    let asset = registry.get_asset(id).unwrap();
    assert_eq!(asset.max_supply, 1_000_000);
    assert!(asset.would_exceed_cap(1_000_001));
    assert!(!asset.would_exceed_cap(1_000_000));
}

#[test]
fn test_register_asset_duplicate_symbol() {
    let mut registry = AssetRegistry::new();
    registry
        .register_asset("TEST".into(), "Test".into(), 18, test_addr(1), 0, 100, 0)
        .unwrap();
    let err = registry
        .register_asset("TEST".into(), "Test 2".into(), 18, test_addr(2), 0, 100, 0)
        .unwrap_err();
    assert!(matches!(err, ProtocolError::RegistryError(_)));
}

#[test]
fn test_asset_freeze_unfreeze_and_delist() {
    let mut registry = AssetRegistry::new();
    let id = registry
        .register_asset("X".into(), "X Token".into(), 18, test_addr(1), 0, 100, 0)
        .unwrap();

    // Freeze by issuer
    registry.freeze_asset(id, &test_addr(1)).unwrap();
    assert_eq!(
        registry.get_asset(id).unwrap().status,
        AssetStatus::Frozen
    );

    // Unfreeze by issuer
    registry.unfreeze_asset(id, &test_addr(1)).unwrap();
    assert_eq!(
        registry.get_asset(id).unwrap().status,
        AssetStatus::Active
    );

    // Delist by issuer
    registry.delist_asset(id, &test_addr(1)).unwrap();
    assert_eq!(
        registry.get_asset(id).unwrap().status,
        AssetStatus::Delisted
    );

    // Freeze by non-issuer fails
    let id2 = registry
        .register_asset("Y".into(), "Y Token".into(), 18, test_addr(2), 0, 100, 0)
        .unwrap();
    assert!(registry.freeze_asset(id2, &test_addr(3)).is_err());
}

#[test]
fn test_mint_and_burn_supply_with_cap() {
    let mut registry = AssetRegistry::new();
    let id = registry
        .register_asset("CAP".into(), "Capped".into(), 18, test_addr(1), 0, 100, 1000)
        .unwrap();

    // Mint 500 protocol supply
    registry.mint_supply(id, &test_addr(1), 500).unwrap();
    assert_eq!(registry.get_asset(id).unwrap().protocol_supply, 500);
    assert_eq!(registry.get_asset(id).unwrap().all_supply(), 500);

    // Add 300 evm supply
    registry.add_evm_supply(id, 300).unwrap();
    assert_eq!(registry.get_asset(id).unwrap().evm_supply, 300);
    assert_eq!(registry.get_asset(id).unwrap().all_supply(), 800);

    // Try to mint beyond cap
    assert!(registry.mint_supply(id, &test_addr(1), 201).is_err());
    // Exact cap should work
    registry.mint_supply(id, &test_addr(1), 200).unwrap();
    assert_eq!(registry.get_asset(id).unwrap().all_supply(), 1000);

    // Burn protocol supply
    registry.burn_supply(id, &test_addr(1), 100).unwrap();
    assert_eq!(registry.get_asset(id).unwrap().protocol_supply, 600);

    // Sub evm supply
    registry.sub_evm_supply(id, 100).unwrap();
    assert_eq!(registry.get_asset(id).unwrap().evm_supply, 200);
    assert_eq!(registry.get_asset(id).unwrap().all_supply(), 800);
}

#[test]
fn test_get_asset_not_found() {
    let registry = AssetRegistry::new();
    assert!(registry.get_asset(999).is_none());
    assert!(registry.get_asset_by_symbol("NOPE").is_none());
}

#[test]
fn test_cap_boundary_exact_limit() {
    let mut registry = AssetRegistry::new();
    let id = registry
        .register_asset("CAP".into(), "Capped".into(), 18, test_addr(1), 0, 100, 1000)
        .unwrap();

    // Mint exactly the cap
    registry.mint_supply(id, &test_addr(1), 1000).unwrap();
    assert_eq!(registry.get_asset(id).unwrap().all_supply(), 1000);

    // One unit over should fail
    assert!(registry.mint_supply(id, &test_addr(1), 1).is_err());

    // Burn some then mint back to exact cap
    registry.burn_supply(id, &test_addr(1), 100).unwrap();
    registry.mint_supply(id, &test_addr(1), 100).unwrap();
    assert_eq!(registry.get_asset(id).unwrap().all_supply(), 1000);
}

#[test]
fn test_evm_mint_cap_enforcement() {
    let mut registry = AssetRegistry::new();
    let id = registry
        .register_asset("CAP".into(), "Capped".into(), 18, test_addr(1), 0, 100, 1000)
        .unwrap();

    // Protocol mint 600
    registry.mint_supply(id, &test_addr(1), 600).unwrap();

    // EVM mint 400 should succeed
    registry.add_evm_supply(id, 400).unwrap();
    assert_eq!(registry.get_asset(id).unwrap().all_supply(), 1000);

    // EVM mint 1 more should fail
    assert!(registry.add_evm_supply(id, 1).is_err());

    // Burn protocol supply then EVM mint should succeed
    registry.burn_supply(id, &test_addr(1), 100).unwrap();
    registry.add_evm_supply(id, 100).unwrap();
    assert_eq!(registry.get_asset(id).unwrap().all_supply(), 1000);
}

#[test]
fn test_uncapped_asset_unlimited_mint() {
    let mut registry = AssetRegistry::new();
    let id = registry
        .register_asset("UNCAPPED".into(), "Uncapped".into(), 18, test_addr(1), 0, 100, 0)
        .unwrap();

    // Large mints should succeed when max_supply == 0
    registry.mint_supply(id, &test_addr(1), u128::MAX / 2).unwrap();
    registry.add_evm_supply(id, u128::MAX / 2).unwrap();
    assert_eq!(
        registry.get_asset(id).unwrap().all_supply(),
        u128::MAX - 1
    );
}

#[test]
fn test_all_supply_overflow_safety() {
    let mut registry = AssetRegistry::new();
    let id = registry
        .register_asset("CAP".into(), "Capped".into(), 18, test_addr(1), 0, 100, 0)
        .unwrap();

    // Set supplies near u128::MAX
    registry.mint_supply(id, &test_addr(1), u128::MAX).unwrap();
    registry.add_evm_supply(id, 1).unwrap();

    // all_supply should saturate, not panic
    let asset = registry.get_asset(id).unwrap();
    assert_eq!(asset.all_supply(), u128::MAX);

    // With a finite cap below u128::MAX, exceeding it is detected
    let capped_id = registry
        .register_asset("CAP2".into(), "Capped2".into(), 18, test_addr(1), 0, 100, u128::MAX - 1)
        .unwrap();
    registry.mint_supply(capped_id, &test_addr(1), u128::MAX - 1).unwrap();
    assert!(registry.get_asset(capped_id).unwrap().would_exceed_cap(1));
}

#[test]
fn test_non_issuer_cannot_freeze_delist() {
    let mut registry = AssetRegistry::new();
    let id = registry
        .register_asset("X".into(), "X Token".into(), 18, test_addr(1), 0, 100, 0)
        .unwrap();

    assert!(registry.freeze_asset(id, &test_addr(2)).is_err());
    assert!(registry.unfreeze_asset(id, &test_addr(2)).is_err());
    assert!(registry.delist_asset(id, &test_addr(2)).is_err());

    // Issuer can do all of these
    registry.freeze_asset(id, &test_addr(1)).unwrap();
    registry.unfreeze_asset(id, &test_addr(1)).unwrap();
    registry.delist_asset(id, &test_addr(1)).unwrap();
}

#[test]
fn test_bridge_does_not_affect_cap() {
    let mut registry = AssetRegistry::new();
    let id = registry
        .register_asset("BRIDGE".into(), "Bridge".into(), 18, test_addr(1), 0, 100, 1000)
        .unwrap();

    // Protocol mint 500
    registry.mint_supply(id, &test_addr(1), 500).unwrap();

    // Bridge deposit (add_evm_supply) increases evm_supply
    registry.add_evm_supply(id, 200).unwrap();
    assert_eq!(registry.get_asset(id).unwrap().all_supply(), 700);

    // Bridge withdrawal (sub_evm_supply) decreases evm_supply
    registry.sub_evm_supply(id, 100).unwrap();
    assert_eq!(registry.get_asset(id).unwrap().all_supply(), 600);

    // Cap is enforced against all_supply, so remaining headroom is 400
    assert!(!registry.get_asset(id).unwrap().would_exceed_cap(400));
    assert!(registry.get_asset(id).unwrap().would_exceed_cap(401));
}

fn one_asset(max_supply: u128) -> AssetRegistry {
    let mut registry = AssetRegistry::new();
    registry
        .register_asset("A".into(), "Asset".into(), 6, test_addr(1), 2, 40, max_supply)
        .unwrap();
    registry
}

#[test]
fn registered_asset_is_found_by_number_and_symbol() {
    let mut registry = AssetRegistry::new();
    assert!(registry.is_empty());
    assert_eq!(registry.next_id(), 1);
    registry.register_asset("A".into(), "Asset".into(), 6, test_addr(1), 2, 40, 9).unwrap();
    assert!(!registry.is_empty());
    assert_eq!(registry.next_id(), 2);
    let asset = registry.get_asset_by_symbol("A").unwrap();
    assert_eq!(asset.id, 1);
    assert_eq!(asset.name, "Asset");
    assert_eq!(asset.decimals, 6);
    assert_eq!(asset.compliance_policy, 2);
    assert_eq!(asset.registered_at, 40);
    assert_eq!(asset.all_supply(), 0);
    assert!(registry.get_asset_by_symbol("B").is_none());
}

#[test]
fn symbols_are_short_and_used_once() {
    let mut registry = one_asset(0);
    let twice = registry.register_asset("A".into(), "B".into(), 6, test_addr(2), 0, 0, 0);
    assert!(matches!(twice, Err(ProtocolError::RegistryError("duplicate symbol"))));
    let long = "ABCDEFGHIJKLM";
    let refused = registry.register_asset(long.into(), "B".into(), 6, test_addr(2), 0, 0, 0);
    assert!(matches!(
        refused,
        Err(ProtocolError::RegistryError("symbol too long (max 12 chars)"))
    ));
    let fits = registry.register_asset(long[1..].into(), "B".into(), 6, test_addr(2), 0, 0, 0);
    assert_eq!(fits.unwrap(), 2);
}

#[test]
fn supply_changes_by_exactly_the_amount() {
    let mut registry = one_asset(100);
    registry.mint_supply(1, &test_addr(1), 60).unwrap();
    registry.add_evm_supply(1, 30).unwrap();
    let over = registry.mint_supply(1, &test_addr(1), 11);
    assert!(matches!(over, Err(ProtocolError::AssetError("mint would exceed max supply cap"))));
    let over = registry.add_evm_supply(1, 11);
    assert!(matches!(
        over,
        Err(ProtocolError::AssetError("evm mint would exceed max supply cap"))
    ));
    registry.burn_supply(1, &test_addr(1), 25).unwrap();
    registry.sub_evm_supply(1, 10).unwrap();
    let asset = registry.get_asset(1).unwrap();
    assert_eq!(asset.protocol_supply, 35);
    assert_eq!(asset.evm_supply, 20);
    assert_eq!(asset.all_supply(), 55);
    assert!(asset.would_exceed_cap(46));
    assert!(!asset.would_exceed_cap(45));
}

#[test]
fn supply_never_falls_below_nothing() {
    let mut registry = one_asset(0);
    let short = registry.burn_supply(1, &test_addr(1), 1);
    assert!(matches!(short, Err(ProtocolError::BalanceError("insufficient supply"))));
    let short = registry.sub_evm_supply(1, 1);
    assert!(matches!(short, Err(ProtocolError::BalanceError("insufficient evm supply"))));
    registry.mint_supply(1, &test_addr(1), u128::MAX).unwrap();
    let over = registry.mint_supply(1, &test_addr(1), 1);
    assert!(matches!(over, Err(ProtocolError::BalanceError("overflow"))));
    let unknown = registry.sub_evm_supply(2, 1);
    assert!(matches!(unknown, Err(ProtocolError::AssetError("asset not found"))));
}

#[test]
fn only_the_issuer_changes_an_asset() {
    let mut registry = one_asset(0);
    assert!(registry.mint_supply(1, &test_addr(2), 1).is_err());
    assert!(registry.burn_supply(1, &test_addr(2), 0).is_err());
    assert!(registry.unfreeze_asset(1, &test_addr(2)).is_err());
    assert!(registry.update_asset_compliance_policy(1, test_addr(2), 1).is_err());
    let same = registry.transfer_asset_issuer(1, test_addr(1), test_addr(1));
    assert!(matches!(same, Err(ProtocolError::Unauthorized)));
    registry.transfer_asset_issuer(1, test_addr(1), test_addr(2)).unwrap();
    registry.update_asset_compliance_policy(1, test_addr(2), 4).unwrap();
    let asset = registry.get_asset(1).unwrap();
    assert_eq!(asset.issuer, test_addr(2));
    assert_eq!(asset.compliance_policy, 4);
}

#[test]
fn unfreezing_an_asset_undoes_freezing_it() {
    let mut registry = one_asset(0);
    registry.freeze_asset(1, &test_addr(1)).unwrap();
    assert_eq!(registry.get_asset(1).unwrap().status, AssetStatus::Frozen);
    registry.unfreeze_asset(1, &test_addr(1)).unwrap();
    assert_eq!(registry.get_asset(1).unwrap().status, AssetStatus::Active);
}

#[test]
fn contract_of_the_wrapped_token_is_noted() {
    let mut registry = one_asset(0);
    assert_eq!(registry.get_evm_contract_address(1), None);
    registry.set_evm_contract_address(1, test_addr(8));
    registry.set_evm_contract_address(2, test_addr(9));
    assert_eq!(registry.get_evm_contract_address(1), Some(test_addr(8)));
    assert_eq!(registry.get_evm_contract_address(2), None);
    registry.get_asset_mut(1).unwrap().decimals = 9;
    assert_eq!(registry.get_asset(1).unwrap().decimals, 9);
}

#[test]
fn copy_of_a_registry_is_independent() {
    let mut registry = one_asset(0);
    let copy = registry.duplicate();
    registry.mint_supply(1, &test_addr(1), 7).unwrap();
    registry.freeze_asset(1, &test_addr(1)).unwrap();
    let kept = copy.get_asset(1).unwrap();
    assert_eq!(kept.protocol_supply, 0);
    assert_eq!(kept.status, AssetStatus::Active);
    assert_eq!(kept.symbol, "A");
    assert_eq!(copy.get_asset_by_symbol("A").unwrap().id, 1);
}
