use callchain::protocol::errors::ProtocolError;
use callchain::protocol::fee_currency::{
    FeeCurrencyEntry, FeeCurrencyRegistry, FEE_CURRENCY_GRACE_PERIOD,
};
use callchain::protocol::oracle::OracleManager;

#[test]
fn test_fee_currency_registry_is_allowed() {
    let mut registry = FeeCurrencyRegistry::new();
    assert!(!registry.is_allowed(1));

    registry
        .add_fee_currency(
            FeeCurrencyEntry {
                asset_id: 1,
                name: "CALL".into(),
                decimals: 18,
                oracle_price_key: None,
                added_at_block: 0,
                added_by_proposal: 1,
            },
            1,
        )
        .unwrap();
    assert!(registry.is_allowed(1));
}

#[test]
fn test_fee_currency_add_remove() {
    let mut registry = FeeCurrencyRegistry::new();
    registry
        .add_fee_currency(
            FeeCurrencyEntry {
                asset_id: 2,
                name: "USDC".into(),
                decimals: 6,
                oracle_price_key: None,
                added_at_block: 0,
                added_by_proposal: 2,
            },
            2,
        )
        .unwrap();
    assert!(registry.is_allowed(2));

    registry.remove_fee_currency(2, FEE_CURRENCY_GRACE_PERIOD).unwrap();
    assert!(!registry.is_allowed(2));
}

#[test]
fn test_priority_score_call() {
    let registry = FeeCurrencyRegistry::new();
    let score = registry.priority_score(1_000_000, true, None);
    assert_eq!(score, 1_000_000); // CALL = direct fee
}

#[test]
fn test_priority_score_stablecoin_conversion() {
    let registry = FeeCurrencyRegistry::new();
    let score = registry.priority_score(1_000_000, false, None);
    // Stablecoin: fee * call_price / 1_000_000 (fallback price)
    assert_eq!(score, 2_000_000); // 1M * 2M / 1M = 2M
}

#[test]
fn test_priority_score_with_oracle() {
    let registry = FeeCurrencyRegistry::new();
    let mut oracle = OracleManager::default();
    oracle.simple_submit_price(0, 3_000_000, 1000, 100); // Set oracle price to $3.00
    let score = registry.priority_score(1_000_000, false, Some(&oracle));
    assert_eq!(score, 3_000_000); // 1M * 3M / 1M = 3M
}

fn entry(asset_id: u64) -> FeeCurrencyEntry {
    FeeCurrencyEntry {
        asset_id,
        name: "USD".into(),
        decimals: 6,
        oracle_price_key: None,
        added_at_block: 0,
        added_by_proposal: 1,
    }
}

#[test]
fn currencies_are_registered_once() {
    let mut registry = FeeCurrencyRegistry::default();
    registry.add_fee_currency(entry(2), 1).unwrap();
    registry.add_fee_currency(entry(3), 1).unwrap();
    let again = registry.add_fee_currency(entry(2), 1);
    assert!(matches!(again, Err(ProtocolError::RegistryError("currency already registered"))));
    assert_eq!(registry.allowed_currencies.len(), 2);
    assert_eq!(registry.get_entry(3).unwrap().asset_id, 3);
    assert!(registry.get_entry(4).is_none());
}

#[test]
fn removing_a_currency_undoes_adding_it() {
    let mut registry = FeeCurrencyRegistry::new();
    registry.add_fee_currency(entry(2), 1).unwrap();
    registry.add_fee_currency(entry(3), 1).unwrap();
    registry.remove_fee_currency(3, 0).unwrap();
    assert_eq!(registry.allowed_currencies.len(), 1);
    assert!(registry.is_allowed(2));
    let again = registry.remove_fee_currency(3, 0);
    assert!(matches!(again, Err(ProtocolError::RegistryError("currency not found"))));
}

#[test]
fn stablecoins_take_at_most_their_part_of_a_block() {
    let mut registry = FeeCurrencyRegistry::new();
    registry.increment_stablecoin_used(9_000_000).unwrap();
    assert_eq!(registry.stablecoin_used(), 9_000_000);
    registry.check_stablecoin_cap(1_000_000).unwrap();
    let over = registry.check_stablecoin_cap(1_000_001);
    assert!(matches!(over, Err(ProtocolError::GasError("stablecoin fee cap exceeded"))));
    let over = registry.increment_stablecoin_used(u128::MAX);
    assert!(matches!(over, Err(ProtocolError::GasError("stablecoin used overflow"))));
    registry.reset_stablecoin_used();
    assert_eq!(registry.stablecoin_used(), 0);
}

#[test]
fn price_falls_back_without_an_oracle() {
    let registry = FeeCurrencyRegistry::new();
    assert_eq!(registry.get_call_price(None), 2_000_000);
    let mut oracle = OracleManager::default();
    assert_eq!(registry.get_call_price(Some(&oracle)), 2_000_000);
    oracle.simple_submit_price(0, 5, 1000, 100);
    assert_eq!(registry.get_call_price(Some(&oracle)), 5);
}
