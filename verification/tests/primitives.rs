use callchain::primitives::{
    AssetId, Balance, BlockHash, Ed25519PublicKey, ExecutionStatus, FeeCurrency, Nonce, PricePair,
    ProtocolVersion, PublicKey, Signature, TxHash, ValidatorId, MINIMUM_UNIT,
};
use callchain::words::zero_address;

#[test]
fn test_address_zero() {
    let addr = zero_address();
    assert_eq!(addr.to_bytes().len(), 20);
    assert!(addr.is_zero());
}

#[test]
fn test_fee_currency_equality() {
    let c1 = FeeCurrency::Call;
    let c2 = FeeCurrency::Call;
    assert_eq!(c1, c2);

    let s1 = FeeCurrency::Stablecoin(1);
    let s2 = FeeCurrency::Stablecoin(1);
    assert_eq!(s1, s2);
    assert_ne!(c1, s1);
}

#[test]
fn test_type_alias_sizes() {
    assert_eq!(std::mem::size_of::<TxHash>(), 32);
    assert_eq!(std::mem::size_of::<BlockHash>(), 32);
    assert_eq!(std::mem::size_of::<AssetId>(), 8);
    assert_eq!(std::mem::size_of::<Balance>(), 16);
    assert_eq!(std::mem::size_of::<ValidatorId>(), 4);
    assert_eq!(std::mem::size_of::<Nonce>(), 8);
    assert_eq!(std::mem::size_of::<Signature>(), 65);
    assert_eq!(std::mem::size_of::<PublicKey>(), 64);
    assert_eq!(std::mem::size_of::<Ed25519PublicKey>(), 32);
}

#[test]
fn test_execution_status() {
    let ok = ExecutionStatus::Success;
    assert!(ok.is_success());
    assert!(!ok.is_reverted());

    let fail = ExecutionStatus::Reverted {
        reason: "out of gas".into(),
    };
    assert!(!fail.is_success());
    assert!(fail.is_reverted());
}

#[test]
fn test_protocol_version() {
    let v = ProtocolVersion::new(1, 2, 3);
    assert_eq!(v.to_string(), "1.2.3");
    assert_eq!(v, ProtocolVersion::new(1, 2, 3));
}

#[test]
fn test_minimum_unit() {
    assert_eq!(MINIMUM_UNIT, 1);
}

#[test]
fn test_price_pair_call_usd() {
    let pair = PricePair::call_usd();
    assert_eq!(pair.base, 1);
    assert_eq!(pair.quote, 0);
}

#[test]
fn test_price_pair_equality() {
    let p1 = PricePair::new(2, 0);
    let p2 = PricePair::new(2, 0);
    let p3 = PricePair::new(2, 1);
    assert_eq!(p1, p2);
    assert_ne!(p1, p3);
}

#[test]
fn versions_are_written_in_decimal() {
    assert_eq!(ProtocolVersion::new(0, 10, u16::MAX).to_string(), "0.10.65535");
}
