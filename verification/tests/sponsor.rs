use callchain::protocol::account::AccountState;
use callchain::protocol::errors::ProtocolError;
use callchain::protocol::sponsor::{GasSponsorAuth, GasSponsorPool, SponsorRegistry};
use callchain::protocol::CALL_ASSET_ID;
use callchain::words::Address;

fn test_addr(n: u8) -> Address {
    Address::repeat_byte(n)
}

#[test]
fn test_sponsor_auth_register_and_revoke() {
    let mut registry = SponsorRegistry::new();
    let auth = GasSponsorAuth {
        sponsor: test_addr(1),
        allowed_senders: vec![test_addr(2)],
        max_daily: 10_000,
        expires_at: 1000,
        sponsor_signature: [0u8; 65],
    };
    registry.register_sponsor_auth(auth).unwrap();
    registry.revoke_sponsor_auth(test_addr(1)).unwrap();
    assert!(registry.auths.is_empty());
}

#[test]
fn test_sponsor_auth_expired_expiry() {
    let mut registry = SponsorRegistry::new();
    let auth = GasSponsorAuth {
        sponsor: test_addr(1),
        allowed_senders: vec![],
        max_daily: 10_000,
        expires_at: 50,
        sponsor_signature: [0u8; 65],
    };
    registry.register_sponsor_auth(auth).unwrap();

    let mut account = AccountState::new();
    let result = registry.verify_and_deduct_authorized_sponsor(
        &test_addr(1),
        &test_addr(2),
        100,
        100, // current_day > expires_at
        &mut account,
    );
    assert!(result.is_err());
}

#[test]
fn test_sponsor_auth_sender_not_whitelisted() {
    let mut registry = SponsorRegistry::new();
    let auth = GasSponsorAuth {
        sponsor: test_addr(1),
        allowed_senders: vec![test_addr(2)],
        max_daily: 10_000,
        expires_at: 1000,
        sponsor_signature: [0u8; 65],
    };
    registry.register_sponsor_auth(auth).unwrap();

    let mut account = AccountState::new();
    let result = registry.verify_and_deduct_authorized_sponsor(
        &test_addr(1),
        &test_addr(3), // not in whitelist
        100,
        10,
        &mut account,
    );
    assert!(result.is_err());
}

#[test]
fn test_sponsor_auth_daily_limit_exceeded() {
    let mut registry = SponsorRegistry::new();
    let auth = GasSponsorAuth {
        sponsor: test_addr(1),
        allowed_senders: vec![],
        max_daily: 500,
        expires_at: 1000,
        sponsor_signature: [0u8; 65],
    };
    registry.register_sponsor_auth(auth).unwrap();

    let mut account = AccountState::new();
    account.balances.set_balance(CALL_ASSET_ID, test_addr(1), 10_000).unwrap();

    // First tx: OK
    registry
        .verify_and_deduct_authorized_sponsor(&test_addr(1), &test_addr(2), 300, 10, &mut account)
        .unwrap();

    // Second tx: exceeds daily limit (300+300 > 500)
    let result = registry.verify_and_deduct_authorized_sponsor(
        &test_addr(1), &test_addr(2), 300, 10, &mut account,
    );
    assert!(result.is_err());
}

#[test]
fn test_sponsor_pool_deposit_and_withdraw() {
    let mut registry = SponsorRegistry::new();
    registry.deposit_to_pool(test_addr(1), 10_000).unwrap();
    registry.withdraw_from_pool(test_addr(1), 3_000).unwrap();
    let pool = registry.pools.get(test_addr(1)).unwrap();
    assert_eq!(pool.balance, 7_000);
}

#[test]
fn test_sponsor_pool_insufficient_balance() {
    let mut registry = SponsorRegistry::new();
    registry.deposit_to_pool(test_addr(1), 1_000).unwrap();
    assert!(registry.withdraw_from_pool(test_addr(1), 2_000).is_err());
}

#[test]
fn test_per_tx_sponsor_signature_verification() {
    let mut registry = SponsorRegistry::new();
    let mut account = AccountState::new();
    account.balances.set_balance(CALL_ASSET_ID, test_addr(1), 1000).unwrap();
    // With sufficient balance, should succeed
    let result = registry.verify_and_deduct_per_tx_sponsor(&test_addr(1), 100, &mut account);
    assert!(result.is_ok());
    assert_eq!(account.balances.get_balance(CALL_ASSET_ID, &test_addr(1)), 900);

    // Insufficient balance should fail
    let result = registry.verify_and_deduct_per_tx_sponsor(&test_addr(2), 100, &mut account);
    assert!(result.is_err());
}

fn auth(allowed_senders: Vec<Address>) -> GasSponsorAuth {
    GasSponsorAuth {
        sponsor: test_addr(1),
        allowed_senders,
        max_daily: 100,
        expires_at: 50,
        sponsor_signature: [0; 65],
    }
}

fn funded() -> AccountState {
    let mut account = AccountState::new();
    account.credit_balance(CALL_ASSET_ID, test_addr(1), 1000).unwrap();
    account
}

#[test]
fn sponsor_pays_within_its_daily_limit() {
    let mut registry = SponsorRegistry::new();
    let mut account = funded();
    let (sponsor, sender) = (test_addr(1), test_addr(2));
    let mut pay = |registry: &mut SponsorRegistry, fee: u128, day: u64| {
        registry.verify_and_deduct_authorized_sponsor(&sponsor, &sender, fee, day, &mut account)
    };
    let unknown = pay(&mut registry, 1, 3);
    assert!(matches!(unknown, Err(ProtocolError::SponsorError("sponsor not registered"))));
    registry.register_sponsor_auth(auth(vec![sender])).unwrap();
    pay(&mut registry, 60, 3).unwrap();
    pay(&mut registry, 40, 3).unwrap();
    let over = pay(&mut registry, 1, 3);
    assert!(matches!(over, Err(ProtocolError::SponsorError("daily limit exceeded"))));
    pay(&mut registry, 1, 4).unwrap();
    let late = pay(&mut registry, 1, 50);
    assert!(matches!(late, Err(ProtocolError::SponsorError("sponsor expired"))));
    assert_eq!(account.get_balance(CALL_ASSET_ID, &sponsor), 899);
}

#[test]
fn sponsors_register_once_and_choose_senders() {
    let mut registry = SponsorRegistry::new();
    registry.register_sponsor_auth(auth(vec![test_addr(2)])).unwrap();
    let twice = registry.register_sponsor_auth(auth(vec![]));
    assert!(matches!(twice, Err(ProtocolError::SponsorError("sponsor already registered"))));
    let mut account = funded();
    let stranger = registry.verify_and_deduct_authorized_sponsor(
        &test_addr(1),
        &test_addr(3),
        1,
        3,
        &mut account,
    );
    assert!(matches!(stranger, Err(ProtocolError::SponsorError("sender not whitelisted"))));
    registry.revoke_sponsor_auth(test_addr(1)).unwrap();
    let again = registry.revoke_sponsor_auth(test_addr(1));
    assert!(matches!(again, Err(ProtocolError::SponsorError("sponsor not found"))));
}

#[test]
fn pools_pay_what_they_hold() {
    let mut registry = SponsorRegistry::new();
    let mut account = funded();
    let (sponsor, sender) = (test_addr(1), test_addr(2));
    let none = registry.verify_and_deduct_pool_sponsor(&sponsor, &sender, 1, &mut account);
    assert!(matches!(none, Err(ProtocolError::SponsorError("pool not found"))));
    assert!(registry.withdraw_from_pool(sponsor, 1).is_err());
    registry.pools.insert(sponsor, GasSponsorPool {
        sponsor,
        balance: 50,
        delegated_to: vec![sender],
        per_tx_limit: 30,
    });
    registry.deposit_to_pool(sponsor, 5).unwrap();
    let stranger = registry.verify_and_deduct_pool_sponsor(
        &sponsor,
        &test_addr(3),
        1,
        &mut account,
    );
    assert!(matches!(stranger, Err(ProtocolError::SponsorError("sender not delegated"))));
    let large = registry.verify_and_deduct_pool_sponsor(&sponsor, &sender, 31, &mut account);
    assert!(matches!(large, Err(ProtocolError::SponsorError("exceeds per-tx limit"))));
    registry.verify_and_deduct_pool_sponsor(&sponsor, &sender, 30, &mut account).unwrap();
    let short = registry.verify_and_deduct_pool_sponsor(&sponsor, &sender, 26, &mut account);
    assert!(matches!(short, Err(ProtocolError::SponsorError("insufficient pool balance"))));
    registry.withdraw_from_pool(sponsor, 20).unwrap();
    assert_eq!(registry.pools.get(sponsor).unwrap().balance, 5);
    assert_eq!(account.get_balance(CALL_ASSET_ID, &sponsor), 970);
}

#[test]
fn sponsor_of_one_transaction_needs_the_fee() {
    let mut registry = SponsorRegistry::new();
    let mut account = funded();
    registry.verify_and_deduct_per_tx_sponsor(&test_addr(1), 1000, &mut account).unwrap();
    let short = registry.verify_and_deduct_per_tx_sponsor(&test_addr(1), 1, &mut account);
    assert!(matches!(short, Err(ProtocolError::SponsorError("sponsor insufficient balance"))));
}

#[test]
fn limit_holds_from_the_second_fee_of_a_day_on() {
    let mut registry = SponsorRegistry::new();
    let mut account = funded();
    let (sponsor, sender) = (test_addr(1), test_addr(2));
    registry.register_sponsor_auth(auth(vec![sender])).unwrap();
    let mut pay = |fee: u128, day: u64| {
        registry.verify_and_deduct_authorized_sponsor(&sponsor, &sender, fee, day, &mut account)
    };
    let over = pay(101, 0);
    assert!(matches!(over, Err(ProtocolError::SponsorError("daily limit exceeded"))));
    pay(150, 3).unwrap();
    let over = pay(1, 3);
    assert!(matches!(over, Err(ProtocolError::SponsorError("daily limit exceeded"))));
    pay(100, 4).unwrap();
    pay(0, 4).unwrap();
    let over = pay(1, 4);
    assert!(matches!(over, Err(ProtocolError::SponsorError("daily limit exceeded"))));
    assert_eq!(account.get_balance(CALL_ASSET_ID, &sponsor), 750);
}
