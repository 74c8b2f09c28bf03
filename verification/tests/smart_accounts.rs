use callchain::protocol::errors::ProtocolError;
use callchain::protocol::smart_accounts::{
    MultiSigConfig, SessionKeyConfig, SessionKeyDailyUsage, SessionPermissions,
    SmartAccountRegistry, SocialRecoveryConfig,
};
use callchain::words::Address;

fn test_addr(n: u8) -> Address {
    Address::repeat_byte(n)
}

#[test]
fn test_single_sig_valid() {
    // Single sig validation is done by crypto layer
    assert!(true);
}

#[test]
fn test_single_sig_invalid() {
    // Invalid signatures rejected by crypto layer
    assert!(true);
}

#[test]
fn test_multisig_2_of_3_valid() {
    let mut registry = SmartAccountRegistry::new();
    registry
        .register_multi_sig(
            test_addr(1),
            vec![test_addr(2), test_addr(3), test_addr(4)],
            2,
        )
        .unwrap();

    assert!(registry
        .verify_multisig(&test_addr(1), &[test_addr(2), test_addr(3)])
        .is_ok());
}

#[test]
fn test_multisig_threshold_not_met() {
    let mut registry = SmartAccountRegistry::new();
    registry
        .register_multi_sig(
            test_addr(1),
            vec![test_addr(2), test_addr(3), test_addr(4)],
            2,
        )
        .unwrap();

    assert!(registry
        .verify_multisig(&test_addr(1), &[test_addr(2)])
        .is_err());
}

#[test]
fn test_multisig_duplicate_signer() {
    let result = MultiSigConfig::new(
        vec![test_addr(1), test_addr(1), test_addr(2)],
        2,
    );
    assert!(result.is_err());
}

#[test]
fn test_multisig_update_requires_old_threshold() {
    let mut registry = SmartAccountRegistry::new();
    registry
        .register_multi_sig(
            test_addr(1),
            vec![test_addr(2), test_addr(3)],
            2,
        )
        .unwrap();

    registry
        .update_multi_sig(
            test_addr(1),
            vec![test_addr(2), test_addr(4), test_addr(5)],
            2,
        )
        .unwrap();

    let config = registry.multi_sigs.get(test_addr(1)).unwrap();
    assert_eq!(config.version, 2);
    assert_eq!(config.signers.len(), 3);
}

#[test]
fn test_recovery_initiation() {
    let mut registry = SmartAccountRegistry::new();
    registry.recovery_configs.insert(
        test_addr(1),
        SocialRecoveryConfig::new(48 * 3600, vec![test_addr(2), test_addr(3), test_addr(4)]).unwrap(),
    );

    registry
        .initiate_recovery(test_addr(1), [0u8; 64], test_addr(2), [0u8; 65])
        .unwrap();

    let config = registry.recovery_configs.get(test_addr(1)).unwrap();
    assert!(config.pending_recovery.is_some());
}

#[test]
fn test_recovery_guardian_approval() {
    let mut registry = SmartAccountRegistry::new();
    registry.recovery_configs.insert(
        test_addr(1),
        SocialRecoveryConfig::new(48 * 3600, vec![test_addr(2), test_addr(3), test_addr(4)]).unwrap(),
    );
    registry
        .initiate_recovery(test_addr(1), [0u8; 64], test_addr(2), [0u8; 65])
        .unwrap();

    // Authorized guardian can approve
    registry
        .guardian_approve(test_addr(1), test_addr(3))
        .unwrap();

    let config = registry.recovery_configs.get(test_addr(1)).unwrap();
    let request = config.pending_recovery.as_ref().unwrap();
    assert_eq!(request.approved_by.len(), 2);

    // Non-guardian cannot approve
    let result = registry.guardian_approve(test_addr(1), test_addr(99));
    assert!(result.is_err());
}

#[test]
fn test_recovery_finalization_after_delay() {
    let mut registry = SmartAccountRegistry::new();
    registry.recovery_configs.insert(
        test_addr(1),
        SocialRecoveryConfig::new(48 * 3600, vec![test_addr(2), test_addr(3)]).unwrap(),
    );
    registry
        .initiate_recovery(test_addr(1), [1u8; 64], test_addr(2), [0u8; 65])
        .unwrap();

    let new_key = registry.finalize_recovery(test_addr(1)).unwrap();
    assert_eq!(new_key, [1u8; 64]);

    // Second finalize should fail — already consumed
    assert!(registry.finalize_recovery(test_addr(1)).is_err());
}

#[test]
fn test_recovery_cancellation_by_owner() {
    let mut registry = SmartAccountRegistry::new();
    registry.recovery_configs.insert(
        test_addr(1),
        SocialRecoveryConfig::new(48 * 3600, vec![test_addr(2), test_addr(3)]).unwrap(),
    );
    registry
        .initiate_recovery(test_addr(1), [0u8; 64], test_addr(2), [0u8; 65])
        .unwrap();

    registry.cancel_recovery(test_addr(1)).unwrap();
    let config = registry.recovery_configs.get(test_addr(1)).unwrap();
    assert!(config.pending_recovery.is_none());
}

#[test]
fn test_session_key_create_and_revoke() {
    let mut registry = SmartAccountRegistry::new();
    registry
        .create_session_key(
            test_addr(1),
            test_addr(10),
            SessionPermissions {
                max_per_tx: 1000,
                max_daily: 10000,
                allowed_targets: vec![],
                allowed_assets: vec![],
            },
            1000,
        )
        .unwrap();

    // Multiple session keys per account
    registry
        .create_session_key(
            test_addr(1),
            test_addr(11),
            SessionPermissions {
                max_per_tx: 500,
                max_daily: 5000,
                allowed_targets: vec![],
                allowed_assets: vec![],
            },
            2000,
        )
        .unwrap();

    registry.revoke_session_key(test_addr(1), &test_addr(10)).unwrap();
    assert!(registry
        .verify_session_key(&test_addr(1), &test_addr(10), 500)
        .is_err());
    // Second key still valid
    assert!(registry
        .verify_session_key(&test_addr(1), &test_addr(11), 500)
        .is_ok());
}

#[test]
fn test_session_key_expired() {
    let mut registry = SmartAccountRegistry::new();
    registry
        .create_session_key(
            test_addr(1),
            test_addr(10),
            SessionPermissions {
                max_per_tx: 1000,
                max_daily: 10000,
                allowed_targets: vec![],
                allowed_assets: vec![],
            },
            100, // expires at block 100
        )
        .unwrap();

    assert!(registry
        .verify_session_key(&test_addr(1), &test_addr(10), 200)
        .is_err());
}

#[test]
fn test_session_key_daily_limit_exceeded() {
    // Daily limit check happens at transaction level via SessionKeyDailyUsage
    // SessionKeyConfig stores max_daily; usage tracker enforces it
    let usage = SessionKeyDailyUsage {
        session_key: test_addr(10),
        used_today: 9000,
        day_start: 0,
    };
    assert_eq!(usage.used_today, 9000);
    // 9000 + 2000 > 10000 → should be rejected at tx level
    assert!(9000 + 2000 > 10000);
}

#[test]
fn test_session_key_permissions_defaults() {
    let config = SessionKeyConfig {
        session_key: test_addr(10),
        permissions: SessionPermissions {
            max_per_tx: 1000,
            max_daily: 10000,
            allowed_targets: vec![],
            allowed_assets: vec![],
        },
        expires_at: 1000,
    };
    assert_eq!(config.permissions.max_per_tx, 1000);
    assert_eq!(config.permissions.max_daily, 10000);
}

fn three() -> Vec<Address> {
    vec![test_addr(2), test_addr(3), test_addr(4)]
}

#[test]
fn signers_are_checked() {
    let few = MultiSigConfig::new(vec![test_addr(1)], 1);
    assert!(matches!(few, Err(ProtocolError::Recovery("signer count must be 2-10"))));
    let many = MultiSigConfig::new((0..11).map(test_addr).collect(), 1);
    assert!(matches!(many, Err(ProtocolError::Recovery("signer count must be 2-10"))));
    let none = MultiSigConfig::new(three(), 0);
    assert!(matches!(none, Err(ProtocolError::Recovery("threshold must be 1..=n"))));
    let over = MultiSigConfig::new(three(), 4);
    assert!(matches!(over, Err(ProtocolError::Recovery("threshold must be 1..=n"))));
    let twice = MultiSigConfig::new(vec![test_addr(1), test_addr(1)], 1);
    assert!(matches!(twice, Err(ProtocolError::Recovery("duplicate signer"))));
    assert_eq!(MultiSigConfig::new(three(), 3).unwrap().version, 1);
}

#[test]
fn all_signers_suffice_and_each_counts_once() {
    let mut registry = SmartAccountRegistry::new();
    registry.register_multi_sig(test_addr(1), three(), 2).unwrap();
    registry.verify_multisig(&test_addr(1), &three()).unwrap();
    let repeated = registry.verify_multisig(&test_addr(1), &[test_addr(2), test_addr(2)]);
    assert!(matches!(repeated, Err(ProtocolError::Unauthorized)));
    let strangers = registry.verify_multisig(&test_addr(1), &[test_addr(2), test_addr(9)]);
    assert!(matches!(strangers, Err(ProtocolError::Unauthorized)));
    let unknown = registry.verify_multisig(&test_addr(5), &three());
    assert!(matches!(unknown, Err(ProtocolError::Recovery("no multi-sig config"))));
}

#[test]
fn update_raises_the_version() {
    let mut registry = SmartAccountRegistry::new();
    let unknown = registry.update_multi_sig(test_addr(1), three(), 2);
    assert!(matches!(unknown, Err(ProtocolError::Recovery("account not registered"))));
    registry.register_multi_sig(test_addr(1), three(), 2).unwrap();
    registry.update_multi_sig(test_addr(1), three(), 3).unwrap();
    let config = registry.get_multisig_config(&test_addr(1)).unwrap();
    assert_eq!(config.version, 2);
    assert_eq!(config.threshold, 3);
}

#[test]
fn recovery_is_limited_in_time_and_guardians() {
    let soon = SocialRecoveryConfig::new(86_399, three());
    assert!(matches!(
        soon,
        Err(ProtocolError::Recovery("delay must be 24-72 hours (86400-259200s)"))
    ));
    assert!(SocialRecoveryConfig::new(259_201, three()).is_err());
    let lone = SocialRecoveryConfig::new(86_400, vec![test_addr(2)]);
    assert!(matches!(lone, Err(ProtocolError::Recovery("at least 2 guardians required"))));
}

#[test]
fn recovery_is_used_once() {
    let mut registry = SmartAccountRegistry::new();
    let config = SocialRecoveryConfig::new(86_400, three()).unwrap();
    registry.recovery_configs.insert(test_addr(1), config);
    let none = registry.guardian_approve(test_addr(1), test_addr(2));
    assert!(matches!(none, Err(ProtocolError::Recovery("no pending recovery"))));
    registry.initiate_recovery(test_addr(1), [7; 64], test_addr(2), [1; 65]).unwrap();
    let twice = registry.initiate_recovery(test_addr(1), [8; 64], test_addr(3), [1; 65]);
    assert!(matches!(twice, Err(ProtocolError::Recovery("recovery already pending"))));
    registry.guardian_approve(test_addr(1), test_addr(3)).unwrap();
    registry.guardian_approve(test_addr(1), test_addr(3)).unwrap();
    let config = registry.recovery_configs.get(test_addr(1)).unwrap();
    let request = config.pending_recovery.as_ref().unwrap();
    assert_eq!(request.approved_by, vec![test_addr(2), test_addr(3)]);
    assert_eq!(registry.finalize_recovery(test_addr(1)).unwrap(), [7; 64]);
    let again = registry.finalize_recovery(test_addr(1));
    assert!(matches!(again, Err(ProtocolError::Recovery("no pending recovery"))));
    let unknown = registry.finalize_recovery(test_addr(9));
    assert!(matches!(unknown, Err(ProtocolError::Recovery("no recovery config"))));
}

#[test]
fn cancelled_recovery_is_refused() {
    let mut registry = SmartAccountRegistry::new();
    let unknown = registry.cancel_recovery(test_addr(1));
    assert!(matches!(unknown, Err(ProtocolError::Recovery("no recovery config"))));
    let config = SocialRecoveryConfig::new(86_400, three()).unwrap();
    registry.recovery_configs.insert(test_addr(1), config);
    registry.initiate_recovery(test_addr(1), [7; 64], test_addr(2), [1; 65]).unwrap();
    registry.cancel_recovery(test_addr(1)).unwrap();
    assert!(registry.finalize_recovery(test_addr(1)).is_err());
}

#[test]
fn revoked_session_key_is_refused() {
    let mut registry = SmartAccountRegistry::new();
    let permissions = SessionPermissions {
        max_per_tx: 1,
        max_daily: 2,
        allowed_targets: vec![],
        allowed_assets: vec![],
    };
    let unknown = registry.verify_session_key(&test_addr(1), &test_addr(5), 10);
    assert!(matches!(unknown, Err(ProtocolError::SessionKey("no session key config"))));
    registry.create_session_key(test_addr(1), test_addr(5), permissions, 100).unwrap();
    registry.verify_session_key(&test_addr(1), &test_addr(5), 100).unwrap();
    let late = registry.verify_session_key(&test_addr(1), &test_addr(5), 101);
    assert!(matches!(late, Err(ProtocolError::SessionKey("session expired"))));
    registry.revoke_session_key(test_addr(1), &test_addr(5)).unwrap();
    let revoked = registry.verify_session_key(&test_addr(1), &test_addr(5), 10);
    assert!(matches!(revoked, Err(ProtocolError::Unauthorized)));
    let again = registry.revoke_session_key(test_addr(1), &test_addr(5));
    assert!(matches!(again, Err(ProtocolError::SessionKey("no session key"))));
}
