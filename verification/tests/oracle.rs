use callchain::crypto::ed25519_public_key;
use callchain::protocol::oracle::{
    oracle_message_hash, oracle_quorum, sign_oracle_submission, OracleConfig, OracleError,
    OracleManager, OracleSubmission,
};

type Ed25519PublicKey = [u8; 32];
type SigningKey = [u8; 32];

fn keypair(n: u8) -> (Ed25519PublicKey, SigningKey) {
    let secret = [n + 1; 32];
    (ed25519_public_key(&secret), secret)
}

fn make_manager() -> (OracleManager, Vec<(u32, Ed25519PublicKey, SigningKey)>) {
    let mut manager = OracleManager::new(OracleConfig::default());
    let mut validators = Vec::new();

    // Register 6 validators (quorum = ceil(2/3*6) = 4)
    for i in 0..6 {
        let (pubkey, signing_key) = keypair(i as u8);
        let vid = i as u32;
        manager.register_validator(vid, pubkey);
        validators.push((vid, pubkey, signing_key));
    }

    (manager, validators)
}

fn submit_all(
    manager: &mut OracleManager,
    validators: &[(u32, Ed25519PublicKey, SigningKey)],
    asset_id: u64,
    block: u64,
    price: u128,
) {
    for (vid, _, signing_key) in validators {
        let timestamp = block * 1000;
        let sig = sign_oracle_submission(signing_key, *vid, asset_id, price, block, timestamp);
        let _ = manager.submit_price(OracleSubmission {
            validator_id: *vid,
            asset_id,
            price,
            block_number: block,
            timestamp,
            signature: sig,
        });
    }
}

fn quorum_for(validators: &[(u32, Ed25519PublicKey, SigningKey)]) -> usize {
    oracle_quorum(validators.len())
}

#[test]
fn test_oracle_quorum_function() {
    assert_eq!(oracle_quorum(1), 1);  // single validator
    assert_eq!(oracle_quorum(2), 2);  // 2 validators, both required
    assert_eq!(oracle_quorum(3), 2);  // ceil(2/3*3) = 2
    assert_eq!(oracle_quorum(4), 3);  // ceil(2/3*4) = 3
    assert_eq!(oracle_quorum(6), 4);  // ceil(2/3*6) = 4
    assert_eq!(oracle_quorum(21), 14); // production subset
    assert_eq!(oracle_quorum(216), 144);
}

fn submit_price_for_asset(
    manager: &mut OracleManager,
    validators: &[(u32, Ed25519PublicKey, SigningKey)],
    asset_id: u64,
    block: u64,
    price: u128,
) {
    submit_all(manager, validators, asset_id, block, price);
}

#[test]
fn test_oracle_submission_valid() {
    let (mut manager, validators) = make_manager();
    let asset_id = 1u64;
    let block = 1000u64;
    let price = 2_000_000u128;

    submit_all(&mut manager, &validators, asset_id, block, price);

    let q = quorum_for(&validators);
    let agg = manager.get_price(asset_id).unwrap();
    assert_eq!(agg.median_price, price);
    assert_eq!(agg.submission_count, q);
    assert_eq!(agg.outlier_count, 0);
}

#[test]
fn test_oracle_submission_wrong_period() {
    let (mut manager, validators) = make_manager();
    let (vid, _, signing_key) = &validators[0];
    let timestamp = 500_000u64;

    // Block 500 is not on update interval (1000)
    let sig = sign_oracle_submission(signing_key, *vid, 1, 2_000_000, 500, timestamp);
    let submission = OracleSubmission {
        validator_id: *vid,
        asset_id: 1,
        price: 2_000_000,
        block_number: 500,
        timestamp,
        signature: sig,
    };
    assert!(matches!(
        manager.submit_price(submission),
        Err(OracleError::WrongPeriod)
    ));
}

#[test]
fn test_oracle_submission_duplicate() {
    let (mut manager, validators) = make_manager();
    let (vid, _, signing_key) = &validators[0];
    let block = 1000u64;
    let timestamp = block * 1000;

    // First submission
    let sig = sign_oracle_submission(signing_key, *vid, 1, 2_000_000, block, timestamp);
    let submission = OracleSubmission {
        validator_id: *vid,
        asset_id: 1,
        price: 2_000_000,
        block_number: block,
        timestamp,
        signature: sig,
    };
    assert!(manager.submit_price(submission).is_ok());

    // Same validator, same block = duplicate
    let sig2 = sign_oracle_submission(signing_key, *vid, 1, 2_100_000, block, timestamp);
    let submission2 = OracleSubmission {
        validator_id: *vid,
        asset_id: 1,
        price: 2_100_000,
        block_number: block,
        timestamp,
        signature: sig2,
    };
    assert!(matches!(
        manager.submit_price(submission2),
        Err(OracleError::DuplicateSubmission)
    ));
}

#[test]
fn test_oracle_aggregation_median() {
    let (mut manager, validators) = make_manager();
    let asset_id = 1u64;
    let block = 1000u64;
    let q = quorum_for(&validators);

    // Half submit 1_900_000, half submit 2_100_000
    let half = q / 2;
    for (i, (vid, _, signing_key)) in validators.iter().enumerate().take(q) {
        let timestamp = block * 1000;
        let price = if i < half { 1_900_000 } else { 2_100_000 };
        let sig = sign_oracle_submission(signing_key, *vid, asset_id, price, block, timestamp);
        let submission = OracleSubmission {
            validator_id: *vid,
            asset_id,
            price,
            block_number: block,
            timestamp,
            signature: sig,
        };
        manager.submit_price(submission).unwrap();
    }

    let agg = manager.get_price(asset_id).unwrap();
    // Sorted: [1.9M x half, 2.1M x (q-half)], median at index q/2
    assert_eq!(agg.median_price, 2_100_000);
}

#[test]
fn test_oracle_outlier_detection() {
    let (mut manager, validators) = make_manager();
    let asset_id = 1u64;
    let block = 1000u64;
    let q = quorum_for(&validators);

    // All but one submit 2_000_000, last one submits 10_000_000 (500% deviation)
    for (i, (vid, _, signing_key)) in validators.iter().enumerate().take(q) {
        let timestamp = block * 1000;
        let price = if i == q - 1 { 10_000_000 } else { 2_000_000 };
        let sig = sign_oracle_submission(signing_key, *vid, asset_id, price, block, timestamp);
        let submission = OracleSubmission {
            validator_id: *vid,
            asset_id,
            price,
            block_number: block,
            timestamp,
            signature: sig,
        };
        manager.submit_price(submission).unwrap();
    }

    let agg = manager.get_price(asset_id).unwrap();
    assert_eq!(agg.outlier_count, 1);

    // The outlier validator should have 1 strike
    let outlier_vid = validators[q - 1].0;
    let info = manager.get_validator_info(outlier_vid).unwrap();
    assert_eq!(info.outlier_count, 1);
    assert!(info.is_active);
}

#[test]
fn test_oracle_outlier_disabled_after_10() {
    let (mut manager, validators) = make_manager();
    let asset_id = 1u64;
    let q = quorum_for(&validators);
    let outlier_vid = validators[q - 1].0;

    // Submit 10 rounds where the last validator is always the outlier
    for round in 0..10 {
        let block = (round + 1) as u64 * 1000;
        for (i, (vid, _, signing_key)) in validators.iter().enumerate().take(q) {
            let timestamp = block * 1000;
            let price = if i == q - 1 { 10_000_000 } else { 2_000_000 };
            let sig =
                sign_oracle_submission(signing_key, *vid, asset_id, price, block, timestamp);
            let submission = OracleSubmission {
                validator_id: *vid,
                asset_id,
                price,
                block_number: block,
                timestamp,
                signature: sig,
            };
            manager.submit_price(submission).unwrap();
        }
    }

    // After 10 strikes, the outlier validator should be disabled
    let info = manager.get_validator_info(outlier_vid).unwrap();
    assert!(!info.is_active);
    assert_eq!(info.outlier_count, 10);

    // Disabled validator cannot submit
    let block = 11_000u64;
    let timestamp = block * 1000;
    let (_, _, signing_key) = &validators[q - 1];
    let sig =
        sign_oracle_submission(signing_key, outlier_vid, asset_id, 2_000_000, block, timestamp);
    let submission = OracleSubmission {
        validator_id: outlier_vid,
        asset_id,
        price: 2_000_000,
        block_number: block,
        timestamp,
        signature: sig,
    };
    assert!(matches!(
        manager.submit_price(submission),
        Err(OracleError::ValidatorDisabled)
    ));
}

#[test]
fn test_oracle_price_staleness() {
    let (mut manager, validators) = make_manager();
    let asset_id = 1u64;
    let block = 1000u64;

    submit_price_for_asset(&mut manager, &validators, asset_id, block, 2_000_000);

    // Not stale immediately
    let ts = block * 1000;
    assert!(!manager.is_stale(asset_id, ts));

    // Stale after 901 seconds
    assert!(manager.is_stale(asset_id, ts + 901));

    // Unknown asset is stale
    assert!(manager.is_stale(999, ts));
}

#[test]
fn test_oracle_twap_calculation() {
    let (mut manager, validators) = make_manager();
    let asset_id = 1u64;
    let q = quorum_for(&validators);

    // Submit prices at different timestamps within a 24h window
    // Blocks must be multiples of ORACLE_UPDATE_INTERVAL (1000)
    let rounds = [
        (1_000_000u128, 1000u64, 1_000_000u64),
        (2_000_000u128, 2000u64, 1_003_600u64),   // +1h
        (3_000_000u128, 3000u64, 1_007_200u64),    // +2h
    ];

    for (price, block, timestamp) in rounds {
        for (vid, _, signing_key) in validators.iter().take(q) {
            let sig =
                sign_oracle_submission(signing_key, *vid, asset_id, price, block, timestamp);
            let submission = OracleSubmission {
                validator_id: *vid,
                asset_id,
                price,
                block_number: block,
                timestamp,
                signature: sig,
            };
            manager.submit_price(submission).unwrap();
        }
    }

    // TWAP at ts = 1_007_200 with window 86_400 covers all 3 entries
    let current_ts = 1_007_200u64;
    let twap = manager.get_twap(asset_id, current_ts).unwrap();
    assert_eq!(twap, 2_000_000); // (1M + 2M + 3M) / 3

    // Even at current_ts + 1800, window of 86_400 still covers all entries
    // cutoff = 1_009_000 - 86_400 = 922_600, all entries >= 1_000_000 qualify
    let twap = manager.get_twap(asset_id, current_ts + 1800).unwrap();
    assert_eq!(twap, 2_000_000);
}

#[test]
fn test_oracle_reward_pool() {
    let mut manager = OracleManager::new(OracleConfig::default());
    assert_eq!(manager.reward_pool, 0);

    manager.add_reward(500_000);
    assert_eq!(manager.reward_pool, 500_000);

    manager.add_reward(250_000);
    assert_eq!(manager.reward_pool, 750_000);
}

#[test]
fn test_oracle_contributor_tracking() {
    let (mut manager, validators) = make_manager();
    let asset_id = 1u64;
    let block = 1000u64;

    submit_all(&mut manager, &validators, asset_id, block, 2_000_000);

    // After successful aggregation, contributors should be recorded
    assert!(!manager.current_contributors.is_empty());
    // Outliers should be empty (no outliers in this submission)
    assert!(manager.last_outliers.is_empty());

    manager.clear_tracking();
    assert!(manager.current_contributors.is_empty());
    assert!(manager.last_outliers.is_empty());
}

fn quote(validator_id: u32, price: u128, block: u64) -> OracleSubmission {
    OracleSubmission {
        validator_id,
        asset_id: 1,
        price,
        block_number: block,
        timestamp: 50,
        signature: [0; 64],
    }
}

#[test]
fn submissions_are_refused_for_a_reason() {
    let (mut manager, validators) = make_manager();
    let unknown = manager.submit_price(quote(9, 5, 1000));
    assert!(matches!(unknown, Err(OracleError::ValidatorNotFound)));
    let late = manager.submit_signed(quote(0, 5, 1001), true);
    assert!(matches!(late, Err(OracleError::WrongPeriod)));
    let forged = manager.submit_price(quote(0, 5, 1000));
    assert!(matches!(forged, Err(OracleError::InvalidSignature)));
    let forged = manager.submit_signed(quote(0, 5, 1000), false);
    assert!(matches!(forged, Err(OracleError::InvalidSignature)));
    assert_eq!(manager.pending_count(1), 0);
    let signature = sign_oracle_submission(&validators[0].2, 0, 1, 5, 1000, 50);
    manager.submit_price(OracleSubmission { signature, ..quote(0, 5, 1000) }).unwrap();
    let twice = manager.submit_signed(quote(0, 6, 1000), true);
    assert!(matches!(twice, Err(OracleError::DuplicateSubmission)));
    assert_eq!(manager.pending_count(1), 1);
    let mut info = *manager.get_validator_info(1).unwrap();
    info.is_active = false;
    manager.validators.insert(1, info);
    let disabled = manager.submit_signed(quote(1, 5, 1000), true);
    assert!(matches!(disabled, Err(OracleError::ValidatorDisabled)));
}

#[test]
fn quorum_publishes_the_middle_price() {
    let (mut manager, _) = make_manager();
    for (id, price) in [(0, 102), (1, 100), (2, 300)] {
        manager.submit_signed(quote(id, price, 1000), true).unwrap();
    }
    assert!(manager.get_price(1).is_none());
    manager.submit_signed(quote(3, 101, 1000), true).unwrap();
    let price = *manager.get_price(1).unwrap();
    assert_eq!(price.median_price, 102);
    assert_eq!(price.submission_count, 4);
    assert_eq!(price.outlier_count, 1);
    assert_eq!(price.timestamp, 50);
    assert_eq!(manager.last_outliers(), [2]);
    assert_eq!(manager.current_contributors, vec![1, 3, 0]);
    assert_eq!(manager.get_validator_info(2).unwrap().outlier_count, 1);
    assert_eq!(manager.pending_count(1), 0);
    manager.clear_tracking();
    assert!(manager.last_outliers().is_empty());
}

#[test]
fn averages_lie_between_their_prices() {
    let mut manager = OracleManager::default();
    assert_eq!(manager.get_twap(1, 100), None);
    manager.simple_submit_price(1, 10, 100, 1);
    manager.simple_submit_price(1, 15, 200, 2);
    assert_eq!(manager.get_twap(1, 200), Some(12));
    assert_eq!(manager.get_twap(1, 86_400 + 150), Some(15));
    assert_eq!(manager.get_twap(1, 86_400 + 201), None);
    assert!(!manager.is_stale(1, 1100));
    assert!(manager.is_stale(1, 1101));
    assert!(manager.is_stale(2, 0));
}

#[test]
fn messages_are_told_apart() {
    let message = oracle_message_hash(1, 2, 3, 4, 5);
    assert_eq!(message.len(), 44);
    assert_eq!(message[..4], [1, 0, 0, 0]);
    assert_eq!(message[4..12], [2, 0, 0, 0, 0, 0, 0, 0]);
    assert_eq!(message[28..36], [4, 0, 0, 0, 0, 0, 0, 0]);
    assert_ne!(message, oracle_message_hash(1, 2, 3, 5, 4));
}

#[test]
fn settings_are_kept() {
    let mut manager = OracleManager::default();
    manager.set_tracked_assets(vec![3, 4]);
    manager.set_current_block(9);
    manager.add_reward(5);
    manager.add_reward(6);
    assert_eq!(manager.tracked_assets, vec![3, 4]);
    assert_eq!(manager.current_block, 9);
    assert_eq!(manager.reward_pool, 11);
}

#[test]
fn disabled_validators_do_not_count_towards_the_quorum() {
    let (mut manager, _) = make_manager();
    for id in [4, 5] {
        let mut info = *manager.get_validator_info(id).unwrap();
        info.is_active = false;
        manager.validators.insert(id, info);
    }
    for (id, price) in [(0, 100), (1, 101)] {
        manager.submit_signed(quote(id, price, 1000), true).unwrap();
    }
    assert!(manager.get_price(1).is_none());
    manager.submit_signed(quote(2, 102, 1000), true).unwrap();
    let price = *manager.get_price(1).unwrap();
    assert_eq!((price.median_price, price.submission_count), (101, 3));
}
