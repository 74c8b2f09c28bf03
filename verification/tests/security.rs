use callchain::primitives::TxHash;
use callchain::protocol::security::{
    MempoolDefense, P2PDefense, RateLimiter, ReplayProtector, SecurityError,
};
use callchain::words::Address;

#[test]
fn test_mempool_tx_flood_protection() {
    let mut defense = MempoolDefense::new(5, 1000, 10000, 100);

    // First 5 txs should pass within window
    for i in 0..5 {
        let result = defense.validate_tx_submission(
            Address::repeat_byte(1),
            TxHash::repeat_byte(i as u8),
            1000,
        );
        assert!(result.is_ok());
    }

    // 6th tx should be rate limited
    let result =
        defense.validate_tx_submission(Address::repeat_byte(1), TxHash::repeat_byte(5), 1000);
    assert!(matches!(result, Err(SecurityError::RateLimited)));

    // New window: tx should pass again
    let result =
        defense.validate_tx_submission(Address::repeat_byte(1), TxHash::repeat_byte(6), 2001);
    assert!(result.is_ok());
}

#[test]
fn test_mempool_address_saturation_protection() {
    let mut defense = MempoolDefense::new(1000, 1000, 10000, 5);

    // 5 txs from same address should pass
    for i in 0..5 {
        let result = defense.validate_tx_submission(
            Address::repeat_byte(1),
            TxHash::repeat_byte(i as u8),
            1000 + i as u64,
        );
        assert!(result.is_ok());
    }

    // 6th should hit saturation
    let result =
        defense.validate_tx_submission(Address::repeat_byte(1), TxHash::repeat_byte(5), 1006);
    assert!(matches!(result, Err(SecurityError::AddressSaturation)));

    // Different address should still work
    let result =
        defense.validate_tx_submission(Address::repeat_byte(2), TxHash::repeat_byte(6), 1007);
    assert!(result.is_ok());
}

#[test]
fn test_mempool_replay_protection() {
    let mut defense = MempoolDefense::new(1000, 1000, 10000, 1000);

    let hash = TxHash::repeat_byte(42);

    // First submission should pass
    let result = defense.validate_tx_submission(Address::repeat_byte(1), hash, 1000);
    assert!(result.is_ok());

    // Replay should be detected
    let result = defense.validate_tx_submission(Address::repeat_byte(1), hash, 1001);
    assert!(matches!(result, Err(SecurityError::ReplayDetected)));
}

#[test]
fn test_replay_protector_evicts_25_percent_when_over_capacity() {
    let max_seen = 100;
    let mut protector = ReplayProtector::new(max_seen);

    // Fill exactly to max_seen
    for i in 0..max_seen {
        let hash = TxHash::repeat_byte(i as u8);
        assert!(
            protector.check_and_record(hash),
            "first insert #{i} should succeed"
        );
    }
    assert_eq!(protector.seen_hashes.len(), max_seen);

    // Insert one more — should trigger eviction of ~25% (max_seen / 4 = 25)
    let overflow_hash = TxHash::repeat_byte(255);
    assert!(
        protector.check_and_record(overflow_hash),
        "overflow insert should succeed"
    );

    let expected_remaining = max_seen + 1 - (max_seen / 4);
    assert_eq!(
        protector.seen_hashes.len(),
        expected_remaining,
        "expected ~75% of max_seen + 1 to remain after eviction"
    );
}

#[test]
fn test_replay_protector_evicted_hash_can_be_re_inserted() {
    let max_seen = 8;
    let mut protector = ReplayProtector::new(max_seen);

    // Fill to capacity with unique hashes
    for i in 0..max_seen {
        protector.check_and_record(TxHash::repeat_byte(i as u8));
    }

    // Trigger eviction (removes max_seen / 4 = 2 arbitrary hashes)
    let new_hash = TxHash::repeat_byte(255);
    assert!(protector.check_and_record(new_hash));

    // After eviction, total should be max_seen + 1 - 2 = 7
    assert_eq!(protector.seen_hashes.len(), 7);

    // The new hash must still be present (it was just inserted)
    assert!(
        !protector.check_and_record(new_hash),
        "new hash should still be a replay"
    );

    // At least one of the original 8 hashes should have been evicted
    // (since we only have room for 7 and the new hash is one of them)
    let mut evicted_count = 0;
    for i in 0..max_seen {
        if protector.check_and_record(TxHash::repeat_byte(i as u8)) {
            evicted_count += 1;
        }
    }
    assert!(
        evicted_count >= 2,
        "expected at least 2 evicted hashes, got {}",
        evicted_count
    );

    // Some original hashes should still be present (not all evicted)
    let remaining_original = max_seen - evicted_count;
    assert!(
        remaining_original >= 1,
        "expected at least 1 original hash to survive eviction"
    );
}

#[test]
fn test_replay_protector_stays_bounded_under_pressure() {
    let max_seen = 50;
    let mut protector = ReplayProtector::new(max_seen);

    // Simulate sustained pressure: insert 10x capacity
    for i in 0..(max_seen * 10) {
        let hash = TxHash::repeat_byte((i % 256) as u8);
        protector.check_and_record(hash);
        assert!(
            protector.seen_hashes.len() <= max_seen + 1,
            "set should never exceed max_seen + 1, got {} at i={}",
            protector.seen_hashes.len(),
            i
        );
    }
}

#[test]
fn test_replay_protector_remove_hash_manually() {
    let mut protector = ReplayProtector::new(100);
    let hash = TxHash::repeat_byte(42);

    assert!(protector.check_and_record(hash));
    assert!(!protector.check_and_record(hash)); // replay

    protector.remove_hash(&hash);
    assert!(protector.check_and_record(hash)); // now accepted again
}

#[test]
fn test_p2p_rate_limiting() {
    let mut p2p = P2PDefense::new(3, 1000, 1024 * 1024);

    // First 3 messages should pass
    for i in 0..3 {
        assert!(p2p
            .validate_message("peer1".to_string(), 100, 1000 + i * 10)
            .is_ok());
    }

    // 4th should be rate limited
    let err = p2p
        .validate_message("peer1".to_string(), 100, 1030)
        .unwrap_err();
    assert!(matches!(err, SecurityError::PeerRateLimited));

    // Different peer should work
    assert!(p2p.validate_message("peer2".to_string(), 100, 1030).is_ok());

    // New window for peer1
    assert!(p2p.validate_message("peer1".to_string(), 100, 2001).is_ok());

    // Large message should be rejected
    let err = p2p
        .validate_message("peer3".to_string(), 2 * 1024 * 1024, 2002)
        .unwrap_err();
    assert!(matches!(err, SecurityError::MessageTooLarge { .. }));
}

#[test]
fn rate_limiter_counts_within_its_window() {
    let mut limiter = RateLimiter::new(2, 100);
    assert!(limiter.allow(Address::repeat_byte(1), 1000));
    assert!(limiter.allow(Address::repeat_byte(1), 1099));
    assert!(!limiter.allow(Address::repeat_byte(1), 1099));
    assert!(limiter.allow(Address::repeat_byte(2), 1099));
    assert!(limiter.allow(Address::repeat_byte(1), 1100));
}

#[test]
fn rate_limiter_forgets_old_windows() {
    let mut limiter = RateLimiter::new(2, 100);
    limiter.allow(Address::repeat_byte(1), 1000);
    limiter.allow(Address::repeat_byte(2), 1080);
    limiter.cleanup(1150);
    assert!(!limiter.counters.contains_key(Address::repeat_byte(1)));
    assert!(limiter.counters.contains_key(Address::repeat_byte(2)));
}

#[test]
fn removed_hash_counts_as_new() {
    let mut protector = ReplayProtector::new(8);
    assert!(protector.check_and_record(TxHash::repeat_byte(1)));
    assert!(!protector.check_and_record(TxHash::repeat_byte(1)));
    protector.remove_hash(&TxHash::repeat_byte(1));
    assert_eq!(protector.seen_count(), 0);
    assert!(protector.check_and_record(TxHash::repeat_byte(1)));
}

#[test]
fn rollback_allows_the_same_submission_again() {
    let mut defense = MempoolDefense::new(10, 1000, 100, 10);
    let (sender, hash) = (Address::repeat_byte(1), TxHash::repeat_byte(7));
    defense.validate_tx_submission(sender, hash, 5).unwrap();
    let again = defense.validate_tx_submission(sender, hash, 6);
    assert!(matches!(again, Err(SecurityError::ReplayDetected)));
    defense.rollback_submission(sender, hash);
    defense.validate_tx_submission(sender, hash, 7).unwrap();
}

#[test]
fn confirmed_transactions_make_room() {
    let mut defense = MempoolDefense::new(10, 1000, 100, 1);
    let sender = Address::repeat_byte(1);
    defense.validate_tx_submission(sender, TxHash::repeat_byte(1), 5).unwrap();
    let full = defense.validate_tx_submission(sender, TxHash::repeat_byte(2), 5);
    assert!(matches!(full, Err(SecurityError::AddressSaturation)));
    defense.on_tx_confirmed(sender);
    defense.validate_tx_submission(sender, TxHash::repeat_byte(3), 5).unwrap();
    defense.cleanup(5000);
    assert!(defense.rate_limiter.counters.is_empty());
}

#[test]
fn peers_are_limited_in_size_and_number() {
    let mut defense = P2PDefense::new(1, 100, 10);
    let large = defense.validate_message("a".into(), 11, 5);
    assert!(matches!(large, Err(SecurityError::MessageTooLarge { size: 11, max: 10 })));
    defense.validate_message("a".into(), 10, 5).unwrap();
    let many = defense.validate_message("a".into(), 1, 6);
    assert!(matches!(many, Err(SecurityError::PeerRateLimited)));
    defense.validate_message("b".into(), 1, 6).unwrap();
    defense.cleanup(500);
    defense.validate_message("a".into(), 1, 501).unwrap();
}

#[test]
fn first_messages_of_a_peer_are_admitted() {
    let mut defense = P2PDefense::new(2, 100, 10);
    let mut answers = Vec::new();
    for (peer, at) in [("a", 50), ("b", 60), ("a", 149), ("b", 61), ("a", 50), ("a", 100)] {
        answers.push((peer, defense.validate_message(peer.into(), 1, at).is_ok()));
    }
    assert_eq!(
        answers,
        [("a", true), ("b", true), ("a", true), ("b", true), ("a", false), ("a", false)]
    );
    let many = defense.validate_message("a".into(), 1, 149);
    assert!(matches!(many, Err(SecurityError::PeerRateLimited)));
}
