use callchain::crypto::keccak256;
use callchain::precompiles::oracle::{advance_average, OraclePrecompile};
use callchain::precompiles::slots::{oracle_address, slot_validator_by_addr, validator_address};
use callchain::precompiles::storage::{
    HashMapStorageProvider, PrecompileError, PrecompileResult, StatefulPrecompile, StorageCtx,
};
use callchain::words::{u128_to_u256, u64_to_u256, zero_address, Address, U256};

#[test]
fn test_oracle_precompile_stateful_submit_and_get() {
    let mut provider = HashMapStorageProvider::new(1_000_000);

    // submitPrice
    {
        let mut precompile = OraclePrecompile;
        let caller = Address::repeat_byte(0xAB);

        // Seed caller as a validator
        StorageCtx::sstore(&mut provider,
            validator_address(),
            slot_validator_by_addr(caller),
            u64_to_u256(1),
        );

        // submitPrice(assetId=1, price=2_000_000, timestamp=1000, block=100)
        let mut input = vec![0u8; 132];
        input[0..4].copy_from_slice(&[0x7a, 0xe9, 0x19, 0xf7]);
        input[28..36].copy_from_slice(&1u64.to_be_bytes());
        input[52..68].copy_from_slice(&2_000_000u128.to_be_bytes());
        input[92..100].copy_from_slice(&1000u64.to_be_bytes());
        input[124..132].copy_from_slice(&100u64.to_be_bytes());

        let result = precompile.call(&mut provider, &input, caller);
        assert!(result.is_ok(), "submitPrice failed: {:?}", result.err());
    }

    // Verify event emitted
    let logs = provider.events(oracle_address());
    assert_eq!(logs.len(), 1);
    assert_eq!(
        logs[0].topics[0],
        keccak256(b"PriceSubmitted(uint64,uint128,uint64,uint64)")
    );

    // getPrice
    {
        let mut precompile = OraclePrecompile;

        let mut input = vec![0u8; 36];
        input[0..4].copy_from_slice(&[0x76, 0x3e, 0x4d, 0x8c]);
        input[28..36].copy_from_slice(&1u64.to_be_bytes());

        let result = precompile.call(&mut provider, &input, zero_address());
        assert!(result.is_ok(), "getPrice failed: {:?}", result.err());
        let price = u128::from_be_bytes({
            let mut buf = [0u8; 16];
            buf.copy_from_slice(&result.unwrap().bytes[16..32]);
            buf
        });
        assert_eq!(price, 2_000_000);
    }
}

#[test]
fn test_oracle_precompile_stateful_twap_and_stale() {
    let mut provider = HashMapStorageProvider::new(1_000_000);

    // Seed validator and submit two prices
    {
        let mut precompile = OraclePrecompile;
        let caller = Address::repeat_byte(0xAB);

        StorageCtx::sstore(&mut provider,
            validator_address(),
            slot_validator_by_addr(caller),
            u64_to_u256(1),
        );

        for (price, ts) in [(1_000_000u128, 900u64), (2_000_000, 1000)] {
            let mut input = vec![0u8; 132];
            input[0..4].copy_from_slice(&[0x7a, 0xe9, 0x19, 0xf7]);
            input[28..36].copy_from_slice(&1u64.to_be_bytes());
            input[52..68].copy_from_slice(&price.to_be_bytes());
            input[92..100].copy_from_slice(&ts.to_be_bytes());
            input[124..132].copy_from_slice(&100u64.to_be_bytes());
            precompile.call(&mut provider, &input, caller).unwrap();
        }
    }

    // getTWAP
    {
        let mut precompile = OraclePrecompile;

        let mut input = vec![0u8; 68];
        input[0..4].copy_from_slice(&[0xab, 0xcd, 0xef, 0x01]);
        input[28..36].copy_from_slice(&1u64.to_be_bytes());
        input[60..68].copy_from_slice(&1100u64.to_be_bytes());

        let result = precompile.call(&mut provider, &input, zero_address()).unwrap();
        let twap = u128::from_be_bytes({
            let mut buf = [0u8; 16];
            buf.copy_from_slice(&result.bytes[16..32]);
            buf
        });
        // Cumulative average: (1_000_000 + 2_000_000) / 2 = 1_500_000
        assert_eq!(twap, 1_500_000);
    }

    // isStale with chain timestamp = 2000 (not stale, threshold = 3600)
    provider.set_timestamp(u64_to_u256(2000));
    {
        let mut precompile = OraclePrecompile;

        let mut input = vec![0u8; 36];
        input[0..4].copy_from_slice(&[0x12, 0x34, 0x56, 0x78]);
        input[28..36].copy_from_slice(&1u64.to_be_bytes());

        let result = precompile.call(&mut provider, &input, zero_address()).unwrap();
        assert_eq!(result.bytes[31], 0);
    }

    // isStale with chain timestamp = 5000 (stale, 5000 - 1000 = 4000 > 3600)
    provider.set_timestamp(u64_to_u256(5000));
    {
        let mut precompile = OraclePrecompile;

        let mut input = vec![0u8; 36];
        input[0..4].copy_from_slice(&[0x12, 0x34, 0x56, 0x78]);
        input[28..36].copy_from_slice(&1u64.to_be_bytes());

        let result = precompile.call(&mut provider, &input, zero_address()).unwrap();
        assert_eq!(result.bytes[31], 1);
    }
}

#[test]
fn test_oracle_precompile_decode_failure_reverts() {
    let mut provider = HashMapStorageProvider::new(1_000_000);

    {
        let mut precompile = OraclePrecompile;

        // getPrice with truncated input (no assetId word)
        let input = vec![0x76, 0x3e, 0x4d, 0x8c];
        let result = precompile.call(&mut provider, &input, zero_address());
        assert!(result.is_err(), "expected revert for truncated getPrice input");

        // isStale with truncated input
        let input = vec![0x12, 0x34, 0x56, 0x78];
        let result = precompile.call(&mut provider, &input, zero_address());
        assert!(result.is_err(), "expected revert for truncated isStale input");
    }
}

/// Calldata: a selector, which methods do not read, and words.
fn args(words: &[U256]) -> Vec<u8> {
    let mut out = vec![0; 4];
    for w in words {
        w.push_to(&mut out);
    }
    out
}

fn why(r: PrecompileResult) -> &'static str {
    match r {
        Err(PrecompileError::Other(s)) => s,
        Err(PrecompileError::Fatal(s)) => s,
        Err(PrecompileError::OutOfGas) => "out of gas",
        Err(_) => "other",
        Ok(_) => "done",
    }
}

fn submit(p: &mut HashMapStorageProvider, price: u128, time: u64, sender: Address) -> &'static str {
    let input = args(&[u64_to_u256(5), u128_to_u256(price), u64_to_u256(time), u64_to_u256(9)]);
    why(OraclePrecompile.submit_price(p, &input, sender))
}

#[test]
fn submitted_price_is_read() {
    let mut p = HashMapStorageProvider::new(100_000_000);
    let sender = Address::repeat_byte(1);
    let asset = args(&[u64_to_u256(5)]);
    let refused = "oracle submit: caller is not a validator";
    assert_eq!(submit(&mut p, 10, 100, sender), refused);
    p.set(validator_address(), slot_validator_by_addr(sender), u64_to_u256(1));
    assert_eq!(submit(&mut p, 10, 100, sender), "done");
    assert_eq!(submit(&mut p, 15, 200, sender), "done");
    assert_eq!(submit(&mut p, 20, 300, sender), "done");
    let price = OraclePrecompile.get_price(&mut p, &asset).unwrap().bytes;
    assert_eq!(price, u64_to_u256(20).to_be_bytes());
    let average = OraclePrecompile.get_twap(&mut p, &asset).unwrap().bytes;
    assert_eq!(average, u64_to_u256(14).to_be_bytes());
    assert_eq!(p.events(oracle_address()).len(), 3);
    assert_eq!(submit(&mut p, u128::MAX, 300, sender), "average overflow");
}

#[test]
fn prices_grow_stale() {
    let mut p = HashMapStorageProvider::new(100_000_000);
    let sender = Address::repeat_byte(1);
    let asset = args(&[u64_to_u256(5)]);
    p.set(validator_address(), slot_validator_by_addr(sender), u64_to_u256(1));
    submit(&mut p, 10, 100, sender);
    p.set_timestamp(u64_to_u256(3700));
    let stale = OraclePrecompile.is_stale(&mut p, &asset).unwrap().bytes;
    assert_eq!(stale, vec![0; 32]);
    p.set_timestamp(u64_to_u256(3701));
    let stale = OraclePrecompile.is_stale(&mut p, &asset).unwrap().bytes;
    assert_eq!(stale, u64_to_u256(1).to_be_bytes());
    p.set_timestamp(U256 { hi: 0, lo: 1 << 64 });
    assert_eq!(why(OraclePrecompile.is_stale(&mut p, &asset)), "timestamp overflow");
    assert_eq!(why(OraclePrecompile.get_price(&mut p, &asset[..35])), "invalid assetId");
}

#[test]
fn running_average_lies_between() {
    assert_eq!(advance_average(0, 0, 7), Some(7));
    assert_eq!(advance_average(10, 1, 15), Some(12));
    assert_eq!(advance_average(12, 2, 20), Some(14));
    assert_eq!(advance_average(u128::MAX, 2, 0), None);
}
