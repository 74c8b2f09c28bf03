use callchain::crypto::keccak256;
use callchain::precompiles::runner::{
    all_precompiles, build_precompiles, is_custom, settle_custom, settle_standard, CallError,
    CallPrecompiles, CallStatus, Halt, StandardReply, CANCUN, LAST_FORK,
};
use callchain::precompiles::shielded::ProofRequest;
use callchain::precompiles::slots::{
    agent_address, asset_address, bridge_address, compliance_address, governance_address,
    oracle_address, shielded_address, switch_address, validator_address,
};
use callchain::precompiles::storage::{HashMapStorageProvider, PrecompileError, PrecompileOutput};
use callchain::words::{Address, U256};

fn pair(l: U256, r: U256) -> U256 {
    let mut data = l.to_be_bytes();
    data.extend_from_slice(&r.to_be_bytes());
    keccak256(&data)
}

fn accept(_: ProofRequest) -> Result<bool, String> {
    Ok(true)
}

#[test]
fn test_precompile_addresses() {
    let precompiles = all_precompiles();
    assert_eq!(precompiles.len(), 9);
    assert_eq!(precompiles[0], oracle_address());
    assert_eq!(precompiles[1], bridge_address());
    assert_eq!(precompiles[2], asset_address());
    assert_eq!(precompiles[3], shielded_address());
    assert_eq!(precompiles[4], governance_address());
    assert_eq!(precompiles[5], validator_address());
    assert_eq!(precompiles[6], compliance_address());
    assert_eq!(precompiles[7], switch_address());
    assert_eq!(precompiles[8], agent_address());
}

#[test]
fn test_build_precompiles_contains_custom() {
    let precompiles = build_precompiles(pair, accept);
    assert!(precompiles.contains(&Address { hi: 0, lo: 1 }));
    assert!(precompiles.contains(&oracle_address()));
    assert!(precompiles.contains(&bridge_address()));
    assert!(precompiles.contains(&asset_address()));
    assert!(precompiles.contains(&shielded_address()));
    assert!(precompiles.contains(&governance_address()));
    assert!(precompiles.contains(&validator_address()));
    assert!(precompiles.contains(&compliance_address()));
    assert!(precompiles.contains(&switch_address()));
    assert!(precompiles.contains(&agent_address()));
    assert_eq!(precompiles.len(), 19);
}

fn at(n: u128) -> Address {
    Address { hi: 0, lo: n }
}

#[test]
fn hard_forks_have_their_precompiles() {
    for spec in 0..=LAST_FORK {
        let all = CallPrecompiles::new(spec, pair, accept);
        let (last, check) = match spec {
            0..=5 => (4, false),
            6..=8 => (8, false),
            9..=16 => (9, false),
            17 => (10, false),
            18 => (17, false),
            _ => (17, true),
        };
        assert_eq!(all.len(), last as usize + check as usize + 9);
        assert!(!all.contains(&at(0)));
        assert!(all.contains(&at(1)) && all.contains(&at(last)));
        assert!(!all.contains(&at(last + 1)));
        assert_eq!(all.contains(&at(256)), check);
        assert!(all.contains(&asset_address()));
    }
}

#[test]
fn changing_the_hard_fork_is_noticed() {
    let mut all = build_precompiles(pair, accept);
    assert!(!all.set_spec(CANCUN));
    assert!(all.set_spec(0));
    assert_eq!(all.len(), 13);
}

#[test]
fn standard_precompiles_run() {
    let mut all = build_precompiles(pair, accept);
    let mut p = HashMapStorageProvider::new(1_000_000);
    let report = all.run(&mut p, at(2), b"abc", at(99), 1000).unwrap().unwrap();
    assert!(matches!(report.status, CallStatus::Return));
    assert_eq!(report.output[..4], [0xba, 0x78, 0x16, 0xbf]);
    assert_eq!(report.gas_remaining, 1000 - 60 - 12);
    let report = all.run(&mut p, at(4), b"abc", at(99), 1000).unwrap().unwrap();
    assert_eq!((report.output, report.gas_remaining), (b"abc".to_vec(), 1000 - 15 - 3));
    let report = all.run(&mut p, at(4), b"abc", at(99), 17).unwrap().unwrap();
    assert!(matches!(report.status, CallStatus::OutOfGas));
    assert_eq!(report.gas_remaining, 17);
    let report = all.run(&mut p, at(9), b"abc", at(99), 1000).unwrap().unwrap();
    assert!(matches!(report.status, CallStatus::Error));
    assert!(matches!(report.error, Some(CallError::Standard(_))));
    assert!(all.run(&mut p, at(99), b"abc", at(99), 1000).unwrap().is_none());
}

#[test]
fn protocol_precompiles_run() {
    let mut all = build_precompiles(pair, accept);
    for address in all_precompiles() {
        let mut p = HashMapStorageProvider::new(100_000);
        let report = all.run(&mut p, address, &[1, 2, 3, 4], at(99), 100_000).unwrap().unwrap();
        assert!(matches!(report.status, CallStatus::Error));
        let unknown = CallError::Custom(PrecompileError::Other("unknown selector"));
        assert_eq!(format!("{:?}", report.error), format!("{:?}", Some(unknown)));
        assert!(is_custom(address));
    }
    assert!(!is_custom(at(1)));
    let mut p = HashMapStorageProvider::new(100_000);
    let mut input = vec![0xd2, 0x14, 0x25, 0xdf];
    input.extend_from_slice(&[0; 64]);
    let report = all.run(&mut p, asset_address(), &input, at(99), 100_000).unwrap().unwrap();
    assert!(matches!(report.status, CallStatus::Return));
    assert_eq!(report.output, vec![0; 32]);
    assert_eq!(report.gas_remaining, 100_000 - 800 - 100);
}

#[test]
fn results_become_reports() {
    let done = |gas_used, reverted| PrecompileOutput {
        gas_used,
        gas_refunded: 5,
        bytes: vec![1],
        reverted,
    };
    let report = settle_custom(Ok(done(30, false)), 100).unwrap();
    assert!(matches!(report.status, CallStatus::Return));
    assert_eq!((report.gas_remaining, report.gas_refunded), (70, 5));
    let report = settle_custom(Ok(done(30, true)), 100).unwrap();
    assert!(matches!(report.status, CallStatus::Revert));
    assert!(matches!(settle_custom(Ok(done(101, false)), 100), Err(Halt::GasUnderflow)));
    let fatal = settle_custom(Err(PrecompileError::Fatal("bad")), 100);
    assert!(matches!(fatal, Err(Halt::Custom("bad"))));
    let report = settle_custom(Err(PrecompileError::OutOfGas), 100).unwrap();
    assert!(matches!(report.status, CallStatus::OutOfGas));
    assert!(report.error.is_none());
}

#[test]
fn standard_replies_become_reports() {
    let done = |gas_used, reverted| StandardReply::Done {
        gas_used,
        gas_refunded: 5,
        bytes: vec![1],
        reverted,
    };
    let report = settle_standard(done(30, true), 100).unwrap();
    assert!(matches!(report.status, CallStatus::Revert));
    assert_eq!((report.gas_remaining, report.gas_refunded, report.output), (70, 5, vec![1]));
    assert!(matches!(settle_standard(done(101, false), 100), Err(Halt::GasUnderflow)));
    let report = settle_standard(StandardReply::OutOfGas, 100).unwrap();
    assert!(matches!(report.status, CallStatus::OutOfGas));
    let report = settle_standard(StandardReply::Failed("no".into()), 100).unwrap();
    assert!(matches!(report.status, CallStatus::Error));
    assert!(matches!(report.error, Some(CallError::Standard(e)) if e == "no"));
    let fatal = settle_standard(StandardReply::Fatal("bad".into()), 100);
    assert!(matches!(fatal, Err(Halt::Standard(e)) if e == "bad"));
}
