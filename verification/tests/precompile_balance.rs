use callchain::precompiles::balance::ProtocolBalanceState;
use callchain::precompiles::slots::balance_address;
use callchain::words::{zero_address, Address};

#[test]
fn test_balance_precompile_address() {
    assert_eq!(
        balance_address(),
        Address { hi: 0, lo: 0x102 }
    );
}

#[test]
fn test_protocol_balance_get() {
    let mut state = ProtocolBalanceState::new();
    let addr = Address::repeat_byte(0xAA);
    state.set_balance(1, addr, 5000);
    assert_eq!(state.get_balance(1, &addr), 5000);
    assert_eq!(state.get_balance(1, &zero_address()), 0);
}

#[test]
fn balances_are_kept_by_asset_and_account() {
    let mut state = ProtocolBalanceState::new();
    let a = Address::repeat_byte(1);
    state.set_balance(1, a, 5);
    state.set_balance(2, a, 6);
    state.set_balance(1, a, 7);
    assert_eq!((state.get_balance(1, &a), state.get_balance(2, &a)), (7, 6));
    assert_eq!(state.get_balance(1, &zero_address()), 0);
}
