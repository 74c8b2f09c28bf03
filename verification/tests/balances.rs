use callchain::protocol::balances::{Allowances, BalanceState};
use callchain::protocol::errors::ProtocolError;
use callchain::words::Address;

fn test_addr(n: u8) -> Address {
    Address::repeat_byte(n)
}

#[test]
fn balances_test_transfer_sufficient_balance() {
    let mut state = BalanceState::new();
    state
        .balances
        .set_balance(1, test_addr(1), 1000)
        .unwrap();
    state.transfer(1, test_addr(1), test_addr(2), 500).unwrap();
    assert_eq!(state.get_balance(1, &test_addr(1)), 500);
    assert_eq!(state.get_balance(1, &test_addr(2)), 500);
}

#[test]
fn balances_test_transfer_insufficient_balance() {
    let mut state = BalanceState::new();
    state
        .balances
        .set_balance(1, test_addr(1), 100)
        .unwrap();
    assert!(state.transfer(1, test_addr(1), test_addr(2), 200).is_err());
}

#[test]
fn balances_test_mint_by_non_issuer() {
    // Mint is authorized at instruction level; balance layer allows any caller
    let mut state = BalanceState::new();
    let non_issuer = test_addr(99);
    state
        .mint(1, &non_issuer, test_addr(1), 500)
        .unwrap();
    assert_eq!(state.get_balance(1, &test_addr(1)), 500);
}

#[test]
fn balances_test_burn_by_non_issuer() {
    let mut state = BalanceState::new();
    state
        .balances
        .set_balance(1, test_addr(1), 500)
        .unwrap();
    state.burn(1, test_addr(1), 200).unwrap();
    assert_eq!(state.get_balance(1, &test_addr(1)), 300);
}

#[test]
fn balances_test_allowance_set_and_spend() {
    let mut allowances = Allowances::new();
    let owner = test_addr(1);
    let spender = test_addr(2);
    allowances.set_allowance(1, owner, spender, 100);
    assert_eq!(allowances.get_allowance(1, &owner, &spender), 100);
    allowances
        .spend_allowance(1, owner, spender, 60)
        .unwrap();
    assert_eq!(allowances.get_allowance(1, &owner, &spender), 40);
}

#[test]
fn balances_test_allowance_insufficient() {
    let mut allowances = Allowances::new();
    allowances.set_allowance(1, test_addr(1), test_addr(2), 50);
    assert!(allowances
        .spend_allowance(1, test_addr(1), test_addr(2), 100)
        .is_err());
}

#[test]
fn balances_test_balance_overflow_protection() {
    let mut state = BalanceState::new();
    state
        .balances
        .set_balance(1, test_addr(1), u128::MAX - 100)
        .unwrap();
    assert!(state
        .balances
        .credit_balance(1, test_addr(1), 200)
        .is_err());
}

#[test]
fn transfer_between_accounts_keeps_their_total() {
    let mut state = BalanceState::new();
    state.credit_balance(1, test_addr(1), 70).unwrap();
    state.credit_balance(1, test_addr(2), 5).unwrap();
    state.transfer(1, test_addr(1), test_addr(2), 30).unwrap();
    assert_eq!(state.get_balance(1, &test_addr(1)), 40);
    assert_eq!(state.get_balance(1, &test_addr(2)), 35);
    assert_eq!(state.balances.iter().len(), 2);
    let short = state.deduct_balance(1, test_addr(1), 41);
    assert!(matches!(short, Err(ProtocolError::InsufficientBalance)));
    assert_eq!(state.get_balance(1, &test_addr(1)), 40);
}

#[test]
fn transfer_to_oneself_keeps_the_balance() {
    let mut state = BalanceState::new();
    state.balances.set_balance(1, test_addr(1), 70).unwrap();
    state.transfer(1, test_addr(1), test_addr(1), 30).unwrap();
    assert_eq!(state.get_balance(1, &test_addr(1)), 70);
    let short = state.transfer(1, test_addr(1), test_addr(1), 71);
    assert!(matches!(short, Err(ProtocolError::InsufficientBalance)));
    state.balances.set_balance(1, test_addr(1), u128::MAX).unwrap();
    state.transfer(1, test_addr(1), test_addr(1), u128::MAX).unwrap();
    assert_eq!(state.get_balance(1, &test_addr(1)), u128::MAX);
}
