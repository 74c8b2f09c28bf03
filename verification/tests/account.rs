use callchain::protocol::account::{AccountBalances, AccountNonces, AccountState, Allowances};
use callchain::protocol::errors::ProtocolError;
use callchain::words::Address;

fn test_addr(n: u8) -> Address {
    Address::repeat_byte(n)
}

#[test]
fn account_test_transfer_sufficient_balance() {
    let mut state = AccountState::new();
    state
        .balances
        .set_balance(1, test_addr(1), 1000)
        .unwrap();
    state.transfer(1, test_addr(1), test_addr(2), 500).unwrap();
    assert_eq!(state.get_balance(1, &test_addr(1)), 500);
    assert_eq!(state.get_balance(1, &test_addr(2)), 500);
}

#[test]
fn account_test_transfer_insufficient_balance() {
    let mut state = AccountState::new();
    state
        .balances
        .set_balance(1, test_addr(1), 100)
        .unwrap();
    assert!(state.transfer(1, test_addr(1), test_addr(2), 200).is_err());
}

#[test]
fn account_test_mint_by_non_issuer() {
    let mut state = AccountState::new();
    let non_issuer = test_addr(99);
    state
        .mint(1, &non_issuer, test_addr(1), 500)
        .unwrap();
    assert_eq!(state.get_balance(1, &test_addr(1)), 500);
}

#[test]
fn account_test_burn_by_non_issuer() {
    let mut state = AccountState::new();
    state
        .balances
        .set_balance(1, test_addr(1), 500)
        .unwrap();
    state.burn(1, test_addr(1), 200).unwrap();
    assert_eq!(state.get_balance(1, &test_addr(1)), 300);
}

#[test]
fn account_test_allowance_set_and_spend() {
    let mut allowances = Allowances::new();
    let owner = test_addr(1);
    let spender = test_addr(2);
    allowances.set_allowance(1, owner, spender, 100);
    assert_eq!(allowances.get_allowance(1, &owner, &spender), 100);
    allowances
        .spend_allowance(1, owner, spender, 60)
        .unwrap();
    assert_eq!(allowances.get_allowance(1, &owner, &spender), 40);
}

#[test]
fn account_test_allowance_insufficient() {
    let mut allowances = Allowances::new();
    allowances.set_allowance(1, test_addr(1), test_addr(2), 50);
    assert!(allowances
        .spend_allowance(1, test_addr(1), test_addr(2), 100)
        .is_err());
}

#[test]
fn account_test_balance_overflow_protection() {
    let mut state = AccountState::new();
    state
        .balances
        .set_balance(1, test_addr(1), u128::MAX - 100)
        .unwrap();
    assert!(state
        .balances
        .credit_balance(1, test_addr(1), 200)
        .is_err());
}

#[test]
fn test_nonce_initial_value() {
    let nonces = AccountNonces::new();
    assert_eq!(nonces.get_nonce(&test_addr(1)), 0);
}

#[test]
fn test_nonce_increment() {
    let mut nonces = AccountNonces::new();
    assert_eq!(nonces.increment_nonce(test_addr(1)), 1);
    assert_eq!(nonces.get_nonce(&test_addr(1)), 1);
    assert_eq!(nonces.increment_nonce(test_addr(1)), 2);
    assert_eq!(nonces.get_nonce(&test_addr(1)), 2);
}

#[test]
fn test_nonce_validate_correct() {
    let nonces = AccountNonces::new();
    assert!(nonces.validate_nonce(&test_addr(1), 0).is_ok());
    let mut nonces = AccountNonces::new();
    nonces.increment_nonce(test_addr(1));
    assert!(nonces.validate_nonce(&test_addr(1), 1).is_ok());
}

#[test]
fn test_nonce_validate_wrong() {
    let nonces = AccountNonces::new();
    assert!(nonces.validate_nonce(&test_addr(1), 1).is_err());
    assert!(nonces.validate_nonce(&test_addr(1), 5).is_err());
}

#[test]
fn test_nonce_independent_per_address() {
    let mut nonces = AccountNonces::new();
    nonces.increment_nonce(test_addr(1));
    nonces.increment_nonce(test_addr(2));
    nonces.increment_nonce(test_addr(2));
    assert_eq!(nonces.get_nonce(&test_addr(1)), 1);
    assert_eq!(nonces.get_nonce(&test_addr(2)), 2);
}

#[test]
fn test_account_state_nonce_methods() {
    let mut state = AccountState::new();
    assert_eq!(state.get_nonce(&test_addr(1)), 0);
    state.increment_nonce(test_addr(1));
    assert_eq!(state.get_nonce(&test_addr(1)), 1);
    assert!(state.validate_nonce(&test_addr(1), 1).is_ok());
    assert!(state.validate_nonce(&test_addr(1), 0).is_err());
}

#[test]
fn transfer_keeps_the_total_and_touches_no_one_else() {
    let mut state = AccountState::new();
    state.credit_balance(1, test_addr(1), 70).unwrap();
    state.credit_balance(1, test_addr(2), 5).unwrap();
    state.credit_balance(2, test_addr(1), 9).unwrap();
    state.credit_balance(1, test_addr(3), 4).unwrap();
    state.transfer(1, test_addr(1), test_addr(2), 30).unwrap();
    assert_eq!(state.get_balance(1, &test_addr(1)), 40);
    assert_eq!(state.get_balance(1, &test_addr(2)), 35);
    assert_eq!(state.get_balance(2, &test_addr(1)), 9);
    assert_eq!(state.get_balance(1, &test_addr(3)), 4);
    assert_eq!(state.balances.iter().len(), 4);
    assert_eq!(state.balances.balances_map().len(), 4);
}

#[test]
fn refused_transfer_changes_nothing() {
    let mut state = AccountState::new();
    state.credit_balance(1, test_addr(1), 10).unwrap();
    state.balances.set_balance(1, test_addr(2), u128::MAX).unwrap();
    let short = state.transfer(1, test_addr(1), test_addr(3), 11);
    assert!(matches!(short, Err(ProtocolError::InsufficientBalance)));
    let over = state.transfer(1, test_addr(1), test_addr(2), 1);
    assert!(matches!(over, Err(ProtocolError::BalanceError("overflow"))));
    assert_eq!(state.get_balance(1, &test_addr(1)), 10);
    assert_eq!(state.get_balance(1, &test_addr(2)), u128::MAX);
    assert_eq!(state.get_balance(1, &test_addr(3)), 0);
}

#[test]
fn debit_undoes_credit() {
    let mut state = AccountState::new();
    state.credit_balance(1, test_addr(1), 10).unwrap();
    state.credit_balance(1, test_addr(1), 32).unwrap();
    state.deduct_balance(1, test_addr(1), 32).unwrap();
    assert_eq!(state.get_balance(1, &test_addr(1)), 10);
    let short = state.burn(1, test_addr(1), 11);
    assert!(matches!(short, Err(ProtocolError::InsufficientBalance)));
}

#[test]
fn allowance_falls_by_what_is_spent() {
    let mut allowances = Allowances::new();
    allowances.set_allowance(1, test_addr(1), test_addr(2), 100);
    allowances.spend_allowance(1, test_addr(1), test_addr(2), 60).unwrap();
    assert_eq!(allowances.get_allowance(1, &test_addr(1), &test_addr(2)), 40);
    let over = allowances.spend_allowance(1, test_addr(1), test_addr(2), 41);
    assert!(matches!(over, Err(ProtocolError::BalanceError("insufficient allowance"))));
    assert_eq!(allowances.get_allowance(1, &test_addr(1), &test_addr(2)), 40);
    assert_eq!(allowances.duplicate().allowances_map().len(), 1);
}

#[test]
fn used_nonce_is_refused() {
    let mut nonces = AccountNonces::new();
    nonces.set_nonce(test_addr(1), 7);
    nonces.validate_nonce(&test_addr(1), 7).unwrap();
    assert_eq!(nonces.increment_nonce(test_addr(1)), 8);
    let again = nonces.validate_nonce(&test_addr(1), 7);
    assert!(matches!(again, Err(ProtocolError::NonceError { expected: 8, got: 7 })));
    nonces.set_nonce(test_addr(1), u64::MAX);
    assert_eq!(nonces.increment_nonce(test_addr(1)), u64::MAX);
}

#[test]
fn copy_of_an_account_state_is_independent() {
    let mut state = AccountState::new();
    state.credit_balance(1, test_addr(1), 10).unwrap();
    state.increment_nonce(test_addr(1));
    let copy = state.duplicate();
    state.credit_balance(1, test_addr(1), 1).unwrap();
    assert_eq!(copy.get_balance(1, &test_addr(1)), 10);
    assert_eq!(copy.get_nonce(&test_addr(1)), 1);
    assert_eq!(state.get_balance(1, &test_addr(1)), 11);
}

#[test]
fn paying_oneself_keeps_the_balance() {
    let mut balances = AccountBalances::new();
    balances.set_balance(1, test_addr(1), 1000).unwrap();
    balances.transfer_balance(1, test_addr(1), test_addr(1), 500).unwrap();
    assert_eq!(balances.get_balance(1, &test_addr(1)), 1000);
    let short = balances.transfer_balance(1, test_addr(1), test_addr(1), 1001);
    assert!(matches!(short, Err(ProtocolError::InsufficientBalance)));
    let mut state = AccountState::new();
    state.credit_balance(1, test_addr(1), 9).unwrap();
    state.transfer(1, test_addr(1), test_addr(1), 9).unwrap();
    assert_eq!(state.get_balance(1, &test_addr(1)), 9);
}
