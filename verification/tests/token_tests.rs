use nova_fund::base_token::{BaseToken, TokenEvent, TokenFault};
use nova_fund::types::Address;

const ADMIN: Address = 10;
const TREASURY: Address = 20;
const USER1: Address = 31;
const USER2: Address = 32;

fn token_with_fee(bps: u32) -> BaseToken {
    let mut t = BaseToken::new();
    t.initialize(ADMIN, 7, String::from("Nova Token"), String::from("NOVA"), TREASURY, bps);
    t
}

#[test]
fn test_transfer_with_fees() {
    // 500 bps (5%) fee.
    let mut t = token_with_fee(500);
    t.mint(USER1, 1000);
    assert_eq!(t.balance(USER1), 1000);

    // Transfer 100: 5 to the treasury, 95 to user2.
    t.transfer(USER1, USER2, 100);
    assert_eq!(t.balance(USER1), 900);
    assert_eq!(t.balance(TREASURY), 5);
    assert_eq!(t.balance(USER2), 95);
}

#[test]
fn test_transfer_dust() {
    // 10 bps (0.1%).
    let mut t = token_with_fee(10);
    t.mint(USER1, 100);

    // 2 * 10 / 10000 = 0, but the minimum fee of 1 applies.
    t.transfer(USER1, USER2, 2);
    assert_eq!(t.balance(USER1), 98);
    assert_eq!(t.balance(TREASURY), 1);
    assert_eq!(t.balance(USER2), 1);
}

#[test]
fn test_transfer_insufficient_balance() {
    let mut t = token_with_fee(100);
    t.mint(USER1, 50);
    assert_eq!(t.transfer_fault(USER1, USER2, 100), Some(TokenFault::InsufficientBalance));
    assert_eq!(t.balance(USER1), 50);
    assert_eq!(t.balance(USER2), 0);
}

#[test]
fn test_token_metadata() {
    let t = token_with_fee(0);
    assert_eq!(t.decimals(), 7);
    assert_eq!(t.name(), "Nova Token");
    assert_eq!(t.symbol(), "NOVA");
    let fresh = BaseToken::new();
    assert!(!fresh.is_initialized());
}

#[test]
fn test_initialize_twice_and_fee_limit() {
    let mut t = token_with_fee(0);
    assert_eq!(t.initialize_fault(0), Some(TokenFault::AlreadyInitialized));
    let fresh = BaseToken::new();
    assert_eq!(fresh.initialize_fault(10001), Some(TokenFault::FeeTooHigh));
    assert_eq!(fresh.initialize_fault(10000), None);
    assert!(!fresh.is_initialized());
    assert_eq!(t.set_fee_config_fault(TREASURY, 10001), Some(TokenFault::FeeTooHigh));
    assert_eq!(t.set_fee_config_fault(TREASURY, 10000), None);
    t.set_fee_config(TREASURY, 10000);
    t.mint(USER1, 10);
    t.transfer(USER1, USER2, 10);
    assert_eq!(t.balance(TREASURY), 10);
}

#[test]
fn test_zero_fee_transfer_and_zero_amount() {
    let mut t = token_with_fee(0);
    t.mint(USER1, 10);
    t.transfer(USER1, USER2, 3);
    assert_eq!(t.balance(USER1), 7);
    assert_eq!(t.balance(USER2), 3);
    assert_eq!(t.balance(TREASURY), 0);
    // A zero transfer changes nothing and announces nothing.
    t.take_events();
    t.transfer(USER1, USER2, 0);
    assert!(t.take_events().is_empty());
    assert_eq!(t.transfer_fault(USER1, USER2, -1), Some(TokenFault::NegativeAmount));
}

#[test]
fn test_single_unit_transfer_pays_no_minimum_fee() {
    let mut t = token_with_fee(10);
    t.mint(USER1, 5);
    t.transfer(USER1, USER2, 1);
    assert_eq!(t.balance(TREASURY), 0);
    assert_eq!(t.balance(USER2), 1);
}

#[test]
fn test_full_fee_rate_sends_everything_to_recipient() {
    let mut t = token_with_fee(10000);
    t.mint(USER1, 50);
    t.transfer(USER1, USER2, 40);
    assert_eq!(t.balance(TREASURY), 40);
    assert_eq!(t.balance(USER2), 0);
}

#[test]
fn test_emptying_a_balance_leaves_zero() {
    let mut t = token_with_fee(0);
    t.mint(USER1, 10);
    t.burn(USER1, 10);
    assert_eq!(t.balance(USER1), 0);
    t.mint(USER1, 7);
    t.transfer(USER1, USER2, 7);
    assert_eq!(t.balance(USER1), 0);
    assert_eq!(t.balance(USER2), 7);
}

#[test]
fn test_transfer_events() {
    let mut t = token_with_fee(500);
    t.mint(USER1, 1000);
    t.take_events();
    t.transfer(USER1, USER2, 100);
    let events = t.take_events();
    assert_eq!(
        events,
        vec![
            TokenEvent::Transfer { from: USER1, to: TREASURY, amount: 5 },
            TokenEvent::Transfer { from: USER1, to: USER2, amount: 95 },
        ]
    );
}

#[test]
fn test_approve_and_transfer_from() {
    let mut t = token_with_fee(0);
    t.mint(USER1, 100);
    t.approve(USER1, USER2, 30, 500);
    assert_eq!(t.allowance(USER1, USER2), 30);
    assert_eq!(t.transfer_from_fault(USER2, USER1, TREASURY, 40), Some(TokenFault::InsufficientAllowance));
    t.transfer_from(USER2, USER1, TREASURY, 20);
    assert_eq!(t.allowance(USER1, USER2), 10);
    assert_eq!(t.balance(USER1), 80);
    assert_eq!(t.balance(TREASURY), 20);
    assert_eq!(t.approve_fault(USER1, USER2, -5, 500), Some(TokenFault::NegativeAmount));
}

#[test]
fn test_transfer_from_refused_transfer_keeps_allowance() {
    let mut t = token_with_fee(0);
    t.mint(USER1, 10);
    t.approve(USER1, USER2, 30, 500);
    // The allowance covers it but the balance does not.
    assert_eq!(t.transfer_from_fault(USER2, USER1, TREASURY, 20), Some(TokenFault::InsufficientBalance));
    assert_eq!(t.transfer_from_fault(USER2, USER1, TREASURY, 10), None);
    assert_eq!(t.allowance(USER1, USER2), 30);
}

#[test]
fn test_burn_and_burn_from() {
    let mut t = token_with_fee(0);
    t.mint(USER1, 100);
    t.burn(USER1, 30);
    assert_eq!(t.balance(USER1), 70);
    assert_eq!(t.burn_fault(USER1, 71), Some(TokenFault::InsufficientBalance));
    t.approve(USER1, USER2, 50, 0);
    t.burn_from(USER2, USER1, 20);
    assert_eq!(t.balance(USER1), 50);
    assert_eq!(t.allowance(USER1, USER2), 30);
    assert_eq!(t.burn_from_fault(USER2, USER1, 31), Some(TokenFault::InsufficientAllowance));
}

#[test]
fn test_mint_and_admin() {
    let fresh = BaseToken::new();
    assert_eq!(fresh.mint_fault(USER1, 5), Some(TokenFault::NotInitialized));
    assert_eq!(fresh.set_admin_fault(USER1), Some(TokenFault::NotInitialized));
    let mut t = token_with_fee(0);
    assert_eq!(t.mint_fault(USER1, -1), Some(TokenFault::NegativeAmount));
    t.mint(USER1, i128::MAX);
    assert_eq!(t.mint_fault(USER1, 1), Some(TokenFault::Overflow));
    t.take_events();
    t.set_admin(USER2);
    assert_eq!(t.take_events(), vec![TokenEvent::SetAdmin { admin: ADMIN, new_admin: USER2 }]);
}
