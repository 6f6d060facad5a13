use nova_fund::errors::Error;
use nova_fund::treasury::{TreasuryContract, TreasuryEvent};
use nova_fund::types::{Address, Effect};

const SELF: Address = 1;
const ADMIN: Address = 2;
const XLM: Address = 10;
const USDC: Address = 11;
const OTHER_TOKEN: Address = 12;
const RECIPIENT: Address = 20;
const NOW: u64 = 5000;

fn treasury() -> TreasuryContract {
    let mut t = TreasuryContract::new(SELF);
    t.initialize(ADMIN, vec![XLM]).unwrap();
    t
}

#[test]
fn test_treasury_initialize() {
    let mut t = TreasuryContract::new(SELF);
    assert_eq!(t.initialize(ADMIN, Vec::new()), Err(Error::InvInput));
    assert_eq!(t.admin(), Err(Error::NotInit));
    t.initialize(ADMIN, vec![XLM]).unwrap();
    assert_eq!(t.initialize(ADMIN, vec![XLM]), Err(Error::AlreadyInit));
    assert_eq!(t.admin(), Ok(ADMIN));
    assert_eq!(t.supported_tokens().unwrap(), vec![XLM]);
    assert_eq!(t.withdrawal_count(), 0);
}

#[test]
fn test_treasury_add_token_is_idempotent() {
    let mut t = treasury();
    t.add_token(USDC).unwrap();
    t.add_token(USDC).unwrap();
    assert_eq!(t.supported_tokens().unwrap(), vec![XLM, USDC]);
    let mut fresh = TreasuryContract::new(SELF);
    assert_eq!(fresh.add_token(USDC), Err(Error::NotInit));
}

#[test]
fn test_treasury_deposit() {
    let mut t = treasury();
    assert_eq!(t.deposit(30, XLM, 0), Err(Error::InvInput));
    assert_eq!(t.deposit(30, OTHER_TOKEN, 10), Err(Error::InvInput));
    t.deposit(30, XLM, 10).unwrap();
    let effects = t.take_effects();
    assert_eq!(effects.len(), 1);
    assert!(matches!(effects[0], Effect::Transfer { token: XLM, from: 30, to: SELF, amount: 10 }));
}

#[test]
fn test_treasury_withdraw_records_and_blocks_replay() {
    let mut t = treasury();
    let memo: Vec<u8> = b"grant".to_vec();
    let id = t.withdraw(ADMIN, 7, XLM, RECIPIENT, 100, memo.clone(), NOW, 1000).unwrap();
    assert_eq!(id, 0);
    assert_eq!(t.withdrawal_count(), 1);
    assert!(t.is_proposal_used(7));
    let record = t.get_withdrawal(0).unwrap();
    assert_eq!(record.proposal_id, 7);
    assert_eq!(record.recipient, RECIPIENT);
    assert_eq!(record.amount, 100);
    assert_eq!(record.memo, memo);
    assert_eq!(record.executed_at, NOW);
    let effects = t.take_effects();
    assert!(matches!(effects[0], Effect::Transfer { token: XLM, from: SELF, to: RECIPIENT, amount: 100 }));

    // The same proposal cannot be used again.
    assert_eq!(t.withdraw(ADMIN, 7, XLM, RECIPIENT, 1, memo.clone(), NOW, 1000), Err(Error::PropExc));
    // A new proposal gets the next id.
    assert_eq!(t.withdraw(ADMIN, 8, XLM, RECIPIENT, 1, memo, NOW, 1000), Ok(1));
    assert_eq!(t.get_withdrawal(5).unwrap_err(), Error::NotFound);
}

#[test]
fn test_treasury_withdraw_refusals() {
    let mut t = treasury();
    let memo: Vec<u8> = vec![1];
    assert_eq!(t.withdraw(99, 1, XLM, RECIPIENT, 10, memo.clone(), NOW, 100), Err(Error::Unauthorized));
    assert_eq!(t.withdraw(ADMIN, 1, XLM, RECIPIENT, 0, memo.clone(), NOW, 100), Err(Error::InvInput));
    assert_eq!(t.withdraw(ADMIN, 1, XLM, RECIPIENT, 10, Vec::new(), NOW, 100), Err(Error::InvInput));
    assert_eq!(t.withdraw(ADMIN, 1, USDC, RECIPIENT, 10, memo.clone(), NOW, 100), Err(Error::InvInput));
    assert_eq!(t.withdraw(ADMIN, 1, XLM, RECIPIENT, 101, memo.clone(), NOW, 100), Err(Error::InsufFunds));
    // A refused withdrawal leaves the proposal unused.
    assert!(!t.is_proposal_used(1));
    assert_eq!(t.withdrawal_count(), 0);
    let mut fresh = TreasuryContract::new(SELF);
    assert_eq!(fresh.withdraw(ADMIN, 1, XLM, RECIPIENT, 10, memo, NOW, 100), Err(Error::NotInit));
}

#[test]
fn test_treasury_set_admin() {
    let mut t = treasury();
    t.set_admin(3).unwrap();
    assert_eq!(t.admin(), Ok(3));
    let memo: Vec<u8> = vec![1];
    assert_eq!(t.withdraw(ADMIN, 1, XLM, RECIPIENT, 10, memo, NOW, 100), Err(Error::Unauthorized));
}

#[test]
fn test_treasury_events() {
    let mut t = treasury();
    t.add_token(USDC).unwrap();
    // Adding a token that is already there announces nothing.
    t.add_token(USDC).unwrap();
    t.deposit(30, USDC, 10).unwrap();
    t.withdraw(ADMIN, 4, USDC, RECIPIENT, 5, vec![1], NOW, 10).unwrap();
    t.set_admin(3).unwrap();
    assert_eq!(
        t.take_events(),
        vec![
            TreasuryEvent::TokenAdded { token: USDC },
            TreasuryEvent::Deposited { depositor: 30, token: USDC, amount: 10 },
            TreasuryEvent::Withdrawn { withdrawal_id: 0, proposal_id: 4, token: USDC, recipient: RECIPIENT, amount: 5 },
            TreasuryEvent::AdminChanged { admin: ADMIN, new_admin: 3 },
        ]
    );
}

#[test]
fn test_treasury_withdraw_precheck() {
    let t = treasury();
    let memo: Vec<u8> = vec![1];
    assert_eq!(t.withdraw_precheck(ADMIN, 1, XLM, 10, &memo), None);
    assert_eq!(t.withdraw_precheck(99, 1, XLM, 10, &memo), Some(Error::Unauthorized));
    assert_eq!(t.withdraw_precheck(ADMIN, 1, USDC, 10, &memo), Some(Error::InvInput));
}
