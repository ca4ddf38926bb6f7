use plutus::account::{Account, AccountError, AccountStore};
use plutus::limit::{Limit, LimitEngine, LimitError};
use plutus::log::{Log, LogSpecies, Source};
use plutus::plutus_error::Outcome;
use plutus::transfer::{execute, TransferError};

fn account(id: i64, owner: &str, balance: u64) -> Account {
    Account { id, name: String::from("acct"), owner: String::from(owner), balance }
}

fn limit(id: i64, account: i64, usage: u64, cap: u64, duration: i64, start: i64) -> Limit {
    Limit { id, account, usage, cap, duration, last_enforcement: start }
}

fn two_accounts(a_balance: u64, b_balance: u64) -> AccountStore {
    AccountStore::load(vec![account(1, "alice", a_balance), account(2, "bob", b_balance)]).unwrap()
}

#[test]
fn insufficient_balance_leaves_balances_unchanged() {
    let mut accounts = two_accounts(100, 7);
    let mut limits = LimitEngine::new();
    let mut log: Vec<Log> = Vec::new();
    let r = execute(&mut accounts, &mut limits, &mut log, 1, 2, 150, true);
    assert_eq!(r, Err(TransferError::InsufficientBalance));
    assert_eq!(accounts.fetch(1).unwrap().balance, 100);
    assert_eq!(accounts.fetch(2).unwrap().balance, 7);
    assert!(log.is_empty());
}

#[test]
fn limit_exceeded_leaves_balances_and_usage_unchanged() {
    let mut accounts = two_accounts(500, 0);
    let mut limits = LimitEngine::load(vec![limit(9, 1, 150, 200, 1, 0)]).unwrap();
    let mut log: Vec<Log> = Vec::new();
    let r = execute(&mut accounts, &mut limits, &mut log, 1, 2, 60, true);
    assert_eq!(r, Err(TransferError::LimitExceeded));
    assert_eq!(accounts.fetch(1).unwrap().balance, 500);
    assert_eq!(accounts.fetch(2).unwrap().balance, 0);
    assert_eq!(limits.fetch(1).unwrap().usage, 150);
    assert!(log.is_empty());
}

#[test]
fn successful_transfer_moves_amount_and_records_usage() {
    let mut accounts = two_accounts(100, 0);
    let mut limits = LimitEngine::load(vec![limit(9, 1, 0, 1000, 1, 0)]).unwrap();
    let mut log: Vec<Log> = Vec::new();
    let r = execute(&mut accounts, &mut limits, &mut log, 1, 2, 40, true);
    assert_eq!(r, Ok(()));
    assert_eq!(accounts.fetch(1).unwrap().balance, 60);
    assert_eq!(accounts.fetch(2).unwrap().balance, 40);
    assert_eq!(limits.fetch(1).unwrap().usage, 40);
}

#[test]
fn successful_transfer_without_limit_row_is_unrestricted() {
    let mut accounts = two_accounts(100, 0);
    let mut limits = LimitEngine::new();
    let mut log: Vec<Log> = Vec::new();
    assert_eq!(execute(&mut accounts, &mut limits, &mut log, 1, 2, 100, false), Ok(()));
    assert_eq!(accounts.fetch(1).unwrap().balance, 0);
    assert_eq!(accounts.fetch(2).unwrap().balance, 100);
    assert!(log.is_empty());
}

#[test]
fn audit_legs_of_a_successful_transfer() {
    let mut accounts = two_accounts(100, 0);
    let mut limits = LimitEngine::new();
    let mut log: Vec<Log> = Vec::new();
    execute(&mut accounts, &mut limits, &mut log, 1, 2, 25, true).unwrap();
    assert_eq!(log.len(), 2);
    assert_eq!(log[0].species, LogSpecies::Outgoing);
    assert_eq!(log[1].species, LogSpecies::Incoming);
    for leg in &log {
        assert_eq!(leg.balance, 25);
        assert_eq!(leg.origin, Source::User(1));
        assert_eq!(leg.destination, Source::User(2));
        assert_eq!(leg.state, Outcome::Success);
    }
}

#[test]
fn missing_accounts_are_reported_in_check_order() {
    let mut accounts = two_accounts(100, 0);
    let mut limits = LimitEngine::new();
    let mut log: Vec<Log> = Vec::new();
    assert_eq!(
        execute(&mut accounts, &mut limits, &mut log, 5, 2, 10, true),
        Err(TransferError::OriginNotFound)
    );
    assert_eq!(
        execute(&mut accounts, &mut limits, &mut log, 1, 5, 10, true),
        Err(TransferError::DestinationNotFound)
    );
    assert_eq!(accounts.fetch(1).unwrap().balance, 100);
    assert!(log.is_empty());
}

#[test]
fn total_money_is_conserved() {
    let mut accounts = two_accounts(300, 200);
    let mut limits = LimitEngine::new();
    let mut log: Vec<Log> = Vec::new();
    for _ in 0..5 {
        execute(&mut accounts, &mut limits, &mut log, 1, 2, 30, false).unwrap();
    }
    let a = accounts.fetch(1).unwrap().balance;
    let b = accounts.fetch(2).unwrap().balance;
    assert_eq!(a + b, 500);
    assert_eq!(a, 150);
}

#[test]
fn limit_and_balance_scenario() {
    // Account X: balance 500, limit cap 200 with usage 150 over a one-day
    // cycle. A transfer of 60 would surpass the cap; one of 40 goes through.
    let mut accounts =
        AccountStore::load(vec![account(10, "x", 500), account(20, "y", 5)]).unwrap();
    let mut limits = LimitEngine::load(vec![limit(1, 10, 150, 200, 1, 0)]).unwrap();
    let mut log: Vec<Log> = Vec::new();

    let r = execute(&mut accounts, &mut limits, &mut log, 10, 20, 60, true);
    assert_eq!(r, Err(TransferError::LimitExceeded));
    assert_eq!(accounts.fetch(10).unwrap().balance, 500);
    assert_eq!(accounts.fetch(20).unwrap().balance, 5);

    let r = execute(&mut accounts, &mut limits, &mut log, 10, 20, 40, true);
    assert_eq!(r, Ok(()));
    assert_eq!(accounts.fetch(10).unwrap().balance, 460);
    assert_eq!(accounts.fetch(20).unwrap().balance, 45);
    assert_eq!(limits.fetch(10).unwrap().usage, 190);
}

#[test]
fn transfer_request_masks_foreign_accounts() {
    let mut accounts = two_accounts(100, 0);
    let mut limits = LimitEngine::new();
    let mut log: Vec<Log> = Vec::new();
    let bob = String::from("bob");
    let alice = String::from("alice");
    // bob does not own account 1
    let r = plutus::account::transfer(&mut accounts, &mut limits, &mut log, &bob, 1, 2, 10);
    assert_eq!(r, Outcome::Account(AccountError::NoPermission));
    // a destination that does not exist also reads as missing permission
    let r = plutus::account::transfer(&mut accounts, &mut limits, &mut log, &alice, 1, 7, 10);
    assert_eq!(r, Outcome::Account(AccountError::NoPermission));
    // an amount of zero is rejected before the executor runs
    let r = plutus::account::transfer(&mut accounts, &mut limits, &mut log, &alice, 1, 2, 0);
    assert_eq!(r, Outcome::Account(AccountError::InsufficientBalance));
    // the happy path
    let r = plutus::account::transfer(&mut accounts, &mut limits, &mut log, &alice, 1, 2, 10);
    assert_eq!(r, Outcome::Success);
    assert_eq!(accounts.fetch(2).unwrap().balance, 10);
    // a limit breach surfaces as the limit error
    let mut limits = LimitEngine::load(vec![limit(9, 1, 195, 200, 1, 0)]).unwrap();
    let r = plutus::account::transfer(&mut accounts, &mut limits, &mut log, &alice, 1, 2, 10);
    assert_eq!(r, Outcome::Limit(LimitError::WillSurpassLimit));
}
