use plutus::account::{Account, AccountError, AccountStore};
use plutus::auto_transfer::{AutoTransfer, AutoTransferError, AutoTransferStore};
use plutus::limit::{Limit, LimitEngine, LimitError};
use plutus::plutus_error::Outcome;

fn account(id: i64, owner: &str, balance: u64) -> Account {
    Account { id, name: String::from("acct"), owner: String::from(owner), balance }
}

#[test]
fn one_limit_per_account() {
    let mut engine = LimitEngine::new();
    let l = engine.create(1, 100, 7, 50).unwrap();
    assert_eq!(l.account, 1);
    assert_eq!(l.usage, 0);
    assert_eq!(l.cap, 100);
    assert_eq!(l.last_enforcement, 50);
    assert_eq!(engine.create(1, 200, 7, 50), Err(LimitError::LimitAlreadyExists));
    assert!(engine.create(2, 200, 7, 50).is_ok());
}

#[test]
fn check_limits_is_the_cap_test() {
    let engine = LimitEngine::load(vec![Limit {
        id: 1,
        account: 1,
        usage: 150,
        cap: 200,
        duration: 1,
        last_enforcement: 0,
    }])
    .unwrap();
    assert!(engine.check_limits(1, 60));
    assert!(!engine.check_limits(1, 50));
    // an account without a limit row is unrestricted
    assert!(!engine.check_limits(2, u64::MAX));
}

#[test]
fn edit_and_delete_need_an_existing_row() {
    let mut engine = LimitEngine::new();
    assert_eq!(engine.edit(1, 5, 5), Some(LimitError::LimitDoesntExist));
    assert_eq!(engine.delete(1), Some(LimitError::LimitDoesntExist));
    engine.create(1, 100, 7, 0).unwrap();
    assert!(engine.edit(1, 50, 3).is_none());
    let l = engine.fetch(1).unwrap();
    assert_eq!(l.cap, 50);
    assert_eq!(l.duration, 3);
    assert!(engine.delete(1).is_none());
    assert!(engine.fetch(1).is_none());
}

#[test]
fn limit_requests_need_ownership() {
    let accounts = AccountStore::load(vec![account(1, "alice", 0)]).unwrap();
    let mut engine = LimitEngine::new();
    let bob = String::from("bob");
    let alice = String::from("alice");
    let r = plutus::limit::create(&mut engine, &accounts, &bob, 1, 100, 7, 0);
    assert_eq!(r, Err(Outcome::Account(AccountError::NoPermission)));
    let l = plutus::limit::create(&mut engine, &accounts, &alice, 1, 100, 7, 0).unwrap();
    assert_eq!(l.cap, 100);
    let r = plutus::limit::create(&mut engine, &accounts, &alice, 1, 100, 7, 0);
    assert_eq!(r, Err(Outcome::Limit(LimitError::LimitAlreadyExists)));
    assert_eq!(plutus::limit::edit(&mut engine, &accounts, &bob, 1, 5, 5),
        Outcome::Account(AccountError::NoPermission));
    assert_eq!(plutus::limit::edit(&mut engine, &accounts, &alice, 1, 5, 5), Outcome::Success);
    assert_eq!(plutus::limit::delete(&mut engine, &accounts, &bob, 1),
        Outcome::Account(AccountError::NoPermission));
    assert_eq!(plutus::limit::delete(&mut engine, &accounts, &alice, 1), Outcome::Success);
}

#[test]
fn schedule_requests_check_endpoints() {
    let accounts =
        AccountStore::load(vec![account(1, "alice", 0), account(2, "bob", 0)]).unwrap();
    let mut store = AutoTransferStore::new();
    let alice = String::from("alice");
    let r = plutus::auto_transfer::create(&mut store, &accounts, &alice, 1, 9, 10, 7, 0);
    assert_eq!(r, Outcome::AutoTransfer(AutoTransferError::ToDoesntExist));
    let r = plutus::auto_transfer::create(&mut store, &accounts, &alice, 1, 1, 10, 7, 0);
    assert_eq!(r, Outcome::AutoTransfer(AutoTransferError::TargetSame));
    let r = plutus::auto_transfer::create(&mut store, &accounts, &alice, 1, 2, 0, 7, 0);
    assert_eq!(r, Outcome::AutoTransfer(AutoTransferError::InsufficientBalance));
    let r = plutus::auto_transfer::create(&mut store, &accounts, &alice, 1, 2, 10, 7, 0);
    assert_eq!(r, Outcome::Success);
    let r = plutus::auto_transfer::create(&mut store, &accounts, &String::from("bob"), 1, 2, 10, 7, 0);
    assert_eq!(r, Outcome::Account(AccountError::NoPermission));
}

#[test]
fn schedule_crud_round_trip() {
    let accounts =
        AccountStore::load(vec![account(1, "alice", 0), account(2, "bob", 0)]).unwrap();
    let mut store = AutoTransferStore::new();
    let alice = String::from("alice");
    let t = store.create(1, 2, 10, 7, 100);
    assert_eq!(store.fetch(t.id).unwrap().amount, 10);
    assert_eq!(store.fetch_outgoing(1).len(), 1);
    assert_eq!(store.fetch_incoming(2).len(), 1);
    assert!(store.fetch_incoming(1).is_empty());
    let r = plutus::auto_transfer::edit(&mut store, &accounts, &alice, t.id, 25, 3);
    assert_eq!(r, Outcome::Success);
    let edited = store.fetch(t.id).unwrap();
    assert_eq!(edited.amount, 25);
    assert_eq!(edited.duration, 3);
    assert_eq!(edited.last_transfer, 100);
    let r = plutus::auto_transfer::delete(&mut store, &accounts, &String::from("bob"), t.id);
    assert_eq!(r, Outcome::Account(AccountError::NoPermission));
    let r = plutus::auto_transfer::delete(&mut store, &accounts, &alice, t.id);
    assert_eq!(r, Outcome::Success);
    assert!(store.fetch(t.id).is_none());
    assert_eq!(store.delete(t.id), Some(AutoTransferError::AutoTransferDoesntExist));
}
