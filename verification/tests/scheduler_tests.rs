use plutus::account::{Account, AccountStore};
use plutus::auto_transfer::{AutoTransfer, AutoTransferStore};
use plutus::limit::{Limit, LimitEngine};
use plutus::log::{Log, LogSpecies, Source};
use plutus::plutus_error::Outcome;
use plutus::scheduler::{increment_tasks_step, SchedulingMark};
use plutus::transfer::TransferError;

fn account(id: i64, owner: &str, balance: u64) -> Account {
    Account { id, name: String::from("acct"), owner: String::from(owner), balance }
}

#[test]
fn scheduler_runs_at_most_once_per_day() {
    let mut mark = SchedulingMark { last_incremented: 0 };
    let mut limits = LimitEngine::load(vec![Limit {
        id: 1,
        account: 1,
        usage: 50,
        cap: 100,
        duration: 1,
        last_enforcement: 100,
    }])
    .unwrap();
    let mut transfers = AutoTransferStore::new();
    let mut accounts = AccountStore::load(vec![account(1, "alice", 10)]).unwrap();
    let mut log: Vec<Log> = Vec::new();

    let ran = increment_tasks_step(&mut mark, &mut limits, &mut transfers, &mut accounts, &mut log, 102);
    assert!(ran);
    assert_eq!(mark.last_incremented, 102);
    assert_eq!(limits.fetch(1).unwrap().usage, 0);
    assert_eq!(limits.fetch(1).unwrap().last_enforcement, 102);

    // put some usage back and tick again the same day: nothing moves
    limits = LimitEngine::load(vec![Limit {
        id: 1,
        account: 1,
        usage: 30,
        cap: 100,
        duration: 1,
        last_enforcement: 100,
    }])
    .unwrap();
    let ran = increment_tasks_step(&mut mark, &mut limits, &mut transfers, &mut accounts, &mut log, 102);
    assert!(!ran);
    assert_eq!(limits.fetch(1).unwrap().usage, 30);
    assert_eq!(limits.fetch(1).unwrap().last_enforcement, 100);
    assert_eq!(mark.last_incremented, 102);
}

#[test]
fn limits_reset_only_after_their_cycle() {
    let mut limits = LimitEngine::load(vec![
        Limit { id: 1, account: 1, usage: 50, cap: 100, duration: 7, last_enforcement: 100 },
        Limit { id: 2, account: 2, usage: 9, cap: 10, duration: 7, last_enforcement: 101 },
    ])
    .unwrap();
    limits.increment_limits(107);
    // 107 - 100 >= 7: reset; 107 - 101 < 7: kept
    assert_eq!(limits.fetch(1).unwrap().usage, 0);
    assert_eq!(limits.fetch(1).unwrap().last_enforcement, 107);
    assert_eq!(limits.fetch(2).unwrap().usage, 9);
    assert_eq!(limits.fetch(2).unwrap().last_enforcement, 101);
}

#[test]
fn weekly_schedule_waits_a_full_interval() {
    let mut store = AutoTransferStore::new();
    let creation_day = 19000;
    let t = store.create(1, 2, 10, 7, creation_day);
    for day in creation_day..creation_day + 7 {
        let due = store.due_list(day);
        assert!(due.is_empty(), "day {} should have nothing due", day);
    }
    let due = store.due_list(creation_day + 7);
    assert_eq!(due.len(), 1);
    assert_eq!(due[0].id, t.id);
}

#[test]
fn due_transfers_run_and_mark_their_day() {
    let mut mark = SchedulingMark { last_incremented: 10 };
    let mut limits = LimitEngine::new();
    let mut accounts =
        AccountStore::load(vec![account(1, "alice", 100), account(2, "bob", 0)]).unwrap();
    let mut transfers = AutoTransferStore::new();
    transfers.create(1, 2, 30, 1, 10);
    let mut log: Vec<Log> = Vec::new();

    let ran = increment_tasks_step(&mut mark, &mut limits, &mut transfers, &mut accounts, &mut log, 11);
    assert!(ran);
    assert_eq!(accounts.fetch(1).unwrap().balance, 70);
    assert_eq!(accounts.fetch(2).unwrap().balance, 30);
    assert_eq!(log.len(), 2);
    assert_eq!(log[0].species, LogSpecies::Outgoing);
    assert_eq!(log[1].species, LogSpecies::Incoming);
    // the run is recorded on the entry, so the next day it is not yet due
    let t = transfers.fetch_outgoing(1)[0];
    assert_eq!(t.last_transfer, 11);
    assert!(transfers.due_list(11).is_empty());
}

#[test]
fn failed_due_transfer_is_logged_and_not_retried_that_cycle() {
    let mut mark = SchedulingMark { last_incremented: 10 };
    let mut limits = LimitEngine::new();
    // the paying account is gone: the transfer cannot run
    let mut accounts = AccountStore::load(vec![account(2, "bob", 0)]).unwrap();
    let mut transfers = AutoTransferStore::new();
    transfers.create(1, 2, 30, 1, 10);
    let mut log: Vec<Log> = Vec::new();

    let ran = increment_tasks_step(&mut mark, &mut limits, &mut transfers, &mut accounts, &mut log, 11);
    assert!(ran);
    assert_eq!(accounts.fetch(2).unwrap().balance, 0);
    assert_eq!(log.len(), 1);
    assert_eq!(log[0].species, LogSpecies::Outgoing);
    assert_eq!(log[0].origin, Source::AutoTransfer(1));
    assert_eq!(log[0].state, Outcome::Transfer(TransferError::OriginNotFound));
    // the failure still marks the entry: no retry storm within the cycle
    assert!(transfers.due_list(11).is_empty());
}

#[test]
fn limits_reset_before_due_transfers_run() {
    // the limit's cycle has elapsed, and only the reset makes the transfer fit
    let mut mark = SchedulingMark { last_incremented: 10 };
    let mut limits = LimitEngine::load(vec![Limit {
        id: 1,
        account: 1,
        usage: 95,
        cap: 100,
        duration: 1,
        last_enforcement: 9,
    }])
    .unwrap();
    let mut accounts =
        AccountStore::load(vec![account(1, "alice", 100), account(2, "bob", 0)]).unwrap();
    let mut transfers = AutoTransferStore::new();
    transfers.create(1, 2, 50, 1, 10);
    let mut log: Vec<Log> = Vec::new();

    let ran = increment_tasks_step(&mut mark, &mut limits, &mut transfers, &mut accounts, &mut log, 11);
    assert!(ran);
    assert_eq!(accounts.fetch(1).unwrap().balance, 50);
    assert_eq!(accounts.fetch(2).unwrap().balance, 50);
    assert_eq!(limits.fetch(1).unwrap().usage, 50);
}
