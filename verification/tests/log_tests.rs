use plutus::account::{Account, AccountStore};
use plutus::log::{Log, LogSpecies, Source};
use plutus::plutus_error::Outcome;

fn leg(amount: u64, origin: Source, destination: Source) -> Log {
    Log { species: LogSpecies::Outgoing, balance: amount, origin, destination, state: Outcome::Success }
}

#[test]
fn append_grows_the_trail_in_order() {
    let mut log: Vec<Log> = Vec::new();
    Log::append(&mut log, LogSpecies::Outgoing, 5, Source::User(1), Source::User(2), Outcome::Success);
    Log::append(&mut log, LogSpecies::Incoming, 5, Source::User(1), Source::User(2), Outcome::Success);
    assert_eq!(log.len(), 2);
    assert_eq!(log[0].species, LogSpecies::Outgoing);
    assert_eq!(log[1].species, LogSpecies::Incoming);
}

#[test]
fn fetch_filters_by_account_most_recent_first() {
    let log = vec![
        leg(1, Source::User(1), Source::User(2)),
        leg(2, Source::User(3), Source::User(4)),
        leg(3, Source::AutoTransfer(1), Source::User(5)),
        leg(4, Source::User(6), Source::AutoTransfer(1)),
        leg(5, Source::Bank, Source::Bank),
    ];
    let r = Log::fetch(&log, 1, 100);
    assert_eq!(r.len(), 3);
    assert_eq!(r[0].balance, 4);
    assert_eq!(r[1].balance, 3);
    assert_eq!(r[2].balance, 1);
    let r = Log::fetch(&log, 4, 100);
    assert_eq!(r.len(), 1);
    assert_eq!(r[0].balance, 2);
    // a bank leg names no account
    assert!(Log::fetch(&log, 0, 100).is_empty());
}

#[test]
fn fetch_caps_the_number_of_legs() {
    let mut log: Vec<Log> = Vec::new();
    for i in 0..10 {
        log.push(leg(i, Source::User(1), Source::User(2)));
    }
    let r = Log::fetch(&log, 1, 3);
    assert_eq!(r.len(), 3);
    assert_eq!(r[0].balance, 9);
    assert_eq!(r[2].balance, 7);
    assert_eq!(Log::fetch(&log, 1, 0).len(), 0);
    assert_eq!(Log::fetch(&log, 1, 100).len(), 10);
}

#[test]
fn fetch_request_needs_ownership_and_caps_at_a_hundred() {
    let accounts = AccountStore::load(vec![Account {
        id: 1,
        name: String::from("a"),
        owner: String::from("alice"),
        balance: 0,
    }])
    .unwrap();
    let mut log: Vec<Log> = Vec::new();
    for i in 0..150 {
        log.push(leg(i, Source::User(1), Source::User(2)));
    }
    let r = plutus::log::fetch(&log, &accounts, &String::from("bob"), 1, 10);
    assert!(r.is_err());
    let r = plutus::log::fetch(&log, &accounts, &String::from("alice"), 1, 500).unwrap();
    assert_eq!(r.len(), 100);
    assert_eq!(r[0].balance, 149);
}
