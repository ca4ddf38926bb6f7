use plutus::plutus_error::{Outcome, PlutusError, PlutusFormat};
use plutus::session::{RawSessionID, Session, SessionStore};
use plutus::utils::{
    async_rng_index, async_rng_int, async_rng_int_large, async_rng_item, async_rng_range_int,
    contains_i64, get_epoch_day, get_time, request_boiler, SECONDS_PER_DAY,
};

#[test]
fn the_clock_reads_a_present_instant() {
    let t = get_time();
    assert!(t > 1_600_000_000);
    let d = get_epoch_day();
    assert!(d > 1_600_000_000 / SECONDS_PER_DAY);
    assert!(d <= get_time() / SECONDS_PER_DAY);
}

#[test]
fn random_samples_stay_in_their_ranges() {
    for _ in 0..200 {
        let r = async_rng_int(10);
        assert!((0..=10).contains(&r));
        let r = async_rng_int_large(1 << 60);
        assert!((0..=(1i64 << 60)).contains(&r));
        let r = async_rng_range_int(5, 10);
        assert!((5..=10).contains(&r));
    }
    assert_eq!(async_rng_int(0), 0);
    assert_eq!(async_rng_range_int(7, 7), 7);
}

#[test]
fn random_index_and_item_pick_from_the_vector() {
    let v = vec![10i64, 20, 30];
    for _ in 0..50 {
        assert!(async_rng_index(&v) < 3);
        let x = *async_rng_item(&v);
        assert!(x == 10 || x == 20 || x == 30);
    }
}

#[test]
fn contains_scans_the_whole_vector() {
    let v = vec![1i64, 5, 9];
    assert!(contains_i64(&v, 5));
    assert!(contains_i64(&v, 9));
    assert!(!contains_i64(&v, 2));
    assert!(!contains_i64(&Vec::new(), 2));
}

#[test]
fn the_gate_checks_session_then_formats() {
    let now = 5000;
    let rows = vec![Session { id: 255, user: String::from("alice"), last_used: 4000 }];
    let mut sessions = SessionStore::load(rows, now).unwrap();
    let query = vec![(String::from("id"), String::from("42"))];

    // a bad token never reaches the format check
    let r = request_boiler(
        &mut sessions,
        RawSessionID { id: String::from("zz") },
        &query,
        vec![("id", PlutusFormat::BigNumber)],
        now,
    );
    assert!(matches!(r, Err(Outcome::Session(_))));

    // a good token with a missing argument
    let r = request_boiler(
        &mut sessions,
        RawSessionID { id: String::from("ff") },
        &query,
        vec![("name", PlutusFormat::Unspecified)],
        now,
    );
    assert!(matches!(r, Err(Outcome::Plutus(PlutusError::InvalidArguments))));

    // a good token with well-formed arguments resolves the session
    let r = request_boiler(
        &mut sessions,
        RawSessionID { id: String::from("ff") },
        &query,
        vec![("id", PlutusFormat::BigNumber)],
        now,
    );
    let s = r.unwrap();
    assert_eq!(s.user, "alice");
    assert_eq!(s.last_used, now);
}
