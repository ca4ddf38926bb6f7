use plutus::session::{
    to_hex_string, RawSessionID, Session, SessionError, SessionStore, SESSION_EXPIRY,
};

fn raw(s: &str) -> RawSessionID {
    RawSessionID { id: String::from(s) }
}

#[test]
fn token_decoding_accepts_hex_with_dashes() {
    assert_eq!(raw("ff").to_int(), Ok(255));
    assert_eq!(raw("f-f").to_int(), Ok(255));
    assert_eq!(raw("FF").to_int(), Ok(255));
    assert_eq!(raw("+ff").to_int(), Ok(255));
    assert_eq!(raw("0").to_int(), Ok(0));
    assert_eq!(raw("fffff-fffff-fffff").to_int(), Ok(0xfffffffffffffff));
    assert_eq!(raw("7fffffffffffffff").to_int(), Ok(i64::MAX));
}

#[test]
fn token_decoding_rejects_malformed_text() {
    assert_eq!(raw("").to_int(), Err(SessionError::SessionIDInvalid));
    assert_eq!(raw("-").to_int(), Err(SessionError::SessionIDInvalid));
    assert_eq!(raw("+").to_int(), Err(SessionError::SessionIDInvalid));
    assert_eq!(raw("xyz").to_int(), Err(SessionError::SessionIDInvalid));
    assert_eq!(raw("1 2").to_int(), Err(SessionError::SessionIDInvalid));
    assert_eq!(raw("ff+").to_int(), Err(SessionError::SessionIDInvalid));
    // one bit past the id type
    assert_eq!(raw("8000000000000000").to_int(), Err(SessionError::SessionIDInvalid));
    assert_eq!(raw("ffffffffffffffffff").to_int(), Err(SessionError::SessionIDInvalid));
}

#[test]
fn rendered_tokens_decode_to_their_id() {
    for id in [0i64, 1, 15, 16, 255, 4096, 0xdeadbeef, i64::MAX] {
        let t = to_hex_string(id);
        assert_eq!(raw(&t).to_int(), Ok(id));
    }
    assert_eq!(to_hex_string(255), "ff");
    assert_eq!(to_hex_string(0), "0");
    assert_eq!(to_hex_string(0x1a2b3c), "1a2b3c");
}

#[test]
fn issue_within_ttl_reuses_the_token() {
    let mut store = SessionStore::new();
    let user = String::from("alice");
    let t1 = store.get_session_id(&user, 1000);
    let t2 = store.get_session_id(&user, 1000 + SESSION_EXPIRY);
    assert_eq!(t1, t2);
}

#[test]
fn issue_after_expiry_mints_a_fresh_token() {
    let mut store = SessionStore::new();
    let user = String::from("alice");
    let t1 = store.get_session_id(&user, 1000);
    let t2 = store.get_session_id(&user, 1000 + SESSION_EXPIRY + 1);
    assert_ne!(t1, t2);
}

#[test]
fn issue_keeps_identities_apart() {
    let mut store = SessionStore::new();
    let t1 = store.get_session_id(&String::from("alice"), 1000);
    let t2 = store.get_session_id(&String::from("bob"), 1000);
    assert_ne!(t1, t2);
}

#[test]
fn validation_distinguishes_expired_from_unknown() {
    let rows = vec![Session { id: 255, user: String::from("alice"), last_used: 1000 }];
    let now = 1000 + SESSION_EXPIRY + 1;
    let mut store = SessionStore::load(rows, now).unwrap();
    // last used one second beyond the window: expired, never unknown
    assert_eq!(raw("ff").into_session(&mut store, now), Err(SessionError::SessionIDExpired));
    // an id never issued does not exist
    assert_eq!(raw("ee").into_session(&mut store, now), Err(SessionError::SessionIDNoExist));
    // malformed text is invalid before any lookup
    assert_eq!(raw("zz").into_session(&mut store, now), Err(SessionError::SessionIDInvalid));
}

#[test]
fn validation_slides_the_expiry() {
    let rows = vec![Session { id: 255, user: String::from("alice"), last_used: 1000 }];
    let mut store = SessionStore::load(rows, 1000).unwrap();
    let s = raw("ff").into_session(&mut store, 1000 + SESSION_EXPIRY).unwrap();
    assert_eq!(s.user, "alice");
    assert_eq!(s.last_used, 1000 + SESSION_EXPIRY);
    // alive again for a full window from the refreshed instant
    let s = raw("ff").into_session(&mut store, 1000 + 2 * SESSION_EXPIRY).unwrap();
    assert_eq!(s.id, 255);
}

#[test]
fn expired_lookup_does_not_resurrect_the_session() {
    let rows = vec![Session { id: 255, user: String::from("alice"), last_used: 1000 }];
    let now = 1000 + SESSION_EXPIRY + 1;
    let mut store = SessionStore::load(rows, now).unwrap();
    assert_eq!(raw("ff").into_session(&mut store, now), Err(SessionError::SessionIDExpired));
    // still expired on the next attempt: the failed lookup refreshed nothing
    assert_eq!(raw("ff").into_session(&mut store, now + 1), Err(SessionError::SessionIDExpired));
}

#[test]
fn session_load_rejects_broken_tables() {
    let dup = vec![
        Session { id: 1, user: String::from("a"), last_used: 10 },
        Session { id: 1, user: String::from("b"), last_used: 10 },
    ];
    assert!(SessionStore::load(dup, 100).is_none());
    let two_alive = vec![
        Session { id: 1, user: String::from("a"), last_used: 10 },
        Session { id: 2, user: String::from("a"), last_used: 11 },
    ];
    assert!(SessionStore::load(two_alive, 100).is_none());
    let future = vec![Session { id: 1, user: String::from("a"), last_used: 200 }];
    assert!(SessionStore::load(future, 100).is_none());
}
