use plutus::account::AccountStore;
use plutus::session::{RawSessionID, SessionStore};
use plutus::user::{UserError, UserStore};

#[test]
fn signup_creates_a_default_account_and_a_session() {
    let mut users = UserStore::new();
    let mut accounts = AccountStore::new();
    let mut sessions = SessionStore::new();
    let r = users.signup(
        &mut accounts,
        &mut sessions,
        String::from("alice"),
        &String::from("hunter2"),
        1000,
    );
    let token = match r {
        UserError::Success(t) => t,
        other => panic!("signup failed: {:?}", other),
    };
    let u = users.fetch(&String::from("alice")).unwrap();
    let a = accounts.fetch(u.default_account).unwrap();
    assert_eq!(a.owner, "alice");
    assert_eq!(a.name, "savings");
    assert_eq!(a.balance, 0);
    // the issued token resolves back to the identity
    let s = RawSessionID { id: token }.into_session(&mut sessions, 1000).unwrap();
    assert_eq!(s.user, "alice");
}

#[test]
fn stored_credential_is_the_digest_of_the_password() {
    let mut users = UserStore::new();
    let mut accounts = AccountStore::new();
    let mut sessions = SessionStore::new();
    users.signup(&mut accounts, &mut sessions, String::from("alice"), &String::from("hunter2"), 0);
    let u = users.fetch(&String::from("alice")).unwrap();
    assert_eq!(u.password, sha256::digest("hunter2"));
    assert_ne!(u.password, "hunter2");
}

#[test]
fn duplicate_signup_is_refused() {
    let mut users = UserStore::new();
    let mut accounts = AccountStore::new();
    let mut sessions = SessionStore::new();
    users.signup(&mut accounts, &mut sessions, String::from("alice"), &String::from("a"), 0);
    let r = users.signup(&mut accounts, &mut sessions, String::from("alice"), &String::from("b"), 0);
    assert_eq!(r, UserError::UsernameExist);
}

#[test]
fn login_checks_username_and_password() {
    let mut users = UserStore::new();
    let mut accounts = AccountStore::new();
    let mut sessions = SessionStore::new();
    users.signup(&mut accounts, &mut sessions, String::from("alice"), &String::from("pw"), 1000);

    let r = users.login(&mut sessions, &String::from("bob"), &String::from("pw"), 1000);
    assert_eq!(r, UserError::UsernameNoExist);
    let r = users.login(&mut sessions, &String::from("alice"), &String::from("wrong"), 1000);
    assert_eq!(r, UserError::PasswordWrong);
    // the digest itself is not the password
    let digest = sha256::digest("pw");
    let r = users.login(&mut sessions, &String::from("alice"), &digest, 1000);
    assert_eq!(r, UserError::PasswordWrong);
    let r = users.login(&mut sessions, &String::from("alice"), &String::from("pw"), 1000);
    assert!(matches!(r, UserError::Success(_)));
}

#[test]
fn login_within_ttl_reuses_the_signup_session() {
    let mut users = UserStore::new();
    let mut accounts = AccountStore::new();
    let mut sessions = SessionStore::new();
    let t1 = match users.signup(
        &mut accounts,
        &mut sessions,
        String::from("alice"),
        &String::from("pw"),
        1000,
    ) {
        UserError::Success(t) => t,
        other => panic!("signup failed: {:?}", other),
    };
    let t2 = match users.login(&mut sessions, &String::from("alice"), &String::from("pw"), 2000) {
        UserError::Success(t) => t,
        other => panic!("login failed: {:?}", other),
    };
    assert_eq!(t1, t2);
}

#[test]
fn username_existance_reports_presence() {
    let mut users = UserStore::new();
    let mut accounts = AccountStore::new();
    let mut sessions = SessionStore::new();
    assert!(!users.username_existance(&String::from("alice")));
    users.signup(&mut accounts, &mut sessions, String::from("alice"), &String::from("pw"), 0);
    assert!(users.username_existance(&String::from("alice")));
}
