use vstd::prelude::*;
use crate::account::{AccountStore, ACCOUNT_ID_BOUND};
use crate::session::{hex_render, issue_post, wf_at, SessionStore, SESSION_ID_BOUND};

verus! {

/// What the SHA-256 digest of a password renders to; a function of the input
/// characters alone.
pub uninterp spec fn digest_of(s: Seq<char>) -> Seq<char>;

/// Relies on sha256::digest over a &str: the SHA-256 digest of the input
/// bytes rendered as 64 hex characters, depending on the input alone.
#[verifier::external_body]
fn digest(s: &str) -> (r: String)
    ensures
        r@ == digest_of(s@),
        r@.len() == 64,
{
    sha256::digest(s)
}

/// The json payload of a login or signup request.
pub struct RawUser {
    pub username: String,
    pub password: String,
}

#[derive(Debug, PartialEq, Eq)]
pub struct User {
    pub username: String,
    /// The stored credential: the digest of the password, never the password
    /// itself.
    pub password: String,
    pub default_account: i64,
}

fn clone_user(u: &User) -> (r: User)
    ensures
        r == *u,
{
    User {
        username: u.username.clone(),
        password: u.password.clone(),
        default_account: u.default_account,
    }
}

pub open spec fn usr_contains(s: Seq<User>, username: Seq<char>) -> bool {
    exists|i: int| 0 <= i < s.len() && s[i].username@ == username
}

pub open spec fn usr_idx(s: Seq<User>, username: Seq<char>) -> int {
    choose|i: int| 0 <= i < s.len() && s[i].username@ == username
}

pub open spec fn usr_at(s: Seq<User>, username: Seq<char>) -> User {
    s[usr_idx(s, username)]
}

pub open spec fn usr_names_unique(s: Seq<User>) -> bool {
    forall|i: int, j: int| 0 <= i < j < s.len() ==> s[i].username@ != s[j].username@
}

/// The user table: identities and their credential digests.
pub struct UserStore {
    users: Vec<User>,
}

impl View for UserStore {
    type V = Seq<User>;

    closed spec fn view(&self) -> Seq<User> {
        self.users@
    }
}

impl UserStore {
    pub open spec fn wf(&self) -> bool {
        usr_names_unique(self@)
    }

    pub fn new() -> (r: UserStore)
        ensures
            r@ =~= Seq::<User>::empty(),
            r.wf(),
    {
        UserStore { users: Vec::new() }
    }

    fn index_of(&self, username: &String) -> (r: Option<usize>)
        requires
            self.wf(),
        ensures
            r is Some <==> usr_contains(self@, username@),
            r matches Some(i) ==> i < self@.len() && self@[i as int].username@ == username@
                && i as int == usr_idx(self@, username@),
    {
        let n = self.users.len();
        let mut i: usize = 0;
        while i < n
            invariant
                0 <= i <= n == self@.len(),
                forall|j: int| 0 <= j < i ==> self@[j].username@ != username@,
                self.wf(),
            decreases n - i,
        {
            if self.users[i].username == *username {
                proof {
                    lemma_usr_idx_unique(self@, username@, i as int);
                }
                return Some(i);
            }
            i = i + 1;
        }
        None
    }

    pub fn fetch(&self, username: &String) -> (r: Option<User>)
        requires
            self.wf(),
        ensures
            r is Some <==> usr_contains(self@, username@),
            r matches Some(u) ==> u == usr_at(self@, username@),
    {
        match self.index_of(username) {
            Some(i) => Some(clone_user(&self.users[i])),
            None => None,
        }
    }

    pub fn username_existance(&self, username: &String) -> (r: bool)
        requires
            self.wf(),
        ensures
            r == usr_contains(self@, username@),
    {
        match self.index_of(username) {
            Some(_) => true,
            None => false,
        }
    }

    /// Checks the credentials; on success issues a session token for the
    /// identity.
    pub fn login(
        &self,
        sessions: &mut SessionStore,
        username: &String,
        password: &String,
        now: i64,
    ) -> (r: UserError)
        requires
            self.wf(),
            wf_at(old(sessions)@, now),
            old(sessions)@.len() < SESSION_ID_BOUND,
            0 <= now,
        ensures
            wf_at(final(sessions)@, now),
            match r {
                UserError::UsernameNoExist => !usr_contains(self@, username@) && final(sessions)@
                    == old(sessions)@,
                UserError::PasswordWrong => usr_contains(self@, username@) && digest_of(password@)
                    != usr_at(self@, username@).password@ && final(sessions)@ == old(
                    sessions,
                )@,
                UserError::Success(t) => usr_contains(self@, username@) && digest_of(password@)
                    == usr_at(self@, username@).password@ && exists|id: i64|
                    0 <= id && #[trigger] issue_post(
                        old(sessions)@,
                        final(sessions)@,
                        username@,
                        now,
                        id,
                    ) && t@ == hex_render(id as nat),
                UserError::UsernameExist => false,
            },
    {
        let u = match self.index_of(username) {
            None => {
                return UserError::UsernameNoExist;
            },
            Some(i) => &self.users[i],
        };
        let hashed = digest(password.as_str());
        if hashed != u.password {
            return UserError::PasswordWrong;
        }
        UserError::Success(sessions.get_session_id(username, now))
    }

    /// Registers an identity: a default account named for savings is created
    /// for it, the credential digest is stored, and a session is issued.
    pub fn signup(
        &mut self,
        accounts: &mut AccountStore,
        sessions: &mut SessionStore,
        username: String,
        password: &String,
        now: i64,
    ) -> (r: UserError)
        requires
            old(self).wf(),
            old(accounts).wf(),
            old(accounts)@.len() < ACCOUNT_ID_BOUND,
            wf_at(old(sessions)@, now),
            old(sessions)@.len() < SESSION_ID_BOUND,
            0 <= now,
        ensures
            final(self).wf(),
            final(accounts).wf(),
            wf_at(final(sessions)@, now),
            match r {
                UserError::UsernameExist => usr_contains(old(self)@, username@) && final(self)@
                    == old(self)@ && final(accounts)@ == old(accounts)@ && final(sessions)@
                    == old(sessions)@,
                UserError::Success(t) => {
                    &&& !usr_contains(old(self)@, username@)
                    &&& final(accounts)@.len() == old(accounts)@.len() + 1
                    &&& final(accounts)@.take(old(accounts)@.len() as int) == old(accounts)@
                    &&& final(accounts)@.last().owner@ == username@
                    &&& final(accounts)@.last().name@ == "savings"@
                    &&& final(accounts)@.last().balance == 0
                    &&& final(self)@.len() == old(self)@.len() + 1
                    &&& final(self)@.take(old(self)@.len() as int) == old(self)@
                    &&& final(self)@.last().username@ == username@
                    &&& final(self)@.last().password@ == digest_of(password@)
                    &&& final(self)@.last().default_account == final(accounts)@.last().id
                    &&& exists|id: i64| 0 <= id && #[trigger] issue_post(
                        old(sessions)@,
                        final(sessions)@,
                        username@,
                        now,
                        id,
                    ) && t@ == hex_render(id as nat)
                },
                _ => false,
            },
    {
        if self.username_existance(&username) {
            return UserError::UsernameExist;
        }
        let a = accounts.create(String::from_str("savings"), username.clone());
        let u = User {
            username: username.clone(),
            password: digest(password.as_str()),
            default_account: a.id,
        };
        proof {
            let post = self@.push(u);
            assert forall|p: int, q: int|
                0 <= p < q < post.len() implies post[p].username@ != post[q].username@ by {
                if q == post.len() - 1 {
                    if post[p].username@ == username@ {
                        assert(usr_contains(old(self)@, username@));
                    }
                }
            }
            assert(self@.push(u).take(self@.len() as int) =~= self@);
        }
        self.users.push(u);
        UserError::Success(sessions.get_session_id(&username, now))
    }
}

pub(crate) proof fn lemma_usr_idx_unique(s: Seq<User>, username: Seq<char>, i: int)
    requires
        usr_names_unique(s),
        0 <= i < s.len(),
        s[i].username@ == username,
    ensures
        usr_idx(s, username) == i,
        usr_contains(s, username),
{
    assert(usr_contains(s, username));
    let w = usr_idx(s, username);
    assert(0 <= w < s.len() && s[w].username@ == username);
}

#[derive(Debug, PartialEq, Eq)]
pub enum UserError {
    Success(String),
    PasswordWrong,
    UsernameNoExist,
    UsernameExist,
}

pub fn clone_user_error(e: &UserError) -> (r: UserError)
    ensures
        r == *e,
{
    match e {
        UserError::Success(s) => UserError::Success(s.clone()),
        UserError::PasswordWrong => UserError::PasswordWrong,
        UserError::UsernameNoExist => UserError::UsernameNoExist,
        UserError::UsernameExist => UserError::UsernameExist,
    }
}

} // verus!
