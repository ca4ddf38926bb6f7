use vstd::prelude::*;
use vstd::string::StrSliceExecFns;
use vstd::string::StringExecFns;
use crate::utils;

verus! {

/// A session dies after 24 hours without activity.
pub const SESSION_EXPIRY: i64 = 3600 * 24;

/// Inclusive upper bound of the session id keyspace: fifteen hex digits,
/// wider than the account keyspace since the token is a bearer credential.
pub const SESSION_ID_BOUND: i64 = 0x1000_0000_0000_0000;

#[derive(Debug, PartialEq, Eq, Clone)]
pub struct Session {
    pub id: i64,
    pub user: String,
    pub last_used: i64,
}

pub fn clone_session(s: &Session) -> (r: Session)
    ensures
        r == *s,
{
    Session { id: s.id, user: s.user.clone(), last_used: s.last_used }
}

// ---------------------------------------------------------------------------
// The hex rendering of a session id, and its inverse.
// ---------------------------------------------------------------------------

pub open spec fn hex_digit_val(c: char) -> int {
    let v = c as int;
    if 48 <= v && v <= 57 {
        v - 48
    } else if 97 <= v && v <= 102 {
        v - 97 + 10
    } else if 65 <= v && v <= 70 {
        v - 65 + 10
    } else {
        -1
    }
}

pub open spec fn is_hex_digit(c: char) -> bool {
    hex_digit_val(c) >= 0
}

pub open spec fn all_hex(s: Seq<char>) -> bool {
    forall|i: int| 0 <= i < s.len() ==> is_hex_digit(#[trigger] s[i])
}

/// The value of a hex digit string, folded from the left.
pub open spec fn hex_value(s: Seq<char>) -> int
    decreases s.len(),
{
    if s.len() == 0 {
        0
    } else {
        hex_value(s.drop_last()) * 16 + hex_digit_val(s.last())
    }
}

/// The token text with every '-' group separator removed.
pub open spec fn strip_dashes(s: Seq<char>) -> Seq<char>
    decreases s.len(),
{
    if s.len() == 0 {
        Seq::empty()
    } else {
        let rest = strip_dashes(s.drop_last());
        if s.last() == '-' {
            rest
        } else {
            rest.push(s.last())
        }
    }
}

pub open spec fn strip_plus(s: Seq<char>) -> Seq<char> {
    if s.len() > 0 && s[0] == '+' {
        s.drop_first()
    } else {
        s
    }
}

/// What a session token decodes to: dashes are dropped, one leading '+' sign
/// is allowed, and the remaining text must be hex digits whose value fits the
/// id type; anything else is malformed.
pub open spec fn parse_session_id(s: Seq<char>) -> Option<i64> {
    let t = strip_plus(strip_dashes(s));
    if t.len() == 0 || !all_hex(t) || hex_value(t) > i64::MAX {
        None
    } else {
        Some(hex_value(t) as i64)
    }
}

pub open spec fn hex_digit_char(d: int) -> char {
    if d == 0 { '0' }
    else if d == 1 { '1' }
    else if d == 2 { '2' }
    else if d == 3 { '3' }
    else if d == 4 { '4' }
    else if d == 5 { '5' }
    else if d == 6 { '6' }
    else if d == 7 { '7' }
    else if d == 8 { '8' }
    else if d == 9 { '9' }
    else if d == 10 { 'a' }
    else if d == 11 { 'b' }
    else if d == 12 { 'c' }
    else if d == 13 { 'd' }
    else if d == 14 { 'e' }
    else { 'f' }
}

/// The lowercase hex rendering of a non-negative number, without leading
/// zeros.
pub open spec fn hex_render(n: nat) -> Seq<char>
    decreases n,
{
    if n < 16 {
        seq![hex_digit_char(n as int)]
    } else {
        hex_render(n / 16).push(hex_digit_char((n % 16) as int))
    }
}

fn hex_digit_literal(d: i64) -> (r: &'static str)
    requires
        0 <= d < 16,
    ensures
        r@ =~= seq![hex_digit_char(d as int)],
{
    proof {
        reveal_strlit("0");
        reveal_strlit("1");
        reveal_strlit("2");
        reveal_strlit("3");
        reveal_strlit("4");
        reveal_strlit("5");
        reveal_strlit("6");
        reveal_strlit("7");
        reveal_strlit("8");
        reveal_strlit("9");
        reveal_strlit("a");
        reveal_strlit("b");
        reveal_strlit("c");
        reveal_strlit("d");
        reveal_strlit("e");
        reveal_strlit("f");
    }
    match d {
        0 => "0",
        1 => "1",
        2 => "2",
        3 => "3",
        4 => "4",
        5 => "5",
        6 => "6",
        7 => "7",
        8 => "8",
        9 => "9",
        10 => "a",
        11 => "b",
        12 => "c",
        13 => "d",
        14 => "e",
        _ => "f",
    }
}

/// Renders a session id the way the token is handed out: lowercase hex.
pub fn to_hex_string(n: i64) -> (r: String)
    requires
        0 <= n,
    ensures
        r@ == hex_render(n as nat),
    decreases n,
{
    if n < 16 {
        hex_digit_literal(n).to_owned()
    } else {
        let mut s = to_hex_string(n / 16);
        s.append(hex_digit_literal(n % 16));
        s
    }
}

/// Every character the renderer emits is a hex digit that decodes back to
/// the digit it stands for.
proof fn lemma_hex_digit_char_val(d: int)
    requires
        0 <= d < 16,
    ensures
        hex_digit_val(hex_digit_char(d)) == d,
        hex_digit_char(d) != '-',
        hex_digit_char(d) != '+',
{
}

proof fn lemma_hex_render_all_hex(n: nat)
    ensures
        hex_render(n).len() >= 1,
        all_hex(hex_render(n)),
        forall|i: int| 0 <= i < hex_render(n).len() ==> #[trigger] hex_render(n)[i] != '-'
            && hex_render(n)[i] != '+',
    decreases n,
{
    if n < 16 {
        lemma_hex_digit_char_val(n as int);
    } else {
        lemma_hex_render_all_hex(n / 16);
        lemma_hex_digit_char_val((n % 16) as int);
        assert(hex_render(n).drop_last() =~= hex_render(n / 16));
    }
}

proof fn lemma_hex_render_value(n: nat)
    ensures
        hex_value(hex_render(n)) == n,
    decreases n,
{
    if n < 16 {
        lemma_hex_digit_char_val(n as int);
        let t = hex_render(n);
        assert(t.len() == 1);
        assert(t.last() == hex_digit_char(n as int));
        assert(t.drop_last() =~= Seq::<char>::empty());
        assert(hex_value(t.drop_last()) == 0);
        assert(hex_value(t) == hex_value(t.drop_last()) * 16 + hex_digit_val(t.last()));
    } else {
        lemma_hex_render_value(n / 16);
        lemma_hex_digit_char_val((n % 16) as int);
        let t = hex_render(n);
        assert(t == hex_render(n / 16).push(hex_digit_char((n % 16) as int)));
        assert(t.drop_last() =~= hex_render(n / 16));
        assert(t.last() == hex_digit_char((n % 16) as int));
        assert(hex_value(t) == hex_value(t.drop_last()) * 16 + hex_digit_val(t.last()));
        assert(n == 16 * (n / 16) + n % 16);
    }
}

proof fn lemma_strip_dashes_id(s: Seq<char>)
    requires
        forall|i: int| 0 <= i < s.len() ==> #[trigger] s[i] != '-',
    ensures
        strip_dashes(s) =~= s,
    decreases s.len(),
{
    if s.len() > 0 {
        lemma_strip_dashes_id(s.drop_last());
    }
}

/// The codec round trip: a rendered token decodes to the id it was rendered
/// from. In particular the rendering is injective, so distinct session ids
/// give distinct tokens.
pub proof fn lemma_hex_round_trip(n: nat)
    requires
        n <= i64::MAX,
    ensures
        parse_session_id(hex_render(n)) == Some(n as i64),
{
    let t = hex_render(n);
    lemma_hex_render_all_hex(n);
    lemma_strip_dashes_id(t);
    assert(strip_dashes(t) == t);
    assert(t[0] != '+');
    assert(strip_plus(t) == t);
    lemma_hex_render_value(n);
}

// ---------------------------------------------------------------------------
// Parsing a raw token.
// ---------------------------------------------------------------------------

/// All prefixes of an all-hex string have values no greater than the whole,
/// and never negative.
proof fn lemma_hex_value_prefix(t: Seq<char>, k: int)
    requires
        all_hex(t),
        0 <= k <= t.len(),
    ensures
        0 <= hex_value(t.take(k)) <= hex_value(t),
    decreases t.len() - k,
{
    if k == t.len() {
        assert(t.take(k) =~= t);
        lemma_hex_value_nonneg(t);
    } else {
        assert(t.take(k + 1).drop_last() =~= t.take(k));
        assert(t.take(k + 1).last() == t[k]);
        lemma_hex_value_prefix(t, k + 1);
    }
}

proof fn lemma_hex_value_nonneg(t: Seq<char>)
    requires
        all_hex(t),
    ensures
        0 <= hex_value(t),
    decreases t.len(),
{
    if t.len() > 0 {
        assert(all_hex(t.drop_last())) by {
            assert(forall|i: int| 0 <= i < t.len() - 1 ==> t.drop_last()[i] == t[i]);
        }
        lemma_hex_value_nonneg(t.drop_last());
        assert(is_hex_digit(t.last()));
    }
}

/// The json payload that carries a session token.
pub struct RawSessionID {
    pub id: String,
}

impl RawSessionID {
    /// Decodes the token: dashes dropped, hex digits folded into the id.
    /// Malformed text, including a value too wide for the id type, is
    /// rejected as invalid.
    pub fn to_int(self) -> (r: Result<i64, SessionError>)
        ensures
            r matches Ok(v) ==> parse_session_id(self.id@) == Some(v),
            r matches Err(e) ==> parse_session_id(self.id@) is None && e
                == SessionError::SessionIDInvalid,
    {
        let s = self.id.as_str();
        let n = s.unicode_len();

        let mut kept: Vec<char> = Vec::new();
        let mut i: usize = 0;
        while i < n
            invariant
                0 <= i <= n == s@.len(),
                kept@ == strip_dashes(s@.take(i as int)),
            decreases n - i,
        {
            proof {
                assert(s@.take(i + 1).drop_last() =~= s@.take(i as int));
                assert(s@.take(i + 1).last() == s@[i as int]);
            }
            let c = s.get_char(i);
            if c != '-' {
                kept.push(c);
            }
            i = i + 1;
        }
        proof {
            assert(s@.take(n as int) =~= s@);
        }
        let ghost stripped = kept@;
        assert(stripped == strip_dashes(self.id@));

        let start: usize = if kept.len() > 0 && kept[0] == '+' {
            1
        } else {
            0
        };
        let ghost t = strip_plus(stripped);
        proof {
            assert(t =~= stripped.subrange(start as int, stripped.len() as int));
        }

        if kept.len() == start {
            assert(t.len() == 0);
            return Err(SessionError::SessionIDInvalid);
        }

        let mut acc: i64 = 0;
        let mut k: usize = start;
        while k < kept.len()
            invariant
                start <= k <= kept@.len(),
                t == kept@.subrange(start as int, kept@.len() as int),
                t == strip_plus(strip_dashes(self.id@)),
                all_hex(t.take(k - start)),
                acc == hex_value(t.take(k - start)),
                0 <= acc,
            decreases kept@.len() - k,
        {
            proof {
                assert(t.take(k - start + 1).drop_last() =~= t.take(k - start));
                assert(t.take(k - start + 1).last() == t[k - start]);
            }
            let c = kept[k];
            proof {
                assert(t[k - start] == kept@[k as int]);
            }
            let v = c as u32;
            proof {
                vstd::utf8::char_u32_cast(c, v);
                assert(c as int == v as int);
            }
            let d: i64 = if v >= 48 && v <= 57 {
                (v - 48) as i64
            } else if v >= 97 && v <= 102 {
                (v - 97) as i64 + 10
            } else if v >= 65 && v <= 70 {
                (v - 65) as i64 + 10
            } else {
                assert(!is_hex_digit(t[k - start]));
                return Err(SessionError::SessionIDInvalid);
            };
            assert(d == hex_digit_val(t[k - start]) && 0 <= d < 16);
            if acc > (i64::MAX - d) / 16 {
                proof {
                    assert(hex_value(t.take(k - start + 1)) > i64::MAX);
                    if all_hex(t) {
                        lemma_hex_value_prefix(t, k - start + 1);
                    }
                }
                return Err(SessionError::SessionIDInvalid);
            }
            acc = acc * 16 + d;
            k = k + 1;
        }
        proof {
            assert(t.take(kept@.len() - start) =~= t);
        }
        Ok(acc)
    }
}

// ---------------------------------------------------------------------------
// The session table.
// ---------------------------------------------------------------------------

pub open spec fn ses_contains(s: Seq<Session>, id: i64) -> bool {
    exists|i: int| 0 <= i < s.len() && s[i].id == id
}

pub open spec fn ses_idx(s: Seq<Session>, id: i64) -> int {
    choose|i: int| 0 <= i < s.len() && s[i].id == id
}

pub open spec fn ses_at(s: Seq<Session>, id: i64) -> Session {
    s[ses_idx(s, id)]
}

pub open spec fn ses_ids_unique(s: Seq<Session>) -> bool {
    forall|i: int, j: int| 0 <= i < j < s.len() ==> s[i].id != s[j].id
}

/// A session is alive while no more than the expiry window has passed since
/// it was last used.
pub open spec fn alive(s: Session, now: i64) -> bool {
    now - s.last_used <= SESSION_EXPIRY
}

pub open spec fn user_has_alive(s: Seq<Session>, user: Seq<char>, now: i64) -> bool {
    exists|i: int| 0 <= i < s.len() && s[i].user@ == user && alive(s[i], now)
}

pub open spec fn alive_user_idx(s: Seq<Session>, user: Seq<char>, now: i64) -> int {
    choose|i: int| 0 <= i < s.len() && s[i].user@ == user && alive(s[i], now)
}

/// Well-formed at the given instant: ids unique and in the keyspace,
/// no session used in the future, and at most one live session per identity.
pub open spec fn wf_at(s: Seq<Session>, now: i64) -> bool {
    &&& ses_ids_unique(s)
    &&& forall|i: int| 0 <= i < s.len() ==> 0 <= #[trigger] s[i].last_used <= now
    &&& forall|i: int| 0 <= i < s.len() ==> 0 <= #[trigger] s[i].id <= SESSION_ID_BOUND
    &&& forall|i: int, j: int| 0 <= i < j < s.len() && s[i].user@ == s[j].user@
        ==> !(alive(s[i], now) && alive(s[j], now))
}

/// Aliveness only fades: a table well-formed now is well-formed at any later
/// instant.
pub proof fn lemma_wf_at_later(s: Seq<Session>, now1: i64, now2: i64)
    requires
        wf_at(s, now1),
        now1 <= now2,
    ensures
        wf_at(s, now2),
{
    assert forall|i: int, j: int|
        0 <= i < j < s.len() && s[i].user@ == s[j].user@ implies !(alive(s[i], now2) && alive(
        s[j],
        now2,
    )) by {
        if alive(s[i], now2) && alive(s[j], now2) {
            assert(alive(s[i], now1) && alive(s[j], now1));
        }
    }
}

/// The effect of issuing a token for an identity: a live session is reused,
/// only its last-used instant moving to now; otherwise a fresh id from the
/// session keyspace is persisted with last-used now.
pub open spec fn issue_post(
    pre: Seq<Session>,
    post: Seq<Session>,
    user: Seq<char>,
    now: i64,
    id: i64,
) -> bool {
    if user_has_alive(pre, user, now) {
        let i = alive_user_idx(pre, user, now);
        &&& id == pre[i].id
        &&& post == pre.update(i, (Session { last_used: now, ..pre[i] }))
    } else {
        &&& post.len() == pre.len() + 1
        &&& post.take(pre.len() as int) == pre
        &&& post.last().id == id
        &&& post.last().user@ == user
        &&& post.last().last_used == now
        &&& !ses_contains(pre, id)
        &&& 0 <= id <= SESSION_ID_BOUND
    }
}

/// The session table.
pub struct SessionStore {
    sessions: Vec<Session>,
}

impl View for SessionStore {
    type V = Seq<Session>;

    closed spec fn view(&self) -> Seq<Session> {
        self.sessions@
    }
}

impl SessionStore {
    pub fn new() -> (r: SessionStore)
        ensures
            r@ =~= Seq::<Session>::empty(),
    {
        SessionStore { sessions: Vec::new() }
    }

    /// How many rows the table holds.
    pub fn len(&self) -> (r: usize)
        ensures
            r == self@.len(),
    {
        self.sessions.len()
    }

    /// An image of the persisted session table, held to the invariant at the
    /// given instant.
    pub fn load(rows: Vec<Session>, now: i64) -> (r: Option<SessionStore>)
        ensures
            r matches Some(s) ==> s@ == rows@ && wf_at(s@, now),
            r is None <==> !wf_at(rows@, now),
    {
        let n = rows.len();
        let mut i: usize = 0;
        while i < n
            invariant
                0 <= i <= n == rows@.len(),
                forall|p: int| 0 <= p < i ==> 0 <= #[trigger] rows@[p].last_used <= now,
                forall|p: int| 0 <= p < i ==> 0 <= #[trigger] rows@[p].id <= SESSION_ID_BOUND,
            decreases n - i,
        {
            if rows[i].last_used < 0 || rows[i].last_used > now || rows[i].id < 0
                || rows[i].id > SESSION_ID_BOUND {
                return None;
            }
            i = i + 1;
        }
        i = 0;
        while i < n
            invariant
                0 <= i <= n == rows@.len(),
                forall|p: int| 0 <= p < n ==> 0 <= #[trigger] rows@[p].last_used <= now,
                forall|p: int| 0 <= p < n ==> 0 <= #[trigger] rows@[p].id <= SESSION_ID_BOUND,
                forall|p: int, q: int| 0 <= p < q < rows@.len() && p < i ==> rows@[p].id
                    != rows@[q].id,
                forall|p: int, q: int| 0 <= p < q < rows@.len() && p < i
                    && rows@[p].user@ == rows@[q].user@
                    ==> !(alive(rows@[p], now) && alive(rows@[q], now)),
            decreases n - i,
        {
            let alive_i = now - rows[i].last_used <= SESSION_EXPIRY;
            let mut j: usize = i + 1;
            while j < n
                invariant
                    i < j <= n == rows@.len(),
                    alive_i == alive(rows@[i as int], now),
                    forall|p: int| 0 <= p < n ==> 0 <= #[trigger] rows@[p].last_used <= now,
                    forall|q: int| i < q < j ==> rows@[i as int].id != rows@[q].id,
                    forall|q: int| i < q < j && rows@[i as int].user@ == rows@[q].user@
                        ==> !(alive(rows@[i as int], now) && alive(rows@[q], now)),
                decreases n - j,
            {
                if rows[i].id == rows[j].id {
                    return None;
                }
                if alive_i && rows[i].user == rows[j].user
                    && now - rows[j].last_used <= SESSION_EXPIRY {
                    return None;
                }
                j = j + 1;
            }
            i = i + 1;
        }
        Some(SessionStore { sessions: rows })
    }

    fn index_of(&self, id: i64) -> (r: Option<usize>)
        requires
            ses_ids_unique(self@),
        ensures
            r is Some <==> ses_contains(self@, id),
            r matches Some(i) ==> i < self@.len() && self@[i as int].id == id && i as int
                == ses_idx(self@, id),
    {
        let n = self.sessions.len();
        let mut i: usize = 0;
        while i < n
            invariant
                0 <= i <= n == self@.len(),
                forall|j: int| 0 <= j < i ==> self@[j].id != id,
                ses_ids_unique(self@),
            decreases n - i,
        {
            if self.sessions[i].id == id {
                proof {
                    lemma_ses_idx_unique(self@, id, i as int);
                }
                return Some(i);
            }
            i = i + 1;
        }
        None
    }

    /// Looks a session up by id. An alive lookup refreshes the session it
    /// finds, sliding its expiry; a lookup without the alive filter reads
    /// without refreshing.
    pub fn fetch_by_id(&mut self, id: i64, only_alive: bool, now: i64) -> (r: Option<Session>)
        requires
            wf_at(old(self)@, now),
        ensures
            wf_at(final(self)@, now),
            only_alive ==> {
                &&& (r is Some <==> ses_contains(old(self)@, id) && alive(
                    ses_at(old(self)@, id),
                    now,
                ))
                &&& (r matches Some(s) ==> s == (Session {
                    last_used: now,
                    ..ses_at(old(self)@, id)
                }) && final(self)@ == old(self)@.update(ses_idx(old(self)@, id), s))
                &&& (r is None ==> final(self)@ == old(self)@)
            },
            !only_alive ==> {
                &&& final(self)@ == old(self)@
                &&& (r is Some <==> ses_contains(old(self)@, id))
                &&& (r matches Some(s) ==> s == ses_at(old(self)@, id))
            },
    {
        match self.index_of(id) {
            None => None,
            Some(i) => {
                if only_alive {
                    let s = &self.sessions[i];
                    if now - s.last_used <= SESSION_EXPIRY {
                        let refreshed = Session { id: s.id, user: s.user.clone(), last_used: now };
                        let out = clone_session(&refreshed);
                        self.sessions.set(i, refreshed);
                        proof {
                            lemma_refresh_keeps_wf(old(self)@, self@, i as int, now);
                        }
                        Some(out)
                    } else {
                        None
                    }
                } else {
                    Some(clone_session(&self.sessions[i]))
                }
            },
        }
    }

    /// Looks the live session of an identity up, refreshing it.
    pub fn fetch_by_username(&mut self, user: &String, now: i64) -> (r: Option<Session>)
        requires
            wf_at(old(self)@, now),
        ensures
            wf_at(final(self)@, now),
            r is Some <==> user_has_alive(old(self)@, user@, now),
            r matches Some(s) ==> {
                let i = alive_user_idx(old(self)@, user@, now);
                s == (Session { last_used: now, ..old(self)@[i] }) && final(self)@ == old(
                    self,
                )@.update(i, s)
            },
            r is None ==> final(self)@ == old(self)@,
    {
        let n = self.sessions.len();
        let mut i: usize = 0;
        while i < n
            invariant
                0 <= i <= n == self@.len(),
                self@ == old(self)@,
                forall|j: int| 0 <= j < i ==> !(self@[j].user@ == user@ && alive(self@[j], now)),
                wf_at(self@, now),
            decreases n - i,
        {
            let s = &self.sessions[i];
            if s.user == *user && now - s.last_used <= SESSION_EXPIRY {
                proof {
                    lemma_alive_user_idx_unique(self@, user@, now, i as int);
                }
                let refreshed = Session { id: s.id, user: s.user.clone(), last_used: now };
                let out = clone_session(&refreshed);
                self.sessions.set(i, refreshed);
                proof {
                    lemma_refresh_keeps_wf(old(self)@, self@, i as int, now);
                }
                return Some(out);
            }
            i = i + 1;
        }
        None
    }

    /// Persists a fresh session for an identity that has no live one.
    pub fn insert_new(&mut self, id: i64, user: String, now: i64)
        requires
            wf_at(old(self)@, now),
            !ses_contains(old(self)@, id),
            0 <= id <= SESSION_ID_BOUND,
            !user_has_alive(old(self)@, user@, now),
            0 <= now,
        ensures
            wf_at(final(self)@, now),
            final(self)@ == old(self)@.push(
                (Session { id, user: user, last_used: now }),
            ),
    {
        let s = Session { id, user, last_used: now };
        proof {
            let post = self@.push(s);
            assert forall|p: int, q: int|
                0 <= p < q < post.len() && post[p].user@ == post[q].user@ implies !(alive(
                post[p],
                now,
            ) && alive(post[q], now)) by {
                if q == post.len() - 1 {
                    assert(post[q] == s);
                    if post[p].user@ == s.user@ && alive(post[p], now) {
                        assert(user_has_alive(old(self)@, s.user@, now));
                    }
                }
            }
        }
        self.sessions.push(s);
    }

    /// A fresh id that no session holds, drawn from the wide keyspace.
    fn generate_id(&self) -> (r: i64)
        requires
            self@.len() <= SESSION_ID_BOUND,
        ensures
            0 <= r <= SESSION_ID_BOUND,
            !ses_contains(self@, r),
    {
        let n = self.sessions.len();
        let mut ids: Vec<i64> = Vec::new();
        let mut i: usize = 0;
        while i < n
            invariant
                0 <= i <= n == self@.len(),
                ids@.len() == i,
                forall|j: int| 0 <= j < i ==> ids@[j] == self@[j].id,
            decreases n - i,
        {
            ids.push(self.sessions[i].id);
            i = i + 1;
        }
        let r = utils::fresh_id(&ids, SESSION_ID_BOUND);
        proof {
            if ses_contains(self@, r) {
                let w = choose|w: int| 0 <= w < self@.len() && self@[w].id == r;
                assert(ids@[w] == r);
                assert(ids@.contains(r));
            }
        }
        r
    }

    /// Issues a token for an identity: the live session's id is reused with
    /// its expiry slid, or a fresh unguessable id is persisted. The token is
    /// the id rendered as hex.
    pub fn get_session_id(&mut self, user: &String, now: i64) -> (r: String)
        requires
            wf_at(old(self)@, now),
            old(self)@.len() < SESSION_ID_BOUND,
            0 <= now,
        ensures
            wf_at(final(self)@, now),
            exists|id: i64| 0 <= id && #[trigger] issue_post(old(self)@, final(self)@, user@, now, id)
                && r@ == hex_render(id as nat),
    {
        match self.fetch_by_username(user, now) {
            Some(s) => {
                proof {
                    let i = alive_user_idx(old(self)@, user@, now);
                    assert(issue_post(old(self)@, self@, user@, now, old(self)@[i].id));
                }
                to_hex_string(s.id)
            },
            None => {
                let id = self.generate_id();
                self.insert_new(id, user.clone(), now);
                proof {
                    assert(self@.take(old(self)@.len() as int) =~= old(self)@);
                    assert(issue_post(old(self)@, self@, user@, now, id));
                }
                to_hex_string(id)
            },
        }
    }
}

impl RawSessionID {
    /// Validates a token: malformed text is invalid; an alive session
    /// resolves (and slides its expiry); a session that exists but is stale
    /// is expired, and an id never issued does not exist.
    pub fn into_session(self, store: &mut SessionStore, now: i64) -> (r: Result<
        Session,
        SessionError,
    >)
        requires
            wf_at(old(store)@, now),
        ensures
            wf_at(final(store)@, now),
            r matches Ok(s) ==> {
                &&& parse_session_id(self.id@) == Some(s.id)
                &&& ses_contains(old(store)@, s.id)
                &&& alive(ses_at(old(store)@, s.id), now)
                &&& s == (Session { last_used: now, ..ses_at(old(store)@, s.id) })
                &&& final(store)@ == old(store)@.update(ses_idx(old(store)@, s.id), s)
            },
            r matches Err(e) ==> final(store)@ == old(store)@ && match e {
                SessionError::SessionIDInvalid => parse_session_id(self.id@) is None,
                SessionError::SessionIDExpired => (parse_session_id(self.id@) matches Some(id)
                    && ses_contains(old(store)@, id) && !alive(ses_at(old(store)@, id), now)),
                SessionError::SessionIDNoExist => (parse_session_id(self.id@) matches Some(id)
                    && !ses_contains(old(store)@, id)),
            },
    {
        match self.to_int() {
            Ok(i) => {
                match store.fetch_by_id(i, true, now) {
                    Some(s) => Ok(s),
                    None => {
                        match store.fetch_by_id(i, false, now) {
                            Some(_) => Err(SessionError::SessionIDExpired),
                            None => Err(SessionError::SessionIDNoExist),
                        }
                    },
                }
            },
            Err(e) => Err(e),
        }
    }
}

/// Issuing a token twice for the same identity within the expiry window, with
/// no expiry in between, hands back the same session id both times — and so
/// the same token text.
pub proof fn lemma_issue_reuses_live_token(
    pre: Seq<Session>,
    mid: Seq<Session>,
    post: Seq<Session>,
    user: Seq<char>,
    now1: i64,
    now2: i64,
    id1: i64,
    id2: i64,
)
    requires
        wf_at(pre, now1),
        issue_post(pre, mid, user, now1, id1),
        wf_at(mid, now2),
        now1 <= now2,
        now2 - now1 <= SESSION_EXPIRY,
        issue_post(mid, post, user, now2, id2),
    ensures
        id2 == id1,
{
    let k: int = if user_has_alive(pre, user, now1) {
        alive_user_idx(pre, user, now1)
    } else {
        mid.len() - 1
    };
    assert(0 <= k < mid.len() && mid[k].id == id1 && mid[k].user@ == user && mid[k].last_used
        == now1);
    assert(alive(mid[k], now2));
    assert(user_has_alive(mid, user, now2));
    let j = alive_user_idx(mid, user, now2);
    assert(0 <= j < mid.len() && mid[j].user@ == user && alive(mid[j], now2));
    if j != k {
        assert(!(alive(mid[j], now2) && alive(mid[k], now2)));
    }
}

/// A token issued after the identity's previous session has fully expired is
/// a fresh one: its id differs from the old id, and so does its rendered
/// token text.
pub proof fn lemma_issue_after_expiry_fresh(
    pre: Seq<Session>,
    mid: Seq<Session>,
    post: Seq<Session>,
    user: Seq<char>,
    now1: i64,
    now2: i64,
    id1: i64,
    id2: i64,
)
    requires
        wf_at(pre, now1),
        issue_post(pre, mid, user, now1, id1),
        wf_at(mid, now2),
        now1 <= now2,
        now2 - now1 > SESSION_EXPIRY,
        issue_post(mid, post, user, now2, id2),
    ensures
        id2 != id1,
        hex_render(id1 as nat) != hex_render(id2 as nat),
{
    let k: int = if user_has_alive(pre, user, now1) {
        alive_user_idx(pre, user, now1)
    } else {
        mid.len() - 1
    };
    assert(0 <= k < mid.len() && mid[k].id == id1 && mid[k].user@ == user && mid[k].last_used
        == now1);
    assert(!user_has_alive(mid, user, now2)) by {
        if user_has_alive(mid, user, now2) {
            let w = alive_user_idx(mid, user, now2);
            assert(0 <= w < mid.len() && mid[w].user@ == user && alive(mid[w], now2));
            assert(mid[w].last_used <= now1) by {
                if user_has_alive(pre, user, now1) {
                    let i = alive_user_idx(pre, user, now1);
                    if w != i {
                        assert(mid[w] == pre[w]);
                    }
                } else {
                    if w < pre.len() {
                        assert(mid.take(pre.len() as int)[w] == mid[w]);
                        assert(mid[w] == pre[w]);
                    }
                }
            }
            assert(now2 - mid[w].last_used > SESSION_EXPIRY);
        }
    }
    assert(!ses_contains(mid, id2));
    assert(ses_contains(mid, id1));
    assert(0 <= id1 <= SESSION_ID_BOUND);
    assert(0 <= id2 <= SESSION_ID_BOUND);
    lemma_hex_round_trip(id1 as nat);
    lemma_hex_round_trip(id2 as nat);
}

pub(crate) proof fn lemma_ses_idx_unique(s: Seq<Session>, id: i64, i: int)
    requires
        ses_ids_unique(s),
        0 <= i < s.len(),
        s[i].id == id,
    ensures
        ses_idx(s, id) == i,
        ses_contains(s, id),
{
    assert(ses_contains(s, id));
    let w = ses_idx(s, id);
    assert(0 <= w < s.len() && s[w].id == id);
}

/// With at most one live session per identity, any live index of the
/// identity is the chosen one.
pub(crate) proof fn lemma_alive_user_idx_unique(s: Seq<Session>, user: Seq<char>, now: i64, i: int)
    requires
        wf_at(s, now),
        0 <= i < s.len(),
        s[i].user@ == user,
        alive(s[i], now),
    ensures
        alive_user_idx(s, user, now) == i,
        user_has_alive(s, user, now),
{
    assert(user_has_alive(s, user, now));
    let w = alive_user_idx(s, user, now);
    assert(0 <= w < s.len() && s[w].user@ == user && alive(s[w], now));
}

/// Refreshing one session to the present instant keeps the table
/// well-formed.
proof fn lemma_refresh_keeps_wf(pre: Seq<Session>, post: Seq<Session>, i: int, now: i64)
    requires
        wf_at(pre, now),
        0 <= i < pre.len(),
        alive(pre[i], now),
        0 <= pre[i].last_used,
        post == pre.update(i, (Session { last_used: now, ..pre[i] })),
    ensures
        wf_at(post, now),
{
    assert forall|p: int, q: int|
        0 <= p < q < post.len() && post[p].user@ == post[q].user@ implies !(alive(post[p], now)
        && alive(post[q], now)) by {
        assert(post[p].user@ == pre[p].user@ && post[q].user@ == pre[q].user@);
        if alive(post[p], now) && alive(post[q], now) {
            assert(alive(pre[p], now) && alive(pre[q], now));
        }
    }
}

#[derive(Debug, PartialEq, Eq, Clone, Copy)]
pub enum SessionError {
    SessionIDNoExist,
    SessionIDExpired,
    SessionIDInvalid,
}

} // verus!
