use vstd::prelude::*;
use crate::utils;

verus! {

/// Inclusive upper bound of the limit id keyspace.
pub const LIMIT_ID_BOUND: i64 = 0x1_0000_0000;

#[derive(Debug, PartialEq, Eq, Clone, Copy)]
pub struct Limit {
    pub id: i64,
    pub account: i64,
    pub usage: u64,
    pub cap: u64,
    pub duration: i64,
    pub last_enforcement: i64,
}

pub open spec fn lim_contains(s: Seq<Limit>, account: i64) -> bool {
    exists|i: int| 0 <= i < s.len() && s[i].account == account
}

pub open spec fn lim_idx(s: Seq<Limit>, account: i64) -> int {
    choose|i: int| 0 <= i < s.len() && s[i].account == account
}

pub open spec fn lim_at(s: Seq<Limit>, account: i64) -> Limit {
    s[lim_idx(s, account)]
}

pub open spec fn lim_accounts_unique(s: Seq<Limit>) -> bool {
    forall|i: int, j: int| 0 <= i < j < s.len() ==> s[i].account != s[j].account
}

pub open spec fn lim_ids_unique(s: Seq<Limit>) -> bool {
    forall|i: int, j: int| 0 <= i < j < s.len() ==> s[i].id != s[j].id
}

/// Would spending `amount` from the account surpass its cap? An account
/// without a limit row is unrestricted.
pub open spec fn lim_would_exceed(s: Seq<Limit>, account: i64, amount: u64) -> bool {
    lim_contains(s, account) && lim_at(s, account).usage + amount > lim_at(s, account).cap
}

/// The once-daily reset of a single row: a limit whose cycle has elapsed gets
/// usage 0 and a cycle start of today; the others stand.
pub open spec fn reset_limit(l: Limit, today: i64) -> Limit {
    if today - l.last_enforcement >= l.duration {
        (Limit { usage: 0, last_enforcement: today, ..l })
    } else {
        l
    }
}

/// The limit table after the daily batch.
pub open spec fn reset_all(s: Seq<Limit>, today: i64) -> Seq<Limit> {
    s.map_values(|l: Limit| reset_limit(l, today))
}

/// The spending-limit table.
pub struct LimitEngine {
    limits: Vec<Limit>,
}

impl View for LimitEngine {
    type V = Seq<Limit>;

    closed spec fn view(&self) -> Seq<Limit> {
        self.limits@
    }
}

impl LimitEngine {
    /// At most one limit per account; ids are unique; cycle starts are
    /// non-negative epoch days.
    pub open spec fn wf(&self) -> bool {
        &&& lim_accounts_unique(self@)
        &&& lim_ids_unique(self@)
        &&& forall|i: int| 0 <= i < self@.len() ==> 0 <= self@[i].last_enforcement
    }

    pub open spec fn contains_account(&self, account: i64) -> bool {
        lim_contains(self@, account)
    }

    pub open spec fn limit_at(&self, account: i64) -> Limit {
        lim_at(self@, account)
    }

    pub fn new() -> (r: LimitEngine)
        ensures
            r@ =~= Seq::<Limit>::empty(),
            r.wf(),
    {
        LimitEngine { limits: Vec::new() }
    }

    /// How many rows the table holds.
    pub fn len(&self) -> (r: usize)
        ensures
            r == self@.len(),
    {
        self.limits.len()
    }

    /// An image of the persisted limit table. Rows are rejected on a
    /// duplicated account or id, or a negative cycle start.
    pub fn load(rows: Vec<Limit>) -> (r: Option<LimitEngine>)
        ensures
            r matches Some(e) ==> e@ == rows@ && e.wf(),
            r is None <==> !(lim_accounts_unique(rows@) && lim_ids_unique(rows@)
                && (forall|i: int| 0 <= i < rows@.len() ==> 0 <= rows@[i].last_enforcement)),
    {
        let n = rows.len();
        let mut i: usize = 0;
        while i < n
            invariant
                0 <= i <= n == rows@.len(),
                forall|p: int, q: int| 0 <= p < q < rows@.len() && p < i
                    ==> rows@[p].account != rows@[q].account && rows@[p].id != rows@[q].id,
                forall|p: int| 0 <= p < i ==> 0 <= rows@[p].last_enforcement,
            decreases n - i,
        {
            if rows[i].last_enforcement < 0 {
                return None;
            }
            let mut j: usize = i + 1;
            while j < n
                invariant
                    i < j <= n == rows@.len(),
                    forall|q: int| i < q < j ==> rows@[i as int].account != rows@[q].account
                        && rows@[i as int].id != rows@[q].id,
                decreases n - j,
            {
                if rows[i].account == rows[j].account || rows[i].id == rows[j].id {
                    return None;
                }
                j = j + 1;
            }
            i = i + 1;
        }
        Some(LimitEngine { limits: rows })
    }

    fn index_of(&self, account: i64) -> (r: Option<usize>)
        requires
            self.wf(),
        ensures
            r is Some <==> self.contains_account(account),
            r matches Some(i) ==> i < self@.len() && self@[i as int].account == account
                && i as int == lim_idx(self@, account),
    {
        let n = self.limits.len();
        let mut i: usize = 0;
        while i < n
            invariant
                0 <= i <= n == self@.len(),
                forall|j: int| 0 <= j < i ==> self@[j].account != account,
                self.wf(),
            decreases n - i,
        {
            if self.limits[i].account == account {
                proof {
                    lemma_lim_idx_unique(self@, account, i as int);
                }
                return Some(i);
            }
            i = i + 1;
        }
        None
    }

    pub fn fetch(&self, account: i64) -> (r: Option<Limit>)
        requires
            self.wf(),
        ensures
            r is Some <==> self.contains_account(account),
            r matches Some(l) ==> l == self.limit_at(account),
    {
        match self.index_of(account) {
            Some(i) => Some(self.limits[i]),
            None => None,
        }
    }

    /// Would spending `amount` from the account surpass its cap?
    pub fn check_limits(&self, account: i64, amount: u64) -> (r: bool)
        requires
            self.wf(),
        ensures
            r == lim_would_exceed(self@, account, amount),
    {
        match self.fetch(account) {
            Some(l) => {
                if l.usage > l.cap {
                    true
                } else {
                    amount > l.cap - l.usage
                }
            },
            None => false,
        }
    }

    pub fn create(&mut self, account: i64, cap: u64, duration: i64, today: i64) -> (r: Result<
        Limit,
        LimitError,
    >)
        requires
            old(self).wf(),
            0 <= today,
            old(self)@.len() < LIMIT_ID_BOUND,
        ensures
            final(self).wf(),
            r is Err <==> lim_contains(old(self)@, account),
            r matches Err(e) ==> e == LimitError::LimitAlreadyExists && final(self)@ == old(
                self,
            )@,
            r matches Ok(l) ==> final(self)@ == old(self)@.push(l) && l.account == account
                && l.usage == 0 && l.cap == cap && l.duration == duration && l.last_enforcement
                == today,
    {
        match self.index_of(account) {
            Some(_) => Err(LimitError::LimitAlreadyExists),
            None => {
                let id = self.generate_id();
                let l = Limit { id, account, usage: 0, cap, duration, last_enforcement: today };
                proof {
                    assert(self@.push(l).drop_last() =~= self@);
                }
                self.limits.push(l);
                Ok(l)
            },
        }
    }

    /// A fresh id that no existing limit row holds.
    fn generate_id(&self) -> (r: i64)
        requires
            self@.len() <= LIMIT_ID_BOUND,
        ensures
            0 <= r <= LIMIT_ID_BOUND,
            forall|i: int| 0 <= i < self@.len() ==> self@[i].id != r,
    {
        let n = self.limits.len();
        let mut ids: Vec<i64> = Vec::new();
        let mut i: usize = 0;
        while i < n
            invariant
                0 <= i <= n == self@.len(),
                ids@.len() == i,
                forall|j: int| 0 <= j < i ==> ids@[j] == self@[j].id,
            decreases n - i,
        {
            ids.push(self.limits[i].id);
            i = i + 1;
        }
        let r = utils::fresh_id(&ids, LIMIT_ID_BOUND);
        proof {
            assert forall|w: int| 0 <= w < self@.len() implies self@[w].id != r by {
                assert(ids@[w] == self@[w].id);
                if self@[w].id == r {
                    assert(ids@.contains(r));
                }
            }
        }
        r
    }

    pub fn delete(&mut self, account: i64) -> (r: Option<LimitError>)
        requires
            old(self).wf(),
        ensures
            final(self).wf(),
            r is None <==> lim_contains(old(self)@, account),
            r matches Some(e) ==> e == LimitError::LimitDoesntExist && final(self)@ == old(
                self,
            )@,
            r is None ==> final(self)@ == old(self)@.remove(lim_idx(old(self)@, account)),
    {
        match self.index_of(account) {
            None => Some(LimitError::LimitDoesntExist),
            Some(i) => {
                proof {
                    lemma_lim_unique_after_remove(self@, i as int);
                }
                self.limits.remove(i);
                None
            },
        }
    }

    pub fn edit(&mut self, account: i64, cap: u64, duration: i64) -> (r: Option<LimitError>)
        requires
            old(self).wf(),
        ensures
            final(self).wf(),
            r is None <==> lim_contains(old(self)@, account),
            r matches Some(e) ==> e == LimitError::LimitDoesntExist && final(self)@ == old(
                self,
            )@,
            r is None ==> final(self)@ == old(self)@.update(
                lim_idx(old(self)@, account),
                (Limit { cap, duration, ..lim_at(old(self)@, account) }),
            ),
    {
        match self.index_of(account) {
            None => Some(LimitError::LimitDoesntExist),
            Some(i) => {
                let l = self.limits[i];
                self.limits.set(i, Limit { cap, duration, ..l });
                None
            },
        }
    }

    /// Adds a successful transfer's amount to the account's usage; reachable
    /// only from within this crate, after a debit has succeeded.
    pub(crate) fn record_usage(&mut self, account: i64, amount: u64)
        requires
            old(self).wf(),
            lim_contains(old(self)@, account),
            lim_at(old(self)@, account).usage + amount <= u64::MAX,
        ensures
            final(self).wf(),
            final(self)@ == old(self)@.update(
                lim_idx(old(self)@, account),
                (Limit {
                    usage: (lim_at(old(self)@, account).usage + amount) as u64,
                    ..lim_at(old(self)@, account)
                }),
            ),
    {
        match self.index_of(account) {
            None => {
                proof {
                    assert(false);
                }
            },
            Some(i) => {
                let l = self.limits[i];
                self.limits.set(i, Limit { usage: l.usage + amount, ..l });
            },
        }
    }

    /// The daily batch: every limit whose cycle has elapsed is reset to usage
    /// 0 with its cycle start advanced to today.
    pub fn increment_limits(&mut self, today: i64)
        requires
            old(self).wf(),
            0 <= today,
        ensures
            final(self).wf(),
            final(self)@ == reset_all(old(self)@, today),
            final(self)@.len() == old(self)@.len(),
            forall|i: int| 0 <= i < old(self)@.len() ==> final(self)@[i] == reset_limit(
                old(self)@[i],
                today,
            ),
    {
        let n = self.limits.len();
        let mut i: usize = 0;
        while i < n
            invariant
                0 <= i <= n == self@.len() == old(self)@.len(),
                0 <= today,
                old(self).wf(),
                forall|j: int| 0 <= j < i ==> self@[j] == reset_limit(old(self)@[j], today),
                forall|j: int| i <= j < n ==> self@[j] == old(self)@[j],
            decreases n - i,
        {
            let l = self.limits[i];
            if today - l.last_enforcement >= l.duration {
                self.limits.set(i, Limit { usage: 0, last_enforcement: today, ..l });
            }
            i = i + 1;
        }
        proof {
            lemma_reset_preserves_wf(old(self)@, self@, today);
            assert(self@ =~= reset_all(old(self)@, today));
        }
    }
}

pub(crate) proof fn lemma_lim_idx_unique(s: Seq<Limit>, account: i64, i: int)
    requires
        lim_accounts_unique(s),
        0 <= i < s.len(),
        s[i].account == account,
    ensures
        lim_idx(s, account) == i,
        lim_contains(s, account),
{
    assert(lim_contains(s, account));
    let w = lim_idx(s, account);
    assert(0 <= w < s.len() && s[w].account == account);
}

pub(crate) proof fn lemma_lim_unique_after_remove(s: Seq<Limit>, i: int)
    requires
        lim_accounts_unique(s),
        lim_ids_unique(s),
        0 <= i < s.len(),
    ensures
        lim_accounts_unique(s.remove(i)),
        lim_ids_unique(s.remove(i)),
{
    let t = s.remove(i);
    assert forall|p: int, q: int| 0 <= p < q < t.len() implies t[p].account != t[q].account
        && t[p].id != t[q].id by {
        let p0 = if p < i { p } else { p + 1 };
        let q0 = if q < i { q } else { q + 1 };
        assert(t[p] == s[p0]);
        assert(t[q] == s[q0]);
    }
}

proof fn lemma_reset_preserves_wf(pre: Seq<Limit>, post: Seq<Limit>, today: i64)
    requires
        lim_accounts_unique(pre),
        lim_ids_unique(pre),
        forall|i: int| 0 <= i < pre.len() ==> 0 <= pre[i].last_enforcement,
        0 <= today,
        post.len() == pre.len(),
        forall|i: int| 0 <= i < pre.len() ==> post[i] == reset_limit(pre[i], today),
    ensures
        lim_accounts_unique(post),
        lim_ids_unique(post),
        forall|i: int| 0 <= i < post.len() ==> 0 <= post[i].last_enforcement,
{
    assert forall|i: int| 0 <= i < post.len() implies post[i].account == pre[i].account
        && post[i].id == pre[i].id && 0 <= post[i].last_enforcement by {
        assert(post[i] == reset_limit(pre[i], today));
    }
}

#[derive(Debug, PartialEq, Eq, Clone, Copy)]
pub enum LimitError {
    LimitAlreadyExists,
    LimitDoesntExist,
    SurpassedLimit,
    WillSurpassLimit,
}

/// The limit-creation request: only the account's owner may set its limit,
/// and an account carries at most one.
pub fn create(
    engine: &mut LimitEngine,
    accounts: &crate::account::AccountStore,
    session_user: &String,
    account: i64,
    cap: u64,
    duration: i64,
    today: i64,
) -> (r: Result<Limit, crate::plutus_error::Outcome>)
    requires
        old(engine).wf(),
        accounts.wf(),
        0 <= today,
        old(engine)@.len() < LIMIT_ID_BOUND,
    ensures
        final(engine).wf(),
        !crate::account::spec_is_owner(accounts@, account, session_user@) ==> r == Err::<
            Limit,
            crate::plutus_error::Outcome,
        >(crate::plutus_error::Outcome::Account(crate::account::AccountError::NoPermission))
            && final(engine)@ == old(engine)@,
        crate::account::spec_is_owner(accounts@, account, session_user@) && lim_contains(
            old(engine)@,
            account,
        ) ==> r == Err::<Limit, crate::plutus_error::Outcome>(
            crate::plutus_error::Outcome::Limit(LimitError::LimitAlreadyExists),
        ) && final(engine)@ == old(engine)@,
        crate::account::spec_is_owner(accounts@, account, session_user@) && !lim_contains(
            old(engine)@,
            account,
        ) ==> (r matches Ok(l) && final(engine)@ == old(engine)@.push(l) && l.account == account
            && l.usage == 0 && l.cap == cap && l.duration == duration && l.last_enforcement
            == today),
{
    if !accounts.is_owner(account, session_user) {
        return Err(
            crate::plutus_error::Outcome::Account(crate::account::AccountError::NoPermission),
        );
    }
    match engine.create(account, cap, duration, today) {
        Ok(l) => Ok(l),
        Err(e) => Err(crate::plutus_error::Outcome::Limit(e)),
    }
}

/// The limit-deletion request: only the account's owner may drop its limit.
pub fn delete(
    engine: &mut LimitEngine,
    accounts: &crate::account::AccountStore,
    session_user: &String,
    account: i64,
) -> (r: crate::plutus_error::Outcome)
    requires
        old(engine).wf(),
        accounts.wf(),
    ensures
        final(engine).wf(),
        !crate::account::spec_is_owner(accounts@, account, session_user@) ==> r
            == crate::plutus_error::Outcome::Account(crate::account::AccountError::NoPermission)
            && final(engine)@ == old(engine)@,
        crate::account::spec_is_owner(accounts@, account, session_user@) && !lim_contains(
            old(engine)@,
            account,
        ) ==> r == crate::plutus_error::Outcome::Limit(LimitError::LimitDoesntExist) && final(engine)@ == old(engine)@,
        crate::account::spec_is_owner(accounts@, account, session_user@) && lim_contains(
            old(engine)@,
            account,
        ) ==> r == crate::plutus_error::Outcome::Success && final(engine)@ == old(
            engine,
        )@.remove(lim_idx(old(engine)@, account)),
{
    if !accounts.is_owner(account, session_user) {
        return crate::plutus_error::Outcome::Account(crate::account::AccountError::NoPermission);
    }
    match engine.delete(account) {
        Some(e) => crate::plutus_error::Outcome::Limit(e),
        None => crate::plutus_error::Outcome::Success,
    }
}

/// The limit-edit request: only the account's owner may change its cap or
/// cycle.
pub fn edit(
    engine: &mut LimitEngine,
    accounts: &crate::account::AccountStore,
    session_user: &String,
    account: i64,
    cap: u64,
    duration: i64,
) -> (r: crate::plutus_error::Outcome)
    requires
        old(engine).wf(),
        accounts.wf(),
    ensures
        final(engine).wf(),
        !crate::account::spec_is_owner(accounts@, account, session_user@) ==> r
            == crate::plutus_error::Outcome::Account(crate::account::AccountError::NoPermission)
            && final(engine)@ == old(engine)@,
        crate::account::spec_is_owner(accounts@, account, session_user@) && !lim_contains(
            old(engine)@,
            account,
        ) ==> r == crate::plutus_error::Outcome::Limit(LimitError::LimitDoesntExist) && final(engine)@ == old(engine)@,
        crate::account::spec_is_owner(accounts@, account, session_user@) && lim_contains(
            old(engine)@,
            account,
        ) ==> r == crate::plutus_error::Outcome::Success && final(engine)@ == old(
            engine,
        )@.update(
            lim_idx(old(engine)@, account),
            (Limit { cap, duration, ..lim_at(old(engine)@, account) }),
        ),
{
    if !accounts.is_owner(account, session_user) {
        return crate::plutus_error::Outcome::Account(crate::account::AccountError::NoPermission);
    }
    match engine.edit(account, cap, duration) {
        Some(e) => crate::plutus_error::Outcome::Limit(e),
        None => crate::plutus_error::Outcome::Success,
    }
}

} // verus!
