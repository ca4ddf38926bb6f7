use vstd::prelude::*;
use crate::utils;

verus! {

/// Inclusive upper bound of the account id keyspace: eight hex digits.
pub const ACCOUNT_ID_BOUND: i64 = 0x1_0000_0000;

#[derive(Debug, PartialEq, Eq)]
pub struct Account {
    pub id: i64,
    pub name: String,
    pub owner: String,
    pub balance: u64,
}

pub fn clone_account(a: &Account) -> (r: Account)
    ensures
        r == *a,
{
    Account { id: a.id, name: a.name.clone(), owner: a.owner.clone(), balance: a.balance }
}

pub open spec fn acc_contains(s: Seq<Account>, id: i64) -> bool {
    exists|i: int| 0 <= i < s.len() && s[i].id == id
}

pub open spec fn acc_idx(s: Seq<Account>, id: i64) -> int {
    choose|i: int| 0 <= i < s.len() && s[i].id == id
}

pub open spec fn acc_at(s: Seq<Account>, id: i64) -> Account {
    s[acc_idx(s, id)]
}

pub open spec fn acc_ids_unique(s: Seq<Account>) -> bool {
    forall|i: int, j: int| 0 <= i < j < s.len() ==> s[i].id != s[j].id
}

/// The accounts of the table that the given identity owns, in table order.
pub open spec fn owned_accounts(s: Seq<Account>, user: Seq<char>) -> Seq<Account> {
    s.filter(|a: Account| a.owner@ == user)
}

/// The money held across all accounts of the table.
pub open spec fn total_balance(s: Seq<Account>) -> int
    decreases s.len(),
{
    if s.len() == 0 {
        0
    } else {
        total_balance(s.drop_last()) + s.last().balance
    }
}

pub(crate) proof fn lemma_total_balance_nonneg(s: Seq<Account>)
    ensures
        0 <= total_balance(s),
    decreases s.len(),
{
    if s.len() > 0 {
        lemma_total_balance_nonneg(s.drop_last());
    }
}

pub(crate) proof fn lemma_total_balance_at(s: Seq<Account>, i: int)
    requires
        0 <= i < s.len(),
    ensures
        s[i].balance <= total_balance(s),
    decreases s.len(),
{
    if i == s.len() - 1 {
        lemma_total_balance_nonneg(s.drop_last());
    } else {
        lemma_total_balance_at(s.drop_last(), i);
    }
}

pub(crate) proof fn lemma_total_balance_pair(s: Seq<Account>, i: int, j: int)
    requires
        0 <= i < s.len(),
        0 <= j < s.len(),
        i != j,
    ensures
        s[i].balance + s[j].balance <= total_balance(s),
    decreases s.len(),
{
    let lo = if i < j { i } else { j };
    let hi = if i < j { j } else { i };
    if hi == s.len() - 1 {
        lemma_total_balance_at(s.drop_last(), lo);
    } else {
        lemma_total_balance_pair(s.drop_last(), lo, hi);
    }
}

pub(crate) proof fn lemma_total_balance_update(s: Seq<Account>, i: int, a: Account)
    requires
        0 <= i < s.len(),
    ensures
        total_balance(s.update(i, a)) == total_balance(s) - s[i].balance + a.balance,
    decreases s.len(),
{
    let t = s.update(i, a);
    if i == s.len() - 1 {
        assert(t.drop_last() =~= s.drop_last());
    } else {
        assert(t.drop_last() =~= s.drop_last().update(i, a));
        lemma_total_balance_update(s.drop_last(), i, a);
        assert(t.last() == s.last());
    }
}

pub(crate) proof fn lemma_total_balance_remove(s: Seq<Account>, i: int)
    requires
        0 <= i < s.len(),
    ensures
        total_balance(s.remove(i)) == total_balance(s) - s[i].balance,
    decreases s.len(),
{
    if i == s.len() - 1 {
        assert(s.remove(i) =~= s.drop_last());
    } else {
        assert(s.remove(i).drop_last() =~= s.drop_last().remove(i));
        lemma_total_balance_remove(s.drop_last(), i);
        assert(s.remove(i).last() == s.last());
    }
}

/// The account table: the balance ledger.
pub struct AccountStore {
    accounts: Vec<Account>,
}

impl View for AccountStore {
    type V = Seq<Account>;

    closed spec fn view(&self) -> Seq<Account> {
        self.accounts@
    }
}

impl AccountStore {
    /// Ids are unique and the money held across all accounts fits the
    /// balance type, so that a credit can never overflow.
    pub open spec fn wf(&self) -> bool {
        &&& acc_ids_unique(self@)
        &&& total_balance(self@) <= u64::MAX
    }

    pub open spec fn contains_id(&self, id: i64) -> bool {
        acc_contains(self@, id)
    }

    pub open spec fn account_at(&self, id: i64) -> Account {
        acc_at(self@, id)
    }

    pub open spec fn balance_of(&self, id: i64) -> u64 {
        self.account_at(id).balance
    }

    pub fn new() -> (r: AccountStore)
        ensures
            r@ =~= Seq::<Account>::empty(),
            r.wf(),
    {
        AccountStore { accounts: Vec::new() }
    }

    /// How many rows the table holds.
    pub fn len(&self) -> (r: usize)
        ensures
            r == self@.len(),
    {
        self.accounts.len()
    }

    /// An image of the persisted account table. Rows are rejected when ids
    /// collide or the money they hold together does not fit the balance type.
    pub fn load(rows: Vec<Account>) -> (r: Option<AccountStore>)
        ensures
            r matches Some(s) ==> s@ == rows@ && s.wf(),
            r is None <==> !(acc_ids_unique(rows@) && total_balance(rows@) <= u64::MAX),
    {
        let n = rows.len();
        let mut i: usize = 0;
        while i < n
            invariant
                0 <= i <= n == rows@.len(),
                forall|p: int, q: int| 0 <= p < q < rows@.len() && p < i ==> rows@[p].id != rows@[q].id,
            decreases n - i,
        {
            let mut j: usize = i + 1;
            while j < n
                invariant
                    i < j <= n == rows@.len(),
                    forall|q: int| i < q < j ==> rows@[i as int].id != rows@[q].id,
                decreases n - j,
            {
                if rows[i].id == rows[j].id {
                    return None;
                }
                j = j + 1;
            }
            i = i + 1;
        }
        assert(acc_ids_unique(rows@));

        let mut sum: u64 = 0;
        let mut k: usize = 0;
        while k < n
            invariant
                0 <= k <= n == rows@.len(),
                sum == total_balance(rows@.take(k as int)),
                total_balance(rows@.take(k as int)) <= u64::MAX,
            decreases n - k,
        {
            proof {
                assert(rows@.take(k + 1).drop_last() =~= rows@.take(k as int));
                assert(rows@.take(k + 1).last() == rows@[k as int]);
            }
            if rows[k].balance > u64::MAX - sum {
                proof {
                    lemma_total_balance_monotonic(rows@, k + 1);
                }
                return None;
            }
            sum = sum + rows[k].balance;
            k = k + 1;
        }
        assert(rows@.take(n as int) =~= rows@);
        Some(AccountStore { accounts: rows })
    }

    pub fn fetch(&self, id: i64) -> (r: Option<Account>)
        requires
            self.wf(),
        ensures
            r is Some <==> self.contains_id(id),
            r matches Some(a) ==> a == self.account_at(id),
    {
        let n = self.accounts.len();
        let mut i: usize = 0;
        while i < n
            invariant
                0 <= i <= n == self@.len(),
                forall|j: int| 0 <= j < i ==> self@[j].id != id,
                self.wf(),
            decreases n - i,
        {
            if self.accounts[i].id == id {
                proof {
                    assert(self@[i as int].id == id);
                    lemma_acc_idx_unique(self@, id, i as int);
                }
                return Some(clone_account(&self.accounts[i]));
            }
            i = i + 1;
        }
        None
    }

    pub fn fetch_all(&self, user: &String) -> (r: Vec<Account>)
        requires
            self.wf(),
        ensures
            r@ == owned_accounts(self@, user@),
    {
        let n = self.accounts.len();
        let mut out: Vec<Account> = Vec::new();
        proof {
            reveal(Seq::filter);
            assert(self@.take(0) =~= Seq::<Account>::empty());
        }
        let mut i: usize = 0;
        while i < n
            invariant
                0 <= i <= n == self@.len(),
                out@ == owned_accounts(self@.take(i as int), user@),
            decreases n - i,
        {
            proof {
                reveal(Seq::filter);
                assert(self@.take(i + 1).drop_last() =~= self@.take(i as int));
                assert(self@.take(i + 1).last() == self@[i as int]);
                assert(self@[i as int].owner@ == user@ ==> owned_accounts(self@.take(i + 1), user@)
                    == owned_accounts(self@.take(i as int), user@).push(self@[i as int]));
                assert(self@[i as int].owner@ != user@ ==> owned_accounts(self@.take(i + 1), user@)
                    == owned_accounts(self@.take(i as int), user@));
            }
            if self.accounts[i].owner == *user {
                out.push(clone_account(&self.accounts[i]));
            }
            i = i + 1;
        }
        proof {
            assert(self@.take(n as int) =~= self@);
        }
        out
    }

    /// A fresh uniform id from the account keyspace; the collision check runs
    /// against every existing account id.
    pub fn generate_id(&self) -> (r: i64)
        requires
            self@.len() <= ACCOUNT_ID_BOUND,
        ensures
            0 <= r <= ACCOUNT_ID_BOUND,
            !self.contains_id(r),
    {
        let n = self.accounts.len();
        let mut ids: Vec<i64> = Vec::new();
        let mut i: usize = 0;
        while i < n
            invariant
                0 <= i <= n == self@.len(),
                ids@.len() == i,
                forall|j: int| 0 <= j < i ==> ids@[j] == self@[j].id,
            decreases n - i,
        {
            ids.push(self.accounts[i].id);
            i = i + 1;
        }
        let r = utils::fresh_id(&ids, ACCOUNT_ID_BOUND);
        proof {
            if self.contains_id(r) {
                let w = choose|w: int| 0 <= w < self@.len() && self@[w].id == r;
                assert(ids@[w] == r);
                assert(ids@.contains(r));
            }
        }
        r
    }

    /// A new account with balance 0 and a fresh random id.
    pub fn create(&mut self, name: String, owner: String) -> (r: Account)
        requires
            old(self).wf(),
            old(self)@.len() < ACCOUNT_ID_BOUND,
        ensures
            final(self).wf(),
            final(self)@ == old(self)@.push(r),
            r.name == name,
            r.owner == owner,
            r.balance == 0,
            0 <= r.id <= ACCOUNT_ID_BOUND,
            !old(self).contains_id(r.id),
            total_balance(final(self)@) == total_balance(old(self)@),
    {
        let id = self.generate_id();
        let candidate = Account { id, name, owner, balance: 0 };
        let result = clone_account(&candidate);
        proof {
            assert(self@.push(candidate).drop_last() =~= self@);
        }
        self.accounts.push(candidate);
        result
    }

    pub fn edit(&mut self, id: i64, name: String) -> (r: Option<AccountError>)
        requires
            old(self).wf(),
        ensures
            final(self).wf(),
            r is None <==> old(self).contains_id(id),
            r matches Some(e) ==> e == AccountError::NoExist && final(self)@ == old(self)@,
            r is None ==> final(self)@ == old(self)@.update(
                acc_idx(old(self)@, id),
                (Account { name: name, ..acc_at(old(self)@, id) }),
            ),
    {
        match self.index_of(id) {
            None => Some(AccountError::NoExist),
            Some(i) => {
                proof {
                    lemma_total_balance_update(
                        self@,
                        i as int,
                        (Account { name: name, ..acc_at(self@, id) }),
                    );
                }
                let a = &self.accounts[i];
                let updated = Account { id: a.id, name, owner: a.owner.clone(), balance: a.balance };
                self.accounts.set(i, updated);
                proof {
                    lemma_unique_after_update(old(self)@, i as int, self@[i as int]);
                }
                None
            },
        }
    }

    /// Drops the account row alone: no cascading delete of a dependent limit
    /// or schedule row happens here, so callers must guard against orphaning.
    pub fn delete(&mut self, id: i64) -> (r: Option<AccountError>)
        requires
            old(self).wf(),
        ensures
            final(self).wf(),
            r is None <==> old(self).contains_id(id),
            r matches Some(e) ==> e == AccountError::NoExist && final(self)@ == old(self)@,
            r is None ==> final(self)@ == old(self)@.remove(acc_idx(old(self)@, id)),
    {
        match self.index_of(id) {
            None => Some(AccountError::NoExist),
            Some(i) => {
                proof {
                    lemma_total_balance_remove(self@, i as int);
                    lemma_total_balance_nonneg(self@.remove(i as int));
                    lemma_unique_after_remove(self@, i as int);
                }
                self.accounts.remove(i);
                None
            },
        }
    }

    pub fn is_owner(&self, id: i64, user: &String) -> (r: bool)
        requires
            self.wf(),
        ensures
            r == (self.contains_id(id) && self.account_at(id).owner@ == user@),
    {
        match self.fetch(id) {
            Some(a) => a.owner == *user,
            None => false,
        }
    }

    /// The balance update of one atomic debit/credit step; reachable only
    /// from within this crate, so every mutation goes through the transfer
    /// executor's guarded path.
    pub(crate) fn set_balance_at(&mut self, i: usize, balance: u64)
        requires
            old(self).wf(),
            i < old(self)@.len(),
            total_balance(old(self)@) - old(self)@[i as int].balance + balance <= u64::MAX,
        ensures
            final(self).wf(),
            final(self)@ == old(self)@.update(
                i as int,
                (Account { balance, ..old(self)@[i as int] }),
            ),
            total_balance(final(self)@) == total_balance(old(self)@)
                - old(self)@[i as int].balance + balance,
    {
        proof {
            lemma_total_balance_update(
                self@,
                i as int,
                (Account { balance, ..self@[i as int] }),
            );
        }
        let a = &self.accounts[i];
        let updated = Account { id: a.id, name: a.name.clone(), owner: a.owner.clone(), balance };
        self.accounts.set(i, updated);
        proof {
            lemma_unique_after_update(old(self)@, i as int, self@[i as int]);
        }
    }

    /// The balance held at a table index, for the executor's atomic step.
    pub(crate) fn balance_at(&self, i: usize) -> (r: u64)
        requires
            i < self@.len(),
        ensures
            r == self@[i as int].balance,
    {
        self.accounts[i].balance
    }

    /// The index that holds the given id, for the executor's atomic step.
    pub(crate) fn index_of(&self, id: i64) -> (r: Option<usize>)
        requires
            self.wf(),
        ensures
            r is Some <==> self.contains_id(id),
            r matches Some(i) ==> i < self@.len() && self@[i as int].id == id && i as int
                == acc_idx(self@, id),
    {
        let n = self.accounts.len();
        let mut i: usize = 0;
        while i < n
            invariant
                0 <= i <= n == self@.len(),
                forall|j: int| 0 <= j < i ==> self@[j].id != id,
                self.wf(),
            decreases n - i,
        {
            if self.accounts[i].id == id {
                proof {
                    lemma_acc_idx_unique(self@, id, i as int);
                }
                return Some(i);
            }
            i = i + 1;
        }
        None
    }
}

/// With unique ids, any index that holds the id is the chosen one.
pub(crate) proof fn lemma_acc_idx_unique(s: Seq<Account>, id: i64, i: int)
    requires
        acc_ids_unique(s),
        0 <= i < s.len(),
        s[i].id == id,
    ensures
        acc_idx(s, id) == i,
        acc_contains(s, id),
{
    assert(acc_contains(s, id));
    let w = acc_idx(s, id);
    assert(0 <= w < s.len() && s[w].id == id);
}

pub(crate) proof fn lemma_unique_after_update(s: Seq<Account>, i: int, a: Account)
    requires
        acc_ids_unique(s),
        0 <= i < s.len(),
        a.id == s[i].id,
    ensures
        acc_ids_unique(s.update(i, a)),
{
}

pub(crate) proof fn lemma_unique_after_remove(s: Seq<Account>, i: int)
    requires
        acc_ids_unique(s),
        0 <= i < s.len(),
    ensures
        acc_ids_unique(s.remove(i)),
{
    let t = s.remove(i);
    assert forall|p: int, q: int| 0 <= p < q < t.len() implies t[p].id != t[q].id by {
        let p0 = if p < i { p } else { p + 1 };
        let q0 = if q < i { q } else { q + 1 };
        assert(t[p] == s[p0]);
        assert(t[q] == s[q0]);
    }
}

/// Once a prefix of the rows already exceeds the balance type, the whole
/// table does: balances only add up.
pub(crate) proof fn lemma_total_balance_monotonic(s: Seq<Account>, k: int)
    requires
        0 <= k <= s.len(),
    ensures
        total_balance(s.take(k)) <= total_balance(s),
    decreases s.len() - k,
{
    if k < s.len() {
        assert(s.take(k + 1).drop_last() =~= s.take(k));
        assert(s.take(k + 1).last() == s[k]);
        lemma_total_balance_monotonic(s, k + 1);
    } else {
        assert(s.take(k) =~= s);
    }
}

#[derive(Debug, PartialEq, Eq, Clone, Copy)]
pub enum AccountError {
    NoExist,
    NoPermission,
    InsufficientBalance,
}

/// Whether the identity owns the account.
pub open spec fn spec_is_owner(s: Seq<Account>, id: i64, user: Seq<char>) -> bool {
    acc_contains(s, id) && acc_at(s, id).owner@ == user
}

/// What the transfer request resolves to. Any account the caller may not
/// touch — a missing origin or destination included — reads as missing
/// permission, so the request layer does not reveal which accounts exist.
pub open spec fn spec_transfer_request_outcome(
    acc: Seq<Account>,
    lim: Seq<crate::limit::Limit>,
    user: Seq<char>,
    origin: i64,
    destination: i64,
    amount: u64,
) -> crate::plutus_error::Outcome {
    if !spec_is_owner(acc, origin, user) {
        crate::plutus_error::Outcome::Account(AccountError::NoPermission)
    } else if !acc_contains(acc, destination) {
        crate::plutus_error::Outcome::Account(AccountError::NoPermission)
    } else if amount == 0 {
        crate::plutus_error::Outcome::Account(AccountError::InsufficientBalance)
    } else {
        match crate::transfer::spec_transfer_result(acc, lim, origin, destination, amount) {
            Ok(_) => crate::plutus_error::Outcome::Success,
            Err(crate::transfer::TransferError::InsufficientBalance) =>
                crate::plutus_error::Outcome::Account(AccountError::InsufficientBalance),
            Err(crate::transfer::TransferError::LimitExceeded) => crate::plutus_error::Outcome::Limit(
                crate::limit::LimitError::WillSurpassLimit,
            ),
            Err(_) => crate::plutus_error::Outcome::Account(AccountError::NoPermission),
        }
    }
}

/// The transfer request: the caller must own the origin and name an existing
/// destination and a positive amount before the executor runs with auditing
/// on. The ledger changes exactly when the outcome is a success.
pub fn transfer(
    accounts: &mut AccountStore,
    limits: &mut crate::limit::LimitEngine,
    log: &mut Vec<crate::log::Log>,
    session_user: &String,
    origin: i64,
    destination: i64,
    amount: u64,
) -> (r: crate::plutus_error::Outcome)
    requires
        old(accounts).wf(),
        old(limits).wf(),
        origin != destination,
    ensures
        final(accounts).wf(),
        final(limits).wf(),
        r == spec_transfer_request_outcome(
            old(accounts)@,
            old(limits)@,
            session_user@,
            origin,
            destination,
            amount,
        ),
        r == crate::plutus_error::Outcome::Success ==> {
            &&& final(accounts)@ == crate::transfer::spec_transfer_accounts(
                old(accounts)@,
                origin,
                destination,
                amount,
            )
            &&& final(limits)@ == crate::transfer::spec_transfer_limits(
                old(limits)@,
                origin,
                amount,
            )
            &&& final(log)@ == old(log)@ + crate::transfer::transfer_log_entries(
                origin,
                destination,
                amount,
            )
        },
        r != crate::plutus_error::Outcome::Success ==> final(accounts)@ == old(accounts)@
            && final(limits)@ == old(limits)@ && final(log)@ == old(log)@,
{
    if !accounts.is_owner(origin, session_user) {
        return crate::plutus_error::Outcome::Account(AccountError::NoPermission);
    }
    if accounts.index_of(destination).is_none() {
        return crate::plutus_error::Outcome::Account(AccountError::NoPermission);
    }
    if amount == 0 {
        return crate::plutus_error::Outcome::Account(AccountError::InsufficientBalance);
    }
    match crate::transfer::execute(accounts, limits, log, origin, destination, amount, true) {
        Ok(_) => crate::plutus_error::Outcome::Success,
        Err(crate::transfer::TransferError::InsufficientBalance) =>
            crate::plutus_error::Outcome::Account(AccountError::InsufficientBalance),
        Err(crate::transfer::TransferError::LimitExceeded) => crate::plutus_error::Outcome::Limit(
            crate::limit::LimitError::WillSurpassLimit,
        ),
        Err(_) => crate::plutus_error::Outcome::Account(AccountError::NoPermission),
    }
}

/// The rename request: only the owner may rename, and a missing account reads
/// as missing permission.
pub fn edit(accounts: &mut AccountStore, session_user: &String, id: i64, name: String) -> (r:
    crate::plutus_error::Outcome)
    requires
        old(accounts).wf(),
    ensures
        final(accounts).wf(),
        !spec_is_owner(old(accounts)@, id, session_user@) ==> r
            == crate::plutus_error::Outcome::Account(AccountError::NoPermission)
            && final(accounts)@ == old(accounts)@,
        spec_is_owner(old(accounts)@, id, session_user@) ==> r
            == crate::plutus_error::Outcome::Success && final(accounts)@ == old(accounts)@.update(
            acc_idx(old(accounts)@, id),
            (Account { name: name, ..acc_at(old(accounts)@, id) }),
        ),
{
    if !accounts.is_owner(id, session_user) {
        return crate::plutus_error::Outcome::Account(AccountError::NoPermission);
    }
    match accounts.edit(id, name) {
        Some(_) => crate::plutus_error::Outcome::Account(AccountError::NoPermission),
        None => crate::plutus_error::Outcome::Success,
    }
}

/// The fetch request: an account is handed out only to its owner; anything
/// else reads as absent.
pub fn fetch(accounts: &AccountStore, session_user: &String, id: i64) -> (r: Option<Account>)
    requires
        accounts.wf(),
    ensures
        r is Some <==> spec_is_owner(accounts@, id, session_user@),
        r matches Some(a) ==> a == acc_at(accounts@, id),
{
    match accounts.fetch(id) {
        Some(a) => {
            if a.owner == *session_user {
                Some(a)
            } else {
                None
            }
        },
        None => None,
    }
}

/// The delete request: only the owner may delete.
pub fn delete(accounts: &mut AccountStore, session_user: &String, id: i64) -> (r:
    crate::plutus_error::Outcome)
    requires
        old(accounts).wf(),
    ensures
        final(accounts).wf(),
        !spec_is_owner(old(accounts)@, id, session_user@) ==> r
            == crate::plutus_error::Outcome::Account(AccountError::NoPermission)
            && final(accounts)@ == old(accounts)@,
        spec_is_owner(old(accounts)@, id, session_user@) ==> r
            == crate::plutus_error::Outcome::Success && final(accounts)@ == old(accounts)@.remove(
            acc_idx(old(accounts)@, id),
        ),
{
    if !accounts.is_owner(id, session_user) {
        return crate::plutus_error::Outcome::Account(AccountError::NoPermission);
    }
    match accounts.delete(id) {
        Some(_) => crate::plutus_error::Outcome::Account(AccountError::NoExist),
        None => crate::plutus_error::Outcome::Success,
    }
}

} // verus!
