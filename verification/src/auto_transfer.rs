use vstd::prelude::*;
use crate::account::{total_balance, Account, AccountStore};
use crate::limit::{Limit, LimitEngine};
use crate::log::{Log, LogSpecies, Source};
use crate::plutus_error::Outcome;
use crate::transfer::{
    execute, spec_transfer_accounts, spec_transfer_limits, spec_transfer_result,
    transfer_log_entries, TransferError,
};
use crate::utils;

verus! {

/// Inclusive upper bound of the recurring-transfer id keyspace.
pub const AUTO_TRANSFER_ID_BOUND: i64 = 0x1_0000_0000;

#[derive(Debug, PartialEq, Eq, Clone, Copy)]
pub struct AutoTransfer {
    pub id: i64,
    pub origin: i64,
    pub destination: i64,
    pub amount: u64,
    pub duration: i64,
    pub last_transfer: i64,
}

pub open spec fn at_contains(s: Seq<AutoTransfer>, id: i64) -> bool {
    exists|i: int| 0 <= i < s.len() && s[i].id == id
}

pub open spec fn at_idx(s: Seq<AutoTransfer>, id: i64) -> int {
    choose|i: int| 0 <= i < s.len() && s[i].id == id
}

pub open spec fn at_at(s: Seq<AutoTransfer>, id: i64) -> AutoTransfer {
    s[at_idx(s, id)]
}

pub open spec fn at_ids_unique(s: Seq<AutoTransfer>) -> bool {
    forall|i: int, j: int| 0 <= i < j < s.len() ==> s[i].id != s[j].id
}

pub open spec fn at_row_ok(t: AutoTransfer) -> bool {
    t.origin != t.destination && t.amount > 0 && 0 <= t.last_transfer
}

/// A recurring transfer is due once a full interval has passed since its
/// last run.
pub open spec fn is_due(t: AutoTransfer, today: i64) -> bool {
    today - t.last_transfer >= t.duration
}

/// The entries due today, in table order.
pub open spec fn due_entries(s: Seq<AutoTransfer>, today: i64) -> Seq<AutoTransfer> {
    s.filter(|t: AutoTransfer| is_due(t, today))
}

/// The entries paying into the given account, in table order.
pub open spec fn incoming_entries(s: Seq<AutoTransfer>, destination: i64) -> Seq<AutoTransfer> {
    s.filter(|t: AutoTransfer| t.destination == destination)
}

/// The entries paying out of the given account, in table order.
pub open spec fn outgoing_entries(s: Seq<AutoTransfer>, origin: i64) -> Seq<AutoTransfer> {
    s.filter(|t: AutoTransfer| t.origin == origin)
}

/// The recurring-transfer table.
pub struct AutoTransferStore {
    transfers: Vec<AutoTransfer>,
}

impl View for AutoTransferStore {
    type V = Seq<AutoTransfer>;

    closed spec fn view(&self) -> Seq<AutoTransfer> {
        self.transfers@
    }
}

impl AutoTransferStore {
    /// Ids are unique; no entry pays an account to itself; amounts are
    /// positive, so the executor's caller-side precondition always holds.
    pub open spec fn wf(&self) -> bool {
        &&& at_ids_unique(self@)
        &&& forall|i: int| 0 <= i < self@.len() ==> at_row_ok(#[trigger] self@[i])
    }

    pub open spec fn contains_id(&self, id: i64) -> bool {
        at_contains(self@, id)
    }

    pub open spec fn transfer_at(&self, id: i64) -> AutoTransfer {
        at_at(self@, id)
    }

    pub fn new() -> (r: AutoTransferStore)
        ensures
            r@ =~= Seq::<AutoTransfer>::empty(),
            r.wf(),
    {
        AutoTransferStore { transfers: Vec::new() }
    }

    /// How many rows the table holds.
    pub fn len(&self) -> (r: usize)
        ensures
            r == self@.len(),
    {
        self.transfers.len()
    }

    /// An image of the persisted recurring-transfer table. Rows are rejected
    /// on a duplicated id, a self-paying entry, an amount of zero, or a
    /// negative last-run day.
    pub fn load(rows: Vec<AutoTransfer>) -> (r: Option<AutoTransferStore>)
        ensures
            r matches Some(s) ==> s@ == rows@ && s.wf(),
            r is None <==> !(at_ids_unique(rows@) && (forall|i: int|
                0 <= i < rows@.len() ==> at_row_ok(#[trigger] rows@[i]))),
    {
        let n = rows.len();
        let mut i: usize = 0;
        while i < n
            invariant
                0 <= i <= n == rows@.len(),
                forall|p: int, q: int| 0 <= p < q < rows@.len() && p < i ==> rows@[p].id
                    != rows@[q].id,
                forall|p: int| 0 <= p < i ==> at_row_ok(#[trigger] rows@[p]),
            decreases n - i,
        {
            let row = rows[i];
            if row.origin == row.destination || row.amount == 0 || row.last_transfer < 0 {
                return None;
            }
            let mut j: usize = i + 1;
            while j < n
                invariant
                    i < j <= n == rows@.len(),
                    forall|q: int| i < q < j ==> rows@[i as int].id != rows@[q].id,
                decreases n - j,
            {
                if rows[i].id == rows[j].id {
                    return None;
                }
                j = j + 1;
            }
            i = i + 1;
        }
        Some(AutoTransferStore { transfers: rows })
    }

    fn index_of(&self, id: i64) -> (r: Option<usize>)
        requires
            self.wf(),
        ensures
            r is Some <==> self.contains_id(id),
            r matches Some(i) ==> i < self@.len() && self@[i as int].id == id && i as int
                == at_idx(self@, id),
    {
        let n = self.transfers.len();
        let mut i: usize = 0;
        while i < n
            invariant
                0 <= i <= n == self@.len(),
                forall|j: int| 0 <= j < i ==> self@[j].id != id,
                self.wf(),
            decreases n - i,
        {
            if self.transfers[i].id == id {
                proof {
                    lemma_at_idx_unique(self@, id, i as int);
                }
                return Some(i);
            }
            i = i + 1;
        }
        None
    }

    pub fn fetch(&self, id: i64) -> (r: Option<AutoTransfer>)
        requires
            self.wf(),
        ensures
            r is Some <==> self.contains_id(id),
            r matches Some(t) ==> t == self.transfer_at(id),
    {
        match self.index_of(id) {
            Some(i) => Some(self.transfers[i]),
            None => None,
        }
    }

    pub fn fetch_incoming(&self, destination: i64) -> (r: Vec<AutoTransfer>)
        requires
            self.wf(),
        ensures
            r@ == incoming_entries(self@, destination),
    {
        let n = self.transfers.len();
        let mut out: Vec<AutoTransfer> = Vec::new();
        proof {
            reveal(Seq::filter);
            assert(self@.take(0) =~= Seq::<AutoTransfer>::empty());
        }
        let mut i: usize = 0;
        while i < n
            invariant
                0 <= i <= n == self@.len(),
                out@ == incoming_entries(self@.take(i as int), destination),
            decreases n - i,
        {
            proof {
                reveal(Seq::filter);
                assert(self@.take(i + 1).drop_last() =~= self@.take(i as int));
                assert(self@.take(i + 1).last() == self@[i as int]);
            }
            if self.transfers[i].destination == destination {
                out.push(self.transfers[i]);
            }
            i = i + 1;
        }
        proof {
            assert(self@.take(n as int) =~= self@);
        }
        out
    }

    pub fn fetch_outgoing(&self, origin: i64) -> (r: Vec<AutoTransfer>)
        requires
            self.wf(),
        ensures
            r@ == outgoing_entries(self@, origin),
    {
        let n = self.transfers.len();
        let mut out: Vec<AutoTransfer> = Vec::new();
        proof {
            reveal(Seq::filter);
            assert(self@.take(0) =~= Seq::<AutoTransfer>::empty());
        }
        let mut i: usize = 0;
        while i < n
            invariant
                0 <= i <= n == self@.len(),
                out@ == outgoing_entries(self@.take(i as int), origin),
            decreases n - i,
        {
            proof {
                reveal(Seq::filter);
                assert(self@.take(i + 1).drop_last() =~= self@.take(i as int));
                assert(self@.take(i + 1).last() == self@[i as int]);
            }
            if self.transfers[i].origin == origin {
                out.push(self.transfers[i]);
            }
            i = i + 1;
        }
        proof {
            assert(self@.take(n as int) =~= self@);
        }
        out
    }

    /// The entries due today, for the daily batch.
    pub fn due_list(&self, today: i64) -> (r: Vec<AutoTransfer>)
        requires
            self.wf(),
            0 <= today,
        ensures
            r@ == due_entries(self@, today),
    {
        let n = self.transfers.len();
        let mut out: Vec<AutoTransfer> = Vec::new();
        proof {
            reveal(Seq::filter);
            assert(self@.take(0) =~= Seq::<AutoTransfer>::empty());
        }
        let mut i: usize = 0;
        while i < n
            invariant
                0 <= i <= n == self@.len(),
                self.wf(),
                0 <= today,
                out@ == due_entries(self@.take(i as int), today),
            decreases n - i,
        {
            proof {
                reveal(Seq::filter);
                assert(self@.take(i + 1).drop_last() =~= self@.take(i as int));
                assert(self@.take(i + 1).last() == self@[i as int]);
            }
            let t = self.transfers[i];
            if today - t.last_transfer >= t.duration {
                out.push(t);
            }
            i = i + 1;
        }
        proof {
            assert(self@.take(n as int) =~= self@);
        }
        out
    }

    /// A new recurring transfer; its first run happens no sooner than one
    /// full interval after today. The caller enforces that origin and
    /// destination differ and that the amount is positive.
    pub fn create(&mut self, origin: i64, destination: i64, amount: u64, duration: i64, today: i64)
        -> (r: AutoTransfer)
        requires
            old(self).wf(),
            origin != destination,
            amount > 0,
            0 <= today,
            old(self)@.len() < AUTO_TRANSFER_ID_BOUND,
        ensures
            final(self).wf(),
            final(self)@ == old(self)@.push(r),
            r.origin == origin,
            r.destination == destination,
            r.amount == amount,
            r.duration == duration,
            r.last_transfer == today,
            !old(self).contains_id(r.id),
    {
        let id = self.generate_id();
        let t = AutoTransfer { id, origin, destination, amount, duration, last_transfer: today };
        proof {
            assert(self@.push(t).drop_last() =~= self@);
        }
        self.transfers.push(t);
        t
    }

    /// A fresh id that no existing entry holds.
    fn generate_id(&self) -> (r: i64)
        requires
            self@.len() <= AUTO_TRANSFER_ID_BOUND,
        ensures
            0 <= r <= AUTO_TRANSFER_ID_BOUND,
            !self.contains_id(r),
    {
        let n = self.transfers.len();
        let mut ids: Vec<i64> = Vec::new();
        let mut i: usize = 0;
        while i < n
            invariant
                0 <= i <= n == self@.len(),
                ids@.len() == i,
                forall|j: int| 0 <= j < i ==> ids@[j] == self@[j].id,
            decreases n - i,
        {
            ids.push(self.transfers[i].id);
            i = i + 1;
        }
        let r = utils::fresh_id(&ids, AUTO_TRANSFER_ID_BOUND);
        proof {
            if self.contains_id(r) {
                let w = choose|w: int| 0 <= w < self@.len() && self@[w].id == r;
                assert(ids@[w] == r);
                assert(ids@.contains(r));
            }
        }
        r
    }

    pub fn edit(&mut self, id: i64, amount: u64, duration: i64) -> (r: Option<AutoTransferError>)
        requires
            old(self).wf(),
            amount > 0,
        ensures
            final(self).wf(),
            r is None <==> old(self).contains_id(id),
            r matches Some(e) ==> e == AutoTransferError::AutoTransferDoesntExist && final(self)@
                == old(self)@,
            r is None ==> final(self)@ == old(self)@.update(
                at_idx(old(self)@, id),
                (AutoTransfer { amount, duration, ..at_at(old(self)@, id) }),
            ),
    {
        match self.index_of(id) {
            None => Some(AutoTransferError::AutoTransferDoesntExist),
            Some(i) => {
                let t = self.transfers[i];
                self.transfers.set(i, AutoTransfer { amount, duration, ..t });
                None
            },
        }
    }

    pub fn delete(&mut self, id: i64) -> (r: Option<AutoTransferError>)
        requires
            old(self).wf(),
        ensures
            final(self).wf(),
            r is None <==> old(self).contains_id(id),
            r matches Some(e) ==> e == AutoTransferError::AutoTransferDoesntExist && final(self)@
                == old(self)@,
            r is None ==> final(self)@ == old(self)@.remove(at_idx(old(self)@, id)),
    {
        match self.index_of(id) {
            None => Some(AutoTransferError::AutoTransferDoesntExist),
            Some(i) => {
                proof {
                    lemma_at_unique_after_remove(self@, i as int);
                }
                self.transfers.remove(i);
                None
            },
        }
    }
}

/// The audit leg of a recurring transfer that failed.
pub open spec fn failure_leg(t: AutoTransfer, e: TransferError) -> Log {
    (Log {
        species: LogSpecies::Outgoing,
        balance: t.amount,
        origin: Source::AutoTransfer(t.origin),
        destination: Source::AutoTransfer(t.destination),
        state: Outcome::Transfer(e),
    })
}

/// One due entry's effect on the ledger, the limits and the log: a successful
/// transfer moves the money and leaves its two audit legs; a failed one
/// changes no balance and leaves one outgoing leg that names the error.
pub open spec fn run_step(
    acc: Seq<Account>,
    lim: Seq<Limit>,
    logs: Seq<Log>,
    t: AutoTransfer,
) -> (Seq<Account>, Seq<Limit>, Seq<Log>) {
    match spec_transfer_result(acc, lim, t.origin, t.destination, t.amount) {
        Ok(_) => (
            spec_transfer_accounts(acc, t.origin, t.destination, t.amount),
            spec_transfer_limits(lim, t.origin, t.amount),
            logs + transfer_log_entries(t.origin, t.destination, t.amount),
        ),
        Err(e) => (acc, lim, logs.push(failure_leg(t, e))),
    }
}

/// The daily batch folded over the table in order: every due entry runs once,
/// against the state the entries before it left.
pub open spec fn run_fold(
    acc: Seq<Account>,
    lim: Seq<Limit>,
    logs: Seq<Log>,
    entries: Seq<AutoTransfer>,
    today: i64,
) -> (Seq<Account>, Seq<Limit>, Seq<Log>)
    decreases entries.len(),
{
    if entries.len() == 0 {
        (acc, lim, logs)
    } else {
        let prev = run_fold(acc, lim, logs, entries.drop_last(), today);
        if is_due(entries.last(), today) {
            run_step(prev.0, prev.1, prev.2, entries.last())
        } else {
            prev
        }
    }
}

/// What the daily batch writes back to a registry row: a due entry's last run
/// becomes today, whether its transfer succeeded or not; the others stand.
pub open spec fn mark_run(t: AutoTransfer, today: i64) -> AutoTransfer {
    if is_due(t, today) {
        (AutoTransfer { last_transfer: today, ..t })
    } else {
        t
    }
}

impl AutoTransferStore {
    /// The daily batch: each due entry is handed to the transfer executor
    /// with auditing on, and its last run is set to today whether it
    /// succeeded or not, so a permanently broken entry is not retried until
    /// the next eligible day. A failure is still recorded by its outgoing
    /// audit leg.
    pub fn increment_auto_transfers(
        &mut self,
        accounts: &mut AccountStore,
        limits: &mut LimitEngine,
        log: &mut Vec<Log>,
        today: i64,
    )
        requires
            old(self).wf(),
            old(accounts).wf(),
            old(limits).wf(),
            0 <= today,
        ensures
            final(self).wf(),
            final(accounts).wf(),
            final(limits).wf(),
            final(self)@.len() == old(self)@.len(),
            forall|i: int| 0 <= i < old(self)@.len() ==> final(self)@[i] == mark_run(
                old(self)@[i],
                today,
            ),
            ({
                let f = run_fold(old(accounts)@, old(limits)@, old(log)@, old(self)@, today);
                final(accounts)@ == f.0 && final(limits)@ == f.1 && final(log)@ == f.2
            }),
            total_balance(final(accounts)@) <= u64::MAX,
    {
        let n = self.transfers.len();
        let mut i: usize = 0;
        while i < n
            invariant
                0 <= i <= n == self@.len() == old(self)@.len(),
                0 <= today,
                old(self).wf(),
                accounts.wf(),
                limits.wf(),
                forall|j: int| 0 <= j < i ==> self@[j] == mark_run(old(self)@[j], today),
                forall|j: int| i <= j < n ==> self@[j] == old(self)@[j],
                ({
                    let f = run_fold(
                        old(accounts)@,
                        old(limits)@,
                        old(log)@,
                        old(self)@.take(i as int),
                        today,
                    );
                    accounts@ == f.0 && limits@ == f.1 && log@ == f.2
                }),
            decreases n - i,
        {
            proof {
                assert(old(self)@.take(i + 1).drop_last() =~= old(self)@.take(i as int));
                assert(old(self)@.take(i + 1).last() == old(self)@[i as int]);
                assert(at_row_ok(old(self)@[i as int]));
            }
            let t = self.transfers[i];
            if today - t.last_transfer >= t.duration {
                self.transfers.set(i, AutoTransfer { last_transfer: today, ..t });
                let r = execute(accounts, limits, log, t.origin, t.destination, t.amount, true);
                match r {
                    Err(e) => {
                        Log::append(
                            log,
                            LogSpecies::Outgoing,
                            t.amount,
                            Source::AutoTransfer(t.origin),
                            Source::AutoTransfer(t.destination),
                            Outcome::Transfer(e),
                        );
                    },
                    Ok(_) => {},
                }
            }
            i = i + 1;
        }
        proof {
            assert(old(self)@.take(n as int) =~= old(self)@);
            assert forall|p: int, q: int| 0 <= p < q < self@.len() implies self@[p].id
                != self@[q].id by {
                assert(self@[p] == mark_run(old(self)@[p], today));
                assert(self@[q] == mark_run(old(self)@[q], today));
            }
            assert forall|p: int| 0 <= p < self@.len() implies at_row_ok(#[trigger] self@[p]) by {
                assert(self@[p] == mark_run(old(self)@[p], today));
                assert(at_row_ok(old(self)@[p]));
            }
        }
    }
}

pub(crate) proof fn lemma_at_idx_unique(s: Seq<AutoTransfer>, id: i64, i: int)
    requires
        at_ids_unique(s),
        0 <= i < s.len(),
        s[i].id == id,
    ensures
        at_idx(s, id) == i,
        at_contains(s, id),
{
    assert(at_contains(s, id));
    let w = at_idx(s, id);
    assert(0 <= w < s.len() && s[w].id == id);
}

/// However many recurring transfers a daily batch runs, and whichever of them
/// succeed, no balance can go negative and no money is created or destroyed:
/// the total held across all accounts after the batch is the total before it.
pub proof fn lemma_run_fold_preserves_funds(
    acc: Seq<Account>,
    lim: Seq<Limit>,
    logs: Seq<Log>,
    entries: Seq<AutoTransfer>,
    today: i64,
)
    requires
        crate::account::acc_ids_unique(acc),
        total_balance(acc) <= u64::MAX,
        forall|i: int| 0 <= i < entries.len() ==> at_row_ok(#[trigger] entries[i]),
    ensures
        ({
            let f = run_fold(acc, lim, logs, entries, today);
            &&& total_balance(f.0) == total_balance(acc)
            &&& crate::account::acc_ids_unique(f.0)
            &&& forall|i: int| 0 <= i < f.0.len() ==> #[trigger] f.0[i].balance >= 0
        }),
    decreases entries.len(),
{
    if entries.len() > 0 {
        lemma_run_fold_preserves_funds(acc, lim, logs, entries.drop_last(), today);
        let prev = run_fold(acc, lim, logs, entries.drop_last(), today);
        let t = entries.last();
        assert(at_row_ok(t));
        if is_due(t, today) {
            match spec_transfer_result(prev.0, prev.1, t.origin, t.destination, t.amount) {
                Ok(_) => {
                    crate::transfer::lemma_transfer_preserves_funds(
                        prev.0,
                        prev.1,
                        t.origin,
                        t.destination,
                        t.amount,
                    );
                },
                Err(_) => {},
            }
        }
    }
}

/// What stands in a due list: exactly the table's entries whose interval has
/// fully passed since their last run.
pub proof fn lemma_due_list_membership(s: Seq<AutoTransfer>, t: AutoTransfer, today: i64)
    ensures
        due_entries(s, today).contains(t) <==> s.contains(t) && is_due(t, today),
    decreases s.len(),
{
    reveal(Seq::filter);
    if s.len() == 0 {
    } else {
        lemma_due_list_membership(s.drop_last(), t, today);
        let rest = due_entries(s.drop_last(), today);
        if is_due(s.last(), today) {
            assert(due_entries(s, today) == rest.push(s.last()));
            assert(due_entries(s, today).contains(t) <==> (rest.contains(t) || t == s.last()))
                by {
                if due_entries(s, today).contains(t) {
                    let k = choose|k: int|
                        0 <= k < rest.push(s.last()).len() && rest.push(s.last())[k] == t;
                    if k < rest.len() {
                        assert(rest[k] == t);
                    }
                }
                if rest.contains(t) {
                    let k = choose|k: int| 0 <= k < rest.len() && rest[k] == t;
                    assert(rest.push(s.last())[k] == t);
                }
                if t == s.last() {
                    assert(rest.push(s.last())[rest.len() as int] == t);
                }
            }
        } else {
            assert(due_entries(s, today) == rest);
        }
        assert(s.contains(t) <==> (s.drop_last().contains(t) || t == s.last())) by {
            if s.contains(t) {
                let k = choose|k: int| 0 <= k < s.len() && s[k] == t;
                if k < s.len() - 1 {
                    assert(s.drop_last()[k] == t);
                }
            }
            if s.drop_last().contains(t) {
                let k = choose|k: int| 0 <= k < s.drop_last().len() && s.drop_last()[k] == t;
                assert(s[k] == t);
            }
        }
    }
}

/// A recurring transfer whose last run was day `t.last_transfer` stands in
/// the due list of a day exactly when one full interval has passed: absent on
/// the days before last_transfer + duration, present from that day on. In
/// particular an entry created today, whose last run is set to today, waits
/// one full interval before its first run.
pub proof fn lemma_due_exactly_after_interval(s: Seq<AutoTransfer>, t: AutoTransfer, day: i64)
    requires
        s.contains(t),
    ensures
        due_entries(s, day).contains(t) <==> day - t.last_transfer >= t.duration,
{
    lemma_due_list_membership(s, t, day);
}

pub(crate) proof fn lemma_at_unique_after_remove(s: Seq<AutoTransfer>, i: int)
    requires
        at_ids_unique(s),
        0 <= i < s.len(),
    ensures
        at_ids_unique(s.remove(i)),
{
    let t = s.remove(i);
    assert forall|p: int, q: int| 0 <= p < q < t.len() implies t[p].id != t[q].id by {
        let p0 = if p < i { p } else { p + 1 };
        let q0 = if q < i { q } else { q + 1 };
        assert(t[p] == s[p0]);
        assert(t[q] == s[q0]);
    }
}

#[derive(Debug, PartialEq, Eq, Clone, Copy)]
pub enum AutoTransferError {
    AutoTransferDoesntExist,
    ToDoesntExist,
    FromDoesntExist,
    TargetSame,
    InsufficientBalance,
}

/// What the schedule-creation request resolves to, in check order: ownership
/// of the origin, existence of the destination, distinct endpoints, and a
/// positive amount.
pub open spec fn spec_at_create_outcome(
    acc: Seq<Account>,
    user: Seq<char>,
    origin: i64,
    destination: i64,
    amount: u64,
) -> crate::plutus_error::Outcome {
    if !crate::account::spec_is_owner(acc, origin, user) {
        crate::plutus_error::Outcome::Account(crate::account::AccountError::NoPermission)
    } else if !crate::account::acc_contains(acc, destination) {
        crate::plutus_error::Outcome::AutoTransfer(AutoTransferError::ToDoesntExist)
    } else if destination == origin {
        crate::plutus_error::Outcome::AutoTransfer(AutoTransferError::TargetSame)
    } else if amount == 0 {
        crate::plutus_error::Outcome::AutoTransfer(AutoTransferError::InsufficientBalance)
    } else {
        crate::plutus_error::Outcome::Success
    }
}

/// The schedule-creation request.
pub fn create(
    store: &mut AutoTransferStore,
    accounts: &crate::account::AccountStore,
    session_user: &String,
    origin: i64,
    destination: i64,
    amount: u64,
    duration: i64,
    today: i64,
) -> (r: crate::plutus_error::Outcome)
    requires
        old(store).wf(),
        accounts.wf(),
        0 <= today,
        old(store)@.len() < AUTO_TRANSFER_ID_BOUND,
    ensures
        final(store).wf(),
        r == spec_at_create_outcome(accounts@, session_user@, origin, destination, amount),
        r == crate::plutus_error::Outcome::Success ==> final(store)@.len() == old(store)@.len()
            + 1 && final(store)@.take(old(store)@.len() as int) == old(store)@ && ({
            let t = final(store)@.last();
            t.origin == origin && t.destination == destination && t.amount == amount && t.duration
                == duration && t.last_transfer == today
        }),
        r != crate::plutus_error::Outcome::Success ==> final(store)@ == old(store)@,
{
    if !accounts.is_owner(origin, session_user) {
        return crate::plutus_error::Outcome::Account(crate::account::AccountError::NoPermission);
    }
    if accounts.fetch(destination).is_none() {
        return crate::plutus_error::Outcome::AutoTransfer(AutoTransferError::ToDoesntExist);
    }
    if destination == origin {
        return crate::plutus_error::Outcome::AutoTransfer(AutoTransferError::TargetSame);
    }
    if amount == 0 {
        return crate::plutus_error::Outcome::AutoTransfer(AutoTransferError::InsufficientBalance);
    }
    let t = store.create(origin, destination, amount, duration, today);
    proof {
        assert(store@.take(old(store)@.len() as int) =~= old(store)@);
    }
    crate::plutus_error::Outcome::Success
}

/// The schedule-edit request: only the owner of the paying account may change
/// a schedule; a schedule the caller may not touch reads as missing
/// permission.
pub fn edit(
    store: &mut AutoTransferStore,
    accounts: &crate::account::AccountStore,
    session_user: &String,
    id: i64,
    amount: u64,
    duration: i64,
) -> (r: crate::plutus_error::Outcome)
    requires
        old(store).wf(),
        accounts.wf(),
    ensures
        final(store).wf(),
        !(at_contains(old(store)@, id) && crate::account::spec_is_owner(
            accounts@,
            at_at(old(store)@, id).origin,
            session_user@,
        )) ==> r == crate::plutus_error::Outcome::Account(
            crate::account::AccountError::NoPermission,
        ) && final(store)@ == old(store)@,
        (at_contains(old(store)@, id) && crate::account::spec_is_owner(
            accounts@,
            at_at(old(store)@, id).origin,
            session_user@,
        )) ==> if amount == 0 {
            r == crate::plutus_error::Outcome::AutoTransfer(AutoTransferError::InsufficientBalance)
                && final(store)@ == old(store)@
        } else {
            r == crate::plutus_error::Outcome::Success && final(store)@ == old(store)@.update(
                at_idx(old(store)@, id),
                (AutoTransfer { amount, duration, ..at_at(old(store)@, id) }),
            )
        },
{
    let t = match store.fetch(id) {
        None => {
            return crate::plutus_error::Outcome::Account(
                crate::account::AccountError::NoPermission,
            );
        },
        Some(t) => t,
    };
    if !accounts.is_owner(t.origin, session_user) {
        return crate::plutus_error::Outcome::Account(crate::account::AccountError::NoPermission);
    }
    if amount == 0 {
        return crate::plutus_error::Outcome::AutoTransfer(AutoTransferError::InsufficientBalance);
    }
    match store.edit(id, amount, duration) {
        Some(e) => crate::plutus_error::Outcome::AutoTransfer(e),
        None => crate::plutus_error::Outcome::Success,
    }
}

/// The incoming-schedules request: only the account's owner may list them.
pub fn fetch_incoming(
    store: &AutoTransferStore,
    accounts: &crate::account::AccountStore,
    session_user: &String,
    account: i64,
) -> (r: Result<Vec<AutoTransfer>, crate::plutus_error::Outcome>)
    requires
        store.wf(),
        accounts.wf(),
    ensures
        r is Ok <==> crate::account::spec_is_owner(accounts@, account, session_user@),
        r matches Ok(v) ==> v@ == incoming_entries(store@, account),
        r matches Err(e) ==> e == crate::plutus_error::Outcome::Account(
            crate::account::AccountError::NoPermission,
        ),
{
    if !accounts.is_owner(account, session_user) {
        return Err(
            crate::plutus_error::Outcome::Account(crate::account::AccountError::NoPermission),
        );
    }
    Ok(store.fetch_incoming(account))
}

/// The outgoing-schedules request: only the account's owner may list them.
pub fn fetch_outgoing(
    store: &AutoTransferStore,
    accounts: &crate::account::AccountStore,
    session_user: &String,
    account: i64,
) -> (r: Result<Vec<AutoTransfer>, crate::plutus_error::Outcome>)
    requires
        store.wf(),
        accounts.wf(),
    ensures
        r is Ok <==> crate::account::spec_is_owner(accounts@, account, session_user@),
        r matches Ok(v) ==> v@ == outgoing_entries(store@, account),
        r matches Err(e) ==> e == crate::plutus_error::Outcome::Account(
            crate::account::AccountError::NoPermission,
        ),
{
    if !accounts.is_owner(account, session_user) {
        return Err(
            crate::plutus_error::Outcome::Account(crate::account::AccountError::NoPermission),
        );
    }
    Ok(store.fetch_outgoing(account))
}

/// The schedule-deletion request: only the owner of the paying account may
/// drop a schedule; a schedule the caller may not touch reads as missing
/// permission.
pub fn delete(
    store: &mut AutoTransferStore,
    accounts: &crate::account::AccountStore,
    session_user: &String,
    id: i64,
) -> (r: crate::plutus_error::Outcome)
    requires
        old(store).wf(),
        accounts.wf(),
    ensures
        final(store).wf(),
        !(at_contains(old(store)@, id) && crate::account::spec_is_owner(
            accounts@,
            at_at(old(store)@, id).origin,
            session_user@,
        )) ==> r == crate::plutus_error::Outcome::Account(
            crate::account::AccountError::NoPermission,
        ) && final(store)@ == old(store)@,
        (at_contains(old(store)@, id) && crate::account::spec_is_owner(
            accounts@,
            at_at(old(store)@, id).origin,
            session_user@,
        )) ==> r == crate::plutus_error::Outcome::Success && final(store)@ == old(
            store,
        )@.remove(at_idx(old(store)@, id)),
{
    let t = match store.fetch(id) {
        None => {
            return crate::plutus_error::Outcome::Account(
                crate::account::AccountError::NoPermission,
            );
        },
        Some(t) => t,
    };
    if !accounts.is_owner(t.origin, session_user) {
        return crate::plutus_error::Outcome::Account(crate::account::AccountError::NoPermission);
    }
    match store.delete(id) {
        Some(e) => crate::plutus_error::Outcome::AutoTransfer(e),
        None => crate::plutus_error::Outcome::Success,
    }
}

} // verus!
