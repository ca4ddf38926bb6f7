use vstd::prelude::*;
use crate::account::{
    acc_at, acc_contains, acc_idx, acc_ids_unique, lemma_total_balance_pair, total_balance,
    Account, AccountStore,
};
use crate::limit::{lim_at, lim_contains, lim_idx, lim_would_exceed, Limit, LimitEngine};
use crate::log::{Log, LogSpecies, Source};
use crate::plutus_error::Outcome;

verus! {

/// Why a transfer was refused. Every refusal leaves the ledger untouched.
#[derive(Debug, PartialEq, Eq, Clone, Copy)]
pub enum TransferError {
    OriginNotFound,
    DestinationNotFound,
    InsufficientBalance,
    LimitExceeded,
}

/// What a transfer resolves to: the checks in the order the executor makes
/// them — both accounts present, balance covering the amount, spending limit
/// not surpassed.
pub open spec fn spec_transfer_result(
    acc: Seq<Account>,
    lim: Seq<Limit>,
    origin: i64,
    destination: i64,
    amount: u64,
) -> Result<(), TransferError> {
    if !acc_contains(acc, origin) {
        Err(TransferError::OriginNotFound)
    } else if !acc_contains(acc, destination) {
        Err(TransferError::DestinationNotFound)
    } else if acc_at(acc, origin).balance < amount {
        Err(TransferError::InsufficientBalance)
    } else if lim_would_exceed(lim, origin, amount) {
        Err(TransferError::LimitExceeded)
    } else {
        Ok(())
    }
}

/// The account table after the atomic debit/credit step.
pub open spec fn spec_transfer_accounts(
    acc: Seq<Account>,
    origin: i64,
    destination: i64,
    amount: u64,
) -> Seq<Account> {
    let i = acc_idx(acc, origin);
    let j = acc_idx(acc, destination);
    acc.update(i, (Account { balance: (acc[i].balance - amount) as u64, ..acc[i] })).update(
        j,
        (Account { balance: (acc[j].balance + amount) as u64, ..acc[j] }),
    )
}

/// The limit table after a successful transfer: the origin's usage grows by
/// the amount; an unrestricted origin leaves the table unchanged.
pub open spec fn spec_transfer_limits(lim: Seq<Limit>, origin: i64, amount: u64) -> Seq<Limit> {
    if lim_contains(lim, origin) {
        lim.update(
            lim_idx(lim, origin),
            (Limit { usage: (lim_at(lim, origin).usage + amount) as u64, ..lim_at(lim, origin) }),
        )
    } else {
        lim
    }
}

/// The two audit legs of a successful transfer.
pub open spec fn transfer_log_entries(origin: i64, destination: i64, amount: u64) -> Seq<Log> {
    seq![
        (Log {
            species: LogSpecies::Outgoing,
            balance: amount,
            origin: Source::User(origin),
            destination: Source::User(destination),
            state: Outcome::Success,
        }),
        (Log {
            species: LogSpecies::Incoming,
            balance: amount,
            origin: Source::User(origin),
            destination: Source::User(destination),
            state: Outcome::Success,
        }),
    ]
}

/// The transfer executor. The load, the checks and both balance writes form
/// one atomic step against the in-memory table: no caller can observe a
/// half-applied debit. On success the two audit legs are appended when asked
/// for, and the origin's limit usage is recorded; any refusal leaves every
/// table exactly as it was.
pub fn execute(
    accounts: &mut AccountStore,
    limits: &mut LimitEngine,
    log: &mut Vec<Log>,
    origin: i64,
    destination: i64,
    amount: u64,
    record: bool,
) -> (r: Result<(), TransferError>)
    requires
        old(accounts).wf(),
        old(limits).wf(),
        amount > 0,
        origin != destination,
    ensures
        final(accounts).wf(),
        final(limits).wf(),
        r == spec_transfer_result(old(accounts)@, old(limits)@, origin, destination, amount),
        r is Ok ==> {
            &&& final(accounts)@ == spec_transfer_accounts(
                old(accounts)@,
                origin,
                destination,
                amount,
            )
            &&& final(limits)@ == spec_transfer_limits(old(limits)@, origin, amount)
            &&& total_balance(final(accounts)@) == total_balance(old(accounts)@)
            &&& record ==> final(log)@ == old(log)@ + transfer_log_entries(
                origin,
                destination,
                amount,
            )
            &&& !record ==> final(log)@ == old(log)@
        },
        r is Err ==> final(accounts)@ == old(accounts)@ && final(limits)@ == old(limits)@
            && final(log)@ == old(log)@,
{
    let oi = match accounts.index_of(origin) {
        None => {
            return Err(TransferError::OriginNotFound);
        },
        Some(i) => i,
    };
    let di = match accounts.index_of(destination) {
        None => {
            return Err(TransferError::DestinationNotFound);
        },
        Some(i) => i,
    };
    let origin_balance = accounts.balance_at(oi);
    if origin_balance < amount {
        return Err(TransferError::InsufficientBalance);
    }
    if limits.check_limits(origin, amount) {
        return Err(TransferError::LimitExceeded);
    }

    proof {
        assert(oi != di);
        lemma_total_balance_pair(accounts@, oi as int, di as int);
    }
    accounts.set_balance_at(oi, origin_balance - amount);
    let destination_balance = accounts.balance_at(di);
    accounts.set_balance_at(di, destination_balance + amount);
    proof {
        assert(final(accounts)@ =~= spec_transfer_accounts(
            old(accounts)@,
            origin,
            destination,
            amount,
        ));
    }

    if record {
        Log::append(
            log,
            LogSpecies::Outgoing,
            amount,
            Source::User(origin),
            Source::User(destination),
            Outcome::Success,
        );
        Log::append(
            log,
            LogSpecies::Incoming,
            amount,
            Source::User(origin),
            Source::User(destination),
            Outcome::Success,
        );
        proof {
            assert(log@ =~= old(log)@ + transfer_log_entries(origin, destination, amount));
        }
    }

    match limits.fetch(origin) {
        Some(_) => {
            limits.record_usage(origin, amount);
        },
        None => {},
    }

    Ok(())
}

/// No sequence of successful transfers can drive a balance below zero or
/// create money: the balance type admits no negative value, a transfer only
/// succeeds when the origin covers the amount, and the total held across all
/// accounts is conserved.
pub proof fn lemma_transfer_preserves_funds(
    acc: Seq<Account>,
    lim: Seq<Limit>,
    origin: i64,
    destination: i64,
    amount: u64,
)
    requires
        acc_ids_unique(acc),
        total_balance(acc) <= u64::MAX,
        origin != destination,
        amount > 0,
        spec_transfer_result(acc, lim, origin, destination, amount) is Ok,
    ensures
        ({
            let post = spec_transfer_accounts(acc, origin, destination, amount);
            &&& total_balance(post) == total_balance(acc)
            &&& post.len() == acc.len()
            &&& forall|i: int| 0 <= i < post.len() ==> #[trigger] post[i].balance >= 0
            &&& acc_ids_unique(post)
            &&& total_balance(post) <= u64::MAX
        }),
{
    let i = acc_idx(acc, origin);
    let j = acc_idx(acc, destination);
    assert(0 <= i < acc.len() && acc[i].id == origin);
    assert(0 <= j < acc.len() && acc[j].id == destination);
    assert(i != j);
    lemma_total_balance_pair(acc, i, j);
    let mid = acc.update(i, (Account { balance: (acc[i].balance - amount) as u64, ..acc[i] }));
    let post = spec_transfer_accounts(acc, origin, destination, amount);
    crate::account::lemma_total_balance_update(
        acc,
        i,
        (Account { balance: (acc[i].balance - amount) as u64, ..acc[i] }),
    );
    crate::account::lemma_total_balance_update(
        mid,
        j,
        (Account { balance: (acc[j].balance + amount) as u64, ..acc[j] }),
    );
    assert(mid[j] == acc[j]);
    assert(post == mid.update(j, (Account { balance: (acc[j].balance + amount) as u64, ..acc[j] })));
}

} // verus!
