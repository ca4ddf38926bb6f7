use vstd::prelude::*;
use crate::plutus_error::{clone_outcome, Outcome};

verus! {

#[derive(Debug, PartialEq, Eq, Clone, Copy)]
pub enum LogSpecies {
    Incoming,
    Outgoing,
}

/// Who a ledger-log leg speaks of: the bank itself, a user-initiated
/// transfer's account, or a recurring transfer's account.
#[derive(Debug, PartialEq, Eq, Clone, Copy)]
pub enum Source {
    Bank,
    User(i64),
    AutoTransfer(i64),
}

/// One leg of the audit trail of a transfer.
#[derive(Debug, PartialEq, Eq)]
pub struct Log {
    pub species: LogSpecies,
    pub balance: u64,
    pub origin: Source,
    pub destination: Source,
    pub state: Outcome,
}

pub fn clone_log(l: &Log) -> (r: Log)
    ensures
        r == *l,
{
    Log {
        species: l.species,
        balance: l.balance,
        origin: l.origin,
        destination: l.destination,
        state: clone_outcome(&l.state),
    }
}

/// Whether a log leg speaks of the given account, on either side. A bank leg
/// names no account.
pub open spec fn log_touches(l: Log, account: i64) -> bool {
    ||| l.origin == Source::User(account)
    ||| l.origin == Source::AutoTransfer(account)
    ||| l.destination == Source::User(account)
    ||| l.destination == Source::AutoTransfer(account)
}

/// The legs that speak of the account, most recent first.
pub open spec fn recent_matching(s: Seq<Log>, account: i64) -> Seq<Log>
    decreases s.len(),
{
    if s.len() == 0 {
        Seq::empty()
    } else if log_touches(s.last(), account) {
        seq![s.last()] + recent_matching(s.drop_last(), account)
    } else {
        recent_matching(s.drop_last(), account)
    }
}

impl Log {
    /// Appends one leg to the ledger log, which only ever grows.
    pub fn append(
        log: &mut Vec<Log>,
        species: LogSpecies,
        balance: u64,
        origin: Source,
        destination: Source,
        state: Outcome,
    )
        ensures
            final(log)@ == old(log)@.push(
                (Log { species, balance, origin, destination, state }),
            ),
    {
        log.push(Log { species, balance, origin, destination, state });
    }

    /// The most recent legs that speak of the account, newest first, at most
    /// `amount` of them.
    pub fn fetch(log: &Vec<Log>, account: i64, amount: usize) -> (r: Vec<Log>)
        ensures
            ({
                let all = recent_matching(log@, account);
                r@ == if amount <= all.len() {
                    all.take(amount as int)
                } else {
                    all
                }
            }),
    {
        let mut out: Vec<Log> = Vec::new();
        let mut i: usize = log.len();
        proof {
            assert(log@.take(log@.len() as int) =~= log@);
        }
        while i > 0
            invariant
                0 <= i <= log@.len(),
                out@ + recent_matching(log@.take(i as int), account) == recent_matching(
                    log@,
                    account,
                ),
            decreases i,
        {
            proof {
                assert(log@.take(i as int).drop_last() =~= log@.take(i - 1));
                assert(log@.take(i as int).last() == log@[i - 1]);
            }
            i = i - 1;
            if log_touches_exec(&log[i], account) {
                out.push(clone_log(&log[i]));
            }
            proof {
                assert(out@ + recent_matching(log@.take(i as int), account) =~= recent_matching(
                    log@,
                    account,
                ));
            }
        }
        proof {
            assert(log@.take(0) =~= Seq::<Log>::empty());
            assert(out@ =~= recent_matching(log@, account));
        }
        out.truncate(amount);
        proof {
            if amount <= recent_matching(log@, account).len() {
                assert(out@ =~= recent_matching(log@, account).take(amount as int));
            }
        }
        out
    }
}

/// The log-fetch request: an account's trail is handed out only to its
/// owner, at most a hundred legs at a time.
pub fn fetch(
    log: &Vec<Log>,
    accounts: &crate::account::AccountStore,
    session_user: &String,
    account: i64,
    amount: usize,
) -> (r: Result<Vec<Log>, Outcome>)
    requires
        accounts.wf(),
    ensures
        r is Ok <==> crate::account::spec_is_owner(accounts@, account, session_user@),
        r matches Err(e) ==> e == Outcome::Account(crate::account::AccountError::NoExist),
        r matches Ok(v) ==> ({
            let all = recent_matching(log@, account);
            let capped: int = if amount <= 100 {
                amount as int
            } else {
                100
            };
            v@ == if capped <= all.len() {
                all.take(capped)
            } else {
                all
            }
        }),
{
    if !accounts.is_owner(account, session_user) {
        return Err(Outcome::Account(crate::account::AccountError::NoExist));
    }
    let capped = if amount <= 100 {
        amount
    } else {
        100
    };
    Ok(Log::fetch(log, account, capped))
}

fn log_touches_exec(l: &Log, account: i64) -> (r: bool)
    ensures
        r == log_touches(*l, account),
{
    (match l.origin {
        Source::User(a) => a == account,
        Source::AutoTransfer(a) => a == account,
        Source::Bank => false,
    }) || (match l.destination {
        Source::User(a) => a == account,
        Source::AutoTransfer(a) => a == account,
        Source::Bank => false,
    })
}

} // verus!
