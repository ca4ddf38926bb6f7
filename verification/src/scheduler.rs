use vstd::prelude::*;
use crate::account::AccountStore;
use crate::auto_transfer::{mark_run, run_fold, AutoTransferStore};
use crate::limit::{reset_all, LimitEngine};
use crate::log::Log;

verus! {

/// The singleton row that keeps the daily batch once-per-day across
/// restarts: the last epoch day on which it ran.
pub struct SchedulingMark {
    pub last_incremented: i64,
}

/// How one tick treats the mark: on a new calendar day the mark moves to
/// today and the batch runs; on a day already marked nothing happens.
pub open spec fn tick_rel(pre_mark: i64, post_mark: i64, ran: bool, today: i64) -> bool {
    &&& (ran <==> pre_mark != today)
    &&& post_mark == (if pre_mark != today {
        today
    } else {
        pre_mark
    })
}

/// One wake of the daily task scheduler. The mark is persisted before the
/// jobs run, so a crash mid-batch skips that day rather than re-running it;
/// limits are reset before the recurring transfers run, so a transfer of the
/// same cycle sees a freshly zeroed usage.
pub fn increment_tasks_step(
    mark: &mut SchedulingMark,
    limits: &mut LimitEngine,
    transfers: &mut AutoTransferStore,
    accounts: &mut AccountStore,
    log: &mut Vec<Log>,
    today: i64,
) -> (ran: bool)
    requires
        old(limits).wf(),
        old(transfers).wf(),
        old(accounts).wf(),
        0 <= today,
    ensures
        final(limits).wf(),
        final(transfers).wf(),
        final(accounts).wf(),
        tick_rel(old(mark).last_incremented, final(mark).last_incremented, ran, today),
        !ran ==> final(limits)@ == old(limits)@ && final(transfers)@ == old(transfers)@
            && final(accounts)@ == old(accounts)@ && final(log)@ == old(log)@,
        ran ==> ({
            let f = run_fold(
                old(accounts)@,
                reset_all(old(limits)@, today),
                old(log)@,
                old(transfers)@,
                today,
            );
            &&& final(accounts)@ == f.0
            &&& final(limits)@ == f.1
            &&& final(log)@ == f.2
            &&& final(transfers)@.len() == old(transfers)@.len()
            &&& forall|i: int| 0 <= i < old(transfers)@.len() ==> final(transfers)@[i] == mark_run(
                old(transfers)@[i],
                today,
            )
        }),
{
    if today == mark.last_incremented {
        return false;
    }
    mark.last_incremented = today;
    limits.increment_limits(today);
    transfers.increment_auto_transfers(accounts, limits, log, today);
    true
}

/// Ticking twice within the same calendar day runs the reset and transfer
/// jobs at most once: a tick that ran leaves the mark at today, and a second
/// tick on a marked day is a no-op.
pub proof fn lemma_daily_runs_at_most_once(
    m0: i64,
    m1: i64,
    m2: i64,
    ran1: bool,
    ran2: bool,
    today: i64,
)
    requires
        tick_rel(m0, m1, ran1, today),
        tick_rel(m1, m2, ran2, today),
    ensures
        ran1 ==> !ran2,
        !(ran1 && ran2),
{
}

} // verus!
