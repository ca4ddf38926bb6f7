use vstd::prelude::*;
use vstd::assert_by_contradiction;
use vstd::set_lib::{lemma_int_range, lemma_len_subset, set_int_range};
use rand::Rng;

verus! {

pub const SECONDS_PER_DAY: i64 = 86400;

/// Seconds since the Unix epoch.
///
/// Relies on std::time::SystemTime::now and duration_since(UNIX_EPOCH): the
/// count of whole seconds since the epoch is non-negative; a clock that reads
/// before the epoch yields 0 here.
#[verifier::external_body]
pub fn get_time() -> (r: i64)
    ensures
        0 <= r,
{
    match std::time::SystemTime::now().duration_since(std::time::UNIX_EPOCH) {
        Ok(d) => i64::try_from(d.as_secs()).unwrap_or(i64::MAX),
        Err(_) => 0,
    }
}

/// Days since the Unix epoch, at calendar-day granularity.
pub fn get_epoch_day() -> (r: i64)
    ensures
        0 <= r,
{
    get_time() / SECONDS_PER_DAY
}

/// A uniform sample from 0..=end, wide enough for any id keyspace.
///
/// Relies on rand::Rng::gen_range over the inclusive range 0..=end: the
/// sample lies within that range (the range is non-empty since 0 <= end).
#[verifier::external_body]
pub fn async_rng_int_large(end: i64) -> (r: i64)
    requires
        0 <= end,
    ensures
        0 <= r <= end,
{
    rand::thread_rng().gen_range(0..=end)
}

/// A uniform sample from 0..=end.
pub fn async_rng_int(end: i32) -> (r: i32)
    requires
        0 <= end,
    ensures
        0 <= r <= end,
{
    async_rng_int_large(end as i64) as i32
}

/// A uniform sample from start..=end.
pub fn async_rng_range_int(start: i32, end: i32) -> (r: i32)
    requires
        start <= end,
        end - start <= i32::MAX,
    ensures
        start <= r <= end,
{
    start + async_rng_int(end - start)
}

/// A uniform index into a non-empty vector.
pub fn async_rng_index<T>(inv: &Vec<T>) -> (r: usize)
    requires
        0 < inv@.len() <= i32::MAX,
    ensures
        r < inv@.len(),
{
    async_rng_int((inv.len() - 1) as i32) as usize
}

/// A uniform element of a non-empty vector.
pub fn async_rng_item<T>(inv: &Vec<T>) -> (r: &T)
    requires
        0 < inv@.len() <= i32::MAX,
    ensures
        exists|i: int| 0 <= i < inv@.len() && *r == inv@[i],
{
    let i = async_rng_index(inv);
    &inv[i]
}

pub fn contains_i64(v: &Vec<i64>, x: i64) -> (r: bool)
    ensures
        r == v@.contains(x),
{
    let mut i: usize = 0;
    while i < v.len()
        invariant
            0 <= i <= v@.len(),
            forall|j: int| 0 <= j < i ==> v@[j] != x,
        decreases v@.len() - i,
    {
        if v[i] == x {
            return true;
        }
        i = i + 1;
    }
    false
}

/// Among the candidates 0..=len there is always an id that a table of len
/// ids does not hold: there are more candidates than ids.
proof fn lemma_small_free_id(ids: Seq<i64>)
    requires
        ids.len() + 1 <= i64::MAX,
    ensures
        exists|c: i64| 0 <= c <= ids.len() && !ids.contains(c),
{
    broadcast use vstd::seq_lib::seq_to_set_is_finite;

    assert_by_contradiction!(exists|c: i64| 0 <= c <= ids.len() && !ids.contains(c), {
        let ints = ids.map_values(|x: i64| x as int);
        let taken = ints.to_set();
        let candidates = set_int_range(0, ids.len() as int + 1);
        lemma_int_range(0, ids.len() as int + 1);
        ints.lemma_cardinality_of_set();
        assert forall|c: int| candidates.contains(c) implies taken.contains(c) by {
            let c64 = c as i64;
            assert(0 <= c64 <= ids.len());
            assert(ids.contains(c64));
            let i = choose|i: int| 0 <= i < ids.len() && ids[i] == c64;
            assert(ints[i] == c);
            assert(ints.contains(c));
        }
        lemma_len_subset(candidates, taken);
        assert(ids.len() + 1 <= ids.len());
    });
}

/// An id in 0..=bound that the given table does not hold yet. A random
/// candidate is preferred; on collision the low candidates 0..=len are
/// scanned, among which a free id always exists since the table holds only
/// len ids.
pub(crate) fn fresh_id(taken: &Vec<i64>, bound: i64) -> (r: i64)
    requires
        0 <= bound < i64::MAX,
        taken@.len() <= bound,
    ensures
        0 <= r <= bound,
        !taken@.contains(r),
{
    let candidate = async_rng_int_large(bound);
    if !contains_i64(taken, candidate) {
        return candidate;
    }
    proof {
        lemma_small_free_id(taken@);
    }
    let mut c: i64 = 0;
    loop
        invariant
            0 <= c <= taken@.len() <= bound,
            forall|j: i64| 0 <= j < c ==> taken@.contains(j),
            exists|f: i64| 0 <= f <= taken@.len() && !taken@.contains(f),
        ensures
            0 <= c <= bound,
            !taken@.contains(c),
        decreases taken@.len() - c,
    {
        if !contains_i64(taken, c) {
            break;
        }
        proof {
            if c == taken@.len() as i64 {
                let f = choose|f: i64| 0 <= f <= taken@.len() && !taken@.contains(f);
                assert(taken@.contains(f));
            }
        }
        c = c + 1;
    }
    c
}

/// What every request goes through first: the session token is validated (a
/// successful validation slides its expiry even when the format check then
/// fails, as the two run in that order), then the query arguments are held to
/// their formats. Only then may the operation itself run.
pub fn request_boiler(
    sessions: &mut crate::session::SessionStore,
    session_id: crate::session::RawSessionID,
    query: &Vec<(String, String)>,
    plutus_check: Vec<(&str, crate::plutus_error::PlutusFormat)>,
    now: i64,
) -> (r: Result<crate::session::Session, crate::plutus_error::Outcome>)
    requires
        crate::session::wf_at(old(sessions)@, now),
    ensures
        crate::session::wf_at(final(sessions)@, now),
        r matches Ok(s) ==> {
            &&& crate::session::parse_session_id(session_id.id@) == Some(s.id)
            &&& crate::session::ses_contains(old(sessions)@, s.id)
            &&& crate::session::alive(crate::session::ses_at(old(sessions)@, s.id), now)
            &&& s == (crate::session::Session {
                last_used: now,
                ..crate::session::ses_at(old(sessions)@, s.id)
            })
            &&& final(sessions)@ == old(sessions)@.update(
                crate::session::ses_idx(old(sessions)@, s.id),
                s,
            )
            &&& crate::plutus_error::check_spec(query@, plutus_check@)
                == crate::plutus_error::PlutusError::Success
        },
        r matches Err(o) ==> match o {
            crate::plutus_error::Outcome::Session(e) => final(sessions)@ == old(sessions)@
                && match e {
                crate::session::SessionError::SessionIDInvalid => crate::session::parse_session_id(
                    session_id.id@,
                ) is None,
                crate::session::SessionError::SessionIDExpired =>
                    (crate::session::parse_session_id(session_id.id@) matches Some(id)
                    && crate::session::ses_contains(old(sessions)@, id)
                    && !crate::session::alive(crate::session::ses_at(old(sessions)@, id), now)),
                crate::session::SessionError::SessionIDNoExist =>
                    (crate::session::parse_session_id(session_id.id@) matches Some(id)
                    && !crate::session::ses_contains(old(sessions)@, id)),
            },
            crate::plutus_error::Outcome::Plutus(p) => {
                &&& p == crate::plutus_error::check_spec(query@, plutus_check@)
                &&& p != crate::plutus_error::PlutusError::Success
                &&& (crate::session::parse_session_id(session_id.id@) matches Some(id)
                    && crate::session::ses_contains(old(sessions)@, id)
                    && crate::session::alive(crate::session::ses_at(old(sessions)@, id), now)
                    && final(sessions)@ == old(sessions)@.update(
                    crate::session::ses_idx(old(sessions)@, id),
                    (crate::session::Session {
                        last_used: now,
                        ..crate::session::ses_at(old(sessions)@, id)
                    }),
                ))
            },
            _ => false,
        },
{
    match session_id.into_session(sessions, now) {
        Ok(s) => {
            match crate::plutus_error::check(query, plutus_check) {
                crate::plutus_error::PlutusError::Success => Ok(s),
                e => Err(crate::plutus_error::Outcome::Plutus(e)),
            }
        },
        Err(e) => Err(crate::plutus_error::Outcome::Session(e)),
    }
}

} // verus!
