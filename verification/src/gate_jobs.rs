//! Background gate jobs: argument checks, the job index kept as a bounded
//! ring, expiry and interruption of stored jobs, and what a status call
//! answers for a job.

use crate::api::{ApiError, GateJobState, GateOp};
use crate::csv::views;
use crate::gate_runner::api_error_is;
use crate::text::{concat, decimal_spec, str_eq, trim_spec, trim_str, u64_to_string};
use crate::transport::{parse_usize, parse_usize_spec};
use vstd::prelude::*;
use vstd::string::*;

verus! {

pub open spec fn invalid_status_message() -> Seq<char> {
    "compas.gate op=status requires non-empty job_id"@
}

/// `op=status` names the job it asks about.
pub fn validate_gate_status_args(op: GateOp, job_id: Option<&str>) -> (r: Result<(), ApiError>)
    ensures
        r is Err <==> (op == GateOp::Status && (job_id is None || trim_spec(job_id->0@).len() == 0)),
        r is Err ==> api_error_is(r->Err_0, "gate.job_invalid_op"@, invalid_status_message()),
{
    if op == GateOp::Status {
        let bad = match job_id {
            None => true,
            Some(id) => trim_str(id).as_str().unicode_len() == 0,
        };
        if bad {
            return Err(
                ApiError {
                    code: String::from_str("gate.job_invalid_op"),
                    message: String::from_str("compas.gate op=status requires non-empty job_id"),
                },
            );
        }
    }
    Ok(())
}

/// A positive setting given as text, or the default where it is absent,
/// unparsable or zero.
pub open spec fn setting_spec(raw: Option<Seq<char>>, default: usize) -> usize {
    match raw {
        None => default,
        Some(s) => match parse_usize_spec(trim_spec(s)) {
            Ok(v) => if v > 0 {
                v
            } else {
                default
            },
            Err(_) => default,
        },
    }
}

/// Reads a positive job setting (time to live, ring size, wait cap).
pub fn job_setting(raw: Option<&str>, default: usize) -> (v: usize)
    ensures
        v == setting_spec(
            match raw {
                None => None,
                Some(s) => Some(s@),
            },
            default,
        ),
{
    match raw {
        None => default,
        Some(s) => {
            let t = trim_str(s);
            match parse_usize(t.as_str()) {
                Ok(v) => if v > 0 {
                    v
                } else {
                    default
                },
                Err(_) => default,
            }
        },
    }
}

/// How long a status call waits: what was asked, at most the cap.
pub fn status_wait_budget(wait_ms: Option<u64>, cap: u64) -> (b: u64)
    ensures
        b == (match wait_ms {
            None => 0,
            Some(w) => if w < cap {
                w
            } else {
                cap
            },
        }),
{
    let w = match wait_ms {
        None => 0,
        Some(w) => w,
    };
    if w < cap {
        w
    } else {
        cap
    }
}

pub open spec fn is_terminal(state: GateJobState) -> bool {
    state == GateJobState::Succeeded || state == GateJobState::Failed || state == GateJobState::Expired
}

/// A status call stops polling once the job is done or the wait is spent.
pub fn status_poll_done(state: GateJobState, elapsed_ms: u64, budget_ms: u64) -> (done: bool)
    ensures
        done == (is_terminal(state) || elapsed_ms >= budget_ms),
{
    match state {
        GateJobState::Succeeded | GateJobState::Failed | GateJobState::Expired => true,
        _ => elapsed_ms >= budget_ms,
    }
}

/// When a new job expires: its start plus the time to live.
pub fn new_job_expiry(now_ms: i64, ttl_secs: u64) -> (e: i64)
    requires
        ttl_secs * 1000 <= i64::MAX,
        i64::MIN <= now_ms + ttl_secs * 1000 <= i64::MAX,
    ensures
        e == now_ms + ttl_secs * 1000,
{
    let ttl_ms: i64 = (ttl_secs * 1000) as i64;
    now_ms + ttl_ms
}


/// The index entries other than `id`, in their order.
pub open spec fn without_id(entries: Seq<Seq<char>>, id: Seq<char>) -> Seq<Seq<char>>
    decreases entries.len(),
{
    if entries.len() == 0 {
        Seq::empty()
    } else {
        let rest = without_id(entries.drop_last(), id);
        if entries.last() == id {
            rest
        } else {
            rest.push(entries.last())
        }
    }
}

/// The index after a job is (re)registered, before the ring is trimmed:
/// the job moves to the end.
pub open spec fn registered(entries: Seq<Seq<char>>, id: Seq<char>) -> Seq<Seq<char>> {
    without_id(entries, id).push(id)
}

/// How many of the oldest entries leave a ring of `n` entries that holds at most `max`.
pub open spec fn overflow(n: nat, max: nat) -> nat {
    if n > max {
        (n - max) as nat
    } else {
        0
    }
}

/// Adds a job to the index (moving it to the end if it was there) and
/// trims the ring to `max_entries`; returns the entries that left, oldest
/// first, whose records are then deleted.
pub fn register_job(entries: &mut Vec<String>, job_id: &str, max_entries: usize) -> (removed: Vec<String>)
    ensures
        ({
            let all = registered(views(old(entries)@), job_id@);
            let k = overflow(all.len(), max_entries as nat) as int;
            &&& views(final(entries)@) == all.skip(k)
            &&& views(removed@) == all.take(k)
        }),
{
    let ghost ev = views(entries@);
    let mut all: Vec<String> = Vec::new();
    let mut i: usize = 0;
    while i < entries.len()
        invariant
            ev == views(entries@),
            i <= ev.len(),
            views(all@) == without_id(ev.take(i as int), job_id@),
            all@.len() <= i,
        decreases ev.len() - i,
    {
        proof {
            assert(ev.take(i + 1).drop_last() =~= ev.take(i as int));
        }
        if !str_eq(entries[i].as_str(), job_id) {
            all.push(entries[i].clone());
            proof {
                assert(views(all@) =~= without_id(ev.take(i as int), job_id@).push(ev[i as int]));
            }
        }
        i = i + 1;
    }
    proof {
        assert(ev.take(ev.len() as int) =~= ev);
    }
    all.push(job_id.to_string());
    let ghost full = views(all@);
    proof {
        assert(full =~= registered(ev, job_id@));
    }
    let n = all.len();
    let k: usize = if n > max_entries { n - max_entries } else { 0 };
    let mut removed: Vec<String> = Vec::new();
    let mut kept: Vec<String> = Vec::new();
    let mut j: usize = 0;
    while j < n
        invariant
            n == all@.len(),
            full == views(all@),
            k <= n,
            j <= n,
            j <= k ==> views(removed@) == full.take(j as int) && kept@.len() == 0,
            j > k ==> views(removed@) == full.take(k as int) && views(kept@) == full.subrange(k as int, j as int),
        decreases n - j,
    {
        if j < k {
            removed.push(all[j].clone());
            proof {
                assert(views(removed@) =~= full.take(j + 1));
            }
        } else {
            kept.push(all[j].clone());
            proof {
                assert(views(kept@) =~= full.subrange(k as int, j + 1));
            }
        }
        j = j + 1;
    }
    proof {
        if n <= k {
            assert(k == n);
            assert(full.skip(k as int) =~= Seq::<Seq<char>>::empty());
            assert(views(kept@) =~= Seq::<Seq<char>>::empty());
        } else {
            assert(full.subrange(k as int, n as int) =~= full.skip(k as int));
        }
    }
    *entries = kept;
    removed
}

/// A stored job is alive while its record could be read and has not expired.
pub open spec fn alive(expiry: Option<i64>, now: i64) -> bool {
    match expiry {
        Some(e) => e > now,
        None => false,
    }
}

/// The entries whose records are alive at `now`.
pub open spec fn live_entries(entries: Seq<Seq<char>>, expiry: Seq<Option<i64>>, now: i64) -> Seq<Seq<char>>
    decreases entries.len(),
{
    if entries.len() == 0 {
        Seq::empty()
    } else {
        let rest = live_entries(entries.drop_last(), expiry.take(entries.len() - 1), now);
        if alive(expiry[entries.len() - 1], now) {
            rest.push(entries.last())
        } else {
            rest
        }
    }
}

/// Prunes the index: `expiry[i]` is the stored expiry of entry `i`'s record,
/// `None` where the record is missing or unreadable. The entries left out
/// have their records deleted.
pub fn prune_expired(entries: &Vec<String>, expiry: &Vec<Option<i64>>, now: i64) -> (kept: Vec<String>)
    requires
        entries@.len() == expiry@.len(),
    ensures
        views(kept@) == live_entries(views(entries@), expiry@, now),
{
    let ghost ev = views(entries@);
    let mut kept: Vec<String> = Vec::new();
    let mut i: usize = 0;
    while i < entries.len()
        invariant
            ev == views(entries@),
            entries@.len() == expiry@.len(),
            i <= ev.len(),
            views(kept@) == live_entries(ev.take(i as int), expiry@.take(i as int), now),
        decreases ev.len() - i,
    {
        proof {
            assert(ev.take(i + 1).drop_last() =~= ev.take(i as int));
            assert(expiry@.take(i + 1).take(i as int) =~= expiry@.take(i as int));
        }
        let live = match expiry[i] {
            Some(e) => e > now,
            None => false,
        };
        if live {
            kept.push(entries[i].clone());
            proof {
                assert(views(kept@) =~= live_entries(ev.take(i as int), expiry@.take(i as int), now).push(ev[i as int]));
            }
        }
        i = i + 1;
    }
    proof {
        assert(ev.take(ev.len() as int) =~= ev);
        assert(expiry@.take(ev.len() as int) =~= expiry@);
    }
    kept
}


/// What is kept of a stored job that decisions read.
#[derive(Debug, Clone)]
pub struct StoredJob {
    pub job_id: String,
    pub state: GateJobState,
    pub updated_at_ms: i64,
    pub expires_at_ms: i64,
    pub owner_pid: u32,
    /// Whether a gate output is stored with the job.
    pub has_result: bool,
    pub job_error: Option<ApiError>,
}

/// What became of a stored job when it was loaded.
#[derive(Debug, Clone, Copy, PartialEq, Eq, Structural)]
pub enum JobRefresh {
    /// Its time ran out: the record is deleted and leaves the index.
    Expired,
    /// It was still pending or running in another process: it is marked
    /// failed and written back.
    Interrupted,
    /// Nothing changed.
    Current,
}

pub open spec fn expired_message(job_id: Seq<char>) -> Seq<char> {
    "gate job "@ + job_id + " expired"@
}

pub open spec fn interrupted_message(job_id: Seq<char>, owner_pid: u32) -> Seq<char> {
    "gate job "@ + job_id + " was created in another session/process (pid="@ + decimal_spec(owner_pid as nat)
        + ")"@
}

pub open spec fn is_active(state: GateJobState) -> bool {
    state == GateJobState::Pending || state == GateJobState::Running
}

/// What loading does to a job with this expiry, state and owner.
pub open spec fn refresh_outcome(expires_at_ms: i64, state: GateJobState, owner_pid: u32, now_ms: i64, current_pid: u32) -> JobRefresh {
    if expires_at_ms <= now_ms {
        JobRefresh::Expired
    } else if is_active(state) && owner_pid != current_pid {
        JobRefresh::Interrupted
    } else {
        JobRefresh::Current
    }
}

/// The state of a job after it is loaded.
pub open spec fn refreshed_state(expires_at_ms: i64, state: GateJobState, owner_pid: u32, now_ms: i64, current_pid: u32) -> GateJobState {
    match refresh_outcome(expires_at_ms, state, owner_pid, now_ms, current_pid) {
        JobRefresh::Expired => GateJobState::Expired,
        JobRefresh::Interrupted => GateJobState::Failed,
        JobRefresh::Current => state,
    }
}

/// The error of an expired job.
pub fn expired_job_error(job_id: &str) -> (e: ApiError)
    ensures
        api_error_is(e, "gate.job_expired"@, expired_message(job_id@)),
{
    let a = concat("gate job ", job_id);
    ApiError { code: String::from_str("gate.job_expired"), message: concat(a.as_str(), " expired") }
}

/// Applies the load-time rules to a stored job: an expired job becomes
/// `Expired` and loses its result; an unfinished job owned by another
/// process becomes `Failed`; any other job is left as it is.
pub fn refresh_stored_job(job: &mut StoredJob, now_ms: i64, current_pid: u32) -> (r: JobRefresh)
    ensures
        r == refresh_outcome(old(job).expires_at_ms, old(job).state, old(job).owner_pid, now_ms, current_pid),
        final(job).state == refreshed_state(old(job).expires_at_ms, old(job).state, old(job).owner_pid, now_ms, current_pid),
        old(job).expires_at_ms <= now_ms ==> {
            &&& r == JobRefresh::Expired
            &&& final(job).state == GateJobState::Expired
            &&& !final(job).has_result
            &&& final(job).job_error is Some
            &&& api_error_is(final(job).job_error->0, "gate.job_expired"@, expired_message(old(job).job_id@))
            &&& final(job).job_id == old(job).job_id
            &&& final(job).updated_at_ms == old(job).updated_at_ms
            &&& final(job).expires_at_ms == old(job).expires_at_ms
            &&& final(job).owner_pid == old(job).owner_pid
        },
        old(job).expires_at_ms > now_ms && is_active(old(job).state) && old(job).owner_pid != current_pid ==> {
            &&& r == JobRefresh::Interrupted
            &&& final(job).state == GateJobState::Failed
            &&& final(job).updated_at_ms == now_ms
            &&& !final(job).has_result
            &&& final(job).job_error is Some
            &&& api_error_is(
                final(job).job_error->0,
                "gate.runner_interrupted"@,
                interrupted_message(old(job).job_id@, old(job).owner_pid),
            )
            &&& final(job).job_id == old(job).job_id
            &&& final(job).expires_at_ms == old(job).expires_at_ms
            &&& final(job).owner_pid == old(job).owner_pid
        },
        old(job).expires_at_ms > now_ms && !(is_active(old(job).state) && old(job).owner_pid != current_pid) ==> {
            &&& r == JobRefresh::Current
            &&& *final(job) == *old(job)
        },
{
    if job.expires_at_ms <= now_ms {
        let e = expired_job_error(job.job_id.as_str());
        job.state = GateJobState::Expired;
        job.has_result = false;
        job.job_error = Some(e);
        return JobRefresh::Expired;
    }
    let active = match job.state {
        GateJobState::Pending | GateJobState::Running => true,
        _ => false,
    };
    if active && job.owner_pid != current_pid {
        let a = concat("gate job ", job.job_id.as_str());
        let b = concat(a.as_str(), " was created in another session/process (pid=");
        let pid = u64_to_string(job.owner_pid as u64);
        let c = concat(b.as_str(), pid.as_str());
        let msg = concat(c.as_str(), ")");
        job.updated_at_ms = now_ms;
        job.state = GateJobState::Failed;
        job.has_result = false;
        job.job_error = Some(ApiError { code: String::from_str("gate.runner_interrupted"), message: msg });
        return JobRefresh::Interrupted;
    }
    JobRefresh::Current
}

/// What a status call answers for a job whose record carries no result:
/// whether the call is `ok`, and its error.
pub open spec fn record_status_spec(
    state: GateJobState,
    job_id: Seq<char>,
    job_error: Option<(Seq<char>, Seq<char>)>,
) -> (bool, Option<(Seq<char>, Seq<char>)>) {
    match state {
        GateJobState::Pending | GateJobState::Running => (true, None),
        GateJobState::Expired => (false, Some(("gate.job_expired"@, expired_message(job_id)))),
        GateJobState::Failed => (
            false,
            match job_error {
                Some(e) => Some(e),
                None => Some(("gate.job_failed"@, "gate job "@ + job_id + " failed"@)),
            },
        ),
        GateJobState::Succeeded => (
            false,
            Some(("gate.job_missing_result"@, "gate job "@ + job_id + " has no result payload"@)),
        ),
    }
}

pub open spec fn error_pair(e: Option<ApiError>) -> Option<(Seq<char>, Seq<char>)> {
    match e {
        Some(e) => Some((e.code@, e.message@)),
        None => None,
    }
}

/// The answer for a job without a result (see `record_status_spec`).
pub fn record_status(state: GateJobState, job_id: &str, job_error: &Option<ApiError>) -> (r: (
    bool,
    Option<ApiError>,
))
    ensures
        (r.0, error_pair(r.1)) == record_status_spec(state, job_id@, error_pair(*job_error)),
{
    match state {
        GateJobState::Pending | GateJobState::Running => (true, None),
        GateJobState::Expired => (false, Some(expired_job_error(job_id))),
        GateJobState::Failed => match job_error {
            Some(e) => (false, Some(ApiError { code: e.code.clone(), message: e.message.clone() })),
            None => {
                let a = concat("gate job ", job_id);
                (false, Some(ApiError { code: String::from_str("gate.job_failed"), message: concat(a.as_str(), " failed") }))
            },
        },
        GateJobState::Succeeded => {
            let a = concat("gate job ", job_id);
            (
                false,
                Some(
                    ApiError {
                        code: String::from_str("gate.job_missing_result"),
                        message: concat(a.as_str(), " has no result payload"),
                    },
                ),
            )
        },
    }
}

/// The error of a status call for a job that is not stored.
pub fn job_not_found_error(job_id: &str) -> (e: ApiError)
    ensures
        api_error_is(e, "gate.job_not_found"@, "gate job not found: "@ + job_id@),
{
    ApiError { code: String::from_str("gate.job_not_found"), message: concat("gate job not found: ", job_id) }
}


/// Registering a job leaves it as the newest entry of the index, exactly
/// once, in a ring of at most `max_entries` entries.
pub proof fn law_register_keeps_new_job(entries: Seq<Seq<char>>, id: Seq<char>, max_entries: nat)
    requires
        max_entries > 0,
    ensures
        ({
            let all = registered(entries, id);
            let after = all.skip(overflow(all.len(), max_entries) as int);
            &&& 1 <= after.len() <= max_entries
            &&& after.last() == id
            &&& forall|i: int| 0 <= i < after.len() - 1 ==> after[i] != id
        }),
{
    lemma_without_id_excludes(entries, id);
    let all = registered(entries, id);
    let k = overflow(all.len(), max_entries) as int;
    let after = all.skip(k);
    assert forall|i: int| 0 <= i < after.len() - 1 implies after[i] != id by {
        assert(after[i] == without_id(entries, id)[i + k]);
    }
}

/// `without_id` leaves no entry equal to the id and keeps the others' order.
pub proof fn lemma_without_id_excludes(entries: Seq<Seq<char>>, id: Seq<char>)
    ensures
        forall|i: int| 0 <= i < without_id(entries, id).len() ==> without_id(entries, id)[i] != id,
        without_id(entries, id).len() <= entries.len(),
    decreases entries.len(),
{
    if entries.len() > 0 {
        lemma_without_id_excludes(entries.drop_last(), id);
    }
}

/// `without_id` of a sequence without the id is the sequence itself.
proof fn lemma_without_id_absent(entries: Seq<Seq<char>>, id: Seq<char>)
    requires
        forall|i: int| 0 <= i < entries.len() ==> entries[i] != id,
    ensures
        without_id(entries, id) == entries,
    decreases entries.len(),
{
    if entries.len() > 0 {
        lemma_without_id_absent(entries.drop_last(), id);
        assert(without_id(entries.drop_last(), id).push(entries.last()) =~= entries);
    }
}

/// Registering the same job twice leaves the index as registering it once.
pub proof fn law_register_twice_is_register_once(entries: Seq<Seq<char>>, id: Seq<char>, max_entries: nat)
    ensures
        ({
            let once_all = registered(entries, id);
            let once = once_all.skip(overflow(once_all.len(), max_entries) as int);
            let twice_all = registered(once, id);
            &&& twice_all.skip(overflow(twice_all.len(), max_entries) as int) == once
        }),
{
    let once_all = registered(entries, id);
    let k = overflow(once_all.len(), max_entries) as int;
    let once = once_all.skip(k);
    lemma_without_id_excludes(entries, id);
    if once.len() == 0 {
        assert(registered(once, id) =~= seq![id]);
        assert(max_entries == 0);
        assert(registered(once, id).skip(1) =~= once);
    } else {
        let w = once.drop_last();
        assert(w =~= without_id(entries, id).skip(k));
        assert forall|i: int| 0 <= i < w.len() implies w[i] != id by {
            assert(w[i] == without_id(entries, id)[i + k]);
        }
        lemma_without_id_absent(w, id);
        assert(once.drop_last().push(once.last()) =~= once);
        assert(without_id(once, id) == w);
        assert(registered(once, id) =~= once);
        assert(once.len() <= max_entries);
        assert(once.skip(0) =~= once);
    }
}

/// Loading a job again at the same time, in the same process, changes
/// nothing more: a loaded job's state is already settled.
pub proof fn law_loaded_job_is_settled(expires_at_ms: i64, state: GateJobState, owner_pid: u32, now_ms: i64, current_pid: u32)
    ensures
        ({
            let s1 = refreshed_state(expires_at_ms, state, owner_pid, now_ms, current_pid);
            &&& refreshed_state(expires_at_ms, s1, owner_pid, now_ms, current_pid) == s1
            &&& refresh_outcome(expires_at_ms, s1, owner_pid, now_ms, current_pid) != JobRefresh::Interrupted
        }),
{
}

/// Every entry that survives pruning is alive at `now`, and pruning keeps
/// the entries' order.
pub proof fn law_prune_keeps_only_live_entries(entries: Seq<Seq<char>>, expiry: Seq<Option<i64>>, now: i64)
    requires
        entries.len() == expiry.len(),
    ensures
        live_entries(entries, expiry, now).len() <= entries.len(),
        forall|i: int|
            0 <= i < live_entries(entries, expiry, now).len() ==> exists|j: int|
                0 <= j < entries.len() && #[trigger] entries[j] == #[trigger] live_entries(entries, expiry, now)[i]
                    && alive(expiry[j], now),
    decreases entries.len(),
{
    if entries.len() > 0 {
        let n = entries.len() - 1;
        let d = entries.drop_last();
        let x = expiry.take(n);
        law_prune_keeps_only_live_entries(d, x, now);
        let rest = live_entries(d, x, now);
        let all = live_entries(entries, expiry, now);
        assert forall|i: int| 0 <= i < all.len() implies exists|j: int|
            0 <= j < entries.len() && #[trigger] entries[j] == #[trigger] all[i] && alive(expiry[j], now) by {
            if i < rest.len() {
                let j = choose|j: int| 0 <= j < d.len() && #[trigger] d[j] == #[trigger] rest[i] && alive(x[j], now);
                assert(entries[j] == d[j]);
                assert(expiry[j] == x[j]);
            } else {
                assert(entries[n] == all[i]);
            }
        }
    }
}

} // verus!
