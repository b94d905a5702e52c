//! Cron jobs: events fired every so many seconds, their schedule and the
//! reports of their runs.
//!
//! Times are Unix timestamps in milliseconds.  A job's data is kept as JSON
//! text.
use vstd::prelude::*;
use crate::automation::registry::{Identified, first_record_at, has_record, position_of};
use crate::error::{MosaicError, fails_with};
use crate::sorting::{Ordered, Stamp, sort_stable, stable_sort, stamp_indices};
use crate::text::{cat, cat3, decimal, opt_view, owned, trim, trim_str, u64_to_string};

verus! {

/// What a job's last run gave.
#[derive(Debug)]
pub struct CronLastResult {
    pub ok: bool,
    pub hooks_triggered: usize,
    pub hooks_ok: usize,
    pub hooks_failed: usize,
    pub error: Option<String>,
}

/// A cron job.
#[derive(Debug)]
pub struct CronJobRecord {
    pub id: String,
    pub name: String,
    pub event: String,
    pub every_seconds: u64,
    pub data: String,
    pub enabled: bool,
    pub created_at: i64,
    pub updated_at: i64,
    pub last_run_at: Option<i64>,
    pub next_run_at: i64,
    pub run_count: u64,
    pub last_result: Option<CronLastResult>,
}

impl Identified for CronJobRecord {
    open spec fn id_view(&self) -> Seq<char> {
        self.id@
    }

    fn id_str(&self) -> (s: &str) {
        self.id.as_str()
    }
}

/// What running a job reported.
#[derive(Debug)]
pub struct CronExecutionReport {
    pub job_id: String,
    pub job_name: String,
    pub trigger: String,
    pub event: String,
    pub ok: bool,
    pub hooks_triggered: usize,
    pub hooks_ok: usize,
    pub hooks_failed: usize,
    pub error: Option<String>,
}

/// What adding a job yields: a positive interval, and a name and an event
/// that are not blank (trimmed).  A new job is due at once.
pub open spec fn cron_job_added(
    name: Seq<char>,
    event: Seq<char>,
    every: u64,
    data: Seq<char>,
    disabled: bool,
    id: Seq<char>,
    now: i64,
    out: Result<CronJobRecord, MosaicError>,
) -> bool {
    if every == 0 {
        fails_with(out, "--every must be greater than 0 seconds"@)
    } else if trim(name).len() == 0 {
        fails_with(out, "cron job name cannot be empty"@)
    } else if trim(event).len() == 0 {
        fails_with(out, "cron event cannot be empty"@)
    } else {
        out matches Ok(j) && j.id@ == id && j.name@ == trim(name) && j.event@ == trim(event)
            && j.every_seconds == every && j.data@ == data && j.enabled == !disabled
            && j.created_at == now && j.updated_at == now && j.last_run_at is None && j.next_run_at
            == now && j.run_count == 0 && j.last_result is None
    }
}

/// A new job with the given id, created at `now`.
pub fn new_cron_job(
    name: &str,
    event: &str,
    every: u64,
    data: String,
    disabled: bool,
    id: String,
    now: i64,
) -> (out: Result<CronJobRecord, MosaicError>)
    ensures
        cron_job_added(name@, event@, every, data@, disabled, id@, now, out),
{
    if every == 0 {
        return Err(MosaicError::Validation(owned("--every must be greater than 0 seconds")));
    }
    let name = trim_str(name);
    if name.as_str().is_empty() {
        return Err(MosaicError::Validation(owned("cron job name cannot be empty")));
    }
    let event = trim_str(event);
    if event.as_str().is_empty() {
        return Err(MosaicError::Validation(owned("cron event cannot be empty")));
    }
    Ok(
        CronJobRecord {
            id,
            name,
            event,
            every_seconds: every,
            data,
            enabled: !disabled,
            created_at: now,
            updated_at: now,
            last_run_at: None,
            next_run_at: now,
            run_count: 0,
            last_result: None,
        },
    )
}

/// The message for a job id that matches no job.
pub open spec fn cron_job_not_found(id: Seq<char>) -> Seq<char> {
    "cron job '"@ + id + "' not found"@
}

/// The position of the first job with the given id.
pub fn find_cron_job(jobs: &Vec<CronJobRecord>, id: &str) -> (out: Result<usize, MosaicError>)
    ensures
        match out {
            Ok(i) => first_record_at(jobs@, id@, i as int),
            Err(e) => !has_record(jobs@, id@) && fails_with(
                Err::<(), MosaicError>(e),
                cron_job_not_found(id@),
            ),
        },
{
    match position_of(jobs, id) {
        Some(i) => Ok(i),
        None => Err(MosaicError::Validation(cat3("cron job '", id, "' not found"))),
    }
}

/// Enables or disables the first job with the given id, at `now`.
pub fn set_cron_job_enabled(jobs: &mut Vec<CronJobRecord>, id: &str, enabled: bool, now: i64) -> (out:
    Result<usize, MosaicError>)
    ensures
        match out {
            Ok(i) => first_record_at(old(jobs)@, id@, i as int) && final(jobs)@.len() == old(
                jobs,
            )@.len() && (forall|j: int|
                0 <= j < old(jobs)@.len() && j != i ==> final(jobs)@[j] == old(jobs)@[j]) && ({
                let (a, b) = (old(jobs)@[i as int], final(jobs)@[i as int]);
                &&& b.enabled == enabled && b.updated_at == now
                &&& b.id == a.id && b.name == a.name && b.event == a.event && b.every_seconds
                    == a.every_seconds && b.data == a.data
                &&& b.created_at == a.created_at && b.last_run_at == a.last_run_at && b.next_run_at
                    == a.next_run_at && b.run_count == a.run_count && b.last_result == a.last_result
            }),
            Err(e) => final(jobs)@ == old(jobs)@ && !has_record(old(jobs)@, id@) && fails_with(
                Err::<(), MosaicError>(e),
                cron_job_not_found(id@),
            ),
        },
{
    let i = match find_cron_job(jobs, id) {
        Ok(i) => i,
        Err(e) => return Err(e),
    };
    let mut j = jobs.remove(i);
    j.enabled = enabled;
    j.updated_at = now;
    jobs.insert(i, j);
    Ok(i)
}

/// The next run of a job run at `from` every `every_seconds` seconds.
pub open spec fn next_run(from: i64, every_seconds: u64) -> Result<int, Seq<char>> {
    if every_seconds == 0 {
        Err("cron interval must be greater than 0 seconds"@)
    } else if every_seconds > i64::MAX {
        Err("cron interval is too large to schedule"@)
    } else {
        Ok(from + every_seconds * 1000)
    }
}

/// An interval and a start whose next run is an error or a time that fits:
/// intervals over `i64::MAX / 1000` seconds up to `i64::MAX` are not
/// durations at all.
pub open spec fn schedulable(from: i64, every_seconds: u64) -> bool {
    every_seconds == 0 || every_seconds > i64::MAX || (every_seconds <= i64::MAX / 1000 && from
        + every_seconds * 1000 <= i64::MAX)
}

/// The next run of a job run at `from` every `every_seconds` seconds.
pub fn next_cron_run_at(from: i64, every_seconds: u64) -> (out: Result<i64, MosaicError>)
    requires
        schedulable(from, every_seconds),
    ensures
        match next_run(from, every_seconds) {
            Ok(t) => out == Ok::<i64, MosaicError>(t as i64),
            Err(m) => fails_with(out, m),
        },
{
    if every_seconds == 0 {
        return Err(MosaicError::Validation(owned("cron interval must be greater than 0 seconds")));
    }
    if every_seconds > (i64::MAX as u64) {
        return Err(MosaicError::Validation(owned("cron interval is too large to schedule")));
    }
    let secs: i64 = every_seconds as i64;
    Ok(from + secs * 1000)
}

/// The tally of the hooks that a run triggered: how many, how many
/// succeeded and failed, and the error when some failed.
pub open spec fn failed_hooks_message(failed: nat) -> Seq<char> {
    decimal(failed) + " hook execution(s) failed"@
}

/// How many of the hook runs succeeded.
pub open spec fn count_ok(s: Seq<bool>) -> nat
    decreases s.len(),
{
    if s.len() == 0 {
        0
    } else {
        count_ok(s.drop_last()) + if s.last() {
            1nat
        } else {
            0nat
        }
    }
}

proof fn lemma_count_ok_le(s: Seq<bool>)
    ensures
        count_ok(s) <= s.len(),
    decreases s.len(),
{
    if s.len() > 0 {
        lemma_count_ok_le(s.drop_last());
    }
}

/// How many of the hook runs succeeded.
pub fn count_successes(hook_oks: &Vec<bool>) -> (n: usize)
    ensures
        n == count_ok(hook_oks@),
        n <= hook_oks@.len(),
{
    let mut n: usize = 0;
    let mut i: usize = 0;
    while i < hook_oks.len()
        invariant
            i <= hook_oks.len(),
            n == count_ok(hook_oks@.take(i as int)),
        decreases hook_oks.len() - i,
    {
        proof {
            assert(hook_oks@.take(i + 1).drop_last() =~= hook_oks@.take(i as int));
            lemma_count_ok_le(hook_oks@.take(i as int));
        }
        if hook_oks[i] {
            n += 1;
        }
        i += 1;
    }
    proof {
        assert(hook_oks@.take(hook_oks.len() as int) =~= hook_oks@);
        lemma_count_ok_le(hook_oks@);
    }
    n
}

/// The error of a run whose hooks ran: none when all succeeded.
pub fn failed_hooks_error(failed: usize) -> (e: Option<String>)
    ensures
        failed == 0 ==> e is None,
        failed > 0 ==> opt_view(e) == Some(failed_hooks_message(failed as nat)),
{
    if failed > 0 {
        let n = u64_to_string(failed as u64);
        Some(cat(n.as_str(), " hook execution(s) failed"))
    } else {
        None
    }
}

/// The report of a job run whose event fired the hooks with these
/// outcomes: it succeeded when no hook failed.
pub fn cron_report_from_hooks(job: &CronJobRecord, trigger: &str, hook_oks: &Vec<bool>) -> (r:
    CronExecutionReport)
    ensures
        r.job_id == job.id && r.job_name == job.name && r.event == job.event,
        r.trigger@ == trigger@,
        r.hooks_triggered == hook_oks@.len(),
        r.hooks_ok == count_ok(hook_oks@),
        r.hooks_failed == hook_oks@.len() - count_ok(hook_oks@),
        r.ok == (r.hooks_failed == 0),
        r.hooks_failed == 0 ==> r.error is None,
        r.hooks_failed > 0 ==> opt_view(r.error) == Some(failed_hooks_message(r.hooks_failed as nat)),
{
    let triggered = hook_oks.len();
    let ok = count_successes(hook_oks);
    let failed = triggered - ok;
    CronExecutionReport {
        job_id: job.id.clone(),
        job_name: job.name.clone(),
        trigger: owned(trigger),
        event: job.event.clone(),
        ok: failed == 0,
        hooks_triggered: triggered,
        hooks_ok: ok,
        hooks_failed: failed,
        error: failed_hooks_error(failed),
    }
}

/// The report of a job run whose event could not be fired.
pub fn cron_report_from_error(job: &CronJobRecord, trigger: &str, message: String) -> (r:
    CronExecutionReport)
    ensures
        r.job_id == job.id && r.job_name == job.name && r.event == job.event,
        r.trigger@ == trigger@,
        !r.ok && r.hooks_triggered == 0 && r.hooks_ok == 0 && r.hooks_failed == 0,
        opt_view(r.error) == Some(message@),
{
    CronExecutionReport {
        job_id: job.id.clone(),
        job_name: job.name.clone(),
        trigger: owned(trigger),
        event: job.event.clone(),
        ok: false,
        hooks_triggered: 0,
        hooks_ok: 0,
        hooks_failed: 0,
        error: Some(message),
    }
}

/// Records a run at `ran_at`: the run's time and count are updated first,
/// then the next run is scheduled, and the run's result kept; an interval
/// that cannot be scheduled stops there with its error.
pub fn apply_cron_result(job: &mut CronJobRecord, report: &CronExecutionReport, ran_at: i64) -> (out:
    Result<(), MosaicError>)
    requires
        schedulable(ran_at, old(job).every_seconds),
    ensures
        final(job).updated_at == ran_at,
        final(job).last_run_at == Some(ran_at),
        final(job).run_count == if old(job).run_count == u64::MAX {
            u64::MAX as int
        } else {
            old(job).run_count + 1
        },
        final(job).id == old(job).id,
        final(job).name == old(job).name,
        final(job).event == old(job).event,
        final(job).every_seconds == old(job).every_seconds,
        final(job).data == old(job).data,
        final(job).enabled == old(job).enabled,
        final(job).created_at == old(job).created_at,
        match next_run(ran_at, old(job).every_seconds) {
            Ok(t) => out is Ok && final(job).next_run_at == t && (final(job).last_result matches Some(l)
                && l.ok == report.ok && l.hooks_triggered == report.hooks_triggered && l.hooks_ok
                == report.hooks_ok && l.hooks_failed == report.hooks_failed && l.error
                == report.error),
            Err(m) => fails_with(out, m) && final(job).next_run_at == old(job).next_run_at
                && final(job).last_result == old(job).last_result,
        },
{
    job.updated_at = ran_at;
    job.last_run_at = Some(ran_at);
    job.run_count = job.run_count.saturating_add(1);
    let next = match next_cron_run_at(ran_at, job.every_seconds) {
        Ok(t) => t,
        Err(e) => return Err(e),
    };
    job.next_run_at = next;
    job.last_result = Some(
        CronLastResult {
            ok: report.ok,
            hooks_triggered: report.hooks_triggered,
            hooks_ok: report.hooks_ok,
            hooks_failed: report.hooks_failed,
            error: crate::channels::store::clone_opt_string(&report.error),
        },
    );
    Ok(())
}

/// The stamps of the jobs due at `now` (enabled, their next run not after
/// `now`), in position order.
pub open spec fn due_stamps(jobs: Seq<CronJobRecord>, now: i64) -> Seq<Stamp>
    decreases jobs.len(),
{
    if jobs.len() == 0 {
        Seq::<Stamp>::empty()
    } else {
        let rest = due_stamps(jobs.drop_last(), now);
        let j = jobs.last();
        if j.enabled && j.next_run_at <= now {
            rest.push(Stamp { ts: j.next_run_at, index: (jobs.len() - 1) as usize })
        } else {
            rest
        }
    }
}

/// The jobs a tick at `now` runs: the due ones, earliest next run first
/// (equal ones in position order), at most `limit` of them.
pub fn due_cron_jobs(jobs: &Vec<CronJobRecord>, now: i64, limit: usize) -> (out: Result<
    Vec<usize>,
    MosaicError,
>)
    ensures
        limit == 0 ==> fails_with(out, "--limit must be greater than 0"@),
        limit > 0 ==> (out matches Ok(v) && v@ == stamp_indices(stable_sort(due_stamps(jobs@, now))).take(
            if stable_sort(due_stamps(jobs@, now)).len() < limit {
                stable_sort(due_stamps(jobs@, now)).len() as int
            } else {
                limit as int
            },
        )),
{
    if limit == 0 {
        return Err(MosaicError::Validation(owned("--limit must be greater than 0")));
    }
    let mut due: Vec<Stamp> = Vec::new();
    let mut i: usize = 0;
    while i < jobs.len()
        invariant
            i <= jobs.len(),
            due@ == due_stamps(jobs@.take(i as int), now),
        decreases jobs.len() - i,
    {
        proof {
            assert(jobs@.take(i + 1).drop_last() =~= jobs@.take(i as int));
        }
        if jobs[i].enabled && jobs[i].next_run_at <= now {
            due.push(Stamp { ts: jobs[i].next_run_at, index: i });
        }
        i += 1;
    }
    assert(jobs@.take(jobs.len() as int) =~= jobs@);
    let sorted = sort_stable(due);
    let n = if sorted.len() < limit {
        sorted.len()
    } else {
        limit
    };
    let mut out: Vec<usize> = Vec::new();
    let mut k: usize = 0;
    while k < n
        invariant
            k <= n <= sorted@.len(),
            out@ == stamp_indices(sorted@).take(k as int),
        decreases n - k,
    {
        out.push(sorted[k].index);
        k += 1;
        assert(out@ =~= stamp_indices(sorted@).take(k as int));
    }
    Ok(out)
}

} // verus!
