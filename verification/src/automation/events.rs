//! System events and the logs of automation runs: the flags an event's
//! data carries, when the memory cleanup may run again, which logged runs a
//! query keeps, and the sums of a log.
//!
//! Times are Unix timestamps in milliseconds.
use vstd::prelude::*;
use crate::error::{MosaicError, fails_with};
use crate::sorting::tail_of;
use crate::tally::{Tally, tallies_of, tally_texts};
use crate::sorting::views;
use crate::text::{cat, cat5, str_eq};

verus! {

/// A value of a field of an event's data, as far as the flags go.
#[derive(Debug)]
pub enum EventValue {
    Null,
    Bool(bool),
    Other,
}

/// A field of an event's data.
#[derive(Debug)]
pub struct EventField {
    pub key: String,
    pub value: EventValue,
}

/// An event's data: nothing, an object with its fields, or another JSON
/// value.
#[derive(Debug)]
pub enum EventData {
    Null,
    Object(Vec<EventField>),
    Other,
}

/// The first field of `fields` named `key`.
pub open spec fn field_at(fields: Seq<EventField>, key: Seq<char>, i: int) -> bool {
    &&& 0 <= i < fields.len()
    &&& fields[i].key@ == key
    &&& forall|j: int| 0 <= j < i ==> (#[trigger] fields[j]).key@ != key
}

/// What reading the flag `key` of an event's data yields: none when the
/// data or the field is absent, the flag when it is a boolean, else the
/// message of the validation error.
pub open spec fn event_flag(event_name: Seq<char>, data: EventData, key: Seq<char>) -> Result<
    Option<bool>,
    Seq<char>,
> {
    match data {
        EventData::Null => Ok(None),
        EventData::Object(fields) => if exists|i: int| field_at(fields@, key, i) {
            let i = choose|i: int| field_at(fields@, key, i);
            match fields@[i].value {
                EventValue::Bool(b) => Ok(Some(b)),
                _ => Err("system event '"@ + event_name + "' field '"@ + key + "' must be a boolean"@),
            }
        } else {
            Ok(None)
        },
        EventData::Other => Err("system event '"@ + event_name + "' data must be an object or null"@),
    }
}

/// Reads the flag `key` of an event's data.
pub fn parse_optional_event_bool(event_name: &str, data: &EventData, key: &str) -> (out: Result<
    Option<bool>,
    MosaicError,
>)
    ensures
        match event_flag(event_name@, *data, key@) {
            Ok(v) => out == Ok::<Option<bool>, MosaicError>(v),
            Err(m) => fails_with(out, m),
        },
{
    match data {
        EventData::Null => Ok(None),
        EventData::Other => Err(
            MosaicError::Validation(
                cat(cat("system event '", event_name).as_str(), "' data must be an object or null"),
            ),
        ),
        EventData::Object(fields) => {
            let mut i: usize = 0;
            while i < fields.len()
                invariant
                    i <= fields.len(),
                    *data == EventData::Object(*fields),
                    forall|j: int| 0 <= j < i ==> (#[trigger] fields@[j]).key@ != key@,
                decreases fields.len() - i,
            {
                if str_eq(fields[i].key.as_str(), key) {
                    assert(field_at(fields@, key@, i as int));
                    proof {
                        assert(exists|c: int| field_at(fields@, key@, c));
                        let c = choose|c: int| field_at(fields@, key@, c);
                        assert(c == i) by {
                            if c < i {
                                assert(fields@[c].key@ != key@);
                            } else if c > i {
                                assert(fields@[i as int].key@ != key@);
                            }
                        }
                    }
                    return match &fields[i].value {
                        EventValue::Bool(b) => Ok(Some(*b)),
                        _ => Err(
                            MosaicError::Validation(
                                cat5(
                                    "system event '",
                                    event_name,
                                    "' field '",
                                    key,
                                    "' must be a boolean",
                                ),
                            ),
                        ),
                    };
                }
                i += 1;
            }
            Ok(None)
        },
    }
}

/// The events that the memory cleanup handles.
pub open spec fn is_memory_cleanup(event_name: Seq<char>) -> bool {
    event_name == "mosaic.memory.cleanup"@ || event_name == "memory.cleanup"@
}

/// Whether the memory cleanup handles the event.
pub fn is_memory_cleanup_event(event_name: &str) -> (b: bool)
    ensures
        b == is_memory_cleanup(event_name@),
{
    str_eq(event_name, "mosaic.memory.cleanup") || str_eq(event_name, "memory.cleanup")
}

/// The whole minutes of `ms` milliseconds, rounded toward zero.
pub open spec fn whole_minutes(ms: int) -> int {
    if ms >= 0 {
        ms / 60_000
    } else {
        -((-ms) / 60_000)
    }
}

/// How many minutes the cleanup must still wait: none without an interval
/// or a last run (or with an interval beyond `i64::MAX`), none once the
/// interval has passed, else what is left of it (all of it when the last
/// run is not in the past).
pub open spec fn remaining_wait(
    min_interval_minutes: Option<u64>,
    last_run_at: Option<i64>,
    now: i64,
) -> Option<u64> {
    match (min_interval_minutes, last_run_at) {
        (Some(interval), Some(last)) => if interval > i64::MAX {
            None
        } else {
            let elapsed = whole_minutes(now - last);
            if elapsed >= interval {
                None
            } else if elapsed <= 0 {
                Some(interval)
            } else {
                Some((interval - elapsed) as u64)
            }
        },
        _ => None,
    }
}

/// How many minutes the memory cleanup must still wait at `now`.
pub fn memory_policy_remaining_wait_minutes(
    min_interval_minutes: Option<u64>,
    last_run_at: Option<i64>,
    now: i64,
) -> (out: Option<u64>)
    ensures
        out == remaining_wait(min_interval_minutes, last_run_at, now),
{
    let interval = match min_interval_minutes {
        Some(v) => v,
        None => return None,
    };
    let last = match last_run_at {
        Some(v) => v,
        None => return None,
    };
    if interval > (i64::MAX as u64) {
        return None;
    }
    let ms: i128 = (now as i128) - (last as i128);
    let elapsed: i128 = if ms >= 0 {
        ms / 60_000
    } else {
        -((-ms) / 60_000)
    };
    if elapsed >= (interval as i128) {
        return None;
    }
    if elapsed <= 0 {
        Some(interval)
    } else {
        Some(((interval as i128) - elapsed) as u64)
    }
}

/// What a cleanup event decides: not to run, or to run (as a dry run or
/// not).
pub open spec fn cleanup_decision(
    event_name: Seq<char>,
    data: EventData,
    policy_enabled: bool,
    min_interval_minutes: Option<u64>,
    last_run_at: Option<i64>,
    now: i64,
) -> Result<Option<bool>, Seq<char>> {
    match event_flag(event_name, data, "dry_run"@) {
        Err(m) => Err(m),
        Ok(dry) => match event_flag(event_name, data, "force"@) {
            Err(m) => Err(m),
            Ok(force) => {
                let dry_run = dry == Some(true);
                let forced = force == Some(true);
                if !policy_enabled {
                    Ok(None)
                } else if !forced && (remaining_wait(min_interval_minutes, last_run_at, now) matches Some(w) && w > 0) {
                    Ok(None)
                } else {
                    Ok(Some(dry_run))
                }
            },
        },
    }
}

/// Decides whether a memory cleanup event prunes the memory now: its
/// `dry_run` and `force` flags, whether the cleanup policy is enabled, and
/// how long it must still wait.  `Some(dry_run)` to prune.
pub fn plan_memory_cleanup(
    event_name: &str,
    data: &EventData,
    policy_enabled: bool,
    min_interval_minutes: Option<u64>,
    last_run_at: Option<i64>,
    now: i64,
) -> (out: Result<Option<bool>, MosaicError>)
    ensures
        match cleanup_decision(
            event_name@,
            *data,
            policy_enabled,
            min_interval_minutes,
            last_run_at,
            now,
        ) {
            Ok(v) => out == Ok::<Option<bool>, MosaicError>(v),
            Err(m) => fails_with(out, m),
        },
{
    proof {
        reveal_strlit("dry_run");
        reveal_strlit("force");
    }
    let dry = match parse_optional_event_bool(event_name, data, "dry_run") {
        Ok(v) => v,
        Err(e) => return Err(e),
    };
    let force = match parse_optional_event_bool(event_name, data, "force") {
        Ok(v) => v,
        Err(e) => return Err(e),
    };
    let dry_run = dry == Some(true);
    let forced = force == Some(true);
    if !policy_enabled {
        return Ok(None);
    }
    if !forced {
        if let Some(w) = memory_policy_remaining_wait_minutes(min_interval_minutes, last_run_at, now) {
            if w > 0 {
                return Ok(None);
            }
        }
    }
    Ok(Some(dry_run))
}

/// The furthest back, in minutes, that a log query can reach:
/// `TimeDelta::minutes` takes no more.
pub open spec fn max_since_minutes() -> int {
    (i64::MAX / 1000) / 60
}

/// What a log query's `--since-minutes` yields at `now`: no cutoff, the
/// time that many minutes back, or the message of the validation error.
pub open spec fn logs_cutoff(since_minutes: Option<u64>, command_hint: Seq<char>, now: i64) -> Result<
    Option<int>,
    Seq<char>,
> {
    match since_minutes {
        None => Ok(None),
        Some(m) => if m == 0 {
            Err(command_hint + " --since-minutes must be greater than 0"@)
        } else if m > i64::MAX {
            Err(command_hint + " --since-minutes value is too large"@)
        } else {
            Ok(Some(now - m * 60_000))
        },
    }
}

/// The cutoff time of a log query at `now`.
pub fn resolve_logs_cutoff(since_minutes: Option<u64>, command_hint: &str, now: i64) -> (out: Result<
    Option<i64>,
    MosaicError,
>)
    requires
        since_minutes matches Some(m) ==> (m == 0 || m > i64::MAX || (m <= max_since_minutes() && now
            - m * 60_000 >= i64::MIN)),
    ensures
        match logs_cutoff(since_minutes, command_hint@, now) {
            Ok(None) => out == Ok::<Option<i64>, MosaicError>(None),
            Ok(Some(t)) => out == Ok::<Option<i64>, MosaicError>(Some(t as i64)),
            Err(m) => fails_with(out, m),
        },
{
    let m = match since_minutes {
        None => return Ok(None),
        Some(m) => m,
    };
    if m == 0 {
        return Err(MosaicError::Validation(cat(command_hint, " --since-minutes must be greater than 0")));
    }
    if m > (i64::MAX as u64) {
        return Err(MosaicError::Validation(cat(command_hint, " --since-minutes value is too large")));
    }
    let minutes: i64 = m as i64;
    Ok(Some(now - minutes * 60_000))
}

/// How many logged runs to read before a cutoff is applied: all of them
/// when there is a cutoff.
pub fn events_to_read(cutoff: Option<i64>, tail: usize) -> (n: usize)
    ensures
        n == if cutoff is Some {
            usize::MAX
        } else {
            tail
        },
{
    if cutoff.is_some() {
        usize::MAX
    } else {
        tail
    }
}

/// The positions of the runs at or after the cutoff (all without one), in
/// order.
pub open spec fn kept_after(ts: Seq<i64>, cutoff: Option<i64>) -> Seq<usize>
    decreases ts.len(),
{
    if ts.len() == 0 {
        Seq::<usize>::empty()
    } else {
        let rest = kept_after(ts.drop_last(), cutoff);
        if cutoff matches Some(c) && ts.last() < c {
            rest
        } else {
            rest.push((ts.len() - 1) as usize)
        }
    }
}

/// The positions of the logged runs (with times `ts`, in log order) that a
/// query keeps: those at or after the cutoff, the last `tail` of them.
pub fn apply_logs_cutoff(ts: &Vec<i64>, tail: usize, cutoff: Option<i64>) -> (out: Vec<usize>)
    ensures
        out@ == tail_of(kept_after(ts@, cutoff), tail as nat),
{
    let mut kept: Vec<usize> = Vec::new();
    let mut i: usize = 0;
    while i < ts.len()
        invariant
            i <= ts.len(),
            kept@ == kept_after(ts@.take(i as int), cutoff),
        decreases ts.len() - i,
    {
        proof {
            assert(ts@.take(i + 1).drop_last() =~= ts@.take(i as int));
        }
        let keep = match cutoff {
            Some(c) => ts[i] >= c,
            None => true,
        };
        if keep {
            kept.push(i);
        }
        i += 1;
    }
    assert(ts@.take(ts.len() as int) =~= ts@);
    crate::sorting::keep_tail(kept, tail)
}

/// A logged run as its summary sees it: whether it succeeded, its trigger,
/// a label to count it by (its delivery status or its method), and the
/// hooks it ran.
#[derive(Debug)]
pub struct RunLogFacts {
    pub ok: bool,
    pub trigger: String,
    pub label: String,
    pub hooks_triggered: usize,
    pub hooks_ok: usize,
    pub hooks_failed: usize,
}

/// The summary of logged runs.
#[derive(Debug)]
pub struct RunLogsSummary {
    pub total: usize,
    pub ok: usize,
    pub failed: usize,
    pub hooks_triggered: u128,
    pub hooks_ok: u128,
    pub hooks_failed: u128,
    pub by_trigger: Vec<Tally>,
    pub by_label: Vec<Tally>,
}

/// How many of the runs succeeded.
pub open spec fn runs_ok(s: Seq<RunLogFacts>) -> nat
    decreases s.len(),
{
    if s.len() == 0 {
        0
    } else {
        runs_ok(s.drop_last()) + if s.last().ok {
            1nat
        } else {
            0nat
        }
    }
}

/// A sum over the runs of the hooks they triggered (`which` 0), of those
/// that succeeded (1) and of those that failed (2).
pub open spec fn hooks_sum(s: Seq<RunLogFacts>, which: int) -> nat
    decreases s.len(),
{
    if s.len() == 0 {
        0
    } else {
        let e = s.last();
        hooks_sum(s.drop_last(), which) + if which == 0 {
            e.hooks_triggered as nat
        } else if which == 1 {
            e.hooks_ok as nat
        } else {
            e.hooks_failed as nat
        }
    }
}

proof fn lemma_runs_bounds(s: Seq<RunLogFacts>)
    ensures
        runs_ok(s) <= s.len(),
        hooks_sum(s, 0) <= s.len() * 0xffff_ffff_ffff_ffff,
        hooks_sum(s, 1) <= s.len() * 0xffff_ffff_ffff_ffff,
        hooks_sum(s, 2) <= s.len() * 0xffff_ffff_ffff_ffff,
    decreases s.len(),
{
    if s.len() > 0 {
        lemma_runs_bounds(s.drop_last());
    }
}

/// Sums up logged runs: how many, how many succeeded and failed, the hooks
/// they ran, and how many per trigger and per label.
pub fn summarize_run_logs(events: &Vec<RunLogFacts>) -> (sm: RunLogsSummary)
    ensures
        sm.total == events@.len(),
        sm.ok == runs_ok(events@),
        sm.failed == events@.len() - runs_ok(events@),
        sm.hooks_triggered == hooks_sum(events@, 0),
        sm.hooks_ok == hooks_sum(events@, 1),
        sm.hooks_failed == hooks_sum(events@, 2),
        tallies_of(sm.by_trigger@, events@.map_values(|e: RunLogFacts| e.trigger@)),
        tallies_of(sm.by_label@, events@.map_values(|e: RunLogFacts| e.label@)),
{
    let ghost s = events@;
    let mut ok: usize = 0;
    let mut triggered: u128 = 0;
    let mut hooks_ok: u128 = 0;
    let mut hooks_failed: u128 = 0;
    let mut triggers: Vec<String> = Vec::new();
    let mut labels: Vec<String> = Vec::new();
    let mut i: usize = 0;
    while i < events.len()
        invariant
            i <= events.len(),
            s == events@,
            ok == runs_ok(s.take(i as int)),
            triggered == hooks_sum(s.take(i as int), 0),
            hooks_ok == hooks_sum(s.take(i as int), 1),
            hooks_failed == hooks_sum(s.take(i as int), 2),
            views(triggers@) == s.take(i as int).map_values(|e: RunLogFacts| e.trigger@),
            views(labels@) == s.take(i as int).map_values(|e: RunLogFacts| e.label@),
        decreases events.len() - i,
    {
        proof {
            assert(s.take(i + 1).drop_last() =~= s.take(i as int));
            lemma_runs_bounds(s.take(i as int));
            assert(i * 0xffff_ffff_ffff_ffff + 0xffff_ffff_ffff_ffff < 0xffff_ffff_ffff_ffff_ffff_ffff_ffff_ffff);
        }
        let e = &events[i];
        if e.ok {
            ok += 1;
        }
        triggered = triggered + (e.hooks_triggered as u128);
        hooks_ok = hooks_ok + (e.hooks_ok as u128);
        hooks_failed = hooks_failed + (e.hooks_failed as u128);
        let ghost tb = triggers@;
        let ghost lb = labels@;
        triggers.push(e.trigger.clone());
        labels.push(e.label.clone());
        assert(views(triggers@) =~= views(tb).push(e.trigger@));
        assert(views(labels@) =~= views(lb).push(e.label@));
        i += 1;
        assert(s.take(i as int).map_values(|e: RunLogFacts| e.trigger@) =~= s.take(i - 1).map_values(
            |e: RunLogFacts| e.trigger@,
        ).push(e.trigger@));
        assert(s.take(i as int).map_values(|e: RunLogFacts| e.label@) =~= s.take(i - 1).map_values(
            |e: RunLogFacts| e.label@,
        ).push(e.label@));
    }
    assert(s.take(events.len() as int) =~= s);
    proof {
        lemma_runs_bounds(s);
    }
    RunLogsSummary {
        total: events.len(),
        ok,
        failed: events.len() - ok,
        hooks_triggered: triggered,
        hooks_ok,
        hooks_failed,
        by_trigger: tally_texts(&triggers),
        by_label: tally_texts(&labels),
    }
}

} // verus!
