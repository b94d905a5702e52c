//! Reports over delivery events: failure classes, per-channel summaries and
//! replay plans.
use vstd::prelude::*;
use crate::channels::events::{ChannelLogEntry, ChannelReplayPayload};
use crate::channels::store::clone_opt_string;
use crate::error::{MosaicError, auth_error, validation_error};
use crate::sorting::{Ordered, sort_stable, sorted_distinct_texts, sorted_set_of, stable_sort, views};
use crate::text::{
    all_ascii, ascii_lower,
    cat, cat3, contains_sub, is_blank, is_blank_str, opt_view, owned, str_contains, str_eq,
    to_lowercase, trim, trim_str, lowercase,
};

verus! {

/// The class of a failed delivery: a reason, whether a retry may succeed,
/// and what to do.
#[derive(Debug)]
pub struct FailureClass {
    pub reason: String,
    pub retryable: bool,
    pub suggested_action: String,
}

pub open spec fn class_is(c: FailureClass, reason: Seq<char>, retryable: bool, action: Seq<char>) -> bool {
    c.reason@ == reason && c.retryable == retryable && c.suggested_action@ == action
}

/// The lower-cased error text of an event (empty without an error).
pub open spec fn lowered_error(error: Option<Seq<char>>) -> Seq<char> {
    match error {
        Some(e) => lowercase(e),
        None => Seq::<char>::empty(),
    }
}

/// The failure class of an event with status `status` and error `error`:
/// its reason, whether it is retryable and the suggested action, tested in
/// order: rate limiting, server errors, time-outs, authentication, missing
/// targets, other client errors, else unknown.
pub open spec fn failure_spec(status: Option<u16>, error: Option<Seq<char>>) -> (Seq<char>, bool, Seq<char>) {
    let e = lowered_error(error);
    if status == Some(429u16) || contains_sub(e, "rate limited"@) {
        ("rate_limited"@, true, "wait and retry; tune sender rate or batching"@)
    } else if (status matches Some(s) && 500 <= s <= 599) || contains_sub(e, "server error status"@) {
        ("upstream_5xx"@, true, "retry send; upstream provider failure is usually transient"@)
    } else if contains_sub(e, "timed out"@) || contains_sub(e, "timeout"@) {
        ("timeout"@, true, "retry send and verify network stability/egress"@)
    } else if status == Some(401u16) || status == Some(403u16) || contains_sub(e, "token"@)
        || contains_sub(e, "auth"@) || contains_sub(e, "credential"@) {
        ("auth"@, false, "fix token env/credentials before retry"@)
    } else if status == Some(404u16) || contains_sub(e, "not found"@) {
        ("target_not_found"@, false, "verify endpoint/chat-id configuration before retry"@)
    } else if status matches Some(s) && 400 <= s <= 499 {
        ("client_4xx"@, false, "inspect payload/channel config and correct before retry"@)
    } else {
        ("unknown"@, false, "inspect channel logs and provider details before retry"@)
    }
}

pub open spec fn failure_class_matches(status: Option<u16>, error: Option<Seq<char>>, c: FailureClass) -> bool {
    let f = failure_spec(status, error);
    class_is(c, f.0, f.1, f.2)
}

fn class(reason: &str, retryable: bool, action: &str) -> (c: FailureClass)
    ensures
        class_is(c, reason@, retryable, action@),
{
    FailureClass { reason: owned(reason), retryable, suggested_action: owned(action) }
}

/// Classifies a failed delivery by its status and error text.
pub fn classify_failure(event: &ChannelLogEntry) -> (c: FailureClass)
    ensures
        failure_class_matches(event.http_status, opt_view(event.error), c),
{
    let raw = match &event.error {
        Some(e) => e.clone(),
        None => {
            proof {
                reveal_strlit("");
            }
            assert(""@ =~= Seq::<char>::empty());
            owned("")
        },
    };
    let e = to_lowercase(raw.as_str());
    proof {
        if event.error is None {
            assert(all_ascii(raw@));
            assert(ascii_lower(raw@) =~= Seq::<char>::empty());
        }
    }
    assert(e@ == lowered_error(opt_view(event.error)));
    let es = e.as_str();
    let status = event.http_status;
    if status == Some(429u16) || str_contains(es, "rate limited") {
        return class("rate_limited", true, "wait and retry; tune sender rate or batching");
    }
    let is_5xx = match status {
        Some(s) => 500 <= s && s <= 599,
        None => false,
    };
    if is_5xx || str_contains(es, "server error status") {
        return class(
            "upstream_5xx",
            true,
            "retry send; upstream provider failure is usually transient",
        );
    }
    if str_contains(es, "timed out") || str_contains(es, "timeout") {
        return class("timeout", true, "retry send and verify network stability/egress");
    }
    if status == Some(401u16) || status == Some(403u16) || str_contains(es, "token")
        || str_contains(es, "auth") || str_contains(es, "credential") {
        return class("auth", false, "fix token env/credentials before retry");
    }
    if status == Some(404u16) || str_contains(es, "not found") {
        return class(
            "target_not_found",
            false,
            "verify endpoint/chat-id configuration before retry",
        );
    }
    let is_4xx = match status {
        Some(s) => 400 <= s && s <= 499,
        None => false,
    };
    if is_4xx {
        return class(
            "client_4xx",
            false,
            "inspect payload/channel config and correct before retry",
        );
    }
    class("unknown", false, "inspect channel logs and provider details before retry")
}

/// The reasons a replay can be filtered by.
#[derive(Debug, Clone, Copy, PartialEq, Eq)]
pub enum ReplayReason {
    RateLimited,
    Upstream5xx,
    Timeout,
    Auth,
    TargetNotFound,
    Client4xx,
    Unknown,
}

pub open spec fn replay_reason_text(r: ReplayReason) -> Seq<char> {
    match r {
        ReplayReason::RateLimited => "rate_limited"@,
        ReplayReason::Upstream5xx => "upstream_5xx"@,
        ReplayReason::Timeout => "timeout"@,
        ReplayReason::Auth => "auth"@,
        ReplayReason::TargetNotFound => "target_not_found"@,
        ReplayReason::Client4xx => "client_4xx"@,
        ReplayReason::Unknown => "unknown"@,
    }
}

/// The key of a replay reason, as failure classes name it.
pub fn replay_reason_key(reason: ReplayReason) -> (key: &'static str)
    ensures
        key@ == replay_reason_text(reason),
{
    match reason {
        ReplayReason::RateLimited => "rate_limited",
        ReplayReason::Upstream5xx => "upstream_5xx",
        ReplayReason::Timeout => "timeout",
        ReplayReason::Auth => "auth",
        ReplayReason::TargetNotFound => "target_not_found",
        ReplayReason::Client4xx => "client_4xx",
        ReplayReason::Unknown => "unknown",
    }
}

/// Whether a readiness issue concerns the token variable.
pub fn is_token_env_issue(issue: &str) -> (b: bool)
    ensures
        b == contains_sub(issue@, "token env"@),
{
    str_contains(issue, "token env")
}

/// The command that replays a message on channel `channel_id`, with the
/// parse mode and idempotency key when they are given and not blank.
pub open spec fn replay_command(
    channel_id: Seq<char>,
    parse_mode: Option<Seq<char>>,
    idempotency_key: Option<Seq<char>>,
) -> Seq<char> {
    "mosaic --project-state channels send "@ + channel_id + " --text \"<message>\""@ + (match parse_mode {
        Some(m) => if is_blank(m) {
            Seq::<char>::empty()
        } else {
            " --parse-mode "@ + trim(m)
        },
        None => Seq::<char>::empty(),
    }) + (match idempotency_key {
        Some(k) => if is_blank(k) {
            Seq::<char>::empty()
        } else {
            " --idempotency-key "@ + trim(k)
        },
        None => Seq::<char>::empty(),
    })
}

/// Builds the replay command for channel `channel_id`.
pub fn build_replay_command_template(
    channel_id: &str,
    parse_mode: Option<&str>,
    idempotency_key: Option<&str>,
) -> (command: String)
    ensures
        command@ == replay_command(
            channel_id@,
            crate::channels::kinds::opt_str_view(parse_mode),
            crate::channels::kinds::opt_str_view(idempotency_key),
        ),
{
    let mut command = cat3(
        "mosaic --project-state channels send ",
        channel_id,
        " --text \"<message>\"",
    );
    let ghost base = command@;
    let ghost mode_part = match crate::channels::kinds::opt_str_view(parse_mode) {
        Some(m) => if is_blank(m) {
            Seq::<char>::empty()
        } else {
            " --parse-mode "@ + trim(m)
        },
        None => Seq::<char>::empty(),
    };
    match parse_mode {
        Some(mode) => {
            if !is_blank_str(mode) {
                let t = trim_str(mode);
                command.append(" --parse-mode ");
                command.append(t.as_str());
            }
        },
        None => {},
    }
    assert(command@ =~= base + mode_part);
    let ghost with_mode = command@;
    let ghost key_part = match crate::channels::kinds::opt_str_view(idempotency_key) {
        Some(k) => if is_blank(k) {
            Seq::<char>::empty()
        } else {
            " --idempotency-key "@ + trim(k)
        },
        None => Seq::<char>::empty(),
    };
    match idempotency_key {
        Some(key) => {
            if !is_blank_str(key) {
                let t = trim_str(key);
                command.append(" --idempotency-key ");
                command.append(t.as_str());
            }
        },
        None => {},
    }
    assert(command@ =~= with_mode + key_part);
    command
}

pub open spec fn is_success_event(e: ChannelLogEntry) -> bool {
    e.delivery_status@ == "success"@ || e.delivery_status@ == "deduplicated"@
}

pub open spec fn is_failed_event(e: ChannelLogEntry) -> bool {
    e.delivery_status@ == "failed"@
}

pub open spec fn is_retryable_failure(e: ChannelLogEntry) -> bool {
    is_failed_event(e) && failure_spec(e.http_status, opt_view(e.error)).1
}

/// The number of events that satisfy `p`.
pub open spec fn count_events(s: Seq<ChannelLogEntry>, p: spec_fn(ChannelLogEntry) -> bool) -> nat
    decreases s.len(),
{
    if s.len() == 0 {
        0
    } else {
        count_events(s.drop_last(), p) + if p(s.last()) {
            1nat
        } else {
            0nat
        }
    }
}

pub proof fn lemma_count_events_le(s: Seq<ChannelLogEntry>, p: spec_fn(ChannelLogEntry) -> bool)
    ensures
        count_events(s, p) <= s.len(),
    decreases s.len(),
{
    if s.len() > 0 {
        lemma_count_events_le(s.drop_last(), p);
    }
}

/// The failed event of latest time (the later one on ties).
pub open spec fn latest_failed(s: Seq<ChannelLogEntry>) -> Option<ChannelLogEntry>
    decreases s.len(),
{
    if s.len() == 0 {
        None
    } else {
        let rest = latest_failed(s.drop_last());
        let e = s.last();
        if is_failed_event(e) && (rest matches Some(r) ==> e.ts >= r.ts) {
            Some(e)
        } else {
            rest
        }
    }
}

/// The last failed event in order.
pub open spec fn last_failed(s: Seq<ChannelLogEntry>) -> Option<ChannelLogEntry>
    decreases s.len(),
{
    if s.len() == 0 {
        None
    } else if is_failed_event(s.last()) {
        Some(s.last())
    } else {
        last_failed(s.drop_last())
    }
}

/// The delivery counts of one channel.
#[derive(Debug)]
pub struct ChannelEventStats {
    pub channel_id: String,
    pub total_events: u64,
    pub success_events: u64,
    pub failed_events: u64,
    pub retryable_failed_events: u64,
    pub last_event_at: Option<i64>,
    pub last_error: Option<String>,
}

/// The latest failure of a channel, with how to replay it.
#[derive(Debug)]
pub struct ReplayCandidate {
    pub channel_id: String,
    pub last_failed_at: i64,
    pub last_failed_http_status: Option<u16>,
    pub last_failed_error: Option<String>,
    pub last_failed_reason: String,
    pub retryable: bool,
    pub replay_source: String,
    pub full_payload_available: bool,
    pub suggested_action: String,
    pub suggested_command: String,
    pub last_failed_preview: String,
}

/// Latest failures first (the stable order of `last_failed_at`, descending).
impl Ordered for ReplayCandidate {
    open spec fn le_spec(&self, other: &Self) -> bool {
        self.last_failed_at >= other.last_failed_at
    }

    fn le_exec(&self, other: &Self) -> (b: bool) {
        self.last_failed_at >= other.last_failed_at
    }

    proof fn le_total(a: &Self, b: &Self) {
    }

    proof fn le_trans(a: &Self, b: &Self, c: &Self) {
    }
}

/// The parse mode a replay of `e` uses: its full payload's, else its own.
pub open spec fn replay_parse_mode(e: ChannelLogEntry) -> Option<Seq<char>> {
    match e.replay_payload {
        Some(p) if p.parse_mode is Some => opt_view(p.parse_mode),
        _ => opt_view(e.parse_mode),
    }
}

/// The idempotency key a replay of `e` uses: its full payload's, else its own.
pub open spec fn replay_idempotency_key(e: ChannelLogEntry) -> Option<Seq<char>> {
    match e.replay_payload {
        Some(p) if p.idempotency_key is Some => opt_view(p.idempotency_key),
        _ => opt_view(e.idempotency_key),
    }
}

/// The replay candidate of channel `id` for its latest failure `e`.
pub open spec fn candidate_for(c: ReplayCandidate, id: Seq<char>, e: ChannelLogEntry) -> bool {
    let f = failure_spec(e.http_status, opt_view(e.error));
    &&& c.channel_id@ == id
    &&& c.last_failed_at == e.ts
    &&& c.last_failed_http_status == e.http_status
    &&& c.last_failed_error == e.error
    &&& c.last_failed_reason@ == f.0
    &&& c.retryable == f.1
    &&& c.replay_source@ == (if e.replay_payload is Some {
        "full_payload"@
    } else {
        "text_preview_fallback"@
    })
    &&& c.full_payload_available == (e.replay_payload is Some)
    &&& c.suggested_action@ == f.2
    &&& c.suggested_command@ == replay_command(id, replay_parse_mode(e), replay_idempotency_key(e))
    &&& c.last_failed_preview == e.text_preview
}

/// A channel's last error is the error of its latest failure: when the
/// latest event of the channel is a failed delivery, the statistics report
/// that event's error, whatever failed before it.
pub proof fn law_last_error_is_the_latest_failure(
    id: Seq<char>,
    events: Seq<ChannelLogEntry>,
    stats: ChannelEventStats,
)
    requires
        stats_for(stats, id, events),
        events.len() > 0,
        events.last().delivery_status@ == "failed"@,
    ensures
        stats.last_error == events.last().error,
{
}

/// An event that is not a failure leaves a channel's last error as it was:
/// the statistics before and after it report the same last error.
pub proof fn law_success_keeps_the_last_error(
    id: Seq<char>,
    events: Seq<ChannelLogEntry>,
    next: ChannelLogEntry,
    before: ChannelEventStats,
    after: ChannelEventStats,
)
    requires
        stats_for(before, id, events),
        stats_for(after, id, events.push(next)),
        next.delivery_status@ != "failed"@,
    ensures
        after.last_error == before.last_error,
{
    assert(events.push(next).drop_last() =~= events);
}

/// The failure that a channel's replay candidate is built from is its
/// latest: a failed event of the channel, with no failed event of a later
/// time; there is one exactly when the channel has a failure.
pub proof fn law_replay_candidate_is_the_latest_failure(s: Seq<ChannelLogEntry>)
    ensures
        latest_failed(s) is None <==> forall|i: int| 0 <= i < s.len() ==> !is_failed_event(#[trigger] s[i]),
        latest_failed(s) matches Some(e) ==> (is_failed_event(e) && s.contains(e) && forall|i: int|
            0 <= i < s.len() && is_failed_event(#[trigger] s[i]) ==> s[i].ts <= e.ts),
    decreases s.len(),
{
    if s.len() > 0 {
        let d = s.drop_last();
        law_replay_candidate_is_the_latest_failure(d);
        assert forall|i: int| 0 <= i < d.len() implies d[i] == #[trigger] s[i] by {}
        if let Some(e) = latest_failed(s) {
            if e == s.last() && is_failed_event(s.last()) {
                assert(s[s.len() - 1] == e);
            } else {
                let r = latest_failed(d)->0;
                let k = choose|k: int| 0 <= k < d.len() && d[k] == r;
                assert(s[k] == r);
            }
        } else {
            assert(!is_failed_event(s[s.len() - 1]));
        }
    }
}

/// The statistics of channel `id` over its events `s`.
pub open spec fn stats_for(st: ChannelEventStats, id: Seq<char>, s: Seq<ChannelLogEntry>) -> bool {
    &&& st.channel_id@ == id
    &&& st.total_events == s.len()
    &&& st.success_events == count_events(s, |e: ChannelLogEntry| is_success_event(e))
    &&& st.failed_events == count_events(s, |e: ChannelLogEntry| is_failed_event(e))
    &&& st.retryable_failed_events == count_events(s, |e: ChannelLogEntry| is_retryable_failure(e))
    &&& st.last_event_at == (if s.len() == 0 {
        None
    } else {
        Some(s.last().ts)
    })
    &&& st.last_error == match last_failed(s) {
        Some(e) => e.error,
        None => None,
    }
}

pub(crate) fn opt_str_ref(o: &Option<String>) -> (r: Option<&str>)
    ensures
        crate::channels::kinds::opt_str_view(r) == opt_view(*o),
{
    match o {
        Some(s) => Some(s.as_str()),
        None => None,
    }
}

fn make_candidate(id: &str, e: &ChannelLogEntry) -> (c: ReplayCandidate)
    ensures
        candidate_for(c, id@, *e),
{
    let f = classify_failure(e);
    let parse_mode: Option<String> = match &e.replay_payload {
        Some(p) if p.parse_mode.is_some() => clone_opt_string(&p.parse_mode),
        _ => clone_opt_string(&e.parse_mode),
    };
    let key: Option<String> = match &e.replay_payload {
        Some(p) if p.idempotency_key.is_some() => clone_opt_string(&p.idempotency_key),
        _ => clone_opt_string(&e.idempotency_key),
    };
    let command = build_replay_command_template(id, opt_str_ref(&parse_mode), opt_str_ref(&key));
    let has_payload = e.replay_payload.is_some();
    ReplayCandidate {
        channel_id: owned(id),
        last_failed_at: e.ts,
        last_failed_http_status: e.http_status,
        last_failed_error: clone_opt_string(&e.error),
        last_failed_reason: f.reason,
        retryable: f.retryable,
        replay_source: if has_payload {
            owned("full_payload")
        } else {
            owned("text_preview_fallback")
        },
        full_payload_available: has_payload,
        suggested_action: f.suggested_action,
        suggested_command: command,
        last_failed_preview: e.text_preview.clone(),
    }
}

fn is_failed_exec(e: &ChannelLogEntry) -> (b: bool)
    ensures
        b == is_failed_event(*e),
{
    str_eq(e.delivery_status.as_str(), "failed")
}

fn is_success_exec(e: &ChannelLogEntry) -> (b: bool)
    ensures
        b == is_success_event(*e),
{
    str_eq(e.delivery_status.as_str(), "success") || str_eq(
        e.delivery_status.as_str(),
        "deduplicated",
    )
}

/// The statistics and the replay candidate of channel `id`.
pub fn channel_event_stats(events: &Vec<ChannelLogEntry>, id: &str) -> (out: (
    ChannelEventStats,
    Option<ReplayCandidate>,
))
    ensures
        stats_for(out.0, id@, crate::channels::events::events_of(events@, id@)),
        match latest_failed(crate::channels::events::events_of(events@, id@)) {
            Some(e) => out.1 matches Some(c) && candidate_for(c, id@, e),
            None => out.1 is None,
        },
{
    let mut total: u64 = 0;
    let mut success: u64 = 0;
    let mut failed: u64 = 0;
    let mut retryable: u64 = 0;
    let mut last_ts: Option<i64> = None;
    let mut last_error: Option<String> = None;
    let mut latest: Option<usize> = None;
    let mut i: usize = 0;
    while i < events.len()
        invariant
            i <= events.len(),
            ({
                let s = crate::channels::events::events_of(events@.take(i as int), id@);
                &&& total == s.len()
                &&& success == count_events(s, |e: ChannelLogEntry| is_success_event(e))
                &&& failed == count_events(s, |e: ChannelLogEntry| is_failed_event(e))
                &&& retryable == count_events(s, |e: ChannelLogEntry| is_retryable_failure(e))
                &&& last_ts == (if s.len() == 0 {
                    None
                } else {
                    Some(s.last().ts)
                })
                &&& last_error == match last_failed(s) {
                    Some(e) => e.error,
                    None => None,
                }
                &&& match latest_failed(s) {
                    Some(e) => latest matches Some(k) && k < i && events@[k as int] == e,
                    None => latest is None,
                }
                &&& s.len() <= i
            }),
        decreases events.len() - i,
    {
        let ghost pre = events@.take(i as int);
        let ghost next = events@.take(i + 1);
        let ghost sp = crate::channels::events::events_of(pre, id@);
        proof {
            assert(next.drop_last() =~= pre);
            assert(next.last() == events@[i as int]);
            lemma_count_events_le(sp, |e: ChannelLogEntry| is_success_event(e));
            lemma_count_events_le(sp, |e: ChannelLogEntry| is_failed_event(e));
            lemma_count_events_le(sp, |e: ChannelLogEntry| is_retryable_failure(e));
        }
        let e = &events[i];
        if str_eq(e.channel_id.as_str(), id) {
            let ghost sn = crate::channels::events::events_of(next, id@);
            assert(sn == sp.push(*e));
            assert(sn.drop_last() =~= sp);
            total += 1;
            if is_success_exec(e) {
                success += 1;
            }
            if is_failed_exec(e) {
                failed += 1;
                let f = classify_failure(e);
                if f.retryable {
                    retryable += 1;
                }
                last_error = clone_opt_string(&e.error);
                let replace = match latest {
                    None => true,
                    Some(k) => e.ts >= events[k].ts,
                };
                if replace {
                    latest = Some(i);
                }
            }
            last_ts = Some(e.ts);
        }
        i += 1;
    }
    proof {
        assert(events@.take(events.len() as int) =~= events@);
    }
    let candidate = match latest {
        Some(k) => Some(make_candidate(id, &events[k])),
        None => None,
    };
    (
        ChannelEventStats {
            channel_id: owned(id),
            total_events: total,
            success_events: success,
            failed_events: failed,
            retryable_failed_events: retryable,
            last_event_at: last_ts,
            last_error,
        },
        candidate,
    )
}

/// A failure reason and how many failed events it classifies.
#[derive(Debug)]
pub struct ReasonCount {
    pub reason: String,
    pub count: u64,
}

/// The summary of delivery events.
#[derive(Debug)]
pub struct ChannelEventsSummary {
    pub total_events: u64,
    pub success_events: u64,
    pub failed_events: u64,
    pub retryable_failed_events: u64,
    pub non_retryable_failed_events: u64,
    pub probe_events: u64,
    pub deduplicated_events: u64,
    pub failure_reasons: Vec<ReasonCount>,
    pub replay_candidates: Vec<ReplayCandidate>,
    pub channels: Vec<ChannelEventStats>,
}

/// The failure reasons of the failed events, in order.
pub open spec fn failed_reasons(s: Seq<ChannelLogEntry>) -> Seq<Seq<char>>
    decreases s.len(),
{
    if s.len() == 0 {
        Seq::<Seq<char>>::empty()
    } else if is_failed_event(s.last()) {
        failed_reasons(s.drop_last()).push(
            failure_spec(s.last().http_status, opt_view(s.last().error)).0,
        )
    } else {
        failed_reasons(s.drop_last())
    }
}

/// The number of failed events whose failure is classified as `reason`.
pub open spec fn failures_with_reason(s: Seq<ChannelLogEntry>, reason: Seq<char>) -> nat
    decreases s.len(),
{
    if s.len() == 0 {
        0
    } else {
        let e = s.last();
        failures_with_reason(s.drop_last(), reason) + if is_failed_event(e) && failure_spec(
            e.http_status,
            opt_view(e.error),
        ).0 == reason {
            1nat
        } else {
            0nat
        }
    }
}

proof fn lemma_failures_with_reason_le(s: Seq<ChannelLogEntry>, reason: Seq<char>)
    ensures
        failures_with_reason(s, reason) <= s.len(),
    decreases s.len(),
{
    if s.len() > 0 {
        lemma_failures_with_reason_le(s.drop_last(), reason);
    }
}

fn count_failures_with_reason(events: &Vec<ChannelLogEntry>, reason: &str) -> (c: u64)
    ensures
        c == failures_with_reason(events@, reason@),
{
    let mut c: u64 = 0;
    let mut k: usize = 0;
    while k < events.len()
        invariant
            k <= events.len(),
            c == failures_with_reason(events@.take(k as int), reason@),
        decreases events.len() - k,
    {
        proof {
            assert(events@.take(k + 1).drop_last() =~= events@.take(k as int));
            lemma_failures_with_reason_le(events@.take(k as int), reason@);
        }
        let e = &events[k];
        if is_failed_exec(e) {
            let f = classify_failure(e);
            if str_eq(f.reason.as_str(), reason) {
                c += 1;
            }
        }
        k += 1;
    }
    proof {
        assert(events@.take(events.len() as int) =~= events@);
    }
    c
}

/// The channel ids of the events, in order.
pub open spec fn event_ids(s: Seq<ChannelLogEntry>) -> Seq<Seq<char>> {
    s.map_values(|e: ChannelLogEntry| e.channel_id@)
}

/// The candidates of the channels `ids`, in that order, for those with a
/// failure.
pub open spec fn candidates_in_order(
    ids: Seq<Seq<char>>,
    events: Seq<ChannelLogEntry>,
    pre: Seq<ReplayCandidate>,
) -> bool
    decreases ids.len(),
{
    if ids.len() == 0 {
        pre.len() == 0
    } else {
        match latest_failed(crate::channels::events::events_of(events, ids.last())) {
            Some(e) => pre.len() > 0 && candidates_in_order(ids.drop_last(), events, pre.drop_last())
                && candidate_for(pre.last(), ids.last(), e),
            None => candidates_in_order(ids.drop_last(), events, pre),
        }
    }
}

/// What summarizing `events` yields.
pub open spec fn summary_matches(events: Seq<ChannelLogEntry>, sm: ChannelEventsSummary) -> bool {
    let failed = count_events(events, |e: ChannelLogEntry| is_failed_event(e));
    let retryable = count_events(events, |e: ChannelLogEntry| is_retryable_failure(e));
    let rs = sm.failure_reasons@;
    let chs = sm.channels@;
    &&& sm.total_events == events.len()
    &&& sm.success_events == count_events(events, |e: ChannelLogEntry| is_success_event(e))
    &&& sm.failed_events == failed
    &&& sm.retryable_failed_events == retryable
    &&& sm.non_retryable_failed_events == failed - retryable
    &&& sm.probe_events == count_events(events, |e: ChannelLogEntry| e.kind@ == "test_probe"@)
    &&& sm.deduplicated_events == count_events(events, |e: ChannelLogEntry| e.deduplicated)
    &&& sorted_set_of(rs.map_values(|r: ReasonCount| r.reason@), failed_reasons(events))
    &&& forall|i: int|
        0 <= i < rs.len() ==> (#[trigger] rs[i]).count == failures_with_reason(events, rs[i].reason@)
    &&& sorted_set_of(chs.map_values(|c: ChannelEventStats| c.channel_id@), event_ids(events))
    &&& forall|i: int|
        0 <= i < chs.len() ==> stats_for(
            #[trigger] chs[i],
            chs[i].channel_id@,
            crate::channels::events::events_of(events, chs[i].channel_id@),
        )
    &&& exists|pre: Seq<ReplayCandidate>|
        candidates_in_order(chs.map_values(|c: ChannelEventStats| c.channel_id@), events, pre)
            && sm.replay_candidates@ == stable_sort(pre)
}

proof fn lemma_retryable_le_failed(s: Seq<ChannelLogEntry>)
    ensures
        count_events(s, |e: ChannelLogEntry| is_retryable_failure(e)) <= count_events(
            s,
            |e: ChannelLogEntry| is_failed_event(e),
        ),
    decreases s.len(),
{
    if s.len() > 0 {
        lemma_retryable_le_failed(s.drop_last());
    }
}

/// Summarizes delivery events: totals, failure reasons, per-channel counts
/// and, for each channel with a failure, how to replay its latest one
/// (latest failures first).
pub fn summarize_channel_events(events: &Vec<ChannelLogEntry>) -> (sm: ChannelEventsSummary)
    ensures
        summary_matches(events@, sm),
{
    let mut success: u64 = 0;
    let mut failed: u64 = 0;
    let mut retryable: u64 = 0;
    let mut probes: u64 = 0;
    let mut dedup: u64 = 0;
    let mut reasons: Vec<String> = Vec::new();
    let mut ids: Vec<String> = Vec::new();
    let mut i: usize = 0;
    while i < events.len()
        invariant
            i <= events.len(),
            ({
                let s = events@.take(i as int);
                &&& success == count_events(s, |e: ChannelLogEntry| is_success_event(e))
                &&& failed == count_events(s, |e: ChannelLogEntry| is_failed_event(e))
                &&& retryable == count_events(s, |e: ChannelLogEntry| is_retryable_failure(e))
                &&& probes == count_events(s, |e: ChannelLogEntry| e.kind@ == "test_probe"@)
                &&& dedup == count_events(s, |e: ChannelLogEntry| e.deduplicated)
                &&& views(reasons@) == failed_reasons(s)
                &&& views(ids@) == event_ids(s)
            }),
        decreases events.len() - i,
    {
        let ghost pre = events@.take(i as int);
        let ghost next = events@.take(i + 1);
        proof {
            assert(next.drop_last() =~= pre);
            assert(next.last() == events@[i as int]);
            lemma_count_events_le(pre, |e: ChannelLogEntry| is_success_event(e));
            lemma_count_events_le(pre, |e: ChannelLogEntry| is_failed_event(e));
            lemma_count_events_le(pre, |e: ChannelLogEntry| is_retryable_failure(e));
            lemma_count_events_le(pre, |e: ChannelLogEntry| e.kind@ == "test_probe"@);
            lemma_count_events_le(pre, |e: ChannelLogEntry| e.deduplicated);
        }
        let e = &events[i];
        if is_success_exec(e) {
            success += 1;
        }
        if str_eq(e.kind.as_str(), "test_probe") {
            probes += 1;
        }
        if e.deduplicated {
            dedup += 1;
        }
        let ghost rbefore = reasons@;
        if is_failed_exec(e) {
            failed += 1;
            let f = classify_failure(e);
            if f.retryable {
                retryable += 1;
            }
            reasons.push(f.reason);
            assert(views(reasons@) =~= views(rbefore).push(failed_reasons(next).last()));
        }
        let ghost ibefore = ids@;
        ids.push(e.channel_id.clone());
        assert(views(ids@) =~= views(ibefore).push(e.channel_id@));
        assert(event_ids(next) =~= event_ids(pre).push(e.channel_id@));
        i += 1;
    }
    proof {
        assert(events@.take(events.len() as int) =~= events@);
        lemma_retryable_le_failed(events@);
    }
    let distinct_reasons = sorted_distinct_texts(&reasons);
    let mut reason_counts: Vec<ReasonCount> = Vec::new();
    let mut r: usize = 0;
    while r < distinct_reasons.len()
        invariant
            r <= distinct_reasons.len(),
            reason_counts@.len() == r,
            forall|k: int|
                0 <= k < r ==> (#[trigger] reason_counts@[k]).reason@ == distinct_reasons@[k]@
                    && reason_counts@[k].count == failures_with_reason(events@, distinct_reasons@[k]@),
        decreases distinct_reasons.len() - r,
    {
        let target = distinct_reasons[r].clone();
        let c = count_failures_with_reason(events, target.as_str());
        reason_counts.push(ReasonCount { reason: target, count: c });
        r += 1;
    }
    proof {
        assert(reason_counts@.map_values(|x: ReasonCount| x.reason@) =~= views(distinct_reasons@));
    }
    let distinct_ids = sorted_distinct_texts(&ids);
    let mut channels: Vec<ChannelEventStats> = Vec::new();
    let mut candidates: Vec<ReplayCandidate> = Vec::new();
    let mut c: usize = 0;
    while c < distinct_ids.len()
        invariant
            c <= distinct_ids.len(),
            channels@.len() == c,
            forall|k: int|
                0 <= k < c ==> (#[trigger] channels@[k]).channel_id@ == distinct_ids@[k]@
                    && stats_for(
                    channels@[k],
                    channels@[k].channel_id@,
                    crate::channels::events::events_of(events@, channels@[k].channel_id@),
                ),
            candidates_in_order(views(distinct_ids@).take(c as int), events@, candidates@),
        decreases distinct_ids.len() - c,
    {
        let (st, cand) = channel_event_stats(events, distinct_ids[c].as_str());
        let ghost ids_next = views(distinct_ids@).take(c + 1);
        proof {
            assert(ids_next.drop_last() =~= views(distinct_ids@).take(c as int));
            assert(ids_next.last() == distinct_ids@[c as int]@);
        }
        channels.push(st);
        match cand {
            Some(x) => {
                let ghost before = candidates@;
                candidates.push(x);
                assert(candidates@.drop_last() =~= before);
            },
            None => {},
        }
        c += 1;
    }
    proof {
        assert(views(distinct_ids@).take(distinct_ids.len() as int) =~= views(distinct_ids@));
        assert(channels@.map_values(|x: ChannelEventStats| x.channel_id@) =~= views(distinct_ids@));
    }
    let ghost pre = candidates@;
    let sorted = sort_stable(candidates);
    ChannelEventsSummary {
        total_events: events.len() as u64,
        success_events: success,
        failed_events: failed,
        retryable_failed_events: retryable,
        non_retryable_failed_events: failed - retryable,
        probe_events: probes,
        deduplicated_events: dedup,
        failure_reasons: reason_counts,
        replay_candidates: sorted,
        channels,
    }
}

} // verus!
