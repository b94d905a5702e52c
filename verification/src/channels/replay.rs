//! Replaying the failed deliveries of a channel: the checks on a request,
//! which failures are picked, how they are batched, and what applying them
//! needs.
use vstd::prelude::*;
use crate::automation::events::max_since_minutes;
use crate::automation::replay::{batch_width, chunks};
use crate::channels::events::ChannelLogEntry;
use crate::channels::reports::{
    ReplayReason, build_replay_command_template, classify_failure, failure_spec, opt_str_ref,
    replay_command, replay_idempotency_key, replay_parse_mode, replay_reason_key,
    replay_reason_text,
};
use crate::channels::store::clone_opt_string;
use crate::error::{MosaicError, fails_with};
use crate::sorting::{sorted_distinct_texts, sorted_set_of, views};
use crate::text::{cat3, decimal, opt_view, owned, str_eq, u64_to_string};

verus! {

/// Whether an HTTP status filter is a real status.
pub open spec fn status_ok(s: u16) -> bool {
    100 <= s <= 599
}

/// The first status filter from position `i` on that is not a real status.
pub open spec fn first_bad_status(s: Seq<u16>, i: int) -> Option<u16>
    decreases s.len() - i,
{
    if i < 0 || i >= s.len() {
        None
    } else if !status_ok(s[i]) {
        Some(s[i])
    } else {
        first_bad_status(s, i + 1)
    }
}

/// The message of the first thing wrong with a replay request, checked in
/// order: the limit, the batch size, the minimum attempt, the status
/// filters and the apply limit.
pub open spec fn replay_request_error(
    limit: usize,
    batch_size: Option<usize>,
    min_attempt: Option<usize>,
    statuses: Seq<u16>,
    max_apply: Option<usize>,
) -> Option<Seq<char>> {
    if limit == 0 {
        Some("channels replay --limit must be greater than 0"@)
    } else if batch_size == Some(0usize) {
        Some("channels replay --batch-size must be greater than 0"@)
    } else if min_attempt == Some(0usize) {
        Some("channels replay --min-attempt must be greater than 0"@)
    } else if first_bad_status(statuses, 0) is Some {
        Some(
            "channels replay --http-status must be in 100..=599 (got "@ + decimal(
                first_bad_status(statuses, 0)->0 as nat,
            ) + ")"@,
        )
    } else if max_apply == Some(0usize) {
        Some("channels replay --max-apply must be greater than 0"@)
    } else {
        None
    }
}

/// The first status filter that is not a real status.
fn find_bad_status(statuses: &Vec<u16>) -> (out: Option<u16>)
    ensures
        out == first_bad_status(statuses@, 0),
{
    let mut i: usize = 0;
    while i < statuses.len()
        invariant
            i <= statuses.len(),
            first_bad_status(statuses@, 0) == first_bad_status(statuses@, i as int),
        decreases statuses.len() - i,
    {
        let s = statuses[i];
        if !(100 <= s && s <= 599) {
            return Some(s);
        }
        i += 1;
    }
    None
}

/// Checks what `channels replay` is asked with.
pub fn validate_channel_replay_request(
    limit: usize,
    batch_size: Option<usize>,
    min_attempt: Option<usize>,
    http_statuses: &Vec<u16>,
    max_apply: Option<usize>,
) -> (out: Result<(), MosaicError>)
    ensures
        match replay_request_error(limit, batch_size, min_attempt, http_statuses@, max_apply) {
            Some(m) => fails_with(out, m),
            None => out is Ok,
        },
{
    if limit == 0 {
        return Err(MosaicError::Validation(crate::text::owned("channels replay --limit must be greater than 0")));
    }
    if batch_size == Some(0usize) {
        return Err(
            MosaicError::Validation(crate::text::owned("channels replay --batch-size must be greater than 0")),
        );
    }
    if min_attempt == Some(0usize) {
        return Err(
            MosaicError::Validation(crate::text::owned("channels replay --min-attempt must be greater than 0")),
        );
    }
    match find_bad_status(http_statuses) {
        Some(s) => {
            let n = u64_to_string(s as u64);
            return Err(
                MosaicError::Validation(
                    cat3("channels replay --http-status must be in 100..=599 (got ", n.as_str(), ")"),
                ),
            );
        },
        None => {},
    }
    if max_apply == Some(0usize) {
        return Err(
            MosaicError::Validation(crate::text::owned("channels replay --max-apply must be greater than 0")),
        );
    }
    Ok(())
}

/// The cutoff of a replay at `now` (milliseconds): the time
/// `since_minutes` back, none without it, or the message of the error when
/// the minutes do not fit a signed count.
pub open spec fn replay_cutoff(since_minutes: Option<u64>, now: i64) -> Result<Option<int>, Seq<char>> {
    match since_minutes {
        None => Ok(None),
        Some(m) => if m > i64::MAX {
            Err("channels replay --since-minutes value is too large"@)
        } else {
            Ok(Some(now - m * 60_000))
        },
    }
}

/// The cutoff of a replay at `now`.  Minutes beyond what a time span can
/// hold, or a cutoff before the earliest instant, are left out: the clock
/// arithmetic panics on them.
pub fn channel_replay_cutoff(since_minutes: Option<u64>, now: i64) -> (out: Result<
    Option<i64>,
    MosaicError,
>)
    requires
        since_minutes matches Some(m) ==> (m > i64::MAX || (m <= max_since_minutes() && now - m
            * 60_000 >= i64::MIN)),
    ensures
        match replay_cutoff(since_minutes, now) {
            Ok(None) => out == Ok::<Option<i64>, MosaicError>(None),
            Ok(Some(t)) => out == Ok::<Option<i64>, MosaicError>(Some(t as i64)),
            Err(m) => fails_with(out, m),
        },
{
    let m = match since_minutes {
        None => return Ok(None),
        Some(m) => m,
    };
    if m > (i64::MAX as u64) {
        return Err(
            MosaicError::Validation(crate::text::owned("channels replay --since-minutes value is too large")),
        );
    }
    let minutes: i64 = m as i64;
    Ok(Some(now - minutes * 60_000))
}

/// Whether event `e` is a failure within the cutoff.
pub open spec fn failed_since(e: ChannelLogEntry, cutoff: Option<i64>) -> bool {
    &&& e.delivery_status@ == "failed"@
    &&& (cutoff matches Some(t) ==> e.ts >= t)
}

/// The number of failed events in `s`.
pub open spec fn failed_count(s: Seq<ChannelLogEntry>) -> nat
    decreases s.len(),
{
    if s.len() == 0 {
        0
    } else {
        failed_count(s.drop_last()) + if s.last().delivery_status@ == "failed"@ {
            1nat
        } else {
            0nat
        }
    }
}

/// The number of failed events in `s` within the cutoff.
pub open spec fn failed_since_count(s: Seq<ChannelLogEntry>, cutoff: Option<i64>) -> nat
    decreases s.len(),
{
    if s.len() == 0 {
        0
    } else {
        failed_since_count(s.drop_last(), cutoff) + if failed_since(s.last(), cutoff) {
            1nat
        } else {
            0nat
        }
    }
}

/// The failed events of a replay's log, and those within its cutoff.
pub fn failed_event_counts(events: &Vec<ChannelLogEntry>, cutoff: Option<i64>) -> (out: (
    usize,
    usize,
))
    ensures
        out.0 == failed_count(events@),
        out.1 == failed_since_count(events@, cutoff),
{
    let ghost s = events@;
    let mut total: usize = 0;
    let mut window: usize = 0;
    let mut i: usize = 0;
    while i < events.len()
        invariant
            s == events@,
            i <= s.len(),
            total == failed_count(s.take(i as int)),
            window == failed_since_count(s.take(i as int), cutoff),
            total <= i,
            window <= i,
        decreases s.len() - i,
    {
        let e = &events[i];
        assert(s.take(i + 1).drop_last() =~= s.take(i as int));
        let failed = crate::text::str_eq(e.delivery_status.as_str(), "failed");
        if failed {
            total += 1;
            let inside = match cutoff {
                Some(t) => e.ts >= t,
                None => true,
            };
            if inside {
                window += 1;
            }
        }
        i += 1;
    }
    assert(s.take(s.len() as int) =~= s);
    (total, window)
}

/// What picks failures for a replay: a cutoff, a minimum attempt, the HTTP
/// statuses (any when empty), whether failures that a retry will not mend
/// are wanted, and the reasons (any when empty).
#[derive(Debug)]
pub struct ChannelReplayFilter {
    pub since_cutoff: Option<i64>,
    pub min_attempt: Option<usize>,
    pub http_statuses: Vec<u16>,
    pub include_non_retryable: bool,
    pub reasons: Vec<ReplayReason>,
}

/// Whether a failure of `reason` passes the reason filters.
pub open spec fn reason_selected(reasons: Seq<ReplayReason>, reason: Seq<char>) -> bool {
    reasons.len() == 0 || exists|i: int|
        0 <= i < reasons.len() && replay_reason_text(#[trigger] reasons[i]) == reason
}

/// Whether event `e` is a failure that the filter picks for replay.
pub open spec fn picked_for_replay(e: ChannelLogEntry, f: ChannelReplayFilter) -> bool {
    let c = failure_spec(e.http_status, opt_view(e.error));
    &&& e.delivery_status@ == "failed"@
    &&& (f.since_cutoff matches Some(t) ==> e.ts >= t)
    &&& (f.min_attempt matches Some(m) ==> e.attempt >= m)
    &&& (f.http_statuses@.len() > 0 ==> status_in(f.http_statuses@, e.http_status))
    &&& (f.include_non_retryable || c.1)
    &&& reason_selected(f.reasons@, c.0)
}

/// The positions from `i` on of the events that the filter picks, latest
/// first.
pub open spec fn picked_from(s: Seq<ChannelLogEntry>, i: int, f: ChannelReplayFilter) -> Seq<int>
    decreases s.len() - i,
{
    if i >= s.len() || i < 0 {
        Seq::<int>::empty()
    } else {
        let later = picked_from(s, i + 1, f);
        if picked_for_replay(s[i], f) {
            later.push(i)
        } else {
            later
        }
    }
}

/// A failed delivery picked for replay: its position in the log, its time,
/// what a replay sends (the stored message, else the preview), the failure
/// class and the command that replays it by hand.
#[derive(Debug)]
pub struct ChannelReplayItem {
    pub index: usize,
    pub ts: i64,
    pub replay_text: String,
    pub replay_source: String,
    pub full_payload_available: bool,
    pub parse_mode: Option<String>,
    pub idempotency_key: Option<String>,
    pub retryable: bool,
    pub reason: String,
    pub suggested_action: String,
    pub suggested_command: String,
}

/// The text that a replay of `e` sends.
pub open spec fn replay_text_of(e: ChannelLogEntry) -> Seq<char> {
    match e.replay_payload {
        Some(p) => p.text@,
        None => e.text_preview@,
    }
}

/// `c` is the replay item for event `e` at position `i`.
pub open spec fn item_for(c: ChannelReplayItem, i: int, e: ChannelLogEntry) -> bool {
    let f = failure_spec(e.http_status, opt_view(e.error));
    &&& c.index == i
    &&& c.ts == e.ts
    &&& c.replay_text@ == replay_text_of(e)
    &&& c.replay_source@ == (if e.replay_payload is Some {
        "full_payload"@
    } else {
        "text_preview_fallback"@
    })
    &&& c.full_payload_available == (e.replay_payload is Some)
    &&& opt_view(c.parse_mode) == replay_parse_mode(e)
    &&& opt_view(c.idempotency_key) == replay_idempotency_key(e)
    &&& c.reason@ == f.0
    &&& c.retryable == f.1
    &&& c.suggested_action@ == f.2
    &&& c.suggested_command@ == replay_command(
        e.channel_id@,
        replay_parse_mode(e),
        replay_idempotency_key(e),
    )
}

fn reason_passes(reasons: &Vec<ReplayReason>, reason: &str) -> (b: bool)
    ensures
        b == reason_selected(reasons@, reason@),
{
    if reasons.len() == 0 {
        return true;
    }
    let mut i: usize = 0;
    while i < reasons.len()
        invariant
            i <= reasons.len(),
            reasons.len() > 0,
            forall|j: int| 0 <= j < i ==> replay_reason_text(#[trigger] reasons@[j]) != reason@,
        decreases reasons.len() - i,
    {
        if str_eq(replay_reason_key(reasons[i]), reason) {
            return true;
        }
        i += 1;
    }
    false
}

/// Whether `status` is given and among `statuses`.
pub open spec fn status_in(statuses: Seq<u16>, status: Option<u16>) -> bool {
    match status {
        Some(s) => statuses.contains(s),
        None => false,
    }
}

fn status_listed(statuses: &Vec<u16>, status: Option<u16>) -> (b: bool)
    ensures
        b == status_in(statuses@, status),
{
    let s = match status {
        Some(s) => s,
        None => return false,
    };
    let mut i: usize = 0;
    while i < statuses.len()
        invariant
            i <= statuses.len(),
            status == Some(s),
            forall|j: int| 0 <= j < i ==> statuses@[j] != s,
        decreases statuses.len() - i,
    {
        if statuses[i] == s {
            assert(statuses@[i as int] == s);
            return true;
        }
        i += 1;
    }
    false
}

fn make_item(i: usize, e: &ChannelLogEntry, reason: String, retryable: bool, action: String) -> (c:
    ChannelReplayItem)
    requires
        reason@ == failure_spec(e.http_status, opt_view(e.error)).0,
        retryable == failure_spec(e.http_status, opt_view(e.error)).1,
        action@ == failure_spec(e.http_status, opt_view(e.error)).2,
    ensures
        item_for(c, i as int, *e),
{
    let parse_mode: Option<String> = match &e.replay_payload {
        Some(p) if p.parse_mode.is_some() => clone_opt_string(&p.parse_mode),
        _ => clone_opt_string(&e.parse_mode),
    };
    let key: Option<String> = match &e.replay_payload {
        Some(p) if p.idempotency_key.is_some() => clone_opt_string(&p.idempotency_key),
        _ => clone_opt_string(&e.idempotency_key),
    };
    let command = build_replay_command_template(
        e.channel_id.as_str(),
        opt_str_ref(&parse_mode),
        opt_str_ref(&key),
    );
    let (text, source, full) = match &e.replay_payload {
        Some(p) => (p.text.clone(), owned("full_payload"), true),
        None => (e.text_preview.clone(), owned("text_preview_fallback"), false),
    };
    ChannelReplayItem {
        index: i,
        ts: e.ts,
        replay_text: text,
        replay_source: source,
        full_payload_available: full,
        parse_mode,
        idempotency_key: key,
        retryable,
        reason,
        suggested_action: action,
        suggested_command: command,
    }
}

proof fn lemma_picked_prefix(s: Seq<ChannelLogEntry>, a: int, b: int, f: ChannelReplayFilter)
    requires
        0 <= a <= b,
    ensures
        picked_from(s, a, f).len() >= picked_from(s, b, f).len(),
        forall|k: int|
            0 <= k < picked_from(s, b, f).len() ==> picked_from(s, a, f)[k]
                == #[trigger] picked_from(s, b, f)[k],
    decreases b - a,
{
    if a < b {
        lemma_picked_prefix(s, a + 1, b, f);
    }
}

/// The positions that a filter picks from position `i` on are exactly the
/// picked events there, latest first.
proof fn lemma_picked_from(s: Seq<ChannelLogEntry>, i: int, f: ChannelReplayFilter)
    requires
        0 <= i <= s.len(),
    ensures
        forall|k: int|
            0 <= k < picked_from(s, i, f).len() ==> i <= #[trigger] picked_from(s, i, f)[k] < s.len()
                && picked_for_replay(s[picked_from(s, i, f)[k]], f),
        forall|a: int, b: int|
            0 <= a < b < picked_from(s, i, f).len() ==> #[trigger] picked_from(s, i, f)[a]
                > #[trigger] picked_from(s, i, f)[b],
        forall|j: int|
            i <= j < s.len() && picked_for_replay(#[trigger] s[j], f) ==> picked_from(
                s,
                i,
                f,
            ).contains(j),
    decreases s.len() - i,
{
    if i < s.len() {
        lemma_picked_from(s, i + 1, f);
        let later = picked_from(s, i + 1, f);
        if picked_for_replay(s[i], f) {
            let p = later.push(i);
            assert(picked_from(s, i, f) == p);
            assert forall|j: int| i <= j < s.len() && picked_for_replay(#[trigger] s[j], f) implies p.contains(j) by {
                if j == i {
                    assert(p[later.len() as int] == j);
                } else {
                    let k = choose|k: int| 0 <= k < later.len() && later[k] == j;
                    assert(p[k] == j);
                }
            }
        } else {
            assert forall|j: int| i <= j < s.len() && picked_for_replay(#[trigger] s[j], f) implies later.contains(j) by {
                assert(j != i);
            }
        }
    }
}

/// A replay picks failed deliveries that pass its filter and nothing else,
/// each once, latest first; every such delivery is among those it can pick.
pub proof fn law_replay_picks_filtered_failures_latest_first(
    s: Seq<ChannelLogEntry>,
    f: ChannelReplayFilter,
)
    ensures
        forall|k: int|
            0 <= k < picked_from(s, 0, f).len() ==> 0 <= #[trigger] picked_from(s, 0, f)[k] < s.len()
                && s[picked_from(s, 0, f)[k]].delivery_status@ == "failed"@ && picked_for_replay(
                s[picked_from(s, 0, f)[k]],
                f,
            ),
        forall|a: int, b: int|
            0 <= a < b < picked_from(s, 0, f).len() ==> #[trigger] picked_from(s, 0, f)[a]
                > #[trigger] picked_from(s, 0, f)[b],
        forall|j: int|
            0 <= j < s.len() && picked_for_replay(#[trigger] s[j], f) ==> picked_from(
                s,
                0,
                f,
            ).contains(j),
{
    lemma_picked_from(s, 0, f);
}

/// Picks the failures to replay: latest first, those that the filter
/// picks, at most `limit` of them.  `limit` is at least 1 (the request
/// check refuses 0).
pub fn select_channel_replay(
    events: &Vec<ChannelLogEntry>,
    filter: &ChannelReplayFilter,
    limit: usize,
) -> (out: Vec<ChannelReplayItem>)
    requires
        limit >= 1,
    ensures
        out@.len() == if picked_from(events@, 0, *filter).len() < limit {
            picked_from(events@, 0, *filter).len()
        } else {
            limit as nat
        },
        forall|k: int|
            0 <= k < out@.len() ==> item_for(
                #[trigger] out@[k],
                picked_from(events@, 0, *filter)[k],
                events@[picked_from(events@, 0, *filter)[k]],
            ),
{
    let ghost s = events@;
    let ghost f = *filter;
    let mut out: Vec<ChannelReplayItem> = Vec::new();
    let mut i: usize = events.len();
    while i > 0 && out.len() < limit
        invariant
            i <= events.len(),
            s == events@,
            f == *filter,
            out@.len() <= limit,
            out@.len() == picked_from(s, i as int, f).len(),
            forall|k: int|
                0 <= k < out@.len() ==> item_for(
                    #[trigger] out@[k],
                    picked_from(s, i as int, f)[k],
                    s[picked_from(s, i as int, f)[k]],
                ),
        decreases i,
    {
        let e = &events[i - 1];
        let ghost before = out@;
        let ghost later = picked_from(s, i as int, f);
        assert(picked_from(s, i - 1, f) == if picked_for_replay(s[i - 1], f) {
            later.push(i - 1)
        } else {
            later
        });
        let failed = str_eq(e.delivery_status.as_str(), "failed");
        let in_window = match filter.since_cutoff {
            Some(t) => e.ts >= t,
            None => true,
        };
        let enough_attempts = match filter.min_attempt {
            Some(m) => e.attempt >= m,
            None => true,
        };
        let status_passes = filter.http_statuses.len() == 0 || status_listed(
            &filter.http_statuses,
            e.http_status,
        );
        if failed && in_window && enough_attempts && status_passes {
            let class = classify_failure(e);
            if (filter.include_non_retryable || class.retryable) && reason_passes(
                &filter.reasons,
                class.reason.as_str(),
            ) {
                let item = make_item(i - 1, e, class.reason, class.retryable, class.suggested_action);
                out.push(item);
                proof {
                    assert(picked_for_replay(s[i - 1], f));
                    assert forall|k: int| 0 <= k < out@.len() implies item_for(
                        #[trigger] out@[k],
                        picked_from(s, i - 1, f)[k],
                        s[picked_from(s, i - 1, f)[k]],
                    ) by {
                        if k < before.len() {
                            assert(out@[k] == before[k]);
                        }
                    }
                }
            } else {
                assert(!picked_for_replay(s[i - 1], f));
            }
        } else {
            assert(!picked_for_replay(s[i - 1], f));
        }
        i -= 1;
    }
    proof {
        if i > 0 {
            lemma_picked_prefix(s, 0, i as int, f);
        }
    }
    out
}

/// A batch of a channel's replay plan: its number (from 1), where its
/// failures start in the picked list and how many it holds, the times of
/// its first and last, and its distinct reasons, sorted.
#[derive(Debug)]
pub struct ChannelReplayBatch {
    pub batch_index: usize,
    pub start: usize,
    pub size: usize,
    pub first_ts: i64,
    pub last_ts: i64,
    pub reasons: Vec<String>,
}

/// The reasons of the picked failures.
pub open spec fn item_reasons(s: Seq<ChannelReplayItem>) -> Seq<Seq<char>> {
    s.map_values(|x: ChannelReplayItem| x.reason@)
}

/// `b` is the batch of number `index` holding `chunk`, which stands in
/// `items` at the batch's start.
pub open spec fn channel_batch_holds(
    b: ChannelReplayBatch,
    index: int,
    items: Seq<ChannelReplayItem>,
    chunk: Seq<ChannelReplayItem>,
) -> bool {
    &&& b.batch_index == index
    &&& b.size == chunk.len()
    &&& b.start + b.size <= items.len()
    &&& items.subrange(b.start as int, b.start + b.size) == chunk
    &&& b.first_ts == chunk[0].ts
    &&& b.last_ts == chunk.last().ts
    &&& sorted_set_of(views(b.reasons@), item_reasons(chunk))
}

fn make_channel_batch(items: &Vec<ChannelReplayItem>, start: usize, end: usize, index: usize) -> (b:
    ChannelReplayBatch)
    requires
        start < end <= items@.len(),
    ensures
        channel_batch_holds(b, index as int, items@, items@.subrange(start as int, end as int)),
{
    let ghost chunk = items@.subrange(start as int, end as int);
    let mut reasons: Vec<String> = Vec::new();
    let mut k: usize = start;
    while k < end
        invariant
            start <= k <= end <= items@.len(),
            chunk == items@.subrange(start as int, end as int),
            views(reasons@) == item_reasons(chunk.take(k - start)),
        decreases end - k,
    {
        assert(chunk[k - start] == items@[k as int]);
        let ghost rb = reasons@;
        reasons.push(items[k].reason.clone());
        assert(views(reasons@) =~= views(rb).push(items@[k as int].reason@));
        k += 1;
        assert(item_reasons(chunk.take(k - start)) =~= item_reasons(chunk.take(k - 1 - start)).push(
            items@[k - 1].reason@,
        ));
    }
    assert(chunk.take(end - start) =~= chunk);
    let reasons = sorted_distinct_texts(&reasons);
    ChannelReplayBatch {
        batch_index: index,
        start,
        size: end - start,
        first_ts: items[start].ts,
        last_ts: items[end - 1].ts,
        reasons,
    }
}

/// Splits the picked failures into batches of the requested size (all of
/// them in one batch when no size is given), numbered from 1.
pub fn build_replay_batch_plan(items: &Vec<ChannelReplayItem>, batch_size: Option<usize>) -> (out:
    Vec<ChannelReplayBatch>)
    ensures
        out@.len() == chunks(items@, batch_width(items@.len(), batch_size)).len(),
        forall|b: int|
            0 <= b < out@.len() ==> channel_batch_holds(
                #[trigger] out@[b],
                b + 1,
                items@,
                chunks(items@, batch_width(items@.len(), batch_size))[b],
            ),
{
    let ghost s = items@;
    let n = items.len();
    let w: usize = match batch_size {
        Some(b) => if b < 1 {
            1
        } else {
            b
        },
        None => if n < 1 {
            1
        } else {
            n
        },
    };
    let ghost all = chunks(s, w as nat);
    let mut out: Vec<ChannelReplayBatch> = Vec::new();
    let mut start: usize = 0;
    assert(s.skip(0) =~= s);
    while start < n
        invariant
            n == s.len(),
            s == items@,
            w >= 1,
            all == chunks(s, w as nat),
            start <= n,
            out@.len() <= start,
            all.len() == out@.len() + chunks(s.skip(start as int), w as nat).len(),
            forall|b: int|
                0 <= b < out@.len() ==> channel_batch_holds(#[trigger] out@[b], b + 1, s, all[b]),
            forall|b: int|
                0 <= b < chunks(s.skip(start as int), w as nat).len() ==> all[out@.len() + b]
                    == #[trigger] chunks(s.skip(start as int), w as nat)[b],
        decreases n - start,
    {
        let rest = n - start;
        let end = if rest <= w {
            n
        } else {
            start + w
        };
        let ghost tail = s.skip(start as int);
        let ghost next = s.skip(end as int);
        proof {
            if rest <= w {
                assert(chunks(tail, w as nat) == seq![tail]);
                assert(next.len() == 0);
                assert(tail =~= s.subrange(start as int, end as int));
            } else {
                assert(tail.skip(w as int) =~= next);
                assert(tail.take(w as int) =~= s.subrange(start as int, end as int));
                assert(chunks(tail, w as nat) == seq![tail.take(w as int)] + chunks(next, w as nat));
            }
            assert(chunks(tail, w as nat)[0] == s.subrange(start as int, end as int));
        }
        let index = out.len() + 1;
        let b = make_channel_batch(items, start, end, index);
        let ghost before = out@;
        out.push(b);
        proof {
            assert(all[before.len() as int] == chunks(tail, w as nat)[0]);
            assert forall|k: int| 0 <= k < chunks(next, w as nat).len() implies all[out@.len() + k]
                == #[trigger] chunks(next, w as nat)[k] by {
                assert(chunks(next, w as nat)[k] == chunks(tail, w as nat)[k + 1]);
                assert(all[before.len() + (k + 1)] == chunks(tail, w as nat)[k + 1]);
            }
            assert forall|k: int| 0 <= k < out@.len() implies channel_batch_holds(
                #[trigger] out@[k],
                k + 1,
                s,
                all[k],
            ) by {
                if k < before.len() {
                    assert(out@[k] == before[k]);
                }
            }
        }
        start = end;
    }
    assert(all.len() == out@.len());
    assert(batch_width(n as nat, batch_size) == w as nat);
    out
}

/// The number of picked failures whose message was not stored, so that a
/// replay sends their preview.
pub open spec fn fallback_count(s: Seq<ChannelReplayItem>) -> nat
    decreases s.len(),
{
    if s.len() == 0 {
        0
    } else {
        fallback_count(s.drop_last()) + if s.last().full_payload_available {
            0nat
        } else {
            1nat
        }
    }
}

/// Counts the picked failures that only have their preview; when the full
/// message is required, any such failure blocks applying the replay.
pub fn check_full_payload(items: &Vec<ChannelReplayItem>, require_full_payload: bool) -> (out:
    Result<usize, MosaicError>)
    ensures
        require_full_payload && fallback_count(items@) > 0 ==> fails_with(
            out,
            "channels replay --require-full-payload blocked apply: "@ + decimal(
                fallback_count(items@),
            ) + " candidate(s) only contain text_preview fallback"@,
        ),
        !(require_full_payload && fallback_count(items@) > 0) ==> out == Ok::<usize, MosaicError>(
            fallback_count(items@) as usize,
        ),
{
    let ghost s = items@;
    let mut n: usize = 0;
    let mut i: usize = 0;
    while i < items.len()
        invariant
            s == items@,
            i <= s.len(),
            n == fallback_count(s.take(i as int)),
            n <= i,
        decreases s.len() - i,
    {
        assert(s.take(i + 1).drop_last() =~= s.take(i as int));
        if !items[i].full_payload_available {
            n += 1;
        }
        i += 1;
    }
    assert(s.take(s.len() as int) =~= s);
    if require_full_payload && n > 0 {
        let count = u64_to_string(n as u64);
        return Err(
            MosaicError::Validation(
                cat3(
                    "channels replay --require-full-payload blocked apply: ",
                    count.as_str(),
                    " candidate(s) only contain text_preview fallback",
                ),
            ),
        );
    }
    Ok(n)
}

} // verus!
