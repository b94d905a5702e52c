//! Delivery events: their log, deduplication by idempotency key, the Telegram
//! send interval and the freshness of cached lookups.
use vstd::prelude::*;
use crate::channels::policy::parse_u64;
use crate::sorting::{Ordered, sorted_tail, stable_sort, tail_of};
use crate::text::{
    cat, cat3, is_blank, normalized_opt, opt_view, owned, parse_i64, parse_i64_spec,
    parse_unsigned, str_eq, trim, trim_str,
};

verus! {

/// The message that a replay of a failed delivery sends again: its full
/// text, parse mode and idempotency key.
#[derive(Debug)]
pub struct ChannelReplayPayload {
    pub text: String,
    pub parse_mode: Option<String>,
    pub idempotency_key: Option<String>,
}

/// One delivery event of a channel.
#[derive(Debug)]
pub struct ChannelLogEntry {
    pub ts: i64,
    pub channel_id: String,
    pub kind: String,
    pub delivery_status: String,
    pub attempt: usize,
    pub http_status: Option<u16>,
    pub error: Option<String>,
    pub text_preview: String,
    pub parse_mode: Option<String>,
    pub idempotency_key: Option<String>,
    pub rate_limited_ms: Option<u64>,
    pub deduplicated: bool,
    pub replay_payload: Option<ChannelReplayPayload>,
}

impl Ordered for ChannelLogEntry {
    open spec fn le_spec(&self, other: &Self) -> bool {
        self.ts <= other.ts
    }

    fn le_exec(&self, other: &Self) -> (b: bool) {
        self.ts <= other.ts
    }

    proof fn le_total(a: &Self, b: &Self) {
    }

    proof fn le_trans(a: &Self, b: &Self, c: &Self) {
    }
}

/// The channel that a log filter selects: a trimmed, non-blank id other
/// than `all`.
pub open spec fn log_filter(filter: Option<Seq<char>>) -> Option<Seq<char>> {
    match normalized_opt(filter) {
        Some(f) => if f == "all"@ {
            None
        } else {
            Some(f)
        },
        None => None,
    }
}

/// The events of channel `id`, in order.
pub open spec fn events_of(events: Seq<ChannelLogEntry>, id: Seq<char>) -> Seq<ChannelLogEntry>
    decreases events.len(),
{
    if events.len() == 0 {
        Seq::<ChannelLogEntry>::empty()
    } else if events.last().channel_id@ == id {
        events_of(events.drop_last(), id).push(events.last())
    } else {
        events_of(events.drop_last(), id)
    }
}

/// Selects the log to show: the events of the filtered channel (all events
/// without a filter), sorted by time, the last `tail` of them.
pub fn select_logs(
    events: Vec<ChannelLogEntry>,
    channel_filter: Option<String>,
    tail: usize,
) -> (out: Vec<ChannelLogEntry>)
    ensures
        out@ == tail_of(
            stable_sort(
                match log_filter(opt_view(channel_filter)) {
                    Some(id) => events_of(events@, id),
                    None => events@,
                },
            ),
            tail as nat,
        ),
{
    let filter: Option<String> = match crate::text::normalize_optional(channel_filter) {
        Some(f) => if str_eq(f.as_str(), "all") {
            None
        } else {
            Some(f)
        },
        None => None,
    };
    let ghost orig = events@;
    let kept = match filter {
        None => events,
        Some(id) => {
            let mut kept: Vec<ChannelLogEntry> = Vec::new();
            for e in it: events
                invariant
                    it.seq() == orig,
                    kept@ == events_of(orig.take(it.index() as int), id@),
            {
                proof {
                    assert(orig.take(it.index() + 1).drop_last() =~= orig.take(it.index() as int));
                }
                if str_eq(e.channel_id.as_str(), id.as_str()) {
                    kept.push(e);
                } else {
                }
            }
            proof {
                assert(orig.take(orig.len() as int) =~= orig);
            }
            kept
        },
    };
    sorted_tail(kept, tail)
}

/// The default idempotency window, in seconds.
pub const DEFAULT_IDEMPOTENCY_WINDOW_SECONDS: i64 = 86_400;

/// The idempotency window for a configured setting: the setting when it is
/// a valid `i64`, else the default; at least one second.
pub open spec fn idempotency_window(setting: Option<Seq<char>>) -> int {
    let w = match setting {
        Some(s) => match parse_i64_spec(s) {
            Some(v) => v,
            None => DEFAULT_IDEMPOTENCY_WINDOW_SECONDS as int,
        },
        None => DEFAULT_IDEMPOTENCY_WINDOW_SECONDS as int,
    };
    if w < 1 {
        1
    } else {
        w
    }
}

/// The idempotency window for a configured setting, in seconds.
pub fn idempotency_window_seconds(setting: Option<String>) -> (w: i64)
    ensures
        w as int == idempotency_window(opt_view(setting)),
        w >= 1,
{
    let w = match setting {
        Some(s) => match parse_i64(s.as_str()) {
            Some(v) => v,
            None => DEFAULT_IDEMPOTENCY_WINDOW_SECONDS,
        },
        None => DEFAULT_IDEMPOTENCY_WINDOW_SECONDS,
    };
    if w < 1 {
        1
    } else {
        w
    }
}

/// Whether an event counts as an earlier delivery of the message with key
/// `key`: a message (not a probe) with that key, delivered or deduplicated,
/// no older than the window.
pub open spec fn counts_for_key(e: ChannelLogEntry, key: Seq<char>, now: i64, window_seconds: i64) -> bool {
    &&& e.kind@ == "message"@
    &&& opt_view(e.idempotency_key) == Some(key)
    &&& (e.delivery_status@ == "success"@ || e.delivery_status@ == "deduplicated"@)
    &&& now - e.ts <= window_seconds * 1000
}

/// The status of the latest earlier delivery of the message with key `key`
/// among `events`, if any.
pub open spec fn latest_delivery_status(
    events: Seq<ChannelLogEntry>,
    key: Seq<char>,
    now: i64,
    window_seconds: i64,
) -> Option<Option<u16>>
    decreases events.len(),
{
    if events.len() == 0 {
        None
    } else if counts_for_key(events.last(), key, now, window_seconds) {
        Some(events.last().http_status)
    } else {
        latest_delivery_status(events.drop_last(), key, now, window_seconds)
    }
}

fn opt_eq(a: &Option<String>, b: &str) -> (r: bool)
    ensures
        r == (opt_view(*a) == Some(b@)),
{
    match a {
        Some(x) => str_eq(x.as_str(), b),
        None => false,
    }
}

/// Finds the latest earlier delivery of the message with key `key` in a
/// channel's events (in file order), within `window_seconds` of `now`.
pub fn find_recent_successful_idempotent(
    events: &Vec<ChannelLogEntry>,
    key: &str,
    now: i64,
    window_seconds: i64,
) -> (out: Option<Option<u16>>)
    requires
        1 <= window_seconds <= i64::MAX / 1000,
    ensures
        out == latest_delivery_status(events@, key@, now, window_seconds),
{
    let limit: i128 = (window_seconds as i128) * 1000;
    let mut latest: Option<Option<u16>> = None;
    let mut i: usize = 0;
    while i < events.len()
        invariant
            i <= events.len(),
            limit == window_seconds * 1000,
            latest == latest_delivery_status(events@.take(i as int), key@, now, window_seconds),
        decreases events.len() - i,
    {
        proof {
            assert(events@.take(i + 1).drop_last() =~= events@.take(i as int));
            assert(events@.take(i + 1).last() == events@[i as int]);
        }
        let e = &events[i];
        if str_eq(e.kind.as_str(), "message") && opt_eq(&e.idempotency_key, key) && (str_eq(
            e.delivery_status.as_str(),
            "success",
        ) || str_eq(e.delivery_status.as_str(), "deduplicated")) && (now as i128) - (e.ts as i128)
            <= limit {
            latest = Some(e.http_status);
        }
        i += 1;
    }
    assert(events@.take(events.len() as int) =~= events@);
    latest
}

/// The default shortest interval between two Telegram sends.
pub const DEFAULT_TELEGRAM_MIN_INTERVAL_MS: u64 = 800;

/// The Telegram send interval for a configured setting: the setting when it
/// is a valid `u64`, else the default.
pub fn telegram_min_interval_ms(setting: Option<String>) -> (ms: u64)
    ensures
        ms as nat == match opt_view(setting) {
            Some(s) => match parse_unsigned(s, u64::MAX as nat) {
                Some(v) => v,
                None => DEFAULT_TELEGRAM_MIN_INTERVAL_MS as nat,
            },
            None => DEFAULT_TELEGRAM_MIN_INTERVAL_MS as nat,
        },
{
    match setting {
        Some(s) => match parse_u64(s.as_str()) {
            Some(v) => v,
            None => DEFAULT_TELEGRAM_MIN_INTERVAL_MS,
        },
        None => DEFAULT_TELEGRAM_MIN_INTERVAL_MS,
    }
}

/// How long to wait before a send so that Telegram sends stay `interval_ms`
/// apart: nothing for probes and other kinds; zero without an interval or a
/// previous send; else what remains of the interval since `last_sent_at`.
pub open spec fn telegram_wait(
    kind: Seq<char>,
    probe: bool,
    interval_ms: u64,
    last_sent_at: Option<i64>,
    now: i64,
) -> Option<nat> {
    if probe || kind != "telegram_bot"@ {
        None
    } else if interval_ms == 0 {
        Some(0)
    } else {
        match last_sent_at {
            None => Some(0),
            Some(last) => {
                let elapsed = if now - last < 0 {
                    0
                } else {
                    now - last
                };
                if elapsed < interval_ms {
                    Some((interval_ms - elapsed) as nat)
                } else {
                    Some(0)
                }
            },
        }
    }
}

/// The wait before a send on a channel of kind `kind`.
pub fn telegram_rate_limit_wait(
    kind: &str,
    probe: bool,
    interval_ms: u64,
    last_sent_at: Option<i64>,
    now: i64,
) -> (wait: Option<u64>)
    ensures
        match wait {
            Some(w) => telegram_wait(kind@, probe, interval_ms, last_sent_at, now) == Some(w as nat),
            None => telegram_wait(kind@, probe, interval_ms, last_sent_at, now) is None,
        },
{
    if probe || !str_eq(kind, "telegram_bot") {
        return None;
    }
    if interval_ms == 0 {
        return Some(0);
    }
    match last_sent_at {
        None => Some(0),
        Some(last) => {
            let diff: i128 = (now as i128) - (last as i128);
            let elapsed: i128 = if diff < 0 {
                0
            } else {
                diff
            };
            if elapsed < interval_ms as i128 {
                Some((interval_ms as i128 - elapsed) as u64)
            } else {
                Some(0)
            }
        },
    }
}

/// How long a cached lookup stays valid, in seconds.
pub const CACHE_TTL_SECONDS: i64 = 300;

/// Whether a lookup cached at `cached_at` may still be used at `now`.
pub fn cache_is_fresh(cached_at: i64, now: i64) -> (fresh: bool)
    ensures
        fresh == (now - cached_at <= CACHE_TTL_SECONDS * 1000),
{
    (now as i128) - (cached_at as i128) <= (CACHE_TTL_SECONDS as i128) * 1000
}

} // verus!
