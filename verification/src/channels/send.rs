//! The decisions of a send: the text, the token, how the channel is reached,
//! the event that records the attempt, and what the caller is told.
use vstd::prelude::*;
use crate::error::{MosaicError, auth_error, fails_with};
use crate::text::{cat, cat3, opt_view, owned, str_eq, trim, trim_str};
use super::delivery::DeliveryAttemptResult;
use super::events::{ChannelLogEntry, find_recent_successful_idempotent, latest_delivery_status};
use super::mask::{mask_optional_endpoint, opt_maskable, opt_masked};
use super::message::{
    MetadataEntry, join, normalize_parse_mode, opt_entries_view, parse_mode_outcome, render_message_template,
    template_segments, truncate_text,
};
use super::repository::ChannelSendResult;
use super::store::{ChannelEntry, ChannelsFile, clone_opt_string, delivery_recorded, record_delivery};
use crate::text::{normalize_optional, normalized_opt};

verus! {

/// A send needs text that is not blank.
pub fn validate_send_text(text: &str) -> (out: Result<(), MosaicError>)
    ensures
        trim(text@).len() > 0 ==> out is Ok,
        trim(text@).len() == 0 ==> fails_with(out, "send text cannot be empty"@),
{
    if crate::text::is_blank_str(text) {
        Err(MosaicError::Validation(owned("send text cannot be empty")))
    } else {
        Ok(())
    }
}

/// The variable holding the token: the one given for this send, else the
/// channel's.
pub fn send_token_env(override_env: Option<String>, channel: &ChannelEntry) -> (out: Option<String>)
    ensures
        opt_view(out) == match override_env {
            Some(e) => Some(e@),
            None => opt_view(channel.auth.token_env),
        },
{
    match override_env {
        Some(e) => Some(e),
        None => match &channel.auth.token_env {
            Some(e) => Some(e.clone()),
            None => None,
        },
    }
}

/// The variable whose value must be read: the token variable, trimmed,
/// unless it is blank or absent.
pub fn token_variable(token_env: Option<&str>) -> (out: Option<String>)
    ensures
        match token_env {
            Some(e) if trim(e@).len() > 0 => out matches Some(v) && v@ == trim(e@),
            _ => out is None,
        },
{
    match token_env {
        Some(e) => {
            let t = trim_str(e);
            if t.as_str().is_empty() {
                None
            } else {
                Some(t)
            }
        },
        None => None,
    }
}

/// The token for a send: none without a variable, else the variable's value
/// `value` (as read from the environment), which must be set.
pub fn resolve_token_value(variable: Option<&str>, value: Option<String>) -> (out: Result<
    Option<String>,
    MosaicError,
>)
    ensures
        match variable {
            None => out matches Ok(None),
            Some(v) => match value {
                Some(t) => out matches Ok(Some(r)) && r@ == t@,
                None => out matches Err(e) && auth_error(
                    e,
                    "environment variable "@ + v@ + " is required"@,
                ),
            },
        },
{
    match variable {
        None => Ok(None),
        Some(v) => match value {
            Some(t) => Ok(Some(t)),
            None => Err(MosaicError::Auth(cat3("environment variable ", v, " is required"))),
        },
    }
}

/// What a send is called in its event: `test_probe` or `message`.
pub open spec fn send_kind_text(probe: bool) -> Seq<char> {
    if probe {
        "test_probe"@
    } else {
        "message"@
    }
}

/// What a send is called in its event.
pub fn send_kind_label(probe: bool) -> (s: &'static str)
    ensures
        s@ == send_kind_text(probe),
{
    if probe {
        "test_probe"
    } else {
        "message"
    }
}

/// How a channel is reached.
#[derive(Debug, Clone, PartialEq, Eq)]
pub enum SendRoute {
    /// Delivered in process: one successful attempt.
    Local,
    /// Posted to a Slack webhook as `{"text": ...}`.
    SlackWebhook { endpoint: String },
    /// Posted to a generic webhook with the channel's id and name.
    Webhook { endpoint: String },
}

/// How a channel of each kind is reached, or why it cannot be.
pub open spec fn route_for(c: ChannelEntry, out: Result<SendRoute, MosaicError>) -> bool {
    let k = c.kind@;
    if k == "mock"@ || k == "local"@ || k == "stdout"@ {
        out == Ok::<SendRoute, MosaicError>(SendRoute::Local)
    } else if k == "slack_webhook"@ {
        match c.endpoint {
            Some(e) => out matches Ok(SendRoute::SlackWebhook { endpoint }) && endpoint@ == e@,
            None => fails_with(out, "channel '"@ + c.id@ + "' kind=slack_webhook requires endpoint"@),
        }
    } else if k == "webhook"@ {
        match c.endpoint {
            Some(e) => out matches Ok(SendRoute::Webhook { endpoint }) && endpoint@ == e@,
            None => fails_with(out, "channel '"@ + c.id@ + "' kind=webhook requires endpoint"@),
        }
    } else {
        fails_with(
            out,
            "unsupported channel kind '"@ + k
                + "', expected slack_webhook|webhook|mock|local|stdout"@,
        )
    }
}

/// Decides how a channel is reached.
pub fn plan_send_route(channel: &ChannelEntry) -> (out: Result<SendRoute, MosaicError>)
    ensures
        route_for(*channel, out),
{
    let k = channel.kind.as_str();
    if str_eq(k, "mock") || str_eq(k, "local") || str_eq(k, "stdout") {
        Ok(SendRoute::Local)
    } else if str_eq(k, "slack_webhook") {
        match &channel.endpoint {
            Some(e) => Ok(SendRoute::SlackWebhook { endpoint: e.clone() }),
            None => Err(
                MosaicError::Validation(
                    cat3("channel '", channel.id.as_str(), "' kind=slack_webhook requires endpoint"),
                ),
            ),
        }
    } else if str_eq(k, "webhook") {
        match &channel.endpoint {
            Some(e) => Ok(SendRoute::Webhook { endpoint: e.clone() }),
            None => Err(
                MosaicError::Validation(
                    cat3("channel '", channel.id.as_str(), "' kind=webhook requires endpoint"),
                ),
            ),
        }
    } else {
        Err(
            MosaicError::Validation(
                cat3(
                    "unsupported channel kind '",
                    k,
                    "', expected slack_webhook|webhook|mock|local|stdout",
                ),
            ),
        )
    }
}

/// The longest text preview an event keeps, in characters.
pub const TEXT_PREVIEW_LIMIT: usize = 120;

/// `e` records a delivery attempt at `ts`: its status and attempts as the
/// delivery reported them, the preview of `text`, the message's parse mode
/// and idempotency key and the rate-limit wait.
pub open spec fn send_event_is(
    e: ChannelLogEntry,
    channel_id: Seq<char>,
    probe: bool,
    text: Seq<char>,
    delivery: DeliveryAttemptResult,
    parse_mode: Option<String>,
    idempotency_key: Option<String>,
    rate_limited_ms: Option<u64>,
    ts: i64,
) -> bool {
    &&& e.ts == ts
    &&& e.channel_id@ == channel_id
    &&& e.kind@ == send_kind_text(probe)
    &&& e.delivery_status@ == (if delivery.ok {
        "success"@
    } else {
        "failed"@
    })
    &&& e.attempt == delivery.attempts
    &&& e.http_status == delivery.http_status
    &&& opt_view(e.error) == opt_view(delivery.error)
    &&& e.text_preview@ == super::message::truncated(text, TEXT_PREVIEW_LIMIT as nat)
    &&& e.parse_mode == parse_mode
    &&& e.idempotency_key == idempotency_key
    &&& e.rate_limited_ms == rate_limited_ms
    &&& !e.deduplicated
    &&& e.replay_payload is None
}

/// The event that records a delivery attempt at `ts`, with the message's
/// normalised parse mode and idempotency key and the wait that the rate
/// limit imposed before it.
pub fn send_event(
    channel_id: &str,
    probe: bool,
    text: &str,
    delivery: &DeliveryAttemptResult,
    parse_mode: Option<String>,
    idempotency_key: Option<String>,
    rate_limited_ms: Option<u64>,
    ts: i64,
) -> (e: ChannelLogEntry)
    ensures
        send_event_is(e, channel_id@, probe, text@, *delivery, parse_mode, idempotency_key, rate_limited_ms, ts),
{
    ChannelLogEntry {
        ts,
        channel_id: owned(channel_id),
        kind: owned(send_kind_label(probe)),
        delivery_status: owned(
            if delivery.ok {
                "success"
            } else {
                "failed"
            },
        ),
        attempt: delivery.attempts,
        http_status: delivery.http_status,
        error: match &delivery.error {
            Some(m) => Some(m.clone()),
            None => None,
        },
        text_preview: truncate_text(text, TEXT_PREVIEW_LIMIT),
        parse_mode,
        idempotency_key,
        rate_limited_ms,
        deduplicated: false,
        replay_payload: None,
    }
}

/// `out` is what the caller of a send is told.
pub open spec fn send_outcome_is(
    out: Result<ChannelSendResult, MosaicError>,
    channel: ChannelEntry,
    probe: bool,
    delivery: DeliveryAttemptResult,
    parse_mode: Option<String>,
    idempotency_key: Option<String>,
    rate_limited_ms: Option<u64>,
    target_masked: Option<String>,
    event_path: Seq<char>,
) -> bool {
    &&& delivery.ok ==> (out matches Ok(r) && r.channel_id@ == channel.id@ && r.delivered_via@
        == channel.kind@ && r.kind@ == send_kind_text(probe) && r.attempts == delivery.attempts
        && r.http_status == delivery.http_status && opt_view(r.endpoint_masked) == opt_view(
        delivery.endpoint_masked,
    ) && r.event_path@ == event_path && r.probe == probe && !r.deduplicated && r.target_masked
        == target_masked && r.parse_mode == parse_mode && r.idempotency_key == idempotency_key
        && r.rate_limited_ms == rate_limited_ms)
    &&& !delivery.ok ==> (out matches Err(MosaicError::Network(m)) && m@ == match delivery.error {
        Some(e) => e@,
        None => "channel delivery failed"@,
    })
}

/// What the caller of a send is told: on success the channel, how it was
/// reached, what the delivery reported, the masked target, the message's
/// parse mode and idempotency key and the rate-limit wait; on failure the
/// delivery's error, or `channel delivery failed` when it gave none.
pub fn send_outcome(
    channel: &ChannelEntry,
    probe: bool,
    delivery: DeliveryAttemptResult,
    parse_mode: Option<String>,
    idempotency_key: Option<String>,
    rate_limited_ms: Option<u64>,
    target_masked: Option<String>,
    event_path: String,
) -> (out: Result<ChannelSendResult, MosaicError>)
    ensures
        send_outcome_is(out, *channel, probe, delivery, parse_mode, idempotency_key, rate_limited_ms, target_masked, event_path@),
{
    if delivery.ok {
        Ok(
            ChannelSendResult {
                channel_id: channel.id.clone(),
                delivered_via: channel.kind.clone(),
                kind: owned(send_kind_label(probe)),
                attempts: delivery.attempts,
                http_status: delivery.http_status,
                endpoint_masked: delivery.endpoint_masked,
                target_masked,
                parse_mode,
                idempotency_key,
                deduplicated: false,
                rate_limited_ms,
                event_path,
                probe,
            },
        )
    } else {
        Err(
            MosaicError::Network(
                match delivery.error {
                    Some(e) => e,
                    None => owned("channel delivery failed"),
                },
            ),
        )
    }
}

/// Whether a send repeats a recent delivery: a message (not a probe) with
/// an idempotency key whose latest successful delivery among the channel's
/// events lies within the window; the status that delivery had.
pub fn recent_duplicate(
    probe: bool,
    idempotency_key: &Option<String>,
    events: &Vec<ChannelLogEntry>,
    now: i64,
    window_seconds: i64,
) -> (out: Option<Option<u16>>)
    requires
        1 <= window_seconds <= i64::MAX / 1000,
    ensures
        out == match idempotency_key {
            Some(k) => if probe {
                None
            } else {
                latest_delivery_status(events@, k@, now, window_seconds)
            },
            None => None::<Option<u16>>,
        },
{
    if probe {
        return None;
    }
    match idempotency_key {
        Some(k) => find_recent_successful_idempotent(events, k.as_str(), now, window_seconds),
        None => None,
    }
}

/// `e` records a send skipped at `ts` as a duplicate of an earlier
/// delivery whose status was `previous_status`: no attempt, no wait.
pub open spec fn duplicate_event_is(
    e: ChannelLogEntry,
    channel_id: Seq<char>,
    probe: bool,
    text_preview: Seq<char>,
    parse_mode: Option<String>,
    key: Seq<char>,
    previous_status: Option<u16>,
    ts: i64,
) -> bool {
    &&& e.ts == ts
    &&& e.channel_id@ == channel_id
    &&& e.kind@ == send_kind_text(probe)
    &&& e.delivery_status@ == "deduplicated"@
    &&& e.attempt == 0
    &&& e.http_status == previous_status
    &&& e.error is None
    &&& e.text_preview@ == text_preview
    &&& e.parse_mode == parse_mode
    &&& opt_view(e.idempotency_key) == Some(key)
    &&& e.rate_limited_ms == Some(0u64)
    &&& e.deduplicated
    &&& e.replay_payload is None
}

/// The event that records a send skipped at `ts` as a duplicate.
pub fn deduplicated_event(
    channel_id: &str,
    probe: bool,
    text_preview: String,
    parse_mode: Option<String>,
    key: &str,
    previous_status: Option<u16>,
    ts: i64,
) -> (e: ChannelLogEntry)
    ensures
        duplicate_event_is(e, channel_id@, probe, text_preview@, parse_mode, key@, previous_status, ts),
{
    ChannelLogEntry {
        ts,
        channel_id: owned(channel_id),
        kind: owned(send_kind_label(probe)),
        delivery_status: owned("deduplicated"),
        attempt: 0,
        http_status: previous_status,
        error: None,
        text_preview,
        parse_mode,
        idempotency_key: Some(owned(key)),
        rate_limited_ms: Some(0),
        deduplicated: true,
        replay_payload: None,
    }
}

/// `r` is what the caller of a send skipped as a duplicate is told.
pub open spec fn duplicate_result_is(
    r: ChannelSendResult,
    channel: ChannelEntry,
    probe: bool,
    parse_mode: Option<String>,
    key: Seq<char>,
    previous_status: Option<u16>,
    target_masked: Option<String>,
    event_path: Seq<char>,
) -> bool {
    &&& r.channel_id@ == channel.id@
    &&& r.delivered_via@ == channel.kind@
    &&& r.kind@ == send_kind_text(probe)
    &&& r.attempts == 0
    &&& r.http_status == previous_status
    &&& opt_view(r.endpoint_masked) == opt_masked(opt_view(channel.endpoint))
    &&& r.target_masked == target_masked
    &&& r.parse_mode == parse_mode
    &&& opt_view(r.idempotency_key) == Some(key)
    &&& r.deduplicated
    &&& r.rate_limited_ms == Some(0u64)
    &&& r.event_path@ == event_path
    &&& r.probe == probe
}

/// What the caller of a send skipped as a duplicate is told: the channel,
/// no attempt, the earlier delivery's status, its masked endpoint and
/// target, the parse mode and key, and a wait of zero.  The channel's record
/// is then updated as after a delivered message (`record_delivery` with
/// success and no probe, since a probe is never deduplicated).
pub fn deduplicated_result(
    channel: &ChannelEntry,
    probe: bool,
    parse_mode: Option<String>,
    key: &str,
    previous_status: Option<u16>,
    target_masked: Option<String>,
    event_path: String,
) -> (r: ChannelSendResult)
    requires
        opt_maskable(opt_view(channel.endpoint)),
    ensures
        duplicate_result_is(r, *channel, probe, parse_mode, key@, previous_status, target_masked, event_path@),
{
    ChannelSendResult {
        channel_id: channel.id.clone(),
        delivered_via: channel.kind.clone(),
        kind: owned(send_kind_label(probe)),
        attempts: 0,
        http_status: previous_status,
        endpoint_masked: mask_optional_endpoint(&channel.endpoint),
        target_masked,
        parse_mode,
        idempotency_key: Some(owned(key)),
        deduplicated: true,
        rate_limited_ms: Some(0),
        event_path,
        probe,
    }
}

/// A message ready to send: its parse mode normalised for the channel's
/// kind, its idempotency key trimmed (none when blank), and its text
/// rendered from the template.
#[derive(Debug)]
pub struct PreparedMessage {
    pub parse_mode: Option<String>,
    pub idempotency_key: Option<String>,
    pub rendered_text: String,
}

/// Prepares a message for a channel of kind `kind`: the parse mode is
/// checked first and its error returned; then the key and the text.
pub fn prepare_message(
    kind: &str,
    text: &str,
    parse_mode: Option<String>,
    title: Option<&str>,
    blocks: &Vec<String>,
    metadata: Option<Vec<MetadataEntry>>,
    idempotency_key: Option<String>,
) -> (out: Result<PreparedMessage, MosaicError>)
    ensures
        match out {
            Ok(m) => {
                &&& parse_mode_outcome(
                    opt_view(parse_mode),
                    kind@,
                    Ok::<Option<String>, MosaicError>(m.parse_mode),
                )
                &&& opt_view(m.idempotency_key) == normalized_opt(opt_view(idempotency_key))
                &&& m.rendered_text@ == join(
                    template_segments(
                        text@,
                        crate::channels::kinds::opt_str_view(title),
                        blocks@.map_values(|b: String| b@),
                        opt_entries_view(metadata),
                    ),
                    "\n\n"@,
                )
            },
            Err(e) => parse_mode_outcome(opt_view(parse_mode), kind@, Err::<Option<String>, MosaicError>(e)),
        },
{
    let pm = match normalize_parse_mode(parse_mode, kind) {
        Ok(pm) => pm,
        Err(e) => return Err(e),
    };
    let key = normalize_optional(idempotency_key);
    let rendered_text = render_message_template(text, title, blocks, metadata);
    Ok(PreparedMessage { parse_mode: pm, idempotency_key: key, rendered_text })
}

/// Records a send to channel `idx` at `now` after its delivery: the event
/// (carrying the message's parse mode and key and the rate-limit wait), the
/// channel's record updated, and what the caller is told.
pub fn finish_send(
    file: ChannelsFile,
    idx: usize,
    probe: bool,
    message: &PreparedMessage,
    delivery: DeliveryAttemptResult,
    rate_limited_ms: Option<u64>,
    target_masked: Option<String>,
    event_path: String,
    now: i64,
) -> (out: (ChannelsFile, ChannelLogEntry, Result<ChannelSendResult, MosaicError>))
    requires
        idx < file.channels@.len(),
    ensures
        send_event_is(
            out.1,
            file.channels@[idx as int].id@,
            probe,
            message.rendered_text@,
            delivery,
            message.parse_mode,
            message.idempotency_key,
            rate_limited_ms,
            now,
        ),
        delivery_recorded(file, idx as int, delivery.ok, probe, delivery.error, now, out.0),
        send_outcome_is(
            out.2,
            file.channels@[idx as int],
            probe,
            delivery,
            message.parse_mode,
            message.idempotency_key,
            rate_limited_ms,
            target_masked,
            event_path@,
        ),
{
    let channel = file.channels[idx].duplicate();
    let event = send_event(
        channel.id.as_str(),
        probe,
        message.rendered_text.as_str(),
        &delivery,
        clone_opt_string(&message.parse_mode),
        clone_opt_string(&message.idempotency_key),
        rate_limited_ms,
        now,
    );
    let file = record_delivery(file, idx, delivery.ok, probe, clone_opt_string(&delivery.error), now);
    let outcome = send_outcome(
        &channel,
        probe,
        delivery,
        clone_opt_string(&message.parse_mode),
        clone_opt_string(&message.idempotency_key),
        rate_limited_ms,
        target_masked,
        event_path,
    );
    (file, event, outcome)
}

/// Records a message to channel `idx` at `now` that repeats an earlier
/// delivery of the same key whose status was `previous_status`: the
/// `deduplicated` event, the channel's record updated as after a delivered
/// message, and what the caller is told.
pub fn finish_duplicate(
    file: ChannelsFile,
    idx: usize,
    message: &PreparedMessage,
    key: &str,
    previous_status: Option<u16>,
    target_masked: Option<String>,
    event_path: String,
    now: i64,
) -> (out: (ChannelsFile, ChannelLogEntry, ChannelSendResult))
    requires
        idx < file.channels@.len(),
        opt_maskable(opt_view(file.channels@[idx as int].endpoint)),
    ensures
        duplicate_event_is(
            out.1,
            file.channels@[idx as int].id@,
            false,
            super::message::truncated(message.rendered_text@, TEXT_PREVIEW_LIMIT as nat),
            message.parse_mode,
            key@,
            previous_status,
            now,
        ),
        delivery_recorded(file, idx as int, true, false, None, now, out.0),
        duplicate_result_is(
            out.2,
            file.channels@[idx as int],
            false,
            message.parse_mode,
            key@,
            previous_status,
            target_masked,
            event_path@,
        ),
{
    let channel = file.channels[idx].duplicate();
    let preview = truncate_text(message.rendered_text.as_str(), TEXT_PREVIEW_LIMIT);
    let event = deduplicated_event(
        channel.id.as_str(),
        false,
        preview,
        clone_opt_string(&message.parse_mode),
        key,
        previous_status,
        now,
    );
    let file = record_delivery(file, idx, true, false, None, now);
    let result = deduplicated_result(
        &channel,
        false,
        clone_opt_string(&message.parse_mode),
        key,
        previous_status,
        target_masked,
        event_path,
    );
    (file, event, result)
}

/// A message delivered with an idempotency key is found again by that key:
/// once its event is logged, a later send of a message with the same key
/// within the window is a repeat of it.
pub proof fn law_delivered_key_marks_later_repeats(
    events: Seq<ChannelLogEntry>,
    e: ChannelLogEntry,
    channel_id: Seq<char>,
    text: Seq<char>,
    delivery: DeliveryAttemptResult,
    parse_mode: Option<String>,
    key: String,
    rate_limited_ms: Option<u64>,
    sent_at: i64,
    now: i64,
    window_seconds: i64,
)
    requires
        send_event_is(e, channel_id, false, text, delivery, parse_mode, Some(key), rate_limited_ms, sent_at),
        delivery.ok,
        now - sent_at <= window_seconds * 1000,
    ensures
        latest_delivery_status(events.push(e), key@, now, window_seconds) == Some(delivery.http_status),
{
    assert(events.push(e).last() == e);
    assert(events.push(e).drop_last() =~= events);
}

} // verus!
