use mosaic::channels::events::{
    find_recent_successful_idempotent, select_logs, ChannelLogEntry, ChannelReplayPayload,
};
use mosaic::channels::replay::{
    build_replay_batch_plan, channel_replay_cutoff, check_full_payload, failed_event_counts,
    select_channel_replay, validate_channel_replay_request, ChannelReplayFilter,
};
use mosaic::channels::reports::{classify_failure, summarize_channel_events, ReplayReason};
use mosaic::channels::delivery::local_delivery_success;
use mosaic::channels::send::{
    deduplicated_event, deduplicated_result, finish_duplicate, finish_send, prepare_message,
    recent_duplicate,
};
use mosaic::channels::store::{add_channel_with, AddChannelInput, ChannelsFile, CHANNELS_SCHEMA_VERSION};
use mosaic::error::MosaicError;

fn event(ts: i64, channel: &str, status: &str, http: Option<u16>, error: Option<&str>) -> ChannelLogEntry {
    ChannelLogEntry {
        ts,
        channel_id: channel.to_string(),
        kind: "message".to_string(),
        delivery_status: status.to_string(),
        attempt: 1,
        http_status: http,
        error: error.map(|e| e.to_string()),
        text_preview: format!("preview {ts}"),
        parse_mode: None,
        idempotency_key: None,
        rate_limited_ms: None,
        deduplicated: false,
        replay_payload: None,
    }
}

fn validation_message<T: std::fmt::Debug>(out: Result<T, MosaicError>) -> String {
    match out {
        Err(MosaicError::Validation(m)) => m,
        other => panic!("expected a validation error, got {other:?}"),
    }
}

#[test]
fn failures_are_classified_by_status_then_error_text() {
    let rate = classify_failure(&event(1, "c", "failed", Some(429), None));
    assert_eq!(rate.reason, "rate_limited");
    assert!(rate.retryable);
    assert_eq!(rate.suggested_action, "wait and retry; tune sender rate or batching");
    let upstream = classify_failure(&event(1, "c", "failed", Some(503), None));
    assert_eq!(upstream.reason, "upstream_5xx");
    assert!(upstream.retryable);
    let timeout = classify_failure(&event(1, "c", "failed", None, Some("Request TIMED OUT")));
    assert_eq!(timeout.reason, "timeout");
    let auth = classify_failure(&event(1, "c", "failed", Some(401), None));
    assert_eq!(auth.reason, "auth");
    assert!(!auth.retryable);
    let missing = classify_failure(&event(1, "c", "failed", Some(404), None));
    assert_eq!(missing.reason, "target_not_found");
    let client = classify_failure(&event(1, "c", "failed", Some(422), None));
    assert_eq!(client.reason, "client_4xx");
    let expired = classify_failure(&event(1, "c", "failed", Some(404), Some("Token expired")));
    assert_eq!(expired.reason, "auth");
    assert!(!expired.retryable);
    assert_eq!(expired.suggested_action, "fix token env/credentials before retry");
    let busy = classify_failure(&event(1, "c", "failed", Some(429), Some("request timeout")));
    assert_eq!(busy.reason, "rate_limited");
    let unknown = classify_failure(&event(1, "c", "failed", None, None));
    assert_eq!(unknown.reason, "unknown");
    assert!(!unknown.retryable);
}

#[test]
fn summary_counts_events_and_lists_latest_failures_first() {
    let mut probe = event(5, "b", "success", Some(200), None);
    probe.kind = "test_probe".to_string();
    let events = vec![
        event(1, "a", "failed", Some(500), Some("server error status 500")),
        event(2, "a", "success", Some(200), None),
        event(3, "b", "failed", Some(401), None),
        event(4, "a", "failed", Some(429), None),
        probe,
    ];
    let sm = summarize_channel_events(&events);
    assert_eq!(sm.total_events, 5);
    assert_eq!(sm.success_events, 2);
    assert_eq!(sm.failed_events, 3);
    assert_eq!(sm.retryable_failed_events, 2);
    assert_eq!(sm.non_retryable_failed_events, 1);
    assert_eq!(sm.probe_events, 1);
    assert_eq!(sm.deduplicated_events, 0);
    let reasons: Vec<(String, u64)> =
        sm.failure_reasons.iter().map(|r| (r.reason.clone(), r.count)).collect();
    assert_eq!(
        reasons,
        vec![
            ("auth".to_string(), 1),
            ("rate_limited".to_string(), 1),
            ("upstream_5xx".to_string(), 1),
        ]
    );
    assert_eq!(sm.replay_candidates.len(), 2);
    assert_eq!(sm.replay_candidates[0].channel_id, "a");
    assert_eq!(sm.replay_candidates[0].last_failed_at, 4);
    assert_eq!(sm.replay_candidates[0].last_failed_reason, "rate_limited");
    assert_eq!(sm.replay_candidates[1].channel_id, "b");
    assert_eq!(
        sm.replay_candidates[1].suggested_command,
        "mosaic --project-state channels send b --text \"<message>\""
    );
    let a = sm.channels.iter().find(|c| c.channel_id == "a").expect("a");
    assert_eq!((a.total_events, a.success_events, a.failed_events), (3, 1, 2));
    assert_eq!(a.last_event_at, Some(4));
}

#[test]
fn logs_of_one_channel_come_sorted_and_tailed() {
    let events = vec![
        event(30, "a", "success", None, None),
        event(10, "b", "success", None, None),
        event(20, "a", "failed", None, None),
        event(5, "a", "success", None, None),
    ];
    let out = select_logs(events, Some(" a ".to_string()), 2);
    let ts: Vec<i64> = out.iter().map(|e| e.ts).collect();
    assert_eq!(ts, vec![20, 30]);
    let all = select_logs(
        vec![event(2, "a", "success", None, None), event(1, "b", "success", None, None)],
        Some("all".to_string()),
        10,
    );
    assert_eq!(all.iter().map(|e| e.ts).collect::<Vec<_>>(), vec![1, 2]);
}

#[test]
fn a_recent_success_with_the_same_key_is_found() {
    let mut sent = event(1_000, "a", "success", Some(200), None);
    sent.idempotency_key = Some("k1".to_string());
    let mut old = event(0, "a", "success", Some(201), None);
    old.idempotency_key = Some("k1".to_string());
    let events = vec![old, sent];
    assert_eq!(find_recent_successful_idempotent(&events, "k1", 5_000, 60), Some(Some(200)));
    assert_eq!(find_recent_successful_idempotent(&events, "k2", 5_000, 60), None);
    assert_eq!(find_recent_successful_idempotent(&events, "k1", 1_000_000, 60), None);
}

#[test]
fn channel_replay_requests_are_checked_in_order() {
    let none: Vec<u16> = Vec::new();
    assert_eq!(
        validation_message(validate_channel_replay_request(0, Some(0), None, &none, None)),
        "channels replay --limit must be greater than 0"
    );
    assert_eq!(
        validation_message(validate_channel_replay_request(5, Some(0), None, &none, None)),
        "channels replay --batch-size must be greater than 0"
    );
    assert_eq!(
        validation_message(validate_channel_replay_request(5, None, Some(0), &none, None)),
        "channels replay --min-attempt must be greater than 0"
    );
    assert_eq!(
        validation_message(validate_channel_replay_request(5, None, None, &vec![200, 99, 700], Some(0))),
        "channels replay --http-status must be in 100..=599 (got 99)"
    );
    assert_eq!(
        validation_message(validate_channel_replay_request(5, None, None, &vec![599], Some(0))),
        "channels replay --max-apply must be greater than 0"
    );
    assert!(validate_channel_replay_request(5, Some(2), Some(1), &vec![100, 599], Some(3)).is_ok());
}

#[test]
fn replay_cutoff_goes_back_the_given_minutes() {
    assert!(matches!(channel_replay_cutoff(None, 1_000_000), Ok(None)));
    assert!(matches!(channel_replay_cutoff(Some(0), 1_000_000), Ok(Some(1_000_000))));
    assert!(matches!(channel_replay_cutoff(Some(2), 1_000_000), Ok(Some(880_000))));
    assert_eq!(
        validation_message(channel_replay_cutoff(Some(u64::MAX), 0)),
        "channels replay --since-minutes value is too large"
    );
    let events = vec![
        event(100, "a", "failed", None, None),
        event(200, "a", "success", None, None),
        event(300, "a", "failed", None, None),
    ];
    assert_eq!(failed_event_counts(&events, None), (2, 2));
    assert_eq!(failed_event_counts(&events, Some(250)), (2, 1));
}

fn no_filter() -> ChannelReplayFilter {
    ChannelReplayFilter {
        since_cutoff: None,
        min_attempt: None,
        http_statuses: Vec::new(),
        include_non_retryable: false,
        reasons: Vec::new(),
    }
}

#[test]
fn replay_picks_retryable_failures_latest_first() {
    let mut stored = event(40, "a", "failed", Some(503), None);
    stored.replay_payload = Some(ChannelReplayPayload {
        text: "full text".to_string(),
        parse_mode: Some(" markdown ".to_string()),
        idempotency_key: None,
    });
    stored.idempotency_key = Some("k9".to_string());
    let events = vec![
        event(10, "a", "failed", Some(429), None),
        event(20, "a", "failed", Some(401), None),
        event(30, "a", "success", Some(200), None),
        stored,
    ];
    let picked = select_channel_replay(&events, &no_filter(), 10);
    assert_eq!(picked.iter().map(|c| c.index).collect::<Vec<_>>(), vec![3, 0]);
    assert_eq!(picked[0].replay_text, "full text");
    assert_eq!(picked[0].replay_source, "full_payload");
    assert!(picked[0].full_payload_available);
    assert_eq!(picked[0].reason, "upstream_5xx");
    assert_eq!(picked[0].parse_mode.as_deref(), Some(" markdown "));
    assert_eq!(picked[0].idempotency_key.as_deref(), Some("k9"));
    assert_eq!(
        picked[0].suggested_command,
        "mosaic --project-state channels send a --text \"<message>\" --parse-mode markdown --idempotency-key k9"
    );
    assert_eq!(picked[1].replay_text, "preview 10");
    assert_eq!(picked[1].replay_source, "text_preview_fallback");

    let mut with_auth = no_filter();
    with_auth.include_non_retryable = true;
    let all = select_channel_replay(&events, &with_auth, 2);
    assert_eq!(all.iter().map(|c| c.index).collect::<Vec<_>>(), vec![3, 1]);

    let mut only_429 = no_filter();
    only_429.http_statuses = vec![429];
    assert_eq!(select_channel_replay(&events, &only_429, 10).len(), 1);

    let mut rate_only = with_auth;
    rate_only.reasons = vec![ReplayReason::RateLimited];
    rate_only.since_cutoff = Some(5);
    let r = select_channel_replay(&events, &rate_only, 10);
    assert_eq!(r.len(), 1);
    assert_eq!(r[0].index, 0);

    let mut late = no_filter();
    late.since_cutoff = Some(35);
    assert_eq!(select_channel_replay(&events, &late, 10).len(), 1);
    late.min_attempt = Some(2);
    assert!(select_channel_replay(&events, &late, 10).is_empty());
}

#[test]
fn replay_batches_split_the_picked_failures() {
    let events = vec![
        event(10, "a", "failed", Some(429), None),
        event(20, "a", "failed", Some(500), None),
        event(30, "a", "failed", Some(429), None),
    ];
    let picked = select_channel_replay(&events, &no_filter(), 10);
    assert_eq!(picked.len(), 3);
    let batches = build_replay_batch_plan(&picked, Some(2));
    assert_eq!(batches.len(), 2);
    assert_eq!((batches[0].batch_index, batches[0].start, batches[0].size), (1, 0, 2));
    assert_eq!((batches[0].first_ts, batches[0].last_ts), (30, 20));
    assert_eq!(batches[0].reasons, vec!["rate_limited".to_string(), "upstream_5xx".to_string()]);
    assert_eq!((batches[1].batch_index, batches[1].start, batches[1].size), (2, 2, 1));
    assert_eq!(batches[1].reasons, vec!["rate_limited".to_string()]);
    assert_eq!(build_replay_batch_plan(&picked, None).len(), 1);
    assert!(build_replay_batch_plan(&Vec::new(), Some(3)).is_empty());

    assert!(matches!(check_full_payload(&picked, false), Ok(3)));
    assert_eq!(
        validation_message(check_full_payload(&picked, true)),
        "channels replay --require-full-payload blocked apply: 3 candidate(s) only contain text_preview fallback"
    );
}

#[test]
fn a_repeated_message_is_recorded_as_deduplicated() {
    let mut sent = event(1_000, "a", "success", Some(202), None);
    sent.idempotency_key = Some("k1".to_string());
    let events = vec![sent];
    let key = Some("k1".to_string());
    assert_eq!(recent_duplicate(false, &key, &events, 2_000, 60), Some(Some(202)));
    assert_eq!(recent_duplicate(true, &key, &events, 2_000, 60), None);
    assert_eq!(recent_duplicate(false, &None, &events, 2_000, 60), None);
    assert_eq!(recent_duplicate(false, &Some("k2".to_string()), &events, 2_000, 60), None);

    let e = deduplicated_event("a", false, "hello".to_string(), Some("markdown".to_string()), "k1", Some(202), 2_000);
    assert_eq!(e.delivery_status, "deduplicated");
    assert_eq!(e.kind, "message");
    assert_eq!(e.attempt, 0);
    assert_eq!(e.http_status, Some(202));
    assert_eq!(e.rate_limited_ms, Some(0));
    assert!(e.deduplicated);
    assert_eq!(e.idempotency_key.as_deref(), Some("k1"));

    let (file, channel) = add_channel_with(
        ChannelsFile { version: CHANNELS_SCHEMA_VERSION, channels: Vec::new() },
        AddChannelInput {
            name: "ops".to_string(),
            kind: "mock".to_string(),
            endpoint: None,
            target: None,
            token_env: None,
        },
        "ch_ops".to_string(),
        1,
    )
    .expect("add");
    assert_eq!(file.channels.len(), 1);
    let r = deduplicated_result(&channel, false, None, "k1", Some(202), None, "/events/ch_ops.jsonl".to_string());
    assert_eq!(r.channel_id, "ch_ops");
    assert_eq!(r.delivered_via, "mock");
    assert_eq!(r.kind, "message");
    assert_eq!(r.attempts, 0);
    assert_eq!(r.http_status, Some(202));
    assert!(r.deduplicated);
    assert_eq!(r.rate_limited_ms, Some(0));
    assert_eq!(r.endpoint_masked, None);
    assert_eq!(r.idempotency_key.as_deref(), Some("k1"));
}

#[test]
fn a_second_send_with_the_same_key_is_deduplicated() {
    let (file, _) = add_channel_with(
        ChannelsFile { version: CHANNELS_SCHEMA_VERSION, channels: Vec::new() },
        AddChannelInput {
            name: "ops".to_string(),
            kind: "mock".to_string(),
            endpoint: None,
            target: None,
            token_env: None,
        },
        "ch_ops".to_string(),
        1,
    )
    .expect("add");
    let message = prepare_message("mock", "hello", None, Some("Deploy"), &Vec::new(), None, Some(" k1 ".to_string()))
        .expect("prepare");
    assert_eq!(message.idempotency_key.as_deref(), Some("k1"));
    assert_eq!(message.rendered_text, "Deploy\n\nhello");
    let (file, event, outcome) = finish_send(
        file,
        0,
        false,
        &message,
        local_delivery_success(),
        Some(5),
        Some("***".to_string()),
        "/events/ch_ops.jsonl".to_string(),
        10_000,
    );
    assert_eq!(event.idempotency_key.as_deref(), Some("k1"));
    assert_eq!(event.rate_limited_ms, Some(5));
    assert_eq!(event.delivery_status, "success");
    let r = outcome.expect("delivered");
    assert_eq!(r.idempotency_key.as_deref(), Some("k1"));
    assert_eq!(r.rate_limited_ms, Some(5));
    assert_eq!(r.target_masked.as_deref(), Some("***"));
    assert_eq!(file.channels[0].last_send_at, Some(10_000));

    let events = vec![event];
    let repeat = recent_duplicate(false, &message.idempotency_key, &events, 20_000, 60);
    assert_eq!(repeat, Some(Some(200)));
    let previous = repeat.expect("a repeat");
    let (file, dup, result) = finish_duplicate(file, 0, &message, "k1", previous, None, "/events/ch_ops.jsonl".to_string(), 20_000);
    assert_eq!(dup.delivery_status, "deduplicated");
    assert_eq!(dup.attempt, 0);
    assert!(result.deduplicated);
    assert_eq!(result.attempts, 0);
    assert_eq!(file.channels[0].last_send_at, Some(20_000));
    assert_eq!(recent_duplicate(false, &message.idempotency_key, &events, 80_001, 60), None);
}
