use mosaic::channels::events::{
    idempotency_window_seconds, telegram_min_interval_ms, telegram_rate_limit_wait,
};
use mosaic::channels::mask::{mask_optional_endpoint, try_mask_endpoint};
use mosaic::channels::message::{
    format_metadata_value, join_strings, normalize_parse_mode, render_message_template,
    truncate_text, MetadataEntry, MetadataValue,
};
use mosaic::channels::policy::{parse_u64, should_retry_http_status, RetryPolicy};
use mosaic::channels::readiness::{check_override_env, check_replay_blockers, replay_token_override};
use mosaic::channels::reports::is_token_env_issue;
use mosaic::error::MosaicError;

#[test]
fn endpoints_are_masked() {
    assert_eq!(try_mask_endpoint("mock-http://500,200").as_deref(), Some("mock-http://***"));
    assert_eq!(
        try_mask_endpoint("https://hooks.slack.com/services/T/B/XYZW").as_deref(),
        Some("https://hooks.slack.com/***XYZW")
    );
    assert_eq!(try_mask_endpoint("short").as_deref(), Some("***"));
    assert_eq!(try_mask_endpoint("not a url at all").as_deref(), Some("*** all"));
    assert_eq!(mask_optional_endpoint(&None), None);
}

#[test]
fn parse_modes_are_only_for_telegram() {
    assert_eq!(normalize_parse_mode(None, "slack_webhook").unwrap(), None);
    assert_eq!(normalize_parse_mode(Some("  ".to_string()), "slack_webhook").unwrap(), None);
    assert_eq!(
        normalize_parse_mode(Some("html".to_string()), "slack_webhook").unwrap_err().message_text(),
        "--parse-mode is only supported for telegram_bot channels"
    );
    assert_eq!(normalize_parse_mode(Some(" MDV2 ".to_string()), "telegram_bot").unwrap().as_deref(), Some("MarkdownV2"));
    assert_eq!(
        normalize_parse_mode(Some("rtf".to_string()), "telegram_bot").unwrap_err().message_text(),
        "unsupported parse mode 'rtf', expected markdown|markdown_v2|html"
    );
}

#[test]
fn message_templates_join_segments_with_blank_lines() {
    let metadata = vec![
        MetadataEntry { key: "b".to_string(), value: MetadataValue::Bool(true) },
        MetadataEntry { key: "a".to_string(), value: MetadataValue::Null },
    ];
    let text = render_message_template(
        "  body  ",
        Some(" Title "),
        &vec!["block one".to_string(), "  ".to_string()],
        Some(metadata),
    );
    assert_eq!(text, "Title\n\nblock one\n\na: null\nb: true\n\nbody");
    assert_eq!(render_message_template("x", None, &Vec::new(), None), "x");
    assert_eq!(format_metadata_value(&MetadataValue::Number("1.5".to_string())), "1.5");
    assert_eq!(join_strings(&vec!["a".to_string(), "b".to_string()], ", "), "a, b");
    assert_eq!(truncate_text("héllo", 2), "hé...");
}

#[test]
fn retry_and_rate_settings() {
    let policy = RetryPolicy::from_timeout_setting(Some("2500".to_string()));
    assert_eq!(policy.timeout_ms, 2500);
    assert_eq!(policy.max_attempts(), 4);
    assert_eq!(policy.backoff_before_attempt(0), None);
    assert_eq!(policy.backoff_before_attempt(1), Some(200));
    assert_eq!(policy.backoff_before_attempt(4), None);
    assert_eq!(parse_u64("+7"), Some(7));
    assert_eq!(parse_u64("-7"), None);
    assert!(should_retry_http_status(503));
    assert!(!should_retry_http_status(404));
    assert_eq!(idempotency_window_seconds(Some("-5".to_string())), 1);
    assert_eq!(idempotency_window_seconds(Some("60".to_string())), 60);
    assert_eq!(telegram_min_interval_ms(Some("x".to_string())), telegram_min_interval_ms(None));
    assert_eq!(telegram_rate_limit_wait("telegram_bot", false, 1000, Some(0), 300), Some(700));
    assert_eq!(telegram_rate_limit_wait("telegram_bot", true, 1000, Some(0), 300), None);
    assert_eq!(telegram_rate_limit_wait("slack_webhook", false, 1000, Some(0), 300), None);
    assert_eq!(telegram_rate_limit_wait("telegram_bot", false, 1000, None, 300), Some(0));
}

#[test]
fn replay_readiness_blockers() {
    assert_eq!(replay_token_override(Some("  ")).unwrap_err().message_text(), "channels replay --token-env cannot be empty");
    assert_eq!(replay_token_override(Some(" T ")).unwrap().as_deref(), Some("T"));
    assert!(check_override_env("T", true).is_ok());
    assert!(matches!(check_override_env("T", false), Err(MosaicError::Auth(_))));
    assert!(is_token_env_issue("missing token env FOO"));
    let token_only = vec!["missing token env FOO".to_string()];
    assert!(check_replay_blockers("ch_1", &token_only, true).is_ok());
    let err = check_replay_blockers("ch_1", &token_only, false).unwrap_err();
    assert!(matches!(err, MosaicError::Auth(ref m) if m == "channels replay --apply blocked: missing token env FOO; pass --token-env <ENV> with a set env var or run `mosaic channels capabilities --target ch_1` to inspect diagnostics"));
    let mixed = vec!["missing token env FOO".to_string(), "endpoint invalid".to_string()];
    let err = check_replay_blockers("ch_1", &mixed, true).unwrap_err();
    assert_eq!(
        err.message_text(),
        "channels replay --apply blocked: endpoint invalid; run `mosaic channels capabilities --target ch_1` to inspect diagnostics"
    );
}
