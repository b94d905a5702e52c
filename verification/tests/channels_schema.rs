use mosaic::channels::delivery::simulate_mock_http;
use mosaic::channels::directory::{capabilities_for_kind, resolve_directory};
use mosaic::channels::kinds::{normalize_kind, validate_endpoint_for_kind};
use mosaic::channels::repository::{
    add_channel, channels_events_dir, channels_file_path, ChannelRepository,
};
use mosaic::channels::send::{
    plan_send_route, resolve_token_value, send_outcome, token_variable, validate_send_text,
    SendRoute,
};
use mosaic::channels::store::{
    add_channel_with, list_channels, parse_channels_value, record_delivery, AddChannelInput,
    ChannelsFile, LegacyChannelEntry, RawChannelsDocument, CHANNELS_SCHEMA_VERSION,
};
use mosaic::error::MosaicError;

fn legacy_document() -> RawChannelsDocument {
    RawChannelsDocument::LegacyArray(Ok(vec![LegacyChannelEntry {
        id: "ch_1".to_string(),
        name: "legacy".to_string(),
        kind: "webhook".to_string(),
        endpoint: Some("https://example.com/webhook".to_string()),
        created_at: 1_770_681_600_000,
        last_login_at: None,
        last_login_token_env: Some("LEGACY_TOKEN".to_string()),
    }]))
}

fn check_legacy_migration() {
    let (file, migrated) = parse_channels_value(legacy_document()).expect("parse");
    assert!(migrated);
    assert_eq!(file.version, CHANNELS_SCHEMA_VERSION);
    assert_eq!(file.channels.len(), 1);
    assert_eq!(file.channels[0].auth.token_env.as_deref(), Some("LEGACY_TOKEN"));
    assert!(file.channels[0].last_send_at.is_none());
}

#[test]
fn lib_migrate_legacy_channels_array_to_v2() {
    check_legacy_migration();
}

#[test]
fn schema_migrate_legacy_channels_array_to_v2() {
    check_legacy_migration();
}

fn check_slack_endpoint() {
    assert!(validate_endpoint_for_kind("slack_webhook", Some("https://hooks.slack.com/services/T/B/X")).is_ok());
    assert!(validate_endpoint_for_kind("slack_webhook", Some("https://example.com")).is_err());
}

#[test]
fn lib_endpoint_validation_for_slack_webhook() {
    check_slack_endpoint();
}

#[test]
fn schema_endpoint_validation_for_slack_webhook() {
    check_slack_endpoint();
}

#[test]
fn endpoint_validation_for_discord_webhook() {
    assert!(validate_endpoint_for_kind("discord_webhook", Some("https://discord.com/api/webhooks/1/abc")).is_ok());
    assert!(validate_endpoint_for_kind("discord", Some("https://canary.discord.com/api/webhooks/1/abc")).is_ok());
    assert!(validate_endpoint_for_kind("discord_webhook", Some("https://example.com/abc")).is_err());
}

fn check_mock_http_retry() {
    let result = simulate_mock_http("mock-http://500,500,200").expect("send");
    assert!(result.ok);
    assert_eq!(result.attempts, 3);
    assert_eq!(result.http_status, Some(200));
}

#[test]
fn lib_mock_http_simulates_retry_and_success() {
    check_mock_http_retry();
}

#[test]
fn providers_mock_http_simulates_retry_and_success() {
    check_mock_http_retry();
}

fn empty_file() -> ChannelsFile {
    ChannelsFile { version: CHANNELS_SCHEMA_VERSION, channels: Vec::new() }
}

fn add(file: ChannelsFile, name: &str, kind: &str, endpoint: &str) -> ChannelsFile {
    let (file, _) = add_channel_with(
        file,
        AddChannelInput {
            name: name.to_string(),
            kind: kind.to_string(),
            endpoint: Some(endpoint.to_string()),
            target: None,
            token_env: None,
        },
        format!("ch_{name}"),
        1_000,
    )
    .expect("add");
    file
}

fn check_probe_keeps_send_time() {
    let file = add(empty_file(), "slack", "slack_webhook", "mock-http://200");
    let delivery = simulate_mock_http("mock-http://200").expect("probe send");
    let channel = file.channels[0].duplicate();
    let file = record_delivery(file, 0, delivery.ok, true, None, 2_000);
    let result = send_outcome(&channel, true, delivery, None, None, None, None, "events/ch_slack.jsonl".to_string()).unwrap();
    assert!(result.probe);
    let list = list_channels(&file);
    assert!(list[0].last_send_at.is_none());
}

#[test]
fn lib_repository_send_probe_does_not_set_last_send_at() {
    check_probe_keeps_send_time();
}

#[test]
fn repository_repository_send_probe_does_not_set_last_send_at() {
    check_probe_keeps_send_time();
}

#[test]
fn capabilities_and_resolve_work() {
    let file = add(empty_file(), "alerts", "slack", "mock-http://200");
    let capabilities = capabilities_for_kind(Some("slack")).expect("capabilities");
    assert_eq!(capabilities.len(), 1);
    assert_eq!(capabilities[0].kind, "slack_webhook");
    let resolved = resolve_directory(&file, "slack_webhook", "alert").expect("resolve");
    assert_eq!(resolved.len(), 1);
    assert_eq!(resolved[0].name, "alerts");
}

#[test]
fn a_real_send_sets_send_time_and_a_failure_its_error() {
    let file = add(empty_file(), "hook", "webhook", "mock-http://200");
    let sent = record_delivery(file, 0, true, false, None, 5_000);
    assert_eq!(sent.channels[0].last_send_at, Some(5_000));
    let failed = record_delivery(sent, 0, false, false, Some("boom".to_string()), 6_000);
    assert_eq!(failed.channels[0].last_send_at, Some(5_000));
    assert_eq!(failed.channels[0].last_error.as_deref(), Some("boom"));
}

#[test]
fn duplicate_channel_names_are_refused_ignoring_case() {
    let file = add(empty_file(), "Alerts", "mock", "mock-http://200");
    let err = add_channel_with(
        file,
        AddChannelInput {
            name: "  alerts ".to_string(),
            kind: "mock".to_string(),
            endpoint: None,
            target: None,
            token_env: None,
        },
        "ch_2".to_string(),
        1,
    )
    .unwrap_err();
    assert_eq!(err.message_text(), "channel name 'alerts' already exists");
}

#[test]
fn kinds_have_canonical_names() {
    assert_eq!(normalize_kind("Slack").unwrap(), "slack_webhook");
    assert!(normalize_kind("carrier-pigeon").is_err());
}

#[test]
fn send_routes_follow_the_kind() {
    let file = add(empty_file(), "hook", "webhook", "https://example.com/in");
    assert_eq!(
        plan_send_route(&file.channels[0]).unwrap(),
        SendRoute::Webhook { endpoint: "https://example.com/in".to_string() }
    );
    let local = add(empty_file(), "local", "local", "mock-http://200");
    assert_eq!(plan_send_route(&local.channels[0]).unwrap(), SendRoute::Local);
    assert!(validate_send_text("  ").is_err());
    assert!(validate_send_text("hi").is_ok());
}

#[test]
fn token_variables_must_be_set() {
    assert_eq!(token_variable(Some("  ")), None);
    assert_eq!(token_variable(Some(" TOKEN ")).as_deref(), Some("TOKEN"));
    assert_eq!(resolve_token_value(None, None).unwrap(), None);
    let err = resolve_token_value(Some("TOKEN"), None).unwrap_err();
    assert!(matches!(err, MosaicError::Auth(ref m) if m == "environment variable TOKEN is required"));
    assert_eq!(resolve_token_value(Some("TOKEN"), Some("x".to_string())).unwrap().as_deref(), Some("x"));
}

#[test]
fn repository_places_its_files() {
    assert_eq!(channels_file_path("/data"), "/data/channels.json");
    assert_eq!(channels_events_dir("/data"), "/data/channel-events");
    let repo = ChannelRepository::new(channels_file_path("/data"), channels_events_dir("/data"));
    assert_eq!(repo.cache_dir(), "/data/channel-cache");
    assert_eq!(repo.rate_dir(), "/data/channel-rate");
    assert_eq!(repo.event_log_path("ch_1"), "/data/channel-events/ch_1.jsonl");
    let cache = repo.cache_path("slack|alert");
    assert!(cache.starts_with("/data/channel-cache/"));
    assert!(cache.ends_with(".json"));
    assert_eq!(cache, repo.cache_path("slack|alert"));
}

#[test]
fn cache_file_names_the_hash_in_hex() {
    let repo = ChannelRepository::new(channels_file_path("/data"), channels_events_dir("/data"));
    assert_eq!(repo.cache_file_for_hash(0), "/data/channel-cache/0.json");
    assert_eq!(repo.cache_file_for_hash(255), "/data/channel-cache/ff.json");
    assert_eq!(repo.cache_file_for_hash(0x1a2b), "/data/channel-cache/1a2b.json");
    assert_eq!(repo.cache_file_for_hash(u64::MAX), "/data/channel-cache/ffffffffffffffff.json");
}

#[test]
fn added_channel_gets_a_random_uuid_id() {
    let input = AddChannelInput {
        name: "ops".to_string(),
        kind: "mock".to_string(),
        endpoint: None,
        target: None,
        token_env: None,
    };
    let (file, entry) = add_channel(empty_file(), input).expect("add");
    assert_eq!(file.channels.len(), 1);
    let id: Vec<char> = entry.id.chars().collect();
    assert_eq!(id.len(), 3 + 36);
    assert!(entry.id.starts_with("ch_"));
    for (i, c) in id[3..].iter().enumerate() {
        if i == 8 || i == 13 || i == 18 || i == 23 {
            assert_eq!(*c, '-');
        } else {
            assert!(c.is_ascii_hexdigit() && !c.is_ascii_uppercase());
        }
    }
    assert_eq!(id[3 + 14], '4');
    assert!(matches!(id[3 + 19], '8' | '9' | 'a' | 'b'));
    let (_, other) = add_channel(file, AddChannelInput {
        name: "ops2".to_string(),
        kind: "mock".to_string(),
        endpoint: None,
        target: None,
        token_env: None,
    })
    .expect("add");
    assert_ne!(other.id, entry.id);
}
