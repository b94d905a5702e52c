use mosaic::agents::fields::{RunGuardMode, Temperature};
use mosaic::cli::browser::{
    browser_mock_page, browser_visit_target, close_visits, failed_http_visit, http_visit_record, find_visit_by_id, latest_visit,
    record_visit, resolve_snapshot_visit, screenshot_output_path, screenshot_payload,
    sorted_tail_visits, validate_browser_timeout, BrowserRuntimeState, BrowserVisit, VisitTarget,
};
use mosaic::cli::completion::{
    completion_file_name, completion_install_path, completion_shell_name, default_install_dir,
    CompletionShellArg,
};
use mosaic::cli::configure::{
    apply_legacy_configure, check_configure_subcommand, configure_input, configure_key_name,
    configure_temperature, configure_value, guard_mode_name, parse_bool_value,
    parse_configure_key, parse_guard_mode, set_configure_value, unset_configure_value,
    ConfigInput, ConfigValue, ConfigureKey, LegacyConfigure, ProfileConfig,
};
use mosaic::cli::dashboard::{collect_optional, gateway_target, GatewayAddress};
use mosaic::cli::models::{
    fallback_chain, normalize_model_name, normalize_models_limit, normalize_models_query,
    requested_model, select_models, ModelEntry,
};
use mosaic::error::MosaicError;

fn visit(id: &str, ts: i64) -> BrowserVisit {
    BrowserVisit {
        id: id.to_string(),
        ts,
        url: format!("mock://ok/{id}"),
        ok: true,
        http_status: Some(200),
        title: Some("Mock Page".to_string()),
        content_type: None,
        content_length: None,
        preview: None,
        error: None,
    }
}

fn state() -> BrowserRuntimeState {
    BrowserRuntimeState { running: false, started_at: None, stopped_at: None, active_visit_id: None }
}

#[test]
fn browser_history_is_sorted_by_time_and_tailed() {
    let history = vec![visit("b", 20), visit("a", 10), visit("c", 20), visit("d", 5)];
    let tail = sorted_tail_visits(history, 3);
    let ids: Vec<&str> = tail.iter().map(|v| v.id.as_str()).collect();
    assert_eq!(ids, vec!["a", "b", "c"]);
}

#[test]
fn latest_visit_is_the_last_of_equally_late() {
    let history = vec![visit("a", 10), visit("b", 30), visit("c", 30), visit("d", 20)];
    assert_eq!(latest_visit(&history), Some(2));
    assert_eq!(latest_visit(&Vec::new()), None);
}

#[test]
fn snapshot_prefers_named_then_active_then_latest() {
    let history = vec![visit("a", 10), visit("b", 30)];
    assert_eq!(resolve_snapshot_visit(&history, Some("a"), Some("b")).unwrap(), 0);
    assert_eq!(resolve_snapshot_visit(&history, None, Some("a")).unwrap(), 0);
    assert_eq!(resolve_snapshot_visit(&history, None, Some("gone")).unwrap(), 1);
    let err = resolve_snapshot_visit(&history, Some("zzz"), None).unwrap_err();
    assert_eq!(err.message_text(), "visit 'zzz' not found");
    let empty = resolve_snapshot_visit(&Vec::new(), None, None).unwrap_err();
    assert_eq!(
        empty.message_text(),
        "no browser visits available; run `mosaic browser open --url <...>` first"
    );
    assert_eq!(find_visit_by_id(&history, "b").unwrap(), 1);
}

#[test]
fn closing_the_active_visit_moves_focus_to_the_last_one() {
    let mut history = vec![visit("a", 1), visit("b", 2), visit("c", 3)];
    let mut st = state();
    st.active_visit_id = Some("c".to_string());
    assert_eq!(close_visits(&mut history, &mut st, Some("c"), false).unwrap(), 1);
    assert_eq!(history.len(), 2);
    assert_eq!(st.active_visit_id.as_deref(), Some("b"));
    assert_eq!(close_visits(&mut history, &mut st, Some("nope"), false).unwrap(), 0);
    assert_eq!(close_visits(&mut history, &mut st, None, true).unwrap(), 2);
    assert!(history.is_empty());
    assert_eq!(st.active_visit_id, None);
    let both = close_visits(&mut history, &mut st, Some("a"), true).unwrap_err();
    assert_eq!(both.message_text(), "cannot set visit_id and --all together");
    let neither = close_visits(&mut history, &mut st, None, false).unwrap_err();
    assert_eq!(neither.message_text(), "specify visit_id or use --all");
}

#[test]
fn runtime_start_keeps_its_first_start_time() {
    let mut st = state();
    st.start(10);
    st.start(20);
    assert_eq!(st.started_at, Some(10));
    st.stop(30);
    assert!(!st.running);
    assert_eq!(st.stopped_at, Some(30));
    let mut history = Vec::new();
    record_visit(&mut history, &mut st, visit("v", 40));
    assert_eq!(st.active_visit_id.as_deref(), Some("v"));
    assert_eq!(history.len(), 1);
}

#[test]
fn mock_pages_follow_their_address() {
    let target = browser_visit_target("mock://status/404?title=Missing").unwrap();
    let parts = match target {
        VisitTarget::Mock(p) => p,
        VisitTarget::Http(_) => panic!("mock address"),
    };
    let page = browser_mock_page(&parts);
    assert_eq!(page.status, 404);
    assert_eq!(page.title, "Missing");
    assert!(!page.ok);
    assert_eq!(page.error.as_deref(), Some("http status 404"));
    assert_eq!(
        page.body,
        "<html><head><title>Missing</title></head><body>mock browser response status 404</body></html>"
    );
    assert_eq!(page.content_length, page.body.len());
    let ok = match browser_visit_target("mock://ok").unwrap() {
        VisitTarget::Mock(p) => browser_mock_page(&p),
        VisitTarget::Http(_) => panic!("mock address"),
    };
    assert_eq!(ok.status, 200);
    assert_eq!(ok.title, "Mock Page");
    assert!(ok.ok);
    assert!(matches!(browser_visit_target("https://example.com").unwrap(), VisitTarget::Http(_)));
    let bad = browser_visit_target("ftp://example.com").unwrap_err();
    assert_eq!(bad.message_text(), "unsupported browser url scheme 'ftp', expected http/https/mock");
    assert!(browser_visit_target("not a url").unwrap_err().message_text().starts_with("invalid browser url 'not a url': "));
    assert!(validate_browser_timeout(0).is_err());
    assert!(validate_browser_timeout(1).is_ok());
}

#[test]
fn screenshots_write_a_text_artifact() {
    let v = visit("v1", 0);
    let payload = screenshot_payload(&v).unwrap();
    assert_eq!(
        payload,
        "MOSAIC_BROWSER_SCREENSHOT_V1\nvisit_id=v1\nts=1970-01-01T00:00:00+00:00\nurl=mock://ok/v1\nok=true\nstatus=200\ntitle=Mock Page\npreview=-\n"
    );
    assert_eq!(screenshot_output_path(None, "/cwd", "/data", "v1"), "/data/browser-screenshots/v1.txt");
    assert_eq!(screenshot_output_path(Some("shot.txt"), "/cwd", "/data", "v1"), "/cwd/shot.txt");
    assert_eq!(screenshot_output_path(Some("/tmp/x.txt"), "/cwd", "/data", "v1"), "/tmp/x.txt");
}

fn model(id: &str) -> ModelEntry {
    ModelEntry { id: id.to_string(), owned_by: None }
}

#[test]
fn model_listing_filters_and_limits() {
    let models = vec![model("Sol-4"), model("sol-4-mini"), model("luna"), model("o1")];
    let all = select_models(models.clone(), None, None);
    assert_eq!(all.total_models, 4);
    assert_eq!(all.returned_models, 4);
    let some = select_models(models.clone(), Some("SOL"), Some(1));
    assert_eq!(some.matched_models, 2);
    assert_eq!(some.returned_models, 1);
    assert_eq!(some.models[0].id, "Sol-4");
    assert_eq!(normalize_models_query(Some("  q ".to_string())).unwrap().as_deref(), Some("q"));
    assert_eq!(normalize_models_query(Some("  ".to_string())).unwrap_err().message_text(), "--query cannot be empty");
    assert_eq!(normalize_models_limit(Some(0)).unwrap_err().message_text(), "--limit must be greater than 0");
    assert_eq!(normalize_models_limit(Some(3)).unwrap(), Some(3));
}

#[test]
fn requested_models_and_fallback_chains() {
    assert_eq!(requested_model(Some(" m ".to_string()), "cur").unwrap(), "m");
    assert_eq!(requested_model(None, "cur").unwrap(), "cur");
    assert_eq!(requested_model(Some(" ".to_string()), "cur").unwrap_err().message_text(), "model cannot be empty");
    assert_eq!(requested_model(None, "  ").unwrap_err().message_text(), "model cannot be empty");
    assert_eq!(normalize_model_name(" x ").unwrap(), "x");
    let resolved = vec!["a".to_string(), "main".to_string(), "b".to_string(), "a".to_string()];
    assert_eq!(fallback_chain("main", &resolved), vec!["a".to_string(), "b".to_string()]);
}

fn profile() -> ProfileConfig {
    ProfileConfig {
        base_url: "https://api.example.com".to_string(),
        model: "m1".to_string(),
        api_key_env: "KEY".to_string(),
        temperature: Temperature { bits: 0.2f32.to_bits() },
        max_turns: 8,
        tools_enabled: true,
        guard_mode: RunGuardMode::ConfirmDangerous,
    }
}

#[test]
fn configure_keys_accept_short_and_dashed_names() {
    assert_eq!(parse_configure_key("model").unwrap(), ConfigureKey::ProviderModel);
    assert_eq!(parse_configure_key(" Tools-Enabled ").unwrap(), ConfigureKey::ToolsEnabled);
    assert_eq!(parse_configure_key("tools.run.guard-mode").unwrap(), ConfigureKey::ToolsRunGuardMode);
    assert_eq!(parse_configure_key(" ").unwrap_err().message_text(), "configure key cannot be empty");
    assert_eq!(parse_configure_key(" Nope ").unwrap_err().message_text(), "unsupported configure key 'Nope'");
    assert_eq!(configure_key_name(ConfigureKey::AgentMaxTurns), "agent.max_turns");
}

#[test]
fn configure_values_are_read_by_kind() {
    assert_eq!(parse_bool_value(" YES ").unwrap(), true);
    assert_eq!(parse_bool_value("off").unwrap(), false);
    assert_eq!(parse_bool_value("maybe").unwrap_err().message_text(), "invalid boolean value 'maybe', expected true/false");
    assert_eq!(parse_guard_mode("All_Confirm").unwrap(), RunGuardMode::AllConfirm);
    assert_eq!(guard_mode_name(&RunGuardMode::Unrestricted), "unrestricted");
    assert!(parse_guard_mode("never").is_err());
    assert_eq!(
        configure_input(ConfigureKey::AgentMaxTurns, " 12 ").unwrap(),
        ConfigInput::Value(ConfigValue::Count(12))
    );
    assert_eq!(
        configure_input(ConfigureKey::AgentMaxTurns, "0").unwrap_err().message_text(),
        "agent.max_turns must be greater than 0"
    );
    assert!(configure_input(ConfigureKey::AgentMaxTurns, "x")
        .unwrap_err()
        .message_text()
        .starts_with("invalid integer for agent.max_turns: "));
    assert_eq!(
        configure_input(ConfigureKey::AgentTemperature, " 0.5 ").unwrap(),
        ConfigInput::TemperatureText("0.5".to_string())
    );
    assert_eq!(configure_input(ConfigureKey::ProviderModel, "  ").unwrap_err().message_text(), "configure value cannot be empty");
    assert!(configure_temperature(Temperature { bits: f32::NAN.to_bits() }).is_err());
    assert!(configure_temperature(Temperature { bits: 1.5f32.to_bits() }).is_ok());
}

#[test]
fn configure_set_and_unset_touch_one_key() {
    let mut p = profile();
    let held = set_configure_value(&mut p, ConfigureKey::ProviderModel, ConfigValue::Text("m2".to_string()));
    assert_eq!(held, ConfigValue::Text("m2".to_string()));
    assert_eq!(p.model, "m2");
    assert_eq!(p.base_url, "https://api.example.com");
    let defaults = ProfileConfig { model: "default-model".to_string(), ..profile() };
    let back = unset_configure_value(&mut p, ConfigureKey::ProviderModel, &defaults);
    assert_eq!(back, ConfigValue::Text("default-model".to_string()));
    assert_eq!(configure_value(&p, ConfigureKey::AgentMaxTurns), ConfigValue::Count(8));
}

#[test]
fn legacy_configure_flags() {
    let none = LegacyConfigure {
        show: false,
        base_url: None,
        model: None,
        api_key_env: None,
        temperature: None,
        max_turns: None,
        tools_enabled: None,
        guard_mode: None,
    };
    assert!(check_configure_subcommand(&none).is_ok());
    let with_show = LegacyConfigure { show: true, ..none.clone() };
    assert_eq!(
        check_configure_subcommand(&with_show).unwrap_err().message_text(),
        "configure subcommands cannot be combined with legacy configure flags"
    );
    let mut p = profile();
    assert!(!apply_legacy_configure(&mut p, with_show));
    let change = LegacyConfigure { max_turns: Some(3), ..none };
    assert!(apply_legacy_configure(&mut p, change));
    assert_eq!(p.max_turns, 3);
}

#[test]
fn completion_files_and_directories() {
    assert_eq!(completion_shell_name(CompletionShellArg::PowerShell), "powershell");
    assert_eq!(completion_file_name(CompletionShellArg::Zsh), "_mosaic");
    assert_eq!(default_install_dir(CompletionShellArg::Fish, Some("/home/u")).unwrap(), "/home/u/.config/fish/completions");
    let missing = default_install_dir(CompletionShellArg::Bash, None).unwrap_err();
    assert!(matches!(missing, MosaicError::Config(ref m) if m == "HOME is not set; pass --dir for completion install"));
    assert_eq!(completion_install_path(CompletionShellArg::Bash, Some("/c"), Some("/h")).unwrap(), "/c/mosaic");
    assert_eq!(
        completion_install_path(CompletionShellArg::Elvish, None, Some("/h")).unwrap(),
        "/h/.config/elvish/lib/mosaic.elv"
    );
    assert!(completion_install_path(CompletionShellArg::Bash, Some("/c"), None).is_err());
}

#[test]
fn dashboard_gateway_target_and_warnings() {
    let from_state = GatewayAddress { host: "10.0.0.1".to_string(), port: 9000 };
    let from_service = GatewayAddress { host: "10.0.0.2".to_string(), port: 9001 };
    let t = gateway_target(Some(&from_state), Some(&from_service));
    assert_eq!((t.host.as_str(), t.port), ("10.0.0.1", 9000));
    let t = gateway_target(None, Some(&from_service));
    assert_eq!((t.host.as_str(), t.port), ("10.0.0.2", 9001));
    let t = gateway_target(None, None);
    assert_eq!((t.host.as_str(), t.port), ("127.0.0.1", 8787));
    let mut warnings = Vec::new();
    assert_eq!(collect_optional("agents", &mut warnings, Ok::<u32, String>(3)), Some(3));
    assert_eq!(collect_optional::<u32>("channels", &mut warnings, Err("broken".to_string())), None);
    assert_eq!(warnings, vec!["channels: broken".to_string()]);
}

#[test]
fn http_visits_record_status_length_and_error() {
    let ok = http_visit_record(
        "v1".to_string(), 5, "https://example.com".to_string(), 204,
        Some("text/html".to_string()), "héllo", Some("Hi".to_string()), Some("héllo".to_string()),
    );
    assert!(ok.ok);
    assert_eq!(ok.http_status, Some(204));
    assert_eq!(ok.content_length, Some(6));
    assert_eq!(ok.error, None);
    assert_eq!(ok.title.as_deref(), Some("Hi"));
    let missing = http_visit_record("v2".to_string(), 6, "https://example.com/x".to_string(), 404, None, "", None, None);
    assert!(!missing.ok);
    assert_eq!(missing.error.as_deref(), Some("http status 404"));
    assert_eq!(missing.content_length, Some(0));
    let failed = failed_http_visit("v3".to_string(), 7, "https://x".to_string(), None, None, "request failed: boom".to_string());
    assert!(!failed.ok);
    assert_eq!(failed.http_status, None);
    assert_eq!(failed.content_length, None);
    assert_eq!(failed.error.as_deref(), Some("request failed: boom"));
}
