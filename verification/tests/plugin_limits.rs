use mosaic::plugins::entry::{ExtensionSource, PluginEntry, PluginRuntimeConfig};
use mosaic::plugins::limits::{
    evaluate_plugin_resource_limits, resolve_plugin_cpu_watchdog_budget_ms,
    validate_plugin_resource_limits_platform, PluginResourceLimits, PluginResourceMetrics,
};

fn test_plugin_entry(runtime: Option<PluginRuntimeConfig>) -> PluginEntry {
    PluginEntry {
        id: "demo".to_string(),
        name: "Demo".to_string(),
        version: Some("0.1.0".to_string()),
        description: None,
        source: ExtensionSource::Project,
        path: ".".to_string(),
        manifest_path: "./plugin.toml".to_string(),
        manifest_exists: true,
        manifest_valid: true,
        manifest_error: None,
        runtime,
    }
}

fn runtime(max_cpu_ms: Option<u64>, max_rss_kb: Option<u64>) -> PluginRuntimeConfig {
    PluginRuntimeConfig {
        run: Some("hooks/run.sh".to_string()),
        doctor: None,
        timeout_ms: None,
        sandbox_profile: None,
        max_cpu_ms,
        max_rss_kb,
        max_output_bytes: None,
        cpu_watchdog_ms: None,
    }
}

#[test]
fn resolve_plugin_cpu_watchdog_budget_prefers_runtime_override() {
    let limits = PluginResourceLimits { max_cpu_ms: Some(50), max_rss_kb: None };
    let derived_budget = resolve_plugin_cpu_watchdog_budget_ms(5_000, limits, None);
    assert_eq!(derived_budget, Some(200));
    let override_budget = resolve_plugin_cpu_watchdog_budget_ms(5_000, limits, Some(1_250));
    assert_eq!(override_budget, Some(1_250));
}

#[test]
fn validate_plugin_resource_limits_platform_accepts_rss_on_unix() {
    let plugin = test_plugin_entry(Some(runtime(None, Some(1024))));
    let limits = PluginResourceLimits { max_cpu_ms: None, max_rss_kb: Some(1024) };
    assert!(validate_plugin_resource_limits_platform(&plugin, limits, true).is_ok());
}

#[test]
fn validate_plugin_resource_limits_platform_rejects_rss_on_non_unix() {
    let plugin = test_plugin_entry(Some(runtime(None, Some(1024))));
    let limits = PluginResourceLimits { max_cpu_ms: None, max_rss_kb: Some(1024) };
    let err = validate_plugin_resource_limits_platform(&plugin, limits, false).expect_err("error");
    assert!(err
        .message_text()
        .contains("runtime max_rss_kb requires unix-like metrics support"));
}

#[test]
fn evaluate_plugin_resource_limits_allows_cpu_only_without_metrics_on_non_unix() {
    let plugin = test_plugin_entry(Some(runtime(Some(100), None)));
    let limits = PluginResourceLimits { max_cpu_ms: Some(100), max_rss_kb: None };
    let evaluated = evaluate_plugin_resource_limits(&plugin, limits, None, false).expect("ok");
    assert!(evaluated.is_none());
}

#[test]
fn evaluate_plugin_resource_limits_rejects_rss_without_metrics_on_non_unix() {
    let plugin = test_plugin_entry(Some(runtime(None, Some(1024))));
    let limits = PluginResourceLimits { max_cpu_ms: None, max_rss_kb: Some(1024) };
    let err = evaluate_plugin_resource_limits(&plugin, limits, None, false).expect_err("error");
    assert!(err
        .message_text()
        .contains("runtime max_rss_kb requires unix-like metrics support"));
}

#[test]
fn evaluate_plugin_resource_limits_reports_cpu_breach() {
    let plugin = test_plugin_entry(Some(runtime(Some(100), None)));
    let limits = PluginResourceLimits { max_cpu_ms: Some(100), max_rss_kb: None };
    let metrics = PluginResourceMetrics {
        cpu_user_ms: Some(90),
        cpu_system_ms: Some(20),
        cpu_total_ms: Some(110),
        max_rss_kb: Some(10),
    };
    let within = PluginResourceMetrics { cpu_total_ms: Some(100), ..metrics };
    assert!(evaluate_plugin_resource_limits(&plugin, limits, Some(&within), true)
        .unwrap()
        .is_none());
    let breach = evaluate_plugin_resource_limits(&plugin, limits, Some(&metrics), true).unwrap();
    assert_eq!(
        breach,
        Some("plugin 'demo' hook resource limit exceeded: cpu_total_ms=110ms > max_cpu_ms=100ms".to_string())
    );
    let unmeasured = evaluate_plugin_resource_limits(&plugin, limits, None, true).unwrap_err();
    assert_eq!(
        unmeasured.message_text(),
        "plugin 'demo' configured runtime resource limits but usage metrics are unavailable"
    );
}

#[test]
fn watchdog_budget_without_cpu_limit_is_none() {
    let limits = PluginResourceLimits { max_cpu_ms: None, max_rss_kb: None };
    assert_eq!(resolve_plugin_cpu_watchdog_budget_ms(5_000, limits, None), None);
}

use mosaic::plugins::entry::{plugin_hook_candidates, PluginRuntimeHook};
use mosaic::plugins::run::{
    build_plugin_hook_command, hook_exit_code, hook_is_shell_script, render_shell_command,
    sandbox_script_lines, shell_escape, text_preview, validate_hook_run, OutputCapture,
};
use mosaic::plugins::state::{plugin_views_with_state, PluginStateFile};

#[test]
fn shell_words_are_quoted_when_needed() {
    assert_eq!(shell_escape("hooks/run.sh"), "hooks/run.sh");
    assert_eq!(shell_escape("a b"), "'a b'");
    assert_eq!(shell_escape("it's"), "'it'\"'\"'s'");
    assert_eq!(render_shell_command("sh", &vec!["x y".to_string(), "z".to_string()]), "sh 'x y' z");
}

#[test]
fn hook_commands_follow_the_file_kind() {
    let sh = build_plugin_hook_command("hooks/run.SH", &vec!["--flag".to_string()], None);
    assert_eq!(sh.program, "sh");
    assert_eq!(sh.args, vec!["hooks/run.SH".to_string(), "--flag".to_string()]);
    assert_eq!(sh.rendered, "sh hooks/run.SH --flag");
    let py = build_plugin_hook_command("hooks/run.py", &Vec::new(), Some("python3.12".to_string()));
    assert_eq!(py.program, "python3.12");
    let bin = build_plugin_hook_command("hooks/run", &Vec::new(), None);
    assert_eq!(bin.program, "hooks/run");
    assert!(bin.args.is_empty());
    assert!(hook_is_shell_script("hooks/run.bash"));
    assert!(!hook_is_shell_script("hooks/run.py"));
}

#[test]
fn hook_candidates_follow_the_manifest() {
    let plugin = test_plugin_entry(None);
    assert_eq!(
        plugin_hook_candidates(&plugin, PluginRuntimeHook::Doctor),
        vec!["./hooks/doctor".to_string(), "./hooks/doctor.sh".to_string(), "./hooks/doctor.py".to_string()]
    );
    let named = test_plugin_entry(Some(runtime(None, None)));
    assert_eq!(plugin_hook_candidates(&named, PluginRuntimeHook::Run), vec!["./hooks/run.sh".to_string()]);
}

#[test]
fn hook_runs_capture_and_judge() {
    let mut capture = OutputCapture::new();
    assert_eq!(capture.accept(6, 10), 6);
    assert_eq!(capture.accept(6, 10), 4);
    assert_eq!(capture.accept(6, 10), 0);
    capture.finish(10);
    assert!(capture.truncated);
    assert_eq!(hook_exit_code(None, true), 124);
    assert_eq!(hook_exit_code(Some(3), false), 3);
    assert_eq!(validate_hook_run(0, 1).unwrap_err().message_text(), "--timeout-ms must be greater than 0");
    assert_eq!(validate_hook_run(1, 0).unwrap_err().message_text(), "plugin runtime max_output_bytes must be greater than 0");
    assert_eq!(text_preview("abcdef", 3), "abc...");
    assert_eq!(text_preview("abc", 3), "abc");
}

#[test]
fn sandbox_lines_skip_blank_and_comment_lines() {
    let lines = sandbox_script_lines("#!/bin/sh\n\n  echo hi  \n# note\nrm -rf /\n");
    let seen: Vec<(usize, String)> = lines.into_iter().map(|l| (l.number, l.text)).collect();
    assert_eq!(seen, vec![(3, "echo hi".to_string()), (5, "rm -rf /".to_string())]);
}

#[test]
fn plugin_state_enables_and_disables() {
    let mut state = PluginStateFile::new();
    assert!(state.is_enabled("demo"));
    assert!(state.set_enabled("demo", false));
    assert!(!state.is_enabled("demo"));
    assert!(!state.set_enabled("demo", false));
    let views = plugin_views_with_state(vec![test_plugin_entry(None)], &state);
    assert!(!views[0].enabled);
    assert!(state.set_enabled("demo", true));
    assert!(state.is_enabled("demo"));
    let normalized = PluginStateFile::normalized(0, vec![" b ".to_string(), "a".to_string(), "b".to_string(), " ".to_string()]);
    assert_eq!(normalized.disabled_plugins, vec!["a".to_string(), "b".to_string()]);
    assert_eq!(normalized.version, 1);
}

#[test]
fn repeating_set_enabled_changes_nothing() {
    let mut state = PluginStateFile::normalized(1, vec![" b ".to_string(), "a".to_string(), "".to_string()]);
    assert_eq!(state.disabled_plugins, vec!["a".to_string(), "b".to_string()]);
    assert!(state.set_enabled(" c ", false));
    let after_first = state.disabled_plugins.clone();
    assert_eq!(after_first, vec!["a".to_string(), "b".to_string(), "c".to_string()]);
    assert!(!state.set_enabled(" c ", false));
    assert_eq!(state.disabled_plugins, after_first);
    assert!(state.set_enabled("a", true));
    let after_enable = state.disabled_plugins.clone();
    assert!(!state.set_enabled("a", true));
    assert_eq!(state.disabled_plugins, after_enable);
    assert_eq!(after_enable, vec!["b".to_string(), "c".to_string()]);
}

#[test]
fn enabling_an_enabled_plugin_changes_nothing() {
    let mut state = PluginStateFile::normalized(0, vec![" b ".to_string(), "b".to_string()]);
    let before = state.disabled_plugins.clone();
    assert!(!state.set_enabled(" a ", true));
    assert_eq!(state.disabled_plugins, before);
    assert!(!state.set_enabled("b", false));
    assert_eq!(state.disabled_plugins, before);
}
