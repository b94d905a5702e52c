use mosaic::automation::cron::{
    count_successes, due_cron_jobs, failed_hooks_error, new_cron_job, next_cron_run_at,
    set_cron_job_enabled, CronJobRecord,
};
use mosaic::automation::events::{
    apply_logs_cutoff, is_memory_cleanup_event, memory_policy_remaining_wait_minutes,
    resolve_logs_cutoff,
};
use mosaic::automation::hooks::{
    delivery_status, find_hook, new_hook, set_hook_enabled, HookRecord,
};
use mosaic::automation::webhooks::{
    is_valid_env_name, method_name, new_webhook, normalize_optional_secret_env,
    normalize_webhook_path, resolve_webhook, verify_webhook_secret, WebhookMethod,
};
use mosaic::automation::registry::records_for_event;
use mosaic::error::MosaicError;

fn hook(id: &str, event: &str) -> HookRecord {
    new_hook(&format!("hook {id}"), event, "echo hi", false, id.to_string(), 1).unwrap()
}

#[test]
fn hooks_are_trimmed_and_validated() {
    let h = new_hook("  Notify  ", " deploy ", " echo done ", true, "h1".to_string(), 7).unwrap();
    assert_eq!((h.name.as_str(), h.event.as_str(), h.command.as_str()), ("Notify", "deploy", "echo done"));
    assert!(!h.enabled);
    assert_eq!(h.created_at, 7);
    assert_eq!(new_hook(" ", "e", "c", false, "x".to_string(), 0).unwrap_err().message_text(), "hook name cannot be empty");
    assert_eq!(new_hook("n", " ", "c", false, "x".to_string(), 0).unwrap_err().message_text(), "hook event cannot be empty");
    assert_eq!(new_hook("n", "e", " ", false, "x".to_string(), 0).unwrap_err().message_text(), "hook command cannot be empty");
}

#[test]
fn hooks_are_found_toggled_and_filtered() {
    let mut hooks = vec![hook("a", "deploy"), hook("b", "build"), hook("c", "deploy")];
    assert_eq!(find_hook(&hooks, "b").unwrap(), 1);
    assert_eq!(find_hook(&hooks, "z").unwrap_err().message_text(), "hook 'z' not found");
    assert_eq!(set_hook_enabled(&mut hooks, "c", false, 9).unwrap(), 2);
    assert!(!hooks[2].enabled);
    assert_eq!(hooks[2].updated_at, 9);
    assert_eq!(records_for_event(&hooks, Some(" deploy ")), vec![0, 2]);
    assert_eq!(records_for_event(&hooks, None), vec![0, 1, 2]);
    assert_eq!(delivery_status(true), "success");
    assert_eq!(delivery_status(false), "failed");
}

fn job(id: &str, next_run_at: i64, enabled: bool) -> CronJobRecord {
    let mut j = new_cron_job("job", "tick", 60, "{}".to_string(), !enabled, id.to_string(), 0).unwrap();
    j.next_run_at = next_run_at;
    j
}

#[test]
fn cron_jobs_are_validated_and_scheduled() {
    assert_eq!(
        new_cron_job("n", "e", 0, "{}".to_string(), false, "x".to_string(), 0).unwrap_err().message_text(),
        "--every must be greater than 0 seconds"
    );
    let j = new_cron_job(" nightly ", " backup ", 3600, "{}".to_string(), false, "c1".to_string(), 500).unwrap();
    assert_eq!(j.next_run_at, 500);
    assert_eq!(j.name, "nightly");
    assert_eq!(next_cron_run_at(1_000, 60).unwrap(), 61_000);
    assert_eq!(next_cron_run_at(1_000, 0).unwrap_err().message_text(), "cron interval must be greater than 0 seconds");
    assert_eq!(
        next_cron_run_at(0, u64::MAX).unwrap_err().message_text(),
        "cron interval is too large to schedule"
    );
}

#[test]
fn due_jobs_run_earliest_first_up_to_the_limit() {
    let jobs = vec![job("a", 30, true), job("b", 10, true), job("c", 5, false), job("d", 10, true), job("e", 99, true)];
    assert_eq!(due_cron_jobs(&jobs, 50, 10).unwrap(), vec![1, 3, 0]);
    assert_eq!(due_cron_jobs(&jobs, 50, 2).unwrap(), vec![1, 3]);
    assert_eq!(due_cron_jobs(&jobs, 50, 0).unwrap_err().message_text(), "--limit must be greater than 0");
    let mut jobs = jobs;
    set_cron_job_enabled(&mut jobs, "a", false, 60).unwrap();
    assert_eq!(due_cron_jobs(&jobs, 50, 10).unwrap(), vec![1, 3]);
}

#[test]
fn hook_tallies_and_failure_messages() {
    assert_eq!(count_successes(&vec![true, false, true]), 2);
    assert_eq!(failed_hooks_error(0), None);
    assert_eq!(failed_hooks_error(2).as_deref(), Some("2 hook execution(s) failed"));
}

#[test]
fn memory_cleanup_waits_for_its_interval() {
    assert!(is_memory_cleanup_event("memory.cleanup"));
    assert!(is_memory_cleanup_event("mosaic.memory.cleanup"));
    assert!(!is_memory_cleanup_event("memory.clean"));
    assert_eq!(memory_policy_remaining_wait_minutes(Some(10), Some(0), 3 * 60_000), Some(7));
    assert_eq!(memory_policy_remaining_wait_minutes(Some(10), Some(0), 11 * 60_000), None);
    assert_eq!(memory_policy_remaining_wait_minutes(None, Some(0), 0), None);
}

#[test]
fn log_cutoffs() {
    assert_eq!(resolve_logs_cutoff(None, "hooks logs", 0).unwrap(), None);
    assert_eq!(resolve_logs_cutoff(Some(2), "hooks logs", 600_000).unwrap(), Some(480_000));
    assert_eq!(
        resolve_logs_cutoff(Some(0), "hooks logs", 0).unwrap_err().message_text(),
        "hooks logs --since-minutes must be greater than 0"
    );
    let ts = vec![10, 50, 20, 70];
    assert_eq!(apply_logs_cutoff(&ts, 10, Some(20)), vec![1, 2, 3]);
    assert_eq!(apply_logs_cutoff(&ts, 2, None), vec![2, 3]);
}

#[test]
fn webhook_paths_and_secrets() {
    assert_eq!(normalize_webhook_path(" hooks/deploy ").unwrap(), "/hooks/deploy");
    assert_eq!(normalize_webhook_path("/x").unwrap(), "/x");
    assert_eq!(normalize_webhook_path("  ").unwrap_err().message_text(), "webhook path cannot be empty");
    assert_eq!(normalize_webhook_path("/a b").unwrap_err().message_text(), "webhook path cannot contain whitespace");
    assert!(is_valid_env_name("SECRET_1"));
    assert!(!is_valid_env_name("1BAD"));
    assert_eq!(normalize_optional_secret_env(None).unwrap(), None);
    assert_eq!(normalize_optional_secret_env(Some(" KEY ".to_string())).unwrap().as_deref(), Some("KEY"));
    assert_eq!(normalize_optional_secret_env(Some("  ".to_string())).unwrap_err().message_text(), "webhook secret env cannot be empty");
    assert_eq!(normalize_optional_secret_env(Some("a-b".to_string())).unwrap_err().message_text(), "invalid webhook secret env 'a-b'");
    assert_eq!(method_name(WebhookMethod::Patch), "PATCH");

    let w = new_webhook("deploy", "deploy", "hooks/deploy", WebhookMethod::Post, Some("HOOK_SECRET".to_string()), false, "w1".to_string(), 1).unwrap();
    let hooks = vec![w];
    assert_eq!(resolve_webhook(&hooks, "hooks/deploy", WebhookMethod::Post).unwrap(), 0);
    assert!(resolve_webhook(&hooks, "hooks/deploy", WebhookMethod::Get).is_err());
    let missing = verify_webhook_secret(&hooks[0], None, Some("s")).unwrap_err();
    assert!(matches!(missing, MosaicError::Auth(ref m) if m == "webhook 'w1' requires secret env 'HOOK_SECRET' to be set"));
    let mismatch = verify_webhook_secret(&hooks[0], Some("s3cret".to_string()), Some("nope")).unwrap_err();
    assert!(matches!(mismatch, MosaicError::Auth(ref m) if m == "webhook 'w1' secret mismatch"));
    assert!(verify_webhook_secret(&hooks[0], Some("s3cret".to_string()), Some("s3cret")).is_ok());
}

use mosaic::automation::replay::{
    cron_replay_command, hook_replay_command, webhook_replay_command,
    automation_reason_key, build_automation_replay_batch_plan, build_automation_replay_diagnostics,
    classify_cron_replay_reason, classify_hook_replay_reason, classify_webhook_replay_reason,
    is_retryable_reason, select_replay_candidates, validate_replay_request,
    AutomationReplayReason, ReplayDiagnosticInput, ReplayFacts, ReplayPlanItem,
};

#[test]
fn replay_reasons_are_classified() {
    assert_eq!(classify_hook_replay_reason(Some("auth"), None), "auth");
    assert_eq!(classify_hook_replay_reason(Some("weird"), Some(1)), "unknown");
    assert_eq!(classify_hook_replay_reason(None, Some(2)), "tool");
    assert_eq!(classify_hook_replay_reason(None, Some(0)), "unknown");
    assert_eq!(classify_cron_replay_reason(1, None), "hook_failures");
    assert_eq!(classify_webhook_replay_reason(2, Some("auth")), "hook_failures");
    assert!(is_retryable_reason("tool"));
    assert!(!is_retryable_reason("auth"));
    assert_eq!(automation_reason_key(AutomationReplayReason::SandboxDenied), "sandbox_denied");
}

#[test]
fn replay_requests_are_checked_in_order() {
    assert_eq!(validate_replay_request("hooks replay", 0, None, None, false, false).unwrap_err().message_text(), "hooks replay --limit must be greater than 0");
    assert_eq!(validate_replay_request("hooks replay", 5, Some(0), None, false, false).unwrap_err().message_text(), "hooks replay --batch-size must be greater than 0");
    assert_eq!(validate_replay_request("hooks replay", 5, None, Some(0), false, false).unwrap_err().message_text(), "hooks replay --max-apply must be greater than 0");
    let approval = validate_replay_request("cron replay", 5, None, None, true, false).unwrap_err();
    assert!(matches!(approval, MosaicError::ApprovalRequired(ref m) if m == "cron replay --apply requires --yes in non-interactive mode"));
    assert!(validate_replay_request("cron replay", 5, Some(2), Some(1), true, true).is_ok());
}

fn facts(ok: bool, reason: &str) -> ReplayFacts {
    ReplayFacts { ok, reason: reason.to_string() }
}

#[test]
fn replay_candidates_and_batches() {
    let events = vec![facts(false, "tool"), facts(true, ""), facts(false, "auth"), facts(false, "hook_failures")];
    let all = select_replay_candidates(&events, &Vec::new(), false, 10);
    let picked: Vec<usize> = all.iter().map(|s| s.index).collect();
    assert_eq!(picked.len(), 3);
    assert!(picked.contains(&0) && picked.contains(&2) && picked.contains(&3));
    let retryable = select_replay_candidates(&events, &Vec::new(), true, 10);
    assert!(retryable.iter().all(|s| s.retryable));
    assert_eq!(retryable.len(), 2);

    let items: Vec<ReplayPlanItem> = ["t1", "t2", "t3"]
        .iter()
        .enumerate()
        .map(|(i, ts)| ReplayPlanItem { ts: ts.to_string(), reason: if i == 1 { "auth".to_string() } else { "tool".to_string() }, retryable: i != 1 })
        .collect();
    let batches = build_automation_replay_batch_plan(&items, Some(2));
    assert_eq!(batches.len(), 2);
    assert_eq!(batches[0].batch_index, 1);
    assert_eq!(batches[0].size, 2);
    assert_eq!((batches[0].first_ts.as_str(), batches[0].last_ts.as_str()), ("t1", "t2"));
    assert!(!batches[0].retryable_only);
    assert_eq!(batches[0].reasons, vec!["auth".to_string(), "tool".to_string()]);
    assert_eq!(batches[1].size, 1);
    assert!(batches[1].retryable_only);
    assert_eq!(build_automation_replay_batch_plan(&items, None).len(), 1);
}

#[test]
fn replay_diagnostics_count_and_age() {
    let selected = vec![
        ReplayDiagnosticInput { ts: 60_000, reason: "tool".to_string(), retryable: true },
        ReplayDiagnosticInput { ts: 0, reason: "auth".to_string(), retryable: false },
    ];
    let d = build_automation_replay_diagnostics(&selected, 600_000);
    assert_eq!(d.selected_candidates, 2);
    assert_eq!(d.retryable_candidates, 1);
    assert_eq!(d.non_retryable_candidates, 1);
    assert_eq!(d.oldest_ts, Some(0));
    assert_eq!(d.newest_ts, Some(60_000));
    assert_eq!(d.oldest_candidate_age_minutes, Some(10));
}

#[test]
fn replay_commands_carry_the_run_data() {
    assert_eq!(
        hook_replay_command("hk_1", "{\"a\":1}"),
        "mosaic --project-state --yes hooks run hk_1 --data '{\"a\":1}'"
    );
    assert_eq!(
        cron_replay_command("cr_1", "null"),
        "mosaic --project-state --yes cron run cr_1 --data 'null'"
    );
    assert_eq!(
        webhook_replay_command("wh_1", "{}", None),
        "mosaic --project-state --yes webhooks trigger wh_1 --data '{}'"
    );
    assert_eq!(
        webhook_replay_command("wh_1", "{}", Some("HOOK_SECRET")),
        "mosaic --project-state --yes webhooks trigger wh_1 --data '{}' --secret \"${HOOK_SECRET}\""
    );
}

#[test]
fn webhooks_are_listed_by_event() {
    let a = new_webhook("a", "deploy", "/a", WebhookMethod::Post, None, false, "w1".to_string(), 1).unwrap();
    let b = new_webhook("b", "build", "/b", WebhookMethod::Post, None, false, "w2".to_string(), 1).unwrap();
    let c = new_webhook("c", "deploy", "/c", WebhookMethod::Get, None, true, "w3".to_string(), 1).unwrap();
    let webhooks = vec![a, b, c];
    assert_eq!(records_for_event(&webhooks, Some("deploy ")), vec![0, 2]);
    assert_eq!(records_for_event(&webhooks, Some("none")), Vec::<usize>::new());
    assert_eq!(records_for_event(&webhooks, None), vec![0, 1, 2]);
}
