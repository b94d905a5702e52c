use mosaic::agents::catalog::AgentIntegrityReport;
use mosaic::agents::runner::{
    ask_step, begin_turn, build_messages_for_session, check_session_exists, check_tools_enabled,
    choose_system_prompt, default_system_prompt, is_command_tool, strip_markdown_json_fence,
    parse_tool_call, tool_call_text, validate_prompt, AskStep, ChatRole, EventKind, SessionEventView,
};
use mosaic::cli::devices::{
    approve_device, approve_pairing, close_device, device_fingerprint, filter_pairings,
    reject_pairing, request_pairing, rotate_device, DeviceRecord, DeviceStatus, NodeRecord,
    NodeRuntimeStatus, PairingRequestRecord, PairingStatus,
};
use mosaic::cli::discovery::{
    dns_addresses, doc_topic_list, hex_digit, plan_qr_render, qr_pairing_payload,
    qr_value_payload, resolve_doc_topic, url_encode, QrRenderArg, QrRenderPlan,
};
use mosaic::cli::doctor::{
    collect_doctor_checks, run_check, ApprovalMode, ApprovalsFacts, AuditFacts, CheckCounts,
    ConfigFacts, DoctorFacts, MemoryFacts, ProviderHealth, SandboxFacts,
};
use mosaic::cli::qr::{encode_qr_payload, qr_png_pixels, render_qr_ascii};
use mosaic::error::MosaicError;
use mosaic::plugins::policy::SandboxProfile;

#[test]
fn url_encoding_keeps_unreserved_bytes() {
    assert_eq!(url_encode("a-Z_0.~"), "a-Z_0.~");
    assert_eq!(url_encode("a b/é"), "a%20b%2F%C3%A9");
    assert_eq!(hex_digit(11), 'B');
    assert_eq!(hex_digit(16), '0');
}

#[test]
fn qr_payloads() {
    assert_eq!(qr_value_payload("  hi there ").unwrap(), "mosaic://qr?value=hi%20there");
    assert_eq!(qr_value_payload(" ").unwrap_err().message_text(), "qr value cannot be empty");
    let p = qr_pairing_payload(" dev 1 ", "node", 100, 60).unwrap();
    assert_eq!(p.payload, "mosaic://pairing?device=dev%201&node=node&exp=160");
    assert_eq!(p.expires_at, 160);
    assert_eq!(qr_pairing_payload("d", "n", u64::MAX, 5).unwrap().expires_at, u64::MAX);
    assert_eq!(qr_pairing_payload(" ", "n", 0, 0).unwrap_err().message_text(), "--device cannot be empty");
    assert_eq!(qr_pairing_payload("d", "", 0, 0).unwrap_err().message_text(), "--node cannot be empty");
}

#[test]
fn qr_render_options() {
    assert_eq!(plan_qr_render(QrRenderArg::Payload, None, 2, 4).unwrap(), QrRenderPlan::Payload);
    assert_eq!(plan_qr_render(QrRenderArg::Ascii, None, 2, 4).unwrap(), QrRenderPlan::Ascii);
    assert_eq!(
        plan_qr_render(QrRenderArg::Png, Some(" out.png "), 2, 4).unwrap(),
        QrRenderPlan::Png { output: "out.png".to_string() }
    );
    assert_eq!(plan_qr_render(QrRenderArg::Png, Some("  "), 2, 4).unwrap_err().message_text(), "--output is required when --render png");
    assert_eq!(plan_qr_render(QrRenderArg::Ascii, Some("x"), 2, 4).unwrap_err().message_text(), "--output is only supported when --render png");
    assert_eq!(plan_qr_render(QrRenderArg::Payload, None, 2, 0).unwrap_err().message_text(), "--module-size must be greater than 0");
    assert_eq!(plan_qr_render(QrRenderArg::Payload, None, 33, 1).unwrap_err().message_text(), "--quiet-zone must be less than or equal to 32");
}

#[test]
fn qr_codes_render_as_text_and_pixels() {
    let qr = encode_qr_payload("mosaic://qr?value=hello").unwrap();
    assert!(qr.size >= 21);
    let ascii = render_qr_ascii(&qr, 1);
    let lines: Vec<&str> = ascii.split('\n').collect();
    assert_eq!(lines.len() as i32, qr.size + 2);
    assert!(lines[0].chars().all(|c| c == ' '));
    assert_eq!(lines[1].chars().count() as i32, 2 * (qr.size + 2));
    let (side, pixels) = qr_png_pixels(&qr, 2, 3).unwrap();
    assert_eq!(side as i32, (qr.size + 4) * 3);
    assert_eq!(pixels.len(), (side * side) as usize);
    assert_eq!(pixels[0], 255);
    let corner = ((2 * 3) * side + 2 * 3) as usize;
    assert_eq!(pixels[corner], if qr.get_module(0, 0) { 0 } else { 255 });
    let too_long = "x".repeat(5000);
    assert!(encode_qr_payload(&too_long).unwrap_err().message_text().starts_with("failed to encode qr payload: "));
}

#[test]
fn doc_topics_and_dns() {
    assert_eq!(doc_topic_list().len(), 16);
    let (topic, url) = resolve_doc_topic("  Safety ").unwrap();
    assert_eq!((topic.as_str(), url.as_str()), ("safety", "cli/docs/sandbox-approvals.md"));
    assert_eq!(
        resolve_doc_topic("nope").unwrap_err().message_text(),
        "unknown docs topic 'nope'. run `mosaic docs` to list topics"
    );
    let ips = vec!["10.0.0.2".to_string(), "10.0.0.1".to_string(), "10.0.0.2".to_string()];
    assert_eq!(dns_addresses("h:1", &ips).unwrap(), vec!["10.0.0.1".to_string(), "10.0.0.2".to_string()]);
    let err = dns_addresses("h:1", &Vec::new()).unwrap_err();
    assert!(matches!(err, MosaicError::Network(ref m) if m == "dns resolution returned no addresses for 'h:1'"));
}

fn facts() -> DoctorFacts {
    DoctorFacts {
        config_exists: true,
        state_writable: true,
        rg_available: false,
        config: ConfigFacts::Present {
            api_key_env: "PROVIDER_API_KEY".to_string(),
            provider: Some(ProviderHealth { ok: true, detail: "ok".to_string() }),
        },
        channel_checks: Ok(vec![run_check("channels_file", true, "2 channels")]),
        approvals: Ok(ApprovalsFacts { mode: ApprovalMode::Confirm, allowlist_size: 2, path: "/p/a.toml".to_string() }),
        sandbox: Ok(SandboxFacts { profile: SandboxProfile::Standard, path: "/p/s.toml".to_string() }),
        memory: Ok(MemoryFacts { indexed_documents: 7, index_path: "/m".to_string() }),
        agents: Ok(AgentIntegrityReport { agents_count: 1, routes_count: 0, default_agent_id: None, ok: true, issues: Vec::new() }),
        plugins: Ok(CheckCounts { ok: true, checked: 3, failed: 0 }),
        skills: Err("no skills dir".to_string()),
        baseline_path: "/r/security/baseline.toml".to_string(),
        baseline: Ok(None),
        audit: Ok(AuditFacts { findings: 2, high: 1, medium: 1, low: 0, scanned_files: 9 }),
    }
}

#[test]
fn doctor_checks_in_order() {
    let checks = collect_doctor_checks(&facts());
    let names: Vec<&str> = checks.iter().map(|c| c.name.as_str()).collect();
    assert_eq!(
        names,
        vec![
            "config_exists", "state_writable", "rg_binary", "api_key_env", "provider_connectivity",
            "channels_file", "approvals_policy", "sandbox_policy", "memory_index", "agents_integrity",
            "plugins_check", "skills_check", "security_baseline", "security_audit",
        ]
    );
    assert_eq!(checks[3].detail, "environment variable PROVIDER_API_KEY found");
    assert_eq!(checks[6].detail, "mode=Confirm allowlist_size=2 path=/p/a.toml");
    assert_eq!(checks[9].detail, "agents=1 routes=0 default=-");
    assert_eq!(checks[11].detail, "failed to run skill checks: no skills dir");
    assert!(!checks[11].ok);
    assert_eq!(checks[12].detail, "path=/r/security/baseline.toml (not configured)");
    assert!(!checks[13].ok);
    let mut missing = facts();
    missing.config = ConfigFacts::Present { api_key_env: "K".to_string(), provider: None };
    let checks = collect_doctor_checks(&missing);
    assert_eq!(checks[3].detail, "environment variable K missing");
    assert_eq!(checks[4].detail, "skipped because API key env is missing");
    let mut none = facts();
    none.config = ConfigFacts::Missing;
    assert_eq!(collect_doctor_checks(&none).len(), 12);
}

fn device(id: &str, status: DeviceStatus) -> DeviceRecord {
    DeviceRecord {
        id: id.to_string(),
        name: id.to_string(),
        fingerprint: "fp".to_string(),
        status,
        token_version: 1,
        last_seen_at: 0,
        updated_at: 0,
        last_error: None,
    }
}

fn node(id: &str) -> NodeRecord {
    NodeRecord {
        id: id.to_string(),
        name: id.to_string(),
        status: NodeRuntimeStatus::Offline,
        capabilities: Vec::new(),
        last_seen_at: 0,
        updated_at: 0,
    }
}

#[test]
fn devices_are_approved_rotated_and_revoked() {
    let mut devices = vec![device("d1", DeviceStatus::Pending)];
    assert_eq!(approve_device(&mut devices, "d1", Some(" Phone ".to_string()), 5, "fp-x".to_string()), 0);
    assert_eq!(devices[0].name, "Phone");
    assert_eq!(devices[0].status, DeviceStatus::Approved);
    assert_eq!(approve_device(&mut devices, "d2", None, 6, device_fingerprint(6, 1)), 1);
    assert_eq!(devices[1].name, "d2");
    assert_eq!(devices[1].fingerprint, "fp-6-1");
    rotate_device(&mut devices, "d1", 7).unwrap();
    assert_eq!(devices[0].token_version, 2);
    close_device(&mut devices, "d1", Some("lost".to_string()), true, 8).unwrap();
    assert_eq!(devices[0].status, DeviceStatus::Revoked);
    assert_eq!(devices[0].last_error.as_deref(), Some("lost"));
    let err = rotate_device(&mut devices, "d1", 9).unwrap_err();
    assert_eq!(err.message_text(), "device 'd1' must be approved before rotate");
    assert_eq!(close_device(&mut devices, "zz", None, false, 9).unwrap_err().message_text(), "device 'zz' not found");
}

#[test]
fn pairing_requests_flow() {
    let mut pairings: Vec<PairingRequestRecord> = Vec::new();
    let mut devices: Vec<DeviceRecord> = Vec::new();
    let mut nodes = vec![node("n1")];
    let err = request_pairing(&mut pairings, &mut devices, &nodes, "d1", "n9", None, 1, "pr1".to_string(), "fp".to_string()).unwrap_err();
    assert_eq!(err.message_text(), "node 'n9' not found");
    assert_eq!(request_pairing(&mut pairings, &mut devices, &nodes, "d1", "n1", None, 1, "pr1".to_string(), "fp".to_string()).unwrap(), true);
    assert_eq!(devices[0].status, DeviceStatus::Pending);
    let approved = approve_pairing(&mut pairings, &mut devices, &mut nodes, "pr1", 2, "fp2".to_string()).unwrap();
    assert_eq!(approved.request, 0);
    assert_eq!(pairings[0].status, PairingStatus::Approved);
    assert_eq!(devices[0].status, DeviceStatus::Approved);
    assert_eq!(nodes[0].status, NodeRuntimeStatus::Online);
    let again = approve_pairing(&mut pairings, &mut devices, &mut nodes, "pr1", 3, "fp3".to_string()).unwrap_err();
    assert_eq!(again.message_text(), "pairing request 'pr1' is not pending");
    assert_eq!(request_pairing(&mut pairings, &mut devices, &nodes, "d1", "n1", Some("again".to_string()), 4, "pr2".to_string(), "fp".to_string()).unwrap(), false);
    reject_pairing(&mut pairings, &mut devices, "pr2", Some("  no  ".to_string()), 5).unwrap();
    assert_eq!(pairings[1].reason.as_deref(), Some("no"));
    assert_eq!(devices[0].status, DeviceStatus::Rejected);
    assert_eq!(filter_pairings(&pairings, Some(PairingStatus::Rejected)), vec![1]);
    assert_eq!(filter_pairings(&pairings, None), vec![0, 1]);
    assert_eq!(reject_pairing(&mut pairings, &mut devices, "zz", None, 6).unwrap_err().message_text(), "pairing request 'zz' not found");
}

#[test]
fn agent_replies_name_tool_calls_in_fences() {
    assert_eq!(strip_markdown_json_fence("```json\n{\"a\":1}\n```"), "{\"a\":1}");
    assert_eq!(strip_markdown_json_fence("```\n{\"b\":2}```"), "{\"b\":2}");
    assert_eq!(strip_markdown_json_fence("plain"), "plain");
    assert_eq!(tool_call_text("  ```json\n{}\n```  "), "{}");
}

#[test]
fn parse_tool_call_from_plain_json() {
    let (name, args) = parse_tool_call("{\"tool_call\":{\"name\":\"read_file\",\"args\":{\"path\":\"README.md\"}}}")
        .expect("should parse tool call");
    assert_eq!(name, "read_file");
    let args: serde_json::Value = serde_json::from_str(&args).expect("arguments are JSON");
    assert_eq!(args["path"], "README.md");
}

#[test]
fn parse_tool_call_from_fenced_json() {
    let (name, _) = parse_tool_call("```json\n{\"tool_call\":{\"name\":\"run_cmd\",\"args\":{\"command\":\"pwd\"}}}\n```")
        .expect("should parse tool call");
    assert_eq!(name, "run_cmd");
}

#[test]
fn replies_without_a_tool_call_name_none() {
    assert_eq!(parse_tool_call("plain answer"), None);
    assert_eq!(parse_tool_call("{\"tool_call\":{\"name\":7,\"args\":{}}}"), None);
    assert_eq!(parse_tool_call("{\"tool_call\":{\"name\":\"x\"}}"), None);
    assert_eq!(
        parse_tool_call("  {\"tool_call\":{\"name\":\"x\",\"args\":[1,2]}}  "),
        Some(("x".to_string(), "[1,2]".to_string()))
    );
}

#[test]
fn agent_loop_decisions() {
    assert_eq!(begin_turn(0, 2).unwrap(), 1);
    assert_eq!(begin_turn(2, 2).unwrap_err().message_text(), "agent exceeded max_turns=2");
    assert!(validate_prompt("  ").is_err());
    assert!(check_tools_enabled(false).is_err());
    assert!(check_session_exists("s", false).is_err());
    assert!(is_command_tool("run_cmd"));
    assert!(!is_command_tool("read_file"));
    assert_eq!(choose_system_prompt("  ".to_string()), default_system_prompt());
    assert_eq!(choose_system_prompt("custom".to_string()), "custom");
    match ask_step("s1", "done", None, 3) {
        AskStep::Finish(r) => {
            assert_eq!(r.session_id, "s1");
            assert_eq!(r.response, "done");
            assert_eq!(r.turns, 3);
        }
        AskStep::RunTool { .. } => panic!("no tool call"),
    }
}

#[test]
fn conversation_messages_follow_the_events() {
    let events = vec![
        SessionEventView { kind: EventKind::User, text: Some("hi".to_string()), result_json: None, name: None },
        SessionEventView { kind: EventKind::ToolCall, text: None, result_json: None, name: Some("x".to_string()) },
        SessionEventView { kind: EventKind::ToolResult, text: None, result_json: None, name: None },
        SessionEventView { kind: EventKind::Assistant, text: Some("ok".to_string()), result_json: None, name: None },
    ];
    let messages = build_messages_for_session("sys", &events);
    assert_eq!(messages.len(), 4);
    assert_eq!(messages[0].role, ChatRole::System);
    assert_eq!(messages[2].content, "TOOL_RESULT unknown_tool\n{}");
    assert_eq!(messages[3].role, ChatRole::Assistant);
}
