use mosaic::agents::catalog::{
    add_agent, apply_overrides, check_integrity, find_agent, list_agents, remove_agent,
    remove_agent_route, require_config, resolve_for_runtime, set_agent_route, set_default_agent,
    ProfileSettings,
};
use mosaic::agents::fields::{
    agent_routes_path, agents_file_path, generate_agent_id, normalize_agent_id,
    validate_agent_fields, AddAgentInput, AgentDefinition, AgentStore, RunGuardMode, Temperature,
};
use mosaic::agents::routes::AgentRoutes;
use mosaic::error::MosaicError;

fn input(id: &str, name: &str) -> AddAgentInput {
    AddAgentInput {
        id: Some(id.to_string()),
        name: name.to_string(),
        profile: "default".to_string(),
        model: None,
        temperature: None,
        max_turns: None,
        tools_enabled: None,
        guard_mode: None,
    }
}

fn temperature(value: f32) -> Temperature {
    Temperature { bits: value.to_bits() }
}

#[test]
fn add_list_set_default_and_resolve() {
    let mut agents: Vec<AgentDefinition> = Vec::new();
    let mut routes = AgentRoutes::new();
    let agent = add_agent(
        &mut agents,
        AddAgentInput {
            id: Some("writer".to_string()),
            name: "Writer".to_string(),
            profile: "default".to_string(),
            model: Some("mock-model".to_string()),
            temperature: Some(temperature(0.3)),
            max_turns: Some(4),
            tools_enabled: Some(true),
            guard_mode: None,
        },
        1_000,
    )
    .expect("add agent");
    assert_eq!(agent.id, "writer");
    assert_eq!(list_agents(&agents).len(), 1);

    set_default_agent(&agents, &mut routes, "writer").expect("set default");
    let resolved = resolve_for_runtime(&agents, &routes, None, Some("ask")).expect("resolve default");
    assert_eq!(resolved.as_deref(), Some("writer"));
}

#[test]
fn resolve_uses_route_before_default() {
    let mut agents: Vec<AgentDefinition> = Vec::new();
    let mut routes = AgentRoutes::new();
    add_agent(&mut agents, input("planner", "Planner"), 1).expect("add planner");
    add_agent(&mut agents, input("writer", "Writer"), 2).expect("add writer");
    set_default_agent(&agents, &mut routes, "writer").expect("set default");
    set_agent_route(&agents, &mut routes, "ask", "planner").expect("set ask route");
    let resolved = resolve_for_runtime(&agents, &routes, None, Some("ask")).expect("resolve");
    assert_eq!(resolved.as_deref(), Some("planner"));
}

#[test]
fn resolve_effective_profile_applies_overrides() {
    let mut agents: Vec<AgentDefinition> = Vec::new();
    let routes = AgentRoutes::new();
    add_agent(
        &mut agents,
        AddAgentInput {
            id: Some("writer".to_string()),
            name: "Writer".to_string(),
            profile: "default".to_string(),
            model: Some("mini-model".to_string()),
            temperature: Some(temperature(0.9)),
            max_turns: Some(12),
            tools_enabled: Some(false),
            guard_mode: Some(RunGuardMode::AllConfirm),
        },
        5,
    )
    .expect("add writer");
    let agent_id = resolve_for_runtime(&agents, &routes, Some("writer"), Some("ask"))
        .expect("resolve profile");
    assert_eq!(agent_id.as_deref(), Some("writer"));
    let index = find_agent(&agents, "writer").expect("agent");
    let base = ProfileSettings {
        model: "base-model".to_string(),
        temperature: temperature(0.2),
        max_turns: 8,
        tools_enabled: true,
        guard_mode: RunGuardMode::ConfirmDangerous,
    };
    let profile = apply_overrides(base, &agents[index], |_| Ok(())).expect("overrides");
    assert_eq!(profile.model, "mini-model");
    assert_eq!(f32::from_bits(profile.temperature.bits), 0.9);
    assert_eq!(profile.max_turns, 12);
    assert!(!profile.tools_enabled);
    assert!(matches!(profile.guard_mode, RunGuardMode::AllConfirm));
}

#[test]
fn explicit_agent_wins_over_route_and_unknown_is_refused() {
    let mut agents: Vec<AgentDefinition> = Vec::new();
    let mut routes = AgentRoutes::new();
    add_agent(&mut agents, input("planner", "Planner"), 1).unwrap();
    add_agent(&mut agents, input("writer", "Writer"), 2).unwrap();
    set_agent_route(&agents, &mut routes, "ask", "planner").unwrap();
    let explicit = resolve_for_runtime(&agents, &routes, Some("writer"), Some("ask")).unwrap();
    assert_eq!(explicit.as_deref(), Some("writer"));
    assert!(resolve_for_runtime(&agents, &routes, Some("ghost"), None).is_err());
    let nothing = resolve_for_runtime(&agents, &AgentRoutes::new(), None, Some("chat")).unwrap();
    assert_eq!(nothing, None);
}

#[test]
fn removing_an_agent_drops_its_default_and_routes() {
    let mut agents: Vec<AgentDefinition> = Vec::new();
    let mut routes = AgentRoutes::new();
    add_agent(&mut agents, input("writer", "Writer"), 1).unwrap();
    set_default_agent(&agents, &mut routes, "writer").unwrap();
    set_agent_route(&agents, &mut routes, "ask", "writer").unwrap();
    assert_eq!(remove_agent(&mut agents, &mut routes, "writer").unwrap(), true);
    assert!(agents.is_empty());
    assert_eq!(routes.default_agent_id(), None);
    assert_eq!(routes.len(), 0);
    assert_eq!(remove_agent(&mut agents, &mut routes, "writer").unwrap(), false);
}

#[test]
fn routes_to_unknown_agents_are_refused_and_removable() {
    let mut agents: Vec<AgentDefinition> = Vec::new();
    let mut routes = AgentRoutes::new();
    add_agent(&mut agents, input("writer", "Writer"), 1).unwrap();
    assert!(set_agent_route(&agents, &mut routes, "ask", "nobody").is_err());
    set_agent_route(&agents, &mut routes, "ask", "writer").unwrap();
    assert_eq!(remove_agent_route(&mut routes, "ask").unwrap(), true);
    assert_eq!(remove_agent_route(&mut routes, "ask").unwrap(), false);
}

#[test]
fn duplicate_agent_ids_are_refused() {
    let mut agents: Vec<AgentDefinition> = Vec::new();
    add_agent(&mut agents, input("writer", "Writer"), 1).unwrap();
    let err = add_agent(&mut agents, input("writer", "Other"), 2).unwrap_err();
    assert!(err.message_text().contains("writer"));
    assert_eq!(agents.len(), 1);
}

#[test]
fn generated_ids_are_valid_agent_ids() {
    let id = generate_agent_id("My Writer!");
    assert!(normalize_agent_id(&id).is_ok());
    assert!(id.starts_with("my-writer-"));
    assert_eq!(id.len(), "my-writer-".len() + 8);
    let fallback = generate_agent_id("!!!");
    assert!(fallback.starts_with("agent-"));
}

#[test]
fn integrity_reports_a_healthy_catalog() {
    let mut agents: Vec<AgentDefinition> = Vec::new();
    let mut routes = AgentRoutes::new();
    add_agent(&mut agents, input("writer", "Writer"), 1).unwrap();
    set_default_agent(&agents, &mut routes, "writer").unwrap();
    let report = check_integrity(&agents, &routes);
    assert!(report.ok);
    assert_eq!(report.agents_count, 1);
    assert_eq!(report.default_agent_id.as_deref(), Some("writer"));
}

#[test]
fn agent_temperature_out_of_range_is_refused() {
    let mut agents: Vec<AgentDefinition> = Vec::new();
    let mut bad = input("hot", "Hot");
    bad.temperature = Some(temperature(2.5));
    assert!(add_agent(&mut agents, bad, 1).is_err());
    assert!(validate_agent_fields(Some("hot"), "Hot", "default", Some(temperature(2.5)), None).is_err());
    assert!(validate_agent_fields(Some("warm"), "Warm", "default", Some(temperature(2.0)), Some(3)).is_ok());
}

#[test]
fn store_paths_sit_under_the_data_directory() {
    let store = AgentStore::new(agents_file_path("/data"), agent_routes_path("/data"));
    assert_eq!(store.agents_path(), "/data/agents.json");
    assert_eq!(store.routes_path(), "/data/agent-routes.json");
}

#[test]
fn route_keys_of_an_agent_come_in_key_order() {
    let routes = AgentRoutes::from_parts(
        Some("writer".to_string()),
        vec![
            ("support".to_string(), "helper".to_string()),
            ("blog".to_string(), "writer".to_string()),
            ("alerts".to_string(), "writer".to_string()),
            ("blog".to_string(), "writer".to_string()),
        ],
    );
    assert_eq!(routes.keys_for_agent("writer"), vec!["alerts".to_string(), "blog".to_string()]);
    assert_eq!(routes.keys_for_agent("helper"), vec!["support".to_string()]);
    assert!(routes.keys_for_agent("nobody").is_empty());
}

#[test]
fn merged_profile_is_checked_by_the_validation() {
    let mut agents: Vec<AgentDefinition> = Vec::new();
    add_agent(&mut agents, input("writer", "Writer"), 1).unwrap();
    let base = ProfileSettings {
        model: "base-model".to_string(),
        temperature: temperature(0.2),
        max_turns: 8,
        tools_enabled: true,
        guard_mode: RunGuardMode::ConfirmDangerous,
    };
    let err = apply_overrides(base, &agents[0], |p: &ProfileSettings| {
        if p.model == "base-model" {
            Err(MosaicError::Validation("profile model is not allowed".to_string()))
        } else {
            Ok(())
        }
    })
    .unwrap_err();
    assert!(matches!(err, MosaicError::Validation(ref m) if m == "profile model is not allowed"));
}

#[test]
fn adding_agents_needs_the_config_file() {
    assert!(require_config(true).is_ok());
    let err = require_config(false).unwrap_err();
    assert!(matches!(err, MosaicError::Config(ref m) if m == "config file not found. run `mosaic setup` first"));
}
