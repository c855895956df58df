use temperpaw::agent_config::{default_agent_config, AgentConfig, ConfigValue};
use temperpaw::agents::DEFAULT_AGENT_TOOLS_ENABLED;
use temperpaw::bootstrap::{
    agent_profile, default_agent_definitions, existing_agent_update, generated_soul_dir,
    generated_soul_files, global_route_config, id_or_unknown, paw_soul_paths, route_repair,
    should_preserve_paw_soul_content, soul_content, reused_attached_soul, MISSING_AGENT_ID,
    MISSING_MODEL, MISSING_PROVIDER,
};
use temperpaw::entity::{created_entity_id, entity_field_str, entity_id_from_json, extract_id, EntityRecord, FieldValue};

fn record(top: &[(&str, &str)], fields: &[(&str, &str)]) -> EntityRecord {
    EntityRecord {
        top: top
            .iter()
            .map(|(k, v)| (k.to_string(), FieldValue::Text(v.to_string())))
            .collect(),
        fields: fields
            .iter()
            .map(|(k, v)| (k.to_string(), FieldValue::Text(v.to_string())))
            .collect(),
    }
}

#[test]
fn entity_ids_prefer_entity_id_then_id_then_fields() {
    assert_eq!(
        entity_id_from_json(&record(&[("Id", "b"), ("entity_id", "a")], &[("Id", "c")])),
        Some("a")
    );
    assert_eq!(entity_id_from_json(&record(&[("Id", "b")], &[("Id", "c")])), Some("b"));
    assert_eq!(entity_id_from_json(&record(&[], &[("Id", "c")])), Some("c"));
    let non_text = EntityRecord {
        top: vec![("entity_id".to_string(), FieldValue::Other)],
        fields: vec![("Id".to_string(), FieldValue::Text("c".to_string()))],
    };
    assert_eq!(entity_id_from_json(&non_text), Some("c"));
    assert_eq!(entity_id_from_json(&record(&[], &[])), None);
}

#[test]
fn extracted_ids_do_not_fall_back_past_entity_id() {
    let non_text = EntityRecord {
        top: vec![
            ("entity_id".to_string(), FieldValue::Other),
            ("Id".to_string(), FieldValue::Text("b".to_string())),
        ],
        fields: Vec::new(),
    };
    assert_eq!(extract_id(&non_text), None);
    assert_eq!(extract_id(&record(&[("Id", "b")], &[])), Some("b".to_string()));
    assert_eq!(extract_id(&record(&[("entity_id", "")], &[])), None);
}

#[test]
fn entity_fields_are_found_by_first_matching_name() {
    let e = record(&[("tools_enabled", "x")], &[("ToolsEnabled", "y")]);
    assert_eq!(entity_field_str(&e, &vec!["ToolsEnabled", "tools_enabled"]), Some("y"));
    assert_eq!(entity_field_str(&e, &vec!["tools_enabled", "ToolsEnabled"]), Some("x"));
    assert_eq!(entity_field_str(&e, &vec!["Other"]), None);
    assert_eq!(id_or_unknown(&e), "unknown");
}

#[test]
fn agent_profile_requires_model_and_provider() {
    let config = default_agent_config("http://api", &None, "anthropic", "sonnet-4");
    let profile = agent_profile("Paw", "chief-of-staff", "Paw agent", &config).expect("profile");
    assert_eq!(profile.model, "sonnet-4");
    assert_eq!(profile.provider, "anthropic");
    assert_eq!(profile.tools_enabled, DEFAULT_AGENT_TOOLS_ENABLED);
    assert_eq!(profile.max_turns, "24");

    let blank_model = default_agent_config("http://api", &None, "anthropic", "  ");
    assert_eq!(
        agent_profile("Paw", "r", "d", &blank_model).unwrap_err(),
        MISSING_MODEL
    );
    let no_provider = default_agent_config("http://api", &None, "", "sonnet-4");
    assert_eq!(
        agent_profile("Paw", "r", "d", &no_provider).unwrap_err(),
        MISSING_PROVIDER
    );
    let mut sparse = AgentConfig::new();
    sparse.set("model", ConfigValue::Text("m".to_string()));
    sparse.set("provider", ConfigValue::Text("p".to_string()));
    let profile = agent_profile("SWE", "developer", "d", &sparse).expect("profile");
    assert_eq!(profile.tools_enabled, "");
    assert_eq!(profile.max_turns, "24");
}

#[test]
fn current_agent_needs_no_update() {
    let defaults = default_agent_config("http://api", &None, "anthropic", "sonnet-4");
    let agent = record(
        &[("entity_id", "agent-1")],
        &[("ToolsEnabled", DEFAULT_AGENT_TOOLS_ENABLED)],
    );
    assert_eq!(existing_agent_update(&agent, &defaults), Ok(None));
}

#[test]
fn stale_agent_update_keeps_settings_and_repairs_tools() {
    let defaults = default_agent_config("http://api", &None, "anthropic", "sonnet-4");
    let agent = record(
        &[("entity_id", "agent-1")],
        &[
            ("ToolsEnabled", " read_entity,bash "),
            ("Model", "gpt"),
            ("Provider", " "),
            ("Description", "mine"),
        ],
    );
    let update = existing_agent_update(&agent, &defaults)
        .expect("update")
        .expect("a stale agent is repaired");
    assert_eq!(update.agent_id, "agent-1");
    assert_eq!(update.model, "gpt");
    assert_eq!(update.provider, "anthropic");
    assert_eq!(update.max_turns, "24");
    assert_eq!(update.description, "mine");
    assert_eq!(update.instructions_file_id, "");
    assert_eq!(update.temperature, "1.0");
    assert!(update.tools_enabled.starts_with("temper_get,bash,"));

    let without_id = record(&[], &[("ToolsEnabled", "bash")]);
    assert_eq!(
        existing_agent_update(&without_id, &defaults),
        Err(MISSING_AGENT_ID.to_string())
    );
}

#[test]
fn routes_are_pointed_at_the_target_agent() {
    let route = record(
        &[("entity_id", "route-1")],
        &[("AgentId", "old"), ("ChannelId", "chan")],
    );
    let repair = route_repair(&route, &AgentConfig::new(), "agent-1", "http://api", &None);
    assert_eq!(repair.route_id, "route-1");
    assert!(repair.assign_agent);
    assert!(!repair.is_global);
    assert!(repair.agent_config.is_some());

    let current = record(
        &[("entity_id", "route-2")],
        &[("AgentId", "agent-1"), ("ChannelId", "chan"), ("AgentConfig", "{}")],
    );
    let mut parsed = AgentConfig::new();
    parsed.set("tools_enabled", ConfigValue::Text("bash".to_string()));
    parsed.set("workdir", ConfigValue::Text("/workspace".to_string()));
    let repair = route_repair(&current, &parsed, "agent-1", "http://api", &None);
    assert!(!repair.assign_agent);
    assert!(repair.agent_config.is_none());

    let global_without_id = record(&[], &[("AgentId", "old")]);
    let repair = route_repair(&global_without_id, &parsed, "agent-1", "http://api", &None);
    assert!(repair.is_global);
    assert!(!repair.assign_agent);
    assert!(repair.agent_config.is_none());
}

#[test]
fn global_route_uses_agent_model_and_provider() {
    let agent = record(&[("entity_id", "a")], &[("Model", "sonnet-4"), ("provider", "anthropic")]);
    let config = global_route_config(&agent, "http://api", &Some("k".to_string()));
    assert_eq!(config.get_str("model"), Some("sonnet-4"));
    assert_eq!(config.get_str("provider"), Some("anthropic"));
    assert_eq!(config.get_str("temper_api_key"), Some("k"));
}

#[test]
fn soul_content_joins_files_with_blank_lines() {
    assert_eq!(
        soul_content(&vec!["# Soul".to_string(), "# Style".to_string()]),
        "# Soul\n\n# Style"
    );
    assert_eq!(soul_content(&Vec::new()), "");
}

#[test]
fn paw_soul_is_kept_when_asked_or_personalized() {
    assert!(should_preserve_paw_soul_content(true, "SWE", None, None));
    assert!(!should_preserve_paw_soul_content(false, "SWE", Some("a"), Some("b")));
    assert!(should_preserve_paw_soul_content(false, "Paw", Some("default"), Some("mine")));
    assert!(!should_preserve_paw_soul_content(false, "Paw", Some("default"), Some(" default ")));
    assert!(!should_preserve_paw_soul_content(false, "Paw", None, Some("mine")));
    assert!(!should_preserve_paw_soul_content(false, "Paw", Some("default"), None));
}

#[test]
fn an_attached_soul_with_content_is_kept_as_it_is() {
    let soul = record(&[("entity_id", "s")], &[("ContentFileId", "file-1")]);
    assert_eq!(reused_attached_soul("soul-7", &soul), Some("soul-7".to_string()));
    let lower = record(&[("content_file_id", "file-2")], &[]);
    assert_eq!(reused_attached_soul("soul-8", &lower), Some("soul-8".to_string()));
    assert_eq!(reused_attached_soul("soul-9", &record(&[], &[])), None);
}

#[test]
fn paw_soul_paths_prefer_generated_files() {
    let dir = generated_soul_dir("/home/me");
    assert_eq!(dir, "/home/me/.local/share/temperpaw/generated");
    let files = generated_soul_files(&dir);
    assert_eq!(files[0], "/home/me/.local/share/temperpaw/generated/paw-soul.md");
    assert_eq!(
        paw_soul_paths(&files, true, false, true),
        vec![
            files[0].clone(),
            files[2].clone(),
            "os-apps/paw-agent/agents/paw/AGENT.md".to_string()
        ]
    );
    assert_eq!(
        paw_soul_paths(&files, false, true, true),
        vec![
            "os-apps/paw-agent/agents/paw/SOUL.md".to_string(),
            "os-apps/paw-agent/agents/paw/STYLE.md".to_string(),
            "os-apps/paw-agent/agents/paw/AGENT.md".to_string()
        ]
    );
}

#[test]
fn default_agents_are_paw_swe_sre_and_probe() {
    let agents = default_agent_definitions(vec!["a.md".to_string()]);
    let names: Vec<&str> = agents.iter().map(|a| a.name.as_str()).collect();
    assert_eq!(names, vec!["Paw", "SWE", "SRE", "Probe"]);
    assert_eq!(agents[0].role, "chief-of-staff");
    assert_eq!(agents[0].soul_paths, vec!["a.md".to_string()]);
    assert_eq!(
        agents[2].soul_paths,
        vec!["os-apps/paw-agent/agents/sre/AGENT.md".to_string()]
    );
}

#[test]
fn created_ids_prefer_fields_id_over_top_level_id() {
    assert_eq!(
        created_entity_id(&record(&[("Id", "top")], &[("Id", "nested")])),
        Some("nested")
    );
    assert_eq!(
        created_entity_id(&record(&[("Id", "top"), ("entity_id", "e")], &[("Id", "nested")])),
        Some("e")
    );
    assert_eq!(created_entity_id(&record(&[("Id", "top")], &[])), Some("top"));
}
