use temperpaw::agent_config::{default_agent_config, repaired_agent_config, AgentConfig, ConfigValue};
use temperpaw::agents::{
    normalize_legacy_workdir, normalize_tools_enabled, paw_soul_content_is_personalized,
    repair_default_agent_tools_enabled, soul_lookup_filters, DEFAULT_AGENT_TOOLS_ENABLED,
    DEFAULT_AGENT_WORKDIR,
};

fn text(config: &AgentConfig, key: &str) -> Option<String> {
    match config.get(key) {
        Some(ConfigValue::Text(s)) => Some(s.clone()),
        _ => None,
    }
}

#[test]
fn default_agent_tool_repair_adds_genesis_app_workflow_tokens() {
    let legacy_tools = "temper_create,temper_get,temper_list,temper_action,temper_patch,temper_submit_specs,temper_show_spec,temper_specs,temper_upload_wasm,temper_get_trajectories,temper_get_insights,temper_get_decisions,temper_poll_decision,temper_approve_decision,temper_deny_decision,temper_submit_policy,temper_list_policies,temper_get_policy,temper_update_policy,temper_delete_policy,temper_install_app,temper_list_apps,temper_spawn_session,temper_list_sessions,temper_abort_session,temper_steer_session,temper_save_memory,temper_recall_memory,temper_write,temper_read,temper_run_coding_agent,temper_get_secret,temper_datadog_query,temper_railway,temper_vercel,temper_web_search,temper_web_fetch,read,write,edit,bash";

    let repaired = repair_default_agent_tools_enabled(legacy_tools)
        .expect("legacy default Agent tools should be repaired");
    let tokens: Vec<&str> = repaired.split(',').collect();

    for required in [
        "temper_search_apps",
        "temper_publish_app",
        "temper_update_app",
        "temper_install_app",
        "temper_list_apps",
    ] {
        assert!(
            tokens.contains(&required),
            "repaired default Agent tools should contain {required}"
        );
    }
}

#[test]
fn default_agent_tool_repair_is_noop_for_current_default() {
    assert_eq!(
        repair_default_agent_tools_enabled(DEFAULT_AGENT_TOOLS_ENABLED),
        None
    );
}

#[test]
fn repaired_tool_list_keeps_every_default_tool() {
    let repaired = repair_default_agent_tools_enabled("read_entity, bash").expect("repair");
    let tokens: Vec<&str> = repaired.split(',').collect();
    assert_eq!(&tokens[..2], &["temper_get", "bash"]);
    for required in DEFAULT_AGENT_TOOLS_ENABLED.split(',') {
        assert!(tokens.contains(&required), "missing {required}");
    }
    assert_eq!(repair_default_agent_tools_enabled(&repaired), None);
}

#[test]
fn tool_normalization_renames_and_drops_legacy_tools() {
    assert_eq!(
        normalize_tools_enabled("read_entity,save_memory,temper_done,bash,read_entity", false)
            .as_deref(),
        Some("temper_get,temper_save_memory,bash")
    );
    assert_eq!(normalize_tools_enabled("bash, read", false), None);
    assert_eq!(
        normalize_tools_enabled("   ", false).as_deref(),
        Some(DEFAULT_AGENT_TOOLS_ENABLED)
    );
    assert_eq!(
        normalize_tools_enabled("bash", true).as_deref(),
        Some(DEFAULT_AGENT_TOOLS_ENABLED)
    );
    assert_eq!(
        normalize_tools_enabled("temper_done,temper_switch_provider", false).as_deref(),
        Some(DEFAULT_AGENT_TOOLS_ENABLED)
    );
}

#[test]
fn normalized_tool_list_is_current_and_stable() {
    let legacy = ["read_entity", "save_memory", "recall_memory", "spawn_agent", "spawn_session",
        "temper_file_upload", "temper_get_agent_id", "temper_done", "temper_switch_provider"];
    let once = normalize_tools_enabled("spawn_agent, spawn_session ,temper_file_upload,edit", false)
        .expect("legacy names are rewritten");
    assert_eq!(once, "temper_spawn_session,temper_write,edit");
    for name in once.split(',') {
        assert!(!legacy.contains(&name), "{name} is a legacy name");
    }
    assert_eq!(normalize_tools_enabled(&once, false), None);
    let defaults = normalize_tools_enabled("anything", true).expect("replace all");
    assert_eq!(normalize_tools_enabled(&defaults, false), None);
}

#[test]
fn legacy_workdirs_move_under_the_default() {
    assert_eq!(normalize_legacy_workdir("").as_deref(), Some(DEFAULT_AGENT_WORKDIR));
    assert_eq!(
        normalize_legacy_workdir("/tmp/workspace/proj").as_deref(),
        Some("/workspace/proj")
    );
    assert_eq!(
        normalize_legacy_workdir("/tmp/temperpaw-abc").as_deref(),
        Some("/workspace/temperpaw-abc")
    );
    assert_eq!(normalize_legacy_workdir("/workspace/proj"), None);
}

#[test]
fn soul_lookup_filters_cover_current_and_legacy_names() {
    assert_eq!(
        soul_lookup_filters("Paw"),
        ["Name eq 'Paw'".to_string(), "name eq 'paw'".to_string()]
    );
    assert_eq!(
        soul_lookup_filters("SRE"),
        ["Name eq 'SRE'".to_string(), "name eq 'sre'".to_string()]
    );
}

#[test]
fn soul_lookup_filters_escape_quotes() {
    assert_eq!(
        soul_lookup_filters("O'Neil"),
        ["Name eq 'O''Neil'".to_string(), "name eq 'o''neil'".to_string()]
    );
}

#[test]
fn paw_soul_content_personalization_detection_matches_non_default_content() {
    let default_content = "# Paw\n\nI am Paw, your chief of staff.\n";

    assert!(!paw_soul_content_is_personalized(
        default_content,
        default_content
    ));
    assert!(paw_soul_content_is_personalized(
        "## Who I Am\nI am tailored for Arni.",
        default_content
    ));
    assert!(!paw_soul_content_is_personalized(
        "\n  # Paw\n\nI am Paw, your chief of staff.  ",
        default_content
    ));
}

#[test]
fn default_agent_config_lists_every_setting() {
    let config = default_agent_config(
        "http://127.0.0.1:4200",
        &Some("key-1".to_string()),
        "anthropic",
        "sonnet-4",
    );
    assert_eq!(text(&config, "model").as_deref(), Some("sonnet-4"));
    assert_eq!(text(&config, "provider").as_deref(), Some("anthropic"));
    assert_eq!(text(&config, "provider_options_json").as_deref(), Some(""));
    assert_eq!(
        text(&config, "tools_enabled").as_deref(),
        Some(DEFAULT_AGENT_TOOLS_ENABLED)
    );
    assert_eq!(text(&config, "workdir").as_deref(), Some("/workspace"));
    assert_eq!(text(&config, "max_turns").as_deref(), Some("24"));
    assert_eq!(
        text(&config, "temper_api_url").as_deref(),
        Some("http://127.0.0.1:4200")
    );
    assert_eq!(text(&config, "max_follow_ups").as_deref(), Some("8"));
    assert_eq!(text(&config, "temper_api_key").as_deref(), Some("key-1"));
    assert_eq!(config.entries().len(), 9);

    let without_key = default_agent_config("u", &None, "p", "m");
    assert_eq!(without_key.entries().len(), 8);
    assert!(without_key.get("temper_api_key").is_none());
}

#[test]
fn blank_route_config_is_filled_in() {
    let repaired = repaired_agent_config("  ", &AgentConfig::new(), "http://api", &None, false)
        .expect("a blank configuration is repaired");
    assert_eq!(text(&repaired, "temper_api_url").as_deref(), Some("http://api"));
    assert_eq!(text(&repaired, "workdir").as_deref(), Some("/workspace"));
    assert_eq!(
        text(&repaired, "tools_enabled").as_deref(),
        Some(DEFAULT_AGENT_TOOLS_ENABLED)
    );
}

#[test]
fn current_channel_route_config_needs_no_repair() {
    let mut parsed = AgentConfig::new();
    parsed.set("tools_enabled", ConfigValue::Text("bash,read".to_string()));
    parsed.set("workdir", ConfigValue::Text("/workspace".to_string()));
    parsed.set("max_turns", ConfigValue::Json("24".to_string()));
    let raw = r#"{"max_turns":24,"tools_enabled":"bash,read","workdir":"/workspace"}"#;
    assert!(repaired_agent_config(raw, &parsed, "http://api", &None, false).is_none());
}

#[test]
fn legacy_route_config_is_repaired_and_keeps_other_values() {
    let mut parsed = AgentConfig::new();
    parsed.set("tools_enabled", ConfigValue::Text("read_entity,bash".to_string()));
    parsed.set("workdir", ConfigValue::Text("/tmp/workspace/a".to_string()));
    parsed.set("max_turns", ConfigValue::Json("12".to_string()));
    let raw = r#"{"max_turns":12,"tools_enabled":"read_entity,bash","workdir":"/tmp/workspace/a"}"#;
    let repaired = repaired_agent_config(raw, &parsed, "http://api", &Some("k".to_string()), false)
        .expect("legacy values are repaired");
    assert_eq!(text(&repaired, "tools_enabled").as_deref(), Some("temper_get,bash"));
    assert_eq!(text(&repaired, "workdir").as_deref(), Some("/workspace/a"));
    assert_eq!(text(&repaired, "temper_api_url").as_deref(), Some("http://api"));
    assert_eq!(text(&repaired, "temper_api_key").as_deref(), Some("k"));
    assert_eq!(
        repaired.get("max_turns"),
        Some(&ConfigValue::Json("12".to_string()))
    );
    let again = repaired_agent_config("{...}", &repaired, "http://api", &Some("k".to_string()), false);
    assert!(again.is_none());
}

#[test]
fn global_route_config_gets_default_tools_once() {
    let mut parsed = AgentConfig::new();
    parsed.set("tools_enabled", ConfigValue::Text("bash".to_string()));
    let repaired = repaired_agent_config(r#"{"tools_enabled":"bash"}"#, &parsed, "http://api", &None, true)
        .expect("a global route is repaired");
    assert_eq!(
        text(&repaired, "tools_enabled").as_deref(),
        Some(DEFAULT_AGENT_TOOLS_ENABLED)
    );
    let again = repaired_agent_config("{...}", &repaired, "http://api", &None, true);
    assert!(again.is_none());
}

#[test]
fn agent_config_set_replaces_in_place() {
    let mut config = AgentConfig::new();
    config.set("a", ConfigValue::Text("1".to_string()));
    config.set("b", ConfigValue::Text("2".to_string()));
    config.set("a", ConfigValue::Json("3".to_string()));
    assert_eq!(config.entries().len(), 2);
    assert_eq!(config.entries()[0].0, "a");
    assert_eq!(config.get("a"), Some(&ConfigValue::Json("3".to_string())));
    assert_eq!(config.get_str("a"), None);
    assert_eq!(config.get_str("b"), Some("2"));
    let copy = config.duplicate();
    assert!(copy.same_entries(&config));
}
