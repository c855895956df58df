use temperpaw::startup::{
    actor_passivation_check_interval_secs, default_agent_specs_bootstrap_needed,
    genesis_bootstrap_app_names, genesis_bootstrap_runtime_recovery_allows_skip,
    genesis_bootstrap_timeout, genesis_cache_restore_timeout, genesis_registry_url,
    installed_app_runtime_recovery_result, is_http_registry_url, key_index_backfill_delay,
    key_index_backfill_on_startup, local_wasm_startup_policy, orphaned_session_action,
    orphaned_session_recovery_limit, parse_genesis_bootstrap_refs, pinned_app_ref_name,
    pinned_app_ref_owner, query_projection_backfill_delay, query_projection_backfill_on_startup,
    runtime_indexes_required_before_reconcile, runtime_recovery_plan,
    startup_discord_connect_result, startup_discord_summary_label, startup_gate_allows,
    startup_os_apps, startup_surface_runtime_indexes_required_before_reconcile,
    startup_surface_runtime_recovery_result, InstalledAppRuntimeRecoveryOutcome,
    InstalledAppsRuntimeRecoverySummary, LocalWasmStartupPolicy, RuntimeRecoveryStep,
    SessionRecoveryAction, StartupReadiness, StartupSurfaceRuntimeRecoverySummary,
    TransportStatus, DEFAULT_GENESIS_BOOTSTRAP_TIMEOUT_SECS,
    DEFAULT_GENESIS_CACHE_RESTORE_TIMEOUT_SECS, DEFAULT_GENESIS_REGISTRY_URL,
    DEFAULT_ORPHANED_SESSION_RECOVERY_LIMIT, OS_APP_RECONCILE_DURATION_METRIC,
    OS_APP_RECONCILE_TOTAL_METRIC, STARTUP_LIVE_RESTORE_ENTITIES_METRIC,
    STARTUP_PHASE_DURATION_METRIC, STARTUP_TIME_TO_READY_METRIC,
    WASM_MODULE_LOAD_FAILURES_METRIC,
};

#[test]
fn actor_passivation_interval_defaults_and_clamps() {
    assert_eq!(actor_passivation_check_interval_secs(None), 60);
    assert_eq!(actor_passivation_check_interval_secs(Some("0")), 1);
    assert_eq!(actor_passivation_check_interval_secs(Some("garbage")), 60);
    assert_eq!(actor_passivation_check_interval_secs(Some("5")), 5);
    assert_eq!(
        actor_passivation_check_interval_secs(Some("999999")),
        86_400
    );
}

#[test]
fn orphaned_session_recovery_is_enabled_by_default() {
    assert_eq!(
        orphaned_session_recovery_limit(None, None),
        Some(DEFAULT_ORPHANED_SESSION_RECOVERY_LIMIT)
    );
}

#[test]
fn orphaned_session_recovery_can_be_explicitly_disabled() {
    assert_eq!(orphaned_session_recovery_limit(Some("false"), None), None);
}

#[test]
fn orphaned_session_recovery_limit_reads_positive_max() {
    assert_eq!(orphaned_session_recovery_limit(None, Some(" 7 ")), Some(7));
    assert_eq!(
        orphaned_session_recovery_limit(Some("yes"), Some("0")),
        Some(DEFAULT_ORPHANED_SESSION_RECOVERY_LIMIT)
    );
    assert_eq!(
        orphaned_session_recovery_limit(None, Some("many")),
        Some(DEFAULT_ORPHANED_SESSION_RECOVERY_LIMIT)
    );
    assert_eq!(orphaned_session_recovery_limit(Some(" OFF "), Some("9")), None);
}

#[test]
fn runtime_recovery_populates_entity_indexes_before_post_boot_tasks() {
    let tenants = vec!["default".to_string(), "temper-system".to_string()];
    let plan = runtime_recovery_plan(&tenants);

    assert_eq!(
        plan,
        vec![
            RuntimeRecoveryStep::PopulateTypeIndex {
                tenant: "default".to_string(),
                entity_type: "App",
            },
            RuntimeRecoveryStep::PopulateTypeIndex {
                tenant: "default".to_string(),
                entity_type: "Agent",
            },
            RuntimeRecoveryStep::PopulateTypeIndex {
                tenant: "default".to_string(),
                entity_type: "Soul",
            },
            RuntimeRecoveryStep::PopulateTypeIndex {
                tenant: "temper-system".to_string(),
                entity_type: "App",
            },
            RuntimeRecoveryStep::PopulateTypeIndex {
                tenant: "temper-system".to_string(),
                entity_type: "Agent",
            },
            RuntimeRecoveryStep::PopulateTypeIndex {
                tenant: "temper-system".to_string(),
                entity_type: "Soul",
            },
        ]
    );
}

#[test]
fn local_wasm_policy_defaults_and_overrides() {
    assert_eq!(
        local_wasm_startup_policy(Some("load-only")),
        LocalWasmStartupPolicy::LoadPersistedOnly
    );
    assert_eq!(
        local_wasm_startup_policy(Some("build")),
        LocalWasmStartupPolicy::BuildIfMissing
    );
    assert_eq!(
        local_wasm_startup_policy(Some("0")),
        LocalWasmStartupPolicy::LoadPersistedOnly
    );
    assert_eq!(
        local_wasm_startup_policy(Some("1")),
        LocalWasmStartupPolicy::BuildIfMissing
    );
    assert_eq!(
        local_wasm_startup_policy(None),
        LocalWasmStartupPolicy::LoadPersistedOnly
    );
}

#[test]
fn startup_skips_builtin_default_agent_specs_when_paw_agent_owns_them() {
    assert!(!default_agent_specs_bootstrap_needed(&vec![
        "paw-fs".to_string(),
        "paw-agent".to_string(),
        "paw-channels".to_string(),
    ]));
    assert!(default_agent_specs_bootstrap_needed(&vec![
        "paw-fs".to_string(),
        "paw-channels".to_string(),
    ]));
}

#[test]
fn genesis_bootstrap_refs_replace_local_startup_surface() {
    let refs =
        parse_genesis_bootstrap_refs("temperpaw/paw-agent@abc123, katagami/katagami-commons@def456");

    assert_eq!(
        genesis_bootstrap_app_names(&refs),
        vec!["paw-agent".to_string(), "katagami-commons".to_string()]
    );
    assert!(startup_os_apps(&refs, vec!["paw-fs".to_string()]).is_empty());
}

#[test]
fn startup_os_apps_use_manifests_without_genesis_refs() {
    let apps = startup_os_apps(&Vec::new(), vec!["paw-fs".to_string(), "paw-agent".to_string()]);
    assert_eq!(apps, vec!["paw-fs".to_string(), "paw-agent".to_string()]);
}

#[test]
fn pinned_refs_need_owner_name_and_hash() {
    assert_eq!(pinned_app_ref_name(" temperpaw / paw-agent @abc"), Some("paw-agent"));
    assert_eq!(pinned_app_ref_owner(" temperpaw / paw-agent @abc"), Some("temperpaw"));
    assert_eq!(pinned_app_ref_name("temperpaw/paw-agent@  "), None);
    assert_eq!(pinned_app_ref_name("paw-agent@abc"), None);
    assert_eq!(pinned_app_ref_name("temperpaw/paw-agent"), None);
    assert_eq!(pinned_app_ref_owner("/paw-agent@abc"), None);
    assert_eq!(pinned_app_ref_name("/paw-agent@abc"), Some("paw-agent"));
}

#[test]
fn genesis_bootstrap_refs_skip_blank_entries() {
    assert_eq!(
        parse_genesis_bootstrap_refs(" a/b@1 ,, c/d@2 ,"),
        vec!["a/b@1".to_string(), "c/d@2".to_string()]
    );
    assert!(parse_genesis_bootstrap_refs("  ").is_empty());
}

#[test]
fn genesis_registry_url_defaults_and_trims() {
    assert_eq!(genesis_registry_url(None), DEFAULT_GENESIS_REGISTRY_URL);
    assert_eq!(
        genesis_registry_url(Some(" https://registry.example.com// ")),
        "https://registry.example.com"
    );
    assert!(is_http_registry_url("http://localhost:4000"));
    assert!(!is_http_registry_url("file:///tmp/registry"));
}

#[test]
fn genesis_cache_restore_timeout_defaults_and_overrides() {
    assert_eq!(
        genesis_cache_restore_timeout(None),
        DEFAULT_GENESIS_CACHE_RESTORE_TIMEOUT_SECS
    );
    assert_eq!(genesis_cache_restore_timeout(Some("3")), 3);
    assert_eq!(
        genesis_cache_restore_timeout(Some("0")),
        DEFAULT_GENESIS_CACHE_RESTORE_TIMEOUT_SECS
    );
    assert_eq!(DEFAULT_GENESIS_CACHE_RESTORE_TIMEOUT_SECS, 20);
}

#[test]
fn genesis_bootstrap_timeout_defaults_and_overrides() {
    assert_eq!(
        genesis_bootstrap_timeout(None),
        DEFAULT_GENESIS_BOOTSTRAP_TIMEOUT_SECS
    );
    assert_eq!(genesis_bootstrap_timeout(Some("7")), 7);
    assert_eq!(
        genesis_bootstrap_timeout(Some("0")),
        DEFAULT_GENESIS_BOOTSTRAP_TIMEOUT_SECS
    );
    assert_eq!(DEFAULT_GENESIS_BOOTSTRAP_TIMEOUT_SECS, 60);
}

#[test]
fn genesis_bootstrap_skip_requires_runtime_ready_or_healed() {
    assert!(genesis_bootstrap_runtime_recovery_allows_skip(
        &InstalledAppRuntimeRecoveryOutcome::Ready
    ));
    assert!(genesis_bootstrap_runtime_recovery_allows_skip(
        &InstalledAppRuntimeRecoveryOutcome::Healed
    ));
    assert!(!genesis_bootstrap_runtime_recovery_allows_skip(
        &InstalledAppRuntimeRecoveryOutcome::NeedsReconcile
    ));
    assert!(!genesis_bootstrap_runtime_recovery_allows_skip(
        &InstalledAppRuntimeRecoveryOutcome::MissingBundle
    ));
    assert!(!genesis_bootstrap_runtime_recovery_allows_skip(
        &InstalledAppRuntimeRecoveryOutcome::StoreError
    ));
}

#[test]
fn installed_app_runtime_recovery_result_prioritizes_bounded_hot_path_state() {
    assert_eq!(
        installed_app_runtime_recovery_result(&InstalledAppsRuntimeRecoverySummary {
            ready: 4,
            ..InstalledAppsRuntimeRecoverySummary::default()
        }),
        "ready"
    );
    assert_eq!(
        installed_app_runtime_recovery_result(&InstalledAppsRuntimeRecoverySummary {
            healed: 2,
            ..InstalledAppsRuntimeRecoverySummary::default()
        }),
        "healed"
    );
    assert_eq!(
        installed_app_runtime_recovery_result(&InstalledAppsRuntimeRecoverySummary {
            needs_reconcile: 1,
            healed: 2,
            ..InstalledAppsRuntimeRecoverySummary::default()
        }),
        "needs_reconcile"
    );
    assert_eq!(
        installed_app_runtime_recovery_result(&InstalledAppsRuntimeRecoverySummary {
            store_error: 1,
            needs_reconcile: 1,
            ..InstalledAppsRuntimeRecoverySummary::default()
        }),
        "error"
    );
}

#[test]
fn runtime_indexes_are_deferred_when_installed_apps_are_runtime_ready() {
    assert!(!runtime_indexes_required_before_reconcile(
        &InstalledAppsRuntimeRecoverySummary {
            ready: 6,
            ..InstalledAppsRuntimeRecoverySummary::default()
        }
    ));
    assert!(!runtime_indexes_required_before_reconcile(
        &InstalledAppsRuntimeRecoverySummary {
            ready: 4,
            healed: 2,
            ..InstalledAppsRuntimeRecoverySummary::default()
        }
    ));
    assert!(runtime_indexes_required_before_reconcile(
        &InstalledAppsRuntimeRecoverySummary {
            ready: 5,
            needs_reconcile: 1,
            ..InstalledAppsRuntimeRecoverySummary::default()
        }
    ));
    assert!(runtime_indexes_required_before_reconcile(
        &InstalledAppsRuntimeRecoverySummary {
            store_error: 1,
            ..InstalledAppsRuntimeRecoverySummary::default()
        }
    ));
}

#[test]
fn runtime_indexes_are_deferred_when_startup_surface_is_ready_despite_global_reconcile_work() {
    let global = InstalledAppsRuntimeRecoverySummary {
        ready: 6,
        needs_reconcile: 6,
        ..InstalledAppsRuntimeRecoverySummary::default()
    };
    let startup_surface = StartupSurfaceRuntimeRecoverySummary {
        ready: 4,
        healed: 2,
        cold: 1,
        ..StartupSurfaceRuntimeRecoverySummary::default()
    };

    assert_eq!(
        installed_app_runtime_recovery_result(&global),
        "needs_reconcile"
    );
    assert!(!startup_surface_runtime_indexes_required_before_reconcile(
        &startup_surface
    ));
    assert!(startup_surface_runtime_indexes_required_before_reconcile(
        &StartupSurfaceRuntimeRecoverySummary {
            needs_reconcile: 1,
            ..StartupSurfaceRuntimeRecoverySummary::default()
        }
    ));
}

#[test]
fn startup_surface_label_is_cold_only_without_ready_apps() {
    assert_eq!(
        startup_surface_runtime_recovery_result(&StartupSurfaceRuntimeRecoverySummary {
            cold: 3,
            ..StartupSurfaceRuntimeRecoverySummary::default()
        }),
        "cold"
    );
    assert_eq!(
        startup_surface_runtime_recovery_result(&StartupSurfaceRuntimeRecoverySummary {
            cold: 3,
            ready: 1,
            ..StartupSurfaceRuntimeRecoverySummary::default()
        }),
        "ready"
    );
    assert_eq!(
        startup_surface_runtime_recovery_result(&StartupSurfaceRuntimeRecoverySummary {
            missing_bundle: 1,
            ..StartupSurfaceRuntimeRecoverySummary::default()
        }),
        "error"
    );
}

#[test]
fn startup_discord_connect_result_keeps_success() {
    assert_eq!(
        startup_discord_connect_result(Ok("https://example.com/discord/interaction".into())),
        Some("https://example.com/discord/interaction".into())
    );
}

#[test]
fn startup_discord_connect_result_drops_failure() {
    assert_eq!(
        startup_discord_connect_result(Err(anyhow::Error::msg("boom"))),
        None
    );
}

#[test]
fn startup_discord_summary_distinguishes_configured_from_connected() {
    assert_eq!(
        startup_discord_summary_label(false, &TransportStatus::Disconnected),
        None
    );
    assert_eq!(
        startup_discord_summary_label(true, &TransportStatus::Disconnected).as_deref(),
        Some("~ Discord configured; reconnect pending")
    );
    assert_eq!(
        startup_discord_summary_label(
            true,
            &TransportStatus::Connected {
                guild_id: Some("guild-123".to_string())
            }
        )
        .as_deref(),
        Some("✓ Discord connected")
    );
}

#[test]
fn startup_discord_summary_reports_connecting_and_errors() {
    assert_eq!(
        startup_discord_summary_label(true, &TransportStatus::Connecting).as_deref(),
        Some("~ Discord configured; connecting")
    );
    assert_eq!(
        startup_discord_summary_label(
            true,
            &TransportStatus::Error {
                message: "gateway closed".to_string()
            }
        )
        .as_deref(),
        Some("~ Discord configured; reconnect pending")
    );
}

#[test]
fn startup_metric_names_match_datadog_contract() {
    assert_eq!(
        STARTUP_PHASE_DURATION_METRIC,
        "temper_startup_phase_duration_ms"
    );
    assert_eq!(
        STARTUP_TIME_TO_READY_METRIC,
        "temper_startup_time_to_healthy_ms"
    );
    assert_eq!(
        STARTUP_LIVE_RESTORE_ENTITIES_METRIC,
        "temper_startup_live_restore_entities_total"
    );
    assert_eq!(
        OS_APP_RECONCILE_TOTAL_METRIC,
        "temper_os_app_reconcile_total"
    );
    assert_eq!(
        OS_APP_RECONCILE_DURATION_METRIC,
        "temper_os_app_reconcile_duration_ms"
    );
    assert_eq!(
        WASM_MODULE_LOAD_FAILURES_METRIC,
        "temper_wasm_module_load_failures_total"
    );
}

#[test]
fn startup_gate_keeps_liveness_and_readiness_probes_open() {
    assert!(startup_gate_allows(false, "/healthz"));
    assert!(startup_gate_allows(false, "/readyz"));
    assert!(startup_gate_allows(
        false,
        "/api/v1/schema-deployments/stream-descriptor-migrations/abc"
    ));
    assert!(!startup_gate_allows(false, "/tdata/Agents"));
    assert!(startup_gate_allows(true, "/tdata/Agents"));
}

#[test]
fn startup_readiness_turns_ready_once_marked() {
    let readiness = StartupReadiness::new();
    let shared = readiness.clone();
    assert!(!readiness.is_ready());
    shared.mark_ready();
    assert!(readiness.is_ready());
}

#[test]
fn orphaned_sessions_recover_fail_or_stay_by_status() {
    assert_eq!(orphaned_session_action("Thinking"), SessionRecoveryAction::Recover);
    assert_eq!(
        orphaned_session_action("WaitingForApproval"),
        SessionRecoveryAction::Recover
    );
    assert_eq!(orphaned_session_action("Completed"), SessionRecoveryAction::Keep);
    assert_eq!(orphaned_session_action("Queued"), SessionRecoveryAction::Fail);
}

#[test]
fn backfills_are_opt_in_and_delays_configurable() {
    assert!(!key_index_backfill_on_startup(None));
    assert!(!key_index_backfill_on_startup(Some("false")));
    assert!(key_index_backfill_on_startup(Some(" yes ")));
    assert!(!query_projection_backfill_on_startup(None));
    assert!(query_projection_backfill_on_startup(Some("ON")));
    assert_eq!(key_index_backfill_delay(None), 30);
    assert_eq!(query_projection_backfill_delay(None), 300);
    assert_eq!(key_index_backfill_delay(Some("5")), 5);
}
