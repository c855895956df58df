use temperpaw::auth::{current_user, AuthError, SessionClaims};
use temperpaw::bootstrap::{active_agent_filter_url, admin_headers};
use temperpaw::genesis::{
    check_genesis_registry_url, genesis_app_step, genesis_record_unchanged,
    genesis_registry_tenant, validate_genesis_ref, GenesisAppStep, GenesisBootstrapTally,
    InstalledAppRecord, REGISTRY_URL_ERROR,
};
use temperpaw::secrets::{restore_secrets, PlatformSecrets};
use temperpaw::startup::{
    sessions_to_inspect, InstalledAppRuntimeRecoveryOutcome, SessionRecoveryResult,
    SessionRecoveryTally,
};

#[test]
fn tenant_secrets_restored_first_win_over_legacy_bucket() {
    let mut cache = PlatformSecrets::new();
    let tenant_rows = vec![
        ("modal_token_id".to_string(), Some("tenant-token".to_string())),
        ("github_token".to_string(), None),
    ];
    let legacy_rows = vec![
        ("modal_token_id".to_string(), Some("legacy-token".to_string())),
        ("github_token".to_string(), Some("legacy-github".to_string())),
        ("modal_token_id".to_string(), Some("later".to_string())),
    ];
    assert_eq!(restore_secrets(&mut cache, &tenant_rows), 1);
    assert_eq!(restore_secrets(&mut cache, &legacy_rows), 1);
    assert_eq!(cache.get("modal_token_id"), Some("tenant-token"));
    assert_eq!(cache.get("github_token"), Some("legacy-github"));
    assert_eq!(cache.entries().len(), 2);
}

#[test]
fn a_new_secret_takes_its_first_decrypted_row() {
    let mut cache = PlatformSecrets::new();
    let rows = vec![
        ("slack_token".to_string(), None),
        ("slack_token".to_string(), Some("second".to_string())),
        ("slack_token".to_string(), Some("third".to_string())),
        ("openai_key".to_string(), Some("k".to_string())),
        ("broken".to_string(), None),
    ];
    assert_eq!(restore_secrets(&mut cache, &rows), 2);
    assert_eq!(cache.get("slack_token"), Some("second"));
    assert_eq!(cache.get("openai_key"), Some("k"));
    assert_eq!(cache.get("broken"), None);
}

#[test]
fn configured_secrets_override_restored_ones() {
    let mut cache = PlatformSecrets::new();
    assert!(cache.restore("llm_model", "stored"));
    assert!(!cache.restore("llm_model", "other"));
    cache.cache("llm_model", "configured");
    cache.cache("llm_provider", "anthropic");
    assert_eq!(cache.get("llm_model"), Some("configured"));
    assert_eq!(cache.get("llm_provider"), Some("anthropic"));
    assert_eq!(cache.get("missing"), None);
}

#[test]
fn genesis_refs_must_be_pinned_with_owner() {
    assert_eq!(
        validate_genesis_ref("temperpaw/paw-agent@abc"),
        Ok("paw-agent".to_string())
    );
    assert_eq!(
        validate_genesis_ref("paw-agent@abc"),
        Err("TEMPERPAW_GENESIS_BOOTSTRAP_REFS must contain pinned owner/app@hash refs; got 'paw-agent@abc'".to_string())
    );
    assert!(validate_genesis_ref(" /paw-agent@abc").is_err());
    assert_eq!(check_genesis_registry_url("https://genesis.example.com"), Ok(()));
    assert_eq!(
        check_genesis_registry_url("ftp://genesis.example.com"),
        Err(REGISTRY_URL_ERROR.to_string())
    );
    assert_eq!(genesis_registry_tenant(None), "default");
    assert_eq!(genesis_registry_tenant(Some("acme")), "acme");
}

#[test]
fn unchanged_genesis_apps_are_skipped_only_when_runtime_recovered() {
    let record = Some(InstalledAppRecord {
        source_kind: "genesis".to_string(),
        app_ref: "o/a@1".to_string(),
        status: "installed".to_string(),
    });
    assert!(genesis_record_unchanged(&record, "o/a@1"));
    assert!(!genesis_record_unchanged(&record, "o/a@2"));
    assert!(!genesis_record_unchanged(&None, "o/a@1"));
    let local = Some(InstalledAppRecord {
        source_kind: "local".to_string(),
        app_ref: "o/a@1".to_string(),
        status: "installed".to_string(),
    });
    assert!(!genesis_record_unchanged(&local, "o/a@1"));

    assert_eq!(
        genesis_app_step(true, Some(InstalledAppRuntimeRecoveryOutcome::Healed)),
        GenesisAppStep::Skip
    );
    assert_eq!(
        genesis_app_step(true, Some(InstalledAppRuntimeRecoveryOutcome::NeedsReconcile)),
        GenesisAppStep::Install
    );
    assert_eq!(genesis_app_step(false, None), GenesisAppStep::Install);

    let mut tally = GenesisBootstrapTally::new();
    tally.record_install(true);
    tally.record_install(false);
    tally.record_install(true);
    assert_eq!(tally.installed, 2);
}

#[test]
fn session_recovery_is_bounded_and_tallied() {
    assert_eq!(sessions_to_inspect(40, 25), (25, 15));
    assert_eq!(sessions_to_inspect(3, 25), (3, 0));

    let mut tally = SessionRecoveryTally::new();
    tally.record(SessionRecoveryResult::Recovering);
    tally.record(SessionRecoveryResult::RecoverFailed);
    tally.record(SessionRecoveryResult::Failed);
    tally.record(SessionRecoveryResult::Untouched);
    assert_eq!((tally.inspected, tally.recovering, tally.failed), (4, 1, 2));
}

#[test]
fn admin_requests_carry_tenant_principal_and_key() {
    let headers = admin_headers("default", &Some("k1".to_string()), Some("application/json"));
    assert_eq!(
        headers,
        vec![
            ("x-tenant-id".to_string(), "default".to_string()),
            ("x-temper-principal-kind".to_string(), "admin".to_string()),
            ("content-type".to_string(), "application/json".to_string()),
            ("authorization".to_string(), "Bearer k1".to_string()),
        ]
    );
    assert_eq!(admin_headers("t", &None, None).len(), 2);
    assert_eq!(
        active_agent_filter_url("http://api", "O'Paw"),
        "http://api/tdata/Agents?$filter=name eq 'O''Paw' and Status eq 'Active'"
    );
}

#[test]
fn session_user_needs_a_decodable_cookie() {
    match current_user(false, None) {
        Err(AuthError::Conflict(m)) => assert_eq!(m, "Not signed in"),
        _ => panic!("no cookie is no user"),
    }
    match current_user(true, None) {
        Err(AuthError::Conflict(m)) => assert_eq!(m, "Session expired"),
        _ => panic!("an undecodable cookie is no user"),
    }
    let claims = SessionClaims {
        email: "a@b.c".to_string(),
        provider: "local".to_string(),
        exp: 5,
    };
    match current_user(true, Some(claims)) {
        Ok(c) => assert_eq!(c.email, "a@b.c"),
        Err(_) => panic!("a decoded cookie is the user"),
    }
}
