use temperpaw::os_apps::{
    app_required_wasm_failure, find_wasm_binary, wasm_binary_candidates, AppReconcileOutcome,
    ReconcileReport, ReconcileVerdict,
};
use temperpaw::spec_restore::{
    spec_tenants, specs_to_restore, CachedVerification, SpecRow, TenantVerificationCache,
};

#[test]
fn required_wasm_failures_block_readiness() {
    let failures = vec!["route_message".to_string(), "send_reply".to_string()];

    let error = app_required_wasm_failure("paw-channels", &failures)
        .expect("app-required WASM failures should block startup readiness");

    assert!(error.contains("paw-channels"));
    assert!(error.contains("route_message, send_reply"));
}

#[test]
fn installed_apps_without_wasm_failures_do_not_block_readiness() {
    assert!(app_required_wasm_failure("paw-fs", &Vec::new()).is_none());
}

#[test]
fn wasm_failure_message_names_app_and_modules() {
    assert_eq!(
        app_required_wasm_failure("paw-fs", &vec!["blob_adapter".to_string()]).as_deref(),
        Some("paw-fs: required WASM module(s) failed to load or validate: blob_adapter")
    );
}

#[test]
fn wasm_binary_candidates_cover_both_targets_and_dashed_names() {
    assert_eq!(
        wasm_binary_candidates("os-apps/paw-fs/wasm/blob_adapter", "blob_adapter"),
        vec![
            "os-apps/paw-fs/wasm/blob_adapter/target/wasm32-unknown-unknown/release/blob_adapter.wasm",
            "os-apps/paw-fs/wasm/blob_adapter/target/wasm32-unknown-unknown/release/blob-adapter.wasm",
            "os-apps/paw-fs/wasm/blob_adapter/target/wasm32-wasip1/release/blob_adapter.wasm",
            "os-apps/paw-fs/wasm/blob_adapter/target/wasm32-wasip1/release/blob-adapter.wasm",
            "os-apps/paw-fs/wasm/blob_adapter/blob_adapter.wasm",
            "os-apps/paw-fs/wasm/blob_adapter/blob-adapter.wasm",
        ]
    );
    assert_eq!(
        wasm_binary_candidates("dir/", "m")[4],
        "dir/m.wasm"
    );
}

#[test]
fn find_wasm_binary_takes_the_first_existing_candidate() {
    let existing = vec![
        "mod/mod_a.wasm".to_string(),
        "mod/target/wasm32-wasip1/release/mod-a.wasm".to_string(),
    ];
    assert_eq!(
        find_wasm_binary("mod", "mod_a", &existing).as_deref(),
        Some("mod/target/wasm32-wasip1/release/mod-a.wasm")
    );
    assert_eq!(find_wasm_binary("mod", "other", &existing), None);
    assert_eq!(find_wasm_binary("mod", "", &vec!["mod/.wasm".to_string()]), None);
}

#[test]
fn reconcile_report_fails_on_errors_and_counts_them() {
    let mut report = ReconcileReport::new();
    report.record("paw-fs", &AppReconcileOutcome::Skipped);
    report.record("paw-agent", &AppReconcileOutcome::Missing);
    report.record(
        "paw-channels",
        &AppReconcileOutcome::Installed {
            wasm_failures: vec!["route_message".to_string()],
        },
    );
    report.record(
        "paw-research",
        &AppReconcileOutcome::Failed {
            error: "boom".to_string(),
        },
    );
    assert_eq!(
        report.verdict(),
        ReconcileVerdict::Fail(
            "Startup OS app reconcile failed for 3 app(s): OS app 'paw-agent' bundle is missing or invalid; paw-channels: required WASM module(s) failed to load or validate: route_message; paw-research: boom"
                .to_string()
        )
    );
}

#[test]
fn reconcile_report_waits_for_required_migrations() {
    let mut report = ReconcileReport::new();
    report.record(
        "paw-fs",
        &AppReconcileOutcome::MigrationRequired {
            app_name: "paw-fs".to_string(),
            semantic_digest: "s1".to_string(),
            capability_digest: "c1".to_string(),
            descriptor_contract_version: 1,
        },
    );
    report.record(
        "paw-agent",
        &AppReconcileOutcome::Installed {
            wasm_failures: Vec::new(),
        },
    );
    assert_eq!(
        report.verdict(),
        ReconcileVerdict::AwaitMigration(
            "OS app 'paw-fs' requires governed stream descriptor migration before activation (semantic_digest=s1, capability_digest=c1, descriptor_contract_version=1)"
                .to_string()
        )
    );
    assert_eq!(ReconcileReport::new().verdict(), ReconcileVerdict::Proceed);
}

fn row(tenant: &str, entity_type: &str, hash: &str) -> SpecRow {
    SpecRow {
        tenant: tenant.to_string(),
        entity_type: entity_type.to_string(),
        content_hash: hash.to_string(),
    }
}

fn cached(entity_type: &str, hash: &str, verified: bool) -> CachedVerification {
    CachedVerification {
        entity_type: entity_type.to_string(),
        content_hash: hash.to_string(),
        verified,
    }
}

#[test]
fn verification_restore_needs_matching_passed_cache() {
    let rows = vec![
        row("default", "Agent", "h1"),
        row("other", "Agent", "h1"),
        row("default", "Soul", "h2"),
        row("default", "Plan", "h3"),
        row("default", "File", "h4"),
    ];
    assert_eq!(
        spec_tenants(&rows),
        vec!["default".to_string(), "other".to_string()]
    );
    let caches = vec![
        TenantVerificationCache {
            tenant: "default".to_string(),
            entries: vec![
                cached("Agent", "h1", true),
                cached("Soul", "stale", true),
                cached("Plan", "h3", false),
            ],
        },
        TenantVerificationCache {
            tenant: "other".to_string(),
            entries: Vec::new(),
        },
    ];
    assert_eq!(
        specs_to_restore(&rows, &caches),
        vec![("default".to_string(), "Agent".to_string())]
    );
}
