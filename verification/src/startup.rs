//! Startup policy of the daemon: how runtime recovery results are summarized and whether
//! they require index recovery before reconciling apps, which apps and refs start up,
//! how configuration values are read, and how the readiness gate answers requests.

use std::sync::atomic::{AtomicBool, Ordering};
use std::sync::Arc;

use vstd::prelude::*;

use crate::text::{
    append_str, ascii_lower, ascii_lowercase, chars, chars_eq_str, find_char, find_char_index,
    has_prefix, lemma_find_char_bounds, owned, parse_u64_chars, parse_u64_spec, slice_chars,
    str_eq, config_list, config_list_chars, strings_from_chars, string_from_chars, string_views, trim_chars, trim_range,
    trim_seq,
};

verus! {

/// The metric of each startup phase's duration, in milliseconds.
pub const STARTUP_PHASE_DURATION_METRIC: &'static str = "temper_startup_phase_duration_ms";

/// The metric of the time from process start to readiness, in milliseconds.
pub const STARTUP_TIME_TO_READY_METRIC: &'static str = "temper_startup_time_to_healthy_ms";

/// The metric of the entities restored live during startup.
pub const STARTUP_LIVE_RESTORE_ENTITIES_METRIC: &'static str = "temper_startup_live_restore_entities_total";

/// The metric counting OS app reconciles by result.
pub const OS_APP_RECONCILE_TOTAL_METRIC: &'static str = "temper_os_app_reconcile_total";

/// The metric of each OS app reconcile's duration, in milliseconds.
pub const OS_APP_RECONCILE_DURATION_METRIC: &'static str = "temper_os_app_reconcile_duration_ms";

/// The metric counting WASM module load failures by stage.
pub const WASM_MODULE_LOAD_FAILURES_METRIC: &'static str = "temper_wasm_module_load_failures_total";

/// Counts of the runtime recovery outcomes of all installed apps.
#[derive(Debug, Clone, Copy, PartialEq, Eq)]
pub struct InstalledAppsRuntimeRecoverySummary {
    pub ready: usize,
    pub healed: usize,
    pub needs_reconcile: usize,
    pub missing_bundle: usize,
    pub store_error: usize,
}

impl Default for InstalledAppsRuntimeRecoverySummary {
    /// No apps.
    fn default() -> (r: Self)
        ensures
            r.ready == 0 && r.healed == 0 && r.needs_reconcile == 0 && r.missing_bundle == 0
                && r.store_error == 0,
    {
        InstalledAppsRuntimeRecoverySummary {
            ready: 0,
            healed: 0,
            needs_reconcile: 0,
            missing_bundle: 0,
            store_error: 0,
        }
    }
}

/// The label of an installed-apps recovery summary: errors first, then reconcile work,
/// then healing.
pub open spec fn installed_recovery_label(s: InstalledAppsRuntimeRecoverySummary) -> Seq<char> {
    if s.store_error > 0 || s.missing_bundle > 0 {
        "error"@
    } else if s.needs_reconcile > 0 {
        "needs_reconcile"@
    } else if s.healed > 0 {
        "healed"@
    } else {
        "ready"@
    }
}

/// The label that startup logs for the installed-apps recovery summary.
pub fn installed_app_runtime_recovery_result(summary: &InstalledAppsRuntimeRecoverySummary) -> (r:
    &'static str)
    ensures
        r@ == installed_recovery_label(*summary),
{
    if summary.store_error > 0 || summary.missing_bundle > 0 {
        "error"
    } else if summary.needs_reconcile > 0 {
        "needs_reconcile"
    } else if summary.healed > 0 {
        "healed"
    } else {
        "ready"
    }
}

/// Whether runtime indexes must be recovered before app reconcile, judged over all installed apps.
pub fn runtime_indexes_required_before_reconcile(summary: &InstalledAppsRuntimeRecoverySummary) -> (r:
    bool)
    ensures
        r == (summary.store_error > 0 || summary.missing_bundle > 0 || summary.needs_reconcile > 0),
{
    summary.store_error > 0 || summary.missing_bundle > 0 || summary.needs_reconcile > 0
}

/// What runtime recovery found for one installed app.
#[derive(Debug, Clone, Copy, PartialEq, Eq)]
pub enum InstalledAppRuntimeRecoveryOutcome {
    Ready,
    Healed,
    NeedsReconcile,
    MissingBundle,
    StoreError,
}

/// An unchanged Genesis bootstrap app is skipped only when its runtime is ready or healed.
pub fn genesis_bootstrap_runtime_recovery_allows_skip(
    outcome: &InstalledAppRuntimeRecoveryOutcome,
) -> (r: bool)
    ensures
        r == (*outcome is Ready || *outcome is Healed),
{
    match outcome {
        InstalledAppRuntimeRecoveryOutcome::Ready => true,
        InstalledAppRuntimeRecoveryOutcome::Healed => true,
        _ => false,
    }
}

/// Counts of the runtime recovery outcomes of the apps that startup reconciles.
#[derive(Debug, Clone, Copy, PartialEq, Eq)]
pub struct StartupSurfaceRuntimeRecoverySummary {
    pub ready: usize,
    pub healed: usize,
    pub cold: usize,
    pub needs_reconcile: usize,
    pub missing_bundle: usize,
    pub store_error: usize,
}

impl Default for StartupSurfaceRuntimeRecoverySummary {
    /// No apps.
    fn default() -> (r: Self)
        ensures
            r.ready == 0 && r.healed == 0 && r.cold == 0 && r.needs_reconcile == 0
                && r.missing_bundle == 0 && r.store_error == 0,
    {
        StartupSurfaceRuntimeRecoverySummary {
            ready: 0,
            healed: 0,
            cold: 0,
            needs_reconcile: 0,
            missing_bundle: 0,
            store_error: 0,
        }
    }
}

/// The label of a startup-surface recovery summary; `cold` only when nothing was ready.
pub open spec fn surface_recovery_label(s: StartupSurfaceRuntimeRecoverySummary) -> Seq<char> {
    if s.store_error > 0 || s.missing_bundle > 0 {
        "error"@
    } else if s.needs_reconcile > 0 {
        "needs_reconcile"@
    } else if s.healed > 0 {
        "healed"@
    } else if s.cold > 0 && s.ready == 0 {
        "cold"@
    } else {
        "ready"@
    }
}

/// Whether a startup-surface summary requires runtime indexes before app reconcile.
pub open spec fn surface_indexes_required(s: StartupSurfaceRuntimeRecoverySummary) -> bool {
    s.store_error > 0 || s.missing_bundle > 0 || s.needs_reconcile > 0
}

/// The label that startup logs for the startup-surface recovery summary.
pub fn startup_surface_runtime_recovery_result(summary: &StartupSurfaceRuntimeRecoverySummary) -> (r:
    &'static str)
    ensures
        r@ == surface_recovery_label(*summary),
{
    if summary.store_error > 0 || summary.missing_bundle > 0 {
        "error"
    } else if summary.needs_reconcile > 0 {
        "needs_reconcile"
    } else if summary.healed > 0 {
        "healed"
    } else if summary.cold > 0 && summary.ready == 0 {
        "cold"
    } else {
        "ready"
    }
}

/// Whether runtime indexes must be recovered before app reconcile, judged over the startup
/// surface only: cold apps and healed apps do not require it.
pub fn startup_surface_runtime_indexes_required_before_reconcile(
    summary: &StartupSurfaceRuntimeRecoverySummary,
) -> (r: bool)
    ensures
        r == surface_indexes_required(*summary),
{
    summary.store_error > 0 || summary.missing_bundle > 0 || summary.needs_reconcile > 0
}

/// Index recovery is required exactly when the surface label is `error` or `needs_reconcile`.
pub proof fn law_surface_indexes_follow_label(s: StartupSurfaceRuntimeRecoverySummary)
    ensures
        surface_indexes_required(s) <==> (surface_recovery_label(s) == "error"@
            || surface_recovery_label(s) == "needs_reconcile"@),
{
    reveal_strlit("error");
    reveal_strlit("needs_reconcile");
    reveal_strlit("healed");
    reveal_strlit("cold");
    reveal_strlit("ready");
    assert("healed"@.len() != "error"@.len());
    assert("ready"@[0] != "error"@[0]);
    assert("cold"@.len() != "error"@.len());
    assert("healed"@.len() != "needs_reconcile"@.len());
    assert("ready"@.len() != "needs_reconcile"@.len());
    assert("cold"@.len() != "needs_reconcile"@.len());
}

/// What the startup-surface scan observed for one app.
pub enum StartupAppRecovery {
    /// No durable install record: a cold install will create it.
    NoInstallRecord,
    /// The install record could not be read.
    RecordReadError,
    /// The install record exists and runtime recovery reported this outcome.
    Recovered(InstalledAppRuntimeRecoveryOutcome),
}

/// How many observations in `s` satisfy `p`.
pub open spec fn count_where(s: Seq<StartupAppRecovery>, p: spec_fn(StartupAppRecovery) -> bool) -> nat
    decreases s.len(),
{
    if s.len() == 0 {
        0
    } else {
        count_where(s.drop_last(), p) + if p(s.last()) {
            1nat
        } else {
            0nat
        }
    }
}

proof fn lemma_count_where_bound(s: Seq<StartupAppRecovery>, p: spec_fn(StartupAppRecovery) -> bool)
    ensures
        count_where(s, p) <= s.len(),
    decreases s.len(),
{
    if s.len() > 0 {
        lemma_count_where_bound(s.drop_last(), p);
    }
}

/// The summary whose counts are the numbers of each kind of observation in `s`.
pub open spec fn summarizes(summary: StartupSurfaceRuntimeRecoverySummary, s: Seq<StartupAppRecovery>) -> bool {
    &&& summary.cold == count_where(s, |o: StartupAppRecovery| o is NoInstallRecord)
    &&& summary.store_error == count_where(
        s,
        |o: StartupAppRecovery|
            o is RecordReadError || (o matches StartupAppRecovery::Recovered(r) && r is StoreError),
    )
    &&& summary.ready == count_where(
        s,
        |o: StartupAppRecovery| o matches StartupAppRecovery::Recovered(r) && r is Ready,
    )
    &&& summary.healed == count_where(
        s,
        |o: StartupAppRecovery| o matches StartupAppRecovery::Recovered(r) && r is Healed,
    )
    &&& summary.needs_reconcile == count_where(
        s,
        |o: StartupAppRecovery| o matches StartupAppRecovery::Recovered(r) && r is NeedsReconcile,
    )
    &&& summary.missing_bundle == count_where(
        s,
        |o: StartupAppRecovery| o matches StartupAppRecovery::Recovered(r) && r is MissingBundle,
    )
}

/// Tallies the observations of the startup-surface scan, in the order the apps were scanned.
pub fn summarize_startup_surface(observations: &Vec<StartupAppRecovery>) -> (r:
    StartupSurfaceRuntimeRecoverySummary)
    ensures
        summarizes(r, observations@),
{
    let mut summary = StartupSurfaceRuntimeRecoverySummary {
        ready: 0,
        healed: 0,
        cold: 0,
        needs_reconcile: 0,
        missing_bundle: 0,
        store_error: 0,
    };
    let mut i: usize = 0;
    while i < observations.len()
        invariant
            i <= observations@.len(),
            summarizes(summary, observations@.take(i as int)),
        decreases observations@.len() - i,
    {
        let ghost before = observations@.take(i as int);
        let ghost after = observations@.take(i as int + 1);
        proof {
            assert(after.drop_last() =~= before);
            assert(after.last() == observations@[i as int]);
            lemma_count_where_bound(before, |o: StartupAppRecovery| o is NoInstallRecord);
            lemma_count_where_bound(
                before,
                |o: StartupAppRecovery|
                    o is RecordReadError || (o matches StartupAppRecovery::Recovered(r)
                        && r is StoreError),
            );
            lemma_count_where_bound(
                before,
                |o: StartupAppRecovery| o matches StartupAppRecovery::Recovered(r) && r is Ready,
            );
            lemma_count_where_bound(
                before,
                |o: StartupAppRecovery| o matches StartupAppRecovery::Recovered(r) && r is Healed,
            );
            lemma_count_where_bound(
                before,
                |o: StartupAppRecovery|
                    o matches StartupAppRecovery::Recovered(r) && r is NeedsReconcile,
            );
            lemma_count_where_bound(
                before,
                |o: StartupAppRecovery|
                    o matches StartupAppRecovery::Recovered(r) && r is MissingBundle,
            );
        }
        match &observations[i] {
            StartupAppRecovery::NoInstallRecord => summary.cold = summary.cold + 1,
            StartupAppRecovery::RecordReadError => summary.store_error = summary.store_error + 1,
            StartupAppRecovery::Recovered(outcome) => match outcome {
                InstalledAppRuntimeRecoveryOutcome::Ready => summary.ready = summary.ready + 1,
                InstalledAppRuntimeRecoveryOutcome::Healed => summary.healed = summary.healed + 1,
                InstalledAppRuntimeRecoveryOutcome::NeedsReconcile => summary.needs_reconcile =
                summary.needs_reconcile + 1,
                InstalledAppRuntimeRecoveryOutcome::MissingBundle => summary.missing_bundle =
                summary.missing_bundle + 1,
                InstalledAppRuntimeRecoveryOutcome::StoreError => summary.store_error =
                summary.store_error + 1,
            },
        }
        i = i + 1;
    }
    assert(observations@.take(observations@.len() as int) =~= observations@);
    summary
}

/// One step of runtime index recovery: populate the index of one entity type of one tenant.
#[derive(Debug, Clone, PartialEq, Eq)]
pub enum RuntimeRecoveryStep {
    PopulateTypeIndex { tenant: String, entity_type: &'static str },
}

/// The entity types whose indexes startup recovers, in order.
pub open spec fn index_entity_type(j: int) -> Seq<char> {
    if j == 0 {
        "App"@
    } else if j == 1 {
        "Agent"@
    } else {
        "Soul"@
    }
}

/// Whether `step` populates the index of `entity_type` for `tenant`.
pub open spec fn populates(step: RuntimeRecoveryStep, tenant: Seq<char>, entity_type: Seq<char>) -> bool {
    step matches RuntimeRecoveryStep::PopulateTypeIndex { tenant: t, entity_type: e } && t@
        == tenant && e@ == entity_type
}

/// Index recovery for each tenant in order: its App, Agent and Soul indexes.
pub fn runtime_recovery_plan(tenant_ids: &Vec<String>) -> (r: Vec<RuntimeRecoveryStep>)
    requires
        tenant_ids@.len() * 3 <= usize::MAX,
    ensures
        r@.len() == tenant_ids@.len() * 3,
        forall|i: int, j: int|
            0 <= i < tenant_ids@.len() && 0 <= j < 3 ==> populates(
                #[trigger] r@[i * 3 + j],
                tenant_ids@[i]@,
                index_entity_type(j),
            ),
{
    let mut steps: Vec<RuntimeRecoveryStep> = Vec::new();
    let mut i: usize = 0;
    while i < tenant_ids.len()
        invariant
            i <= tenant_ids@.len(),
            steps@.len() == i * 3,
            forall|k: int, j: int|
                0 <= k < i && 0 <= j < 3 ==> populates(
                    #[trigger] steps@[k * 3 + j],
                    tenant_ids@[k]@,
                    index_entity_type(j),
                ),
        decreases tenant_ids@.len() - i,
    {
        let tenant = &tenant_ids[i];
        steps.push(RuntimeRecoveryStep::PopulateTypeIndex { tenant: tenant.clone(), entity_type: "App" });
        steps.push(RuntimeRecoveryStep::PopulateTypeIndex { tenant: tenant.clone(), entity_type: "Agent" });
        steps.push(RuntimeRecoveryStep::PopulateTypeIndex { tenant: tenant.clone(), entity_type: "Soul" });
        proof {
            assert forall|k: int, j: int| 0 <= k < i + 1 && 0 <= j < 3 implies populates(
                #[trigger] steps@[k * 3 + j],
                tenant_ids@[k]@,
                index_entity_type(j),
            ) by {
                if k == i {
                    assert(steps@[k * 3 + j] == steps@[i * 3 + j]);
                }
            }
        }
        i = i + 1;
    }
    steps
}

/// Whether startup builds missing local WASM artifacts or only loads persisted ones.
#[derive(Debug, Clone, Copy, PartialEq, Eq)]
pub enum LocalWasmStartupPolicy {
    BuildIfMissing,
    LoadPersistedOnly,
}

/// `s` trimmed and ASCII-lowercased.
pub open spec fn folded(s: Seq<char>) -> Seq<char> {
    ascii_lower(trim_seq(s))
}

fn fold_chars(v: &Vec<char>) -> (r: Vec<char>)
    ensures
        r@ == folded(v@),
{
    let t = trim_chars(v);
    ascii_lowercase(&t)
}

/// Whether a configured WASM startup policy asks for building missing artifacts.
pub open spec fn builds_missing_wasm(raw: Option<Seq<char>>) -> bool {
    match raw {
        Some(v) => {
            let f = folded(v);
            f == "build"@ || f == "build-if-missing"@ || f == "true"@ || f == "1"@
        },
        None => false,
    }
}

/// The WASM startup policy for the configured value; persisted-only unless building is asked for.
pub fn local_wasm_startup_policy(raw: Option<&str>) -> (r: LocalWasmStartupPolicy)
    ensures
        (r == LocalWasmStartupPolicy::BuildIfMissing) == builds_missing_wasm(
            match raw {
                Some(v) => Some(v@),
                None => None,
            },
        ),
{
    match raw {
        Some(v) => {
            let f = fold_chars(&chars(v));
            if chars_eq_str(&f, "build") || chars_eq_str(&f, "build-if-missing") || chars_eq_str(
                &f,
                "true",
            ) || chars_eq_str(&f, "1") {
                LocalWasmStartupPolicy::BuildIfMissing
            } else {
                LocalWasmStartupPolicy::LoadPersistedOnly
            }
        },
        None => LocalWasmStartupPolicy::LoadPersistedOnly,
    }
}

/// The readiness flag shared between the startup sequence and the request gate.
#[derive(Clone)]
pub struct StartupReadiness {
    ready: Arc<AtomicBool>,
}

impl StartupReadiness {
    /// A flag that is not yet ready.
    pub fn new() -> Self {
        StartupReadiness { ready: Arc::new(AtomicBool::new(false)) }
    }

    /// Whether startup has finished. The flag is shared between threads, so nothing is
    /// stated of the value read.
    pub fn is_ready(&self) -> bool {
        self.ready.load(Ordering::SeqCst)
    }

    /// Marks startup as finished.
    pub fn mark_ready(&self) {
        self.ready.store(true, Ordering::SeqCst);
    }
}

/// Whether some app in `apps` is named `name`.
pub open spec fn names_app(apps: Seq<String>, name: Seq<char>) -> bool {
    exists|i: int| 0 <= i < apps.len() && #[trigger] apps[i]@ == name
}

/// The built-in default agent specs are bootstrapped only when `paw-agent` is not among the apps.
pub fn default_agent_specs_bootstrap_needed(startup_apps: &Vec<String>) -> (r: bool)
    ensures
        r == !names_app(startup_apps@, "paw-agent"@),
{
    let mut i: usize = 0;
    while i < startup_apps.len()
        invariant
            i <= startup_apps@.len(),
            forall|k: int| 0 <= k < i ==> startup_apps@[k]@ != "paw-agent"@,
        decreases startup_apps@.len() - i,
    {
        if str_eq(startup_apps[i].as_str(), "paw-agent") {
            return false;
        }
        i = i + 1;
    }
    true
}

/// Whether the startup gate lets a request through: everything once ready, before that only
/// liveness, readiness and the stream descriptor migration routes.
pub open spec fn gate_allows(ready: bool, path: Seq<char>) -> bool {
    ||| ready
    ||| path == "/healthz"@
    ||| path == "/readyz"@
    ||| has_prefix(path, "/api/v1/schema-deployments/stream-descriptor-migrations"@)
}

/// The startup gate's decision for a request path; a refused request is answered 503.
pub fn startup_gate_allows(ready: bool, path: &str) -> (r: bool)
    ensures
        r == gate_allows(ready, path@),
{
    ready || str_eq(path, "/healthz") || str_eq(path, "/readyz") || crate::text::starts_with(
        path,
        "/api/v1/schema-deployments/stream-descriptor-migrations",
    )
}

/// The interval between actor passivation checks: the configured seconds where they parse,
/// else 60, kept within one second and one day.
pub open spec fn passivation_interval(raw: Option<Seq<char>>) -> u64 {
    let n = match raw {
        Some(v) => match parse_u64_spec(v) {
            Some(n) => n,
            None => 60,
        },
        None => 60,
    };
    if n < 1 {
        1
    } else if n > 86_400 {
        86_400
    } else {
        n
    }
}

/// The actor passivation check interval in seconds.
pub fn actor_passivation_check_interval_secs(raw: Option<&str>) -> (r: u64)
    ensures
        r == passivation_interval(
            match raw {
                Some(v) => Some(v@),
                None => None,
            },
        ),
        1 <= r <= 86_400,
{
    let n: u64 = match raw {
        Some(v) => match parse_u64_chars(&chars(v)) {
            Some(n) => n,
            None => 60,
        },
        None => 60,
    };
    if n < 1 {
        1
    } else if n > 86_400 {
        86_400
    } else {
        n
    }
}

/// The Genesis bootstrap refs of the configured comma-separated list.
pub fn parse_genesis_bootstrap_refs(configured: &str) -> (r: Vec<String>)
    ensures
        string_views(r@) == config_list(configured@),
{
    let items = config_list_chars(&chars(configured));
    strings_from_chars(&items)
}

/// The owner and name parts of `owner/name@hash`, before trimming; `None` without an `@`,
/// with a blank hash, or without a `/` before the `@`.
pub open spec fn pinned_ref_parts(r: Seq<char>) -> Option<(Seq<char>, Seq<char>)> {
    let at = find_char(r, '@');
    if at < 0 {
        None
    } else {
        let owner_and_name = r.take(at);
        if trim_seq(r.skip(at + 1)).len() == 0 {
            None
        } else {
            let slash = find_char(owner_and_name, '/');
            if slash < 0 {
                None
            } else {
                Some((owner_and_name.take(slash), owner_and_name.skip(slash + 1)))
            }
        }
    }
}

/// The app name of a pinned `owner/name@hash` ref.
pub open spec fn pinned_ref_name(r: Seq<char>) -> Option<Seq<char>> {
    match pinned_ref_parts(r) {
        Some((_, name)) => if trim_seq(name).len() == 0 {
            None
        } else {
            Some(trim_seq(name))
        },
        None => None,
    }
}

/// The owner of a pinned `owner/name@hash` ref; both owner and name must be non-blank.
pub open spec fn pinned_ref_owner(r: Seq<char>) -> Option<Seq<char>> {
    match pinned_ref_parts(r) {
        Some((owner, name)) => if trim_seq(owner).len() == 0 || trim_seq(name).len() == 0 {
            None
        } else {
            Some(trim_seq(owner))
        },
        None => None,
    }
}

/// The positions of the `@` and of the `/` before it in a pinned ref, when its hash is not blank.
fn pinned_ref_split(v: &Vec<char>) -> (r: Option<(usize, usize)>)
    ensures
        match r {
            Some((slash, at)) => slash < at < v@.len() && pinned_ref_parts(v@) == Some(
                (v@.take(slash as int), v@.subrange(slash + 1, at as int)),
            ),
            None => pinned_ref_parts(v@) is None,
        },
{
    let n = v.len();
    let at = match find_char_index(v, '@') {
        Some(at) => at,
        None => return None,
    };
    proof {
        lemma_find_char_bounds(v@, '@');
    }
    let hash = slice_chars(v, at + 1, n);
    let (h0, h1) = trim_range(&hash);
    proof {
        assert(hash@ =~= v@.skip(at + 1));
    }
    if h0 == h1 {
        return None;
    }
    let owner_and_name = slice_chars(v, 0, at);
    let slash = match find_char_index(&owner_and_name, '/') {
        Some(slash) => slash,
        None => {
            proof {
                assert(owner_and_name@ =~= v@.take(at as int));
            }
            return None;
        },
    };
    proof {
        lemma_find_char_bounds(owner_and_name@, '/');
        assert(owner_and_name@ =~= v@.take(at as int));
        assert(owner_and_name@.take(slash as int) =~= v@.take(slash as int));
        assert(owner_and_name@.skip(slash + 1) =~= v@.subrange(slash + 1, at as int));
    }
    Some((slash, at))
}

/// The app name of a pinned `owner/name@hash` ref, trimmed.
pub fn pinned_app_ref_name(app_ref: &str) -> (r: Option<&str>)
    ensures
        match r {
            Some(name) => pinned_ref_name(app_ref@) == Some(name@),
            None => pinned_ref_name(app_ref@) is None,
        },
{
    let v = chars(app_ref);
    let (slash, at) = match pinned_ref_split(&v) {
        Some(p) => p,
        None => return None,
    };
    let name = slice_chars(&v, slash + 1, at);
    let (a, b) = trim_range(&name);
    if a == b {
        return None;
    }
    proof {
        assert(name@.subrange(a as int, b as int) =~= v@.subrange(slash + 1 + a, slash + 1 + b));
    }
    Some(app_ref.substring_char(slash + 1 + a, slash + 1 + b))
}

/// The owner of a pinned `owner/name@hash` ref, trimmed.
pub fn pinned_app_ref_owner(app_ref: &str) -> (r: Option<&str>)
    ensures
        match r {
            Some(owner) => pinned_ref_owner(app_ref@) == Some(owner@),
            None => pinned_ref_owner(app_ref@) is None,
        },
{
    let v = chars(app_ref);
    let (slash, at) = match pinned_ref_split(&v) {
        Some(p) => p,
        None => return None,
    };
    let owner = slice_chars(&v, 0, slash);
    let name = slice_chars(&v, slash + 1, at);
    let (a, b) = trim_range(&owner);
    let (c, d) = trim_range(&name);
    if a == b || c == d {
        return None;
    }
    proof {
        assert(owner@ =~= v@.take(slash as int));
        assert(owner@.subrange(a as int, b as int) =~= v@.subrange(a as int, b as int));
    }
    Some(app_ref.substring_char(a, b))
}

/// Every pinned ref with an owner also has a name.
pub proof fn law_pinned_owner_implies_name(r: Seq<char>)
    ensures
        pinned_ref_owner(r) is Some ==> pinned_ref_name(r) is Some,
{
}

/// The app names of the refs that are pinned `owner/name@hash` refs, in order.
pub open spec fn pinned_names(refs: Seq<Seq<char>>) -> Seq<Seq<char>>
    decreases refs.len(),
{
    if refs.len() == 0 {
        Seq::<Seq<char>>::empty()
    } else {
        let init = pinned_names(refs.drop_last());
        match pinned_ref_name(refs.last()) {
            Some(name) => init.push(name),
            None => init,
        }
    }
}

/// The names of the apps that the Genesis bootstrap refs install; unpinned refs are skipped.
pub fn genesis_bootstrap_app_names(refs: &Vec<String>) -> (r: Vec<String>)
    ensures
        string_views(r@) == pinned_names(string_views(refs@)),
{
    let mut names: Vec<String> = Vec::new();
    let mut i: usize = 0;
    while i < refs.len()
        invariant
            i <= refs@.len(),
            string_views(names@) == pinned_names(string_views(refs@).take(i as int)),
        decreases refs@.len() - i,
    {
        let ghost before = string_views(refs@).take(i as int);
        let ghost after = string_views(refs@).take(i as int + 1);
        proof {
            assert(after.drop_last() =~= before);
            assert(after.last() == refs@[i as int]@);
        }
        match pinned_app_ref_name(refs[i].as_str()) {
            Some(name) => {
                let ghost old_names = names@;
                names.push(owned(name));
                proof {
                    assert(string_views(names@) =~= string_views(old_names).push(name@));
                }
            },
            None => {},
        }
        i = i + 1;
    }
    assert(string_views(refs@).take(refs@.len() as int) =~= string_views(refs@));
    names
}

/// The startup OS apps: none when Genesis bootstrap refs are configured, which replace the
/// local startup surface; else the apps that the manifests list.
pub fn startup_os_apps(genesis_refs: &Vec<String>, manifest_apps: Vec<String>) -> (r: Vec<String>)
    ensures
        r@ == (if genesis_refs@.len() > 0 {
            Seq::<String>::empty()
        } else {
            manifest_apps@
        }),
{
    if genesis_refs.len() > 0 {
        Vec::new()
    } else {
        manifest_apps
    }
}

/// `s` without its trailing `c` characters.
pub open spec fn strip_trailing(s: Seq<char>, c: char) -> Seq<char>
    decreases s.len(),
{
    if s.len() > 0 && s.last() == c {
        strip_trailing(s.drop_last(), c)
    } else {
        s
    }
}

pub fn strip_trailing_chars(v: &Vec<char>, c: char) -> (r: Vec<char>)
    ensures
        r@ == strip_trailing(v@, c),
{
    let mut j: usize = v.len();
    assert(v@.take(v@.len() as int) =~= v@);
    while j > 0 && v[j - 1] == c
        invariant
            j <= v@.len(),
            strip_trailing(v@, c) == strip_trailing(v@.take(j as int), c),
        decreases j,
    {
        proof {
            let t = v@.take(j as int);
            assert(t.drop_last() =~= v@.take(j - 1));
        }
        j = j - 1;
    }
    proof {
        assert(v@.take(j as int) =~= v@.subrange(0, j as int));
    }
    slice_chars(v, 0, j)
}

/// The default Genesis registry.
pub const DEFAULT_GENESIS_REGISTRY_URL: &'static str = "https://genesis-production-164d.up.railway.app";

/// The Genesis registry URL: the configured one or the default, trimmed, trailing `/` removed.
pub fn genesis_registry_url(configured: Option<&str>) -> (r: String)
    ensures
        r@ == strip_trailing(
            trim_seq(
                match configured {
                    Some(u) => u@,
                    None => DEFAULT_GENESIS_REGISTRY_URL@,
                },
            ),
            '/',
        ),
{
    let raw = match configured {
        Some(u) => chars(u),
        None => chars(DEFAULT_GENESIS_REGISTRY_URL),
    };
    let t = trim_chars(&raw);
    let s = strip_trailing_chars(&t, '/');
    string_from_chars(&s)
}

/// Whether a registry URL uses HTTP or HTTPS.
pub fn is_http_registry_url(url: &str) -> (r: bool)
    ensures
        r == (has_prefix(url@, "http://"@) || has_prefix(url@, "https://"@)),
{
    crate::text::starts_with(url, "http://") || crate::text::starts_with(url, "https://")
}

/// The seconds of a configured timeout: the trimmed value where it parses and is positive,
/// else the default.
pub open spec fn positive_secs(raw: Option<Seq<char>>, default: u64) -> u64 {
    match raw {
        Some(v) => match parse_u64_spec(trim_seq(v)) {
            Some(n) => if n > 0 {
                n
            } else {
                default
            },
            None => default,
        },
        None => default,
    }
}

/// The view of an optional string slice.
pub open spec fn opt_view(raw: Option<&str>) -> Option<Seq<char>> {
    match raw {
        Some(v) => Some(v@),
        None => None,
    }
}

fn positive_secs_or(raw: Option<&str>, default: u64) -> (r: u64)
    ensures
        r == positive_secs(opt_view(raw), default),
{
    match raw {
        Some(v) => {
            let t = trim_chars(&chars(v));
            match parse_u64_chars(&t) {
                Some(n) => if n > 0 {
                    n
                } else {
                    default
                },
                None => default,
            }
        },
        None => default,
    }
}

/// Seconds that startup waits for the Genesis registry cache restore by default.
pub const DEFAULT_GENESIS_CACHE_RESTORE_TIMEOUT_SECS: u64 = 20;

/// Seconds that startup waits for the Genesis bootstrap by default.
pub const DEFAULT_GENESIS_BOOTSTRAP_TIMEOUT_SECS: u64 = 60;

/// The Genesis registry cache restore timeout, in seconds, for the configured value.
pub fn genesis_cache_restore_timeout(raw: Option<&str>) -> (r: u64)
    ensures
        r == positive_secs(opt_view(raw), DEFAULT_GENESIS_CACHE_RESTORE_TIMEOUT_SECS),
{
    positive_secs_or(raw, DEFAULT_GENESIS_CACHE_RESTORE_TIMEOUT_SECS)
}

/// The Genesis bootstrap timeout, in seconds, for the configured value.
pub fn genesis_bootstrap_timeout(raw: Option<&str>) -> (r: u64)
    ensures
        r == positive_secs(opt_view(raw), DEFAULT_GENESIS_BOOTSTRAP_TIMEOUT_SECS),
{
    positive_secs_or(raw, DEFAULT_GENESIS_BOOTSTRAP_TIMEOUT_SECS)
}

/// The error of a failed connection attempt, carried opaquely.
#[verifier::external_type_specification]
#[verifier::external_body]
pub struct ExAnyhowError(anyhow::Error);

/// The Discord interaction URL of a successful startup connection; a failure is dropped so
/// that startup continues without Discord.
pub fn startup_discord_connect_result(result: Result<String, anyhow::Error>) -> (r: Option<String>)
    ensures
        match result {
            Ok(url) => r == Some(url),
            Err(_) => r is None,
        },
{
    match result {
        Ok(interaction_url) => Some(interaction_url),
        Err(_) => None,
    }
}

/// The state of the Discord transport.
#[derive(Debug, Clone, PartialEq, Eq)]
pub enum TransportStatus {
    Connected { guild_id: Option<String> },
    Connecting,
    Disconnected,
    Error { message: String },
}

/// The startup summary line for Discord: none when it is not configured.
pub open spec fn discord_label(configured: bool, status: TransportStatus) -> Option<Seq<char>> {
    if !configured {
        None
    } else {
        match status {
            TransportStatus::Connected { .. } => Some("✓ Discord connected"@),
            TransportStatus::Connecting => Some("~ Discord configured; connecting"@),
            _ => Some("~ Discord configured; reconnect pending"@),
        }
    }
}

/// The startup summary line for Discord.
pub fn startup_discord_summary_label(configured: bool, status: &TransportStatus) -> (r: Option<
    String,
>)
    ensures
        match r {
            Some(s) => discord_label(configured, *status) == Some(s@),
            None => discord_label(configured, *status) is None,
        },
{
    if !configured {
        return None;
    }
    match status {
        TransportStatus::Connected { .. } => Some(owned("✓ Discord connected")),
        TransportStatus::Connecting => Some(owned("~ Discord configured; connecting")),
        TransportStatus::Disconnected => Some(owned("~ Discord configured; reconnect pending")),
        TransportStatus::Error { .. } => Some(owned("~ Discord configured; reconnect pending")),
    }
}

/// Sessions inspected by orphaned-session recovery when no limit is configured.
pub const DEFAULT_ORPHANED_SESSION_RECOVERY_LIMIT: usize = 25;

/// `str::parse::<usize>`: as for `u64`, and the value must fit in a `usize`.
pub open spec fn parse_usize_spec(s: Seq<char>) -> Option<usize> {
    match parse_u64_spec(s) {
        Some(n) => if n <= usize::MAX {
            Some(n as usize)
        } else {
            None
        },
        None => None,
    }
}

/// Whether a configured switch value turns a default-on feature off.
pub open spec fn switched_off(v: Seq<char>) -> bool {
    let f = folded(v);
    f == "0"@ || f == "false"@ || f == "no"@ || f == "off"@ || f == "disabled"@ || f == "none"@
}

/// How many sessions orphaned-session recovery inspects: `None` when it is switched off.
pub open spec fn orphaned_session_limit(enabled: Option<Seq<char>>, max: Option<Seq<char>>) -> Option<usize> {
    if enabled matches Some(v) && switched_off(v) {
        None
    } else {
        Some(
            match max {
                Some(m) => match parse_usize_spec(trim_seq(m)) {
                    Some(n) => if n > 0 {
                        n
                    } else {
                        DEFAULT_ORPHANED_SESSION_RECOVERY_LIMIT
                    },
                    None => DEFAULT_ORPHANED_SESSION_RECOVERY_LIMIT,
                },
                None => DEFAULT_ORPHANED_SESSION_RECOVERY_LIMIT,
            },
        )
    }
}

/// The orphaned-session recovery limit for the configured switch and maximum.
pub fn orphaned_session_recovery_limit(enabled: Option<&str>, max: Option<&str>) -> (r: Option<
    usize,
>)
    ensures
        r == orphaned_session_limit(opt_view(enabled), opt_view(max)),
{
    match enabled {
        Some(v) => {
            let f = fold_chars(&chars(v));
            if chars_eq_str(&f, "0") || chars_eq_str(&f, "false") || chars_eq_str(&f, "no")
                || chars_eq_str(&f, "off") || chars_eq_str(&f, "disabled") || chars_eq_str(
                &f,
                "none",
            ) {
                return None;
            }
        },
        None => {},
    }
    let limit: usize = match max {
        Some(m) => {
            let t = trim_chars(&chars(m));
            match parse_u64_chars(&t) {
                Some(n) => if n > 0 && n <= usize::MAX as u64 {
                    n as usize
                } else {
                    DEFAULT_ORPHANED_SESSION_RECOVERY_LIMIT
                },
                None => DEFAULT_ORPHANED_SESSION_RECOVERY_LIMIT,
            }
        },
        None => DEFAULT_ORPHANED_SESSION_RECOVERY_LIMIT,
    };
    Some(limit)
}

/// What recovery does with a session found after a restart.
#[derive(Debug, Clone, Copy, PartialEq, Eq)]
pub enum SessionRecoveryAction {
    /// Dispatch `RecoverFromRestart`, falling back to `Fail`.
    Recover,
    /// Dispatch `Fail`.
    Fail,
    /// Leave it: it is in a terminal state.
    Keep,
}

/// Statuses from which a session recovers after a restart.
pub open spec fn recoverable_status(s: Seq<char>) -> bool {
    s == "Thinking"@ || s == "Executing"@ || s == "Compacting"@ || s == "Steering"@ || s
        == "WaitingForApproval"@
}

/// Terminal session statuses.
pub open spec fn terminal_status(s: Seq<char>) -> bool {
    s == "Completed"@ || s == "Failed"@ || s == "Cancelled"@
}

/// What recovery does with a session in `status`.
pub fn orphaned_session_action(status: &str) -> (r: SessionRecoveryAction)
    ensures
        recoverable_status(status@) ==> r == SessionRecoveryAction::Recover,
        !recoverable_status(status@) && terminal_status(status@) ==> r
            == SessionRecoveryAction::Keep,
        !recoverable_status(status@) && !terminal_status(status@) ==> r
            == SessionRecoveryAction::Fail,
{
    if str_eq(status, "Thinking") || str_eq(status, "Executing") || str_eq(status, "Compacting")
        || str_eq(status, "Steering") || str_eq(status, "WaitingForApproval") {
        SessionRecoveryAction::Recover
    } else if str_eq(status, "Completed") || str_eq(status, "Failed") || str_eq(
        status,
        "Cancelled",
    ) {
        SessionRecoveryAction::Keep
    } else {
        SessionRecoveryAction::Fail
    }
}

/// The error message of a session that recovers from `status`.
pub fn session_recovery_message(status: &str) -> (r: String)
    ensures
        r@ == "process restart — recovering from "@ + status@,
{
    let mut v = chars("process restart — recovering from ");
    append_str(&mut v, status);
    string_from_chars(&v)
}

/// The error message of an orphaned session that is failed from `status`.
pub fn orphaned_session_fail_message(status: &str) -> (r: String)
    ensures
        r@ == "process restart — session recovered from "@ + status@ + " state"@,
{
    let mut v = chars("process restart — session recovered from ");
    append_str(&mut v, status);
    append_str(&mut v, " state");
    string_from_chars(&v)
}

/// Whether a configured backfill switch is on: its trimmed value is one of the accepted
/// spellings of yes.
pub open spec fn backfill_switch_on(raw: Option<Seq<char>>) -> bool {
    match raw {
        Some(v) => {
            let t = trim_seq(v);
            t == "1"@ || t == "true"@ || t == "TRUE"@ || t == "yes"@ || t == "YES"@ || t == "on"@
                || t == "ON"@
        },
        None => false,
    }
}

fn switch_on(raw: Option<&str>) -> (r: bool)
    ensures
        r == backfill_switch_on(opt_view(raw)),
{
    match raw {
        Some(v) => {
            let t = trim_chars(&chars(v));
            chars_eq_str(&t, "1") || chars_eq_str(&t, "true") || chars_eq_str(&t, "TRUE")
                || chars_eq_str(&t, "yes") || chars_eq_str(&t, "YES") || chars_eq_str(&t, "on")
                || chars_eq_str(&t, "ON")
        },
        None => false,
    }
}

/// Whether the key-index backfill runs after startup.
pub fn key_index_backfill_on_startup(raw: Option<&str>) -> (r: bool)
    ensures
        r == backfill_switch_on(opt_view(raw)),
{
    switch_on(raw)
}

/// Whether the query projection backfill runs after startup.
pub fn query_projection_backfill_on_startup(raw: Option<&str>) -> (r: bool)
    ensures
        r == backfill_switch_on(opt_view(raw)),
{
    switch_on(raw)
}

/// The configured delay where it parses (untrimmed), else the default.
pub open spec fn delay_secs(raw: Option<Seq<char>>, default: u64) -> u64 {
    match raw {
        Some(v) => match parse_u64_spec(v) {
            Some(n) => n,
            None => default,
        },
        None => default,
    }
}

fn delay_or(raw: Option<&str>, default: u64) -> (r: u64)
    ensures
        r == delay_secs(opt_view(raw), default),
{
    match raw {
        Some(v) => match parse_u64_chars(&chars(v)) {
            Some(n) => n,
            None => default,
        },
        None => default,
    }
}

/// The delay before the key-index backfill, in seconds (30 by default).
pub fn key_index_backfill_delay(raw: Option<&str>) -> (r: u64)
    ensures
        r == delay_secs(opt_view(raw), 30),
{
    delay_or(raw, 30)
}

/// The delay before the query projection backfill, in seconds (300 by default).
pub fn query_projection_backfill_delay(raw: Option<&str>) -> (r: u64)
    ensures
        r == delay_secs(opt_view(raw), 300),
{
    delay_or(raw, 300)
}

/// How many sessions recovery inspects, and how many it leaves for later: the first
/// `limit` of `total`.
pub fn sessions_to_inspect(total: usize, limit: usize) -> (r: (usize, usize))
    ensures
        r.0 == if total < limit { total } else { limit },
        r.1 == if total > limit { total - limit } else { 0 },
{
    if total > limit {
        (limit, total - limit)
    } else {
        (total, 0)
    }
}

/// What happened to one inspected session.
#[derive(Debug, Clone, Copy, PartialEq, Eq)]
pub enum SessionRecoveryResult {
    /// `RecoverFromRestart` was dispatched.
    Recovering,
    /// `RecoverFromRestart` failed and `Fail` was dispatched instead.
    RecoverFailed,
    /// `Fail` was dispatched.
    Failed,
    /// Left alone: terminal, or its state could not be read.
    Untouched,
}

/// The counts that session recovery reports.
pub struct SessionRecoveryTally {
    pub inspected: usize,
    pub recovering: usize,
    pub failed: usize,
}

impl SessionRecoveryTally {
    pub fn new() -> (r: SessionRecoveryTally)
        ensures
            r.inspected == 0 && r.recovering == 0 && r.failed == 0,
    {
        SessionRecoveryTally { inspected: 0, recovering: 0, failed: 0 }
    }

    /// Counts one inspected session.
    pub fn record(&mut self, result: SessionRecoveryResult)
        requires
            old(self).inspected < usize::MAX,
            old(self).recovering <= old(self).inspected,
            old(self).failed <= old(self).inspected,
        ensures
            final(self).inspected == old(self).inspected + 1,
            final(self).recovering == old(self).recovering + if result == SessionRecoveryResult::Recovering {
                1usize
            } else {
                0usize
            },
            final(self).failed == old(self).failed + if result == SessionRecoveryResult::RecoverFailed
                || result == SessionRecoveryResult::Failed {
                1usize
            } else {
                0usize
            },
            final(self).recovering <= final(self).inspected,
            final(self).failed <= final(self).inspected,
    {
        self.inspected = self.inspected + 1;
        match result {
            SessionRecoveryResult::Recovering => self.recovering = self.recovering + 1,
            SessionRecoveryResult::RecoverFailed => self.failed = self.failed + 1,
            SessionRecoveryResult::Failed => self.failed = self.failed + 1,
            SessionRecoveryResult::Untouched => {},
        }
    }
}

/// The configured values `build`, `build-if-missing`, `true` and `1`, trimmed and in any ASCII
/// case, select building missing WASM artifacts; any other value, or none, loads persisted
/// artifacts only.
pub proof fn law_wasm_build_values(raw: Seq<char>)
    ensures
        ({
            let f = ascii_lower(trim_seq(raw));
            (f == "build"@ || f == "build-if-missing"@ || f == "true"@ || f == "1"@)
                <==> builds_missing_wasm(Some(raw))
        }),
        !builds_missing_wasm(None),
{
}

/// After a restart, a session that was thinking, executing, compacting, steering or waiting
/// for approval is recovered; one that completed, failed or was cancelled is kept as it is.
pub proof fn law_active_sessions_are_recovered(status: Seq<char>)
    ensures
        status == "Thinking"@ || status == "Executing"@ || status == "Compacting"@ || status
            == "Steering"@ || status == "WaitingForApproval"@ ==> recoverable_status(status),
        status == "Completed"@ || status == "Failed"@ || status == "Cancelled"@ ==> !recoverable_status(status)
            && terminal_status(status),
{
    reveal_strlit("Thinking");
    reveal_strlit("Executing");
    reveal_strlit("Compacting");
    reveal_strlit("Steering");
    reveal_strlit("WaitingForApproval");
    reveal_strlit("Completed");
    reveal_strlit("Failed");
    reveal_strlit("Cancelled");
    if status == "Completed"@ || status == "Failed"@ || status == "Cancelled"@ {
        assert(status[0] != 'T' && status[0] != 'E' && status[0] != 'S' && status[0] != 'W');
        assert(status.len() != "Compacting"@.len());
    }
}

} // verus!
