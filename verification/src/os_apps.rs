//! The OS apps of the startup surface: where their local WASM modules are found, and how
//! the reconcile results of all apps decide whether startup proceeds.

use vstd::prelude::*;

use crate::text::{
    append_chars, append_str, chars, decimal, decimal_chars, join_path, join_seq, join_strings,
    path_join, str_eq, string_from_chars, string_views,
};

verus! {

/// The readiness error of an app whose required WASM modules failed to load.
pub open spec fn wasm_failure_message(app_name: Seq<char>, failures: Seq<Seq<char>>) -> Seq<char> {
    app_name + ": required WASM module(s) failed to load or validate: "@ + join_seq(failures, ", "@)
}

/// The error that blocks readiness when an installed app's required WASM modules failed to
/// load or validate; `None` when none failed.
pub fn app_required_wasm_failure(app_name: &str, wasm_failures: &Vec<String>) -> (r: Option<String>)
    ensures
        match r {
            Some(s) => wasm_failures@.len() > 0 && s@ == wasm_failure_message(
                app_name@,
                string_views(wasm_failures@),
            ),
            None => wasm_failures@.len() == 0,
        },
{
    if wasm_failures.len() == 0 {
        return None;
    }
    let mut out = chars(app_name);
    append_str(&mut out, ": required WASM module(s) failed to load or validate: ");
    let joined = join_strings(wasm_failures, ", ");
    append_str(&mut out, joined.as_str());
    Some(string_from_chars(&out))
}

/// `name.replace('_', "-")`.
pub open spec fn dashed(name: Seq<char>) -> Seq<char> {
    name.map_values(|c: char| if c == '_' { '-' } else { c })
}

fn dashed_name(name: &str) -> (r: String)
    ensures
        r@ == dashed(name@),
{
    let v = chars(name);
    let mut out: Vec<char> = Vec::new();
    let mut i: usize = 0;
    while i < v.len()
        invariant
            i <= v@.len(),
            out@ == dashed(v@.take(i as int)),
        decreases v@.len() - i,
    {
        let c = v[i];
        out.push(if c == '_' { '-' } else { c });
        assert(out@ =~= dashed(v@.take(i + 1)));
        i = i + 1;
    }
    assert(v@.take(v@.len() as int) =~= v@);
    string_from_chars(&out)
}

/// The files where a module's WASM binary may be: the release outputs of the
/// `wasm32-unknown-unknown` and `wasm32-wasip1` targets, then the module directory itself;
/// in each, the module's name and its dashed form.
pub open spec fn wasm_candidates(dir: Seq<char>, name: Seq<char>) -> Seq<Seq<char>> {
    let release = path_join(dir, "target/wasm32-unknown-unknown/release"@);
    let wasi = path_join(dir, "target/wasm32-wasip1/release"@);
    let plain = name + ".wasm"@;
    let dash = dashed(name) + ".wasm"@;
    seq![
        path_join(release, plain),
        path_join(release, dash),
        path_join(wasi, plain),
        path_join(wasi, dash),
        path_join(dir, plain),
        path_join(dir, dash),
    ]
}

fn with_suffix(s: &str, suffix: &str) -> (r: String)
    ensures
        r@ == s@ + suffix@,
{
    let mut v = chars(s);
    append_str(&mut v, suffix);
    string_from_chars(&v)
}

/// The candidate files of a module's WASM binary, in the order they are tried.
pub fn wasm_binary_candidates(module_dir: &str, module_name: &str) -> (r: Vec<String>)
    ensures
        string_views(r@) == wasm_candidates(module_dir@, module_name@),
{
    let release = join_path(module_dir, "target/wasm32-unknown-unknown/release");
    let wasi = join_path(module_dir, "target/wasm32-wasip1/release");
    let plain = with_suffix(module_name, ".wasm");
    let dash = with_suffix(dashed_name(module_name).as_str(), ".wasm");
    let mut r: Vec<String> = Vec::new();
    r.push(join_path(release.as_str(), plain.as_str()));
    r.push(join_path(release.as_str(), dash.as_str()));
    r.push(join_path(wasi.as_str(), plain.as_str()));
    r.push(join_path(wasi.as_str(), dash.as_str()));
    r.push(join_path(module_dir, plain.as_str()));
    r.push(join_path(module_dir, dash.as_str()));
    assert(string_views(r@) =~= wasm_candidates(module_dir@, module_name@));
    r
}

/// The first of `candidates` that is one of `existing`.
pub open spec fn first_existing(candidates: Seq<Seq<char>>, existing: Seq<Seq<char>>) -> Option<
    Seq<char>,
>
    decreases candidates.len(),
{
    if candidates.len() == 0 {
        None
    } else if existing.contains(candidates[0]) {
        Some(candidates[0])
    } else {
        first_existing(candidates.drop_first(), existing)
    }
}

/// The binary that is found is one of the candidates and one of the existing files.
pub proof fn law_found_binary_is_existing_candidate(candidates: Seq<Seq<char>>, existing: Seq<Seq<char>>)
    ensures
        first_existing(candidates, existing) matches Some(p) ==> candidates.contains(p)
            && existing.contains(p),
    decreases candidates.len(),
{
    if candidates.len() > 0 && !existing.contains(candidates[0]) {
        let rest = candidates.drop_first();
        law_found_binary_is_existing_candidate(rest, existing);
        if let Some(p) = first_existing(rest, existing) {
            let i = choose|i: int| 0 <= i < rest.len() && rest[i] == p;
            assert(candidates[i + 1] == p);
        }
    } else if candidates.len() > 0 {
        assert(candidates[0] == candidates[0]);
    }
}

fn contains_string(items: &Vec<String>, t: &String) -> (r: bool)
    ensures
        r == string_views(items@).contains(t@),
{
    let mut i: usize = 0;
    while i < items.len()
        invariant
            i <= items@.len(),
            forall|k: int| 0 <= k < i ==> items@[k]@ != t@,
        decreases items@.len() - i,
    {
        if str_eq(items[i].as_str(), t.as_str()) {
            assert(string_views(items@)[i as int] == t@);
            return true;
        }
        i = i + 1;
    }
    assert forall|k: int| 0 <= k < string_views(items@).len() implies string_views(items@)[k]
        != t@ by {
        assert(string_views(items@)[k] == items@[k]@);
    }
    false
}

/// The WASM binary of a module: the first candidate file that exists, `existing_files`
/// being the candidates found on disk; none for an empty module name.
pub fn find_wasm_binary(module_dir: &str, module_name: &str, existing_files: &Vec<String>) -> (r:
    Option<String>)
    ensures
        match r {
            Some(p) => module_name@.len() > 0 && first_existing(
                wasm_candidates(module_dir@, module_name@),
                string_views(existing_files@),
            ) == Some(p@),
            None => module_name@.len() == 0 || first_existing(
                wasm_candidates(module_dir@, module_name@),
                string_views(existing_files@),
            ) is None,
        },
{
    if module_name.is_empty() {
        return None;
    }
    let candidates = wasm_binary_candidates(module_dir, module_name);
    let ghost all = string_views(candidates@);
    let ghost ex = string_views(existing_files@);
    let mut i: usize = 0;
    assert(all.skip(0) =~= all);
    while i < candidates.len()
        invariant
            i <= candidates@.len(),
            all == string_views(candidates@),
            all == wasm_candidates(module_dir@, module_name@),
            module_name@.len() > 0,
            ex == string_views(existing_files@),
            first_existing(all, ex) == first_existing(all.skip(i as int), ex),
        decreases candidates@.len() - i,
    {
        assert(all.skip(i as int).drop_first() =~= all.skip(i + 1));
        assert(all.skip(i as int)[0] == candidates@[i as int]@);
        if contains_string(existing_files, &candidates[i]) {
            assert(ex.contains(all.skip(i as int)[0]));
            assert(first_existing(all.skip(i as int), ex) == Some(candidates@[i as int]@));
            let found = candidates[i].clone();
            return Some(found);
        }
        i = i + 1;
    }
    None
}

/// How the reconcile of one startup OS app ended.
#[derive(Debug, Clone, PartialEq, Eq)]
pub enum AppReconcileOutcome {
    /// The app's bundle is missing or invalid.
    Missing,
    /// The app was unchanged.
    Skipped,
    /// The app was installed; the required WASM modules that failed are listed.
    Installed { wasm_failures: Vec<String> },
    /// The app needs a governed stream descriptor migration before activation.
    MigrationRequired {
        app_name: String,
        semantic_digest: String,
        capability_digest: String,
        descriptor_contract_version: u64,
    },
    /// The reconcile failed with an error.
    Failed { error: String },
}

/// The error that an outcome adds to the report, if any.
pub open spec fn outcome_error(app_name: Seq<char>, outcome: AppReconcileOutcome) -> Option<Seq<char>> {
    match outcome {
        AppReconcileOutcome::Missing => Some("OS app '"@ + app_name + "' bundle is missing or invalid"@),
        AppReconcileOutcome::Installed { wasm_failures } => if wasm_failures@.len() > 0 {
            Some(wasm_failure_message(app_name, string_views(wasm_failures@)))
        } else {
            None
        },
        AppReconcileOutcome::Failed { error } => Some(app_name + ": "@ + error@),
        _ => None,
    }
}

/// The migration requirement that an outcome adds to the report, if any.
pub open spec fn outcome_requirement(outcome: AppReconcileOutcome) -> Option<Seq<char>> {
    match outcome {
        AppReconcileOutcome::MigrationRequired {
            app_name,
            semantic_digest,
            capability_digest,
            descriptor_contract_version,
        } => Some(
            "OS app '"@ + app_name@
                + "' requires governed stream descriptor migration before activation (semantic_digest="@
                + semantic_digest@ + ", capability_digest="@ + capability_digest@
                + ", descriptor_contract_version="@ + decimal(descriptor_contract_version as nat)
                + ")"@,
        ),
        _ => None,
    }
}

/// `items` with `o` appended where it is present.
pub open spec fn push_opt(items: Seq<Seq<char>>, o: Option<Seq<char>>) -> Seq<Seq<char>> {
    match o {
        Some(x) => items.push(x),
        None => items,
    }
}

/// What startup decides once every app is reconciled.
#[derive(Debug, Clone, PartialEq, Eq)]
pub enum ReconcileVerdict {
    /// Startup fails with this error.
    Fail(String),
    /// Startup serves requests but stays unready until these migrations are done.
    AwaitMigration(String),
    /// Startup goes on.
    Proceed,
}

/// The errors and migration requirements of the reconciled startup apps, in order.
pub struct ReconcileReport {
    pub errors: Vec<String>,
    pub migration_requirements: Vec<String>,
}

impl ReconcileReport {
    /// A report of no apps.
    pub fn new() -> (r: ReconcileReport)
        ensures
            r.errors@.len() == 0,
            r.migration_requirements@.len() == 0,
    {
        ReconcileReport { errors: Vec::new(), migration_requirements: Vec::new() }
    }

    /// Records how the reconcile of `app_name` ended.
    pub fn record(&mut self, app_name: &str, outcome: &AppReconcileOutcome)
        ensures
            string_views(final(self).errors@) == push_opt(
                string_views(old(self).errors@),
                outcome_error(app_name@, *outcome),
            ),
            string_views(final(self).migration_requirements@) == push_opt(
                string_views(old(self).migration_requirements@),
                outcome_requirement(*outcome),
            ),
    {
        let ghost errors0 = string_views(self.errors@);
        let ghost reqs0 = string_views(self.migration_requirements@);
        match outcome {
            AppReconcileOutcome::Missing => {
                let mut m = chars("OS app '");
                append_str(&mut m, app_name);
                append_str(&mut m, "' bundle is missing or invalid");
                self.errors.push(string_from_chars(&m));
                assert(string_views(self.errors@) =~= errors0.push(
                    "OS app '"@ + app_name@ + "' bundle is missing or invalid"@,
                ));
            },
            AppReconcileOutcome::Skipped => {},
            AppReconcileOutcome::Installed { wasm_failures } => {
                match app_required_wasm_failure(app_name, wasm_failures) {
                    Some(e) => {
                        self.errors.push(e);
                        assert(string_views(self.errors@) =~= errors0.push(
                            wasm_failure_message(app_name@, string_views(wasm_failures@)),
                        ));
                    },
                    None => {},
                }
            },
            AppReconcileOutcome::MigrationRequired {
                app_name: migration_app,
                semantic_digest,
                capability_digest,
                descriptor_contract_version,
            } => {
                let mut m = chars("OS app '");
                append_str(&mut m, migration_app.as_str());
                append_str(
                    &mut m,
                    "' requires governed stream descriptor migration before activation (semantic_digest=",
                );
                append_str(&mut m, semantic_digest.as_str());
                append_str(&mut m, ", capability_digest=");
                append_str(&mut m, capability_digest.as_str());
                append_str(&mut m, ", descriptor_contract_version=");
                append_chars(&mut m, &decimal_chars(*descriptor_contract_version));
                append_str(&mut m, ")");
                self.migration_requirements.push(string_from_chars(&m));
                assert(string_views(self.migration_requirements@) =~= reqs0.push(
                    outcome_requirement(*outcome)->0,
                ));
            },
            AppReconcileOutcome::Failed { error } => {
                let mut m = chars(app_name);
                append_str(&mut m, ": ");
                append_str(&mut m, error.as_str());
                self.errors.push(string_from_chars(&m));
                assert(string_views(self.errors@) =~= errors0.push(app_name@ + ": "@ + error@));
            },
        }
    }

    /// Startup fails on any error, naming their count and listing them; else it waits for
    /// the migrations that are required; else it proceeds.
    pub fn verdict(&self) -> (r: ReconcileVerdict)
        ensures
            self.errors@.len() > 0 ==> (r matches ReconcileVerdict::Fail(m) && m@
                == "Startup OS app reconcile failed for "@ + decimal(self.errors@.len()) + " app(s): "@
                + join_seq(string_views(self.errors@), "; "@)),
            self.errors@.len() == 0 && self.migration_requirements@.len() > 0 ==> (r matches ReconcileVerdict::AwaitMigration(m)
                && m@ == join_seq(string_views(self.migration_requirements@), "; "@)),
            self.errors@.len() == 0 && self.migration_requirements@.len() == 0 ==> r
                == ReconcileVerdict::Proceed,
    {
        if self.errors.len() > 0 {
            let mut m = chars("Startup OS app reconcile failed for ");
            append_chars(&mut m, &decimal_chars(self.errors.len() as u64));
            append_str(&mut m, " app(s): ");
            let joined = join_strings(&self.errors, "; ");
            append_str(&mut m, joined.as_str());
            ReconcileVerdict::Fail(string_from_chars(&m))
        } else if self.migration_requirements.len() > 0 {
            ReconcileVerdict::AwaitMigration(join_strings(&self.migration_requirements, "; "))
        } else {
            ReconcileVerdict::Proceed
        }
    }
}

} // verus!
