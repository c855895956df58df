//! The Genesis bootstrap of pinned apps: which refs are valid, which installed apps are
//! left alone, and how many installs it reports.

use vstd::prelude::*;

use crate::startup::{
    is_http_registry_url, pinned_app_ref_name, pinned_app_ref_owner, pinned_ref_name,
    pinned_ref_owner, opt_view, InstalledAppRuntimeRecoveryOutcome,
};
use crate::text::{append_str, chars, has_prefix, owned, str_eq, string_from_chars};

verus! {

/// The error for a registry URL that is not HTTP(S).
pub const REGISTRY_URL_ERROR: &'static str = "TEMPERPAW_GENESIS_REGISTRY_URL must start with http:// or https://";

/// The error for a ref that is not a pinned `owner/app@hash` ref.
pub open spec fn invalid_ref_message(app_ref: Seq<char>) -> Seq<char> {
    "TEMPERPAW_GENESIS_BOOTSTRAP_REFS must contain pinned owner/app@hash refs; got '"@ + app_ref
        + "'"@
}

/// Checks the registry URL before any app is bootstrapped.
pub fn check_genesis_registry_url(url: &str) -> (r: Result<(), String>)
    ensures
        match r {
            Ok(_) => has_prefix(url@, "http://"@) || has_prefix(url@, "https://"@),
            Err(e) => !(has_prefix(url@, "http://"@) || has_prefix(url@, "https://"@)) && e@
                == REGISTRY_URL_ERROR@,
        },
{
    if is_http_registry_url(url) {
        Ok(())
    } else {
        Err(owned(REGISTRY_URL_ERROR))
    }
}

/// The app name of a bootstrap ref, which must name both an owner and an app; the error
/// that stops the bootstrap otherwise.
pub fn validate_genesis_ref(app_ref: &str) -> (r: Result<String, String>)
    ensures
        match r {
            Ok(name) => pinned_ref_name(app_ref@) == Some(name@) && pinned_ref_owner(app_ref@) is Some,
            Err(e) => (pinned_ref_name(app_ref@) is None || pinned_ref_owner(app_ref@) is None)
                && e@ == invalid_ref_message(app_ref@),
        },
{
    let name = pinned_app_ref_name(app_ref);
    let owner = pinned_app_ref_owner(app_ref);
    match (name, owner) {
        (Some(n), Some(_)) => Ok(owned(n)),
        _ => {
            let mut m = chars(
                "TEMPERPAW_GENESIS_BOOTSTRAP_REFS must contain pinned owner/app@hash refs; got '",
            );
            append_str(&mut m, app_ref);
            append_str(&mut m, "'");
            Err(string_from_chars(&m))
        },
    }
}

/// The stored install record of an app.
#[derive(Debug, Clone, PartialEq, Eq)]
pub struct InstalledAppRecord {
    pub source_kind: String,
    pub app_ref: String,
    pub status: String,
}

/// Whether the stored record shows the app installed from Genesis at exactly this ref.
pub open spec fn record_unchanged(record: InstalledAppRecord, app_ref: Seq<char>) -> bool {
    record.source_kind@ == "genesis"@ && record.app_ref@ == app_ref && record.status@
        == "installed"@
}

/// Whether the stored record shows the app installed from Genesis at this very ref; only
/// then is the install skipped, and only when runtime recovery finds it ready or healed.
pub fn genesis_record_unchanged(record: &Option<InstalledAppRecord>, app_ref: &str) -> (r: bool)
    ensures
        r == (*record matches Some(rec) && record_unchanged(rec, app_ref@)),
{
    match record {
        Some(rec) => str_eq(rec.source_kind.as_str(), "genesis") && str_eq(rec.app_ref.as_str(), app_ref)
            && str_eq(rec.status.as_str(), "installed"),
        None => false,
    }
}

/// The Genesis registry tenant: the configured one, else `default`.
pub fn genesis_registry_tenant(configured: Option<&str>) -> (r: String)
    ensures
        r@ == match opt_view(configured) {
            Some(t) => t,
            None => "default"@,
        },
{
    match configured {
        Some(t) => owned(t),
        None => owned("default"),
    }
}

/// What the bootstrap does with one valid ref.
#[derive(Debug, Clone, Copy, PartialEq, Eq)]
pub enum GenesisAppStep {
    /// The app is unchanged and its runtime recovered: nothing to do.
    Skip,
    /// The app is installed (or reconciled) from the registry.
    Install,
}

/// The step for an app: skipped only when its record is unchanged and runtime recovery,
/// which runs only then, found it ready or healed.
pub fn genesis_app_step(unchanged: bool, recovery: Option<InstalledAppRuntimeRecoveryOutcome>) -> (r:
    GenesisAppStep)
    ensures
        r == GenesisAppStep::Skip <==> (unchanged && (recovery == Some(
            InstalledAppRuntimeRecoveryOutcome::Ready,
        ) || recovery == Some(InstalledAppRuntimeRecoveryOutcome::Healed))),
{
    if unchanged {
        match recovery {
            Some(InstalledAppRuntimeRecoveryOutcome::Ready) => GenesisAppStep::Skip,
            Some(InstalledAppRuntimeRecoveryOutcome::Healed) => GenesisAppStep::Skip,
            _ => GenesisAppStep::Install,
        }
    } else {
        GenesisAppStep::Install
    }
}

/// The running count of apps the bootstrap installed.
pub struct GenesisBootstrapTally {
    pub installed: usize,
}

impl GenesisBootstrapTally {
    pub fn new() -> (r: GenesisBootstrapTally)
        ensures
            r.installed == 0,
    {
        GenesisBootstrapTally { installed: 0 }
    }

    /// Counts an install attempt; only a successful one counts.
    pub fn record_install(&mut self, succeeded: bool)
        requires
            old(self).installed < usize::MAX,
        ensures
            final(self).installed == old(self).installed + if succeeded {
                1usize
            } else {
                0usize
            },
    {
        if succeeded {
            self.installed = self.installed + 1;
        }
    }
}

} // verus!
