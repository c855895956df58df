//! Settings that startup derives from its configuration: which credentials and secrets it
//! uses, the sandbox provider, the blob stores, and the flags read from stored secrets.

use vstd::prelude::*;

use crate::startup::{opt_view, strip_trailing, strip_trailing_chars};
use crate::text::{
    append_chars, append_str, chars, decimal, decimal_chars, has_prefix, owned, slice_chars,
    starts_with, str_eq, string_from_chars, trim, trim_seq,
};

verus! {

/// The view of an optional string.
pub open spec fn opt_string(o: Option<String>) -> Option<Seq<char>> {
    match o {
        Some(s) => Some(s@),
        None => None,
    }
}

/// The value of a startup secret: the deployment's configured value unless blank, else the
/// shared platform secret, else the tenant's own secret.
pub open spec fn startup_secret(
    configured: Option<Seq<char>>,
    platform: Option<Seq<char>>,
    tenant: Option<Seq<char>>,
) -> Option<Seq<char>> {
    match configured {
        Some(v) if trim_seq(v).len() > 0 => Some(v),
        _ => match platform {
            Some(p) => Some(p),
            None => tenant,
        },
    }
}

/// The value of a startup secret, from the configured value and the secrets vault's
/// platform and tenant entries.
pub fn resolve_startup_secret(
    configured_value: Option<String>,
    platform_secret: Option<String>,
    tenant_secret: Option<String>,
) -> (r: Option<String>)
    ensures
        opt_string(r) == startup_secret(
            opt_string(configured_value),
            opt_string(platform_secret),
            opt_string(tenant_secret),
        ),
{
    match configured_value {
        Some(v) => {
            if !trim(v.as_str()).is_empty() {
                return Some(v);
            }
        },
        None => {},
    }
    match platform_secret {
        Some(p) => Some(p),
        None => tenant_secret,
    }
}

/// The configured LLM credentials, in the order startup prefers them.
pub struct LlmCredentials {
    pub anthropic_api_key: Option<String>,
    pub openrouter_api_key: Option<String>,
    pub huggingface_api_key: Option<String>,
    pub fireworks_api_key: Option<String>,
    pub sakana_fugu_api_key: Option<String>,
    pub openai_compatible_api_key: Option<String>,
    pub openai_compatible_api_url: Option<String>,
    pub local_openai_api_url: Option<String>,
    pub openai_api_key: Option<String>,
    pub openai_codex_token: Option<String>,
}

/// The credentials in order of preference.
pub open spec fn credential_order(c: LlmCredentials) -> Seq<Option<String>> {
    seq![
        c.anthropic_api_key,
        c.openrouter_api_key,
        c.huggingface_api_key,
        c.fireworks_api_key,
        c.sakana_fugu_api_key,
        c.openai_compatible_api_key,
        c.openai_compatible_api_url,
        c.local_openai_api_url,
        c.openai_api_key,
        c.openai_codex_token,
    ]
}

/// The first present value.
pub open spec fn first_present(s: Seq<Option<String>>) -> Option<Seq<char>>
    decreases s.len(),
{
    if s.len() == 0 {
        None
    } else {
        match s[0] {
            Some(v) => Some(v@),
            None => first_present(s.drop_first()),
        }
    }
}

/// The LLM API key that the platform state gets: the first configured credential.
pub fn llm_api_key(creds: &LlmCredentials) -> (r: Option<String>)
    ensures
        opt_string(r) == first_present(credential_order(*creds)),
{
    let order: [&Option<String>; 10] = [
        &creds.anthropic_api_key,
        &creds.openrouter_api_key,
        &creds.huggingface_api_key,
        &creds.fireworks_api_key,
        &creds.sakana_fugu_api_key,
        &creds.openai_compatible_api_key,
        &creds.openai_compatible_api_url,
        &creds.local_openai_api_url,
        &creds.openai_api_key,
        &creds.openai_codex_token,
    ];
    let ghost all = credential_order(*creds);
    proof {
        assert forall|k: int| 0 <= k < 10 implies *order@[k] == all[k] by {}
        assert(all.skip(0) =~= all);
    }
    let mut i: usize = 0;
    while i < 10
        invariant
            i <= 10,
            all == credential_order(*creds),
            all.len() == 10,
            forall|k: int| 0 <= k < 10 ==> *order@[k] == all[k],
            first_present(all) == first_present(all.skip(i as int)),
        decreases 10 - i,
    {
        assert(all.skip(i as int).drop_first() =~= all.skip(i + 1));
        assert(all.skip(i as int)[0] == all[i as int]);
        let entry = order[i];
        assert(*entry == all[i as int]);
        match entry {
            Some(v) => {
                assert(first_present(all.skip(i as int)) == Some(v@));
                return Some(v.clone());
            },
            None => {},
        }
        i = i + 1;
    }
    None
}

/// What startup reports about the sandbox provider.
#[derive(Debug, Clone, PartialEq, Eq)]
pub enum SandboxStatus {
    /// Tensorlake with an API key.
    TensorlakeReady,
    /// Tensorlake without an API key: provisioning will fail.
    TensorlakeMissingKey,
    /// Modal with token and bridge.
    ModalReady,
    /// Modal with a token but no bridge URL.
    ModalMissingBridge,
    /// Modal without token id or secret.
    ModalMissingToken,
    /// A provider that is not supported.
    Unsupported,
}

/// The status of the sandbox provider (Tensorlake where none is configured) given which of
/// its credentials are present.
pub open spec fn sandbox_status(
    provider: Option<Seq<char>>,
    tensorlake_api_key: bool,
    modal_token_id: bool,
    modal_token_secret: bool,
    modal_bridge_url: bool,
) -> SandboxStatus {
    let p = match provider {
        Some(p) => p,
        None => "tensorlake"@,
    };
    if p == "tensorlake"@ {
        if tensorlake_api_key {
            SandboxStatus::TensorlakeReady
        } else {
            SandboxStatus::TensorlakeMissingKey
        }
    } else if p == "modal"@ {
        if modal_token_id && modal_token_secret && modal_bridge_url {
            SandboxStatus::ModalReady
        } else if modal_token_id && modal_token_secret {
            SandboxStatus::ModalMissingBridge
        } else {
            SandboxStatus::ModalMissingToken
        }
    } else {
        SandboxStatus::Unsupported
    }
}

/// The status of the sandbox provider.
pub fn sandbox_provider_status(
    provider: Option<&str>,
    tensorlake_api_key: bool,
    modal_token_id: bool,
    modal_token_secret: bool,
    modal_bridge_url: bool,
) -> (r: SandboxStatus)
    ensures
        r == sandbox_status(
            opt_view(provider),
            tensorlake_api_key,
            modal_token_id,
            modal_token_secret,
            modal_bridge_url,
        ),
{
    let p = match provider {
        Some(p) => p,
        None => "tensorlake",
    };
    if str_eq(p, "tensorlake") {
        if tensorlake_api_key {
            SandboxStatus::TensorlakeReady
        } else {
            SandboxStatus::TensorlakeMissingKey
        }
    } else if str_eq(p, "modal") {
        if modal_token_id && modal_token_secret && modal_bridge_url {
            SandboxStatus::ModalReady
        } else if modal_token_id && modal_token_secret {
            SandboxStatus::ModalMissingBridge
        } else {
            SandboxStatus::ModalMissingToken
        }
    } else {
        SandboxStatus::Unsupported
    }
}

/// The error when startup runs on Railway without an external blob store.
pub const BLOB_ENDPOINT_REQUIRED: &'static str = "BLOB_ENDPOINT is required on Railway; blob bytes must be stored in R2/S3, not in the database";

/// Where blob content and published artifacts are stored.
#[derive(Debug, Clone, PartialEq, Eq)]
pub struct BlobSettings {
    pub blob_endpoint: String,
    pub blob_bucket: String,
    /// The published-artifact store; publishing is disabled without one.
    pub published_endpoint: Option<String>,
    pub published_bucket: String,
    pub published_public_base_url: Option<String>,
}

/// The configured blob-store values, each `None` where its variable is unset.
pub struct BlobEnvironment {
    pub blob_endpoint: Option<String>,
    pub blob_bucket: Option<String>,
    pub published_endpoint: Option<String>,
    pub published_bucket: Option<String>,
    pub published_public_base_url: Option<String>,
}

/// `s.trim_start_matches(c)`.
pub open spec fn strip_leading(s: Seq<char>, c: char) -> Seq<char>
    decreases s.len(),
{
    if s.len() > 0 && s[0] == c {
        strip_leading(s.drop_first(), c)
    } else {
        s
    }
}

fn strip_leading_chars(v: &Vec<char>, c: char) -> (r: Vec<char>)
    ensures
        r@ == strip_leading(v@, c),
{
    let mut i: usize = 0;
    assert(v@.skip(0) =~= v@);
    while i < v.len() && v[i] == c
        invariant
            i <= v@.len(),
            strip_leading(v@, c) == strip_leading(v@.skip(i as int), c),
        decreases v@.len() - i,
    {
        assert(v@.skip(i as int).drop_first() =~= v@.skip(i + 1));
        i = i + 1;
    }
    let r = slice_chars(v, i, v.len());
    assert(r@ =~= v@.skip(i as int));
    r
}

/// `o.filter(|v| !v.trim().is_empty())`.
pub open spec fn set_and_not_blank(o: Option<Seq<char>>) -> Option<Seq<char>> {
    match o {
        Some(v) => if trim_seq(v).len() > 0 {
            Some(v)
        } else {
            None
        },
        None => None,
    }
}

/// The local blob route of the server on `port`.
pub open spec fn local_blob_endpoint(port: u16) -> Seq<char> {
    "http://127.0.0.1:"@ + decimal(port as nat) + "/_internal/blobs"@
}

/// The blob settings: the configured blob endpoint, or the local route off Railway; the
/// published store, defaulting off Railway to the blob endpoint, with its public base URL
/// defaulting off Railway to the endpoint and bucket joined.
pub open spec fn blob_settings_spec(env: BlobEnvironment, on_railway: bool, port: u16) -> Option<
    (Seq<char>, Seq<char>, Option<Seq<char>>, Seq<char>, Option<Seq<char>>),
> {
    let endpoint = match env.blob_endpoint {
        Some(e) => Some(e@),
        None => if on_railway {
            None
        } else {
            Some(local_blob_endpoint(port))
        },
    };
    match endpoint {
        None => None,
        Some(endpoint) => {
            let bucket = match env.blob_bucket {
                Some(b) => b@,
                None => "temper-fs"@,
            };
            let published = match set_and_not_blank(opt_string(env.published_endpoint)) {
                Some(p) => Some(p),
                None => if on_railway {
                    None
                } else {
                    Some(endpoint)
                },
            };
            let published_bucket = match set_and_not_blank(opt_string(env.published_bucket)) {
                Some(b) => b,
                None => "published-artifacts"@,
            };
            let base_url = match set_and_not_blank(opt_string(env.published_public_base_url)) {
                Some(u) => Some(u),
                None => if on_railway {
                    None
                } else {
                    match published {
                        Some(p) => Some(
                            strip_trailing(p, '/') + "/"@ + strip_leading(
                                strip_trailing(published_bucket, '/'),
                                '/',
                            ),
                        ),
                        None => None,
                    }
                },
            };
            Some((endpoint, bucket, published, published_bucket, base_url))
        },
    }
}

fn nonblank_owned(o: &Option<String>) -> (r: Option<String>)
    ensures
        opt_string(r) == set_and_not_blank(opt_string(*o)),
{
    match o {
        Some(v) => if trim(v.as_str()).is_empty() {
            None
        } else {
            Some(v.clone())
        },
        None => None,
    }
}

/// The blob settings of the server on `port`; an error on Railway without a configured blob
/// endpoint.
pub fn blob_settings(env: &BlobEnvironment, on_railway: bool, port: u16) -> (r: Result<
    BlobSettings,
    String,
>)
    ensures
        match r {
            Ok(s) => blob_settings_spec(*env, on_railway, port) == Some(
                (
                    s.blob_endpoint@,
                    s.blob_bucket@,
                    opt_string(s.published_endpoint),
                    s.published_bucket@,
                    opt_string(s.published_public_base_url),
                ),
            ),
            Err(e) => blob_settings_spec(*env, on_railway, port) is None && e@
                == BLOB_ENDPOINT_REQUIRED@,
        },
{
    let blob_endpoint = match &env.blob_endpoint {
        Some(e) => e.clone(),
        None => if on_railway {
            return Err(owned(BLOB_ENDPOINT_REQUIRED));
        } else {
            let mut v = chars("http://127.0.0.1:");
            append_chars(&mut v, &decimal_chars(port as u64));
            append_str(&mut v, "/_internal/blobs");
            string_from_chars(&v)
        },
    };
    let blob_bucket = match &env.blob_bucket {
        Some(b) => b.clone(),
        None => owned("temper-fs"),
    };
    let published_endpoint = match nonblank_owned(&env.published_endpoint) {
        Some(p) => Some(p),
        None => if on_railway {
            None
        } else {
            Some(blob_endpoint.clone())
        },
    };
    let published_bucket = match nonblank_owned(&env.published_bucket) {
        Some(b) => b,
        None => owned("published-artifacts"),
    };
    let published_public_base_url = match nonblank_owned(&env.published_public_base_url) {
        Some(u) => Some(u),
        None => if on_railway {
            None
        } else {
            match &published_endpoint {
                Some(p) => {
                    let mut v = strip_trailing_chars(&chars(p.as_str()), '/');
                    append_str(&mut v, "/");
                    let b = strip_leading_chars(
                        &strip_trailing_chars(&chars(published_bucket.as_str()), '/'),
                        '/',
                    );
                    append_chars(&mut v, &b);
                    Some(string_from_chars(&v))
                },
                None => None,
            }
        },
    };
    Ok(
        BlobSettings {
            blob_endpoint,
            blob_bucket,
            published_endpoint,
            published_bucket,
            published_public_base_url,
        },
    )
}

/// Whether session cookies are marked `Secure`: when the public base URL is HTTPS.
pub fn cookie_secure(public_base_url: Option<&str>) -> (r: bool)
    ensures
        r == match public_base_url {
            Some(u) => has_prefix(u@, "https://"@),
            None => false,
        },
{
    match public_base_url {
        Some(u) => starts_with(u, "https://"),
        None => false,
    }
}

/// Whether a stored secret is set and not blank.
pub fn secret_present(value: Option<&str>) -> (r: bool)
    ensures
        r == (set_and_not_blank(opt_view(value)) is Some),
{
    match value {
        Some(v) => !trim(v).is_empty(),
        None => false,
    }
}

/// The API key cached in the key file, trimmed; `None` where it is blank.
pub fn cached_api_key(contents: &str) -> (r: Option<String>)
    ensures
        match r {
            Some(k) => trim_seq(contents@).len() > 0 && k@ == trim_seq(contents@),
            None => trim_seq(contents@).len() == 0,
        },
{
    let t = trim(contents);
    if t.is_empty() {
        None
    } else {
        Some(owned(t))
    }
}

/// The LLM provider and model that agents are bootstrapped with: each the stored value,
/// else the configured one; none unless both are known, so that no default is made up.
pub fn resolve_llm_selection(
    stored_provider: Option<String>,
    configured_provider: Option<String>,
    stored_model: Option<String>,
    configured_model: Option<String>,
) -> (r: Option<(String, String)>)
    ensures
        ({
            let provider = match opt_string(stored_provider) {
                Some(p) => Some(p),
                None => opt_string(configured_provider),
            };
            let model = match opt_string(stored_model) {
                Some(m) => Some(m),
                None => opt_string(configured_model),
            };
            match r {
                Some((p, m)) => provider == Some(p@) && model == Some(m@),
                None => provider is None || model is None,
            }
        }),
{
    let provider = match stored_provider {
        Some(p) => Some(p),
        None => configured_provider,
    };
    let model = match stored_model {
        Some(m) => Some(m),
        None => configured_model,
    };
    match (provider, model) {
        (Some(p), Some(m)) => Some((p, m)),
        _ => None,
    }
}

} // verus!
