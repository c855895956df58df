use temperpaw::keys::{
    decode_vault_key, encode_vault_key, generate_temper_api_key, new_vault_key,
    vault_key_from_env, vault_key_from_file, VaultKeyDecode,
};
use temperpaw::settings::{
    blob_settings, cached_api_key, resolve_llm_selection, cookie_secure, llm_api_key,
    resolve_startup_secret, sandbox_provider_status, secret_present, BlobEnvironment,
    LlmCredentials, SandboxStatus, BLOB_ENDPOINT_REQUIRED,
};

fn no_blob_env() -> BlobEnvironment {
    BlobEnvironment {
        blob_endpoint: None,
        blob_bucket: None,
        published_endpoint: None,
        published_bucket: None,
        published_public_base_url: None,
    }
}

fn no_credentials() -> LlmCredentials {
    LlmCredentials {
        anthropic_api_key: None,
        openrouter_api_key: None,
        huggingface_api_key: None,
        fireworks_api_key: None,
        sakana_fugu_api_key: None,
        openai_compatible_api_key: None,
        openai_compatible_api_url: None,
        local_openai_api_url: None,
        openai_api_key: None,
        openai_codex_token: None,
    }
}

#[test]
fn sandbox_secret_resolution_prefers_deploy_values_over_tenant_overrides() {
    let resolved = resolve_startup_secret(
        Some("fresh-env-token".to_string()),
        Some("fresh-platform-token".to_string()),
        Some("stale-tenant-token".to_string()),
    );

    assert_eq!(resolved.as_deref(), Some("fresh-env-token"));
}

#[test]
fn sandbox_secret_resolution_prefers_platform_cache_over_tenant_overrides() {
    let resolved = resolve_startup_secret(
        None,
        Some("fresh-platform-token".to_string()),
        Some("stale-tenant-token".to_string()),
    );

    assert_eq!(resolved.as_deref(), Some("fresh-platform-token"));
}

#[test]
fn sandbox_secret_resolution_falls_back_to_tenant_override_without_deploy_values() {
    let resolved = resolve_startup_secret(None, None, Some("tenant-token".to_string()));

    assert_eq!(resolved.as_deref(), Some("tenant-token"));
}

#[test]
fn blank_configured_secret_is_ignored() {
    let resolved = resolve_startup_secret(Some("   ".to_string()), None, Some("t".to_string()));
    assert_eq!(resolved.as_deref(), Some("t"));
    assert_eq!(resolve_startup_secret(None, None, None), None);
}

#[test]
fn llm_key_follows_provider_preference() {
    let mut creds = no_credentials();
    assert_eq!(llm_api_key(&creds), None);
    creds.openai_codex_token = Some("codex".to_string());
    creds.fireworks_api_key = Some("fireworks".to_string());
    assert_eq!(llm_api_key(&creds).as_deref(), Some("fireworks"));
    creds.anthropic_api_key = Some("anthropic".to_string());
    assert_eq!(llm_api_key(&creds).as_deref(), Some("anthropic"));
}

#[test]
fn sandbox_provider_status_checks_credentials() {
    assert_eq!(
        sandbox_provider_status(None, true, false, false, false),
        SandboxStatus::TensorlakeReady
    );
    assert_eq!(
        sandbox_provider_status(None, false, true, true, true),
        SandboxStatus::TensorlakeMissingKey
    );
    assert_eq!(
        sandbox_provider_status(Some("modal"), false, true, true, true),
        SandboxStatus::ModalReady
    );
    assert_eq!(
        sandbox_provider_status(Some("modal"), false, true, true, false),
        SandboxStatus::ModalMissingBridge
    );
    assert_eq!(
        sandbox_provider_status(Some("modal"), true, true, false, true),
        SandboxStatus::ModalMissingToken
    );
    assert_eq!(
        sandbox_provider_status(Some("docker"), true, true, true, true),
        SandboxStatus::Unsupported
    );
}

#[test]
fn local_blob_settings_default_to_the_internal_route() {
    let settings = blob_settings(&no_blob_env(), false, 4200).expect("local settings");
    assert_eq!(settings.blob_endpoint, "http://127.0.0.1:4200/_internal/blobs");
    assert_eq!(settings.blob_bucket, "temper-fs");
    assert_eq!(
        settings.published_endpoint.as_deref(),
        Some("http://127.0.0.1:4200/_internal/blobs")
    );
    assert_eq!(settings.published_bucket, "published-artifacts");
    assert_eq!(
        settings.published_public_base_url.as_deref(),
        Some("http://127.0.0.1:4200/_internal/blobs/published-artifacts")
    );
}

#[test]
fn railway_requires_an_external_blob_endpoint() {
    let error = blob_settings(&no_blob_env(), true, 4200).unwrap_err();
    assert_eq!(error, BLOB_ENDPOINT_REQUIRED);

    let mut env = no_blob_env();
    env.blob_endpoint = Some("https://r2.example.com".to_string());
    let settings = blob_settings(&env, true, 4200).expect("railway settings");
    assert_eq!(settings.blob_endpoint, "https://r2.example.com");
    assert_eq!(settings.published_endpoint, None);
    assert_eq!(settings.published_public_base_url, None);
}

#[test]
fn published_base_url_joins_endpoint_and_bucket() {
    let mut env = no_blob_env();
    env.published_endpoint = Some("https://pub.example.com//".to_string());
    env.published_bucket = Some("/artifacts/".to_string());
    let settings = blob_settings(&env, false, 80).expect("settings");
    assert_eq!(
        settings.published_public_base_url.as_deref(),
        Some("https://pub.example.com/artifacts")
    );
    env.published_public_base_url = Some("https://cdn.example.com".to_string());
    env.published_bucket = Some("  ".to_string());
    let settings = blob_settings(&env, false, 80).expect("settings");
    assert_eq!(settings.published_bucket, "published-artifacts");
    assert_eq!(
        settings.published_public_base_url.as_deref(),
        Some("https://cdn.example.com")
    );
}

#[test]
fn cookies_are_secure_behind_https() {
    assert!(cookie_secure(Some("https://paw.example.com")));
    assert!(!cookie_secure(Some("http://localhost:4200")));
    assert!(!cookie_secure(None));
}

#[test]
fn stored_secrets_are_read_trimmed() {
    assert!(secret_present(Some("token")));
    assert!(!secret_present(Some("  ")));
    assert!(!secret_present(None));
}

#[test]
fn cached_api_key_is_trimmed() {
    assert_eq!(cached_api_key(" abc \n").as_deref(), Some("abc"));
    assert_eq!(cached_api_key("\n"), None);
}

#[test]
fn vault_keys_round_trip_through_base64() {
    let (key, text) = new_vault_key();
    assert_eq!(text.len(), 44);
    assert_eq!(encode_vault_key(&key), text);
    match decode_vault_key(&text) {
        VaultKeyDecode::Key(decoded) => assert_eq!(decoded, key),
        _ => panic!("a saved key decodes"),
    }
    assert_eq!(vault_key_from_file(&format!("  {text}\n")), Some(key));
    assert_eq!(vault_key_from_env(&text), key);
}

#[test]
fn vault_key_encoding_is_standard_base64() {
    let key = [0u8; 32];
    assert_eq!(
        encode_vault_key(&key),
        "AAAAAAAAAAAAAAAAAAAAAAAAAAAAAAAAAAAAAAAAAAA="
    );
    let mut key = [255u8; 32];
    key[0] = 0xfb;
    assert!(encode_vault_key(&key).starts_with("+/"));
}

#[test]
fn malformed_vault_keys_are_rejected() {
    assert!(matches!(decode_vault_key("not base64!"), VaultKeyDecode::Invalid));
    assert!(matches!(decode_vault_key("AAAA"), VaultKeyDecode::WrongLength(3)));
    assert!(matches!(decode_vault_key("AAB="), VaultKeyDecode::Invalid));
    assert!(matches!(decode_vault_key("AAA"), VaultKeyDecode::Invalid));
    assert_eq!(vault_key_from_file("AAAA"), None);
    let ephemeral = vault_key_from_env("AAAA");
    assert_eq!(ephemeral.len(), 32);
}

#[test]
fn api_keys_are_64_lowercase_hex_digits() {
    let key = generate_temper_api_key();
    assert_eq!(key.len(), 64);
    assert!(key.chars().all(|c| c.is_ascii_hexdigit() && !c.is_ascii_uppercase()));
    assert_ne!(key, generate_temper_api_key());
}

#[test]
fn llm_selection_needs_both_provider_and_model() {
    assert_eq!(
        resolve_llm_selection(
            Some("stored-p".to_string()),
            Some("config-p".to_string()),
            None,
            Some("config-m".to_string())
        ),
        Some(("stored-p".to_string(), "config-m".to_string()))
    );
    assert_eq!(
        resolve_llm_selection(None, Some("p".to_string()), None, None),
        None
    );
    assert_eq!(resolve_llm_selection(None, None, Some("m".to_string()), None), None);
}
