use temperpaw::accounts::Accounts;
use temperpaw::auth::{
    access_decision, auth_error_response, change_password_impl, has_bearer_auth, hash_password,
    is_dashboard_public_path, is_public_path, is_safe_setup_path_public_during_bootstrap,
    issue_claims, issue_claims_at, login_impl, new_password_precheck, normalize_email,
    now_epoch_secs, reads_default_tenant_accounts, register_impl, session_cookie_value,
    session_token_from_cookie_value, validate_password, verify_password, AccessDecision,
    AuthError, AuthRoute, ChangePasswordRequest, Credentials, SESSION_DURATION_SECS,
};

fn credentials(email: &str, password: &str) -> Credentials {
    Credentials {
        email: email.to_string(),
        password: password.to_string(),
    }
}

#[test]
fn webhook_trigger_paths_are_public_for_external_providers() {
    assert!(
        is_public_path("POST", "/triggers/webhook/patrol-datadog"),
        "external webhook providers cannot send Temper bearer auth"
    );
}

#[test]
fn public_paths_cover_auth_probes_and_dashboard_assets() {
    assert!(is_public_path("POST", "/auth/login"));
    assert!(is_public_path("GET", "/healthz"));
    assert!(is_public_path("GET", "/tdata"));
    assert!(!is_public_path("POST", "/tdata"));
    assert!(!is_public_path("GET", "/tdata/Agents"));
    assert!(is_dashboard_public_path("/dashboard/login"));
    assert!(is_dashboard_public_path("/dashboard/_app/start.js"));
    assert!(is_dashboard_public_path("/dashboard/logo.png"));
    assert!(!is_dashboard_public_path("/dashboard/settings"));
}

#[test]
fn setup_metadata_is_public_only_before_the_first_account() {
    assert!(is_safe_setup_path_public_during_bootstrap("GET", "/paw/setup/status", Some(0)));
    assert!(!is_safe_setup_path_public_during_bootstrap("GET", "/paw/setup/status", Some(1)));
    assert!(!is_safe_setup_path_public_during_bootstrap("GET", "/paw/setup/status", None));
    assert!(!is_safe_setup_path_public_during_bootstrap(
        "GET",
        "/paw/setup/secrets/discord_bot_token",
        Some(0)
    ));
}

#[test]
fn access_decisions_follow_credentials() {
    assert!(matches!(
        access_decision("GET", "/healthz", false, None, false),
        AccessDecision::Public
    ));
    match access_decision("GET", "/tdata/Agents", false, Some("a@b.c".to_string()), true) {
        AccessDecision::Session { email } => assert_eq!(email, "a@b.c"),
        _ => panic!("a session is used"),
    }
    assert!(matches!(
        access_decision("GET", "/tdata/Agents", false, None, true),
        AccessDecision::Bearer
    ));
    assert!(matches!(
        access_decision("GET", "/dashboard/settings", false, None, false),
        AccessDecision::RedirectToLogin
    ));
    assert!(matches!(
        access_decision("GET", "/tdata/Agents", false, None, false),
        AccessDecision::Unauthorized
    ));
    assert!(has_bearer_auth(Some("Bearer abc")));
    assert!(!has_bearer_auth(Some("Basic abc")));
}

#[test]
fn session_cookies_carry_the_token() {
    let value = session_cookie_value("tok.en=x");
    assert_eq!(value, "paw_session=tok.en=x");
    assert_eq!(session_token_from_cookie_value(&value), "tok.en=x");
    assert_eq!(session_token_from_cookie_value("nothing"), "");
    assert!(reads_default_tenant_accounts("acme"));
    assert!(!reads_default_tenant_accounts("default"));
}

#[test]
fn emails_and_passwords_are_validated() {
    assert_eq!(normalize_email("  Owner@Example.COM ").ok(), Some("owner@example.com".to_string()));
    assert!(matches!(normalize_email("nobody"), Err(AuthError::Validation(_))));
    assert!(validate_password("correct horse").is_ok());
    assert!(matches!(validate_password("  short  "), Err(AuthError::Validation(_))));
    assert_eq!(
        new_password_precheck("short").as_deref(),
        Some("New password must be at least 8 characters")
    );
    assert_eq!(new_password_precheck("long enough"), None);
}

#[test]
fn password_hashes_verify_only_their_password() {
    let hash = hash_password("correct horse battery staple").expect("hash");
    assert!(verify_password("correct horse battery staple", &hash));
    assert!(!verify_password("wrong password", &hash));
    assert!(!verify_password("anything", "not a phc string"));
}

#[test]
fn register_is_first_account_only() {
    let mut accounts = Accounts::new();
    let claims = register_impl(
        &mut accounts,
        &credentials("Owner@Example.com", "correct horse battery staple"),
        1000,
    )
    .ok()
    .expect("the first account registers");
    assert_eq!(claims.email, "owner@example.com");
    assert_eq!(claims.provider, "local");
    assert_eq!(claims.exp, 1000 + SESSION_DURATION_SECS);
    assert!(!accounts.is_empty());

    let second = register_impl(
        &mut accounts,
        &credentials("another@example.com", "another secret"),
        2000,
    );
    match second {
        Err(AuthError::Conflict(m)) => {
            assert_eq!(m, "An account already exists for this deployment")
        }
        _ => panic!("a second account is refused"),
    }
    assert!(accounts.get("another@example.com").is_none());
}

#[test]
fn registered_account_signs_in_and_wrong_password_fails() {
    let mut accounts = Accounts::new();
    register_impl(&mut accounts, &credentials("owner@example.com", "correct horse battery"), 10)
        .ok()
        .expect("registered");
    let claims = login_impl(&accounts, &credentials(" OWNER@example.com ", "correct horse battery"), 20)
        .ok()
        .expect("signs in");
    assert_eq!(claims.email, "owner@example.com");
    match login_impl(&accounts, &credentials("owner@example.com", "wrong horse battery"), 20) {
        Err(AuthError::Conflict(m)) => assert_eq!(m, "Invalid email or password"),
        _ => panic!("a wrong password fails"),
    }
    match login_impl(&accounts, &credentials("bad", "whatever"), 20) {
        Err(AuthError::Validation(m)) => assert_eq!(m, "A valid email address is required"),
        _ => panic!("a malformed email fails"),
    }
}

#[test]
fn password_change_takes_effect() {
    let mut accounts = Accounts::new();
    register_impl(&mut accounts, &credentials("owner@example.com", "first password"), 10)
        .ok()
        .expect("registered");
    let wrong = change_password_impl(
        &mut accounts,
        "owner@example.com",
        &ChangePasswordRequest {
            current_password: "not the password".to_string(),
            new_password: "second password".to_string(),
        },
    );
    assert!(matches!(wrong, Err(AuthError::Conflict(_))));
    change_password_impl(
        &mut accounts,
        "owner@example.com",
        &ChangePasswordRequest {
            current_password: "first password".to_string(),
            new_password: "second password".to_string(),
        },
    )
    .ok()
    .expect("changed");
    assert!(login_impl(&accounts, &credentials("owner@example.com", "second password"), 20).is_ok());
    assert!(login_impl(&accounts, &credentials("owner@example.com", "first password"), 20).is_err());
    let missing = change_password_impl(
        &mut accounts,
        "nobody@example.com",
        &ChangePasswordRequest {
            current_password: "x".to_string(),
            new_password: "third password".to_string(),
        },
    );
    match missing {
        Err(AuthError::Conflict(m)) => assert_eq!(m, "Account not found"),
        _ => panic!("an unknown account fails"),
    }
}

#[test]
fn auth_errors_map_to_route_statuses() {
    let (status, message) =
        auth_error_response(AuthRoute::Register, &AuthError::Conflict("taken".to_string()));
    assert_eq!((status, message.as_str()), (403, "taken"));
    let (status, _) = auth_error_response(AuthRoute::Login, &AuthError::Validation("v".to_string()));
    assert_eq!(status, 401);
    let (status, message) =
        auth_error_response(AuthRoute::ChangePassword, &AuthError::Storage("disk".to_string()));
    assert_eq!((status, message.as_str()), (500, "Could not update password"));
}

#[test]
fn session_claims_expire_a_week_after_issue() {
    let claims = issue_claims_at("a@b.c", 100);
    assert_eq!(claims.exp, 100 + 7 * 24 * 60 * 60);
    let now = now_epoch_secs();
    let claims = issue_claims("a@b.c");
    assert!(claims.exp >= now + SESSION_DURATION_SECS);
    assert_eq!(claims.provider, "local");
}
