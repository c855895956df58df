//! Authentication rules for the embedded dashboard and API: which requests pass
//! without credentials, what a request is answered when it has none, and the local
//! account flows (registration of the first account, sign-in, password change).

use argon2::password_hash::{PasswordHasher, PasswordVerifier};
use vstd::prelude::*;

use crate::accounts::{Accounts, LocalAccount};
use crate::text::{
    append_str, chars, chars_contain, chars_eq_str, chars_start_with_str, find_char,
    find_char_index, has_prefix, lemma_find_char_bounds, owned, slice_chars, str_eq,
    string_from_chars, to_lowercase, trim, trim_chars, trim_seq, unicode_lowercase, utf8_len, utf8_len_at_least,
};

verus! {

/// Name of the cookie that carries the session token.
pub const SESSION_COOKIE: &'static str = "paw_session";

/// Lifetime of a session, in seconds (one week).
pub const SESSION_DURATION_SECS: usize = 60 * 60 * 24 * 7;

/// Name of the tenant secret under which the accounts are stored.
pub const ACCOUNTS_SECRET_KEY: &'static str = "auth_accounts";

/// Whether the last `/`-separated segment of `p` contains a `.`.
pub open spec fn last_segment_has_dot(p: Seq<char>) -> bool {
    exists|i: int|
        0 <= i < p.len() && #[trigger] p[i] == '.' && (forall|j: int| i < j < p.len() ==> p[j]
            != '/')
}

/// Dashboard paths that are served without a session: the login page and static assets.
pub open spec fn dashboard_public_path(p: Seq<char>) -> bool {
    ||| p == "/dashboard/login"@
    ||| p == "/dashboard/login/"@
    ||| has_prefix(p, "/dashboard/_app/"@)
    ||| p == "/dashboard/favicon.svg"@
    ||| p == "/dashboard/robots.txt"@
    ||| has_prefix(p, "/dashboard/"@) && last_segment_has_dot(p)
}

/// Requests that pass without any credentials.
pub open spec fn public_path(method: Seq<char>, p: Seq<char>) -> bool {
    ||| has_prefix(p, "/auth/"@)
    ||| p == "/auth"@
    ||| p == "/healthz"@
    ||| p == "/readyz"@
    ||| has_prefix(p, "/discord/interaction"@)
    ||| has_prefix(p, "/triggers/webhook/"@)
    ||| method == "GET"@ && (p == "/tdata"@ || p == "/tdata/"@)
    ||| dashboard_public_path(p)
}

fn last_segment_contains_dot(v: &Vec<char>) -> (r: bool)
    ensures
        r == last_segment_has_dot(v@),
{
    let mut k: usize = v.len();
    while k > 0 && v[k - 1] != '/'
        invariant
            k <= v@.len(),
            forall|j: int| k <= j < v@.len() ==> v@[j] != '/' && v@[j] != '.',
        decreases k,
    {
        if v[k - 1] == '.' {
            assert(v@[k - 1] == '.' && (forall|j: int| k - 1 < j < v@.len() ==> v@[j] != '/'));
            return true;
        }
        k = k - 1;
    }
    assert forall|i: int|
        0 <= i < v@.len() && #[trigger] v@[i] == '.' implies !(forall|j: int|
        i < j < v@.len() ==> v@[j] != '/') by {
        assert(i < k);
        assert(v@[k - 1] == '/');
    }
    false
}

/// Whether `path` is a dashboard path served without a session.
pub fn is_dashboard_public_path(path: &str) -> (r: bool)
    ensures
        r == dashboard_public_path(path@),
{
    let p = chars(path);
    if chars_eq_str(&p, "/dashboard/login") || chars_eq_str(&p, "/dashboard/login/") {
        return true;
    }
    chars_start_with_str(&p, "/dashboard/_app/") || chars_eq_str(&p, "/dashboard/favicon.svg")
        || chars_eq_str(&p, "/dashboard/robots.txt") || (chars_start_with_str(&p, "/dashboard/")
        && last_segment_contains_dot(&p))
}

/// Whether a request with this method and path passes without credentials.
pub fn is_public_path(method: &str, path: &str) -> (r: bool)
    ensures
        r == public_path(method@, path@),
{
    let p = chars(path);
    chars_start_with_str(&p, "/auth/") || chars_eq_str(&p, "/auth") || chars_eq_str(&p, "/healthz")
        || chars_eq_str(&p, "/readyz") || chars_start_with_str(&p, "/discord/interaction")
        || chars_start_with_str(&p, "/triggers/webhook/") || (str_eq(method, "GET") && (
    chars_eq_str(&p, "/tdata") || chars_eq_str(&p, "/tdata/"))) || is_dashboard_public_path(path)
}

/// Setup metadata routes that are public until the first account exists.
pub open spec fn safe_bootstrap_path(method: Seq<char>, p: Seq<char>) -> bool {
    method == "GET"@ && (p == "/paw/setup/status"@ || p == "/paw/setup/secrets/schema"@)
}

/// Whether the request is one of the setup metadata routes that may be public during bootstrap.
pub fn is_safe_bootstrap_path(method: &str, path: &str) -> (r: bool)
    ensures
        r == safe_bootstrap_path(method@, path@),
{
    str_eq(method, "GET") && (str_eq(path, "/paw/setup/status") || str_eq(
        path,
        "/paw/setup/secrets/schema",
    ))
}

/// Whether a setup metadata route passes without credentials: only while no account exists.
/// `registered_accounts` is the number of stored accounts, `None` where they could not be read.
pub fn is_safe_setup_path_public_during_bootstrap(
    method: &str,
    path: &str,
    registered_accounts: Option<usize>,
) -> (r: bool)
    ensures
        r == (safe_bootstrap_path(method@, path@) && registered_accounts == Some(0usize)),
{
    if !is_safe_bootstrap_path(method, path) {
        return false;
    }
    match registered_accounts {
        Some(n) => n == 0,
        None => false,
    }
}

/// Whether an `Authorization` header value carries a bearer token.
pub fn has_bearer_auth(authorization: Option<&str>) -> (r: bool)
    ensures
        r == (authorization matches Some(v) && has_prefix(v@, "Bearer "@)),
{
    match authorization {
        Some(v) => crate::text::starts_with(v, "Bearer "),
        None => false,
    }
}

/// How a request is treated by the authentication layer.
pub enum AccessDecision {
    /// Forwarded without credentials.
    Public,
    /// Forwarded as the administrator signed in with this session.
    Session { email: String },
    /// Forwarded with its bearer token, for the runtime to check.
    Bearer,
    /// A dashboard page: redirected to the login page.
    RedirectToLogin,
    /// Answered 401.
    Unauthorized,
}

/// What the authentication layer does with a request.
/// `setup_public` says whether the request is a setup route public during bootstrap,
/// `session_email` is the email of a valid session cookie, `bearer` whether the request
/// carries a bearer token.
pub fn access_decision(
    method: &str,
    path: &str,
    setup_public: bool,
    session_email: Option<String>,
    bearer: bool,
) -> (r: AccessDecision)
    ensures
        (setup_public || public_path(method@, path@)) ==> r is Public,
        !(setup_public || public_path(method@, path@)) ==> match session_email {
            Some(e) => r matches AccessDecision::Session { email } && email@ == e@,
            None => if bearer {
                r is Bearer
            } else if has_prefix(path@, "/dashboard"@) && !dashboard_public_path(path@) {
                r is RedirectToLogin
            } else {
                r is Unauthorized
            },
        },
{
    if setup_public || is_public_path(method, path) {
        return AccessDecision::Public;
    }
    match session_email {
        Some(email) => AccessDecision::Session { email },
        None => {
            if bearer {
                AccessDecision::Bearer
            } else if crate::text::starts_with(path, "/dashboard") && !is_dashboard_public_path(
                path,
            ) {
                AccessDecision::RedirectToLogin
            } else {
                AccessDecision::Unauthorized
            }
        },
    }
}

/// Whether reading a non-default tenant's accounts falls back to the `default` tenant's.
pub fn reads_default_tenant_accounts(tenant: &str) -> (r: bool)
    ensures
        r == (tenant@ != "default"@),
{
    !str_eq(tenant, "default")
}

/// The `Cookie` header value that carries a session token.
pub fn session_cookie_value(token: &str) -> (r: String)
    ensures
        r@ == SESSION_COOKIE@ + "="@ + token@,
{
    let mut v = chars(SESSION_COOKIE);
    append_str(&mut v, "=");
    append_str(&mut v, token);
    string_from_chars(&v)
}

/// The text after the first `=` of a cookie value, empty when there is none.
pub open spec fn cookie_token(value: Seq<char>) -> Seq<char> {
    let i = find_char(value, '=');
    if i < 0 {
        Seq::<char>::empty()
    } else {
        value.skip(i + 1)
    }
}

/// The token part of a `name=token` cookie value.
pub fn session_token_from_cookie_value(value: &str) -> (r: String)
    ensures
        r@ == cookie_token(value@),
{
    let v = chars(value);
    let n = v.len();
    match find_char_index(&v, '=') {
        Some(i) => {
            proof {
                lemma_find_char_bounds(v@, '=');
                assert(find_char(v@, '=') == i as int);
                assert(i < v@.len());
            }
            let t = slice_chars(&v, i + 1, n);
            proof {
                assert(t@ =~= v@.skip(i + 1));
            }
            string_from_chars(&t)
        },
        None => String::new(),
    }
}

/// Why an account operation failed.
pub enum AuthError {
    /// The request is malformed; the message says how.
    Validation(String),
    /// The request conflicts with the stored accounts or the credentials are wrong.
    Conflict(String),
    /// The accounts or password hashes could not be computed or stored.
    Storage(String),
}

/// An email and password as submitted.
pub struct Credentials {
    pub email: String,
    pub password: String,
}

/// A password change as submitted.
pub struct ChangePasswordRequest {
    pub current_password: String,
    pub new_password: String,
}

/// The claims of a session token.
pub struct SessionClaims {
    pub email: String,
    pub provider: String,
    pub exp: usize,
}

/// The email as accounts are keyed: trimmed, then lowercased.
pub open spec fn normalized_email(e: Seq<char>) -> Seq<char> {
    unicode_lowercase(trim_seq(e))
}

/// A normalized email is accepted when it is not empty and contains `@`.
pub open spec fn acceptable_email(n: Seq<char>) -> bool {
    n.len() > 0 && n.contains('@')
}

/// A password is accepted when, trimmed, it is at least 8 bytes long in UTF-8.
pub open spec fn acceptable_password(p: Seq<char>) -> bool {
    utf8_len(trim_seq(p)) >= 8
}

pub open spec fn validation_error(e: AuthError, msg: Seq<char>) -> bool {
    e matches AuthError::Validation(m) && m@ == msg
}

pub open spec fn conflict_error(e: AuthError, msg: Seq<char>) -> bool {
    e matches AuthError::Conflict(m) && m@ == msg
}

/// Whether `r` is a validation error with message `msg`.
pub open spec fn fails_validation<T>(r: Result<T, AuthError>, msg: Seq<char>) -> bool {
    r matches Err(e) && validation_error(e, msg)
}

/// Whether `r` is a conflict error with message `msg`.
pub open spec fn fails_conflict<T>(r: Result<T, AuthError>, msg: Seq<char>) -> bool {
    r matches Err(e) && conflict_error(e, msg)
}

/// Normalizes an email for use as an account key.
pub fn normalize_email(email: &str) -> (r: Result<String, AuthError>)
    ensures
        match r {
            Ok(s) => acceptable_email(normalized_email(email@)) && s@ == normalized_email(email@),
            Err(e) => !acceptable_email(normalized_email(email@)) && validation_error(
                e,
                "A valid email address is required"@,
            ),
        },
{
    let normalized = to_lowercase(trim(email));
    let v = chars(normalized.as_str());
    if v.len() == 0 || !chars_contain(&v, '@') {
        return Err(AuthError::Validation(owned("A valid email address is required")));
    }
    Ok(normalized)
}

/// Rejects passwords shorter than 8 bytes once trimmed.
pub fn validate_password(password: &str) -> (r: Result<(), AuthError>)
    ensures
        match r {
            Ok(_) => acceptable_password(password@),
            Err(e) => !acceptable_password(password@) && validation_error(
                e,
                "Password must be at least 8 characters"@,
            ),
        },
{
    let v = chars(password);
    let t = trim_chars(&v);
    if !utf8_len_at_least(&t, 8) {
        return Err(AuthError::Validation(owned("Password must be at least 8 characters")));
    }
    Ok(())
}

/// Whether `password` matches the PHC-format argon2 `hash`, as argon2's verifier decides:
/// the hash string parses and recomputing it with its salt and parameters gives its output.
pub uninterp spec fn password_verifies(password: Seq<char>, hash: Seq<char>) -> bool;

/// The longest password, in bytes, that argon2 hashes.
pub const ARGON2_MAX_PASSWORD_BYTES: u64 = 0xFFFF_FFFF;

/// A character of the unpadded standard base64 in which PHC strings write salts.
pub open spec fn phc_b64_char(c: char) -> bool {
    ||| 'A' <= c <= 'Z'
    ||| 'a' <= c <= 'z'
    ||| '0' <= c <= '9'
    ||| c == '+'
    ||| c == '/'
}

/// A salt as `SaltString::generate` writes it: 16 bytes in unpadded standard base64, that is
/// 22 base64 characters of which the last carries only two bits.
pub open spec fn generated_salt_text(s: Seq<char>) -> bool {
    &&& s.len() == 22
    &&& forall|i: int| 0 <= i < 22 ==> phc_b64_char(#[trigger] s[i])
    &&& (s[21] == 'A' || s[21] == 'Q' || s[21] == 'g' || s[21] == 'w')
}

/// `SaltString::generate` with the operating system's random source: 16 random bytes in
/// unpadded standard base64, returned as their text. Nothing is stated of the bytes.
#[verifier::external_body]
fn generate_salt() -> (salt: String)
    ensures
        generated_salt_text(salt@),
{
    argon2::password_hash::SaltString::generate(&mut argon2::password_hash::rand_core::OsRng)
        .as_str()
        .to_string()
}

/// `Argon2::hash_password` with the default parameters and the salt text `salt`: the PHC
/// string of the hash. A hash it returns verifies against the same password. It succeeds
/// for a generated salt and a password of at most `ARGON2_MAX_PASSWORD_BYTES` bytes: with the
/// default parameters argon2 rejects only longer passwords and salts outside 8 to 64 bytes,
/// and a generated salt decodes to 16.
#[verifier::external_body]
fn hash_password_with_salt(password: &str, salt: &str) -> (r: Result<String, String>)
    ensures
        r matches Ok(h) ==> password_verifies(password@, h@),
        generated_salt_text(salt@) && utf8_len(password@) <= ARGON2_MAX_PASSWORD_BYTES ==> r is Ok,
{
    let salt = match argon2::password_hash::SaltString::from_b64(salt) {
        Ok(salt) => salt,
        Err(error) => return Err(error.to_string()),
    };
    match argon2::Argon2::default().hash_password(password.as_bytes(), &salt) {
        Ok(hash) => Ok(hash.to_string()),
        Err(error) => Err(error.to_string()),
    }
}

/// Hashes a password with argon2 and a fresh random salt. It succeeds for every password of
/// at most `ARGON2_MAX_PASSWORD_BYTES` bytes.
pub fn hash_password(password: &str) -> (r: Result<String, String>)
    ensures
        r matches Ok(h) ==> password_verifies(password@, h@),
        utf8_len(password@) <= ARGON2_MAX_PASSWORD_BYTES ==> r is Ok,
{
    let salt = generate_salt();
    hash_password_with_salt(password, salt.as_str())
}

/// `PasswordHash::new` on the PHC string `hash`, then `Argon2::verify_password` of `password`
/// against it; false where `hash` does not parse. The result is named, not stated.
#[verifier::external_body]
fn argon2_verify(password: &str, hash: &str) -> (r: bool)
    ensures
        r == password_verifies(password@, hash@),
{
    match argon2::password_hash::PasswordHash::new(hash) {
        Ok(parsed) => argon2::Argon2::default().verify_password(password.as_bytes(), &parsed).is_ok(),
        Err(_) => false,
    }
}

/// Whether `password` matches the stored Argon2 hash `hash`.
pub fn verify_password(password: &str, hash: &str) -> (r: bool)
    ensures
        r == password_verifies(password@, hash@),
{
    argon2_verify(password, hash)
}

/// The claims of a session for `email` issued at `now`.
pub open spec fn claims_for(c: SessionClaims, email: Seq<char>, now: usize) -> bool {
    &&& c.email@ == email
    &&& c.provider@ == "local"@
    &&& c.exp == now + SESSION_DURATION_SECS
}

/// Session claims for `email`, issued at `now`, expiring a week later.
pub fn issue_claims_at(email: &str, now: usize) -> (c: SessionClaims)
    requires
        now <= usize::MAX - SESSION_DURATION_SECS,
    ensures
        claims_for(c, email@, now),
{
    SessionClaims { email: owned(email), provider: owned("local"), exp: now + SESSION_DURATION_SECS }
}

/// A reading of the system clock, carried opaquely.
#[verifier::external_type_specification]
#[verifier::external_body]
pub struct ExSystemTime(std::time::SystemTime);

/// `SystemTime::now`.
#[verifier::external_body]
fn system_now() -> std::time::SystemTime {
    std::time::SystemTime::now()
}

/// `SystemTime::duration_since(UNIX_EPOCH)` in whole seconds, `None` for a time before the epoch.
#[verifier::external_body]
fn secs_since_epoch(t: std::time::SystemTime) -> Option<u64> {
    match t.duration_since(std::time::UNIX_EPOCH) {
        Ok(elapsed) => Some(elapsed.as_secs()),
        Err(_) => None,
    }
}

/// Seconds since the Unix epoch by the system clock, 0 when the clock is before it.
pub fn now_epoch_secs() -> usize {
    match secs_since_epoch(system_now()) {
        Some(secs) => secs as usize,
        None => 0,
    }
}

/// Session claims for `email`, issued now. Where the expiry would not fit in a `usize`
/// it is `usize::MAX`.
pub fn issue_claims(email: &str) -> (c: SessionClaims)
    ensures
        c.email@ == email@,
        c.provider@ == "local"@,
        c.exp >= SESSION_DURATION_SECS,
{
    let now = now_epoch_secs();
    if now <= usize::MAX - SESSION_DURATION_SECS {
        issue_claims_at(email, now)
    } else {
        SessionClaims { email: owned(email), provider: owned("local"), exp: usize::MAX }
    }
}

/// The abstract value of the accounts: normalized email to (email, password hash, creation time).
pub type AccountsView = Map<Seq<char>, (Seq<char>, Seq<char>, usize)>;

/// What registering `email`/`password` at time `now` does, from the accounts `before` to
/// the accounts `after`, returning `r`: only the first account can be registered.
pub open spec fn registration_outcome(
    before: AccountsView,
    email: Seq<char>,
    password: Seq<char>,
    now: usize,
    r: Result<SessionClaims, AuthError>,
    after: AccountsView,
) -> bool {
    let n = normalized_email(email);
    if !acceptable_email(n) {
        after == before && fails_validation(r, "A valid email address is required"@,
        )
    } else if !acceptable_password(password) {
        after == before && fails_validation(r, "Password must be at least 8 characters"@,
        )
    } else if before != Map::<Seq<char>, (Seq<char>, Seq<char>, usize)>::empty() {
        after == before && fails_conflict(r, "An account already exists for this deployment"@,
        )
    } else {
        match r {
            Ok(c) => claims_for(c, n, now) && exists|h: Seq<char>|
                password_verifies(password, h) && #[trigger] before.insert(n, (n, h, now))
                    == after,
            Err(e) => e is Storage && after == before && utf8_len(password)
                > ARGON2_MAX_PASSWORD_BYTES,
        }
    }
}

/// Whether signing in with `email`/`password` against `accounts` succeeds.
pub open spec fn sign_in_succeeds(accounts: AccountsView, email: Seq<char>, password: Seq<char>) -> bool {
    let n = normalized_email(email);
    &&& acceptable_email(n)
    &&& accounts.contains_key(n)
    &&& password_verifies(password, accounts[n].1)
}

/// Registers the first account of the deployment from `request` at time `now`.
/// `accounts` are the stored accounts; on success the new account is added to them.
pub fn register_impl(accounts: &mut Accounts, request: &Credentials, now: usize) -> (r: Result<
    SessionClaims,
    AuthError,
>)
    requires
        now <= usize::MAX - SESSION_DURATION_SECS,
    ensures
        registration_outcome(
            old(accounts)@,
            request.email@,
            request.password@,
            now,
            r,
            final(accounts)@,
        ),
{
    let email = match normalize_email(request.email.as_str()) {
        Ok(email) => email,
        Err(e) => return Err(e),
    };
    match validate_password(request.password.as_str()) {
        Ok(_) => {},
        Err(e) => return Err(e),
    }
    if !accounts.is_empty() {
        return Err(AuthError::Conflict(owned("An account already exists for this deployment")));
    }
    let password_hash = match hash_password(request.password.as_str()) {
        Ok(h) => h,
        Err(message) => return Err(AuthError::Storage(message)),
    };
    let ghost h = password_hash@;
    let claims = issue_claims_at(email.as_str(), now);
    let key = email.clone();
    accounts.insert(key, LocalAccount { email, password_hash, created_at: now });
    proof {
        let n = normalized_email(request.email@);
        assert(old(accounts)@.insert(n, (n, h, now)) == final(accounts)@);
    }
    Ok(claims)
}

/// Signs in with `request` against the stored `accounts` at time `now`.
pub fn login_impl(accounts: &Accounts, request: &Credentials, now: usize) -> (r: Result<
    SessionClaims,
    AuthError,
>)
    requires
        now <= usize::MAX - SESSION_DURATION_SECS,
    ensures
        !acceptable_email(normalized_email(request.email@)) ==> fails_validation(r, "A valid email address is required"@),
        acceptable_email(normalized_email(request.email@)) && !sign_in_succeeds(
            accounts@,
            request.email@,
            request.password@,
        ) ==> fails_conflict(r, "Invalid email or password"@),
        sign_in_succeeds(accounts@, request.email@, request.password@) ==> (r matches Ok(c)
            && claims_for(c, normalized_email(request.email@), now)),
{
    let email = match normalize_email(request.email.as_str()) {
        Ok(email) => email,
        Err(e) => return Err(e),
    };
    let account = match accounts.get(email.as_str()) {
        Some(a) => a,
        None => return Err(AuthError::Conflict(owned("Invalid email or password"))),
    };
    if !verify_password(request.password.as_str(), account.password_hash.as_str()) {
        return Err(AuthError::Conflict(owned("Invalid email or password")));
    }
    Ok(issue_claims_at(email.as_str(), now))
}

/// What changing the password of the account under `email` does, from `before` to `after`.
pub open spec fn password_change_outcome(
    before: AccountsView,
    email: Seq<char>,
    current_password: Seq<char>,
    new_password: Seq<char>,
    r: Result<(), AuthError>,
    after: AccountsView,
) -> bool {
    if !acceptable_password(new_password) {
        after == before && fails_validation(r, "Password must be at least 8 characters"@,
        )
    } else if !before.contains_key(email) {
        after == before && fails_conflict(r, "Account not found"@)
    } else if !password_verifies(current_password, before[email].1) {
        after == before && fails_conflict(r, "Current password is incorrect"@,
        )
    } else {
        match r {
            Ok(_) => exists|h: Seq<char>|
                password_verifies(new_password, h) && #[trigger] before.insert(
                    email,
                    (before[email].0, h, before[email].2),
                ) == after,
            Err(e) => e is Storage && after == before && utf8_len(new_password)
                > ARGON2_MAX_PASSWORD_BYTES,
        }
    }
}

/// Changes the password of the account stored under `email` (the signed-in session's email).
pub fn change_password_impl(
    accounts: &mut Accounts,
    email: &str,
    request: &ChangePasswordRequest,
) -> (r: Result<(), AuthError>)
    ensures
        password_change_outcome(
            old(accounts)@,
            email@,
            request.current_password@,
            request.new_password@,
            r,
            final(accounts)@,
        ),
{
    match validate_password(request.new_password.as_str()) {
        Ok(_) => {},
        Err(e) => return Err(e),
    }
    let account = match accounts.get(email) {
        Some(a) => a,
        None => return Err(AuthError::Conflict(owned("Account not found"))),
    };
    if !verify_password(request.current_password.as_str(), account.password_hash.as_str()) {
        return Err(AuthError::Conflict(owned("Current password is incorrect")));
    }
    let password_hash = match hash_password(request.new_password.as_str()) {
        Ok(h) => h,
        Err(message) => return Err(AuthError::Storage(message)),
    };
    let ghost h = password_hash@;
    let ghost before = accounts@;
    accounts.set_password_hash(email, password_hash);
    proof {
        assert(before.insert(email@, (before[email@].0, h, before[email@].2)) == final(accounts)@);
    }
    Ok(())
}

/// What the password change route verifies before touching the accounts:
/// `Some(message)` where the new password is too short.
pub fn new_password_precheck(new_password: &str) -> (r: Option<String>)
    ensures
        r is None <==> acceptable_password(new_password@),
        r matches Some(m) ==> m@ == "New password must be at least 8 characters"@,
{
    let v = chars(new_password);
    let t = trim_chars(&v);
    if !utf8_len_at_least(&t, 8) {
        return Some(owned("New password must be at least 8 characters"));
    }
    None
}

/// The account routes, whose failures are answered differently.
pub enum AuthRoute {
    Register,
    Login,
    ChangePassword,
}

/// The HTTP status with which a route answers an account error.
pub open spec fn error_status(route: AuthRoute, e: AuthError) -> u16 {
    match e {
        AuthError::Storage(_) => 500,
        AuthError::Validation(_) => match route {
            AuthRoute::Login => 401,
            _ => 400,
        },
        AuthError::Conflict(_) => match route {
            AuthRoute::Register => 403,
            AuthRoute::Login => 401,
            AuthRoute::ChangePassword => 400,
        },
    }
}

/// The message with which a route answers an account error.
pub open spec fn error_message(route: AuthRoute, e: AuthError) -> Seq<char> {
    match e {
        AuthError::Validation(m) => m@,
        AuthError::Conflict(m) => m@,
        AuthError::Storage(_) => match route {
            AuthRoute::Register => "Could not create account"@,
            AuthRoute::Login => "Could not sign in"@,
            AuthRoute::ChangePassword => "Could not update password"@,
        },
    }
}

/// The status and error message with which `route` answers `e`.
pub fn auth_error_response(route: AuthRoute, e: &AuthError) -> (r: (u16, String))
    ensures
        r.0 == error_status(route, *e),
        r.1@ == error_message(route, *e),
{
    match e {
        AuthError::Validation(m) => {
            let status: u16 = match route {
                AuthRoute::Login => 401,
                _ => 400,
            };
            (status, m.clone())
        },
        AuthError::Conflict(m) => {
            let status: u16 = match route {
                AuthRoute::Register => 403,
                AuthRoute::Login => 401,
                AuthRoute::ChangePassword => 400,
            };
            (status, m.clone())
        },
        AuthError::Storage(_) => {
            let message = match route {
                AuthRoute::Register => owned("Could not create account"),
                AuthRoute::Login => owned("Could not sign in"),
                AuthRoute::ChangePassword => owned("Could not update password"),
            };
            (500, message)
        },
    }
}

/// Registration is open only to the first account: once an account exists, registering
/// fails and leaves the accounts as they were.
pub proof fn law_registration_first_account_only(
    before: AccountsView,
    email: Seq<char>,
    password: Seq<char>,
    now: usize,
    r: Result<SessionClaims, AuthError>,
    after: AccountsView,
)
    requires
        registration_outcome(before, email, password, now, r, after),
        before != Map::<Seq<char>, (Seq<char>, Seq<char>, usize)>::empty(),
    ensures
        r is Err,
        after == before,
{
}

/// An account that registration creates can sign in with the same email and password,
/// and the session it is given is for the normalized email.
pub proof fn law_registered_account_signs_in(
    before: AccountsView,
    email: Seq<char>,
    password: Seq<char>,
    now: usize,
    r: Result<SessionClaims, AuthError>,
    after: AccountsView,
)
    requires
        registration_outcome(before, email, password, now, r, after),
        r is Ok,
    ensures
        sign_in_succeeds(after, email, password),
        r matches Ok(c) && c.email@ == normalized_email(email),
{
    let n = normalized_email(email);
    let h = choose|h: Seq<char>|
        password_verifies(password, h) && #[trigger] before.insert(n, (n, h, now)) == after;
    assert(after.contains_key(n));
    assert(after[n] == (n, h, now));
}

/// After a successful password change the account verifies the new password and keeps its
/// email and creation time; every other account is untouched.
pub proof fn law_password_change_takes_effect(
    before: AccountsView,
    email: Seq<char>,
    current_password: Seq<char>,
    new_password: Seq<char>,
    r: Result<(), AuthError>,
    after: AccountsView,
)
    requires
        password_change_outcome(before, email, current_password, new_password, r, after),
        r is Ok,
    ensures
        after.contains_key(email),
        password_verifies(new_password, after[email].1),
        after[email].0 == before[email].0,
        after[email].2 == before[email].2,
        forall|k: Seq<char>| k != email ==> after.contains_key(k) == before.contains_key(k) && (
        before.contains_key(k) ==> #[trigger] after[k] == before[k]),
{
    let h = choose|h: Seq<char>|
        password_verifies(new_password, h) && #[trigger] before.insert(
            email,
            (before[email].0, h, before[email].2),
        ) == after;
    assert(after[email] == (before[email].0, h, before[email].2));
}

/// A failed operation leaves the accounts as they were.
pub proof fn law_failed_account_operations_change_nothing(
    before: AccountsView,
    email: Seq<char>,
    password: Seq<char>,
    new_password: Seq<char>,
    now: usize,
    registered: Result<SessionClaims, AuthError>,
    after_registration: AccountsView,
    changed: Result<(), AuthError>,
    after_change: AccountsView,
)
    requires
        registration_outcome(before, email, password, now, registered, after_registration),
        password_change_outcome(before, email, password, new_password, changed, after_change),
    ensures
        registered is Err ==> after_registration == before,
        changed is Err ==> after_change == before,
{
}

/// The signed-in user of a request: the claims of its session cookie, which must be present
/// and decode (`decoded` being the claims that its token decoded to, if any).
pub fn current_user(cookie_present: bool, decoded: Option<SessionClaims>) -> (r: Result<
    SessionClaims,
    AuthError,
>)
    ensures
        !cookie_present ==> fails_conflict(r, "Not signed in"@),
        cookie_present && decoded is None ==> fails_conflict(r, "Session expired"@),
        cookie_present && decoded is Some ==> r == Ok::<SessionClaims, AuthError>(decoded->0),
{
    if !cookie_present {
        return Err(AuthError::Conflict(owned("Not signed in")));
    }
    match decoded {
        Some(claims) => Ok(claims),
        None => Err(AuthError::Conflict(owned("Session expired"))),
    }
}

/// The liveness and readiness probes, the sign-in routes, the Discord interaction endpoint
/// and the webhook triggers pass without credentials for every method, as does reading the
/// service document: `access_decision` answers all of them `Public`.
pub proof fn law_probes_and_entry_points_are_public(method: Seq<char>, rest: Seq<char>)
    ensures
        public_path(method, "/healthz"@),
        public_path(method, "/readyz"@),
        public_path(method, "/auth"@),
        public_path(method, "/auth/"@ + rest),
        public_path(method, "/discord/interaction"@ + rest),
        public_path(method, "/triggers/webhook/"@ + rest),
        public_path("GET"@, "/tdata"@),
        public_path("GET"@, "/tdata/"@),
{
    assert(("/auth/"@ + rest).take("/auth/"@.len() as int) =~= "/auth/"@);
    assert(("/discord/interaction"@ + rest).take("/discord/interaction"@.len() as int)
        =~= "/discord/interaction"@);
    assert(("/triggers/webhook/"@ + rest).take("/triggers/webhook/"@.len() as int)
        =~= "/triggers/webhook/"@);
}

} // verus!
