//! Sign-in rules: where a user is sent after signing in and out, what the
//! status endpoint answers, how a signed-in identity becomes a local user,
//! and the settings the service needs.
use vstd::prelude::*;
use vstd::string::*;
use vstd::utf8::encode_utf8;
use crate::ballots::Lookup;
use crate::results::UserRecord;
use crate::text::{
    has_prefix, percent_encoded, starts_with, trim_trailing_slashes, url_encode,
    without_trailing_slashes,
};

verus! {

/// Settings of the signed-in service.
pub struct Config {
    pub app_base_url: String,
    pub database_url: String,
    pub oidc_issuer: String,
    pub oidc_client_id: String,
    pub oidc_client_secret: String,
    pub bind_addr: String,
}

/// Settings of the identity provider.
pub struct OidcConfig {
    pub app_base_url: String,
    pub issuer: String,
    pub client_id: String,
    pub client_secret: String,
}

/// Query of the sign-in endpoints.
pub struct LoginQuery {
    pub redirect_uri: Option<String>,
}

/// Answer of the status endpoint.
pub struct AuthStatusResponse {
    pub logged_in: bool,
    pub user_id: Option<i32>,
}

/// `name must be set`.
pub open spec fn unset_message(name: Seq<char>) -> Seq<char> {
    name + " must be set"@
}

/// A required setting: its value, or the message that it is unset.
pub fn must_env(name: &str, value: Option<String>) -> (out: Result<String, String>)
    ensures
        match value {
            Some(v) => out == Ok::<String, String>(v),
            None => out matches Err(m) && m@ == unset_message(name@),
        },
{
    match value {
        Some(v) => Ok(v),
        None => {
            let mut m = name.to_owned();
            m.append(" must be set");
            Err(m)
        },
    }
}

impl Config {
    /// The settings from the values of `APP_BASE_URL`, `DATABASE_URL`,
    /// `OIDC_ISSUER`, `OIDC_CLIENT_ID`, `OIDC_CLIENT_SECRET` and `BIND_ADDR`:
    /// the first unset required one is reported; the bind address defaults to
    /// `0.0.0.0:8080`.
    pub fn from_values(
        app_base_url: Option<String>,
        database_url: Option<String>,
        oidc_issuer: Option<String>,
        oidc_client_id: Option<String>,
        oidc_client_secret: Option<String>,
        bind_addr: Option<String>,
    ) -> (out: Result<Config, String>)
        ensures
            app_base_url is None ==> (out matches Err(m) && m@ == unset_message("APP_BASE_URL"@)),
            app_base_url is Some && database_url is None ==> (out matches Err(m) && m@
                == unset_message("DATABASE_URL"@)),
            app_base_url is Some && database_url is Some && oidc_issuer is None ==> (out matches Err(
                m,
            ) && m@ == unset_message("OIDC_ISSUER"@)),
            app_base_url is Some && database_url is Some && oidc_issuer is Some && oidc_client_id is None
                ==> (out matches Err(m) && m@ == unset_message("OIDC_CLIENT_ID"@)),
            app_base_url is Some && database_url is Some && oidc_issuer is Some && oidc_client_id is Some
                && oidc_client_secret is None ==> (out matches Err(m) && m@ == unset_message(
                "OIDC_CLIENT_SECRET"@,
            )),
            app_base_url is Some && database_url is Some && oidc_issuer is Some && oidc_client_id is Some
                && oidc_client_secret is Some ==> (out matches Ok(c) && c.app_base_url
                == app_base_url->0 && c.database_url == database_url->0 && c.oidc_issuer
                == oidc_issuer->0 && c.oidc_client_id == oidc_client_id->0 && c.oidc_client_secret
                == oidc_client_secret->0 && c.bind_addr@ == match bind_addr {
                Some(b) => b@,
                None => "0.0.0.0:8080"@,
            }),
    {
        Ok(
            Config {
                app_base_url: must_env("APP_BASE_URL", app_base_url)?,
                database_url: must_env("DATABASE_URL", database_url)?,
                oidc_issuer: must_env("OIDC_ISSUER", oidc_issuer)?,
                oidc_client_id: must_env("OIDC_CLIENT_ID", oidc_client_id)?,
                oidc_client_secret: must_env("OIDC_CLIENT_SECRET", oidc_client_secret)?,
                bind_addr: match bind_addr {
                    Some(b) => b,
                    None => "0.0.0.0:8080".to_owned(),
                },
            },
        )
    }
}

impl OidcConfig {
    /// The provider settings when all four values are set.
    pub fn from_values(
        app_base_url: Option<String>,
        issuer: Option<String>,
        client_id: Option<String>,
        client_secret: Option<String>,
    ) -> (out: Option<OidcConfig>)
        ensures
            out is Some <==> (app_base_url is Some && issuer is Some && client_id is Some
                && client_secret is Some),
            out matches Some(c) ==> c.app_base_url == app_base_url->0 && c.issuer == issuer->0
                && c.client_id == client_id->0 && c.client_secret == client_secret->0,
    {
        match (app_base_url, issuer, client_id, client_secret) {
            (Some(app_base_url), Some(issuer), Some(client_id), Some(client_secret)) => Some(
                OidcConfig { app_base_url, issuer, client_id, client_secret },
            ),
            _ => None,
        }
    }
}

/// Where a signed-in user is sent: the requested address when it lies under
/// the service's base address, the base address otherwise.
pub open spec fn landing(app_base_url: Seq<char>, redirect_uri: Option<String>) -> Seq<char> {
    match redirect_uri {
        Some(uri) => if has_prefix(uri@, app_base_url) {
            uri@
        } else {
            app_base_url
        },
        None => app_base_url,
    }
}

/// Where a signed-in user is sent.
pub fn redirect_after_login(app_base_url: &String, redirect_uri: Option<String>) -> (out: String)
    ensures
        out@ == landing(app_base_url@, redirect_uri),
{
    match redirect_uri {
        Some(uri) => if starts_with(uri.as_str(), app_base_url.as_str()) {
            uri
        } else {
            app_base_url.clone()
        },
        None => app_base_url.clone(),
    }
}

/// Law: the address a signed-in user is sent to lies under the service's
/// base address, whatever was requested.
pub proof fn lemma_landing_stays_home(app_base_url: Seq<char>, redirect_uri: Option<String>)
    ensures
        has_prefix(landing(app_base_url, redirect_uri), app_base_url),
{
    assert(app_base_url.subrange(0, app_base_url.len() as int) =~= app_base_url);
}

/// The sign-in callback address of the service.
pub open spec fn callback_address(app_base_url: Seq<char>) -> Seq<char> {
    without_trailing_slashes(app_base_url) + "/api/auth/callback"@
}

/// Where a sign-in starts: the callback address, carrying the requested
/// address, percent-encoded, when it lies under the base address.
pub open spec fn login_address(app_base_url: Seq<char>, redirect_uri: Option<String>) -> Seq<char> {
    match redirect_uri {
        Some(uri) => if has_prefix(uri@, app_base_url) {
            callback_address(app_base_url) + "?redirect_uri="@ + percent_encoded(encode_utf8(uri@))
        } else {
            callback_address(app_base_url)
        },
        None => callback_address(app_base_url),
    }
}

/// Where a sign-in starts.
pub fn login_redirect(app_base_url: &String, redirect_uri: Option<String>) -> (out: String)
    ensures
        out@ == login_address(app_base_url@, redirect_uri),
{
    let mut callback = trim_trailing_slashes(app_base_url.as_str());
    callback.append("/api/auth/callback");
    match redirect_uri {
        Some(uri) => if starts_with(uri.as_str(), app_base_url.as_str()) {
            callback.append("?redirect_uri=");
            let encoded = url_encode(uri.as_str());
            callback.append(encoded.as_str());
            callback
        } else {
            callback
        },
        None => callback,
    }
}

/// Law: a sign-in always starts at the service's callback address.
pub proof fn lemma_login_starts_at_callback(app_base_url: Seq<char>, redirect_uri: Option<String>)
    ensures
        has_prefix(login_address(app_base_url, redirect_uri), callback_address(app_base_url)),
{
    let c = callback_address(app_base_url);
    let a = login_address(app_base_url, redirect_uri);
    assert(a.subrange(0, c.len() as int) =~= c);
}

/// Where a signed-out user is sent: the base address with one trailing `/`.
pub open spec fn logout_address(app_base_url: Seq<char>) -> Seq<char> {
    without_trailing_slashes(app_base_url) + "/"@
}

/// Where a signed-out user is sent.
pub fn post_logout_redirect(app_base_url: &String) -> (out: String)
    ensures
        out@ == logout_address(app_base_url@),
{
    let mut out = trim_trailing_slashes(app_base_url.as_str());
    out.append("/");
    out
}

/// The answer of the status endpoint: whether the request is signed in; the
/// local user id is not reported (`null`).
pub fn auth_status(logged_in: bool) -> (out: AuthStatusResponse)
    ensures
        out.logged_in == logged_in,
        out.user_id is None,
{
    AuthStatusResponse { logged_in, user_id: None }
}

/// The answer of the health endpoint.
pub struct HealthResponse {
    pub ok: bool,
    pub service: String,
    pub oidc_enabled: bool,
}

/// The health of the sign-in service: up, named `auth`, and whether sign-in
/// through the identity provider is configured.
pub fn health(oidc_enabled: bool) -> (out: HealthResponse)
    ensures
        out.ok,
        out.service@ == "auth"@,
        out.oidc_enabled == oidc_enabled,
{
    HealthResponse { ok: true, service: "auth".to_owned(), oidc_enabled }
}

/// What the user sync does with a request.
pub enum SyncAction {
    /// The request already carries its local user.
    PassThrough,
    /// Attach this user to the request.
    Attach(UserRecord),
    /// Create a user of this name and attach it.
    Create(String),
}

/// The user sync: a request that carries its user goes on; otherwise the user
/// named after the identity's subject is attached, or created when the lookup
/// finds none or fails.
pub fn sync_decision(already_synced: bool, lookup: Lookup<UserRecord>, subject: &str) -> (out: SyncAction)
    ensures
        already_synced ==> out is PassThrough,
        !already_synced ==> match lookup {
            Lookup::Found(u) => out == SyncAction::Attach(u),
            _ => out matches SyncAction::Create(name) && name@ == subject@,
        },
{
    if already_synced {
        return SyncAction::PassThrough;
    }
    match lookup {
        Lookup::Found(u) => SyncAction::Attach(u),
        _ => SyncAction::Create(subject.to_owned()),
    }
}

} // verus!
