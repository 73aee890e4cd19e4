//! Connecting an MCP server over OAuth: the requests of the exchange, the
//! credentials kept from it, and their refresh.
use vstd::prelude::*;
use crate::mcp::catalog::McpCatalogEntry;
use crate::mcp::oauth::{join_words, space_joined};
use crate::text::{push_str, radix, radix_digits};

verus! {

/// Whether a character is a lowercase hexadecimal digit.
pub open spec fn is_lower_hex(c: char) -> bool {
    ('0' <= c && c <= '9') || ('a' <= c && c <= 'f')
}

/// Trusted: `uuid::Uuid::new_v4().simple().to_string()`, a random UUID as
/// 32 lowercase hexadecimal digits. Which digits is left open.
#[verifier::external_body]
pub(crate) fn new_uuid_simple() -> (r: String)
    ensures
        r@.len() == 32,
        forall|i: int| 0 <= i < 32 ==> is_lower_hex(#[trigger] r@[i]),
{
    uuid::Uuid::new_v4().simple().to_string()
}

/// A fresh PKCE code verifier: two random UUIDs, 64 hexadecimal digits.
pub fn new_verifier() -> (r: String)
    ensures
        r@.len() == 64,
        forall|i: int| 0 <= i < 64 ==> is_lower_hex(#[trigger] r@[i]),
{
    let mut r = new_uuid_simple();
    let second = new_uuid_simple();
    let ghost first = r@;
    push_str(&mut r, second.as_str());
    assert forall|i: int| 0 <= i < 64 implies is_lower_hex(#[trigger] r@[i]) by {
        if i < 32 {
            assert(r@[i] == first[i]);
        } else {
            assert(r@[i] == second@[i - 32]);
        }
    }
    r
}

/// A fresh OAuth state: one random UUID, 32 hexadecimal digits.
pub fn new_state() -> (r: String)
    ensures
        r@.len() == 32,
        forall|i: int| 0 <= i < 32 ==> is_lower_hex(#[trigger] r@[i]),
{
    new_uuid_simple()
}

/// The stored OAuth session of a server.
#[derive(Clone, Debug, PartialEq, Eq)]
pub struct McpOauthCredentials {
    pub token_endpoint: String,
    pub client_id: String,
    pub client_secret: Option<String>,
    pub access_token: String,
    pub refresh_token: Option<String>,
    pub expires_at: i64,
    pub scope: String,
    pub resource: String,
}

/// A token endpoint's answer.
#[derive(Clone, Debug, PartialEq, Eq)]
pub struct TokenResponse {
    pub access_token: String,
    pub refresh_token: Option<String>,
    pub expires_in: Option<u64>,
    pub scope: Option<String>,
}

/// The client registered with the authorization server.
#[derive(Clone, Debug, PartialEq, Eq)]
pub struct ClientRegistration {
    pub client_id: String,
    pub client_secret: Option<String>,
}

/// An authorization server's metadata.
#[derive(Clone, Debug, PartialEq, Eq)]
pub struct AuthorizationServer {
    pub authorization_endpoint: String,
    pub token_endpoint: String,
    pub registration_endpoint: Option<String>,
}

/// A protected resource's metadata.
#[derive(Clone, Debug, PartialEq, Eq)]
pub struct ProtectedResource {
    pub authorization_servers: Vec<String>,
}

/// A form as plain values.
pub open spec fn form_view(form: Seq<(String, String)>) -> Seq<(Seq<char>, Seq<char>)> {
    form.map_values(|p: (String, String)| (p.0@, p.1@))
}

/// An optional string as a spec value.
pub open spec fn opt_view(s: Option<String>) -> Option<Seq<char>> {
    match s {
        Some(x) => Some(x@),
        None => None,
    }
}

/// The form fields after `prefix`: `client_secret` when there is one.
pub open spec fn with_secret(prefix: Seq<(Seq<char>, Seq<char>)>, secret: Option<Seq<char>>) -> Seq<(Seq<char>, Seq<char>)> {
    match secret {
        Some(s) => prefix.push(("client_secret"@, s)),
        None => prefix,
    }
}

/// The time a session expires, `expires_in` seconds after `now`; zero when
/// the server gives no lifetime.
pub open spec fn expiry(now: i64, expires_in: Option<u64>) -> i64 {
    match expires_in {
        None => 0,
        Some(s) => (now + (s as i64)) as i64,
    }
}

/// Whether `expiry(now, expires_in)` fits an `i64`.
pub open spec fn expiry_fits(now: i64, expires_in: Option<u64>) -> bool {
    expires_in matches Some(s) ==> i64::MIN <= now + (s as i64) <= i64::MAX
}

/// When a session expires.
fn expiry_exec(now: i64, expires_in: Option<u64>) -> (r: i64)
    requires
        expiry_fits(now, expires_in),
    ensures
        r == expiry(now, expires_in),
{
    match expires_in {
        None => 0,
        Some(s) => now + (s as i64),
    }
}

/// A pair of strings.
fn pair(key: &str, value: &str) -> (r: (String, String))
    ensures
        r.0@ == key@,
        r.1@ == value@,
{
    (key.to_owned(), value.to_owned())
}

/// The form fields that trade the authorization code for tokens.
pub open spec fn exchange_fields(
    registration: ClientRegistration,
    code: Seq<char>,
    verifier: Seq<char>,
    redirect_uri: Seq<char>,
    resource: Seq<char>,
) -> Seq<(Seq<char>, Seq<char>)> {
    with_secret(
        seq![
            ("grant_type"@, "authorization_code"@),
            ("code"@, code),
            ("client_id"@, registration.client_id@),
            ("redirect_uri"@, redirect_uri),
            ("code_verifier"@, verifier),
            ("resource"@, resource),
        ],
        opt_view(registration.client_secret),
    )
}

/// Whether `r` is the session kept once a catalog server is connected: the
/// token endpoint, the registered client, the tokens, their expiry from
/// `now`, the granted scope (or the catalog's scopes when none is given)
/// and the catalog's URL as the resource.
pub open spec fn session_of(
    authorization: AuthorizationServer,
    registration: ClientRegistration,
    token: TokenResponse,
    now: i64,
    entry: McpCatalogEntry,
    r: McpOauthCredentials,
) -> bool {
    &&& r.token_endpoint == authorization.token_endpoint
    &&& r.client_id == registration.client_id
    &&& r.client_secret == registration.client_secret
    &&& r.access_token == token.access_token
    &&& r.refresh_token == token.refresh_token
    &&& r.expires_at == expiry(now, token.expires_in)
    &&& r.scope@ == match token.scope {
        Some(s) => s@,
        None => space_joined(entry.scopes@.map_values(|w: &str| w@)),
    }
    &&& r.resource@ == entry.url@
}

/// The steps of connecting a catalog server.
pub struct McpConnection;

impl McpConnection {
    /// Where the browser is sent back to: the loopback listener's port.
    pub fn redirect_uri(port: u16) -> (r: String)
        ensures
            r@ == "http://127.0.0.1:"@ + radix_digits(port as nat, 10) + "/callback"@,
    {
        let mut r = "http://127.0.0.1:".to_owned();
        let digits = radix(port as u64, 10);
        push_str(&mut r, digits.as_str());
        push_str(&mut r, "/callback");
        r
    }

    /// The authorization server a protected resource names first.
    pub fn issuer(protected: &ProtectedResource) -> (r: Result<String, String>)
        ensures
            protected.authorization_servers@.len() > 0 ==> r == Ok::<String, String>(protected.authorization_servers@[0]),
            protected.authorization_servers@.len() == 0 ==> (r matches Err(m) && m@
                == "MCP server did not advertise an authorization server"@),
    {
        if protected.authorization_servers.len() > 0 {
            Ok(protected.authorization_servers[0].clone())
        } else {
            Err("MCP server did not advertise an authorization server".to_owned())
        }
    }

    /// The endpoint to register a client at.
    pub fn registration_endpoint(authorization: &AuthorizationServer) -> (r: Result<String, String>)
        ensures
            match authorization.registration_endpoint {
                Some(e) => r == Ok::<String, String>(e),
                None => r matches Err(m) && m@ == "OAuth server does not support dynamic client registration"@,
            },
    {
        match &authorization.registration_endpoint {
            Some(e) => Ok(e.clone()),
            None => Err("OAuth server does not support dynamic client registration".to_owned()),
        }
    }

    /// The body of an OAuth response, or the failure it reports.
    /// `status` is the response status as displayed.
    pub fn response_body(success: bool, status: &str, body: String) -> (r: Result<String, String>)
        ensures
            success ==> r == Ok::<String, String>(body),
            !success ==> (r matches Err(m) && m@ == "OAuth request failed ("@ + status@ + "): "@ + body@),
    {
        if success {
            return Ok(body);
        }
        let mut m = "OAuth request failed (".to_owned();
        push_str(&mut m, status);
        push_str(&mut m, "): ");
        push_str(&mut m, body.as_str());
        Err(m)
    }

    /// The form that trades the authorization code for tokens.
    pub fn exchange_form(
        registration: &ClientRegistration,
        code: &str,
        verifier: &str,
        redirect_uri: &str,
        resource: &str,
    ) -> (r: Vec<(String, String)>)
        ensures
            form_view(r@) == exchange_fields(*registration, code@, verifier@, redirect_uri@, resource@),
    {
        let mut form: Vec<(String, String)> = Vec::new();
        form.push(pair("grant_type", "authorization_code"));
        form.push(pair("code", code));
        form.push(pair("client_id", registration.client_id.as_str()));
        form.push(pair("redirect_uri", redirect_uri));
        form.push(pair("code_verifier", verifier));
        form.push(pair("resource", resource));
        if let Some(secret) = &registration.client_secret {
            form.push(pair("client_secret", secret.as_str()));
        }
        assert(form_view(form@) =~= with_secret(
            seq![
                ("grant_type"@, "authorization_code"@),
                ("code"@, code@),
                ("client_id"@, registration.client_id@),
                ("redirect_uri"@, redirect_uri@),
                ("code_verifier"@, verifier@),
                ("resource"@, resource@),
            ],
            opt_view(registration.client_secret),
        ));
        form
    }

    /// The session kept once a catalog server is connected: the token
    /// endpoint, the registered client, the tokens, their expiry from
    /// `now`, the granted scope (or the catalog's scopes when none is
    /// given) and the catalog's URL as the resource.
    pub fn credentials(
        authorization: &AuthorizationServer,
        registration: ClientRegistration,
        token: TokenResponse,
        now: i64,
        entry: McpCatalogEntry,
    ) -> (r: McpOauthCredentials)
        requires
            expiry_fits(now, token.expires_in),
        ensures
            session_of(*authorization, registration, token, now, entry, r),
    {
        let expires_at = expiry_exec(now, token.expires_in);
        let scope = match token.scope {
            Some(s) => s,
            None => join_words(entry.scopes),
        };
        McpOauthCredentials {
            token_endpoint: authorization.token_endpoint.clone(),
            client_id: registration.client_id,
            client_secret: registration.client_secret,
            access_token: token.access_token,
            refresh_token: token.refresh_token,
            expires_at,
            scope,
            resource: entry.url.to_owned(),
        }
    }
}

/// The fields of a refresh form after the client's: the resource and the
/// scope, each when it is not empty.
pub open spec fn refresh_tail(prefix: Seq<(Seq<char>, Seq<char>)>, resource: Seq<char>, scope: Seq<char>) -> Seq<(Seq<char>, Seq<char>)> {
    let with_resource = if resource.len() > 0 { prefix.push(("resource"@, resource)) } else { prefix };
    if scope.len() > 0 { with_resource.push(("scope"@, scope)) } else { with_resource }
}

/// Refreshing a session.
pub struct McpRefresh;

impl McpRefresh {
    /// The form that refreshes a session, or why it cannot be refreshed.
    pub fn form(credentials: &McpOauthCredentials) -> (r: Result<Vec<(String, String)>, String>)
        ensures
            match credentials.refresh_token {
                None => r matches Err(m) && m@ == "OAuth session expired and has no refresh token"@,
                Some(token) => r matches Ok(form) && form_view(form@) == refresh_tail(
                    with_secret(
                        seq![
                            ("grant_type"@, "refresh_token"@),
                            ("refresh_token"@, token@),
                            ("client_id"@, credentials.client_id@),
                        ],
                        opt_view(credentials.client_secret),
                    ),
                    credentials.resource@,
                    credentials.scope@,
                ),
            },
    {
        let token = match &credentials.refresh_token {
            Some(t) => t,
            None => return Err("OAuth session expired and has no refresh token".to_owned()),
        };
        let mut form: Vec<(String, String)> = Vec::new();
        form.push(pair("grant_type", "refresh_token"));
        form.push(pair("refresh_token", token.as_str()));
        form.push(pair("client_id", credentials.client_id.as_str()));
        if let Some(secret) = &credentials.client_secret {
            form.push(pair("client_secret", secret.as_str()));
        }
        let ghost head = form_view(form@);
        assert(head =~= with_secret(
            seq![("grant_type"@, "refresh_token"@), ("refresh_token"@, token@), ("client_id"@, credentials.client_id@)],
            opt_view(credentials.client_secret),
        ));
        if credentials.resource.unicode_len() > 0 {
            form.push(pair("resource", credentials.resource.as_str()));
        }
        let ghost mid = form_view(form@);
        assert(mid =~= if credentials.resource@.len() > 0 { head.push(("resource"@, credentials.resource@)) } else { head });
        if credentials.scope.unicode_len() > 0 {
            form.push(pair("scope", credentials.scope.as_str()));
        }
        assert(form_view(form@) =~= if credentials.scope@.len() > 0 { mid.push(("scope"@, credentials.scope@)) } else { mid });
        Ok(form)
    }

    /// Takes in a refresh answer: the new access token, the new refresh
    /// token where one is given, the new expiry from `now`, and the new
    /// scope where one is given.
    pub fn apply(credentials: &mut McpOauthCredentials, token: TokenResponse, now: i64)
        requires
            expiry_fits(now, token.expires_in),
        ensures
            final(credentials).access_token == token.access_token,
            final(credentials).refresh_token == match token.refresh_token {
                Some(t) => Some(t),
                None => old(credentials).refresh_token,
            },
            final(credentials).expires_at == expiry(now, token.expires_in),
            final(credentials).scope == match token.scope {
                Some(s) => s,
                None => old(credentials).scope,
            },
            final(credentials).token_endpoint == old(credentials).token_endpoint,
            final(credentials).client_id == old(credentials).client_id,
            final(credentials).client_secret == old(credentials).client_secret,
            final(credentials).resource == old(credentials).resource,
    {
        credentials.expires_at = expiry_exec(now, token.expires_in);
        credentials.access_token = token.access_token;
        if token.refresh_token.is_some() {
            credentials.refresh_token = token.refresh_token;
        }
        if let Some(scope) = token.scope {
            credentials.scope = scope;
        }
    }
}

} // verus!
