//! Connecting a catalog MCP server, as a sequence of decisions between the
//! outside steps: listening for the browser, reading the server's metadata,
//! registering a client, sending the browser to the authorization page,
//! trading the code for tokens, storing the session and writing the
//! manifest. Whoever drives it performs each action and hands back what
//! came of it; the first failure ends the connection with its message, and
//! a manifest that cannot be written removes the session just stored.
use vstd::prelude::*;
use crate::mcp::catalog::{McpCatalog, McpCatalogEntry};
use crate::mcp::managed::{catalog_server, is_catalog_server, McpServerManifest};
use crate::mcp::oauth::{
    authorization_pairs, authorization_result, authorization_url_checked, b64, metadata_result, metadata_url,
    pkce_challenge, query_fits, result_view, scope_of, sha256_digest,
};
use crate::mcp::session::{
    exchange_fields, expiry_fits, form_view, is_lower_hex, new_state, new_verifier, session_of,
    AuthorizationServer, ClientRegistration, McpConnection, McpOauthCredentials, ProtectedResource,
    TokenResponse,
};
use crate::text::{push_str, radix_digits};

verus! {

/// Where a connection stands: the outside step it waits on.
#[derive(Clone, Copy, Debug, PartialEq, Eq, Structural)]
pub enum ConnectPhase {
    Listening,
    FetchingProtected,
    FetchingAuthorization,
    Registering,
    Authorizing,
    Exchanging,
    Storing,
    WritingManifest,
    RemovingCredentials,
    Finished,
}

/// What came of the last action.
#[derive(Clone, Debug)]
pub enum ConnectEvent {
    /// The loopback listener is open on this port.
    Listening(u16),
    /// The protected resource's metadata.
    Protected(ProtectedResource),
    /// The authorization server's metadata.
    Authorization(AuthorizationServer),
    /// The client registered.
    Registered(ClientRegistration),
    /// The authorization code the browser came back with.
    Code(String),
    /// The token endpoint's answer, and the time it came (in seconds).
    Token(TokenResponse, i64),
    /// The action succeeded (storing, writing, removing).
    Done,
    /// The action failed, with this message.
    Failed(String),
}

/// What to do next.
#[derive(Debug)]
pub enum ConnectAction {
    /// Open the loopback listener for the browser's redirect.
    Listen,
    /// Read the protected resource's metadata at this URL.
    FetchProtected(String),
    /// Read the authorization server's metadata at this URL.
    FetchAuthorization(String),
    /// Register a client at the endpoint, with this redirect URI.
    Register { endpoint: String, redirect_uri: String },
    /// Send the browser to the URL and wait for the redirect with this state.
    Authorize { url: String, state: String },
    /// Post the form to the token endpoint.
    Exchange { token_endpoint: String, form: Vec<(String, String)> },
    /// Store the session for the server.
    Store(McpOauthCredentials),
    /// Add the server to the manifest.
    WriteManifest(McpServerManifest),
    /// Remove the session stored for the server.
    RemoveCredentials,
    /// The connection is over.
    Finish(Result<(), String>),
}

/// A connection in progress, with what it has learnt so far.
pub struct McpConnect {
    pub phase: ConnectPhase,
    pub entry: McpCatalogEntry,
    pub verifier: String,
    pub state: String,
    pub challenge: String,
    pub redirect_uri: String,
    pub authorization: Option<AuthorizationServer>,
    pub registration: Option<ClientRegistration>,
    pub failure: Option<String>,
}

/// The message when the authorization URL would pass the 4 GiB the `url`
/// crate can hold.
pub open spec fn too_long_message() -> Seq<char> {
    "OAuth authorization URL is too long"@
}

/// Whether the phase comes after the authorization server was read.
pub open spec fn knows_authorization(p: ConnectPhase) -> bool {
    match p {
        ConnectPhase::Registering | ConnectPhase::Authorizing | ConnectPhase::Exchanging | ConnectPhase::Storing
        | ConnectPhase::WritingManifest | ConnectPhase::RemovingCredentials => true,
        _ => false,
    }
}

/// Whether the phase comes after the client was registered.
pub open spec fn knows_registration(p: ConnectPhase) -> bool {
    match p {
        ConnectPhase::Authorizing | ConnectPhase::Exchanging | ConnectPhase::Storing | ConnectPhase::WritingManifest
        | ConnectPhase::RemovingCredentials => true,
        _ => false,
    }
}

/// The path prefix of a protected resource's metadata.
pub open spec fn protected_prefix() -> Seq<char> {
    "/.well-known/oauth-protected-resource"@
}

/// The path of an authorization server's metadata.
pub open spec fn authorization_prefix() -> Seq<char> {
    "/.well-known/oauth-authorization-server"@
}

/// The message when a metadata URL would pass the 4 GiB the `url` crate can
/// hold.
pub open spec fn metadata_too_long() -> Seq<char> {
    "OAuth metadata URL is too long"@
}

/// Whether `r` fetches what `metadata` says, moving to `next`, or ends the
/// connection when there is no such URL.
pub open spec fn fetches(
    metadata: Option<Result<Seq<char>, Seq<char>>>,
    r: ConnectAction,
    phase: ConnectPhase,
    next: ConnectPhase,
    protected: bool,
) -> bool {
    match metadata {
        None => phase == ConnectPhase::Finished && finishes_with_error(r, metadata_too_long()),
        Some(Err(m)) => phase == ConnectPhase::Finished && finishes_with_error(r, m),
        Some(Ok(u)) => phase == next && if protected {
            r matches ConnectAction::FetchProtected(v) && v@ == u
        } else {
            r matches ConnectAction::FetchAuthorization(v) && v@ == u
        },
    }
}

/// Whether a connection holds what its phase needs.
pub open spec fn connect_wf(c: McpConnect) -> bool {
    &&& knows_authorization(c.phase) ==> c.authorization is Some
    &&& knows_registration(c.phase) ==> c.registration is Some
    &&& c.phase == ConnectPhase::RemovingCredentials ==> c.failure is Some
}

/// Whether an event answers the action of the phase. A failure answers any
/// action. A token answer must leave its expiry within an `i64` (the time
/// plus the lifetime would overflow otherwise).
pub open spec fn expects(phase: ConnectPhase, event: ConnectEvent) -> bool {
    match event {
        ConnectEvent::Failed(_) => true,
        ConnectEvent::Listening(_) => phase == ConnectPhase::Listening,
        ConnectEvent::Protected(_) => phase == ConnectPhase::FetchingProtected,
        ConnectEvent::Authorization(_) => phase == ConnectPhase::FetchingAuthorization,
        ConnectEvent::Registered(_) => phase == ConnectPhase::Registering,
        ConnectEvent::Code(_) => phase == ConnectPhase::Authorizing,
        ConnectEvent::Token(t, now) => phase == ConnectPhase::Exchanging && expiry_fits(now, t.expires_in),
        ConnectEvent::Done => phase == ConnectPhase::Storing || phase == ConnectPhase::WritingManifest || phase
            == ConnectPhase::RemovingCredentials,
    }
}

/// Whether `r` ends the connection with the error `m`.
pub open spec fn finishes_with_error(r: ConnectAction, m: Seq<char>) -> bool {
    r matches ConnectAction::Finish(Err(e)) && e@ == m
}

/// Whether the connection kept what it knew, and only moved on.
pub open spec fn same_knowledge(a: McpConnect, b: McpConnect) -> bool {
    &&& a.entry == b.entry
    &&& a.verifier == b.verifier
    &&& a.state == b.state
    &&& a.challenge == b.challenge
}

fn copy_registration(r: &ClientRegistration) -> (c: ClientRegistration)
    ensures
        c == *r,
{
    ClientRegistration {
        client_id: r.client_id.clone(),
        client_secret: match &r.client_secret {
            Some(s) => Some(s.clone()),
            None => None,
        },
    }
}

impl McpConnect {
    /// The failure being reported.
    fn failure_message(&self) -> (m: String)
        ensures
            self.failure matches Some(f) ==> m == f,
    {
        match &self.failure {
            Some(f) => f.clone(),
            None => String::new(),
        }
    }

    /// Starts connecting the catalog server `id`: a fresh PKCE verifier and
    /// state, and the loopback listener to open first. An unknown server
    /// ends it at once.
    pub fn begin(id: &str) -> (r: Result<(McpConnect, ConnectAction), String>)
        ensures
            match r {
                Err(m) => id@ != "linear"@ && m@ == "Unknown MCP server: "@ + id@,
                Ok((c, action)) => {
                    &&& id@ == "linear"@ && c.entry.id@ == "linear"@ && c.entry.url@ == "https://mcp.linear.app/mcp"@
                    &&& c.phase == ConnectPhase::Listening
                    &&& connect_wf(c)
                    &&& c.verifier@.len() == 64
                    &&& forall|i: int| 0 <= i < 64 ==> is_lower_hex(#[trigger] c.verifier@[i])
                    &&& c.state@.len() == 32
                    &&& forall|i: int| 0 <= i < 32 ==> is_lower_hex(#[trigger] c.state@[i])
                    &&& c.challenge@ == b64(sha256_digest(vstd::utf8::encode_utf8(c.verifier@)))
                    &&& c.authorization is None && c.registration is None && c.failure is None
                    &&& action matches ConnectAction::Listen
                },
            },
    {
        let entry = match McpCatalog::get(id) {
            Some(entry) => entry,
            None => {
                let mut m = "Unknown MCP server: ".to_owned();
                push_str(&mut m, id);
                return Err(m);
            },
        };
        let verifier = new_verifier();
        let state = new_state();
        let v = verifier.as_str();
        proof {
            assert(vstd::utf8::is_ascii_chars(v@)) by {
                assert forall|i: int| 0 <= i < v@.len() implies '\0' <= #[trigger] v@[i] <= '\u{7f}' by {
                    assert(is_lower_hex(v@[i]));
                }
            }
            vstd::utf8::is_ascii_chars_encode_utf8(v@);
        }
        let challenge = pkce_challenge(v);
        let c = McpConnect {
            phase: ConnectPhase::Listening,
            entry,
            verifier,
            state,
            challenge,
            redirect_uri: String::new(),
            authorization: None,
            registration: None,
            failure: None,
        };
        Ok((c, ConnectAction::Listen))
    }

    /// Takes what came of the last action and says what to do next.
    pub fn step(&mut self, event: ConnectEvent) -> (r: ConnectAction)
        requires
            connect_wf(*old(self)),
            old(self).phase != ConnectPhase::Finished,
            expects(old(self).phase, event),
        ensures
            connect_wf(*final(self)),
            same_knowledge(*final(self), *old(self)),
            match event {
                ConnectEvent::Failed(m) => if old(self).phase == ConnectPhase::WritingManifest {
                    &&& final(self).phase == ConnectPhase::RemovingCredentials
                    &&& final(self).failure == Some(m)
                    &&& r matches ConnectAction::RemoveCredentials
                } else if old(self).phase == ConnectPhase::RemovingCredentials {
                    final(self).phase == ConnectPhase::Finished && finishes_with_error(r, old(self).failure->0@)
                } else {
                    final(self).phase == ConnectPhase::Finished && finishes_with_error(r, m@)
                },
                ConnectEvent::Done => if old(self).phase == ConnectPhase::Storing {
                    &&& final(self).phase == ConnectPhase::WritingManifest
                    &&& r matches ConnectAction::WriteManifest(server) && is_catalog_server(old(self).entry, server)
                } else if old(self).phase == ConnectPhase::WritingManifest {
                    final(self).phase == ConnectPhase::Finished && r matches ConnectAction::Finish(Ok(()))
                } else {
                    final(self).phase == ConnectPhase::Finished && finishes_with_error(r, old(self).failure->0@)
                },
                ConnectEvent::Listening(port) => {
                    &&& final(self).redirect_uri@ == "http://127.0.0.1:"@ + radix_digits(port as nat, 10) + "/callback"@
                    &&& fetches(
                        metadata_result(old(self).entry.url@, protected_prefix(), true),
                        r,
                        final(self).phase,
                        ConnectPhase::FetchingProtected,
                        true,
                    )
                },
                ConnectEvent::Protected(p) => if p.authorization_servers@.len() > 0 {
                    fetches(
                        metadata_result(p.authorization_servers@[0]@, authorization_prefix(), false),
                        r,
                        final(self).phase,
                        ConnectPhase::FetchingAuthorization,
                        false,
                    )
                } else {
                    final(self).phase == ConnectPhase::Finished && finishes_with_error(
                        r,
                        "MCP server did not advertise an authorization server"@,
                    )
                },
                ConnectEvent::Authorization(a) => match a.registration_endpoint {
                    Some(e) => {
                        &&& final(self).phase == ConnectPhase::Registering
                        &&& final(self).authorization == Some(a)
                        &&& r matches ConnectAction::Register { endpoint, redirect_uri } && endpoint == e
                            && redirect_uri == old(self).redirect_uri
                    },
                    None => final(self).phase == ConnectPhase::Finished && finishes_with_error(
                        r,
                        "OAuth server does not support dynamic client registration"@,
                    ),
                },
                ConnectEvent::Registered(reg) => {
                    let endpoint = old(self).authorization->0.authorization_endpoint@;
                    let pairs = authorization_pairs(
                        reg.client_id@,
                        old(self).redirect_uri@,
                        old(self).challenge@,
                        old(self).state@,
                        old(self).entry.url@,
                        scope_of(old(self).entry.scopes@),
                    );
                    if !query_fits(endpoint, pairs) {
                        final(self).phase == ConnectPhase::Finished && finishes_with_error(r, too_long_message())
                    } else {
                        match authorization_result(endpoint, pairs) {
                            Ok(u) => {
                                &&& final(self).phase == ConnectPhase::Authorizing
                                &&& final(self).registration == Some(reg)
                                &&& r matches ConnectAction::Authorize { url, state } && url@ == u && state
                                    == old(self).state
                            },
                            Err(m) => final(self).phase == ConnectPhase::Finished && finishes_with_error(r, m),
                        }
                    }
                },
                ConnectEvent::Code(code) => {
                    &&& final(self).phase == ConnectPhase::Exchanging
                    &&& r matches ConnectAction::Exchange { token_endpoint, form } && token_endpoint
                        == old(self).authorization->0.token_endpoint && form_view(form@) == exchange_fields(
                        old(self).registration->0,
                        code@,
                        old(self).verifier@,
                        old(self).redirect_uri@,
                        old(self).entry.url@,
                    )
                },
                ConnectEvent::Token(token, now) => {
                    &&& final(self).phase == ConnectPhase::Storing
                    &&& r matches ConnectAction::Store(credentials) && session_of(
                        old(self).authorization->0,
                        old(self).registration->0,
                        token,
                        now,
                        old(self).entry,
                        credentials,
                    )
                },
            },
    {
        match event {
            ConnectEvent::Failed(m) => {
                if self.phase == ConnectPhase::WritingManifest {
                    self.phase = ConnectPhase::RemovingCredentials;
                    self.failure = Some(m);
                    ConnectAction::RemoveCredentials
                } else if self.phase == ConnectPhase::RemovingCredentials {
                    self.phase = ConnectPhase::Finished;
                    ConnectAction::Finish(Err(self.failure_message()))
                } else {
                    self.phase = ConnectPhase::Finished;
                    ConnectAction::Finish(Err(m))
                }
            },
            ConnectEvent::Done => {
                if self.phase == ConnectPhase::Storing {
                    self.phase = ConnectPhase::WritingManifest;
                    ConnectAction::WriteManifest(catalog_server(self.entry))
                } else if self.phase == ConnectPhase::WritingManifest {
                    self.phase = ConnectPhase::Finished;
                    ConnectAction::Finish(Ok(()))
                } else {
                    self.phase = ConnectPhase::Finished;
                    ConnectAction::Finish(Err(self.failure_message()))
                }
            },
            ConnectEvent::Listening(port) => {
                self.redirect_uri = McpConnection::redirect_uri(port);
                match metadata_url(self.entry.url, "/.well-known/oauth-protected-resource", true) {
                    None => {
                        self.phase = ConnectPhase::Finished;
                        ConnectAction::Finish(Err("OAuth metadata URL is too long".to_owned()))
                    },
                    Some(Err(m)) => {
                        self.phase = ConnectPhase::Finished;
                        ConnectAction::Finish(Err(m))
                    },
                    Some(Ok(u)) => {
                        self.phase = ConnectPhase::FetchingProtected;
                        ConnectAction::FetchProtected(u)
                    },
                }
            },
            ConnectEvent::Protected(p) => match McpConnection::issuer(&p) {
                Ok(issuer) => match metadata_url(issuer.as_str(), "/.well-known/oauth-authorization-server", false) {
                    None => {
                        self.phase = ConnectPhase::Finished;
                        ConnectAction::Finish(Err("OAuth metadata URL is too long".to_owned()))
                    },
                    Some(Err(m)) => {
                        self.phase = ConnectPhase::Finished;
                        ConnectAction::Finish(Err(m))
                    },
                    Some(Ok(u)) => {
                        self.phase = ConnectPhase::FetchingAuthorization;
                        ConnectAction::FetchAuthorization(u)
                    },
                },
                Err(m) => {
                    self.phase = ConnectPhase::Finished;
                    ConnectAction::Finish(Err(m))
                },
            },
            ConnectEvent::Authorization(a) => match McpConnection::registration_endpoint(&a) {
                Ok(endpoint) => {
                    self.phase = ConnectPhase::Registering;
                    self.authorization = Some(a);
                    ConnectAction::Register { endpoint, redirect_uri: self.redirect_uri.clone() }
                },
                Err(m) => {
                    self.phase = ConnectPhase::Finished;
                    ConnectAction::Finish(Err(m))
                },
            },
            ConnectEvent::Registered(reg) => {
                let endpoint = match &self.authorization {
                    Some(a) => a.authorization_endpoint.clone(),
                    None => String::new(),
                };
                let url = authorization_url_checked(
                    endpoint.as_str(),
                    reg.client_id.as_str(),
                    self.redirect_uri.as_str(),
                    self.challenge.as_str(),
                    self.state.as_str(),
                    self.entry.url,
                    self.entry.scopes,
                );
                match url {
                    None => {
                        self.phase = ConnectPhase::Finished;
                        ConnectAction::Finish(Err("OAuth authorization URL is too long".to_owned()))
                    },
                    Some(Err(m)) => {
                        self.phase = ConnectPhase::Finished;
                        ConnectAction::Finish(Err(m))
                    },
                    Some(Ok(url)) => {
                        self.phase = ConnectPhase::Authorizing;
                        self.registration = Some(reg);
                        ConnectAction::Authorize { url, state: self.state.clone() }
                    },
                }
            },
            ConnectEvent::Code(code) => {
                let (form, token_endpoint) = match (&self.registration, &self.authorization) {
                    (Some(registration), Some(a)) => (
                        McpConnection::exchange_form(
                            registration,
                            code.as_str(),
                            self.verifier.as_str(),
                            self.redirect_uri.as_str(),
                            self.entry.url,
                        ),
                        a.token_endpoint.clone(),
                    ),
                    _ => (Vec::new(), String::new()),
                };
                self.phase = ConnectPhase::Exchanging;
                ConnectAction::Exchange { token_endpoint, form }
            },
            ConnectEvent::Token(token, now) => {
                let credentials = match (&self.registration, &self.authorization) {
                    (Some(registration), Some(a)) => McpConnection::credentials(
                        a,
                        copy_registration(registration),
                        token,
                        now,
                        self.entry,
                    ),
                    _ => McpConnection::credentials(
                        &AuthorizationServer {
                            authorization_endpoint: String::new(),
                            token_endpoint: String::new(),
                            registration_endpoint: None,
                        },
                        ClientRegistration { client_id: String::new(), client_secret: None },
                        token,
                        now,
                        self.entry,
                    ),
                };
                self.phase = ConnectPhase::Storing;
                ConnectAction::Store(credentials)
            },
        }
    }
}

} // verus!
