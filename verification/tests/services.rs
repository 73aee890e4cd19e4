use vmux::bookmarks::{key_of, OfferedBookmarkDefaults};
use vmux::mcp::catalog::{McpCatalog, McpServerStatus, McpServerSummary, McpTransport};
use vmux::mcp::credentials::{exit_code, BrokerOutcome, McpCredentialAction, McpCredentialArgs};
use vmux::mcp::oauth::{authorization_url, authorization_url_checked, base64_url, join_words, pkce_challenge, McpCallback};

#[test]
fn pkce_uses_unpadded_url_safe_base64() {
    assert_eq!(base64_url(&[0xfb, 0xff]), "-_8");
}

#[test]
fn base64_of_whole_and_partial_groups() {
    assert_eq!(base64_url(b""), "");
    assert_eq!(base64_url(b"f"), "Zg");
    assert_eq!(base64_url(b"fo"), "Zm8");
    assert_eq!(base64_url(b"foo"), "Zm9v");
    assert_eq!(base64_url(b"foobar"), "Zm9vYmFy");
}

#[test]
fn pkce_challenge_is_the_encoded_sha256_of_the_verifier() {
    assert_eq!(
        pkce_challenge("dBjftJeZ4CVP-mB92K27uhbUJU1p1r_wW1gFWFOEjXk"),
        "E9Melhoa2OwvFrEMTJguCHaoeK1t8URWbuGJSstw-cM"
    );
}

#[test]
fn oauth_callback_requires_the_matching_state() {
    assert_eq!(McpCallback::code("/callback?code=abc&state=expected", "expected").unwrap(), "abc");
    assert!(McpCallback::code("/callback?code=abc&state=wrong", "expected").is_err());
}

#[test]
fn oauth_callback_reports_errors_and_missing_codes() {
    assert_eq!(
        McpCallback::code("/callback?state=s&error=denied&error_description=No+way", "s"),
        Err("No way".to_string())
    );
    assert_eq!(McpCallback::code("/callback?state=s&error=denied", "s"), Err("denied".to_string()));
    assert_eq!(
        McpCallback::code("/callback?state=s", "s"),
        Err("OAuth callback omitted authorization code".to_string())
    );
    assert_eq!(
        McpCallback::code("/callback?code=c", "s"),
        Err("OAuth callback omitted state".to_string())
    );
}

#[test]
fn authorization_url_carries_the_pkce_request() {
    let url = authorization_url(
        "https://auth.example/authorize",
        "client",
        "http://127.0.0.1:5000/callback",
        "challenge",
        "state",
        "https://mcp.linear.app/mcp",
        &["read", "write"],
    )
    .unwrap();
    assert!(url.starts_with("https://auth.example/authorize?response_type=code&client_id=client"));
    assert!(url.contains("code_challenge_method=S256"));
    assert!(url.ends_with("scope=read+write"));
    assert!(authorization_url("not a url", "c", "r", "ch", "s", "res", &[]).is_err());
    assert_eq!(join_words(&["read", "write"]), "read write");
}

#[test]
fn checked_authorization_url_keeps_the_fragment_after_the_query() {
    let url = authorization_url_checked("https://a.test/auth#frag", "c", "r", "ch", "s", "res", &["x"])
        .unwrap()
        .unwrap();
    assert!(url.starts_with("https://a.test/auth?response_type=code&client_id=c"));
    assert!(url.ends_with("&scope=x#frag"));
    assert_eq!(
        authorization_url_checked("not a url", "c", "r", "ch", "s", "res", &[]),
        Some(Err("invalid OAuth authorization URL: relative URL without a base".to_string()))
    );
}

#[test]
fn catalog_lists_linear_then_configured_servers() {
    assert!(McpCatalog::get("linear").is_some());
    assert!(McpCatalog::get("github").is_none());
    assert_eq!(McpCatalog::status(true, true), McpServerStatus::Connected);
    assert_eq!(McpCatalog::status(true, false), McpServerStatus::AuthenticationRequired);
    assert_eq!(McpCatalog::status(false, true), McpServerStatus::Available);
    let servers = [
        McpServerSummary { id: "linear".to_string(), transport: McpTransport::Http, command: None, url: None },
        McpServerSummary { id: "vmux".to_string(), transport: McpTransport::Stdio, command: None, url: None },
        McpServerSummary { id: "local".to_string(), transport: McpTransport::Stdio, command: Some("npx".to_string()), url: None },
        McpServerSummary { id: "bare".to_string(), transport: McpTransport::Sse, command: None, url: None },
    ];
    let rows = McpCatalog::snapshot(&servers, false);
    assert_eq!(rows.len(), 3);
    assert_eq!(rows[0].id, "linear");
    assert_eq!(rows[0].status, McpServerStatus::AuthenticationRequired);
    assert_eq!(rows[1].description, "npx");
    assert_eq!(rows[2].description, "sse");
    assert_eq!(rows[2].status, McpServerStatus::Configured);
}

#[test]
fn credential_broker_exit_codes() {
    assert_eq!(exit_code(&BrokerOutcome::Done(vec![])), 0);
    assert_eq!(exit_code(&BrokerOutcome::Missing), 2);
    assert_eq!(exit_code(&BrokerOutcome::Failed("x".to_string())), 1);
    assert_eq!(exit_code(&BrokerOutcome::Unauthorized("x".to_string())), 1);
    let args = McpCredentialArgs::new(McpCredentialAction::Store, "linear".to_string());
    assert_eq!(args.action_of(), McpCredentialAction::Store);
    assert_eq!(args.account_of(), "linear");
}

#[test]
fn removed_default_bookmarks_are_not_offered_again() {
    let defaults: Vec<String> = vec!["vmux://start/".into(), "vmux://terminal/".into()];
    let mut offered = OfferedBookmarkDefaults::default();

    assert_eq!(offered.claim_new(&defaults), defaults);
    assert!(offered.claim_new(&defaults).is_empty());
}

#[test]
fn bookmark_keys_ignore_case_space_and_trailing_slashes() {
    assert_eq!(key_of("  HTTPS://Example.com// ").into_iter().collect::<String>(), "https://example.com");
    let mut offered = OfferedBookmarkDefaults { urls: vec!["https://example.com".to_string()] };
    let defaults: Vec<String> = vec![
        "https://EXAMPLE.com/".into(),
        "   ".into(),
        "vmux://start/".into(),
        "VMUX://start".into(),
    ];
    assert_eq!(offered.claim_new(&defaults), vec!["vmux://start/".to_string()]);
    assert_eq!(offered.urls, vec!["https://example.com".to_string(), "vmux://start/".to_string()]);
}

use vmux::mcp::managed::{catalog_server, load, McpAuthorization, McpServerManifest};
use vmux::mcp::session::{
    new_state, new_verifier, AuthorizationServer, ClientRegistration, McpConnection,
    McpOauthCredentials, McpRefresh, ProtectedResource, TokenResponse,
};

fn manifest(headers: Vec<(String, String)>) -> McpServerManifest {
    McpServerManifest {
        transport: McpTransport::Http,
        command: None,
        args: Vec::new(),
        env: Vec::new(),
        cwd: None,
        url: Some("https://example.com/mcp".to_string()),
        headers,
        header_env: Vec::new(),
        bearer_token_env_var: None,
    }
}

fn pair(k: &str, v: &str) -> (String, String) {
    (k.to_string(), v.to_string())
}

#[test]
fn stored_sessions_become_bearer_headers() {
    let mut server = manifest(vec![pair("B", "1"), pair("X-Key", "value")]);
    assert_eq!(McpAuthorization::apply(&mut server, Ok(Some("tok".to_string()))), Ok(()));
    assert_eq!(server.headers, vec![pair("Authorization", "Bearer tok"), pair("B", "1"), pair("X-Key", "value")]);
    assert_eq!(McpAuthorization::apply(&mut server, Ok(Some("new".to_string()))), Ok(()));
    assert_eq!(server.headers[0], pair("Authorization", "Bearer new"));
    let before = server.clone();
    assert_eq!(
        McpAuthorization::apply(&mut server, Ok(Some(String::new()))),
        Err("stored access token is empty".to_string())
    );
    assert_eq!(McpAuthorization::apply(&mut server, Ok(None)), Ok(()));
    assert_eq!(McpAuthorization::apply(&mut server, Err("locked".to_string())), Err("locked".to_string()));
    assert_eq!(server, before);
}

#[test]
fn loading_applies_each_session_and_survives_a_missing_manifest() {
    let servers = vec![("a".to_string(), manifest(vec![])), ("b".to_string(), manifest(vec![]))];
    let loaded = load(Ok(servers), vec![Ok(Some("t".to_string())), Err("x".to_string())]);
    assert_eq!(loaded.len(), 2);
    assert_eq!(loaded[0].1.headers, vec![pair("Authorization", "Bearer t")]);
    assert!(loaded[1].1.headers.is_empty());
    assert!(load(Err("no manifest".to_string()), vec![]).is_empty());
    let written = catalog_server(McpCatalog::get("linear").unwrap());
    assert_eq!(written.url.as_deref(), Some("https://mcp.linear.app/mcp"));
    assert_eq!(written.transport, McpTransport::Http);
}

fn credentials(refresh: Option<&str>, secret: Option<&str>, resource: &str, scope: &str) -> McpOauthCredentials {
    McpOauthCredentials {
        token_endpoint: "https://auth.example/token".to_string(),
        client_id: "client".to_string(),
        client_secret: secret.map(str::to_string),
        access_token: "old".to_string(),
        refresh_token: refresh.map(str::to_string),
        expires_at: 10,
        scope: scope.to_string(),
        resource: resource.to_string(),
    }
}

#[test]
fn refresh_forms_carry_what_the_session_has() {
    assert_eq!(
        McpRefresh::form(&credentials(None, None, "", "")),
        Err("OAuth session expired and has no refresh token".to_string())
    );
    assert_eq!(
        McpRefresh::form(&credentials(Some("r"), Some("s"), "https://res", "read")).unwrap(),
        vec![
            pair("grant_type", "refresh_token"),
            pair("refresh_token", "r"),
            pair("client_id", "client"),
            pair("client_secret", "s"),
            pair("resource", "https://res"),
            pair("scope", "read"),
        ]
    );
    assert_eq!(McpRefresh::form(&credentials(Some("r"), None, "", "")).unwrap().len(), 3);
}

#[test]
fn refresh_answers_update_the_session() {
    let mut c = credentials(Some("r"), None, "", "read");
    McpRefresh::apply(
        &mut c,
        TokenResponse { access_token: "a2".to_string(), refresh_token: None, expires_in: Some(60), scope: None },
        1000,
    );
    assert_eq!((c.access_token.as_str(), c.refresh_token.as_deref(), c.expires_at, c.scope.as_str()), ("a2", Some("r"), 1060, "read"));
    McpRefresh::apply(
        &mut c,
        TokenResponse { access_token: "a3".to_string(), refresh_token: Some("r2".to_string()), expires_in: None, scope: Some("all".to_string()) },
        1000,
    );
    assert_eq!((c.refresh_token.as_deref(), c.expires_at, c.scope.as_str()), (Some("r2"), 0, "all"));
}

#[test]
fn connecting_builds_the_oauth_requests() {
    assert_eq!(McpConnection::redirect_uri(49152), "http://127.0.0.1:49152/callback");
    assert_eq!(
        McpConnection::issuer(&ProtectedResource { authorization_servers: vec!["https://a".to_string(), "https://b".to_string()] }),
        Ok("https://a".to_string())
    );
    assert!(McpConnection::issuer(&ProtectedResource { authorization_servers: vec![] }).is_err());
    let auth = AuthorizationServer {
        authorization_endpoint: "https://a/authorize".to_string(),
        token_endpoint: "https://a/token".to_string(),
        registration_endpoint: None,
    };
    assert_eq!(
        McpConnection::registration_endpoint(&auth),
        Err("OAuth server does not support dynamic client registration".to_string())
    );
    assert_eq!(
        McpConnection::response_body(false, "400 Bad Request", "nope".to_string()),
        Err("OAuth request failed (400 Bad Request): nope".to_string())
    );
    assert_eq!(McpConnection::response_body(true, "200 OK", "{}".to_string()), Ok("{}".to_string()));
    let registration = ClientRegistration { client_id: "c".to_string(), client_secret: Some("s".to_string()) };
    let form = McpConnection::exchange_form(&registration, "code", "ver", "http://127.0.0.1:1/callback", "https://res");
    assert_eq!(form.len(), 7);
    assert_eq!(form[0], pair("grant_type", "authorization_code"));
    assert_eq!(form[6], pair("client_secret", "s"));
    let token = TokenResponse { access_token: "at".to_string(), refresh_token: None, expires_in: Some(5), scope: None };
    let saved = McpConnection::credentials(&auth, registration, token, 100, McpCatalog::get("linear").unwrap());
    assert_eq!((saved.expires_at, saved.scope.as_str(), saved.resource.as_str()), (105, "read write", "https://mcp.linear.app/mcp"));
}

#[test]
fn verifiers_and_states_are_fresh_hex() {
    let verifier = new_verifier();
    let state = new_state();
    assert_eq!(verifier.len(), 64);
    assert_eq!(state.len(), 32);
    assert!(verifier.chars().chain(state.chars()).all(|c| c.is_ascii_hexdigit() && !c.is_ascii_uppercase()));
    assert_ne!(new_state(), new_state());
}

#[test]
fn callback_requests_name_their_target() {
    assert_eq!(
        McpCallback::target("GET /callback?code=abc&state=s HTTP/1.1\r\nHost: 127.0.0.1\r\n\r\n"),
        Ok("/callback?code=abc&state=s".to_string())
    );
    assert_eq!(McpCallback::target("GET   /x"), Ok("/x".to_string()));
    assert_eq!(McpCallback::target(""), Err("invalid OAuth callback".to_string()));
    assert_eq!(McpCallback::target("GET\r\n/x"), Err("invalid OAuth callback".to_string()));
    assert!(McpCallback::response(true).starts_with("HTTP/1.1 204"));
    assert!(McpCallback::response(false).starts_with("HTTP/1.1 400"));
}

use vmux::mcp::launch::{acp_server, claude_value, vibe_value, LaunchField, ManagedMcpServer, ManagedMcpTransport};

fn text(key: &str, value: &str) -> (String, LaunchField) {
    (key.to_string(), LaunchField::Text(value.to_string()))
}

fn stdio_server() -> McpServerManifest {
    McpServerManifest {
        transport: McpTransport::Stdio,
        command: Some("npx".to_string()),
        args: vec!["-y".to_string(), "server".to_string()],
        env: vec![pair("MODE", "local")],
        cwd: Some("/tmp/project".to_string()),
        url: None,
        headers: Vec::new(),
        header_env: Vec::new(),
        bearer_token_env_var: None,
    }
}

#[test]
fn claude_projection_resolves_remote_headers() {
    let server = manifest(vec![pair("X-Key", "value")]);
    assert_eq!(
        claude_value(&server, &server.headers),
        vec![
            text("type", "http"),
            text("url", "https://example.com/mcp"),
            ("headers".to_string(), LaunchField::Table(vec![pair("X-Key", "value")])),
        ]
    );
}

#[test]
fn acp_projection_preserves_stdio_launch_configuration() {
    assert_eq!(
        acp_server("local".to_string(), stdio_server(), Vec::new()),
        ManagedMcpServer {
            name: "local".to_string(),
            transport: ManagedMcpTransport::Stdio,
            command: Some("npx".to_string()),
            args: vec!["-y".to_string(), "server".to_string()],
            env: vec![pair("MODE", "local")],
            cwd: Some("/tmp/project".to_string()),
            url: None,
            headers: Vec::new(),
        }
    );
}

#[test]
fn stdio_entries_leave_out_empty_keys() {
    let mut server = stdio_server();
    server.env = Vec::new();
    server.cwd = None;
    assert_eq!(
        claude_value(&server, &Vec::new()),
        vec![
            text("command", "npx"),
            ("args".to_string(), LaunchField::List(vec!["-y".to_string(), "server".to_string()])),
        ]
    );
    server.args = Vec::new();
    server.command = None;
    assert_eq!(claude_value(&server, &Vec::new()), Vec::new());
}

#[test]
fn vibe_entries_name_the_server_and_its_transport() {
    let mut server = manifest(Vec::new());
    server.transport = McpTransport::Sse;
    assert_eq!(claude_value(&server, &Vec::new())[0], text("type", "sse"));
    assert_eq!(
        vibe_value("remote", &server, &vec![pair("Authorization", "Bearer t")]),
        vec![
            text("url", "https://example.com/mcp"),
            ("headers".to_string(), LaunchField::Table(vec![pair("Authorization", "Bearer t")])),
            text("name", "remote"),
            text("transport", "sse"),
        ]
    );
    assert_eq!(
        vibe_value("local", &stdio_server(), &Vec::new()),
        vec![
            text("command", "npx"),
            ("args".to_string(), LaunchField::List(vec!["-y".to_string(), "server".to_string()])),
            ("env".to_string(), LaunchField::Table(vec![pair("MODE", "local")])),
            text("cwd", "/tmp/project"),
            text("name", "local"),
            text("transport", "stdio"),
        ]
    );
}

use vmux::mcp::connect::{ConnectAction, ConnectEvent, ConnectPhase, McpConnect};

fn registered(flow: &mut McpConnect) {
    assert!(matches!(flow.step(ConnectEvent::Listening(4711)), ConnectAction::FetchProtected(u) if u == "https://mcp.linear.app/.well-known/oauth-protected-resource/mcp"));
    let issuer = flow.step(ConnectEvent::Protected(ProtectedResource {
        authorization_servers: vec!["https://auth.test".to_string()],
    }));
    assert!(matches!(issuer, ConnectAction::FetchAuthorization(i) if i == "https://auth.test/.well-known/oauth-authorization-server"));
    let register = flow.step(ConnectEvent::Authorization(AuthorizationServer {
        authorization_endpoint: "https://auth.test/authorize".to_string(),
        token_endpoint: "https://auth.test/token".to_string(),
        registration_endpoint: Some("https://auth.test/register".to_string()),
    }));
    match register {
        ConnectAction::Register { endpoint, redirect_uri } => {
            assert_eq!(endpoint, "https://auth.test/register");
            assert_eq!(redirect_uri, "http://127.0.0.1:4711/callback");
        }
        other => panic!("{other:?}"),
    }
    match flow.step(ConnectEvent::Registered(ClientRegistration { client_id: "cid".to_string(), client_secret: None })) {
        ConnectAction::Authorize { url, state } => {
            assert!(url.starts_with("https://auth.test/authorize?response_type=code&client_id=cid"));
            assert!(url.contains(&format!("state={state}")));
            assert!(url.ends_with("scope=read+write"));
        }
        other => panic!("{other:?}"),
    }
    match flow.step(ConnectEvent::Code("abc".to_string())) {
        ConnectAction::Exchange { token_endpoint, form } => {
            assert_eq!(token_endpoint, "https://auth.test/token");
            assert_eq!(form[1], pair("code", "abc"));
        }
        other => panic!("{other:?}"),
    }
    let token = TokenResponse { access_token: "tok".to_string(), refresh_token: None, expires_in: Some(60), scope: None };
    match flow.step(ConnectEvent::Token(token, 1000)) {
        ConnectAction::Store(credentials) => {
            assert_eq!(credentials.access_token, "tok");
            assert_eq!(credentials.expires_at, 1060);
            assert_eq!(credentials.scope, "read write");
        }
        other => panic!("{other:?}"),
    }
    assert!(matches!(flow.step(ConnectEvent::Done), ConnectAction::WriteManifest(_)));
}

#[test]
fn connecting_runs_the_steps_in_order() {
    assert_eq!(McpConnect::begin("github").err(), Some("Unknown MCP server: github".to_string()));
    let (mut flow, first) = McpConnect::begin("linear").unwrap();
    assert!(matches!(first, ConnectAction::Listen));
    registered(&mut flow);
    assert!(matches!(flow.step(ConnectEvent::Done), ConnectAction::Finish(Ok(()))));
    assert_eq!(flow.phase, ConnectPhase::Finished);
}

#[test]
fn a_manifest_that_cannot_be_written_removes_the_stored_session() {
    let (mut flow, _) = McpConnect::begin("linear").unwrap();
    registered(&mut flow);
    assert!(matches!(flow.step(ConnectEvent::Failed("disk full".to_string())), ConnectAction::RemoveCredentials));
    assert!(matches!(flow.step(ConnectEvent::Failed("keychain".to_string())), ConnectAction::Finish(Err(e)) if e == "disk full"));
}

#[test]
fn the_first_failure_ends_the_connection() {
    let (mut flow, _) = McpConnect::begin("linear").unwrap();
    flow.step(ConnectEvent::Listening(1));
    assert!(matches!(
        flow.step(ConnectEvent::Protected(ProtectedResource { authorization_servers: vec![] })),
        ConnectAction::Finish(Err(e)) if e == "MCP server did not advertise an authorization server"
    ));
    let (mut flow, _) = McpConnect::begin("linear").unwrap();
    assert!(matches!(flow.step(ConnectEvent::Failed("failed to open OAuth callback: busy".to_string())), ConnectAction::Finish(Err(e)) if e == "failed to open OAuth callback: busy"));
}

#[test]
fn metadata_urls_live_under_well_known() {
    assert_eq!(
        vmux::mcp::oauth::metadata_url("https://a.test/mcp/v1?x=1#f", "/.well-known/oauth-protected-resource", true),
        Some(Ok("https://a.test/.well-known/oauth-protected-resource/mcp/v1#f".to_string()))
    );
    assert_eq!(
        vmux::mcp::oauth::metadata_url("https://auth.test/tenant", "/.well-known/oauth-authorization-server", false),
        Some(Ok("https://auth.test/.well-known/oauth-authorization-server".to_string()))
    );
    assert_eq!(
        vmux::mcp::oauth::metadata_url("nope", "/x", false),
        Some(Err("relative URL without a base".to_string()))
    );
}
