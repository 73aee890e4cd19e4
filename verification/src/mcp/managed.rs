//! The MCP servers the agent is given: the manifest's servers, each with
//! the bearer token of its stored OAuth session where it has one.
use vstd::prelude::*;
use crate::keyed::{insert_pair, keyed_map, keys_sorted, string_pairs};
use crate::mcp::catalog::{McpCatalogEntry, McpTransport};
use crate::text::push_str;

verus! {

/// A server of the tools manifest. Maps are lists of pairs kept in key
/// order.
#[derive(Clone, Debug, PartialEq, Eq)]
pub struct McpServerManifest {
    pub transport: McpTransport,
    pub command: Option<String>,
    pub args: Vec<String>,
    pub env: Vec<(String, String)>,
    pub cwd: Option<String>,
    pub url: Option<String>,
    pub headers: Vec<(String, String)>,
    pub header_env: Vec<(String, String)>,
    pub bearer_token_env_var: Option<String>,
}

/// The headers of a server as a map.
pub open spec fn header_map(s: McpServerManifest) -> Map<Seq<char>, Seq<char>> {
    keyed_map(string_pairs(s.headers@))
}

/// Whether a server's headers are kept in key order.
pub open spec fn headers_sorted(s: McpServerManifest) -> bool {
    keys_sorted(string_pairs(s.headers@))
}

/// Whether two servers agree on everything but their headers.
pub open spec fn same_but_headers(a: McpServerManifest, b: McpServerManifest) -> bool {
    &&& a.transport == b.transport
    &&& a.command == b.command
    &&& a.args == b.args
    &&& a.env == b.env
    &&& a.cwd == b.cwd
    &&& a.url == b.url
    &&& a.header_env == b.header_env
    &&& a.bearer_token_env_var == b.bearer_token_env_var
}

/// The stored OAuth session of a server.
pub struct McpAuthorization;

impl McpAuthorization {
    /// Adds the server's stored access token as its `Authorization` header.
    /// `credentials` is what reading the stored session (and refreshing it
    /// when it expires soon) gave: an error, no session, or the access
    /// token. Without a session the server is left as it is; an error, or
    /// an empty token, is returned and the server is left as it is.
    pub fn apply(server: &mut McpServerManifest, credentials: Result<Option<String>, String>) -> (r: Result<(), String>)
        requires
            headers_sorted(*old(server)),
        ensures
            headers_sorted(*final(server)),
            match credentials {
                Err(e) => r == Err::<(), String>(e) && *final(server) == *old(server),
                Ok(None) => r is Ok && *final(server) == *old(server),
                Ok(Some(token)) => if token@.len() == 0 {
                    r matches Err(m) && m@ == "stored access token is empty"@ && *final(server) == *old(server)
                } else {
                    &&& r is Ok
                    &&& same_but_headers(*final(server), *old(server))
                    &&& header_map(*final(server)) == header_map(*old(server)).insert("Authorization"@, "Bearer "@ + token@)
                },
            },
    {
        let token = match credentials {
            Err(e) => return Err(e),
            Ok(None) => return Ok(()),
            Ok(Some(token)) => token,
        };
        if token.unicode_len() == 0 {
            return Err("stored access token is empty".to_owned());
        }
        let mut value = "Bearer ".to_owned();
        push_str(&mut value, token.as_str());
        insert_pair(&mut server.headers, "Authorization".to_owned(), value);
        Ok(())
    }
}

/// What loading the servers gives for one server and its session.
pub open spec fn loaded_server(before: McpServerManifest, credentials: Result<Option<String>, String>, after: McpServerManifest) -> bool {
    match credentials {
        Ok(Some(token)) => if token@.len() > 0 {
            same_but_headers(after, before) && header_map(after) == header_map(before).insert(
                "Authorization"@,
                "Bearer "@ + token@,
            ) && headers_sorted(after)
        } else {
            after == before
        },
        _ => after == before,
    }
}

/// The servers of the manifest with their sessions applied, in the
/// manifest's order; none when the manifest could not be read. `sessions`
/// holds, for each server in order, what reading its stored session gave;
/// a failure leaves that server as it is.
pub fn load(
    manifest: Result<Vec<(String, McpServerManifest)>, String>,
    sessions: Vec<Result<Option<String>, String>>,
) -> (r: Vec<(String, McpServerManifest)>)
    requires
        manifest matches Ok(servers) ==> servers@.len() == sessions@.len() && forall|i: int|
            0 <= i < servers@.len() ==> headers_sorted(#[trigger] servers@[i].1),
    ensures
        match manifest {
            Err(_) => r@.len() == 0,
            Ok(servers) => r@.len() == servers@.len() && forall|i: int| 0 <= i < r@.len() ==> {
                &&& (#[trigger] r@[i]).0 == servers@[i].0
                &&& loaded_server(servers@[i].1, sessions@[i], r@[i].1)
            },
        },
{
    let servers = match manifest {
        Err(_) => return Vec::new(),
        Ok(servers) => servers,
    };
    let ghost given = servers@;
    let ghost all_sessions = sessions@;
    let mut out: Vec<(String, McpServerManifest)> = Vec::new();
    let mut rest = servers;
    let mut pending = sessions;
    let n = rest.len();
    let mut i: usize = 0;
    while i < n
        invariant
            n == given.len(),
            all_sessions.len() == n,
            i <= n,
            rest@ =~= given.subrange(i as int, n as int),
            pending@ =~= all_sessions.subrange(i as int, n as int),
            forall|k: int| 0 <= k < n ==> headers_sorted(#[trigger] given[k].1),
            out@.len() == i,
            forall|k: int| 0 <= k < i ==> {
                &&& (#[trigger] out@[k]).0 == given[k].0
                &&& loaded_server(given[k].1, all_sessions[k], out@[k].1)
            },
        decreases n - i,
    {
        let (name, mut server) = rest.remove(0);
        let session = pending.remove(0);
        let _ = McpAuthorization::apply(&mut server, session);
        out.push((name, server));
        i = i + 1;
    }
    out
}

/// Whether `r` is the manifest entry of a catalog server: reached over HTTP
/// at the catalog's URL, with nothing else set.
pub open spec fn is_catalog_server(entry: McpCatalogEntry, r: McpServerManifest) -> bool {
    &&& r.transport == McpTransport::Http
    &&& r.url matches Some(u) && u@ == entry.url@
    &&& r.command is None && r.cwd is None && r.bearer_token_env_var is None
    &&& r.args@.len() == 0 && r.env@.len() == 0 && r.headers@.len() == 0 && r.header_env@.len() == 0
}

/// The manifest entry written for a catalog server once it is connected:
/// reached over HTTP at the catalog's URL, with nothing else set.
pub fn catalog_server(entry: McpCatalogEntry) -> (r: McpServerManifest)
    ensures
        is_catalog_server(entry, r),
{
    McpServerManifest {
        transport: McpTransport::Http,
        command: None,
        args: Vec::new(),
        env: Vec::new(),
        cwd: None,
        url: Some(entry.url.to_owned()),
        headers: Vec::new(),
        header_env: Vec::new(),
        bearer_token_env_var: None,
    }
}

} // verus!
