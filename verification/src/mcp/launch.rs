//! The entries written into the coding agents' MCP configurations: a server
//! of the manifest projected onto the keys each agent reads.
//!
//! An entry is an object; here it is the list of its keys with their
//! values, in the order they are written. A key whose value would be empty
//! is left out.
use vstd::prelude::*;
use crate::keyed::string_pairs;
use crate::mcp::catalog::{transport_name, McpTransport};
use crate::mcp::managed::McpServerManifest;
use crate::text::{copy_pairs, copy_strings};

verus! {

/// The value of a key of an entry: text, a list of texts, or an object of
/// texts.
#[derive(Debug, PartialEq, Eq)]
pub enum LaunchField {
    Text(String),
    List(Vec<String>),
    Table(Vec<(String, String)>),
}

/// A value as sequences of characters.
pub enum FieldView {
    Text(Seq<char>),
    List(Seq<Seq<char>>),
    Table(Seq<(Seq<char>, Seq<char>)>),
}

impl View for LaunchField {
    type V = FieldView;

    open spec fn view(&self) -> FieldView {
        match self {
            LaunchField::Text(s) => FieldView::Text(s@),
            LaunchField::List(v) => FieldView::List(crate::text::views_of_strings(v@)),
            LaunchField::Table(t) => FieldView::Table(string_pairs(t@)),
        }
    }
}

/// The keys and values of an entry as sequences of characters.
pub open spec fn entry_views(v: Seq<(String, LaunchField)>) -> Seq<(Seq<char>, FieldView)> {
    v.map_values(|e: (String, LaunchField)| (e.0@, e.1@))
}

/// `key` with its text, when there is one.
pub open spec fn text_entry(key: Seq<char>, v: Option<String>) -> Seq<(Seq<char>, FieldView)> {
    match v {
        Some(s) => seq![(key, FieldView::Text(s@))],
        None => Seq::empty(),
    }
}

/// `key` with its list, when it is not empty.
pub open spec fn list_entry(key: Seq<char>, items: Seq<Seq<char>>) -> Seq<(Seq<char>, FieldView)> {
    if items.len() == 0 {
        Seq::empty()
    } else {
        seq![(key, FieldView::List(items))]
    }
}

/// `key` with its object, when it is not empty.
pub open spec fn table_entry(key: Seq<char>, pairs: Seq<(Seq<char>, Seq<char>)>) -> Seq<(Seq<char>, FieldView)> {
    if pairs.len() == 0 {
        Seq::empty()
    } else {
        seq![(key, FieldView::Table(pairs))]
    }
}

/// How a server is launched or reached: a local command with its
/// arguments, environment and working directory, or a URL with the
/// resolved request headers.
pub open spec fn launch_entries(s: McpServerManifest, headers: Seq<(Seq<char>, Seq<char>)>) -> Seq<(Seq<char>, FieldView)> {
    match s.transport {
        McpTransport::Stdio => text_entry("command"@, s.command) + list_entry("args"@, crate::text::views_of_strings(s.args@))
            + table_entry("env"@, string_pairs(s.env@)) + text_entry("cwd"@, s.cwd),
        _ => text_entry("url"@, s.url) + table_entry("headers"@, headers),
    }
}

/// The `mcpServers` entry of a project's `.mcp.json`: a remote server
/// names its `type` (`http` or `sse`) first.
pub open spec fn mcp_json_entries(s: McpServerManifest, headers: Seq<(Seq<char>, Seq<char>)>) -> Seq<(Seq<char>, FieldView)> {
    match s.transport {
        McpTransport::Stdio => launch_entries(s, headers),
        McpTransport::Http => seq![("type"@, FieldView::Text("http"@))] + launch_entries(s, headers),
        McpTransport::Sse => seq![("type"@, FieldView::Text("sse"@))] + launch_entries(s, headers),
    }
}

/// The entry of a Vibe configuration: the launch keys, then the server's
/// `name` and its `transport`, with no `type`.
pub open spec fn vibe_entries(name: Seq<char>, s: McpServerManifest, headers: Seq<(Seq<char>, Seq<char>)>) -> Seq<(Seq<char>, FieldView)> {
    launch_entries(s, headers) + seq![
        ("name"@, FieldView::Text(name)),
        ("transport"@, FieldView::Text(transport_name(s.transport))),
    ]
}

fn push_text(out: &mut Vec<(String, LaunchField)>, key: &str, v: &Option<String>)
    ensures
        entry_views(final(out)@) == entry_views(old(out)@) + text_entry(key@, *v),
{
    if let Some(s) = v {
        let ghost before = out@;
        out.push((key.to_owned(), LaunchField::Text(s.clone())));
        assert(entry_views(out@) =~= entry_views(before) + text_entry(key@, *v));
    } else {
        assert(entry_views(out@) =~= entry_views(out@) + text_entry(key@, *v));
    }
}

fn push_list(out: &mut Vec<(String, LaunchField)>, key: &str, items: &Vec<String>)
    ensures
        entry_views(final(out)@) == entry_views(old(out)@) + list_entry(key@, crate::text::views_of_strings(items@)),
{
    if items.len() > 0 {
        let ghost before = out@;
        out.push((key.to_owned(), LaunchField::List(copy_strings(items))));
        assert(entry_views(out@) =~= entry_views(before) + list_entry(key@, crate::text::views_of_strings(items@)));
    } else {
        assert(entry_views(out@) =~= entry_views(out@) + list_entry(key@, crate::text::views_of_strings(items@)));
    }
}

fn push_table(out: &mut Vec<(String, LaunchField)>, key: &str, pairs: &Vec<(String, String)>)
    ensures
        entry_views(final(out)@) == entry_views(old(out)@) + table_entry(key@, string_pairs(pairs@)),
{
    if pairs.len() > 0 {
        let ghost before = out@;
        out.push((key.to_owned(), LaunchField::Table(copy_pairs(pairs))));
        assert(entry_views(out@) =~= entry_views(before) + table_entry(key@, string_pairs(pairs@)));
    } else {
        assert(entry_views(out@) =~= entry_views(out@) + table_entry(key@, string_pairs(pairs@)));
    }
}

fn push_launch(out: &mut Vec<(String, LaunchField)>, server: &McpServerManifest, headers: &Vec<(String, String)>)
    ensures
        entry_views(final(out)@) == entry_views(old(out)@) + launch_entries(*server, string_pairs(headers@)),
{
    let ghost start = entry_views(out@);
    match server.transport {
        McpTransport::Stdio => {
            push_text(out, "command", &server.command);
            push_list(out, "args", &server.args);
            push_table(out, "env", &server.env);
            push_text(out, "cwd", &server.cwd);
            assert(entry_views(out@) =~= start + launch_entries(*server, string_pairs(headers@)));
        },
        _ => {
            push_text(out, "url", &server.url);
            push_table(out, "headers", headers);
            assert(entry_views(out@) =~= start + launch_entries(*server, string_pairs(headers@)));
        },
    }
}

/// The server's entry in a project's `.mcp.json`. `resolved_headers` are
/// the server's request headers with the values its manifest reads from
/// the environment filled in.
pub fn claude_value(server: &McpServerManifest, resolved_headers: &Vec<(String, String)>) -> (r: Vec<(String, LaunchField)>)
    ensures
        entry_views(r@) == mcp_json_entries(*server, string_pairs(resolved_headers@)),
{
    let mut out: Vec<(String, LaunchField)> = Vec::new();
    match server.transport {
        McpTransport::Stdio => {},
        McpTransport::Http => out.push(("type".to_owned(), LaunchField::Text("http".to_owned()))),
        McpTransport::Sse => out.push(("type".to_owned(), LaunchField::Text("sse".to_owned()))),
    }
    push_launch(&mut out, server, resolved_headers);
    assert(entry_views(out@) =~= mcp_json_entries(*server, string_pairs(resolved_headers@)));
    out
}

/// The server's entry in a Vibe configuration, under `name`.
pub fn vibe_value(name: &str, server: &McpServerManifest, resolved_headers: &Vec<(String, String)>) -> (r: Vec<(String, LaunchField)>)
    ensures
        entry_views(r@) == vibe_entries(name@, *server, string_pairs(resolved_headers@)),
{
    let mut out: Vec<(String, LaunchField)> = Vec::new();
    push_launch(&mut out, server, resolved_headers);
    out.push(("name".to_owned(), LaunchField::Text(name.to_owned())));
    let transport = match server.transport {
        McpTransport::Stdio => "stdio",
        McpTransport::Http => "http",
        McpTransport::Sse => "sse",
    };
    out.push(("transport".to_owned(), LaunchField::Text(transport.to_owned())));
    proof {
        reveal_strlit("stdio");
        reveal_strlit("http");
        reveal_strlit("sse");
    }
    assert(entry_views(out@) =~= vibe_entries(name@, *server, string_pairs(resolved_headers@)));
    out
}

/// How the agent reaches a managed server.
#[derive(Clone, Copy, Debug, PartialEq, Eq, Structural)]
pub enum ManagedMcpTransport {
    Stdio,
    Http,
    Sse,
}

/// A server as the agent protocol hands it over: the launch command or the
/// URL, with the environment and the resolved request headers as lists of
/// pairs.
#[derive(Clone, Debug, PartialEq, Eq)]
pub struct ManagedMcpServer {
    pub name: String,
    pub transport: ManagedMcpTransport,
    pub command: Option<String>,
    pub args: Vec<String>,
    pub env: Vec<(String, String)>,
    pub cwd: Option<String>,
    pub url: Option<String>,
    pub headers: Vec<(String, String)>,
}

/// The protocol's transport for a manifest transport.
pub open spec fn managed_transport(t: McpTransport) -> ManagedMcpTransport {
    match t {
        McpTransport::Stdio => ManagedMcpTransport::Stdio,
        McpTransport::Http => ManagedMcpTransport::Http,
        McpTransport::Sse => ManagedMcpTransport::Sse,
    }
}

/// The server `name` of the manifest as the agent protocol hands it over,
/// with its `resolved_headers`.
pub fn acp_server(name: String, server: McpServerManifest, resolved_headers: Vec<(String, String)>) -> (r: ManagedMcpServer)
    ensures
        r.name == name,
        r.transport == managed_transport(server.transport),
        r.command == server.command,
        r.args == server.args,
        r.env == server.env,
        r.cwd == server.cwd,
        r.url == server.url,
        r.headers == resolved_headers,
{
    ManagedMcpServer {
        name,
        transport: match server.transport {
            McpTransport::Stdio => ManagedMcpTransport::Stdio,
            McpTransport::Http => ManagedMcpTransport::Http,
            McpTransport::Sse => ManagedMcpTransport::Sse,
        },
        command: server.command,
        args: server.args,
        env: server.env,
        cwd: server.cwd,
        url: server.url,
        headers: resolved_headers,
    }
}

} // verus!
