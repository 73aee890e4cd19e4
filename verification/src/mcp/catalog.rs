//! The MCP servers offered in the agent settings: the built-in catalog, the
//! servers configured in the manifest, and the status shown for each.
use vstd::prelude::*;
use crate::text::str_eq;

verus! {

/// How an MCP server is reached.
#[derive(Clone, Copy, Debug, PartialEq, Eq, Structural)]
pub enum McpTransport {
    Stdio,
    Http,
    Sse,
}

/// The status of a server in the settings list.
#[derive(Clone, Copy, Debug, PartialEq, Eq, Structural)]
pub enum McpServerStatus {
    /// In the catalog and in the manifest, with stored credentials.
    Connected,
    /// In the catalog and in the manifest, but without credentials.
    AuthenticationRequired,
    /// In the catalog but not configured.
    Available,
    /// Configured in the manifest by hand.
    Configured,
}

/// A server of the built-in catalog.
#[derive(Clone, Copy, Debug)]
pub struct McpCatalogEntry {
    pub id: &'static str,
    pub name: &'static str,
    pub url: &'static str,
    pub scopes: &'static [&'static str],
}

/// The status of a catalog server: connected when configured and
/// authenticated, awaiting authentication when only configured, otherwise
/// available.
pub open spec fn catalog_status(configured: bool, authenticated: bool) -> McpServerStatus {
    if configured && authenticated {
        McpServerStatus::Connected
    } else if configured {
        McpServerStatus::AuthenticationRequired
    } else {
        McpServerStatus::Available
    }
}

/// What a configured server is reached through, in the settings list.
pub open spec fn transport_name(transport: McpTransport) -> Seq<char> {
    match transport {
        McpTransport::Stdio => "stdio"@,
        McpTransport::Http => "http"@,
        McpTransport::Sse => "sse"@,
    }
}

/// A server configured in the manifest, as the settings list reads it.
#[derive(Clone, Debug)]
pub struct McpServerSummary {
    pub id: String,
    pub transport: McpTransport,
    pub command: Option<String>,
    pub url: Option<String>,
}

/// One row of the settings list.
#[derive(Clone, Debug, PartialEq)]
pub struct McpServerEntry {
    pub id: String,
    pub name: String,
    pub description: String,
    pub status: McpServerStatus,
}

/// The description of a configured server: its URL, else its command, else
/// the name of its transport.
pub open spec fn server_description(server: McpServerSummary) -> Seq<char> {
    match server.url {
        Some(url) => url@,
        None => match server.command {
            Some(command) => command@,
            None => transport_name(server.transport),
        },
    }
}

/// The built-in catalog.
pub struct McpCatalog;

impl McpCatalog {
    /// The catalog's servers: Linear.
    pub fn entries() -> (r: [McpCatalogEntry; 1])
        ensures
            r[0].id@ == "linear"@,
            r[0].name@ == "Linear"@,
            r[0].url@ == "https://mcp.linear.app/mcp"@,
            r[0].scopes@.len() == 2,
            r[0].scopes@[0]@ == "read"@,
            r[0].scopes@[1]@ == "write"@,
    {
        let scopes: &'static [&'static str] = &["read", "write"];
        [McpCatalogEntry { id: "linear", name: "Linear", url: "https://mcp.linear.app/mcp", scopes }]
    }

    /// The catalog server with this id.
    pub fn get(id: &str) -> (r: Option<McpCatalogEntry>)
        ensures
            match r {
                Some(entry) => id@ == "linear"@ && entry.id@ == "linear"@ && entry.url@
                    == "https://mcp.linear.app/mcp"@,
                None => id@ != "linear"@,
            },
    {
        let entries = Self::entries();
        if str_eq(entries[0].id, id) {
            Some(entries[0])
        } else {
            None
        }
    }

    /// The status of a catalog server.
    pub fn status(configured: bool, authenticated: bool) -> (r: McpServerStatus)
        ensures
            r == catalog_status(configured, authenticated),
    {
        if configured && authenticated {
            McpServerStatus::Connected
        } else if configured {
            McpServerStatus::AuthenticationRequired
        } else {
            McpServerStatus::Available
        }
    }

    /// The row of a server configured by hand.
    pub fn configured_entry(server: &McpServerSummary) -> (r: McpServerEntry)
        ensures
            r.id@ == server.id@,
            r.name@ == server.id@,
            r.description@ == server_description(*server),
            r.status == McpServerStatus::Configured,
    {
        let description = match &server.url {
            Some(url) => url.clone(),
            None => match &server.command {
                Some(command) => command.clone(),
                None => match server.transport {
                    McpTransport::Stdio => "stdio".to_owned(),
                    McpTransport::Http => "http".to_owned(),
                    McpTransport::Sse => "sse".to_owned(),
                },
            },
        };
        McpServerEntry {
            id: server.id.clone(),
            name: server.id.clone(),
            description,
            status: McpServerStatus::Configured,
        }
    }

    /// Whether a configured server gets a row of its own: catalog servers
    /// are listed from the catalog, and vmux's own server is hidden.
    pub fn lists_configured(id: &str) -> (r: bool)
        ensures
            r == (id@ != "linear"@ && id@ != "vmux"@),
    {
        !str_eq(id, "linear") && !str_eq(id, "vmux")
    }
}

/// The configured servers that get a row of their own, in manifest order.
pub open spec fn listed_servers(servers: Seq<McpServerSummary>) -> Seq<McpServerSummary>
    decreases servers.len(),
{
    if servers.len() == 0 {
        Seq::empty()
    } else {
        let rest = listed_servers(servers.drop_last());
        let last = servers.last();
        if last.id@ != "linear"@ && last.id@ != "vmux"@ {
            rest.push(last)
        } else {
            rest
        }
    }
}

/// Whether the manifest configures the server with this id.
pub open spec fn configures(servers: Seq<McpServerSummary>, id: Seq<char>) -> bool {
    exists|i: int| 0 <= i < servers.len() && servers[i].id@ == id
}

/// The settings list: the catalog's Linear row first, then a row for each
/// server configured by hand, in manifest order.
pub open spec fn snapshot_rows(
    servers: Seq<McpServerSummary>,
    linear_authenticated: bool,
    rows: Seq<McpServerEntry>,
) -> bool {
    let listed = listed_servers(servers);
    &&& rows.len() == listed.len() + 1
    &&& rows[0].id@ == "linear"@
    &&& rows[0].name@ == "Linear"@
    &&& rows[0].description@.len() == 0
    &&& rows[0].status == catalog_status(configures(servers, "linear"@), linear_authenticated)
    &&& forall|i: int|
        0 <= i < listed.len() ==> {
            let row = #[trigger] rows[i + 1];
            &&& row.id@ == listed[i].id@
            &&& row.name@ == listed[i].id@
            &&& row.description@ == server_description(listed[i])
            &&& row.status == McpServerStatus::Configured
        }
}

impl McpCatalog {
    /// The rows of the settings list for the servers the manifest configures
    /// (in its key order) and whether Linear has stored credentials.
    pub fn snapshot(servers: &[McpServerSummary], linear_authenticated: bool) -> (r: Vec<McpServerEntry>)
        ensures
            snapshot_rows(servers@, linear_authenticated, r@),
    {
        let mut configured = false;
        let mut i: usize = 0;
        while i < servers.len()
            invariant
                i <= servers@.len(),
                configured == exists|j: int| 0 <= j < i && servers@[j].id@ == "linear"@,
            decreases servers@.len() - i,
        {
            if str_eq(servers[i].id.as_str(), "linear") {
                configured = true;
            }
            i = i + 1;
        }
        let mut rows: Vec<McpServerEntry> = Vec::new();
        rows.push(
            McpServerEntry {
                id: "linear".to_owned(),
                name: "Linear".to_owned(),
                description: String::new(),
                status: Self::status(configured, linear_authenticated),
            },
        );
        let mut k: usize = 0;
        while k < servers.len()
            invariant
                k <= servers@.len(),
                rows@.len() == listed_servers(servers@.subrange(0, k as int)).len() + 1,
                rows@[0].id@ == "linear"@,
                rows@[0].name@ == "Linear"@,
                rows@[0].description@.len() == 0,
                rows@[0].status == catalog_status(configures(servers@, "linear"@), linear_authenticated),
                forall|j: int|
                    0 <= j < listed_servers(servers@.subrange(0, k as int)).len() ==> {
                        let listed = listed_servers(servers@.subrange(0, k as int));
                        let row = #[trigger] rows@[j + 1];
                        &&& row.id@ == listed[j].id@
                        &&& row.name@ == listed[j].id@
                        &&& row.description@ == server_description(listed[j])
                        &&& row.status == McpServerStatus::Configured
                    },
            decreases servers@.len() - k,
        {
            let ghost prefix = servers@.subrange(0, k + 1);
            proof {
                assert(prefix.drop_last() =~= servers@.subrange(0, k as int));
                assert(prefix.last() == servers@[k as int]);
            }
            if Self::lists_configured(servers[k].id.as_str()) {
                let row = Self::configured_entry(&servers[k]);
                rows.push(row);
            }
            k = k + 1;
        }
        assert(servers@.subrange(0, servers@.len() as int) =~= servers@);
        rows
    }
}

} // verus!
