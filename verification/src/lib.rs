//! Verified core of the vmux browser shell: simulator input and streaming,
//! OAuth helpers for MCP servers, bookmark seeding, spaces, key bindings and
//! the small pieces of presentation logic that the UI pages share.
use vstd::prelude::*;

pub mod bindings;
pub mod bookmark_tree;
pub mod bookmarks;
pub mod cheatsheet;
pub mod clipboard;
pub mod commands;
pub mod desktop;
pub mod footer;
pub mod history;
pub mod keyed;
pub mod layout;
pub mod mcp;
pub mod palette;
pub mod people;
pub mod simulator;
pub mod smart;
pub mod spaces;
pub mod text;

verus! {
} // verus!
