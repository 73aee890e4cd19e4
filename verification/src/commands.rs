//! The commands the pages send to the host: the side sheet's stack, section
//! and project commands, the bookmark commands and the team commands. Each
//! function gives the event to send; where the page sends nothing (a rename
//! to an empty name), it gives `None`.
use vstd::prelude::*;
use crate::text::{radix, radix_digits, string_of, trim_end, trim_start, trim_text};

verus! {

/// A command of the side sheet on a pane.
#[derive(Clone, Debug, PartialEq, Eq)]
pub struct SideSheetCommandEvent {
    pub command: String,
    pub pane_id: String,
    pub stack_id: u64,
    pub line: u32,
    pub path: String,
}

/// Whether `e` is the side sheet command `command` on pane `pane_id` for
/// stack `stack_id` and path `path`, at line zero.
pub open spec fn side_sheet_command(
    e: SideSheetCommandEvent,
    command: Seq<char>,
    pane_id: u64,
    stack_id: u64,
    path: Seq<char>,
) -> bool {
    &&& e.command@ == command
    &&& e.pane_id@ == radix_digits(pane_id as nat, 10)
    &&& e.stack_id == stack_id
    &&& e.line == 0
    &&& e.path@ == path
}

fn side_sheet_event(command: &str, pane_id: u64, stack_id: u64, path: String) -> (r: SideSheetCommandEvent)
    ensures
        side_sheet_command(r, command@, pane_id, stack_id, path@),
{
    SideSheetCommandEvent { command: command.to_owned(), pane_id: radix(pane_id, 10), stack_id, line: 0, path }
}

/// Expands or collapses a section of the side sheet.
pub fn set_side_sheet_section(pane_id: u64, section: &str, expanded: bool) -> (r: SideSheetCommandEvent)
    ensures
        side_sheet_command(
            r,
            if expanded {
                "expand_section"@
            } else {
                "collapse_section"@
            },
            pane_id,
            0,
            section@,
        ),
{
    if expanded {
        side_sheet_event("expand_section", pane_id, 0, section.to_owned())
    } else {
        side_sheet_event("collapse_section", pane_id, 0, section.to_owned())
    }
}

/// Opens a project's folder in a pane.
pub fn open_project_path(pane_id: u64, path: String) -> (r: SideSheetCommandEvent)
    ensures
        side_sheet_command(r, "open_project_path"@, pane_id, 0, path@),
{
    side_sheet_event("open_project_path", pane_id, 0, path)
}

/// Opens a file of the knowledge tree in a pane.
pub fn open_knowledge_path(pane_id: u64, path: String) -> (r: SideSheetCommandEvent)
    ensures
        side_sheet_command(r, "open_knowledge_path"@, pane_id, 0, path@),
{
    side_sheet_event("open_knowledge_path", pane_id, 0, path)
}

/// Opens the tools page in a pane.
pub fn open_tools(pane_id: u64) -> (r: SideSheetCommandEvent)
    ensures
        side_sheet_command(r, "open_tools"@, pane_id, 0, Seq::empty()),
{
    side_sheet_event("open_tools", pane_id, 0, String::new())
}

/// Opens a new stack in a pane.
pub fn new_stack(pane_id: u64) -> (r: SideSheetCommandEvent)
    ensures
        side_sheet_command(r, "new_stack"@, pane_id, 0, Seq::empty()),
{
    side_sheet_event("new_stack", pane_id, 0, String::new())
}

/// A stack of a pane, as the side sheet's stack rows address it.
#[derive(Clone, Copy, Debug, PartialEq, Eq, Structural)]
pub struct StackCommand {
    pub pane_id: u64,
    pub stack_id: u64,
}

impl StackCommand {
    /// The stack `stack_id` of pane `pane_id`.
    pub fn new(pane_id: u64, stack_id: u64) -> (r: Self)
        ensures
            r.pane_id == pane_id && r.stack_id == stack_id,
    {
        StackCommand { pane_id, stack_id }
    }

    /// The command `command` on this stack.
    pub fn dispatch(self, command: &str) -> (r: SideSheetCommandEvent)
        ensures
            side_sheet_command(r, command@, self.pane_id, self.stack_id, Seq::empty()),
    {
        side_sheet_event(command, self.pane_id, self.stack_id, String::new())
    }

    /// Makes the stack the active one of its pane.
    pub fn activate(self) -> (r: SideSheetCommandEvent)
        ensures
            side_sheet_command(r, "activate_stack"@, self.pane_id, self.stack_id, Seq::empty()),
    {
        self.dispatch("activate_stack")
    }

    /// Closes the stack.
    pub fn close(self) -> (r: SideSheetCommandEvent)
        ensures
            side_sheet_command(r, "close_stack"@, self.pane_id, self.stack_id, Seq::empty()),
    {
        self.dispatch("close_stack")
    }
}

/// Opens or closes a directory of a pane's knowledge tree.
#[derive(Clone, Debug, PartialEq, Eq)]
pub struct KnowledgeTreeToggle {
    pub path: String,
    pub pane_id: String,
}

/// Toggles the directory `path` of pane `pane_id`.
pub fn toggle_knowledge_dir(pane_id: u64, path: String) -> (r: KnowledgeTreeToggle)
    ensures
        r.path@ == path@,
        r.pane_id@ == radix_digits(pane_id as nat, 10),
{
    KnowledgeTreeToggle { path, pane_id: radix(pane_id, 10) }
}

/// A command on the project list.
#[derive(Clone, Debug, PartialEq, Eq)]
pub struct ProjectCommandEvent {
    pub command: String,
    pub path: Option<String>,
}

/// The project command `command`, on the project at `path` if any.
pub fn emit_project_command(command: &str, path: Option<String>) -> (r: ProjectCommandEvent)
    ensures
        r.command@ == command@,
        r.path == path,
{
    ProjectCommandEvent { command: command.to_owned(), path }
}

/// A command of the team page on the profiles.
#[derive(Clone, Debug, PartialEq, Eq)]
pub struct TeamCommandEvent {
    pub command: String,
    pub member_id: Option<String>,
    pub profile_id: Option<String>,
    pub profile_name: Option<String>,
}

/// The profile command `command`, on the profile `profile_id` and with the
/// name `profile_name` where given; it names no member.
pub fn emit_profile_command(command: &str, profile_id: Option<String>, profile_name: Option<String>) -> (r: TeamCommandEvent)
    ensures
        r.command@ == command@,
        r.member_id is None,
        r.profile_id == profile_id,
        r.profile_name == profile_name,
{
    TeamCommandEvent { command: command.to_owned(), member_id: None, profile_id, profile_name }
}

/// A command on the bookmarks. `M` is the page metadata a bookmark is made
/// from.
#[derive(Clone, Debug, PartialEq, Eq)]
pub struct BookmarksCommandEvent<M> {
    pub command: String,
    pub uuid: Option<String>,
    pub name: Option<String>,
    pub url: Option<String>,
    pub metadata: Option<M>,
    pub folder: Option<String>,
}

/// Whether `e` is the bookmark command `command` with these fields.
pub open spec fn bookmark_command<M>(
    e: BookmarksCommandEvent<M>,
    command: Seq<char>,
    uuid: Option<String>,
    name: Option<String>,
    url: Option<String>,
    metadata: Option<M>,
    folder: Option<String>,
) -> bool {
    &&& e.command@ == command
    &&& e.uuid == uuid
    &&& e.name == name
    &&& e.url == url
    &&& e.metadata == metadata
    &&& e.folder == folder
}

/// Opens a bookmarked URL.
pub fn open_bookmark<M>(url: String) -> (r: BookmarksCommandEvent<M>)
    ensures
        bookmark_command(r, "open"@, None, None, Some(url), None, None),
{
    BookmarksCommandEvent { command: "open".to_owned(), url: Some(url), uuid: None, name: None, metadata: None, folder: None }
}

/// The bookmark command `command` on the item `uuid`.
pub fn bookmark_cmd<M>(command: &str, uuid: Option<String>) -> (r: BookmarksCommandEvent<M>)
    ensures
        bookmark_command(r, command@, uuid, None, None, None, None),
{
    BookmarksCommandEvent { command: command.to_owned(), uuid, name: None, url: None, metadata: None, folder: None }
}

/// Bookmarks (or pins) a page into `folder`.
pub fn add_to_bookmarks<M>(command: &str, metadata: M, folder: Option<String>) -> (r: BookmarksCommandEvent<M>)
    ensures
        bookmark_command(r, command@, None, None, None, Some(metadata), folder),
{
    BookmarksCommandEvent { command: command.to_owned(), uuid: None, name: None, url: None, metadata: Some(metadata), folder }
}

/// Moves a bookmark into `folder` (the root when `None`).
pub fn move_bookmark<M>(uuid: String, folder: Option<String>) -> (r: BookmarksCommandEvent<M>)
    ensures
        bookmark_command(r, "move"@, Some(uuid), None, None, None, folder),
{
    BookmarksCommandEvent { command: "move".to_owned(), uuid: Some(uuid), name: None, url: None, metadata: None, folder }
}

/// Moves a pin into `folder`.
pub fn move_pin<M>(uuid: String, folder: Option<String>) -> (r: BookmarksCommandEvent<M>)
    ensures
        bookmark_command(r, "move_pin"@, Some(uuid), None, None, None, folder),
{
    BookmarksCommandEvent { command: "move_pin".to_owned(), uuid: Some(uuid), name: None, url: None, metadata: None, folder }
}

/// Moves a folder into `folder`.
pub fn move_bookmark_folder<M>(uuid: String, folder: Option<String>) -> (r: BookmarksCommandEvent<M>)
    ensures
        bookmark_command(r, "move_folder"@, Some(uuid), None, None, None, folder),
{
    BookmarksCommandEvent { command: "move_folder".to_owned(), uuid: Some(uuid), name: None, url: None, metadata: None, folder }
}

/// Asks the host for the context menu `command` of an item or a page.
pub fn request_bookmark_menu<M>(command: &str, uuid: Option<String>, metadata: Option<M>) -> (r: BookmarksCommandEvent<M>)
    ensures
        bookmark_command(r, command@, uuid, None, None, metadata, None),
{
    BookmarksCommandEvent { command: command.to_owned(), uuid, name: None, url: None, metadata, folder: None }
}

/// A name as typed, without leading and trailing white space.
pub open spec fn trimmed(name: Seq<char>) -> Seq<char> {
    trim_end(trim_start(name))
}

fn trimmed_name(name: &str) -> (r: String)
    ensures
        r@ == trimmed(name@),
{
    let cs = trim_text(name);
    string_of(cs.as_slice())
}

/// Renames a bookmark to the name typed, trimmed; nothing when that is
/// empty.
pub fn commit_bookmark_rename<M>(uuid: String, name: String) -> (r: Option<BookmarksCommandEvent<M>>)
    ensures
        trimmed(name@).len() == 0 <==> r is None,
        r matches Some(e) ==> e.command@ == "rename"@ && e.uuid == Some(uuid) && (e.name matches Some(n)
            && n@ == trimmed(name@)) && e.url is None && e.metadata is None && e.folder is None,
{
    let name = trimmed_name(name.as_str());
    if name.unicode_len() == 0 {
        return None;
    }
    Some(BookmarksCommandEvent { command: "rename".to_owned(), uuid: Some(uuid), name: Some(name), url: None, metadata: None, folder: None })
}

/// Creates a folder with the name typed, trimmed, under `parent`; nothing
/// when that name is empty.
pub fn create_bookmark_folder<M>(name: String, parent: Option<String>) -> (r: Option<BookmarksCommandEvent<M>>)
    ensures
        trimmed(name@).len() == 0 <==> r is None,
        r matches Some(e) ==> e.command@ == "new_folder"@ && e.uuid is None && (e.name matches Some(n)
            && n@ == trimmed(name@)) && e.url is None && e.metadata is None && e.folder == parent,
{
    let name = trimmed_name(name.as_str());
    if name.unicode_len() == 0 {
        return None;
    }
    Some(BookmarksCommandEvent { command: "new_folder".to_owned(), uuid: None, name: Some(name), url: None, metadata: None, folder: parent })
}

/// Renames a folder to the name typed, trimmed; an empty name removes the
/// folder instead.
pub fn commit_folder_rename<M>(uuid: String, name: String) -> (r: BookmarksCommandEvent<M>)
    ensures
        r.uuid == Some(uuid) && r.url is None && r.metadata is None && r.folder is None,
        trimmed(name@).len() == 0 ==> r.command@ == "remove_folder"@ && r.name is None,
        trimmed(name@).len() > 0 ==> r.command@ == "rename_folder"@ && (r.name matches Some(n) && n@ == trimmed(name@)),
{
    let name = trimmed_name(name.as_str());
    if name.unicode_len() == 0 {
        BookmarksCommandEvent { command: "remove_folder".to_owned(), uuid: Some(uuid), name: None, url: None, metadata: None, folder: None }
    } else {
        BookmarksCommandEvent { command: "rename_folder".to_owned(), uuid: Some(uuid), name: Some(name), url: None, metadata: None, folder: None }
    }
}

/// What is being dragged in the bookmark tree.
#[derive(Clone, Debug, PartialEq, Eq)]
pub enum BookmarkDragItem<M> {
    Page { metadata: M },
    Bookmark { uuid: String },
    Pin { uuid: String },
    Folder { uuid: String },
}

/// Where a drag ends: the top of the tree or a folder.
#[derive(Clone, Debug, PartialEq, Eq)]
pub enum BookmarkDropTarget {
    Root,
    Folder(String),
}

/// The folder a drop target names, `None` for the top of the tree.
pub open spec fn drop_folder(target: BookmarkDropTarget) -> Option<String> {
    match target {
        BookmarkDropTarget::Root => None,
        BookmarkDropTarget::Folder(uuid) => Some(uuid),
    }
}

/// What dropping `item` on `target` asks of the host: a dragged page is
/// bookmarked there, a bookmark, pin or folder is moved there; a folder
/// dropped on itself asks nothing.
pub fn perform_bookmark_drop<M>(item: BookmarkDragItem<M>, target: BookmarkDropTarget) -> (r: Option<BookmarksCommandEvent<M>>)
    ensures
        match item {
            BookmarkDragItem::Page { metadata } => r matches Some(e) && bookmark_command(
                e,
                "add"@,
                None,
                None,
                None,
                Some(metadata),
                drop_folder(target),
            ),
            BookmarkDragItem::Bookmark { uuid } => r matches Some(e) && bookmark_command(
                e,
                "move"@,
                Some(uuid),
                None,
                None,
                None,
                drop_folder(target),
            ),
            BookmarkDragItem::Pin { uuid } => r matches Some(e) && bookmark_command(
                e,
                "move_pin"@,
                Some(uuid),
                None,
                None,
                None,
                drop_folder(target),
            ),
            BookmarkDragItem::Folder { uuid } => if drop_folder(target) matches Some(f) && f@ == uuid@ {
                r is None
            } else {
                r matches Some(e) && bookmark_command(e, "move_folder"@, Some(uuid), None, None, None, drop_folder(target))
            },
        },
{
    let folder = match target {
        BookmarkDropTarget::Root => None,
        BookmarkDropTarget::Folder(uuid) => Some(uuid),
    };
    match item {
        BookmarkDragItem::Page { metadata } => Some(add_to_bookmarks("add", metadata, folder)),
        BookmarkDragItem::Bookmark { uuid } => Some(move_bookmark(uuid, folder)),
        BookmarkDragItem::Pin { uuid } => Some(move_pin(uuid, folder)),
        BookmarkDragItem::Folder { uuid } => {
            let onto_itself = match &folder {
                Some(f) => crate::text::str_eq(f.as_str(), uuid.as_str()),
                None => false,
            };
            if onto_itself {
                None
            } else {
                Some(move_bookmark_folder(uuid, folder))
            }
        },
    }
}

} // verus!
