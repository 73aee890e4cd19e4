//! The footer strip: the spaces it shows, the commands it sends back to the
//! host, and its styling.
use vstd::prelude::*;

verus! {

/// Name of the host event that carries the spaces to the footer.
pub const SPACES_EVENT: &'static str = "spaces";

/// Address of the footer's webview.
pub const FOOTER_WEBVIEW_URL: &'static str = "vmux://footer/";

/// Height of the open footer, in logical pixels.
pub const FOOTER_HEIGHT_PX: u32 = 32;

/// The spaces the host sends to the footer, in order.
#[derive(Clone, Debug, Default, PartialEq, Eq)]
pub struct SpacesHostEvent {
    pub spaces: Vec<SpaceRow>,
}

/// One space as the footer shows it.
#[derive(Clone, Debug, PartialEq, Eq)]
pub struct SpaceRow {
    pub id: String,
    pub name: String,
    pub is_active: bool,
}

/// A command the footer sends to the host: `switch`, `close` or `new`,
/// with the space it is about where there is one.
#[derive(Clone, Debug, PartialEq, Eq)]
pub struct FooterCommandEvent {
    pub command: String,
    pub space_id: Option<String>,
}

impl FooterCommandEvent {
    /// Switch to the space with this id.
    pub fn switch(space_id: &str) -> (r: Self)
        ensures
            r.command@ == "switch"@,
            r.space_id matches Some(id) && id@ == space_id@,
    {
        FooterCommandEvent { command: "switch".to_owned(), space_id: Some(space_id.to_owned()) }
    }

    /// Close the space with this id.
    pub fn close(space_id: &str) -> (r: Self)
        ensures
            r.command@ == "close"@,
            r.space_id matches Some(id) && id@ == space_id@,
    {
        FooterCommandEvent { command: "close".to_owned(), space_id: Some(space_id.to_owned()) }
    }

    /// Open a new space.
    pub fn new_space() -> (r: Self)
        ensures
            r.command@ == "new"@,
            r.space_id is None,
    {
        FooterCommandEvent { command: "new".to_owned(), space_id: None }
    }
}

/// Classes of a space pill; the active one is filled with the selection colour.
pub open spec fn space_pill_class_text(is_active: bool) -> Seq<char> {
    if is_active {
        "group flex h-6 items-center gap-1 rounded-full bg-sidebar-primary pl-2.5 pr-1 text-ui-xs text-sidebar-primary-foreground shadow-sm"@
    } else {
        "group flex h-6 items-center gap-1 rounded-full pl-2.5 pr-1 text-ui-xs text-muted-foreground hover:bg-glass-hover hover:text-foreground"@
    }
}

/// Classes of a space pill.
pub fn space_pill_class(is_active: bool) -> (r: &'static str)
    ensures
        r@ == space_pill_class_text(is_active),
{
    if is_active {
        "group flex h-6 items-center gap-1 rounded-full bg-sidebar-primary pl-2.5 pr-1 text-ui-xs text-sidebar-primary-foreground shadow-sm"
    } else {
        "group flex h-6 items-center gap-1 rounded-full pl-2.5 pr-1 text-ui-xs text-muted-foreground hover:bg-glass-hover hover:text-foreground"
    }
}

/// Classes of a space pill's close button, which shows on hover.
pub open spec fn space_close_button_class_text(is_active: bool) -> Seq<char> {
    if is_active {
        "flex h-4 w-4 cursor-pointer items-center justify-center rounded-full text-sidebar-primary-foreground opacity-0 transition-opacity group-hover:opacity-100 focus-visible:opacity-100 hover:bg-white/20"@
    } else {
        "flex h-4 w-4 cursor-pointer items-center justify-center rounded-full text-muted-foreground opacity-0 transition-opacity group-hover:opacity-100 focus-visible:opacity-100 hover:bg-glass-hover hover:text-foreground"@
    }
}

/// Classes of a space pill's close button.
pub fn space_close_button_class(is_active: bool) -> (r: &'static str)
    ensures
        r@ == space_close_button_class_text(is_active),
{
    if is_active {
        "flex h-4 w-4 cursor-pointer items-center justify-center rounded-full text-sidebar-primary-foreground opacity-0 transition-opacity group-hover:opacity-100 focus-visible:opacity-100 hover:bg-white/20"
    } else {
        "flex h-4 w-4 cursor-pointer items-center justify-center rounded-full text-muted-foreground opacity-0 transition-opacity group-hover:opacity-100 focus-visible:opacity-100 hover:bg-glass-hover hover:text-foreground"
    }
}

/// Classes of the number in a space pill.
pub fn space_index_class(is_active: bool) -> (r: &'static str)
    ensures
        r@ == (if is_active {
            "font-mono text-sidebar-primary-foreground"@
        } else {
            "font-mono text-muted-foreground"@
        }),
{
    if is_active {
        "font-mono text-sidebar-primary-foreground"
    } else {
        "font-mono text-muted-foreground"
    }
}

} // verus!
