//! Decisions of the layout page (header, side sheet and update notice):
//! when the overlay may show, which stack is active, what a stack or tab
//! is called, and how far a download has got.
use vstd::prelude::*;
use crate::bookmark_tree::{bookmark_nodes_contain_url, node_has_url, BookmarkNode};
use crate::smart::SmartBookmarkFolder;
use crate::text::{chars_of, str_eq, trim_end, trim_start, trim_text};

verus! {

/// How far a download has got, in percent: none of nothing, and never more
/// than all of it.
pub open spec fn download_percent(downloaded: u64, total: u64) -> u64 {
    if total == 0 {
        0
    } else {
        let scaled = if downloaded * 100 > u64::MAX { u64::MAX as int } else { downloaded * 100 };
        let pct = scaled / (total as int);
        if pct > 100 { 100 } else { pct as u64 }
    }
}

/// How far a download has got, in percent.
pub fn download_pct(downloaded: u64, total: u64) -> (r: u64)
    ensures
        r == download_percent(downloaded, total),
        r <= 100,
{
    if total == 0 {
        return 0;
    }
    let scaled = match downloaded.checked_mul(100) {
        Some(x) => x,
        None => u64::MAX,
    };
    let pct = scaled / total;
    if pct > 100 {
        100
    } else {
        pct
    }
}

/// What the layout page knows of the layout: whether the header and the
/// side sheet are open.
#[derive(Clone, Copy, Debug, Default, PartialEq, Eq, Structural)]
pub struct LayoutStateEvent {
    pub header_open: bool,
    pub side_sheet_open: bool,
}

impl LayoutStateEvent {
    /// Whether the header shows.
    pub fn header_visible(&self) -> (r: bool)
        ensures
            r == self.header_open,
    {
        self.header_open
    }
}

/// Whether a listener has heard back: it received its event or failed.
pub fn listener_ready(received: bool, error: &Option<String>) -> (r: bool)
    ensures
        r == (received || error is Some),
{
    received || error.is_some()
}

/// Whether the layout overlay can show: the layout state has arrived, and
/// so has everything the open parts need (stacks and tabs for the header,
/// pane tree and spaces for the side sheet).
pub fn layout_overlay_ready(
    state: &LayoutStateEvent,
    layout_ready: bool,
    stacks_ready: bool,
    tabs_ready: bool,
    pane_tree_ready: bool,
    spaces_ready: bool,
) -> (r: bool)
    ensures
        r == (layout_ready && (!state.header_open || (stacks_ready && tabs_ready)) && (!state.side_sheet_open
            || (pane_tree_ready && spaces_ready))),
{
    layout_ready && (!state.header_visible() || (stacks_ready && tabs_ready)) && (!state.side_sheet_open || (
    pane_tree_ready && spaces_ready))
}

/// How a title is truncated: from the start for paths, so their end shows.
pub fn dir_truncate_class(title: &str) -> (r: &'static str)
    ensures
        r@ == if title@.contains('/') { "truncate-start"@ } else { "truncate"@ },
{
    let cs = chars_of(title);
    let mut i: usize = 0;
    while i < cs.len()
        invariant
            i <= cs@.len(),
            cs@ == title@,
            forall|j: int| 0 <= j < i ==> cs@[j] != '/',
        decreases cs@.len() - i,
    {
        if cs[i] == '/' {
            return "truncate-start";
        }
        i = i + 1;
    }
    "truncate"
}

/// The background and classes of the address row.
pub fn url_row_cef(bg_color: Option<&str>) -> (r: (String, String))
    ensures
        r.0@.len() == 0,
        r.1@ == "flex min-w-0 flex-1 shrink-0 items-center gap-1 rounded-t-[var(--radius)] px-2 bg-glass backdrop-blur-xl backdrop-saturate-150 text-foreground"@,
{
    (
        String::new(),
        "flex min-w-0 flex-1 shrink-0 items-center gap-1 rounded-t-[var(--radius)] px-2 bg-glass backdrop-blur-xl backdrop-saturate-150 text-foreground".to_owned(),
    )
}

/// A stack of pages in a pane, as the side sheet reads it.
#[derive(Clone, Debug, PartialEq, Eq)]
pub struct StackNode {
    pub id: u64,
    pub is_active: bool,
    pub url: String,
    pub title: String,
    pub is_loading: bool,
}

/// A pane and its stacks.
#[derive(Clone, Debug, PartialEq, Eq)]
pub struct PaneNode {
    pub id: u64,
    pub is_active: bool,
    pub stacks: Vec<StackNode>,
}

/// The first active stack of the first pane holding one, in order.
pub open spec fn first_active_stack(panes: Seq<PaneNode>, only_active_panes: bool) -> Option<(u64, u64)>
    decreases panes.len(),
{
    if panes.len() == 0 {
        None
    } else {
        let p = panes[0];
        if (!only_active_panes || p.is_active) && exists|j: int| 0 <= j < p.stacks@.len() && (#[trigger] p.stacks@[j]).is_active {
            let j = choose|j: int| 0 <= j < p.stacks@.len() && (#[trigger] p.stacks@[j]).is_active && forall|k: int|
                0 <= k < j ==> !p.stacks@[k].is_active;
            Some((p.id, p.stacks@[j].id))
        } else {
            first_active_stack(panes.drop_first(), only_active_panes)
        }
    }
}

/// The active stack: the first active stack of an active pane, or else the
/// first active stack of any pane.
pub struct ActiveStack;

impl ActiveStack {
    /// The (pane, stack) ids of the active stack.
    pub fn of(panes: &[PaneNode]) -> (r: Option<(u64, u64)>)
        ensures
            r == match first_active_stack(panes@, true) {
                Some(x) => Some(x),
                None => first_active_stack(panes@, false),
            },
    {
        let mut fallback: Option<(u64, u64)> = None;
        let mut i: usize = 0;
        assert(panes@.subrange(0, panes@.len() as int) =~= panes@);
        while i < panes.len()
            invariant
                i <= panes@.len(),
                first_active_stack(panes@, true) == first_active_stack(panes@.subrange(i as int, panes@.len() as int), true),
                match fallback {
                    None => first_active_stack(panes@, false) == first_active_stack(panes@.subrange(i as int, panes@.len() as int), false),
                    Some(x) => first_active_stack(panes@, false) == Some(x),
                },
            decreases panes@.len() - i,
        {
            let ghost rest = panes@.subrange(i as int, panes@.len() as int);
            assert(rest.drop_first() =~= panes@.subrange(i + 1, panes@.len() as int));
            let pane = &panes[i];
            assert(rest[0] == *pane);
            let mut j: usize = 0;
            while j < pane.stacks.len() && !pane.stacks[j].is_active
                invariant
                    j <= pane.stacks@.len(),
                    forall|k: int| 0 <= k < j ==> !pane.stacks@[k].is_active,
                decreases pane.stacks@.len() - j,
            {
                j = j + 1;
            }
            if j < pane.stacks.len() {
                proof {
                    let c = choose|c: int| 0 <= c < pane.stacks@.len() && (#[trigger] pane.stacks@[c]).is_active && forall|k: int|
                        0 <= k < c ==> !pane.stacks@[k].is_active;
                    assert(pane.stacks@[j as int].is_active);
                    if c < j {
                        assert(!pane.stacks@[c].is_active);
                    } else if c > j {
                        assert(!pane.stacks@[j as int].is_active);
                    }
                }
                let found = (pane.id, pane.stacks[j].id);
                if pane.is_active {
                    return Some(found);
                }
                if fallback.is_none() {
                    fallback = Some(found);
                }
            }
            i = i + 1;
        }
        proof {
            assert(panes@.subrange(i as int, panes@.len() as int).len() == 0);
        }
        fallback
    }
}

/// A piece of interface text: a message of the translations, by id, or
/// text shown as it is.
#[derive(Clone, Debug, PartialEq, Eq)]
pub enum UiText {
    Message(&'static str),
    Literal(String),
}

/// A piece of text as plain values: whether it is a message id, and its
/// characters.
pub open spec fn ui_view(t: UiText) -> (bool, Seq<char>) {
    match t {
        UiText::Message(m) => (true, m@),
        UiText::Literal(s) => (false, s@),
    }
}

/// The text a stack's own title gives: the start and settings pages have
/// translated titles, an empty new stack is called a new stack.
pub open spec fn localized_title(url: Seq<char>, title: Seq<char>) -> (bool, Seq<char>) {
    let bare = crate::bookmarks::trim_slashes(url);
    if bare == "vmux://start"@ {
        (true, "start-title"@)
    } else if bare == "vmux://settings"@ {
        (true, "settings-title"@)
    } else if url.len() == 0 && title == "New Stack"@ {
        (true, "layout-new-stack"@)
    } else {
        (false, title)
    }
}

/// The url without its trailing slashes.
fn without_trailing_slashes(url: &str) -> (r: Vec<char>)
    ensures
        r@ == crate::bookmarks::trim_slashes(url@),
{
    let cs = chars_of(url);
    let mut end = cs.len();
    assert(cs@.subrange(0, end as int) =~= cs@);
    while end > 0 && cs[end - 1] == '/'
        invariant
            end <= cs@.len(),
            crate::bookmarks::trim_slashes(url@) == crate::bookmarks::trim_slashes(cs@.subrange(0, end as int)),
            cs@ == url@,
        decreases end,
    {
        assert(cs@.subrange(0, end as int).drop_last() =~= cs@.subrange(0, end - 1));
        end = end - 1;
    }
    let mut r: Vec<char> = Vec::new();
    let mut i: usize = 0;
    while i < end
        invariant
            i <= end <= cs@.len(),
            r@ =~= cs@.subrange(0, i as int),
        decreases end - i,
    {
        r.push(cs[i]);
        i = i + 1;
    }
    r
}

/// The title a stack shows for its own title.
pub fn localized_stack_title(stack: &StackNode) -> (r: UiText)
    ensures
        ui_view(r) == localized_title(stack.url@, stack.title@),
{
    let bare = without_trailing_slashes(stack.url.as_str());
    let start = chars_of("vmux://start");
    let settings = chars_of("vmux://settings");
    if crate::text::chars_eq(bare.as_slice(), start.as_slice()) {
        UiText::Message("start-title")
    } else if crate::text::chars_eq(bare.as_slice(), settings.as_slice()) {
        UiText::Message("settings-title")
    } else if stack.url.unicode_len() == 0 && str_eq(stack.title.as_str(), "New Stack") {
        UiText::Message("layout-new-stack")
    } else {
        UiText::Literal(stack.title.clone())
    }
}

/// What a stack is called: its title unless that is blank; else the host
/// its favicon falls back to; else "loading" while it loads; else "new
/// stack" when it has no URL; else its URL. `host` is the favicon fallback
/// host of its URL.
pub open spec fn stack_title(stack: StackNode, host: Option<Seq<char>>) -> (bool, Seq<char>) {
    let t = localized_title(stack.url@, stack.title@);
    if t.0 || trim_end(trim_start(t.1)).len() > 0 {
        t
    } else {
        match host {
            Some(h) => (false, h),
            None => if stack.is_loading {
                (true, "layout-loading"@)
            } else if stack.url@.len() == 0 {
                (true, "layout-new-stack"@)
            } else {
                (false, stack.url@)
            },
        }
    }
}

/// Names stacks.
pub struct StackTitle;

impl StackTitle {
    /// What a stack is called, given the favicon fallback host of its URL.
    pub fn of(stack: &StackNode, host: Option<&str>) -> (r: UiText)
        ensures
            ui_view(r) == stack_title(*stack, match host {
                Some(h) => Some(h@),
                None => None,
            }),
    {
        let title = localized_stack_title(stack);
        let is_blank = match &title {
            UiText::Literal(s) => trim_text(s.as_str()).len() == 0,
            UiText::Message(_) => false,
        };
        if !is_blank {
            return title;
        }
        if let Some(h) = host {
            return UiText::Literal(h.to_owned());
        }
        if stack.is_loading {
            return UiText::Message("layout-loading");
        }
        if stack.url.unicode_len() == 0 {
            return UiText::Message("layout-new-stack");
        }
        UiText::Literal(stack.url.clone())
    }
}

/// What a tab is called: its title, else its name, else "tab".
pub fn tab_title(title: &str, name: &str) -> (r: UiText)
    ensures
        title@.len() > 0 ==> (r matches UiText::Literal(s) && s@ == title@),
        title@.len() == 0 && name@.len() > 0 ==> (r matches UiText::Literal(s) && s@ == name@),
        title@.len() == 0 && name@.len() == 0 ==> r == UiText::Message("layout-tab"),
{
    if title.unicode_len() > 0 {
        UiText::Literal(title.to_owned())
    } else if name.unicode_len() > 0 {
        UiText::Literal(name.to_owned())
    } else {
        UiText::Message("layout-tab")
    }
}

/// A pinned page, as the header reads it.
#[derive(Clone, Debug, PartialEq, Eq)]
pub struct PinRow {
    pub uuid: String,
    pub url: String,
    pub bookmarked: bool,
}

/// Whether the page at `url` shows as bookmarked: it has a URL, and a
/// bookmark in the tree or a pin marked bookmarked has that URL.
pub open spec fn page_bookmarked(nodes: Seq<BookmarkNode>, pins: Seq<PinRow>, url: Seq<char>) -> bool {
    url.len() > 0 && ((exists|i: int| 0 <= i < nodes.len() && node_has_url(#[trigger] nodes[i], url)) || exists|i: int|
        0 <= i < pins.len() && (#[trigger] pins[i]).url@ == url && pins[i].bookmarked)
}

/// Whether the header's bookmark button shows the page as bookmarked.
pub fn is_bookmarked(nodes: &[BookmarkNode], pins: &[PinRow], url: &str) -> (r: bool)
    ensures
        r == page_bookmarked(nodes@, pins@, url@),
{
    if url.unicode_len() == 0 {
        return false;
    }
    if bookmark_nodes_contain_url(nodes, url) {
        return true;
    }
    let mut i: usize = 0;
    while i < pins.len()
        invariant
            i <= pins@.len(),
            url@.len() > 0,
            forall|k: int| 0 <= k < i ==> !((#[trigger] pins@[k]).url@ == url@ && pins@[k].bookmarked),
        decreases pins@.len() - i,
    {
        if pins[i].bookmarked && str_eq(pins[i].url.as_str(), url) {
            assert(pins@[i as int].url@ == url@ && pins@[i as int].bookmarked);
            return true;
        }
        i = i + 1;
    }
    false
}

/// The id of the first pin of the page at `url`.
pub fn pinned_uuid(pins: &[PinRow], url: &str) -> (r: Option<String>)
    ensures
        match r {
            Some(u) => exists|i: int| 0 <= i < pins@.len() && (#[trigger] pins@[i]).url@ == url@ && pins@[i].uuid == u
                && forall|k: int| 0 <= k < i ==> pins@[k].url@ != url@,
            None => forall|k: int| 0 <= k < pins@.len() ==> (#[trigger] pins@[k]).url@ != url@,
        },
{
    let mut i: usize = 0;
    while i < pins.len()
        invariant
            i <= pins@.len(),
            forall|k: int| 0 <= k < i ==> (#[trigger] pins@[k]).url@ != url@,
        decreases pins@.len() - i,
    {
        if str_eq(pins[i].url.as_str(), url) {
            return Some(pins[i].uuid.clone());
        }
        i = i + 1;
    }
    None
}

/// What keeping a stack in view does next.
#[derive(Clone, Copy, Debug, PartialEq, Eq, Structural)]
pub enum RevealStep {
    /// Nothing was settled yet: settle on the target without scrolling.
    Settle,
    /// The target is the settled stack already.
    Stay,
    /// Scroll the target into view, and settle on it if that worked.
    Scroll,
}

/// Keeps the active stack in view: the first target is only remembered,
/// a changed one is scrolled to.
pub fn follow(settled: Option<(u64, u64)>, target: (u64, u64)) -> (r: RevealStep)
    ensures
        r == match settled {
            None => RevealStep::Settle,
            Some(s) => if s == target { RevealStep::Stay } else { RevealStep::Scroll },
        },
{
    match settled {
        None => RevealStep::Settle,
        Some(s) => if s.0 == target.0 && s.1 == target.1 {
            RevealStep::Stay
        } else {
            RevealStep::Scroll
        },
    }
}

/// The element id a stack row is scrolled to by.
pub fn stack_anchor(prefix: &str, pane_id: u64, stack_id: u64) -> (r: String)
    ensures
        r@ == prefix@ + "-"@ + crate::text::radix_digits(pane_id as nat, 10) + "-"@ + crate::text::radix_digits(
            stack_id as nat,
            10,
        ),
{
    let mut r = prefix.to_owned();
    crate::text::push_str(&mut r, "-");
    let a = crate::text::radix(pane_id, 10);
    crate::text::push_str(&mut r, a.as_str());
    crate::text::push_str(&mut r, "-");
    let b = crate::text::radix(stack_id, 10);
    crate::text::push_str(&mut r, b.as_str());
    r
}

/// The SVG the `qrcode` crate renders for `data`: the smallest QR code at
/// error correction level M, drawn with the given colours, at least
/// `min_width` by `min_height` pixels; `None` when the data does not fit in
/// a QR code.
pub uninterp spec fn qr_code_svg(data: Seq<char>, min_width: u32, min_height: u32, dark: Seq<char>, light: Seq<char>) -> Option<Seq<char>>;

/// Trusted: calls `qrcode::QrCode::new` on the text's bytes and renders the
/// code with `render::<svg::Color>()`, `min_dimensions`, `dark_color`,
/// `light_color` and `build`. The SVG, and when the text is too long for a
/// code, are only named. `min_dimensions` adds the code's width in modules
/// (at most 185) to each size, which `requires` keeps from overflowing.
#[verifier::external_body]
fn qr_svg(data: &str, min_width: u32, min_height: u32, dark: &str, light: &str) -> (r: Option<String>)
    requires
        min_width < 0xffff_ff00,
        min_height < 0xffff_ff00,
    ensures
        match qr_code_svg(data@, min_width, min_height, dark@, light@) {
            Some(svg) => r matches Some(found) && found@ == svg,
            None => r is None,
        },
{
    let code = qrcode::QrCode::new(data).ok()?;
    Some(
        code.render::<qrcode::render::svg::Color>()
            .min_dimensions(min_width, min_height)
            .dark_color(qrcode::render::svg::Color(dark))
            .light_color(qrcode::render::svg::Color(light))
            .build(),
    )
}

/// The QR code of a pairing link in the remote panel: at least 148 pixels
/// square, near-black on white.
pub fn pairing_qr_svg(value: &str) -> (r: Option<String>)
    ensures
        match qr_code_svg(value@, 148, 148, "#09090b"@, "#ffffff"@) {
            Some(svg) => r matches Some(found) && found@ == svg,
            None => r is None,
        },
{
    qr_svg(value, 148, 148, "#09090b", "#ffffff")
}

} // verus!
