//! Decisions of the desktop shell: the native menus, quitting, revealing
//! new webviews, tab hotkeys, overlays following the focused window, and
//! the keychain access list of the browser engine's storage key.
use vstd::prelude::*;
use crate::text::{chars_eq, chars_of, push_str, radix_digits, str_eq};

verus! {

/// What an item of the built-in native menu does.
#[derive(Clone, Copy, Debug, PartialEq, Eq, Structural)]
pub enum NativeMenuAction {
    NewSpace,
    SplitVertically,
    SplitHorizontally,
    Unknown,
}

/// The items of the built-in native menu: (submenu, id, label). The
/// application menu also holds the standard about and quit items.
pub open spec fn native_menu_items() -> Seq<(Seq<char>, Seq<char>, Seq<char>)> {
    seq![
        ("Space"@, "new_space"@, "New Space"@),
        ("Pane"@, "split_vertically"@, "Split Vertically"@),
        ("Pane"@, "split_horizontally"@, "Split Horizontally"@),
    ]
}

/// The menu's items, as `native_menu_items` lists them.
pub fn native_menu() -> (r: Vec<(&'static str, &'static str, &'static str)>)
    ensures
        r@.map_values(|i: (&'static str, &'static str, &'static str)| (i.0@, i.1@, i.2@)) == native_menu_items(),
{
    let r = vec![
        ("Space", "new_space", "New Space"),
        ("Pane", "split_vertically", "Split Vertically"),
        ("Pane", "split_horizontally", "Split Horizontally"),
    ];
    assert(r@.map_values(|i: (&'static str, &'static str, &'static str)| (i.0@, i.1@, i.2@)) =~= native_menu_items());
    r
}

impl NativeMenuAction {
    /// What the menu item with this id does.
    pub fn of(id: &str) -> (r: Self)
        ensures
            r == if id@ == "new_space"@ {
                NativeMenuAction::NewSpace
            } else if id@ == "split_vertically"@ {
                NativeMenuAction::SplitVertically
            } else if id@ == "split_horizontally"@ {
                NativeMenuAction::SplitHorizontally
            } else {
                NativeMenuAction::Unknown
            },
    {
        if str_eq(id, "new_space") {
            NativeMenuAction::NewSpace
        } else if str_eq(id, "split_vertically") {
            NativeMenuAction::SplitVertically
        } else if str_eq(id, "split_horizontally") {
            NativeMenuAction::SplitHorizontally
        } else {
            NativeMenuAction::Unknown
        }
    }
}

/// The id of the application menu's quit item.
pub const APP_QUIT_ID: &'static str = "app_quit";

/// What quitting does next.
#[derive(Clone, Copy, Debug, PartialEq, Eq, Structural)]
pub enum QuitStep {
    /// Quit now.
    Exit,
    /// Ask the user first: this many terminals are still running.
    Confirm(usize),
}

/// How a quit request goes on: when the settings ask for confirmation (they
/// do unless a terminal setting turns it off) and terminals are still
/// running, ask; otherwise quit.
pub fn quit_step(confirm_close: Option<bool>, running_terminals: usize) -> (r: QuitStep)
    ensures
        r == if confirm_close != Some(false) && running_terminals > 0 {
            QuitStep::Confirm(running_terminals)
        } else {
            QuitStep::Exit
        },
{
    let should_confirm = match confirm_close {
        Some(c) => c,
        None => true,
    };
    if should_confirm && running_terminals > 0 {
        QuitStep::Confirm(running_terminals)
    } else {
        QuitStep::Exit
    }
}

/// Frames a new webview stays hidden while its surface gets its size.
pub const REVEAL_FRAMES: u8 = 2;

/// One frame of a hidden webview: shown once it has waited enough frames,
/// else one more frame waited.
pub fn reveal_step(waited: u8) -> (r: Option<u8>)
    ensures
        waited >= REVEAL_FRAMES ==> r is None,
        waited < REVEAL_FRAMES ==> r == Some((waited + 1) as u8),
{
    if waited >= REVEAL_FRAMES {
        None
    } else {
        Some(waited + 1)
    }
}

/// Whether a webview starts hidden: every one but the window's own.
pub fn hides_new_webview(is_window_root: bool) -> (r: bool)
    ensures
        r == !is_window_root,
{
    !is_window_root
}

/// A tab command from the keyboard.
#[derive(Clone, Copy, Debug, PartialEq, Eq, Structural)]
pub enum TabCommand {
    Next,
    Previous,
}

/// Ctrl-Tab or ⌘-Tab moves to the next tab, with Shift to the previous.
pub fn tab_hotkey(tab_pressed: bool, ctrl: bool, meta: bool, shift: bool) -> (r: Option<TabCommand>)
    ensures
        r == if !tab_pressed || (!ctrl && !meta) {
            None
        } else if shift {
            Some(TabCommand::Previous)
        } else {
            Some(TabCommand::Next)
        },
{
    if !tab_pressed || (!ctrl && !meta) {
        return None;
    }
    if shift {
        Some(TabCommand::Previous)
    } else {
        Some(TabCommand::Next)
    }
}

/// Whether the footer is open after a toggle.
pub fn footer_toggled(open: bool) -> (r: bool)
    ensures
        r == !open,
{
    !open
}

/// An overlay: its id, the window it is hosted in and its parent, if any.
#[derive(Clone, Copy, Debug, PartialEq, Eq, Structural)]
pub struct OverlayRow {
    pub overlay: u64,
    pub host: Option<u64>,
    pub parent: Option<u64>,
}

/// The root of the first window root hosted in `window`.
pub open spec fn root_of(roots: Seq<(u64, u64)>, window: u64) -> Option<u64>
    decreases roots.len(),
{
    if roots.len() == 0 {
        None
    } else if roots[0].1 == window {
        Some(roots[0].0)
    } else {
        root_of(roots.drop_first(), window)
    }
}

/// Whether an overlay sits in `root` of `window` already.
pub open spec fn adopted(o: OverlayRow, window: u64, root: u64) -> bool {
    o.host == Some(window) && o.parent == Some(root)
}

/// The overlays to move into the focused window's root, in order, each
/// with that window and root: all that are not there already. Nothing moves
/// without a focused window with a root.
pub open spec fn to_adopt(focused: Option<u64>, roots: Seq<(u64, u64)>, overlays: Seq<OverlayRow>) -> Seq<(u64, u64, u64)> {
    match focused {
        None => Seq::empty(),
        Some(w) => match root_of(roots, w) {
            None => Seq::empty(),
            Some(root) => overlays.filter(|o: OverlayRow| !adopted(o, w, root)).map_values(
                |o: OverlayRow| (o.overlay, w, root),
            ),
        },
    }
}

/// Moves the overlays into the focused window: `(overlay, window, root)`
/// for each that must move.
pub fn adopt_window_overlays(focused: Option<u64>, roots: &[(u64, u64)], overlays: &[OverlayRow]) -> (r: Vec<(u64, u64, u64)>)
    ensures
        r@ == to_adopt(focused, roots@, overlays@),
{
    let w = match focused {
        Some(w) => w,
        None => return Vec::new(),
    };
    let mut k: usize = 0;
    assert(roots@.subrange(0, roots@.len() as int) =~= roots@);
    while k < roots.len() && roots[k].1 != w
        invariant
            k <= roots@.len(),
            root_of(roots@, w) == root_of(roots@.subrange(k as int, roots@.len() as int), w),
        decreases roots@.len() - k,
    {
        assert(roots@.subrange(k as int, roots@.len() as int).drop_first() =~= roots@.subrange(k + 1, roots@.len() as int));
        k = k + 1;
    }
    if k == roots.len() {
        return Vec::new();
    }
    let root = roots[k].0;
    let ghost pred = |o: OverlayRow| !adopted(o, w, root);
    let ghost f = |o: OverlayRow| (o.overlay, w, root);
    let mut r: Vec<(u64, u64, u64)> = Vec::new();
    let mut i: usize = 0;
    while i < overlays.len()
        invariant
            i <= overlays@.len(),
            pred == (|o: OverlayRow| !adopted(o, w, root)),
            f == (|o: OverlayRow| (o.overlay, w, root)),
            r@ == overlays@.subrange(0, i as int).filter(pred).map_values(f),
        decreases overlays@.len() - i,
    {
        let o = overlays[i];
        proof {
            reveal(Seq::filter);
            assert(overlays@.subrange(0, i + 1).drop_last() =~= overlays@.subrange(0, i as int));
            assert(overlays@.subrange(0, i + 1).last() == o);
        }
        let placed = match (o.host, o.parent) {
            (Some(h), Some(p)) => h == w && p == root,
            _ => false,
        };
        if !placed {
            let ghost before = r@;
            r.push((o.overlay, w, root));
            assert(r@ =~= overlays@.subrange(0, i + 1).filter(pred).map_values(f));
        } else {
            assert(r@ =~= overlays@.subrange(0, i + 1).filter(pred).map_values(f));
        }
        i = i + 1;
    }
    assert(overlays@.subrange(0, overlays@.len() as int) =~= overlays@);
    r
}

/// The keychain service that holds the browser engine's cookie key.
pub const SAFE_STORAGE_SERVICE: &'static str = "Chromium Safe Storage";

/// The keychain account of that key.
pub const SAFE_STORAGE_ACCOUNT: &'static str = "Chromium";

/// The installed app, always trusted with the key.
pub const INSTALLED_APP_PATH: &'static str = "/Applications/Vmux.app";

/// The `errSecItemNotFound` status.
pub const ERR_SEC_ITEM_NOT_FOUND: i32 = -25300;

/// A status code in decimal, with its sign.
pub open spec fn status_text(s: i32) -> Seq<char> {
    if s < 0 { "-"@ + radix_digits((-s) as nat, 10) } else { radix_digits(s as nat, 10) }
}

/// A status code in decimal.
fn status_string(s: i32) -> (r: String)
    ensures
        r@ == status_text(s),
{
    if s < 0 {
        let magnitude: u64 = if s == i32::MIN { 2147483648 } else { (-s) as u64 };
        let mut r = "-".to_owned();
        let digits = crate::text::radix(magnitude, 10);
        push_str(&mut r, digits.as_str());
        r
    } else {
        crate::text::radix(s as u64, 10)
    }
}

/// What looking up the storage key found.
#[derive(Clone, Debug, PartialEq, Eq)]
pub enum KeyLookup {
    /// The key is there: fix its access list.
    Found,
    /// No key yet: nothing to do until the engine creates one.
    Absent,
    /// The lookup failed.
    Failed(String),
}

/// What a keychain lookup status means.
pub fn key_lookup(status: i32) -> (r: KeyLookup)
    ensures
        status == 0 ==> r == KeyLookup::Found,
        status == ERR_SEC_ITEM_NOT_FOUND ==> r == KeyLookup::Absent,
        status != 0 && status != ERR_SEC_ITEM_NOT_FOUND ==> (r matches KeyLookup::Failed(m) && m@
            == "SecKeychainFindGenericPassword failed: "@ + status_text(status)),
{
    if status == 0 {
        KeyLookup::Found
    } else if status == ERR_SEC_ITEM_NOT_FOUND {
        KeyLookup::Absent
    } else {
        let mut m = "SecKeychainFindGenericPassword failed: ".to_owned();
        let s = status_string(status);
        push_str(&mut m, s.as_str());
        KeyLookup::Failed(m)
    }
}

/// The ancestors of a path as `std::path::Path::ancestors` gives them: the
/// path itself, then each parent, ending with the root or the first
/// component.
pub uninterp spec fn path_ancestors(path: Seq<char>) -> Seq<Seq<char>>;

/// Trusted: calls `std::path::Path::ancestors` and takes each ancestor as
/// text (every ancestor of a path given as text is text). Which ancestors
/// there are is only named.
#[verifier::external_body]
fn ancestors_of(path: &str) -> (r: Vec<String>)
    ensures
        crate::text::views_of_strings(r@) == path_ancestors(path@),
{
    std::path::Path::new(path).ancestors().map(|a| a.to_string_lossy().into_owned()).collect()
}

/// Whether a path names an app bundle: its extension is `app`.
pub open spec fn is_bundle(path: Seq<char>) -> bool {
    crate::clipboard::path_extension(path) == Some("app"@)
}

/// The app bundle that encloses the running executable `exe`: the nearest
/// of its ancestors (itself first) whose extension is `app`; none for a
/// bare binary.
pub fn running_app_bundle(exe: &str) -> (r: Option<String>)
    ensures
        match r {
            Some(b) => exists|i: int| {
                &&& 0 <= i < path_ancestors(exe@).len()
                &&& #[trigger] path_ancestors(exe@)[i] == b@
                &&& is_bundle(b@)
                &&& forall|j: int| 0 <= j < i ==> !is_bundle(#[trigger] path_ancestors(exe@)[j])
            },
            None => forall|j: int| 0 <= j < path_ancestors(exe@).len() ==> !is_bundle(#[trigger] path_ancestors(exe@)[j]),
        },
{
    let ancestors = ancestors_of(exe);
    let ghost all = path_ancestors(exe@);
    let mut i: usize = 0;
    while i < ancestors.len()
        invariant
            i <= ancestors@.len(),
            all == path_ancestors(exe@),
            crate::text::views_of_strings(ancestors@) == all,
            forall|j: int| 0 <= j < i ==> !is_bundle(#[trigger] all[j]),
        decreases ancestors@.len() - i,
    {
        assert(all[i as int] == ancestors@[i as int]@);
        let app = chars_of("app");
        let is_app = match crate::clipboard::path_extension_of(ancestors[i].as_str()) {
            Some(e) => chars_eq(e.as_slice(), app.as_slice()),
            None => false,
        };
        if is_app {
            return Some(ancestors[i].clone());
        }
        i = i + 1;
    }
    None
}

/// The apps to trust with the key: the installed app, and the running
/// bundle when it is another.
pub fn trusted_app_paths(running_bundle: Option<&str>) -> (r: Vec<String>)
    ensures
        r@.len() >= 1,
        r@[0]@ == INSTALLED_APP_PATH@,
        match running_bundle {
            Some(b) => if b@ == INSTALLED_APP_PATH@ { r@.len() == 1 } else { r@.len() == 2 && r@[1]@ == b@ },
            None => r@.len() == 1,
        },
{
    let mut r: Vec<String> = Vec::new();
    r.push(INSTALLED_APP_PATH.to_owned());
    if let Some(b) = running_bundle {
        if !str_eq(b, INSTALLED_APP_PATH) {
            r.push(b.to_owned());
        }
    }
    r
}

/// How rewriting the access list ended: with no trusted app found on disk,
/// when building the list failed, when creating or setting the access
/// failed (with its status), or done.
pub fn access_outcome(trusted: usize, array_built: bool, create_status: i32, access_created: bool, set_status: i32) -> (r: Result<(), String>)
    ensures
        trusted == 0 ==> (r matches Err(m) && m@ == "no trusted app paths exist on disk"@),
        trusted > 0 && !array_built ==> (r matches Err(m) && m@ == "CFArrayCreate returned null"@),
        trusted > 0 && array_built && !(create_status == 0 && access_created) ==> (r matches Err(m) && m@
            == "SecAccessCreate failed: "@ + status_text(create_status)),
        trusted > 0 && array_built && create_status == 0 && access_created && set_status != 0 ==> (r matches Err(m)
            && m@ == "SecKeychainItemSetAccess failed: "@ + status_text(set_status)),
        trusted > 0 && array_built && create_status == 0 && access_created && set_status == 0 ==> r is Ok,
{
    if trusted == 0 {
        return Err("no trusted app paths exist on disk".to_owned());
    }
    if !array_built {
        return Err("CFArrayCreate returned null".to_owned());
    }
    if !(create_status == 0 && access_created) {
        let mut m = "SecAccessCreate failed: ".to_owned();
        let s = status_string(create_status);
        push_str(&mut m, s.as_str());
        return Err(m);
    }
    if set_status != 0 {
        let mut m = "SecKeychainItemSetAccess failed: ".to_owned();
        let s = status_string(set_status);
        push_str(&mut m, s.as_str());
        return Err(m);
    }
    Ok(())
}

} // verus!
