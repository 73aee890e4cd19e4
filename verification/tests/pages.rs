use vmux::bookmark_tree::{
    bookmark_folder_choices, bookmark_folder_rows, bookmark_nodes_contain_url, BookmarkNode,
    BookmarkRow, FolderRow,
};
use vmux::bookmarks::{BookmarkDefaults, OfferedBookmarkDefaults};
use vmux::clipboard::path_looks_like_image;
use vmux::desktop::{
    access_outcome, adopt_window_overlays, footer_toggled, hides_new_webview, key_lookup,
    native_menu, quit_step, reveal_step, tab_hotkey, trusted_app_paths, KeyLookup,
    NativeMenuAction, OverlayRow, QuitStep, TabCommand,
};
use vmux::history::{cef_root_cache_path, embedded_path, history_summary};
use vmux::layout::{
    dir_truncate_class, download_pct, follow, is_bookmarked, layout_overlay_ready, listener_ready,
    localized_stack_title, pairing_qr_svg, pinned_uuid, stack_anchor, tab_title, url_row_cef, ActiveStack,
    LayoutStateEvent, PaneNode, PinRow, RevealStep, StackNode, StackTitle, UiText,
};
use vmux::people::{avatar_background, initial, profile_initial, team_member_subtitle, PreparingAgentIdentity};
use vmux::smart::{
    bridge_ready, tools_provider_title, BridgeProbe, CefBridgeError, SmartBookmarkContent,
    SmartBookmarkFolder, ToolProvider,
};

#[test]
fn download_pct_clamps_and_handles_zero_total() {
    assert_eq!(download_pct(0, 0), 0);
    assert_eq!(download_pct(50, 100), 50);
    assert_eq!(download_pct(250, 100), 100);
    assert_eq!(download_pct(u64::MAX, u64::MAX), 1);
    assert_eq!(download_pct(1, 3), 33);
}

fn state(header_open: bool, side_sheet_open: bool) -> LayoutStateEvent {
    LayoutStateEvent { header_open, side_sheet_open }
}

#[test]
fn overlay_waits_for_layout_state() {
    assert!(!layout_overlay_ready(&state(false, false), false, true, true, true, true));
}

#[test]
fn overlay_waits_for_header_state_when_header_visible() {
    let visible = state(true, false);

    assert!(!layout_overlay_ready(&visible, true, false, true, true, true));
    assert!(!layout_overlay_ready(&visible, true, true, false, true, true));
    assert!(layout_overlay_ready(&visible, true, true, true, true, true));
}

#[test]
fn overlay_waits_for_side_sheet_state_when_side_sheet_visible() {
    let visible = state(false, true);

    assert!(!layout_overlay_ready(&visible, true, true, true, false, true));
    assert!(!layout_overlay_ready(&visible, true, true, true, true, false));
    assert!(layout_overlay_ready(&visible, true, true, true, true, true));
}

#[test]
fn overlay_can_be_ready_when_overlay_is_closed() {
    assert!(layout_overlay_ready(&state(false, false), true, false, false, false, false));
}

#[test]
fn listeners_are_ready_once_they_hear_back() {
    assert!(listener_ready(true, &None));
    assert!(listener_ready(false, &Some("lost".to_string())));
    assert!(!listener_ready(false, &None));
}

#[test]
fn paths_truncate_from_the_start() {
    assert_eq!(dir_truncate_class("~/src/vmux"), "truncate-start");
    assert_eq!(dir_truncate_class("Inbox"), "truncate");
    assert!(url_row_cef(Some("#fff")).1.contains("bg-glass"));
}

fn stack(id: u64, is_active: bool, url: &str, title: &str) -> StackNode {
    StackNode { id, is_active, url: url.to_string(), title: title.to_string(), is_loading: false }
}

#[test]
fn the_active_stack_prefers_the_active_pane() {
    let panes = vec![
        PaneNode { id: 1, is_active: false, stacks: vec![stack(10, true, "", "")] },
        PaneNode { id: 2, is_active: true, stacks: vec![stack(20, false, "", ""), stack(21, true, "", "")] },
    ];
    assert_eq!(ActiveStack::of(&panes), Some((2, 21)));
    let inactive = vec![
        PaneNode { id: 1, is_active: false, stacks: vec![stack(10, false, "", "")] },
        PaneNode { id: 2, is_active: false, stacks: vec![stack(20, true, "", "")] },
    ];
    assert_eq!(ActiveStack::of(&inactive), Some((2, 20)));
    assert_eq!(ActiveStack::of(&[]), None);
}

#[test]
fn stacks_and_tabs_are_named() {
    assert_eq!(localized_stack_title(&stack(1, true, "vmux://start/", "x")), UiText::Message("start-title"));
    assert_eq!(localized_stack_title(&stack(1, true, "vmux://settings", "x")), UiText::Message("settings-title"));
    assert_eq!(localized_stack_title(&stack(1, true, "", "New Stack")), UiText::Message("layout-new-stack"));
    assert_eq!(localized_stack_title(&stack(1, true, "https://a.test", "A")), UiText::Literal("A".to_string()));
    assert_eq!(StackTitle::of(&stack(1, true, "https://a.test/x", "  "), Some("a.test")), UiText::Literal("a.test".to_string()));
    assert_eq!(StackTitle::of(&stack(1, true, "https://a.test/x", ""), None), UiText::Literal("https://a.test/x".to_string()));
    let mut loading = stack(1, true, "https://a.test/x", "");
    loading.is_loading = true;
    assert_eq!(StackTitle::of(&loading, None), UiText::Message("layout-loading"));
    assert_eq!(tab_title("Docs", "docs"), UiText::Literal("Docs".to_string()));
    assert_eq!(tab_title("", "docs"), UiText::Literal("docs".to_string()));
    assert_eq!(tab_title("", ""), UiText::Message("layout-tab"));
}

#[test]
fn following_the_active_stack_scrolls_only_on_change() {
    assert_eq!(follow(None, (1, 2)), RevealStep::Settle);
    assert_eq!(follow(Some((1, 2)), (1, 2)), RevealStep::Stay);
    assert_eq!(follow(Some((1, 2)), (1, 3)), RevealStep::Scroll);
    assert_eq!(stack_anchor("sidesheet-stack", 4, 17), "sidesheet-stack-4-17");
}

fn tree() -> Vec<BookmarkNode> {
    let folder = |uuid: &str, name: &str, parent: Option<&str>, urls: &[&str]| {
        BookmarkNode::Folder(FolderRow {
            uuid: uuid.to_string(),
            name: name.to_string(),
            parent: parent.map(str::to_string),
            children: urls.iter().map(|u| BookmarkRow { url: u.to_string() }).collect(),
        })
    };
    vec![
        BookmarkNode::Entry(BookmarkRow { url: "https://top.test".to_string() }),
        folder("a", "Work", None, &["https://in-a.test"]),
        folder("b", "PRs", Some("a"), &[]),
        folder("c", "Home", None, &[]),
        folder("d", "Loop", Some("e"), &[]),
        folder("e", "Loop back", Some("d"), &[]),
        folder("a", "Work again", None, &[]),
    ]
}

#[test]
fn pages_are_bookmarked_at_the_top_or_directly_in_a_folder() {
    let nodes = tree();
    assert!(bookmark_nodes_contain_url(&nodes, "https://top.test"));
    assert!(bookmark_nodes_contain_url(&nodes, "https://in-a.test"));
    assert!(!bookmark_nodes_contain_url(&nodes, "https://elsewhere.test"));
    assert_eq!(bookmark_folder_rows(&nodes).len(), 6);
}

#[test]
fn folder_choices_walk_the_tree_and_offer_each_folder_once() {
    let choices = bookmark_folder_choices(&tree());
    let rows: Vec<(&str, &str, Vec<&str>)> = choices
        .iter()
        .map(|c| (c.uuid.as_str(), c.label.as_str(), c.ancestors.iter().map(String::as_str).collect()))
        .collect();
    assert_eq!(
        rows,
        vec![("a", "Work", vec![]), ("b", "Work / PRs", vec!["a"]), ("c", "Home", vec![])]
    );
}

#[test]
fn the_header_shows_bookmarked_and_pinned_pages() {
    let pins = vec![
        PinRow { uuid: "p1".to_string(), url: "https://pinned.test".to_string(), bookmarked: false },
        PinRow { uuid: "p2".to_string(), url: "https://starred.test".to_string(), bookmarked: true },
    ];
    let nodes = tree();
    assert!(is_bookmarked(&nodes, &pins, "https://in-a.test"));
    assert!(is_bookmarked(&nodes, &pins, "https://starred.test"));
    assert!(!is_bookmarked(&nodes, &pins, "https://pinned.test"));
    assert!(!is_bookmarked(&nodes, &pins, ""));
    assert_eq!(pinned_uuid(&pins, "https://pinned.test"), Some("p1".to_string()));
    assert_eq!(pinned_uuid(&pins, "https://none.test"), None);
}

#[test]
fn existing_bookmark_store_receives_missing_defaults() {
    let defaults = vec!["vmux://start/".to_string(), "vmux://terminal/".to_string()];
    let mut offered = OfferedBookmarkDefaults::default();
    let plan = BookmarkDefaults::of(&defaults).seed(&["https://example.com".to_string()], &[4], &mut offered);
    assert!(plan.dirty);
    assert_eq!(
        plan.pins,
        vec![("vmux://start/".to_string(), 5), ("vmux://terminal/".to_string(), 6)]
    );
    assert_eq!(offered.urls, ["vmux://start/", "vmux://terminal/"]);
    let again = BookmarkDefaults::of(&defaults).seed(&[], &[], &mut offered);
    assert!(!again.dirty);
    assert!(again.pins.is_empty());
}

#[test]
fn seeding_skips_pinned_pages_and_starts_at_zero() {
    let defaults = vec!["https://A.test/".to_string(), "https://b.test".to_string()];
    let mut offered = OfferedBookmarkDefaults::default();
    let plan = BookmarkDefaults::of(&defaults).seed(&["https://a.test".to_string()], &[], &mut offered);
    assert_eq!(plan.pins, vec![("https://b.test".to_string(), 0)]);
    let mut fresh = OfferedBookmarkDefaults::default();
    let full = BookmarkDefaults::of(&defaults).seed(&[], &[u64::MAX], &mut fresh);
    assert_eq!(full.pins, vec![("https://A.test/".to_string(), u64::MAX), ("https://b.test".to_string(), u64::MAX)]);
    assert_eq!(BookmarkDefaults::key(" HTTPS://X.test// "), "https://x.test");
}

#[test]
fn image_extensions_detected_case_insensitively() {
    assert!(path_looks_like_image("/tmp/Screenshot.png"));
    assert!(path_looks_like_image("/tmp/a.JPG"));
    assert!(path_looks_like_image("/tmp/a.jpeg"));
    assert!(!path_looks_like_image("/tmp/notes.txt"));
    assert!(!path_looks_like_image("/tmp/noext"));
}

#[test]
fn image_paths_follow_path_file_names() {
    assert!(path_looks_like_image("shot.HEIC"));
    assert!(path_looks_like_image("/tmp/dir/a.tif/"));
    assert!(path_looks_like_image("/tmp/a.webp/."));
    assert!(!path_looks_like_image("/tmp/.png"));
    assert!(!path_looks_like_image("/tmp/a.png/.."));
    assert!(!path_looks_like_image(""));
    assert!(!path_looks_like_image("/"));
}

#[test]
fn smart_folders_count_their_rows() {
    let content = SmartBookmarkContent { projects: 2, knowledge_entries: 5, tool_items: vec![1, 2, 3] };
    assert_eq!(content.count(SmartBookmarkFolder::Projects), 2);
    assert_eq!(content.count(SmartBookmarkFolder::Knowledge), 5);
    assert_eq!(content.count(SmartBookmarkFolder::Tools), 6);
    assert_eq!(tools_provider_title(ToolProvider::Acp), "tools-provider-acp-agents");
}

#[test]
fn bridge_errors_name_the_missing_piece() {
    let ready = BridgeProbe { window: true, cef_read: true, cef_missing: false, method_read: true, callable: true };
    assert_eq!(bridge_ready(ready, false), Ok(()));
    assert_eq!(bridge_ready(BridgeProbe { window: false, ..ready }, true), Err(CefBridgeError::NoWindow));
    assert_eq!(bridge_ready(BridgeProbe { cef_missing: true, ..ready }, true), Err(CefBridgeError::CefNotInjected));
    assert_eq!(bridge_ready(BridgeProbe { method_read: false, ..ready }, true), Err(CefBridgeError::NoEmitMethod));
    assert_eq!(bridge_ready(BridgeProbe { callable: false, ..ready }, false), Err(CefBridgeError::ListenNotCallable));
    assert_eq!(CefBridgeError::CefNotInjected.message(), "`window.cef` not ready");
}

#[test]
fn native_menu_items_and_their_actions() {
    let items = native_menu();
    assert_eq!(items.len(), 3);
    for (_, id, _) in items {
        assert_ne!(NativeMenuAction::of(id), NativeMenuAction::Unknown);
    }
    assert_eq!(NativeMenuAction::of("split_horizontally"), NativeMenuAction::SplitHorizontally);
    assert_eq!(NativeMenuAction::of("bogus"), NativeMenuAction::Unknown);
}

#[test]
fn quitting_asks_only_with_running_terminals() {
    assert_eq!(quit_step(None, 2), QuitStep::Confirm(2));
    assert_eq!(quit_step(Some(true), 0), QuitStep::Exit);
    assert_eq!(quit_step(Some(false), 3), QuitStep::Exit);
}

#[test]
fn webviews_are_revealed_after_two_frames() {
    assert!(hides_new_webview(false));
    assert!(!hides_new_webview(true));
    assert_eq!(reveal_step(0), Some(1));
    assert_eq!(reveal_step(1), Some(2));
    assert_eq!(reveal_step(2), None);
    assert!(footer_toggled(false));
}

#[test]
fn tab_hotkeys_need_a_modifier() {
    assert_eq!(tab_hotkey(true, true, false, false), Some(TabCommand::Next));
    assert_eq!(tab_hotkey(true, false, true, true), Some(TabCommand::Previous));
    assert_eq!(tab_hotkey(true, false, false, false), None);
    assert_eq!(tab_hotkey(false, true, true, false), None);
}

#[test]
fn an_unparented_overlay_is_placed_in_the_window_root() {
    let window = 1;
    let root = 2;
    let overlay = OverlayRow { overlay: 3, host: None, parent: None };
    assert_eq!(adopt_window_overlays(Some(window), &[(root, window)], &[overlay]), vec![(3, window, root)]);
}

#[test]
fn overlay_moves_to_the_focused_window() {
    let old_window = 1;
    let focused = 2;
    let elsewhere = 5;
    let root = 6;
    let overlay = OverlayRow { overlay: 7, host: Some(old_window), parent: Some(elsewhere) };
    let settled = OverlayRow { overlay: 8, host: Some(focused), parent: Some(root) };
    assert_eq!(
        adopt_window_overlays(Some(focused), &[(9, old_window), (root, focused)], &[overlay, settled]),
        vec![(7, focused, root)]
    );
    assert!(adopt_window_overlays(None, &[(root, focused)], &[overlay]).is_empty());
    assert!(adopt_window_overlays(Some(4), &[(root, focused)], &[overlay]).is_empty());
}

#[test]
fn keychain_access_list_decisions() {
    assert_eq!(key_lookup(0), KeyLookup::Found);
    assert_eq!(key_lookup(-25300), KeyLookup::Absent);
    assert_eq!(key_lookup(-25293), KeyLookup::Failed("SecKeychainFindGenericPassword failed: -25293".to_string()));
    assert_eq!(trusted_app_paths(None), ["/Applications/Vmux.app"]);
    assert_eq!(trusted_app_paths(Some("/Applications/Vmux.app")).len(), 1);
    assert_eq!(trusted_app_paths(Some("/tmp/Vmux-1a2b.app")), ["/Applications/Vmux.app", "/tmp/Vmux-1a2b.app"]);
    assert_eq!(access_outcome(0, true, 0, true, 0), Err("no trusted app paths exist on disk".to_string()));
    assert_eq!(access_outcome(1, false, 0, true, 0), Err("CFArrayCreate returned null".to_string()));
    assert_eq!(access_outcome(1, true, -50, false, 0), Err("SecAccessCreate failed: -50".to_string()));
    assert_eq!(access_outcome(1, true, 0, true, 7), Err("SecKeychainItemSetAccess failed: 7".to_string()));
    assert_eq!(access_outcome(2, true, 0, true, 0), Ok(()));
}

#[test]
fn history_snapshot_and_cache_locations() {
    let urls = vec!["history1".to_string(), "history2".to_string(), "history3".to_string()];
    assert_eq!(history_summary(&urls), "history1, history2, history3");
    assert_eq!(history_summary(&[]), "");
    assert_eq!(
        cef_root_cache_path(Some("/Users/me"), true, None),
        Some("/Users/me/Library/Caches/vmux_history_poc/cef".to_string())
    );
    assert_eq!(cef_root_cache_path(Some("/home/me/"), false, None), Some("/home/me/.cache/vmux_history_poc/cef".to_string()));
    assert_eq!(cef_root_cache_path(None, false, Some("/tmp")), Some("/tmp/vmux_history_poc_cef".to_string()));
    assert_eq!(cef_root_cache_path(None, false, None), None);
    assert_eq!(embedded_path("index.html", "vmux_history/index.html"), "vmux_history/index.html");
    assert_eq!(embedded_path("assets\\app.wasm", "doc"), "assets/app.wasm");
}

#[test]
fn agents_and_profiles_are_named_and_lettered() {
    let identity = PreparingAgentIdentity::of(Some("code-agent--beta"));
    assert_eq!(identity.segment, "code-agent--beta");
    assert_eq!(identity.name, "Code Agent Beta");
    assert_eq!(PreparingAgentIdentity::of(None).name, "Agent");
    assert_eq!(PreparingAgentIdentity::of(Some("ßeta")).name, "SSeta");
    assert_eq!(initial("you"), "Y");
    assert_eq!(initial(""), "");
    assert_eq!(profile_initial(""), "P");
    assert_eq!(profile_initial("work"), "W");
    assert_eq!(avatar_background(""), "#6366f1");
    assert_eq!(avatar_background("#123456"), "#123456");
}

use vmux::commands::{
    add_to_bookmarks, bookmark_cmd, commit_bookmark_rename, commit_folder_rename, create_bookmark_folder,
    emit_profile_command, emit_project_command, move_bookmark, new_stack, open_bookmark, open_knowledge_path,
    open_project_path, open_tools, perform_bookmark_drop, set_side_sheet_section, toggle_knowledge_dir,
    BookmarkDragItem, BookmarkDropTarget, BookmarksCommandEvent, SideSheetCommandEvent, StackCommand,
};

fn side_sheet(command: &str, pane_id: &str, stack_id: u64, path: &str) -> SideSheetCommandEvent {
    SideSheetCommandEvent {
        command: command.to_string(),
        pane_id: pane_id.to_string(),
        stack_id,
        line: 0,
        path: path.to_string(),
    }
}

#[test]
fn side_sheet_commands_name_the_pane_in_decimal() {
    assert_eq!(StackCommand::new(12, 7).activate(), side_sheet("activate_stack", "12", 7, ""));
    assert_eq!(StackCommand::new(12, 7).close(), side_sheet("close_stack", "12", 7, ""));
    assert_eq!(set_side_sheet_section(3, "projects", true), side_sheet("expand_section", "3", 0, "projects"));
    assert_eq!(set_side_sheet_section(3, "projects", false), side_sheet("collapse_section", "3", 0, "projects"));
    assert_eq!(open_project_path(0, "/src/app".to_string()), side_sheet("open_project_path", "0", 0, "/src/app"));
    assert_eq!(open_knowledge_path(45, "notes.md".to_string()), side_sheet("open_knowledge_path", "45", 0, "notes.md"));
    assert_eq!(open_tools(9), side_sheet("open_tools", "9", 0, ""));
    assert_eq!(new_stack(18446744073709551615), side_sheet("new_stack", "18446744073709551615", 0, ""));
    let toggle = toggle_knowledge_dir(20, "docs".to_string());
    assert_eq!((toggle.pane_id.as_str(), toggle.path.as_str()), ("20", "docs"));
    let project = emit_project_command("forget", Some("/p".to_string()));
    assert_eq!((project.command.as_str(), project.path), ("forget", Some("/p".to_string())));
    let team = emit_profile_command("switch_profile", Some("p1".to_string()), None);
    assert_eq!(team.command, "switch_profile");
    assert_eq!(team.member_id, None);
    assert_eq!(team.profile_id, Some("p1".to_string()));
    assert_eq!(team.profile_name, None);
}

#[test]
fn bookmark_renames_are_trimmed_and_empty_names_send_nothing() {
    let renamed: Option<BookmarksCommandEvent<()>> = commit_bookmark_rename("b1".to_string(), "  Docs\t".to_string());
    let renamed = renamed.unwrap();
    assert_eq!((renamed.command.as_str(), renamed.uuid.as_deref(), renamed.name.as_deref()), ("rename", Some("b1"), Some("Docs")));
    assert!(commit_bookmark_rename::<()>("b1".to_string(), " \u{3000} ".to_string()).is_none());
    assert!(create_bookmark_folder::<()>("".to_string(), None).is_none());
    let folder = create_bookmark_folder::<()>(" Work ".to_string(), Some("root".to_string())).unwrap();
    assert_eq!((folder.command.as_str(), folder.name.as_deref(), folder.folder.as_deref()), ("new_folder", Some("Work"), Some("root")));
    let removed = commit_folder_rename::<()>("f1".to_string(), "   ".to_string());
    assert_eq!((removed.command.as_str(), removed.name), ("remove_folder", None));
    let kept = commit_folder_rename::<()>("f1".to_string(), " Reading ".to_string());
    assert_eq!((kept.command.as_str(), kept.name.as_deref()), ("rename_folder", Some("Reading")));
}

#[test]
fn bookmark_commands_carry_only_their_fields() {
    let open = open_bookmark::<()>("https://a.test".to_string());
    assert_eq!((open.command.as_str(), open.url.as_deref(), open.uuid, open.folder), ("open", Some("https://a.test"), None, None));
    let moved = move_bookmark::<()>("b2".to_string(), None);
    assert_eq!((moved.command.as_str(), moved.uuid.as_deref(), moved.folder), ("move", Some("b2"), None));
    let pinned = add_to_bookmarks("pin_url", 7u8, Some("f".to_string()));
    assert_eq!((pinned.command.as_str(), pinned.metadata, pinned.folder.as_deref()), ("pin_url", Some(7u8), Some("f")));
    let removed = bookmark_cmd::<()>("remove", Some("b3".to_string()));
    assert_eq!((removed.command.as_str(), removed.uuid.as_deref(), removed.metadata), ("remove", Some("b3"), None));
}

#[test]
fn member_rows_show_a_title_only_when_it_says_more_than_the_name() {
    assert_eq!(team_member_subtitle(true, "Ann", "Lead", ""), Some(UiText::Message("team-you")));
    assert_eq!(
        team_member_subtitle(false, "Builder", "Builds things", "s1"),
        Some(UiText::Literal("Builds things".to_string()))
    );
    assert_eq!(team_member_subtitle(false, "Builder", "Builder", "s1"), None);
    assert_eq!(team_member_subtitle(false, "Builder", "Builder (main)", "s1"), None);
    assert_eq!(team_member_subtitle(false, "Builder", "", ""), Some(UiText::Message("team-agent")));
    assert_eq!(team_member_subtitle(false, "Builder", "Builder (main)", ""), Some(UiText::Message("team-agent")));
}

#[test]
fn pairing_links_render_as_svg_qr_codes() {
    let svg = pairing_qr_svg("vmux://pair?code=123456").unwrap();
    assert!(svg.starts_with("<?xml version=\"1.0\" standalone=\"yes\"?><svg"));
    assert!(svg.contains("fill=\"#09090b\""));
    assert!(svg.contains("fill=\"#ffffff\""));
    assert!(svg.ends_with("\"/></svg>"));
    assert!(pairing_qr_svg(&"x".repeat(4000)).is_none());
}

#[test]
fn a_folder_dropped_on_itself_is_not_moved() {
    let folder = |uuid: &str| BookmarkDragItem::<()>::Folder { uuid: uuid.to_string() };
    assert!(perform_bookmark_drop(folder("f1"), BookmarkDropTarget::Folder("f1".to_string())).is_none());
    let moved = perform_bookmark_drop(folder("f1"), BookmarkDropTarget::Folder("f2".to_string())).unwrap();
    assert_eq!((moved.command.as_str(), moved.uuid.as_deref(), moved.folder.as_deref()), ("move_folder", Some("f1"), Some("f2")));
    let to_root = perform_bookmark_drop(folder("f1"), BookmarkDropTarget::Root).unwrap();
    assert_eq!((to_root.command.as_str(), to_root.folder), ("move_folder", None));
    let page = perform_bookmark_drop(BookmarkDragItem::Page { metadata: 3u8 }, BookmarkDropTarget::Root).unwrap();
    assert_eq!((page.command.as_str(), page.metadata, page.folder), ("add", Some(3u8), None));
    let pin = perform_bookmark_drop(BookmarkDragItem::<()>::Pin { uuid: "p".to_string() }, BookmarkDropTarget::Folder("f".to_string())).unwrap();
    assert_eq!((pin.command.as_str(), pin.uuid.as_deref(), pin.folder.as_deref()), ("move_pin", Some("p"), Some("f")));
}

fn choice(uuid: &str, ancestors: &[&str]) -> vmux::bookmark_tree::BookmarkFolderChoice {
    vmux::bookmark_tree::BookmarkFolderChoice {
        uuid: uuid.to_string(),
        label: uuid.to_string(),
        ancestors: ancestors.iter().map(|a| a.to_string()).collect(),
    }
}

#[test]
fn folders_cannot_be_moved_into_themselves_or_below() {
    let folders = [choice("a", &[]), choice("b", &["a"]), choice("c", &["a", "b"]), choice("d", &[])];
    assert_eq!(
        vmux::bookmark_tree::folder_move_targets("b", true, &folders),
        [None, Some("a".to_string()), Some("d".to_string())]
    );
    assert_eq!(
        vmux::bookmark_tree::folder_move_targets("a", false, &folders),
        [Some("d".to_string())]
    );
    assert_eq!(
        vmux::bookmark_tree::entry_move_targets(Some("b"), &folders),
        [None, Some("a".to_string()), Some("c".to_string()), Some("d".to_string())]
    );
    assert_eq!(vmux::bookmark_tree::entry_move_targets(None, &folders).len(), 4);
}

#[test]
fn folder_rows_count_their_folders_bookmarks_and_smart_rows() {
    let folder = FolderRow {
        uuid: "f".to_string(),
        name: "F".to_string(),
        parent: None,
        children: vec![BookmarkRow { url: "https://a.test".to_string() }],
    };
    let sub = FolderRow { uuid: "g".to_string(), name: "G".to_string(), parent: Some("f".to_string()), children: vec![] };
    let other = FolderRow { uuid: "h".to_string(), name: "H".to_string(), parent: None, children: vec![] };
    assert_eq!(vmux::bookmark_tree::folder_contents(&folder, &[sub.clone(), other.clone()], None), (2, false));
    assert_eq!(vmux::bookmark_tree::folder_contents(&other, &[sub, folder.clone()], None), (0, true));
    assert_eq!(vmux::bookmark_tree::folder_contents(&other, &[], Some(0)), (0, false));
    assert_eq!(vmux::bookmark_tree::folder_contents(&other, &[], Some(3)), (3, false));
    assert_eq!(vmux::bookmark_tree::entry_title("", "https://a.test"), "https://a.test");
    assert_eq!(vmux::bookmark_tree::entry_title("A", "https://a.test"), "A");
}
