use vmux::bindings::{key_action_from_binding_id, BindingCommandId, KeyAction, PaneSwapDir};
use vmux::cheatsheet::{CheatsheetEvent, LabelledShortcut, ShortcutEntry, ShortcutGroup};
use vmux::footer::{
    space_close_button_class, space_index_class, space_pill_class, FooterCommandEvent,
    FOOTER_HEIGHT_PX,
};
use vmux::palette::{command_list, match_command, result_item_class};
use vmux::spaces::{
    handle_space_command, on_footer_command, parse_id, pick_after_close, shown_space, space_rows, FooterAction,
    SpaceCommand, SpacePlan,
};

#[test]
fn selected_result_item_uses_blue_full_row_background() {
    let class = result_item_class(true);

    assert!(class.contains("bg-sidebar-primary"));
    assert!(class.contains("text-sidebar-primary-foreground"));
    assert!(class.contains("w-full"));
    assert!(!class.contains("bg-white/10"));
}

#[test]
fn unselected_result_item_highlights_on_hover() {
    assert!(result_item_class(false).contains("hover:bg-white/5"));
    assert!(!result_item_class(false).contains("bg-sidebar-primary"));
}

#[test]
fn active_space_pill_uses_continuous_blue_selector() {
    let class = space_pill_class(true);

    assert!(class.contains("bg-sidebar-primary"));
    assert!(class.contains("text-sidebar-primary-foreground"));
    assert!(!class.contains("glass"));
}

#[test]
fn space_pills_fit_compact_footer() {
    assert!(space_pill_class(true).contains("h-6"));
    assert!(space_pill_class(false).contains("h-6"));
}

#[test]
fn inactive_space_close_button_is_visible_on_hover() {
    let class = space_close_button_class(false);

    assert!(class.contains("group-hover:opacity-100"));
    assert!(!class.contains("invisible"));
    assert!(!class.contains("pointer-events-none"));
}

#[test]
fn footer_height_is_compact() {
    assert_eq!(FOOTER_HEIGHT_PX as f32, 32.0);
}

#[test]
fn space_numbers_follow_the_pill_state() {
    assert_eq!(space_index_class(true), "font-mono text-sidebar-primary-foreground");
    assert_eq!(space_index_class(false), "font-mono text-muted-foreground");
    assert!(space_close_button_class(true).contains("hover:bg-white/20"));
}

#[test]
fn footer_buttons_send_their_commands() {
    let switch = FooterCommandEvent::switch("7");
    assert_eq!(switch.command, "switch");
    assert_eq!(switch.space_id.as_deref(), Some("7"));
    assert_eq!(FooterCommandEvent::close("7").command, "close");
    assert_eq!(FooterCommandEvent::new_space(), FooterCommandEvent { command: "new".to_string(), space_id: None });
}

#[test]
fn palette_lists_commands_in_order_and_finds_them_by_id() {
    let commands = [("quit", "Quit", "⌘Q"), ("split", "Split", "⌘D"), ("quit", "Quit again", "")];
    let entries = command_list(&commands);
    assert_eq!(entries.len(), 3);
    assert_eq!((entries[1].id, entries[1].name, entries[1].shortcut), ("split", "Split", "⌘D"));
    assert_eq!(match_command(&entries, "quit").map(|e| e.name), Some("Quit"));
    assert_eq!(match_command(&entries, "missing"), None);
}

#[test]
fn closing_a_space_activates_the_next_one_or_wraps_around() {
    assert_eq!(pick_after_close(2, &[1, 2, 3]), Some(3));
    assert_eq!(pick_after_close(3, &[1, 2, 3]), Some(1));
    assert_eq!(pick_after_close(1, &[1]), None);
    assert_eq!(pick_after_close(9, &[1, 2]), None);
}

fn plan(spawn: Option<&str>, activate: Option<u64>, despawn: Option<u64>, reorder: Option<SpaceCommand>) -> SpacePlan {
    SpacePlan { spawn: spawn.map(str::to_string), activate, despawn, reorder }
}

#[test]
fn space_commands_plan_what_the_host_does() {
    assert_eq!(handle_space_command(SpaceCommand::New, Some(1), &[1, 2], 2, true), plan(Some("Space 3"), None, None, None));
    assert_eq!(handle_space_command(SpaceCommand::New, None, &[], 0, false), plan(None, None, None, None));
    assert_eq!(handle_space_command(SpaceCommand::Close, Some(1), &[1], 1, true), plan(Some("Space 2"), None, Some(1), None));
    assert_eq!(handle_space_command(SpaceCommand::Close, Some(2), &[1, 2, 3], 3, true), plan(None, Some(3), Some(2), None));
    assert_eq!(handle_space_command(SpaceCommand::Close, None, &[1, 2], 2, true), plan(None, None, None, None));
    assert_eq!(handle_space_command(SpaceCommand::Next, Some(3), &[1, 2, 3], 3, true), plan(None, Some(1), None, None));
    assert_eq!(handle_space_command(SpaceCommand::Previous, Some(1), &[1, 2, 3], 3, true), plan(None, Some(3), None, None));
    assert_eq!(handle_space_command(SpaceCommand::Next, Some(1), &[1], 1, true), plan(None, None, None, None));
    assert_eq!(handle_space_command(SpaceCommand::Rename, Some(1), &[1, 2], 2, true), plan(None, None, None, None));
    assert_eq!(
        handle_space_command(SpaceCommand::SwapNext, Some(1), &[1, 2], 2, true),
        plan(None, None, None, Some(SpaceCommand::SwapNext))
    );
}

#[test]
fn next_then_previous_returns_to_the_same_space() {
    let siblings = [4, 8, 15, 16];
    for &start in &siblings {
        let next = handle_space_command(SpaceCommand::Next, Some(start), &siblings, 4, true).activate.unwrap();
        let back = handle_space_command(SpaceCommand::Previous, Some(next), &siblings, 4, true).activate.unwrap();
        assert_eq!(back, start);
    }
}

#[test]
fn footer_rows_name_unnamed_spaces_and_mark_the_active_one() {
    let rows = space_rows(&[(12, String::new()), (34, "Work".to_string())], Some(34));
    assert_eq!((rows[0].id.as_str(), rows[0].name.as_str(), rows[0].is_active), ("12", "Space", false));
    assert_eq!((rows[1].id.as_str(), rows[1].name.as_str(), rows[1].is_active), ("34", "Work", true));
}

#[test]
fn footer_commands_switch_only_to_known_spaces() {
    let spaces = [5, 42];
    assert_eq!(on_footer_command(&FooterCommandEvent::new_space(), &spaces), FooterAction::New);
    assert_eq!(on_footer_command(&FooterCommandEvent::close("5"), &spaces), FooterAction::Close);
    assert_eq!(on_footer_command(&FooterCommandEvent::switch("42"), &spaces), FooterAction::Activate(42));
    assert_eq!(on_footer_command(&FooterCommandEvent::switch("+42"), &spaces), FooterAction::Activate(42));
    assert_eq!(on_footer_command(&FooterCommandEvent::switch("7"), &spaces), FooterAction::Ignore);
    assert_eq!(on_footer_command(&FooterCommandEvent::switch("x"), &spaces), FooterAction::Ignore);
    let no_id = FooterCommandEvent { command: "switch".to_string(), space_id: None };
    assert_eq!(on_footer_command(&no_id, &spaces), FooterAction::Ignore);
    let other = FooterCommandEvent { command: "rename".to_string(), space_id: None };
    assert_eq!(on_footer_command(&other, &spaces), FooterAction::Ignore);
}

#[test]
fn space_ids_parse_as_rust_reads_a_u64() {
    for text in ["0", "18446744073709551615", "+7", "007"] {
        assert_eq!(parse_id(text), text.parse::<u64>().ok(), "{text}");
    }
    for text in ["", "+", "-1", "18446744073709551616", " 1", "1a"] {
        assert_eq!(parse_id(text), None, "{text}");
    }
}

#[test]
fn key_actions_and_binding_ids_correspond_one_for_one() {
    let actions = [
        KeyAction::Quit,
        KeyAction::ToggleCommandPalette,
        KeyAction::SelectPane(PaneSwapDir::Up),
        KeyAction::SwapPane(PaneSwapDir::Left),
        KeyAction::ClosePane,
    ];
    for action in actions {
        assert_eq!(key_action_from_binding_id(action.to_binding_id()), Some(action));
    }
    assert_eq!(KeyAction::SwapPane(PaneSwapDir::Down).to_binding_id(), BindingCommandId::SwapPaneDown);
    assert_eq!(key_action_from_binding_id(BindingCommandId::RotateForward), Some(KeyAction::RotateForward));
}

fn binding(label: Option<&str>, shortcut: &str) -> LabelledShortcut {
    LabelledShortcut { label: label.map(str::to_string), shortcut: shortcut.to_string() }
}

fn entry(name: &str, shortcuts: &[&str]) -> ShortcutEntry {
    ShortcutEntry { name: name.to_string(), shortcuts: shortcuts.iter().map(|s| s.to_string()).collect() }
}

#[test]
fn event_lists_hidden_and_visible_shortcuts() {
    let bindings = [
        binding(Some("Pane > Rotate Forward"), "⌃⇧]"),
        binding(Some("Tab > Open in New Tab"), "⌘⏎"),
        binding(None, "⌘K"),
    ];
    let event = CheatsheetEvent::of(&bindings, "General");
    let names = event
        .groups
        .iter()
        .flat_map(|group| group.entries.iter())
        .map(|entry| entry.name.as_str())
        .collect::<Vec<_>>();

    assert!(names.iter().any(|name| name.contains("Rotate Forward")));
    assert!(names.iter().any(|name| name.contains("Open in New Tab")));
    assert_eq!(names.len(), 2);
}

#[test]
fn cheatsheet_groups_sort_and_list_each_shortcut_once() {
    let bindings = [
        binding(Some("Window > Zoom"), "⌘Z"),
        binding(Some("Quit"), "⌘Q"),
        binding(Some("Window > Close"), "⌘W"),
        binding(Some("Window > Zoom"), "⌃Z"),
        binding(Some("Window > Zoom"), "⌘Z"),
        binding(Some("A > B > C"), "x"),
    ];
    let event = CheatsheetEvent::of(&bindings, "General");
    assert_eq!(
        event.groups,
        vec![
            ShortcutGroup { name: "A".to_string(), entries: vec![entry("B > C", &["x"])] },
            ShortcutGroup { name: "General".to_string(), entries: vec![entry("Quit", &["⌘Q"])] },
            ShortcutGroup {
                name: "Window".to_string(),
                entries: vec![entry("Close", &["⌘W"]), entry("Zoom", &["⌘Z", "⌃Z"])],
            },
        ]
    );
}

#[test]
fn cheatsheet_search_keeps_matching_commands() {
    let group = ShortcutGroup {
        name: "Window".to_string(),
        entries: vec![entry("Close", &["⌘W"]), entry("Zoom", &["⌘Z", "Ctrl+Z"])],
    };
    assert_eq!(group.filtered(""), Some(group.clone()));
    assert_eq!(group.filtered("window"), Some(group.clone()));
    assert_eq!(
        group.filtered("ctrl"),
        Some(ShortcutGroup { name: "Window".to_string(), entries: vec![entry("Zoom", &["⌘Z", "Ctrl+Z"])] })
    );
    assert_eq!(group.filtered("nothing"), None);
    let event = CheatsheetEvent { groups: vec![group.clone(), ShortcutGroup { name: "Tab".to_string(), entries: vec![entry("New", &["⌘T"])] }] };
    let (shown, count) = event.visible("  ZOOM ");
    assert_eq!(shown.len(), 1);
    assert_eq!(count, 1);
    let (all, total) = event.visible("");
    assert_eq!(all.len(), 2);
    assert_eq!(total, 3);
}

#[test]
fn the_space_activated_last_is_shown() {
    assert_eq!(shown_space(&[]), None);
    assert_eq!(shown_space(&[(4, 10)]), Some(4));
    assert_eq!(shown_space(&[(1, 5), (2, 9), (3, 7)]), Some(2));
    assert_eq!(shown_space(&[(1, 9), (2, 3), (3, 9)]), Some(3));
}

#[test]
fn the_spaces_payload_is_sent_only_when_it_changes() {
    let mut last = String::new();
    assert_eq!(vmux::spaces::emit_if_changed(&mut last, "a".to_string()), Some("a".to_string()));
    assert_eq!(vmux::spaces::emit_if_changed(&mut last, "a".to_string()), None);
    assert_eq!(vmux::spaces::emit_if_changed(&mut last, "b".to_string()), Some("b".to_string()));
    assert_eq!(last, "b");
}

#[test]
fn the_running_bundle_is_the_nearest_app_above_the_executable() {
    assert_eq!(
        vmux::desktop::running_app_bundle("/Applications/Vmux.app/Contents/MacOS/vmux"),
        Some("/Applications/Vmux.app".to_string())
    );
    assert_eq!(
        vmux::desktop::running_app_bundle("/tmp/Outer.app/Inner.app/Contents/MacOS/vmux"),
        Some("/tmp/Outer.app/Inner.app".to_string())
    );
    assert_eq!(vmux::desktop::running_app_bundle("/usr/local/bin/vmux"), None);
    assert_eq!(vmux::desktop::running_app_bundle("/tmp/.app/vmux"), None);
}

#[test]
fn binding_ids_name_their_app_commands() {
    assert_eq!(
        vmux::bindings::app_command_from_binding_id(vmux::bindings::BindingCommandId::SwapPaneUp),
        vmux::bindings::AppCommand::SwapPane(vmux::bindings::PaneSwapDir::Up)
    );
    assert_eq!(
        vmux::bindings::app_command_from_binding_id(vmux::bindings::BindingCommandId::Quit),
        vmux::bindings::AppCommand::Quit
    );
    assert_eq!(
        vmux::bindings::app_command_from_binding_id(vmux::bindings::BindingCommandId::SelectPaneLeft),
        vmux::bindings::AppCommand::SelectPane(vmux::bindings::PaneSwapDir::Left)
    );
}
