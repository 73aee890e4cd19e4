//! Keyboard bindings: the actions a key can run and the command ids the
//! settings file names them by, one for one.
use vstd::prelude::*;

verus! {

/// A direction between panes.
#[derive(Clone, Copy, Debug, PartialEq, Eq, Structural)]
pub enum PaneSwapDir {
    Left,
    Right,
    Up,
    Down,
}

/// An action a key binding runs.
#[derive(Clone, Copy, Debug, PartialEq, Eq, Structural)]
pub enum KeyAction {
    Quit,
    ToggleCommandPalette,
    FocusCommandPaletteUrl,
    OpenHistory,
    OpenHistoryInNewTab,
    SplitHorizontal,
    SplitVertical,
    CycleNextPane,
    SelectPane(PaneSwapDir),
    SwapPane(PaneSwapDir),
    ToggleZoom,
    MirrorLayout,
    RotateBackward,
    RotateForward,
    ClosePane,
}

/// The id a binding in the settings names its command by.
#[derive(Clone, Copy, Debug, PartialEq, Eq, Structural)]
pub enum BindingCommandId {
    Quit,
    ToggleCommandPalette,
    FocusCommandPaletteUrl,
    OpenHistory,
    OpenHistoryInNewTab,
    SplitHorizontal,
    SplitVertical,
    CycleNextPane,
    SelectPaneLeft,
    SelectPaneRight,
    SelectPaneUp,
    SelectPaneDown,
    SwapPaneLeft,
    SwapPaneRight,
    SwapPaneUp,
    SwapPaneDown,
    ToggleZoom,
    MirrorLayout,
    RotateBackward,
    RotateForward,
    ClosePane,
}

/// The id of an action.
pub open spec fn binding_id_of(a: KeyAction) -> BindingCommandId {
    match a {
        KeyAction::Quit => BindingCommandId::Quit,
        KeyAction::ToggleCommandPalette => BindingCommandId::ToggleCommandPalette,
        KeyAction::FocusCommandPaletteUrl => BindingCommandId::FocusCommandPaletteUrl,
        KeyAction::OpenHistory => BindingCommandId::OpenHistory,
        KeyAction::OpenHistoryInNewTab => BindingCommandId::OpenHistoryInNewTab,
        KeyAction::SplitHorizontal => BindingCommandId::SplitHorizontal,
        KeyAction::SplitVertical => BindingCommandId::SplitVertical,
        KeyAction::CycleNextPane => BindingCommandId::CycleNextPane,
        KeyAction::SelectPane(PaneSwapDir::Left) => BindingCommandId::SelectPaneLeft,
        KeyAction::SelectPane(PaneSwapDir::Right) => BindingCommandId::SelectPaneRight,
        KeyAction::SelectPane(PaneSwapDir::Up) => BindingCommandId::SelectPaneUp,
        KeyAction::SelectPane(PaneSwapDir::Down) => BindingCommandId::SelectPaneDown,
        KeyAction::SwapPane(PaneSwapDir::Left) => BindingCommandId::SwapPaneLeft,
        KeyAction::SwapPane(PaneSwapDir::Right) => BindingCommandId::SwapPaneRight,
        KeyAction::SwapPane(PaneSwapDir::Up) => BindingCommandId::SwapPaneUp,
        KeyAction::SwapPane(PaneSwapDir::Down) => BindingCommandId::SwapPaneDown,
        KeyAction::ToggleZoom => BindingCommandId::ToggleZoom,
        KeyAction::MirrorLayout => BindingCommandId::MirrorLayout,
        KeyAction::RotateBackward => BindingCommandId::RotateBackward,
        KeyAction::RotateForward => BindingCommandId::RotateForward,
        KeyAction::ClosePane => BindingCommandId::ClosePane,
    }
}

/// The action an id names.
pub open spec fn key_action_of(id: BindingCommandId) -> KeyAction {
    match id {
        BindingCommandId::Quit => KeyAction::Quit,
        BindingCommandId::ToggleCommandPalette => KeyAction::ToggleCommandPalette,
        BindingCommandId::FocusCommandPaletteUrl => KeyAction::FocusCommandPaletteUrl,
        BindingCommandId::OpenHistory => KeyAction::OpenHistory,
        BindingCommandId::OpenHistoryInNewTab => KeyAction::OpenHistoryInNewTab,
        BindingCommandId::SplitHorizontal => KeyAction::SplitHorizontal,
        BindingCommandId::SplitVertical => KeyAction::SplitVertical,
        BindingCommandId::CycleNextPane => KeyAction::CycleNextPane,
        BindingCommandId::SelectPaneLeft => KeyAction::SelectPane(PaneSwapDir::Left),
        BindingCommandId::SelectPaneRight => KeyAction::SelectPane(PaneSwapDir::Right),
        BindingCommandId::SelectPaneUp => KeyAction::SelectPane(PaneSwapDir::Up),
        BindingCommandId::SelectPaneDown => KeyAction::SelectPane(PaneSwapDir::Down),
        BindingCommandId::SwapPaneLeft => KeyAction::SwapPane(PaneSwapDir::Left),
        BindingCommandId::SwapPaneRight => KeyAction::SwapPane(PaneSwapDir::Right),
        BindingCommandId::SwapPaneUp => KeyAction::SwapPane(PaneSwapDir::Up),
        BindingCommandId::SwapPaneDown => KeyAction::SwapPane(PaneSwapDir::Down),
        BindingCommandId::ToggleZoom => KeyAction::ToggleZoom,
        BindingCommandId::MirrorLayout => KeyAction::MirrorLayout,
        BindingCommandId::RotateBackward => KeyAction::RotateBackward,
        BindingCommandId::RotateForward => KeyAction::RotateForward,
        BindingCommandId::ClosePane => KeyAction::ClosePane,
    }
}

impl KeyAction {
    /// The id the settings name this action by.
    pub fn to_binding_id(self) -> (r: BindingCommandId)
        ensures
            r == binding_id_of(self),
            (self == KeyAction::SelectPane(PaneSwapDir::Left)) <==> (r == BindingCommandId::SelectPaneLeft),
            (self == KeyAction::SelectPane(PaneSwapDir::Right)) <==> (r == BindingCommandId::SelectPaneRight),
            (self == KeyAction::SelectPane(PaneSwapDir::Up)) <==> (r == BindingCommandId::SelectPaneUp),
            (self == KeyAction::SelectPane(PaneSwapDir::Down)) <==> (r == BindingCommandId::SelectPaneDown),
            (self == KeyAction::SwapPane(PaneSwapDir::Left)) <==> (r == BindingCommandId::SwapPaneLeft),
            (self == KeyAction::SwapPane(PaneSwapDir::Right)) <==> (r == BindingCommandId::SwapPaneRight),
            (self == KeyAction::SwapPane(PaneSwapDir::Up)) <==> (r == BindingCommandId::SwapPaneUp),
            (self == KeyAction::SwapPane(PaneSwapDir::Down)) <==> (r == BindingCommandId::SwapPaneDown),
    {
        match self {
            KeyAction::Quit => BindingCommandId::Quit,
            KeyAction::ToggleCommandPalette => BindingCommandId::ToggleCommandPalette,
            KeyAction::FocusCommandPaletteUrl => BindingCommandId::FocusCommandPaletteUrl,
            KeyAction::OpenHistory => BindingCommandId::OpenHistory,
            KeyAction::OpenHistoryInNewTab => BindingCommandId::OpenHistoryInNewTab,
            KeyAction::SplitHorizontal => BindingCommandId::SplitHorizontal,
            KeyAction::SplitVertical => BindingCommandId::SplitVertical,
            KeyAction::CycleNextPane => BindingCommandId::CycleNextPane,
            KeyAction::SelectPane(PaneSwapDir::Left) => BindingCommandId::SelectPaneLeft,
            KeyAction::SelectPane(PaneSwapDir::Right) => BindingCommandId::SelectPaneRight,
            KeyAction::SelectPane(PaneSwapDir::Up) => BindingCommandId::SelectPaneUp,
            KeyAction::SelectPane(PaneSwapDir::Down) => BindingCommandId::SelectPaneDown,
            KeyAction::SwapPane(PaneSwapDir::Left) => BindingCommandId::SwapPaneLeft,
            KeyAction::SwapPane(PaneSwapDir::Right) => BindingCommandId::SwapPaneRight,
            KeyAction::SwapPane(PaneSwapDir::Up) => BindingCommandId::SwapPaneUp,
            KeyAction::SwapPane(PaneSwapDir::Down) => BindingCommandId::SwapPaneDown,
            KeyAction::ToggleZoom => BindingCommandId::ToggleZoom,
            KeyAction::MirrorLayout => BindingCommandId::MirrorLayout,
            KeyAction::RotateBackward => BindingCommandId::RotateBackward,
            KeyAction::RotateForward => BindingCommandId::RotateForward,
            KeyAction::ClosePane => BindingCommandId::ClosePane,
        }
    }
}

/// The action a binding id names; every id names one.
pub fn key_action_from_binding_id(id: BindingCommandId) -> (r: Option<KeyAction>)
    ensures
        r == Some(key_action_of(id)),
        (id == BindingCommandId::SelectPaneLeft) <==> (r == Some(KeyAction::SelectPane(PaneSwapDir::Left))),
        (id == BindingCommandId::SelectPaneRight) <==> (r == Some(KeyAction::SelectPane(PaneSwapDir::Right))),
        (id == BindingCommandId::SelectPaneUp) <==> (r == Some(KeyAction::SelectPane(PaneSwapDir::Up))),
        (id == BindingCommandId::SelectPaneDown) <==> (r == Some(KeyAction::SelectPane(PaneSwapDir::Down))),
        (id == BindingCommandId::SwapPaneLeft) <==> (r == Some(KeyAction::SwapPane(PaneSwapDir::Left))),
        (id == BindingCommandId::SwapPaneRight) <==> (r == Some(KeyAction::SwapPane(PaneSwapDir::Right))),
        (id == BindingCommandId::SwapPaneUp) <==> (r == Some(KeyAction::SwapPane(PaneSwapDir::Up))),
        (id == BindingCommandId::SwapPaneDown) <==> (r == Some(KeyAction::SwapPane(PaneSwapDir::Down))),
{
    Some(
        match id {
            BindingCommandId::Quit => KeyAction::Quit,
            BindingCommandId::ToggleCommandPalette => KeyAction::ToggleCommandPalette,
            BindingCommandId::FocusCommandPaletteUrl => KeyAction::FocusCommandPaletteUrl,
            BindingCommandId::OpenHistory => KeyAction::OpenHistory,
            BindingCommandId::OpenHistoryInNewTab => KeyAction::OpenHistoryInNewTab,
            BindingCommandId::SplitHorizontal => KeyAction::SplitHorizontal,
            BindingCommandId::SplitVertical => KeyAction::SplitVertical,
            BindingCommandId::CycleNextPane => KeyAction::CycleNextPane,
            BindingCommandId::SelectPaneLeft => KeyAction::SelectPane(PaneSwapDir::Left),
            BindingCommandId::SelectPaneRight => KeyAction::SelectPane(PaneSwapDir::Right),
            BindingCommandId::SelectPaneUp => KeyAction::SelectPane(PaneSwapDir::Up),
            BindingCommandId::SelectPaneDown => KeyAction::SelectPane(PaneSwapDir::Down),
            BindingCommandId::SwapPaneLeft => KeyAction::SwapPane(PaneSwapDir::Left),
            BindingCommandId::SwapPaneRight => KeyAction::SwapPane(PaneSwapDir::Right),
            BindingCommandId::SwapPaneUp => KeyAction::SwapPane(PaneSwapDir::Up),
            BindingCommandId::SwapPaneDown => KeyAction::SwapPane(PaneSwapDir::Down),
            BindingCommandId::ToggleZoom => KeyAction::ToggleZoom,
            BindingCommandId::MirrorLayout => KeyAction::MirrorLayout,
            BindingCommandId::RotateBackward => KeyAction::RotateBackward,
            BindingCommandId::RotateForward => KeyAction::RotateForward,
            BindingCommandId::ClosePane => KeyAction::ClosePane,
        },
    )
}

/// An action's id names that action again.
pub proof fn lemma_action_id_round_trip(a: KeyAction)
    ensures
        key_action_of(binding_id_of(a)) == a,
{
}

/// An id's action has that id again: actions and ids correspond one for one.
pub proof fn lemma_id_action_round_trip(id: BindingCommandId)
    ensures
        binding_id_of(key_action_of(id)) == id,
{
}

/// Two actions with the same id are the same action.
pub proof fn lemma_binding_ids_are_distinct(a: KeyAction, b: KeyAction)
    requires
        binding_id_of(a) == binding_id_of(b),
    ensures
        a == b,
{
    lemma_action_id_round_trip(a);
    lemma_action_id_round_trip(b);
}

/// A command of the app that a key binding can reach.
#[derive(Clone, Copy, Debug, PartialEq, Eq, Structural)]
pub enum AppCommand {
    Quit,
    ToggleCommandPalette,
    FocusCommandPaletteUrl,
    OpenHistory,
    OpenHistoryInNewTab,
    SplitHorizontal,
    SplitVertical,
    CycleNextPane,
    SelectPane(PaneSwapDir),
    SwapPane(PaneSwapDir),
    ToggleZoom,
    MirrorLayout,
    RotateBackward,
    RotateForward,
    ClosePane,
}

/// The app command a key action runs.
pub open spec fn app_command_for(a: KeyAction) -> AppCommand {
    match a {
        KeyAction::Quit => AppCommand::Quit,
        KeyAction::ToggleCommandPalette => AppCommand::ToggleCommandPalette,
        KeyAction::FocusCommandPaletteUrl => AppCommand::FocusCommandPaletteUrl,
        KeyAction::OpenHistory => AppCommand::OpenHistory,
        KeyAction::OpenHistoryInNewTab => AppCommand::OpenHistoryInNewTab,
        KeyAction::SplitHorizontal => AppCommand::SplitHorizontal,
        KeyAction::SplitVertical => AppCommand::SplitVertical,
        KeyAction::CycleNextPane => AppCommand::CycleNextPane,
        KeyAction::SelectPane(d) => AppCommand::SelectPane(d),
        KeyAction::SwapPane(d) => AppCommand::SwapPane(d),
        KeyAction::ToggleZoom => AppCommand::ToggleZoom,
        KeyAction::MirrorLayout => AppCommand::MirrorLayout,
        KeyAction::RotateBackward => AppCommand::RotateBackward,
        KeyAction::RotateForward => AppCommand::RotateForward,
        KeyAction::ClosePane => AppCommand::ClosePane,
    }
}

/// The app command a binding id names.
pub open spec fn app_command_of(id: BindingCommandId) -> AppCommand {
    match id {
        BindingCommandId::Quit => AppCommand::Quit,
        BindingCommandId::ToggleCommandPalette => AppCommand::ToggleCommandPalette,
        BindingCommandId::FocusCommandPaletteUrl => AppCommand::FocusCommandPaletteUrl,
        BindingCommandId::OpenHistory => AppCommand::OpenHistory,
        BindingCommandId::OpenHistoryInNewTab => AppCommand::OpenHistoryInNewTab,
        BindingCommandId::SplitHorizontal => AppCommand::SplitHorizontal,
        BindingCommandId::SplitVertical => AppCommand::SplitVertical,
        BindingCommandId::CycleNextPane => AppCommand::CycleNextPane,
        BindingCommandId::SelectPaneLeft => AppCommand::SelectPane(PaneSwapDir::Left),
        BindingCommandId::SelectPaneRight => AppCommand::SelectPane(PaneSwapDir::Right),
        BindingCommandId::SelectPaneUp => AppCommand::SelectPane(PaneSwapDir::Up),
        BindingCommandId::SelectPaneDown => AppCommand::SelectPane(PaneSwapDir::Down),
        BindingCommandId::SwapPaneLeft => AppCommand::SwapPane(PaneSwapDir::Left),
        BindingCommandId::SwapPaneRight => AppCommand::SwapPane(PaneSwapDir::Right),
        BindingCommandId::SwapPaneUp => AppCommand::SwapPane(PaneSwapDir::Up),
        BindingCommandId::SwapPaneDown => AppCommand::SwapPane(PaneSwapDir::Down),
        BindingCommandId::ToggleZoom => AppCommand::ToggleZoom,
        BindingCommandId::MirrorLayout => AppCommand::MirrorLayout,
        BindingCommandId::RotateBackward => AppCommand::RotateBackward,
        BindingCommandId::RotateForward => AppCommand::RotateForward,
        BindingCommandId::ClosePane => AppCommand::ClosePane,
    }
}

/// The app command a binding id names; every id names one.
pub fn app_command_from_binding_id(id: BindingCommandId) -> (r: AppCommand)
    ensures
        r == app_command_of(id),
        (id == BindingCommandId::SelectPaneLeft) <==> (r == AppCommand::SelectPane(PaneSwapDir::Left)),
        (id == BindingCommandId::SelectPaneRight) <==> (r == AppCommand::SelectPane(PaneSwapDir::Right)),
        (id == BindingCommandId::SelectPaneUp) <==> (r == AppCommand::SelectPane(PaneSwapDir::Up)),
        (id == BindingCommandId::SelectPaneDown) <==> (r == AppCommand::SelectPane(PaneSwapDir::Down)),
        (id == BindingCommandId::SwapPaneLeft) <==> (r == AppCommand::SwapPane(PaneSwapDir::Left)),
        (id == BindingCommandId::SwapPaneRight) <==> (r == AppCommand::SwapPane(PaneSwapDir::Right)),
        (id == BindingCommandId::SwapPaneUp) <==> (r == AppCommand::SwapPane(PaneSwapDir::Up)),
        (id == BindingCommandId::SwapPaneDown) <==> (r == AppCommand::SwapPane(PaneSwapDir::Down)),
{
    match id {
        BindingCommandId::Quit => AppCommand::Quit,
        BindingCommandId::ToggleCommandPalette => AppCommand::ToggleCommandPalette,
        BindingCommandId::FocusCommandPaletteUrl => AppCommand::FocusCommandPaletteUrl,
        BindingCommandId::OpenHistory => AppCommand::OpenHistory,
        BindingCommandId::OpenHistoryInNewTab => AppCommand::OpenHistoryInNewTab,
        BindingCommandId::SplitHorizontal => AppCommand::SplitHorizontal,
        BindingCommandId::SplitVertical => AppCommand::SplitVertical,
        BindingCommandId::CycleNextPane => AppCommand::CycleNextPane,
        BindingCommandId::SelectPaneLeft => AppCommand::SelectPane(PaneSwapDir::Left),
        BindingCommandId::SelectPaneRight => AppCommand::SelectPane(PaneSwapDir::Right),
        BindingCommandId::SelectPaneUp => AppCommand::SelectPane(PaneSwapDir::Up),
        BindingCommandId::SelectPaneDown => AppCommand::SelectPane(PaneSwapDir::Down),
        BindingCommandId::SwapPaneLeft => AppCommand::SwapPane(PaneSwapDir::Left),
        BindingCommandId::SwapPaneRight => AppCommand::SwapPane(PaneSwapDir::Right),
        BindingCommandId::SwapPaneUp => AppCommand::SwapPane(PaneSwapDir::Up),
        BindingCommandId::SwapPaneDown => AppCommand::SwapPane(PaneSwapDir::Down),
        BindingCommandId::ToggleZoom => AppCommand::ToggleZoom,
        BindingCommandId::MirrorLayout => AppCommand::MirrorLayout,
        BindingCommandId::RotateBackward => AppCommand::RotateBackward,
        BindingCommandId::RotateForward => AppCommand::RotateForward,
        BindingCommandId::ClosePane => AppCommand::ClosePane,
    }
}

/// A binding runs the same app command whether its id is read as an app
/// command directly or through its key action, and different ids run
/// different commands.
pub proof fn lemma_binding_routes_agree(id: BindingCommandId, other: BindingCommandId)
    ensures
        app_command_of(id) == app_command_for(key_action_of(id)),
        id != other ==> app_command_of(id) != app_command_of(other),
{
}

/// Each pane id names its own direction: `select_pane_up` selects the pane
/// above, `swap_pane_left` swaps with the pane to the left, and so on for
/// every direction, both as a key action and as an app command, and no other
/// id names that action.
pub proof fn lemma_pane_ids_name_their_direction(id: BindingCommandId, a: KeyAction)
    ensures
        (id == BindingCommandId::SelectPaneLeft) <==> (key_action_of(id) == KeyAction::SelectPane(PaneSwapDir::Left)),
        (id == BindingCommandId::SelectPaneRight) <==> (key_action_of(id) == KeyAction::SelectPane(PaneSwapDir::Right)),
        (id == BindingCommandId::SelectPaneUp) <==> (key_action_of(id) == KeyAction::SelectPane(PaneSwapDir::Up)),
        (id == BindingCommandId::SelectPaneDown) <==> (key_action_of(id) == KeyAction::SelectPane(PaneSwapDir::Down)),
        (id == BindingCommandId::SwapPaneLeft) <==> (key_action_of(id) == KeyAction::SwapPane(PaneSwapDir::Left)),
        (id == BindingCommandId::SwapPaneRight) <==> (key_action_of(id) == KeyAction::SwapPane(PaneSwapDir::Right)),
        (id == BindingCommandId::SwapPaneUp) <==> (key_action_of(id) == KeyAction::SwapPane(PaneSwapDir::Up)),
        (id == BindingCommandId::SwapPaneDown) <==> (key_action_of(id) == KeyAction::SwapPane(PaneSwapDir::Down)),
        (id == BindingCommandId::SelectPaneLeft) <==> (app_command_of(id) == AppCommand::SelectPane(PaneSwapDir::Left)),
        (id == BindingCommandId::SelectPaneRight) <==> (app_command_of(id) == AppCommand::SelectPane(PaneSwapDir::Right)),
        (id == BindingCommandId::SelectPaneUp) <==> (app_command_of(id) == AppCommand::SelectPane(PaneSwapDir::Up)),
        (id == BindingCommandId::SelectPaneDown) <==> (app_command_of(id) == AppCommand::SelectPane(PaneSwapDir::Down)),
        (id == BindingCommandId::SwapPaneLeft) <==> (app_command_of(id) == AppCommand::SwapPane(PaneSwapDir::Left)),
        (id == BindingCommandId::SwapPaneRight) <==> (app_command_of(id) == AppCommand::SwapPane(PaneSwapDir::Right)),
        (id == BindingCommandId::SwapPaneUp) <==> (app_command_of(id) == AppCommand::SwapPane(PaneSwapDir::Up)),
        (id == BindingCommandId::SwapPaneDown) <==> (app_command_of(id) == AppCommand::SwapPane(PaneSwapDir::Down)),
        (a == KeyAction::SelectPane(PaneSwapDir::Left)) <==> (binding_id_of(a) == BindingCommandId::SelectPaneLeft),
        (a == KeyAction::SelectPane(PaneSwapDir::Right)) <==> (binding_id_of(a) == BindingCommandId::SelectPaneRight),
        (a == KeyAction::SelectPane(PaneSwapDir::Up)) <==> (binding_id_of(a) == BindingCommandId::SelectPaneUp),
        (a == KeyAction::SelectPane(PaneSwapDir::Down)) <==> (binding_id_of(a) == BindingCommandId::SelectPaneDown),
        (a == KeyAction::SwapPane(PaneSwapDir::Left)) <==> (binding_id_of(a) == BindingCommandId::SwapPaneLeft),
        (a == KeyAction::SwapPane(PaneSwapDir::Right)) <==> (binding_id_of(a) == BindingCommandId::SwapPaneRight),
        (a == KeyAction::SwapPane(PaneSwapDir::Up)) <==> (binding_id_of(a) == BindingCommandId::SwapPaneUp),
        (a == KeyAction::SwapPane(PaneSwapDir::Down)) <==> (binding_id_of(a) == BindingCommandId::SwapPaneDown),
{
}

} // verus!
