//! The actions of the program: their labels, shortcuts and contexts, and what each does.
use vstd::prelude::*;

use crate::views::views;

verus! {

/// What a key press asks for.
#[derive(Clone, Copy, Debug, PartialEq, Eq, Structural, Hash)]
pub enum KeyAction {
    Backspace,
    Delete,
    Left,
    Right,
    Home,
    End,
    InsertNewline,
    SendPrompt,
    SubmitRename,
    CancelRename,
    DismissModal,
    OpenWorkspace,
    OpenSourceControl,
    OpenTerminalRoute,
    OpenSettings,
    CycleTheme,
    ActivateRailItem,
    ToggleTerminal,
    ToggleDiff,
    ToggleDiffLayout,
    RefreshRepo,
    Quit,
}

#[derive(Clone, Copy, Debug, PartialEq, Eq, Structural, Hash)]
pub enum ActionId {
    ComposerBackspace,
    ComposerDelete,
    ComposerLeft,
    ComposerRight,
    ComposerHome,
    ComposerEnd,
    ComposerInsertNewline,
    ComposerSend,
    RenameBackspace,
    RenameDelete,
    RenameLeft,
    RenameRight,
    RenameHome,
    RenameEnd,
    RenameSubmit,
    RenameCancel,
    DismissModal,
    OpenWorkspace,
    OpenSourceControl,
    OpenTerminalRoute,
    OpenSettings,
    CycleTheme,
    ActivateRailItem,
    ActivateRailItemSpace,
    ToggleTerminal,
    ToggleDiff,
    ToggleDiffLayout,
    RefreshRepository,
    Quit,
}

/// An action as a user finds it.
#[derive(Clone, Copy, Debug, PartialEq, Eq)]
pub struct ActionDescriptor {
    pub id: ActionId,
    pub label: &'static str,
    pub shortcut: &'static str,
    pub context: Option<&'static str>,
}

/// The value of an `ActionDescriptor`.
#[verifier::ext_equal]
pub struct DescriptorModel {
    pub id: ActionId,
    pub label: Seq<char>,
    pub shortcut: Seq<char>,
    pub context: Option<Seq<char>>,
}

impl View for ActionDescriptor {
    type V = DescriptorModel;

    open spec fn view(&self) -> DescriptorModel {
        DescriptorModel {
            id: self.id,
            label: self.label@,
            shortcut: self.shortcut@,
            context: match self.context {
                Some(c) => Some(c@),
                None => None,
            },
        }
    }
}

/// A descriptor with the given parts.
pub fn action(
    id: ActionId,
    label: &'static str,
    shortcut: &'static str,
    context: Option<&'static str>,
) -> (r: ActionDescriptor)
    ensures
        r.id == id && r.label == label && r.shortcut == shortcut && r.context == context,
{
    ActionDescriptor { id, label, shortcut, context }
}

/// All actions, in the order of the registry.
pub open spec fn action_ids() -> Seq<ActionId> {
    seq![
        ActionId::ComposerBackspace,
        ActionId::ComposerDelete,
        ActionId::ComposerLeft,
        ActionId::ComposerRight,
        ActionId::ComposerHome,
        ActionId::ComposerEnd,
        ActionId::ComposerInsertNewline,
        ActionId::ComposerSend,
        ActionId::RenameBackspace,
        ActionId::RenameDelete,
        ActionId::RenameLeft,
        ActionId::RenameRight,
        ActionId::RenameHome,
        ActionId::RenameEnd,
        ActionId::RenameSubmit,
        ActionId::RenameCancel,
        ActionId::DismissModal,
        ActionId::OpenWorkspace,
        ActionId::OpenSourceControl,
        ActionId::OpenTerminalRoute,
        ActionId::OpenSettings,
        ActionId::CycleTheme,
        ActionId::ActivateRailItem,
        ActionId::ActivateRailItemSpace,
        ActionId::ToggleTerminal,
        ActionId::ToggleDiff,
        ActionId::ToggleDiffLayout,
        ActionId::RefreshRepository,
        ActionId::Quit,
    ]
}

/// What an action is called, the keys that ask for it, and where they do.
pub open spec fn descriptor(id: ActionId) -> DescriptorModel {
    let (label, shortcut, context) = match id {
        ActionId::ComposerBackspace => ("Delete backward"@, "backspace"@, Some("Composer"@)),
        ActionId::ComposerDelete => ("Delete forward"@, "delete"@, Some("Composer"@)),
        ActionId::ComposerLeft => ("Move left"@, "left"@, Some("Composer"@)),
        ActionId::ComposerRight => ("Move right"@, "right"@, Some("Composer"@)),
        ActionId::ComposerHome => ("Move to line start"@, "home"@, Some("Composer"@)),
        ActionId::ComposerEnd => ("Move to line end"@, "end"@, Some("Composer"@)),
        ActionId::ComposerInsertNewline => ("Insert newline"@, "shift-enter"@, Some("Composer"@)),
        ActionId::ComposerSend => ("Send prompt"@, "enter"@, Some("Composer"@)),
        ActionId::RenameBackspace => ("Delete backward"@, "backspace"@, Some("Rename"@)),
        ActionId::RenameDelete => ("Delete forward"@, "delete"@, Some("Rename"@)),
        ActionId::RenameLeft => ("Move left"@, "left"@, Some("Rename"@)),
        ActionId::RenameRight => ("Move right"@, "right"@, Some("Rename"@)),
        ActionId::RenameHome => ("Move to line start"@, "home"@, Some("Rename"@)),
        ActionId::RenameEnd => ("Move to line end"@, "end"@, Some("Rename"@)),
        ActionId::RenameSubmit => ("Apply rename"@, "enter"@, Some("Rename"@)),
        ActionId::RenameCancel => ("Cancel rename"@, "escape"@, Some("Rename"@)),
        ActionId::DismissModal => ("Close dialog"@, "escape"@, Some("Modal"@)),
        ActionId::OpenWorkspace => ("Open workspace"@, "ctrl-1"@, None),
        ActionId::OpenSourceControl => ("Open source control"@, "ctrl-2"@, None),
        ActionId::OpenTerminalRoute => ("Open terminal"@, "ctrl-3"@, None),
        ActionId::OpenSettings => ("Open settings"@, "ctrl-4"@, None),
        ActionId::CycleTheme => ("Cycle theme"@, "ctrl-shift-t"@, None),
        ActionId::ActivateRailItem => ("Activate navigation item"@, "enter"@, Some("Rail"@)),
        ActionId::ActivateRailItemSpace => ("Activate navigation item"@, "space"@, Some("Rail"@)),
        ActionId::ToggleTerminal => ("Toggle terminal"@, "ctrl-j"@, None),
        ActionId::ToggleDiff => ("Toggle diff"@, "ctrl-d"@, None),
        ActionId::ToggleDiffLayout => ("Toggle diff layout"@, "ctrl-shift-d"@, None),
        ActionId::RefreshRepository => ("Refresh repository"@, "ctrl-r"@, None),
        ActionId::Quit => ("Quit Rode"@, "ctrl-q"@, None),
    };
    DescriptorModel { id, label, shortcut, context }
}

/// The registry of all actions.
pub fn action_registry() -> (r: Vec<ActionDescriptor>)
    ensures
        views(r@) == action_ids().map_values(|id: ActionId| descriptor(id)),
{
    let r: Vec<ActionDescriptor> = vec![
        action(ActionId::ComposerBackspace, "Delete backward", "backspace", Some("Composer")),
        action(ActionId::ComposerDelete, "Delete forward", "delete", Some("Composer")),
        action(ActionId::ComposerLeft, "Move left", "left", Some("Composer")),
        action(ActionId::ComposerRight, "Move right", "right", Some("Composer")),
        action(ActionId::ComposerHome, "Move to line start", "home", Some("Composer")),
        action(ActionId::ComposerEnd, "Move to line end", "end", Some("Composer")),
        action(ActionId::ComposerInsertNewline, "Insert newline", "shift-enter", Some("Composer")),
        action(ActionId::ComposerSend, "Send prompt", "enter", Some("Composer")),
        action(ActionId::RenameBackspace, "Delete backward", "backspace", Some("Rename")),
        action(ActionId::RenameDelete, "Delete forward", "delete", Some("Rename")),
        action(ActionId::RenameLeft, "Move left", "left", Some("Rename")),
        action(ActionId::RenameRight, "Move right", "right", Some("Rename")),
        action(ActionId::RenameHome, "Move to line start", "home", Some("Rename")),
        action(ActionId::RenameEnd, "Move to line end", "end", Some("Rename")),
        action(ActionId::RenameSubmit, "Apply rename", "enter", Some("Rename")),
        action(ActionId::RenameCancel, "Cancel rename", "escape", Some("Rename")),
        action(ActionId::DismissModal, "Close dialog", "escape", Some("Modal")),
        action(ActionId::OpenWorkspace, "Open workspace", "ctrl-1", None),
        action(ActionId::OpenSourceControl, "Open source control", "ctrl-2", None),
        action(ActionId::OpenTerminalRoute, "Open terminal", "ctrl-3", None),
        action(ActionId::OpenSettings, "Open settings", "ctrl-4", None),
        action(ActionId::CycleTheme, "Cycle theme", "ctrl-shift-t", None),
        action(ActionId::ActivateRailItem, "Activate navigation item", "enter", Some("Rail")),
        action(ActionId::ActivateRailItemSpace, "Activate navigation item", "space", Some("Rail")),
        action(ActionId::ToggleTerminal, "Toggle terminal", "ctrl-j", None),
        action(ActionId::ToggleDiff, "Toggle diff", "ctrl-d", None),
        action(ActionId::ToggleDiffLayout, "Toggle diff layout", "ctrl-shift-d", None),
        action(ActionId::RefreshRepository, "Refresh repository", "ctrl-r", None),
        action(ActionId::Quit, "Quit Rode", "ctrl-q", None),
    ];
    assert(views(r@) =~= action_ids().map_values(|id: ActionId| descriptor(id)));
    r
}

/// What an action does.
pub open spec fn bound_to(id: ActionId) -> KeyAction {
    match id {
        ActionId::ComposerBackspace => KeyAction::Backspace,
        ActionId::ComposerDelete => KeyAction::Delete,
        ActionId::ComposerLeft => KeyAction::Left,
        ActionId::ComposerRight => KeyAction::Right,
        ActionId::ComposerHome => KeyAction::Home,
        ActionId::ComposerEnd => KeyAction::End,
        ActionId::ComposerInsertNewline => KeyAction::InsertNewline,
        ActionId::ComposerSend => KeyAction::SendPrompt,
        ActionId::RenameBackspace => KeyAction::Backspace,
        ActionId::RenameDelete => KeyAction::Delete,
        ActionId::RenameLeft => KeyAction::Left,
        ActionId::RenameRight => KeyAction::Right,
        ActionId::RenameHome => KeyAction::Home,
        ActionId::RenameEnd => KeyAction::End,
        ActionId::RenameSubmit => KeyAction::SubmitRename,
        ActionId::RenameCancel => KeyAction::CancelRename,
        ActionId::DismissModal => KeyAction::DismissModal,
        ActionId::OpenWorkspace => KeyAction::OpenWorkspace,
        ActionId::OpenSourceControl => KeyAction::OpenSourceControl,
        ActionId::OpenTerminalRoute => KeyAction::OpenTerminalRoute,
        ActionId::OpenSettings => KeyAction::OpenSettings,
        ActionId::CycleTheme => KeyAction::CycleTheme,
        ActionId::ActivateRailItem => KeyAction::ActivateRailItem,
        ActionId::ActivateRailItemSpace => KeyAction::ActivateRailItem,
        ActionId::ToggleTerminal => KeyAction::ToggleTerminal,
        ActionId::ToggleDiff => KeyAction::ToggleDiff,
        ActionId::ToggleDiffLayout => KeyAction::ToggleDiffLayout,
        ActionId::RefreshRepository => KeyAction::RefreshRepo,
        ActionId::Quit => KeyAction::Quit,
    }
}

/// See [`bound_to`].
pub fn binding(id: ActionId) -> (r: KeyAction)
    ensures
        r == bound_to(id),
{
    match id {
        ActionId::ComposerBackspace => KeyAction::Backspace,
        ActionId::ComposerDelete => KeyAction::Delete,
        ActionId::ComposerLeft => KeyAction::Left,
        ActionId::ComposerRight => KeyAction::Right,
        ActionId::ComposerHome => KeyAction::Home,
        ActionId::ComposerEnd => KeyAction::End,
        ActionId::ComposerInsertNewline => KeyAction::InsertNewline,
        ActionId::ComposerSend => KeyAction::SendPrompt,
        ActionId::RenameBackspace => KeyAction::Backspace,
        ActionId::RenameDelete => KeyAction::Delete,
        ActionId::RenameLeft => KeyAction::Left,
        ActionId::RenameRight => KeyAction::Right,
        ActionId::RenameHome => KeyAction::Home,
        ActionId::RenameEnd => KeyAction::End,
        ActionId::RenameSubmit => KeyAction::SubmitRename,
        ActionId::RenameCancel => KeyAction::CancelRename,
        ActionId::DismissModal => KeyAction::DismissModal,
        ActionId::OpenWorkspace => KeyAction::OpenWorkspace,
        ActionId::OpenSourceControl => KeyAction::OpenSourceControl,
        ActionId::OpenTerminalRoute => KeyAction::OpenTerminalRoute,
        ActionId::OpenSettings => KeyAction::OpenSettings,
        ActionId::CycleTheme => KeyAction::CycleTheme,
        ActionId::ActivateRailItem => KeyAction::ActivateRailItem,
        ActionId::ActivateRailItemSpace => KeyAction::ActivateRailItem,
        ActionId::ToggleTerminal => KeyAction::ToggleTerminal,
        ActionId::ToggleDiff => KeyAction::ToggleDiff,
        ActionId::ToggleDiffLayout => KeyAction::ToggleDiffLayout,
        ActionId::RefreshRepository => KeyAction::RefreshRepo,
        ActionId::Quit => KeyAction::Quit,
    }
}

/// Every action stands in the registry, once.
pub proof fn every_action_is_registered_once(id: ActionId)
    ensures
        action_ids().contains(id),
        action_ids().no_duplicates(),
{
    let i = match id {
        ActionId::ComposerBackspace => 0int,
        ActionId::ComposerDelete => 1int,
        ActionId::ComposerLeft => 2int,
        ActionId::ComposerRight => 3int,
        ActionId::ComposerHome => 4int,
        ActionId::ComposerEnd => 5int,
        ActionId::ComposerInsertNewline => 6int,
        ActionId::ComposerSend => 7int,
        ActionId::RenameBackspace => 8int,
        ActionId::RenameDelete => 9int,
        ActionId::RenameLeft => 10int,
        ActionId::RenameRight => 11int,
        ActionId::RenameHome => 12int,
        ActionId::RenameEnd => 13int,
        ActionId::RenameSubmit => 14int,
        ActionId::RenameCancel => 15int,
        ActionId::DismissModal => 16int,
        ActionId::OpenWorkspace => 17int,
        ActionId::OpenSourceControl => 18int,
        ActionId::OpenTerminalRoute => 19int,
        ActionId::OpenSettings => 20int,
        ActionId::CycleTheme => 21int,
        ActionId::ActivateRailItem => 22int,
        ActionId::ActivateRailItemSpace => 23int,
        ActionId::ToggleTerminal => 24int,
        ActionId::ToggleDiff => 25int,
        ActionId::ToggleDiffLayout => 26int,
        ActionId::RefreshRepository => 27int,
        ActionId::Quit => 28int,
    };
    assert(action_ids()[i] == id);
}

/// Every action has a label and a shortcut.
pub proof fn every_action_has_a_label_and_a_shortcut(id: ActionId)
    ensures
        descriptor(id).label.len() > 0,
        descriptor(id).shortcut.len() > 0,
{
    reveal_strlit("Delete backward");
    reveal_strlit("backspace");
    reveal_strlit("Delete forward");
    reveal_strlit("delete");
    reveal_strlit("Move left");
    reveal_strlit("left");
    reveal_strlit("Move right");
    reveal_strlit("right");
    reveal_strlit("Move to line start");
    reveal_strlit("home");
    reveal_strlit("Move to line end");
    reveal_strlit("end");
    reveal_strlit("Insert newline");
    reveal_strlit("shift-enter");
    reveal_strlit("Send prompt");
    reveal_strlit("enter");
    reveal_strlit("Apply rename");
    reveal_strlit("Cancel rename");
    reveal_strlit("escape");
    reveal_strlit("Close dialog");
    reveal_strlit("Open workspace");
    reveal_strlit("ctrl-1");
    reveal_strlit("Open source control");
    reveal_strlit("ctrl-2");
    reveal_strlit("Open terminal");
    reveal_strlit("ctrl-3");
    reveal_strlit("Open settings");
    reveal_strlit("ctrl-4");
    reveal_strlit("Cycle theme");
    reveal_strlit("ctrl-shift-t");
    reveal_strlit("Activate navigation item");
    reveal_strlit("space");
    reveal_strlit("Toggle terminal");
    reveal_strlit("ctrl-j");
    reveal_strlit("Toggle diff");
    reveal_strlit("ctrl-d");
    reveal_strlit("Toggle diff layout");
    reveal_strlit("ctrl-shift-d");
    reveal_strlit("Refresh repository");
    reveal_strlit("ctrl-r");
    reveal_strlit("Quit Rode");
    reveal_strlit("ctrl-q");
}

/// A number that tells shortcuts apart: what its length and three of its characters are.
spec fn mark(s: Seq<char>) -> int {
    s.len() + 32 * (s[0] as int + 128 * (s[s.len() - 1] as int + 128 * (s[s.len() as int / 2] as int)))
}

/// The mark of an action's shortcut, and the length of the name of its context.
spec fn marks(id: ActionId) -> (int, int) {
    match id {
        ActionId::ComposerBackspace => (60709961, 8),
        ActionId::ComposerDelete => (53369990, 8),
        ActionId::ComposerLeft => (53955972, 8),
        ActionId::ComposerRight => (54480453, 8),
        ActionId::ComposerHome => (57564420, 8),
        ActionId::ComposerEnd => (58084515, 8),
        ActionId::ComposerInsertNewline => (24063595, 8),
        ActionId::ComposerSend => (61287589, 8),
        ActionId::RenameBackspace => (60709961, 6),
        ActionId::RenameDelete => (53369990, 6),
        ActionId::RenameLeft => (53955972, 6),
        ActionId::RenameRight => (54480453, 6),
        ActionId::RenameHome => (57564420, 6),
        ActionId::RenameEnd => (58084515, 6),
        ActionId::RenameSubmit => (61287589, 6),
        ActionId::RenameCancel => (51272870, 6),
        ActionId::DismissModal => (51272870, 5),
        ActionId::OpenWorkspace => (56826982, 0),
        ActionId::OpenSourceControl => (56831078, 0),
        ActionId::OpenTerminalRoute => (56835174, 0),
        ActionId::OpenSettings => (56839270, 0),
        ActionId::CycleTheme => (55004268, 0),
        ActionId::ActivateRailItem => (61287589, 4),
        ActionId::ActivateRailItemSpace => (51273317, 4),
        ActionId::ToggleTerminal => (57060454, 0),
        ActionId::ToggleDiff => (57035878, 0),
        ActionId::ToggleDiffLayout => (54938732, 0),
        ActionId::RefreshRepository => (57093222, 0),
        ActionId::Quit => (57089126, 0),
    }
}

proof fn marks_are_right(id: ActionId)
    ensures
        mark(descriptor(id).shortcut) == marks(id).0,
        match descriptor(id).context {
            Some(c) => c.len() == marks(id).1 && c.len() > 0,
            None => marks(id).1 == 0,
        },
{
    reveal_strlit("backspace");
    reveal_strlit("delete");
    reveal_strlit("left");
    reveal_strlit("right");
    reveal_strlit("home");
    reveal_strlit("end");
    reveal_strlit("shift-enter");
    reveal_strlit("enter");
    reveal_strlit("escape");
    reveal_strlit("ctrl-1");
    reveal_strlit("ctrl-2");
    reveal_strlit("ctrl-3");
    reveal_strlit("ctrl-4");
    reveal_strlit("ctrl-shift-t");
    reveal_strlit("space");
    reveal_strlit("ctrl-j");
    reveal_strlit("ctrl-d");
    reveal_strlit("ctrl-shift-d");
    reveal_strlit("ctrl-r");
    reveal_strlit("ctrl-q");
    reveal_strlit("Composer");
    reveal_strlit("Rename");
    reveal_strlit("Modal");
    reveal_strlit("Rail");
}

/// In one context, a shortcut asks for one action.
pub proof fn shortcuts_are_unambiguous(a: ActionId, b: ActionId)
    requires
        descriptor(a).context == descriptor(b).context,
        descriptor(a).shortcut == descriptor(b).shortcut,
    ensures
        a == b,
{
    marks_are_right(a);
    marks_are_right(b);
    assert(marks(a) == marks(b));
}

} // verus!
