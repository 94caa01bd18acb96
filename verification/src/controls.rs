//! The controls of the interface: what each says, its colours, and what it does.
use vstd::prelude::*;

use crate::diff::DiffViewMode;
use crate::routes::{AppRoute, SettingsSection};
use crate::text;
use crate::theme::{theme_colors, tokens, ThemeKind};
use crate::toast::{accent_of, toast_accent, Toast, ToastModel};
use crate::views::views;

verus! {

/// What the user asks for with a control.
#[derive(Debug, PartialEq, Eq)]
pub enum UiAction {
    SignIn,
    RetryAccount,
    ReopenBrowser,
    CancelLogin,
    BrowseFolder,
    OpenProject(String),
    RepairProject(String),
    RemoveProject(String),
    ToggleCreateMenu,
    NewThread,
    AddFolder,
    NewThreadIn { path: String, name: String },
    RenameProject(String),
    SwitchThread(String),
    RenameThread(String),
    ToggleSettings,
    ToggleIsolation,
    Approve(usize),
    Decline(usize),
    ToggleTerminal,
    CloseTerminal,
    RefreshRepo,
    ToggleDiff,
    CancelTurn,
    CommitAll,
    Push,
    CreatePr,
    ShowDiff(DiffViewMode),
    Navigate(AppRoute),
    ShowSection(SettingsSection),
    UseTheme(ThemeKind),
    DismissToast(u64),
}

/// The value of a `UiAction`.
#[verifier::ext_equal]
pub enum UiActionModel {
    SignIn,
    RetryAccount,
    ReopenBrowser,
    CancelLogin,
    BrowseFolder,
    OpenProject(Seq<char>),
    RepairProject(Seq<char>),
    RemoveProject(Seq<char>),
    ToggleCreateMenu,
    NewThread,
    AddFolder,
    NewThreadIn { path: Seq<char>, name: Seq<char> },
    RenameProject(Seq<char>),
    SwitchThread(Seq<char>),
    RenameThread(Seq<char>),
    ToggleSettings,
    ToggleIsolation,
    Approve(usize),
    Decline(usize),
    ToggleTerminal,
    CloseTerminal,
    RefreshRepo,
    ToggleDiff,
    CancelTurn,
    CommitAll,
    Push,
    CreatePr,
    ShowDiff(DiffViewMode),
    Navigate(AppRoute),
    ShowSection(SettingsSection),
    UseTheme(ThemeKind),
    DismissToast(u64),
}

impl View for UiAction {
    type V = UiActionModel;

    open spec fn view(&self) -> UiActionModel {
        match self {
            UiAction::SignIn => UiActionModel::SignIn,
            UiAction::RetryAccount => UiActionModel::RetryAccount,
            UiAction::ReopenBrowser => UiActionModel::ReopenBrowser,
            UiAction::CancelLogin => UiActionModel::CancelLogin,
            UiAction::BrowseFolder => UiActionModel::BrowseFolder,
            UiAction::OpenProject(path) => UiActionModel::OpenProject(path@),
            UiAction::RepairProject(path) => UiActionModel::RepairProject(path@),
            UiAction::RemoveProject(path) => UiActionModel::RemoveProject(path@),
            UiAction::ToggleCreateMenu => UiActionModel::ToggleCreateMenu,
            UiAction::NewThread => UiActionModel::NewThread,
            UiAction::AddFolder => UiActionModel::AddFolder,
            UiAction::NewThreadIn { path, name } => UiActionModel::NewThreadIn {
                path: path@,
                name: name@,
            },
            UiAction::RenameProject(path) => UiActionModel::RenameProject(path@),
            UiAction::SwitchThread(id) => UiActionModel::SwitchThread(id@),
            UiAction::RenameThread(id) => UiActionModel::RenameThread(id@),
            UiAction::ToggleSettings => UiActionModel::ToggleSettings,
            UiAction::ToggleIsolation => UiActionModel::ToggleIsolation,
            UiAction::Approve(index) => UiActionModel::Approve(*index),
            UiAction::Decline(index) => UiActionModel::Decline(*index),
            UiAction::ToggleTerminal => UiActionModel::ToggleTerminal,
            UiAction::CloseTerminal => UiActionModel::CloseTerminal,
            UiAction::RefreshRepo => UiActionModel::RefreshRepo,
            UiAction::ToggleDiff => UiActionModel::ToggleDiff,
            UiAction::CancelTurn => UiActionModel::CancelTurn,
            UiAction::CommitAll => UiActionModel::CommitAll,
            UiAction::Push => UiActionModel::Push,
            UiAction::CreatePr => UiActionModel::CreatePr,
            UiAction::ShowDiff(mode) => UiActionModel::ShowDiff(*mode),
            UiAction::Navigate(route) => UiActionModel::Navigate(*route),
            UiAction::ShowSection(section) => UiActionModel::ShowSection(*section),
            UiAction::UseTheme(theme) => UiActionModel::UseTheme(*theme),
            UiAction::DismissToast(id) => UiActionModel::DismissToast(*id),
        }
    }
}

/// Something to click on: what it says, what it is for, its colours, and what it does. One that
/// is not enabled does nothing.
#[derive(Debug, PartialEq, Eq)]
pub struct Control {
    pub label: String,
    pub description: String,
    pub background: u32,
    pub hover: u32,
    pub foreground: u32,
    pub border: u32,
    pub enabled: bool,
    pub action: UiAction,
}

/// The value of a `Control`.
#[verifier::ext_equal]
pub struct ControlModel {
    pub label: Seq<char>,
    pub description: Seq<char>,
    pub background: u32,
    pub hover: u32,
    pub foreground: u32,
    pub border: u32,
    pub enabled: bool,
    pub action: UiActionModel,
}

impl View for Control {
    type V = ControlModel;

    open spec fn view(&self) -> ControlModel {
        ControlModel {
            label: self.label@,
            description: self.description@,
            background: self.background,
            hover: self.hover,
            foreground: self.foreground,
            border: self.border,
            enabled: self.enabled,
            action: self.action@,
        }
    }
}

/// The three colours of a control.
#[derive(Clone, Copy, Debug, PartialEq, Eq, Structural)]
pub struct Paint {
    pub background: u32,
    pub hover: u32,
    pub foreground: u32,
}

/// A control in three colours, whose border is that of what is behind it.
pub open spec fn painted_control(
    label: Seq<char>,
    description: Seq<char>,
    paint: Paint,
    action: UiActionModel,
) -> ControlModel {
    ControlModel {
        label,
        description,
        background: paint.background,
        hover: paint.hover,
        foreground: paint.foreground,
        border: paint.background,
        enabled: true,
        action,
    }
}

/// See [`painted_control`].
pub fn control(label: &str, description: &str, paint: Paint, action: UiAction) -> (r: Control)
    ensures
        r@ == painted_control(label@, description@, paint, action@),
{
    Control {
        label: label.to_owned(),
        description: description.to_owned(),
        background: paint.background,
        hover: paint.hover,
        foreground: paint.foreground,
        border: paint.background,
        enabled: true,
        action,
    }
}

/// Whether a key does what a click does.
pub open spec fn activates(key: Seq<char>) -> bool {
    key == "enter"@ || key == "space"@
}

/// See [`activates`].
pub fn is_activation_key(key: &str) -> (r: bool)
    ensures
        r == activates(key@),
{
    text::same(key, "enter") || text::same(key, "space")
}

#[derive(Clone, Copy, Debug, PartialEq, Eq, Structural)]
pub enum ButtonStyle {
    Primary,
    Secondary,
    Destructive,
}

impl Default for ButtonStyle {
    fn default() -> (r: Self)
        ensures
            r == ButtonStyle::Primary,
    {
        ButtonStyle::Primary
    }
}

/// The colours of a button.
pub open spec fn button_paint(style: ButtonStyle, theme: ThemeKind) -> Paint {
    let colors = theme_colors(theme);
    match style {
        ButtonStyle::Primary => Paint {
            background: colors.accent,
            foreground: colors.text,
            hover: colors.accent_hover,
        },
        ButtonStyle::Secondary => Paint {
            background: colors.overlay,
            foreground: colors.text,
            hover: colors.strong_border,
        },
        ButtonStyle::Destructive => Paint {
            background: colors.deletion_soft,
            foreground: colors.text,
            hover: colors.deletion,
        },
    }
}

/// A button.
pub open spec fn button_of(
    label: Seq<char>,
    style: ButtonStyle,
    disabled: bool,
    theme: ThemeKind,
    action: UiActionModel,
) -> ControlModel {
    ControlModel {
        enabled: !disabled,
        ..painted_control(label, label, button_paint(style, theme), action)
    }
}

/// See [`button_of`].
pub fn button(label: &str, style: ButtonStyle, disabled: bool, theme: ThemeKind, action: UiAction) -> (r:
    Control)
    ensures
        r@ == button_of(label@, style, disabled, theme, action@),
{
    let colors = tokens(theme).colors;
    let paint = match style {
        ButtonStyle::Primary => Paint {
            background: colors.accent,
            foreground: colors.text,
            hover: colors.accent_hover,
        },
        ButtonStyle::Secondary => Paint {
            background: colors.overlay,
            foreground: colors.text,
            hover: colors.strong_border,
        },
        ButtonStyle::Destructive => Paint {
            background: colors.deletion_soft,
            foreground: colors.text,
            hover: colors.deletion,
        },
    };
    let mut r = control(label, label, paint, action);
    r.enabled = !disabled;
    r
}

/// One of several tabs.
pub open spec fn tab_of(label: Seq<char>, selected: bool, theme: ThemeKind, action: UiActionModel) -> ControlModel {
    let colors = theme_colors(theme);
    painted_control(
        label,
        label,
        Paint {
            background: if selected {
                colors.accent_soft
            } else {
                colors.chrome
            },
            hover: colors.overlay,
            foreground: if selected {
                colors.text
            } else {
                colors.muted_text
            },
        },
        action,
    )
}

/// See [`tab_of`].
pub fn tab(label: &str, selected: bool, theme: ThemeKind, action: UiAction) -> (r: Control)
    ensures
        r@ == tab_of(label@, selected, theme, action@),
{
    let colors = tokens(theme).colors;
    control(
        label,
        label,
        Paint {
            background: if selected {
                colors.accent_soft
            } else {
                colors.chrome
            },
            hover: colors.overlay,
            foreground: if selected {
                colors.text
            } else {
                colors.muted_text
            },
        },
        action,
    )
}

/// One of several rows.
pub open spec fn row_of(
    label: Seq<char>,
    selected: bool,
    disabled: bool,
    theme: ThemeKind,
    action: UiActionModel,
) -> ControlModel {
    let colors = theme_colors(theme);
    ControlModel {
        label,
        description: label,
        background: if selected {
            colors.accent_soft
        } else {
            colors.panel
        },
        hover: colors.overlay,
        foreground: if disabled {
            colors.faint_text
        } else {
            colors.text
        },
        border: if selected {
            colors.focus_ring
        } else {
            colors.border
        },
        enabled: !disabled,
        action,
    }
}

/// See [`row_of`].
pub fn selectable_row(label: &str, selected: bool, disabled: bool, theme: ThemeKind, action: UiAction) -> (r:
    Control)
    ensures
        r@ == row_of(label@, selected, disabled, theme, action@),
{
    let colors = tokens(theme).colors;
    Control {
        label: label.to_owned(),
        description: label.to_owned(),
        background: if selected {
            colors.accent_soft
        } else {
            colors.panel
        },
        hover: colors.overlay,
        foreground: if disabled {
            colors.faint_text
        } else {
            colors.text
        },
        border: if selected {
            colors.focus_ring
        } else {
            colors.border
        },
        enabled: !disabled,
        action,
    }
}

/// A notice as it is shown, with what takes it away.
#[derive(Debug, PartialEq, Eq)]
pub struct ToastView {
    pub message: String,
    pub border: u32,
    pub background: u32,
    pub foreground: u32,
    pub dismiss: Control,
}

/// The value of a `ToastView`.
#[verifier::ext_equal]
pub struct ToastViewModel {
    pub message: Seq<char>,
    pub border: u32,
    pub background: u32,
    pub foreground: u32,
    pub dismiss: ControlModel,
}

impl View for ToastView {
    type V = ToastViewModel;

    open spec fn view(&self) -> ToastViewModel {
        ToastViewModel {
            message: self.message@,
            border: self.border,
            background: self.background,
            foreground: self.foreground,
            dismiss: self.dismiss@,
        }
    }
}

/// A notice as it is shown.
pub open spec fn toast_view(toast: ToastModel, theme: ThemeKind) -> ToastViewModel {
    let colors = theme_colors(theme);
    ToastViewModel {
        message: toast.message,
        border: accent_of(toast.kind, theme),
        background: colors.raised,
        foreground: colors.text,
        dismiss: painted_control(
            "×"@,
            "Close notification"@,
            Paint {
                background: colors.raised,
                hover: colors.overlay,
                foreground: colors.muted_text,
            },
            UiActionModel::DismissToast(toast.id),
        ),
    }
}

/// See [`toast_view`].
pub fn toast(notice: &Toast, theme: ThemeKind) -> (r: ToastView)
    ensures
        r@ == toast_view(notice@, theme),
{
    let colors = tokens(theme).colors;
    ToastView {
        message: notice.message.clone(),
        border: toast_accent(notice.kind, theme),
        background: colors.raised,
        foreground: colors.text,
        dismiss: control(
            "×",
            "Close notification",
            Paint {
                background: colors.raised,
                hover: colors.overlay,
                foreground: colors.muted_text,
            },
            UiAction::DismissToast(notice.id),
        ),
    }
}

/// One control.
pub fn only(control: Control) -> (r: Vec<Control>)
    ensures
        views(r@) == seq![control@],
{
    let mut r: Vec<Control> = Vec::new();
    r.push(control);
    assert(views(r@) =~= seq![control@]);
    r
}

/// Two controls.
pub fn both(first: Control, second: Control) -> (r: Vec<Control>)
    ensures
        views(r@) == seq![first@, second@],
{
    let mut r: Vec<Control> = Vec::new();
    r.push(first);
    r.push(second);
    assert(views(r@) =~= seq![first@, second@]);
    r
}

/// No control.
pub fn none() -> (r: Vec<Control>)
    ensures
        views(r@) == Seq::<ControlModel>::empty(),
{
    let r: Vec<Control> = Vec::new();
    assert(views(r@) =~= Seq::<ControlModel>::empty());
    r
}

} // verus!
