//! The workspace and the other surfaces behind the sign-in: the rail, the header, the
//! conversation, the composer, the terminal's panel, and the settings.
use vstd::prelude::*;
use vstd::string::*;

use crate::app::{
    nothing, AppModel, ChatModel, Effect, EffectModel, Message, MessageRole, RodeApp,
};
use crate::codex::{ApprovalKind, ApprovalModel, ApprovalRequest};
use crate::controls::{
    both, button, button_of, control, painted_control, row_of, selectable_row, toast, toast_view,
    ButtonStyle, Control, ControlModel, Paint, ToastView, ToastViewModel, UiAction, UiActionModel,
};
use crate::navigation::terminal_wanted;
use crate::routes::{
    modal_title, one_surface, route_context, route_label, section_label, AppRoute,
    SettingsSection,
};
use crate::text;
use crate::text::{decimal, has_part, parts_are_held, trimmed};
use crate::theme::{theme_colors, theme_title, tokens, ThemeColors, ThemeKind};
use crate::toast::ToastModel;
use crate::views::{opt_view, views, views_index, views_push};

verus! {

/// A message as it is shown.
#[derive(Debug, PartialEq, Eq)]
pub struct MessageBox {
    pub label: String,
    pub background: u32,
    pub border: u32,
    pub color: u32,
    pub text: String,
}

/// The value of a `MessageBox`.
#[verifier::ext_equal]
pub struct MessageBoxModel {
    pub label: Seq<char>,
    pub background: u32,
    pub border: u32,
    pub color: u32,
    pub text: Seq<char>,
}

impl View for MessageBox {
    type V = MessageBoxModel;

    open spec fn view(&self) -> MessageBoxModel {
        MessageBoxModel {
            label: self.label@,
            background: self.background,
            border: self.border,
            color: self.color,
            text: self.text@,
        }
    }
}

/// A message as it is shown: who says it, in what colours.
pub open spec fn message_box(m: ChatModel, colors: ThemeColors) -> MessageBoxModel {
    let (label, background, border) = match m.role {
        MessageRole::User => ("YOU"@, colors.accent_soft, colors.focus_ring),
        MessageRole::Agent => ("CODEX"@, colors.panel, colors.border),
        MessageRole::Tool => ("TOOL"@, colors.raised, colors.strong_border),
        MessageRole::System => ("RODE"@, colors.addition_soft, colors.success),
    };
    MessageBoxModel { label, background, border, color: colors.text, text: m.text }
}

/// See [`message_box`].
fn render_message(m: &Message, colors: ThemeColors) -> (r: MessageBox)
    ensures
        r@ == message_box(m@, colors),
{
    let (label, background, border) = match m.role {
        MessageRole::User => ("YOU", colors.accent_soft, colors.focus_ring),
        MessageRole::Agent => ("CODEX", colors.panel, colors.border),
        MessageRole::Tool => ("TOOL", colors.raised, colors.strong_border),
        MessageRole::System => ("RODE", colors.addition_soft, colors.success),
    };
    MessageBox {
        label: label.to_owned(),
        background,
        border,
        color: colors.text,
        text: m.text.clone(),
    }
}

/// A request for approval as it is shown.
#[derive(Debug, PartialEq, Eq)]
pub struct ApprovalBox {
    pub kind: String,
    pub title: String,
    pub detail: Option<String>,
    pub item: String,
    pub border: u32,
    pub background: u32,
    pub color: u32,
    /// What approves it, and what declines it.
    pub controls: Vec<Control>,
}

/// The value of an `ApprovalBox`.
#[verifier::ext_equal]
pub struct ApprovalBoxModel {
    pub kind: Seq<char>,
    pub title: Seq<char>,
    pub detail: Option<Seq<char>>,
    pub item: Seq<char>,
    pub border: u32,
    pub background: u32,
    pub color: u32,
    pub controls: Seq<ControlModel>,
}

impl View for ApprovalBox {
    type V = ApprovalBoxModel;

    open spec fn view(&self) -> ApprovalBoxModel {
        ApprovalBoxModel {
            kind: self.kind@,
            title: self.title@,
            detail: opt_view(self.detail),
            item: self.item@,
            border: self.border,
            background: self.background,
            color: self.color,
            controls: views(self.controls@),
        }
    }
}

/// A request for approval as it is shown, at its place among the others.
pub open spec fn approval_box(request: ApprovalModel, index: usize, colors: ThemeColors) -> ApprovalBoxModel {
    ApprovalBoxModel {
        kind: match request.kind {
            ApprovalKind::Command => "COMMAND APPROVAL"@,
            ApprovalKind::FileChange => "FILE-CHANGE APPROVAL"@,
        },
        title: request.title,
        detail: if request.detail.len() == 0 {
            None
        } else {
            Some(request.detail)
        },
        item: "item "@ + request.item_id,
        border: colors.warning,
        background: colors.warning_soft,
        color: colors.warning,
        controls: seq![
            painted_control(
                "Approve once"@,
                "Approve request"@,
                Paint {
                    background: colors.addition_soft,
                    hover: colors.success,
                    foreground: colors.success,
                },
                UiActionModel::Approve(index),
            ),
            painted_control(
                "Decline"@,
                "Decline request"@,
                Paint {
                    background: colors.deletion_soft,
                    hover: colors.deletion_soft,
                    foreground: colors.error,
                },
                UiActionModel::Decline(index),
            ),
        ],
    }
}

/// See [`approval_box`].
fn render_approval(request: &ApprovalRequest, index: usize, colors: ThemeColors) -> (r: ApprovalBox)
    ensures
        r@ == approval_box(request@, index, colors),
{
    ApprovalBox {
        kind: (match request.kind {
            ApprovalKind::Command => "COMMAND APPROVAL",
            ApprovalKind::FileChange => "FILE-CHANGE APPROVAL",
        }).to_owned(),
        title: request.title.clone(),
        detail: if request.detail.as_str().unicode_len() == 0 {
            None
        } else {
            Some(request.detail.clone())
        },
        item: text::concat("item ", request.item_id.as_str()),
        border: colors.warning,
        background: colors.warning_soft,
        color: colors.warning,
        controls: both(
            control(
                "Approve once",
                "Approve request",
                Paint {
                    background: colors.addition_soft,
                    hover: colors.success,
                    foreground: colors.success,
                },
                UiAction::Approve(index),
            ),
            control(
                "Decline",
                "Decline request",
                Paint {
                    background: colors.deletion_soft,
                    hover: colors.deletion_soft,
                    foreground: colors.error,
                },
                UiAction::Decline(index),
            ),
        ),
    }
}

/// The conversation as it is shown.
#[derive(Debug, PartialEq, Eq)]
pub struct Conversation {
    pub messages: Vec<MessageBox>,
    pub approvals: Vec<ApprovalBox>,
    /// What the agent does, while a turn runs.
    pub activity: Option<String>,
}

/// The value of a `Conversation`.
#[verifier::ext_equal]
pub struct ConversationModel {
    pub messages: Seq<MessageBoxModel>,
    pub approvals: Seq<ApprovalBoxModel>,
    pub activity: Option<Seq<char>>,
}

impl View for Conversation {
    type V = ConversationModel;

    open spec fn view(&self) -> ConversationModel {
        ConversationModel {
            messages: views(self.messages@),
            approvals: views(self.approvals@),
            activity: opt_view(self.activity),
        }
    }
}

pub open spec fn message_boxes(messages: Seq<ChatModel>, colors: ThemeColors) -> Seq<MessageBoxModel> {
    Seq::new(messages.len(), |i: int| message_box(messages[i], colors))
}

pub open spec fn approval_boxes(approvals: Seq<ApprovalModel>, colors: ThemeColors) -> Seq<
    ApprovalBoxModel,
> {
    Seq::new(approvals.len(), |i: int| approval_box(approvals[i], i as usize, colors))
}

/// What the agent does, while a turn runs.
pub open spec fn activity_of(running: bool, reasoning: Seq<char>) -> Option<Seq<char>> {
    if !running {
        None
    } else if trimmed(reasoning).len() == 0 {
        Some("Codex is working…"@)
    } else {
        Some("Reasoning… "@ + trimmed(reasoning))
    }
}

/// The conversation as it is shown.
pub open spec fn conversation_of(a: AppModel) -> ConversationModel {
    let colors = theme_colors(a.surface.theme);
    ConversationModel {
        messages: message_boxes(a.thread.messages, colors),
        approvals: approval_boxes(a.turn.approvals, colors),
        activity: activity_of(a.turn.running, a.turn.reasoning_preview),
    }
}

/// The header of a thread.
#[derive(Debug, PartialEq, Eq)]
pub struct Header {
    pub title: String,
    pub branch: String,
    pub terminal: Control,
    pub refresh: Control,
    pub diff: Control,
    pub cancel: Option<Control>,
}

/// The value of a `Header`.
#[verifier::ext_equal]
pub struct HeaderModel {
    pub title: Seq<char>,
    pub branch: Seq<char>,
    pub terminal: ControlModel,
    pub refresh: ControlModel,
    pub diff: ControlModel,
    pub cancel: Option<ControlModel>,
}

impl View for Header {
    type V = HeaderModel;

    open spec fn view(&self) -> HeaderModel {
        HeaderModel {
            title: self.title@,
            branch: self.branch@,
            terminal: self.terminal@,
            refresh: self.refresh@,
            diff: self.diff@,
            cancel: opt_view(self.cancel),
        }
    }
}

/// The style of a button for something that is shown or not.
pub open spec fn toggle_style(shown: bool) -> ButtonStyle {
    if shown {
        ButtonStyle::Primary
    } else {
        ButtonStyle::Secondary
    }
}

/// See [`toggle_style`].
fn style_of(shown: bool) -> (r: ButtonStyle)
    ensures
        r == toggle_style(shown),
{
    if shown {
        ButtonStyle::Primary
    } else {
        ButtonStyle::Secondary
    }
}

/// The header of the thread that is shown.
pub open spec fn header_of(a: AppModel) -> HeaderModel {
    let theme = a.surface.theme;
    let colors = theme_colors(theme);
    HeaderModel {
        title: a.thread.title,
        branch: "⎇ "@ + (if a.project.repo.is_repository {
            a.project.repo.branch
        } else {
            "not a Git repository"@
        }),
        terminal: button_of(
            "Terminal"@,
            toggle_style(a.surface.show_terminal),
            false,
            theme,
            UiActionModel::ToggleTerminal,
        ),
        refresh: painted_control(
            "Refresh"@,
            "Refresh repository"@,
            Paint {
                background: colors.chrome,
                hover: colors.overlay,
                foreground: colors.muted_text,
            },
            UiActionModel::RefreshRepo,
        ),
        diff: button_of(
            "Diff · "@ + decimal(a.project.repo.changed_files),
            toggle_style(a.surface.show_diff),
            false,
            theme,
            UiActionModel::ToggleDiff,
        ),
        cancel: if a.turn.running {
            Some(
                button_of(
                    "Cancel"@,
                    ButtonStyle::Destructive,
                    false,
                    theme,
                    UiActionModel::CancelTurn,
                ),
            )
        } else {
            None
        },
    }
}

/// What is said beside the composer.
pub open spec fn composer_hint(a: AppModel) -> Seq<char> {
    if a.thread.creating_worktree {
        "Creating worktree"@
    } else if a.turn.running {
        "Turn running"@
    } else {
        "Enter to send"@
    }
}

/// The panel of a terminal.
#[derive(Debug, PartialEq, Eq)]
pub struct TerminalPanel {
    pub title: String,
    pub title_color: u32,
    pub close: Control,
}

/// The value of a `TerminalPanel`.
#[verifier::ext_equal]
pub struct TerminalPanelModel {
    pub title: Seq<char>,
    pub title_color: u32,
    pub close: ControlModel,
}

impl View for TerminalPanel {
    type V = TerminalPanelModel;

    open spec fn view(&self) -> TerminalPanelModel {
        TerminalPanelModel {
            title: self.title@,
            title_color: self.title_color,
            close: self.close@,
        }
    }
}

/// The panel of a terminal of a title whose program has ended or not; of none yet.
pub open spec fn terminal_panel(terminal: Option<(Seq<char>, bool)>, theme: ThemeKind) -> TerminalPanelModel {
    let colors = theme_colors(theme);
    let (title, exited) = match terminal {
        Some(shown) => shown,
        None => ("Preparing terminal…"@, false),
    };
    TerminalPanelModel {
        title: if exited {
            title + " · exited"@
        } else {
            title
        },
        title_color: if exited {
            colors.error
        } else {
            colors.muted_text
        },
        close: painted_control(
            "×"@,
            "Close terminal panel"@,
            Paint {
                background: colors.chrome,
                hover: colors.overlay,
                foreground: colors.muted_text,
            },
            UiActionModel::CloseTerminal,
        ),
    }
}

/// A surface on the rail.
#[derive(Debug, PartialEq, Eq)]
pub struct RailItem {
    pub glyph: String,
    pub selected: bool,
    pub control: Control,
}

/// The value of a `RailItem`.
#[verifier::ext_equal]
pub struct RailItemModel {
    pub glyph: Seq<char>,
    pub selected: bool,
    pub control: ControlModel,
}

impl View for RailItem {
    type V = RailItemModel;

    open spec fn view(&self) -> RailItemModel {
        RailItemModel { glyph: self.glyph@, selected: self.selected, control: self.control@ }
    }
}

/// Whether a surface on the rail is the one that is shown. The account has a place of its own
/// among the settings.
pub open spec fn on_rail(current: AppRoute, candidate: AppRoute) -> bool {
    match (current, candidate) {
        (
            AppRoute::Settings(SettingsSection::Account),
            AppRoute::Settings(SettingsSection::Account),
        ) => true,
        (AppRoute::Settings(section), AppRoute::Settings(SettingsSection::Appearance)) => section
            != SettingsSection::Account,
        _ => one_surface(current, candidate),
    }
}

/// A surface on the rail.
pub open spec fn rail_item(
    current: AppRoute,
    glyph: Seq<char>,
    route: AppRoute,
    disabled: bool,
    theme: ThemeKind,
) -> RailItemModel {
    let colors = theme_colors(theme);
    let selected = on_rail(current, route);
    RailItemModel {
        glyph,
        selected,
        control: ControlModel {
            label: glyph,
            description: route_label(route),
            background: if selected {
                colors.accent_soft
            } else {
                colors.chrome
            },
            hover: colors.overlay,
            foreground: if selected {
                colors.text
            } else {
                colors.muted_text
            },
            border: if selected {
                colors.focus_ring
            } else {
                colors.chrome
            },
            enabled: !disabled,
            action: UiActionModel::Navigate(route),
        },
    }
}

/// The rail: the surfaces, of which those that need a project are there only with one.
pub open spec fn rail_of(a: AppModel) -> Seq<RailItemModel> {
    let theme = a.surface.theme;
    let current = a.surface.route;
    let without = !a.project.repo.is_repository;
    seq![
        rail_item(current, "W"@, AppRoute::Workspace, false, theme),
        rail_item(current, "G"@, AppRoute::SourceControl, without, theme),
        rail_item(current, ">_"@, AppRoute::Terminal, without, theme),
        rail_item(current, "S"@, AppRoute::Settings(SettingsSection::Appearance), false, theme),
        rail_item(current, "A"@, AppRoute::Settings(SettingsSection::Account), false, theme),
    ]
}

/// Outside the settings, and in them where the account is shown, exactly one surface on the rail
/// is marked. With every other section both the settings and the account are.
pub proof fn one_surface_is_marked(a: AppModel)
    requires
        !(a.surface.route is Login),
        a.surface.route is Settings ==> a.surface.route == AppRoute::Settings(
            SettingsSection::Account,
        ),
    ensures
        exists|i: int| 0 <= i < rail_of(a).len() && (#[trigger] rail_of(a)[i]).selected,
        forall|i: int, j: int|
            0 <= i < rail_of(a).len() && 0 <= j < rail_of(a).len() && (
            #[trigger] rail_of(a)[i]).selected && (#[trigger] rail_of(a)[j]).selected ==> i == j,
{
    let items = rail_of(a);
    let at = match a.surface.route {
        AppRoute::SourceControl => 1int,
        AppRoute::Terminal => 2,
        AppRoute::Settings(_) => 4,
        _ => 0,
    };
    assert(items[at].selected);
}

/// A theme that can be chosen.
#[derive(Debug, PartialEq, Eq)]
pub struct ThemeChoice {
    pub accent: u32,
    pub control: Control,
}

/// The value of a `ThemeChoice`.
#[verifier::ext_equal]
pub struct ThemeChoiceModel {
    pub accent: u32,
    pub control: ControlModel,
}

impl View for ThemeChoice {
    type V = ThemeChoiceModel;

    open spec fn view(&self) -> ThemeChoiceModel {
        ThemeChoiceModel { accent: self.accent, control: self.control@ }
    }
}

/// A theme that can be chosen, in its own colours.
pub open spec fn theme_choice(current: ThemeKind, candidate: ThemeKind) -> ThemeChoiceModel {
    let colors = theme_colors(current);
    let own = theme_colors(candidate);
    ThemeChoiceModel {
        accent: own.accent,
        control: ControlModel {
            label: theme_title(candidate),
            description: "Use "@ + theme_title(candidate) + " theme"@,
            background: own.raised,
            hover: own.raised,
            foreground: own.text,
            border: if current == candidate {
                colors.focus_ring
            } else {
                colors.border
            },
            enabled: true,
            action: UiActionModel::UseTheme(candidate),
        },
    }
}

/// The settings.
#[derive(Debug, PartialEq, Eq)]
pub struct SettingsScreen {
    pub sections: Vec<Control>,
    pub title: String,
    pub text: String,
    pub themes: Vec<ThemeChoice>,
}

/// The value of a `SettingsScreen`.
#[verifier::ext_equal]
pub struct SettingsModel {
    pub sections: Seq<ControlModel>,
    pub title: Seq<char>,
    pub text: Seq<char>,
    pub themes: Seq<ThemeChoiceModel>,
}

impl View for SettingsScreen {
    type V = SettingsModel;

    open spec fn view(&self) -> SettingsModel {
        SettingsModel {
            sections: views(self.sections@),
            title: self.title@,
            text: self.text@,
            themes: views(self.themes@),
        }
    }
}

/// The section of the settings that is shown.
pub open spec fn shown_section(route: AppRoute) -> SettingsSection {
    match route {
        AppRoute::Settings(section) => section,
        _ => SettingsSection::Appearance,
    }
}

pub open spec fn section_rows(shown: SettingsSection, theme: ThemeKind) -> Seq<ControlModel> {
    SettingsSection::ALL@.map_values(
        |section: SettingsSection|
            row_of(
                section_label(section),
                section == shown,
                false,
                theme,
                UiActionModel::ShowSection(section),
            ),
    )
}

pub open spec fn theme_choices(theme: ThemeKind) -> Seq<ThemeChoiceModel> {
    ThemeKind::ALL@.map_values(|candidate: ThemeKind| theme_choice(theme, candidate))
}

/// The settings: the sections, and the one that is shown. Only the themes can be chosen so far.
pub open spec fn settings_of(a: AppModel) -> SettingsModel {
    let theme = a.surface.theme;
    let section = shown_section(a.surface.route);
    if section == SettingsSection::Appearance {
        SettingsModel {
            sections: section_rows(section, theme),
            title: "Theme"@,
            text: "Choose Rode's native workspace palette."@,
            themes: theme_choices(theme),
        }
    } else {
        SettingsModel {
            sections: section_rows(section, theme),
            title: section_label(section),
            text: "This settings section is reserved for its milestone feature."@,
            themes: Seq::empty(),
        }
    }
}

/// What fills the window.
#[derive(Clone, Copy, Debug, PartialEq, Eq, Structural)]
pub enum Screen {
    SignIn,
    ChooseProject,
    Workspace,
    SourceControl,
    Terminal,
    Settings,
}

/// What fills the window: nothing but the sign-in before there is an account, and nothing but
/// the choice of a project before one is open.
pub open spec fn screen_of(a: AppModel) -> Screen {
    if !(a.account.auth is SignedIn) {
        Screen::SignIn
    } else if !a.project.open {
        Screen::ChooseProject
    } else {
        match a.surface.route {
            AppRoute::Workspace => Screen::Workspace,
            AppRoute::SourceControl => Screen::SourceControl,
            AppRoute::Terminal => Screen::Terminal,
            AppRoute::Settings(_) => Screen::Settings,
            AppRoute::Login => Screen::Workspace,
        }
    }
}

/// The header of a surface other than the workspace: what it is, and the keys that lead to it.
pub open spec fn route_header(screen: Screen) -> Option<(Seq<char>, Seq<char>)> {
    match screen {
        Screen::SourceControl => Some(("Source control"@, "Ctrl+2"@)),
        Screen::Terminal => Some(("Terminal"@, "Ctrl+3"@)),
        Screen::Settings => Some(("Settings"@, "Ctrl+4"@)),
        _ => None,
    }
}

/// See [`route_header`].
pub fn render_route_header(screen: Screen) -> (r: Option<(&'static str, &'static str)>)
    ensures
        match r {
            Some((title, hint)) => route_header(screen) == Some((title@, hint@)),
            None => route_header(screen) is None,
        },
{
    match screen {
        Screen::SourceControl => Some(("Source control", "Ctrl+2")),
        Screen::Terminal => Some(("Terminal", "Ctrl+3")),
        Screen::Settings => Some(("Settings", "Ctrl+4")),
        _ => None,
    }
}

/// The panels of the workspace that are not always there.
#[derive(Clone, Copy, Debug, PartialEq, Eq, Structural)]
pub struct WorkspacePanels {
    pub terminal: bool,
    pub diff: bool,
}

/// What lies over the whole window.
#[derive(Debug, PartialEq, Eq)]
pub struct Overlay {
    pub context: String,
    pub modal: Option<String>,
    pub toasts: Vec<ToastView>,
}

/// The value of an `Overlay`.
#[verifier::ext_equal]
pub struct OverlayModel {
    pub context: Seq<char>,
    pub modal: Option<Seq<char>>,
    pub toasts: Seq<ToastViewModel>,
}

impl View for Overlay {
    type V = OverlayModel;

    open spec fn view(&self) -> OverlayModel {
        OverlayModel {
            context: self.context@,
            modal: opt_view(self.modal),
            toasts: views(self.toasts@),
        }
    }
}

pub open spec fn toast_views(toasts: Seq<ToastModel>, theme: ThemeKind) -> Seq<ToastViewModel> {
    toasts.map_values(|t: ToastModel| toast_view(t, theme))
}

/// What lies over the whole window: the dialog, and the notices.
pub open spec fn overlay_of(a: AppModel) -> OverlayModel {
    OverlayModel {
        context: route_context(a.surface.route),
        modal: match a.surface.modal {
            Some(modal) => Some(modal_title(modal)),
            None => None,
        },
        toasts: toast_views(a.toasts.items, a.surface.theme),
    }
}

/// What is done when the window is drawn: a terminal that shows is started.
pub open spec fn drawing(a: AppModel) -> Seq<EffectModel> {
    let shown = screen_of(a);
    if shown != Screen::SignIn && shown != Screen::ChooseProject && (a.surface.show_terminal
        || a.surface.route == AppRoute::Terminal) {
        terminal_wanted(a)
    } else {
        Seq::empty()
    }
}

/// Without an account nothing but the sign-in shows, and without a project nothing but the choice
/// of one.
pub proof fn nothing_shows_too_early(a: AppModel)
    ensures
        (screen_of(a) == Screen::SignIn) == !(a.account.auth is SignedIn),
        a.account.auth is SignedIn ==> (screen_of(a) == Screen::ChooseProject) == !a.project.open,
        screen_of(a) == Screen::SignIn ==> drawing(a).len() == 0,
        screen_of(a) == Screen::ChooseProject ==> drawing(a).len() == 0,
{
}

impl RodeApp {
    /// See [`conversation_of`].
    pub fn render_messages(&self) -> (r: Conversation)
        ensures
            r@ == conversation_of(self@),
    {
        broadcast use {views_push, views_index};

        let colors = tokens(self.surface.theme).colors;
        let ghost said = message_boxes(self@.thread.messages, colors);
        let mut messages: Vec<MessageBox> = Vec::new();
        let mut i: usize = 0;
        assert(views(messages@) =~= said.take(0));
        while i < self.thread.messages.len()
            invariant
                said == message_boxes(self@.thread.messages, colors),
                i <= self.thread.messages.len(),
                views(messages@) == said.take(i as int),
            decreases self.thread.messages.len() - i,
        {
            let ghost so_far = views(messages@);
            let next = render_message(&self.thread.messages[i], colors);
            messages.push(next);
            assert(views(messages@) == so_far.push(next@));
            assert(views(messages@) =~= said.take(i + 1));
            i = i + 1;
        }
        assert(said.take(i as int) =~= said);
        let ghost asked = approval_boxes(self@.turn.approvals, colors);
        let mut approvals: Vec<ApprovalBox> = Vec::new();
        let mut k: usize = 0;
        assert(views(approvals@) =~= asked.take(0));
        while k < self.turn.approvals.len()
            invariant
                asked == approval_boxes(self@.turn.approvals, colors),
                k <= self.turn.approvals.len(),
                views(approvals@) == asked.take(k as int),
            decreases self.turn.approvals.len() - k,
        {
            let ghost so_far = views(approvals@);
            let next = render_approval(&self.turn.approvals[k], k, colors);
            approvals.push(next);
            assert(views(approvals@) == so_far.push(next@));
            assert(views(approvals@) =~= asked.take(k + 1));
            k = k + 1;
        }
        assert(asked.take(k as int) =~= asked);
        Conversation { messages, approvals, activity: self.activity() }
    }

    /// See [`activity_of`].
    fn activity(&self) -> (r: Option<String>)
        ensures
            opt_view(r) == activity_of(self@.turn.running, self@.turn.reasoning_preview),
    {
        if !self.turn.running {
            return None;
        }
        let reasoning = text::trim(self.turn.reasoning_preview.as_str());
        if reasoning.as_str().unicode_len() == 0 {
            Some("Codex is working…".to_owned())
        } else {
            Some(text::concat("Reasoning… ", reasoning.as_str()))
        }
    }

    /// See [`header_of`].
    pub fn render_header(&self) -> (r: Header)
        ensures
            r@ == header_of(self@),
    {
        let theme = self.surface.theme;
        let colors = tokens(theme).colors;
        let changed = text::number(self.project.repo.changed_files as u64, 10);
        let diff = text::concat("Diff · ", changed.as_str());
        Header {
            title: self.thread.title.clone(),
            branch: text::concat(
                "⎇ ",
                if self.project.repo.is_repository {
                    self.project.repo.branch.as_str()
                } else {
                    "not a Git repository"
                },
            ),
            terminal: button(
                "Terminal",
                style_of(self.surface.show_terminal),
                false,
                theme,
                UiAction::ToggleTerminal,
            ),
            refresh: control(
                "Refresh",
                "Refresh repository",
                Paint {
                    background: colors.chrome,
                    hover: colors.overlay,
                    foreground: colors.muted_text,
                },
                UiAction::RefreshRepo,
            ),
            diff: button(
                diff.as_str(),
                style_of(self.surface.show_diff),
                false,
                theme,
                UiAction::ToggleDiff,
            ),
            cancel: if self.turn.running {
                Some(
                    button("Cancel", ButtonStyle::Destructive, false, theme, UiAction::CancelTurn),
                )
            } else {
                None
            },
        }
    }

    /// See [`composer_hint`].
    pub fn render_composer(&self) -> (r: &'static str)
        ensures
            r@ == composer_hint(self@),
    {
        if self.thread.creating_worktree {
            "Creating worktree"
        } else if self.turn.running {
            "Turn running"
        } else {
            "Enter to send"
        }
    }

    /// See [`terminal_panel`].
    pub fn render_terminal(&self, terminal: Option<(&str, bool)>) -> (r: TerminalPanel)
        ensures
            r@ == terminal_panel(
                match terminal {
                    Some((title, exited)) => Some((title@, exited)),
                    None => None,
                },
                self@.surface.theme,
            ),
    {
        let colors = tokens(self.surface.theme).colors;
        let (title, exited) = match terminal {
            Some(shown) => shown,
            None => ("Preparing terminal…", false),
        };
        TerminalPanel {
            title: if exited {
                text::concat(title, " · exited")
            } else {
                title.to_owned()
            },
            title_color: if exited {
                colors.error
            } else {
                colors.muted_text
            },
            close: control(
                "×",
                "Close terminal panel",
                Paint {
                    background: colors.chrome,
                    hover: colors.overlay,
                    foreground: colors.muted_text,
                },
                UiAction::CloseTerminal,
            ),
        }
    }

    /// See [`rail_item`].
    pub fn render_rail_item(&self, glyph: &str, route: AppRoute, disabled: bool) -> (r: RailItem)
        ensures
            r@ == rail_item(self@.surface.route, glyph@, route, disabled, self@.surface.theme),
    {
        let colors = tokens(self.surface.theme).colors;
        let selected = match (self.surface.route, route) {
            (
                AppRoute::Settings(SettingsSection::Account),
                AppRoute::Settings(SettingsSection::Account),
            ) => true,
            (AppRoute::Settings(section), AppRoute::Settings(SettingsSection::Appearance)) => section
                != SettingsSection::Account,
            (current, candidate) => current.same_surface(candidate),
        };
        RailItem {
            glyph: glyph.to_owned(),
            selected,
            control: Control {
                label: glyph.to_owned(),
                description: route.label().to_owned(),
                background: if selected {
                    colors.accent_soft
                } else {
                    colors.chrome
                },
                hover: colors.overlay,
                foreground: if selected {
                    colors.text
                } else {
                    colors.muted_text
                },
                border: if selected {
                    colors.focus_ring
                } else {
                    colors.chrome
                },
                enabled: !disabled,
                action: UiAction::Navigate(route),
            },
        }
    }

    /// See [`rail_of`].
    pub fn render_app_rail(&self) -> (r: Vec<RailItem>)
        ensures
            views(r@) == rail_of(self@),
    {
        let without = !self.project.repo.is_repository;
        let r = vec![
            self.render_rail_item("W", AppRoute::Workspace, false),
            self.render_rail_item("G", AppRoute::SourceControl, without),
            self.render_rail_item(">_", AppRoute::Terminal, without),
            self.render_rail_item("S", AppRoute::Settings(SettingsSection::Appearance), false),
            self.render_rail_item("A", AppRoute::Settings(SettingsSection::Account), false),
        ];
        assert(views(r@) =~= rail_of(self@));
        r
    }

    /// See [`theme_choice`].
    fn render_theme_choice(&self, candidate: ThemeKind) -> (r: ThemeChoice)
        ensures
            r@ == theme_choice(self@.surface.theme, candidate),
    {
        let colors = tokens(self.surface.theme).colors;
        let own = tokens(candidate);
        ThemeChoice {
            accent: own.colors.accent,
            control: Control {
                label: own.name.to_owned(),
                description: text::concat3("Use ", own.name, " theme"),
                background: own.colors.raised,
                hover: own.colors.raised,
                foreground: own.colors.text,
                border: if self.surface.theme == candidate {
                    colors.focus_ring
                } else {
                    colors.border
                },
                enabled: true,
                action: UiAction::UseTheme(candidate),
            },
        }
    }

    /// See [`section_rows`].
    fn render_sections(&self, shown: SettingsSection) -> (r: Vec<Control>)
        ensures
            views(r@) == section_rows(shown, self@.surface.theme),
    {
        broadcast use views_push;

        let all = SettingsSection::ALL;
        let ghost rows = section_rows(shown, self@.surface.theme);
        let mut r: Vec<Control> = Vec::new();
        let mut i: usize = 0;
        assert(views(r@) =~= rows.take(0));
        while i < 6
            invariant
                all@ == SettingsSection::ALL@,
                rows == section_rows(shown, self@.surface.theme),
                i <= 6,
                views(r@) == rows.take(i as int),
            decreases 6 - i,
        {
            let ghost so_far = views(r@);
            let section = all[i];
            let row = selectable_row(
                section.label(),
                section == shown,
                false,
                self.surface.theme,
                UiAction::ShowSection(section),
            );
            r.push(row);
            assert(views(r@) == so_far.push(row@));
            assert(views(r@) =~= rows.take(i + 1));
            i = i + 1;
        }
        assert(rows.take(i as int) =~= rows);
        r
    }

    /// See [`theme_choices`].
    fn render_themes(&self) -> (r: Vec<ThemeChoice>)
        ensures
            views(r@) == theme_choices(self@.surface.theme),
    {
        let all = ThemeKind::ALL;
        let r = vec![
            self.render_theme_choice(all[0]),
            self.render_theme_choice(all[1]),
            self.render_theme_choice(all[2]),
        ];
        assert(views(r@) =~= theme_choices(self@.surface.theme));
        r
    }

    /// See [`settings_of`].
    pub fn render_settings_route(&self) -> (r: SettingsScreen)
        ensures
            r@ == settings_of(self@),
    {
        let section = match self.surface.route {
            AppRoute::Settings(section) => section,
            _ => SettingsSection::Appearance,
        };
        let sections = self.render_sections(section);
        if section == SettingsSection::Appearance {
            SettingsScreen {
                sections,
                title: "Theme".to_owned(),
                text: "Choose Rode's native workspace palette.".to_owned(),
                themes: self.render_themes(),
            }
        } else {
            let themes: Vec<ThemeChoice> = Vec::new();
            assert(views(themes@) =~= Seq::<ThemeChoiceModel>::empty());
            SettingsScreen {
                sections,
                title: section.label().to_owned(),
                text: "This settings section is reserved for its milestone feature.".to_owned(),
                themes,
            }
        }
    }

    /// The panels of the workspace; the changes show where the window is wide enough.
    pub fn render_workspace_route(&self, wide: bool) -> (r: WorkspacePanels)
        ensures
            r == (WorkspacePanels {
                terminal: self@.surface.show_terminal,
                diff: wide && self@.surface.show_diff,
            }),
    {
        WorkspacePanels {
            terminal: self.surface.show_terminal,
            diff: wide && self.surface.show_diff,
        }
    }

    /// See [`screen_of`] and [`drawing`].
    pub fn render(&self) -> (r: (Screen, Vec<Effect>))
        ensures
            r.0 == screen_of(self@),
            views(r.1@) == drawing(self@),
    {
        if self.account.auth.requires_onboarding() {
            return (Screen::SignIn, nothing());
        }
        if !self.project.open {
            return (Screen::ChooseProject, nothing());
        }
        let screen = match self.surface.route {
            AppRoute::Workspace => Screen::Workspace,
            AppRoute::SourceControl => Screen::SourceControl,
            AppRoute::Terminal => Screen::Terminal,
            AppRoute::Settings(_) => Screen::Settings,
            AppRoute::Login => Screen::Workspace,
        };
        let terminal = match self.surface.route {
            AppRoute::Terminal => true,
            _ => self.surface.show_terminal,
        };
        if terminal {
            (screen, self.ensure_terminal())
        } else {
            (screen, nothing())
        }
    }

    /// See [`overlay_of`].
    pub fn render_overlay(&self) -> (r: Overlay)
        ensures
            r@ == overlay_of(self@),
    {
        broadcast use {views_push, views_index};

        let theme = self.surface.theme;
        let items = self.toasts.items();
        let ghost all = toast_views(self@.toasts.items, theme);
        let mut toasts: Vec<ToastView> = Vec::new();
        let mut i: usize = 0;
        assert(views(toasts@) =~= all.take(0));
        while i < items.len()
            invariant
                views(items@) == self@.toasts.items,
                all == toast_views(self@.toasts.items, theme),
                i <= items.len(),
                views(toasts@) == all.take(i as int),
            decreases items.len() - i,
        {
            let ghost so_far = views(toasts@);
            let next = toast(&items[i], theme);
            toasts.push(next);
            assert(views(toasts@) == so_far.push(next@));
            assert(views(items@)[i as int] == items@[i as int]@);
            assert(views(toasts@) =~= all.take(i + 1));
            i = i + 1;
        }
        assert(all.take(i as int) =~= all);
        Overlay {
            context: self.surface.route.key_context().to_owned(),
            modal: match self.surface.modal {
                Some(modal) => Some(modal.title().to_owned()),
                None => None,
            },
            toasts,
        }
    }
}

/// The conversation shows each message in its order with its words, and under the name of who said
/// it; each request for approval with what it asks, and with controls that answer that request;
/// and whether the agent works, and on what.
pub proof fn conversations_show_everything(a: AppModel, i: int, k: int)
    ensures
        ({
            let c = conversation_of(a);
            &&& c.messages.len() == a.thread.messages.len()
            &&& c.approvals.len() == a.turn.approvals.len()
            &&& 0 <= i < a.thread.messages.len() ==> c.messages[i].text == a.thread.messages[i].text
                && match a.thread.messages[i].role {
                MessageRole::User => c.messages[i].label == "YOU"@,
                MessageRole::Agent => c.messages[i].label == "CODEX"@,
                MessageRole::Tool => c.messages[i].label == "TOOL"@,
                MessageRole::System => c.messages[i].label == "RODE"@,
            }
            &&& 0 <= k < a.turn.approvals.len() && k <= usize::MAX ==> {
                let asked = a.turn.approvals[k];
                let shown = c.approvals[k];
                &&& shown.title == asked.title
                &&& asked.detail.len() > 0 ==> shown.detail == Some(asked.detail)
                &&& has_part(shown.item, asked.item_id)
                &&& shown.controls.len() == 2
                &&& shown.controls[0].action == UiActionModel::Approve(k as usize)
                &&& shown.controls[1].action == UiActionModel::Decline(k as usize)
                &&& shown.controls[0].enabled && shown.controls[1].enabled
                &&& asked.kind == ApprovalKind::Command ==> shown.kind == "COMMAND APPROVAL"@
                &&& asked.kind == ApprovalKind::FileChange ==> shown.kind
                    == "FILE-CHANGE APPROVAL"@
            }
            &&& c.activity is Some <==> a.turn.running
            &&& a.turn.running && trimmed(a.turn.reasoning_preview).len() > 0 ==> has_part(
                c.activity->0,
                trimmed(a.turn.reasoning_preview),
            )
        }),
{
    let none = Seq::<char>::empty();
    if 0 <= k < a.turn.approvals.len() {
        let item = a.turn.approvals[k].item_id;
        assert("item "@ + item + none =~= "item "@ + item);
        parts_are_held("item "@, item, none);
    }
    let thought = trimmed(a.turn.reasoning_preview);
    assert("Reasoning… "@ + thought + none =~= "Reasoning… "@ + thought);
    parts_are_held("Reasoning… "@, thought, none);
}

/// The header is that of the thread that is shown, with its branch and the number of its changed
/// files; a turn can be cancelled exactly while it runs.
pub proof fn headers_show_their_thread(a: AppModel)
    ensures
        ({
            let h = header_of(a);
            &&& h.title == a.thread.title
            &&& a.project.repo.is_repository ==> has_part(h.branch, a.project.repo.branch)
            &&& has_part(h.diff.label, decimal(a.project.repo.changed_files))
            &&& h.terminal.action is ToggleTerminal
            &&& h.refresh.action is RefreshRepo
            &&& h.diff.action is ToggleDiff
            &&& h.cancel is Some <==> a.turn.running
            &&& h.cancel matches Some(c) ==> c.action is CancelTurn && c.enabled
        }),
{
    let none = Seq::<char>::empty();
    let branch = a.project.repo.branch;
    assert("⎇ "@ + branch + none =~= "⎇ "@ + branch);
    parts_are_held("⎇ "@, branch, none);
    let count = decimal(a.project.repo.changed_files);
    assert("Diff · "@ + count + none =~= "Diff · "@ + count);
    parts_are_held("Diff · "@, count, none);
}

/// The rail leads to the surfaces, each entry to its own, and those that need a repository are
/// open to the user exactly where there is one.
pub proof fn the_rail_leads_to_every_surface(a: AppModel)
    ensures
        ({
            let rail = rail_of(a);
            &&& rail.len() == 5
            &&& rail[0].control.action == UiActionModel::Navigate(AppRoute::Workspace)
            &&& rail[1].control.action == UiActionModel::Navigate(AppRoute::SourceControl)
            &&& rail[2].control.action == UiActionModel::Navigate(AppRoute::Terminal)
            &&& rail[3].control.action == UiActionModel::Navigate(
                AppRoute::Settings(SettingsSection::Appearance),
            )
            &&& rail[4].control.action == UiActionModel::Navigate(
                AppRoute::Settings(SettingsSection::Account),
            )
            &&& rail[0].control.enabled && rail[3].control.enabled && rail[4].control.enabled
            &&& rail[1].control.enabled == a.project.repo.is_repository
            &&& rail[2].control.enabled == a.project.repo.is_repository
            &&& forall|k: int|
                0 <= k < 5 ==> {
                    let colors = theme_colors(a.surface.theme);
                    &&& (#[trigger] rail[k]).selected ==> rail[k].control.background
                        == colors.accent_soft && rail[k].control.border == colors.focus_ring
                    &&& !rail[k].selected ==> rail[k].control.background == colors.chrome
                        && rail[k].control.foreground == colors.muted_text
                }
        }),
{
}

/// Every theme and every section of the settings can be chosen, and the one that is shown is
/// marked.
pub proof fn settings_offer_every_choice(a: AppModel, i: int, k: int)
    requires
        a.surface.route == AppRoute::Settings(SettingsSection::Appearance),
    ensures
        ({
            let s = settings_of(a);
            &&& s.sections.len() == SettingsSection::ALL@.len()
            &&& 0 <= i < s.sections.len() ==> s.sections[i].action == UiActionModel::ShowSection(
                SettingsSection::ALL@[i],
            ) && s.sections[i].label == section_label(SettingsSection::ALL@[i])
                && s.sections[i].enabled
            &&& s.themes.len() == ThemeKind::ALL@.len()
            &&& 0 <= k < s.themes.len() ==> s.themes[k].control.action == UiActionModel::UseTheme(
                ThemeKind::ALL@[k],
            ) && s.themes[k].control.label == theme_title(ThemeKind::ALL@[k])
                && s.themes[k].control.enabled
        }),
{
}

/// Every notice is shown with its words, and can be closed, that one and no other.
pub proof fn every_notice_is_shown(a: AppModel, i: int)
    requires
        0 <= i < a.toasts.items.len(),
    ensures
        overlay_of(a).toasts.len() == a.toasts.items.len(),
        overlay_of(a).toasts[i].message == a.toasts.items[i].message,
        overlay_of(a).toasts[i].dismiss.action == UiActionModel::DismissToast(
            a.toasts.items[i].id,
        ),
        overlay_of(a).toasts[i].dismiss.enabled,
        overlay_of(a).modal is Some <==> a.surface.modal is Some,
{
}

/// A terminal is shown under its title, and one that has ended says so.
pub proof fn ended_terminals_say_so(title: Seq<char>, theme: ThemeKind)
    ensures
        terminal_panel(Some((title, false)), theme).title == title,
        has_part(terminal_panel(Some((title, true)), theme).title, title),
        has_part(terminal_panel(Some((title, true)), theme).title, "exited"@),
        terminal_panel(Some((title, true)), theme).close.action is CloseTerminal,
{
    let none = Seq::<char>::empty();
    let after = " · exited"@;
    assert(none + title + after =~= title + after);
    parts_are_held(none, title, after);
    reveal_strlit(" · exited");
    reveal_strlit("exited");
    assert(after =~= seq![' ', '·', ' '] + "exited"@);
    assert(title + seq![' ', '·', ' '] + "exited"@ + none =~= title + after);
    parts_are_held(title + seq![' ', '·', ' '], "exited"@, none);
}

/// The composer says what Enter would do: nothing while a workspace is made or a turn runs.
pub proof fn the_composer_says_what_it_waits_for(a: AppModel)
    ensures
        !a.thread.creating_worktree && !a.turn.running <==> composer_hint(a) == "Enter to send"@,
{
    reveal_strlit("Enter to send");
    reveal_strlit("Turn running");
    reveal_strlit("Creating worktree");
    assert("Enter to send"@.len() == 13);
    assert("Turn running"@.len() == 12);
    assert("Creating worktree"@.len() == 17);
}

} // verus!
