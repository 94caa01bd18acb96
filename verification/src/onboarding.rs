//! What is shown before there is anything to work on: the sign-in, and the choice of a project.
use vstd::prelude::*;
use vstd::string::*;

use crate::app::{
    agent_available, nothing, AppModel, AuthModel, CodexAuthState, Effect, EffectModel,
    ProjectSelectionState, RodeApp, SelectionModel,
};
use crate::codex_auth::account_summary;
use crate::controls::{
    both, control, none, only, painted_control, Control, ControlModel, Paint, UiAction,
    UiActionModel,
};
use crate::persistence::{ProjectModel, StoredProject};
use crate::sign_in::cancel_asked;
use crate::text;
use crate::text::{has_part, parts_are_held};
use crate::theme::{theme_colors, tokens, ThemeColors};
use crate::views::{opt_view, views, views_index, views_push};

verus! {

/// The screen with the sign-in.
#[derive(Debug, PartialEq, Eq)]
pub struct AuthScreen {
    pub status_color: u32,
    pub status_label: String,
    /// What to do where the agent's program is not there.
    pub missing: Option<String>,
    pub error: Option<String>,
    /// What is waited for.
    pub waiting: Option<String>,
    pub controls: Vec<Control>,
}

/// The value of an `AuthScreen`.
#[verifier::ext_equal]
pub struct AuthScreenModel {
    pub status_color: u32,
    pub status_label: Seq<char>,
    pub missing: Option<Seq<char>>,
    pub error: Option<Seq<char>>,
    pub waiting: Option<Seq<char>>,
    pub controls: Seq<ControlModel>,
}

impl View for AuthScreen {
    type V = AuthScreenModel;

    open spec fn view(&self) -> AuthScreenModel {
        AuthScreenModel {
            status_color: self.status_color,
            status_label: self.status_label@,
            missing: opt_view(self.missing),
            error: opt_view(self.error),
            waiting: opt_view(self.waiting),
            controls: views(self.controls@),
        }
    }
}

/// How far the user is signed in, in a colour and a few words.
pub open spec fn auth_status(auth: AuthModel, colors: ThemeColors) -> (u32, Seq<char>) {
    match auth {
        AuthModel::Unavailable => (colors.error, "CLI not found"@),
        AuthModel::Checking => (colors.warning, "Checking account"@),
        AuthModel::SignedOut => (colors.info, "Ready to connect"@),
        AuthModel::SigningIn => (colors.info, "Starting sign-in"@),
        AuthModel::BrowserPending { .. } => (colors.info, "Waiting for browser"@),
        AuthModel::Cancelling => (colors.warning, "Cancelling sign-in"@),
        AuthModel::Error(_) => (colors.error, "Connection error"@),
        AuthModel::SignedIn(_) => (colors.success, "Connected"@),
    }
}

/// See [`auth_status`].
fn status_of(auth: &CodexAuthState, colors: ThemeColors) -> (r: (u32, &'static str))
    ensures
        (r.0, r.1@) == auth_status(auth@, colors),
{
    match auth {
        CodexAuthState::Unavailable => (colors.error, "CLI not found"),
        CodexAuthState::Checking => (colors.warning, "Checking account"),
        CodexAuthState::SignedOut => (colors.info, "Ready to connect"),
        CodexAuthState::SigningIn => (colors.info, "Starting sign-in"),
        CodexAuthState::BrowserPending { .. } => (colors.info, "Waiting for browser"),
        CodexAuthState::Cancelling => (colors.warning, "Cancelling sign-in"),
        CodexAuthState::Error(_) => (colors.error, "Connection error"),
        CodexAuthState::SignedIn(_) => (colors.success, "Connected"),
    }
}

/// What went wrong with the sign-in.
pub open spec fn auth_error(auth: AuthModel) -> Option<Seq<char>> {
    match auth {
        AuthModel::Error(error) => Some(error),
        _ => None,
    }
}

/// See [`auth_error`].
pub fn error_of(auth: &CodexAuthState) -> (r: Option<String>)
    ensures
        opt_view(r) == auth_error(auth@),
{
    match auth {
        CodexAuthState::Error(error) => Some(error.clone()),
        _ => None,
    }
}

/// The colours of what leads on.
pub open spec fn forward(colors: ThemeColors) -> Paint {
    Paint {
        background: colors.accent,
        hover: colors.accent_hover,
        foreground: colors.on_accent,
    }
}

/// The colours of what leads back.
pub open spec fn aside(colors: ThemeColors) -> Paint {
    Paint {
        background: colors.strong_border,
        hover: colors.strong_border,
        foreground: colors.text,
    }
}

/// See [`forward`].
pub fn forward_paint(colors: ThemeColors) -> (r: Paint)
    ensures
        r == forward(colors),
{
    Paint {
        background: colors.accent,
        hover: colors.accent_hover,
        foreground: colors.on_accent,
    }
}

/// See [`aside`].
pub fn aside_paint(colors: ThemeColors) -> (r: Paint)
    ensures
        r == aside(colors),
{
    Paint {
        background: colors.strong_border,
        hover: colors.strong_border,
        foreground: colors.text,
    }
}

/// What can be done about the sign-in.
pub open spec fn auth_controls(auth: AuthModel, colors: ThemeColors) -> Seq<ControlModel> {
    match auth {
        AuthModel::SignedOut => seq![
            painted_control(
                "Sign in with ChatGPT"@,
                "Sign in to OpenAI with Codex"@,
                forward(colors),
                UiActionModel::SignIn,
            ),
        ],
        AuthModel::Error(_) => seq![
            painted_control(
                "Try again"@,
                "Retry the Codex account check"@,
                aside(colors),
                UiActionModel::RetryAccount,
            ),
        ],
        AuthModel::BrowserPending { .. } => seq![
            painted_control(
                "Open browser again"@,
                "Open the ChatGPT sign-in page again"@,
                forward(colors),
                UiActionModel::ReopenBrowser,
            ),
            painted_control(
                "Cancel sign-in"@,
                "Cancel ChatGPT sign-in"@,
                aside(colors),
                UiActionModel::CancelLogin,
            ),
        ],
        _ => Seq::empty(),
    }
}

/// See [`auth_controls`].
fn controls_of(auth: &CodexAuthState, colors: ThemeColors) -> (r: Vec<Control>)
    ensures
        views(r@) == auth_controls(auth@, colors),
{
    match auth {
        CodexAuthState::SignedOut => only(
            control(
                "Sign in with ChatGPT",
                "Sign in to OpenAI with Codex",
                forward_paint(colors),
                UiAction::SignIn,
            ),
        ),
        CodexAuthState::Error(_) => only(
            control(
                "Try again",
                "Retry the Codex account check",
                aside_paint(colors),
                UiAction::RetryAccount,
            ),
        ),
        CodexAuthState::BrowserPending { .. } => both(
            control(
                "Open browser again",
                "Open the ChatGPT sign-in page again",
                forward_paint(colors),
                UiAction::ReopenBrowser,
            ),
            control(
                "Cancel sign-in",
                "Cancel ChatGPT sign-in",
                aside_paint(colors),
                UiAction::CancelLogin,
            ),
        ),
        _ => none(),
    }
}

/// What is waited for, where nothing can be done about the sign-in.
pub open spec fn auth_waiting(auth: AuthModel) -> Option<Seq<char>> {
    match auth {
        AuthModel::Checking => Some("Checking account…"@),
        AuthModel::SigningIn => Some("Starting browser sign-in…"@),
        AuthModel::Cancelling => Some("Cancelling sign-in…"@),
        AuthModel::Unavailable => Some("Codex CLI required"@),
        _ => None,
    }
}

/// See [`auth_waiting`].
fn waiting_of(auth: &CodexAuthState) -> (r: Option<String>)
    ensures
        opt_view(r) == auth_waiting(auth@),
{
    match auth {
        CodexAuthState::Checking => Some("Checking account…".to_owned()),
        CodexAuthState::SigningIn => Some("Starting browser sign-in…".to_owned()),
        CodexAuthState::Cancelling => Some("Cancelling sign-in…".to_owned()),
        CodexAuthState::Unavailable => Some("Codex CLI required".to_owned()),
        _ => None,
    }
}

/// The screen with the sign-in.
pub open spec fn auth_screen(a: AppModel) -> AuthScreenModel {
    let colors = theme_colors(a.surface.theme);
    let auth = a.account.auth;
    AuthScreenModel {
        status_color: auth_status(auth, colors).0,
        status_label: auth_status(auth, colors).1,
        missing: if agent_available(a.account) {
            None
        } else {
            Some(
                "Install the Codex CLI and make sure `codex` is available on PATH, then restart Rode."@,
            )
        },
        error: auth_error(auth),
        waiting: auth_waiting(auth),
        controls: auth_controls(auth, colors),
    }
}

/// To whom is not signed in the screen always offers something to do, or says what is waited for.
pub proof fn the_sign_in_is_never_stuck(a: AppModel)
    requires
        !(a.account.auth is SignedIn),
    ensures
        auth_screen(a).controls.len() > 0 || auth_screen(a).waiting is Some,
        !(auth_screen(a).controls.len() > 0 && auth_screen(a).waiting is Some),
{
}

/// A project that is known, as it is offered.
#[derive(Debug, PartialEq, Eq)]
pub struct RecentProject {
    pub name: String,
    pub path: String,
    pub border: u32,
    pub status: String,
    pub status_color: u32,
    /// What opens it, where its folder is there; else what puts it right, and what forgets it.
    pub controls: Vec<Control>,
}

/// The value of a `RecentProject`.
#[verifier::ext_equal]
pub struct RecentModel {
    pub name: Seq<char>,
    pub path: Seq<char>,
    pub border: u32,
    pub status: Seq<char>,
    pub status_color: u32,
    pub controls: Seq<ControlModel>,
}

impl View for RecentProject {
    type V = RecentModel;

    open spec fn view(&self) -> RecentModel {
        RecentModel {
            name: self.name@,
            path: self.path@,
            border: self.border,
            status: self.status@,
            status_color: self.status_color,
            controls: views(self.controls@),
        }
    }
}

/// A project that is known, as it is offered. `available` says whether its folder is there.
pub open spec fn recent_of(project: ProjectModel, available: bool, colors: ThemeColors) -> RecentModel {
    RecentModel {
        name: project.name,
        path: project.path,
        border: if available {
            colors.border
        } else {
            colors.deletion
        },
        status: if available {
            "Git project"@
        } else {
            "Folder missing"@
        },
        status_color: if available {
            colors.success
        } else {
            colors.error
        },
        controls: if available {
            seq![
                painted_control(
                    project.name,
                    "Open project "@ + project.name,
                    Paint {
                        background: colors.chrome,
                        hover: colors.overlay,
                        foreground: colors.text,
                    },
                    UiActionModel::OpenProject(project.path),
                ),
            ]
        } else {
            seq![
                painted_control(
                    "Repair"@,
                    "Repair project "@ + project.name,
                    Paint {
                        background: colors.overlay,
                        hover: colors.overlay,
                        foreground: colors.text,
                    },
                    UiActionModel::RepairProject(project.path),
                ),
                painted_control(
                    "Remove"@,
                    "Remove project "@ + project.name + " from Rode"@,
                    Paint {
                        background: colors.deletion_soft,
                        hover: colors.deletion_soft,
                        foreground: colors.error,
                    },
                    UiActionModel::RemoveProject(project.path),
                ),
            ]
        },
    }
}

/// See [`recent_of`].
fn offer(project: &StoredProject, available: bool, colors: ThemeColors) -> (r: RecentProject)
    ensures
        r@ == recent_of(project@, available, colors),
{
    let name = project.name.as_str();
    let controls = if available {
        let description = text::concat("Open project ", name);
        only(
            control(
                name,
                description.as_str(),
                Paint {
                    background: colors.chrome,
                    hover: colors.overlay,
                    foreground: colors.text,
                },
                UiAction::OpenProject(project.path.clone()),
            ),
        )
    } else {
        let repair = text::concat("Repair project ", name);
        let remove = text::concat3("Remove project ", name, " from Rode");
        both(
            control(
                "Repair",
                repair.as_str(),
                Paint {
                    background: colors.overlay,
                    hover: colors.overlay,
                    foreground: colors.text,
                },
                UiAction::RepairProject(project.path.clone()),
            ),
            control(
                "Remove",
                remove.as_str(),
                Paint {
                    background: colors.deletion_soft,
                    hover: colors.deletion_soft,
                    foreground: colors.error,
                },
                UiAction::RemoveProject(project.path.clone()),
            ),
        )
    };
    RecentProject {
        name: project.name.clone(),
        path: project.path.clone(),
        border: if available {
            colors.border
        } else {
            colors.deletion
        },
        status: (if available {
            "Git project"
        } else {
            "Folder missing"
        }).to_owned(),
        status_color: if available {
            colors.success
        } else {
            colors.error
        },
        controls,
    }
}

/// The screen with the choice of a project.
#[derive(Debug, PartialEq, Eq)]
pub struct ProjectScreen {
    pub account: String,
    /// What is under way.
    pub operation: Option<String>,
    pub error: Option<String>,
    pub browse: Control,
    /// Whether the keyboard stops at the control that opens a folder.
    pub browse_tab_stop: bool,
    pub recent: Vec<RecentProject>,
}

/// The value of a `ProjectScreen`.
#[verifier::ext_equal]
pub struct ProjectScreenModel {
    pub account: Seq<char>,
    pub operation: Option<Seq<char>>,
    pub error: Option<Seq<char>>,
    pub browse: ControlModel,
    pub browse_tab_stop: bool,
    pub recent: Seq<RecentModel>,
}

impl View for ProjectScreen {
    type V = ProjectScreenModel;

    open spec fn view(&self) -> ProjectScreenModel {
        ProjectScreenModel {
            account: self.account@,
            operation: opt_view(self.operation),
            error: opt_view(self.error),
            browse: self.browse@,
            browse_tab_stop: self.browse_tab_stop,
            recent: views(self.recent@),
        }
    }
}

/// What is under way while a project is chosen.
pub open spec fn selection_text(selection: SelectionModel) -> Option<Seq<char>> {
    match selection {
        SelectionModel::Idle => None,
        SelectionModel::ChoosingFolder => Some("Waiting for the folder picker…"@),
        SelectionModel::Validating(path) => Some("Validating "@ + path + "…"@),
    }
}

/// Whether the folder of the project at a place is there; one without an answer is not.
pub open spec fn answered(available: Seq<bool>, i: int) -> bool {
    i < available.len() && available[i]
}

/// The projects that are known, as they are offered.
pub open spec fn recent_list(projects: Seq<ProjectModel>, available: Seq<bool>, colors: ThemeColors) -> Seq<
    RecentModel,
> {
    Seq::new(
        projects.len(),
        |i: int| recent_of(projects[i], answered(available, i), colors),
    )
}

/// The screen with the choice of a project. `available` says of each project that is known
/// whether its folder is there. A folder can be opened at any time; the keyboard stops at the
/// control for it while nothing is under way.
pub open spec fn project_screen(a: AppModel, available: Seq<bool>) -> ProjectScreenModel {
    let colors = theme_colors(a.surface.theme);
    ProjectScreenModel {
        account: match a.account.auth {
            AuthModel::SignedIn(account) => account_summary(account),
            _ => "OpenAI account"@,
        },
        operation: selection_text(a.picker.selection),
        error: a.picker.error,
        browse: painted_control(
            "Open project folder…"@,
            "Open a Git project folder"@,
            forward(colors),
            UiActionModel::BrowseFolder,
        ),
        browse_tab_stop: a.picker.selection is Idle,
        recent: recent_list(a.known.projects, available, colors),
    }
}

/// Every project that is known can be opened, or put right and forgotten, and each control is
/// about its own project.
pub proof fn known_projects_are_offered(a: AppModel, available: Seq<bool>, i: int)
    requires
        0 <= i < a.known.projects.len(),
    ensures
        ({
            let recent = project_screen(a, available).recent;
            let path = a.known.projects[i].path;
            &&& recent.len() == a.known.projects.len()
            &&& answered(available, i) ==> recent[i].controls.len() == 1
                && recent[i].controls[0].action == UiActionModel::OpenProject(path)
            &&& !answered(available, i) ==> recent[i].controls.len() == 2
                && recent[i].controls[0].action == UiActionModel::RepairProject(path)
                && recent[i].controls[1].action == UiActionModel::RemoveProject(path)
        }),
{
}

impl RodeApp {
    /// See [`auth_screen`].
    pub fn render_auth_onboarding(&self) -> (r: AuthScreen)
        ensures
            r@ == auth_screen(self@),
    {
        let colors = tokens(self.surface.theme).colors;
        let (status_color, label) = status_of(&self.account.auth, colors);
        AuthScreen {
            status_color,
            status_label: label.to_owned(),
            missing: if self.account.codex_available() {
                None
            } else {
                Some(
                    "Install the Codex CLI and make sure `codex` is available on PATH, then restart Rode.".to_owned(),
                )
            },
            error: error_of(&self.account.auth),
            waiting: waiting_of(&self.account.auth),
            controls: controls_of(&self.account.auth, colors),
        }
    }

    /// A key on the screen with the sign-in: the login is cancelled while the browser is waited
    /// for. Says whether the key did anything.
    pub fn auth_key(&mut self, key: &str) -> (r: (bool, Vec<Effect>))
        ensures
            ({
                let heard = key@ == "escape"@ && old(self)@.account.auth is BrowserPending;
                &&& r.0 == heard
                &&& (final(self)@, views(r.1@)) == (if heard {
                    cancel_asked(old(self)@)
                } else {
                    (old(self)@, Seq::<EffectModel>::empty())
                })
            }),
    {
        let pending = match &self.account.auth {
            CodexAuthState::BrowserPending { .. } => true,
            _ => false,
        };
        if text::same(key, "escape") && pending {
            (true, self.cancel_codex_login())
        } else {
            (false, nothing())
        }
    }

    /// See [`project_screen`].
    pub fn render_project_onboarding(&self, available: &Vec<bool>) -> (r: ProjectScreen)
        ensures
            r@ == project_screen(self@, available@),
    {
        broadcast use {views_push, views_index};

        let colors = tokens(self.surface.theme).colors;
        let account = match &self.account.auth {
            CodexAuthState::SignedIn(account) => account.summary(),
            _ => "OpenAI account".to_owned(),
        };
        let (operation, idle) = match &self.picker.selection {
            ProjectSelectionState::Idle => (None, true),
            ProjectSelectionState::ChoosingFolder => (
                Some("Waiting for the folder picker…".to_owned()),
                false,
            ),
            ProjectSelectionState::Validating(path) => (
                Some(text::concat3("Validating ", path.as_str(), "…")),
                false,
            ),
        };
        let browse = control(
            "Open project folder…",
            "Open a Git project folder",
            forward_paint(colors),
            UiAction::BrowseFolder,
        );
        let ghost all = recent_list(self@.known.projects, available@, colors);
        let mut recent: Vec<RecentProject> = Vec::new();
        let mut i: usize = 0;
        assert(views(recent@) =~= all.take(0));
        while i < self.known.projects.len()
            invariant
                all == recent_list(self@.known.projects, available@, colors),
                i <= self.known.projects.len(),
                views(recent@) == all.take(i as int),
            decreases self.known.projects.len() - i,
        {
            let ghost so_far = views(recent@);
            let there = i < available.len() && available[i];
            let next = offer(&self.known.projects[i], there, colors);
            recent.push(next);
            assert(views(recent@) == so_far.push(next@));
            assert(views(recent@) =~= all.take(i + 1));
            i = i + 1;
        }
        assert(all.take(i as int) =~= all);
        ProjectScreen {
            account,
            operation,
            error: text::copy_opt(&self.picker.error),
            browse,
            browse_tab_stop: idle,
            recent,
        }
    }
}

/// The sign-in offers what can be done next: to sign in, to try again, or to go on in the browser
/// or to give up; and it says what went wrong as it was told, and what is missing.
pub proof fn the_sign_in_offers_what_is_next(a: AppModel)
    ensures
        ({
            let s = auth_screen(a);
            &&& a.account.auth is SignedOut ==> s.controls.len() == 1
                && s.controls[0].action is SignIn && s.controls[0].enabled
            &&& a.account.auth is Error ==> s.controls.len() == 1
                && s.controls[0].action is RetryAccount && s.controls[0].enabled
            &&& a.account.auth is BrowserPending ==> s.controls.len() == 2
                && s.controls[0].action is ReopenBrowser && s.controls[1].action is CancelLogin
                && s.controls[0].enabled && s.controls[1].enabled
            &&& a.account.auth is Checking || a.account.auth is SigningIn
                || a.account.auth is Cancelling || a.account.auth is Unavailable
                ==> s.controls.len() == 0 && s.waiting is Some
            &&& a.account.auth matches AuthModel::Error(error) ==> s.error == Some(error)
            &&& !(a.account.auth is Error) ==> s.error is None
            &&& s.missing is None <==> agent_available(a.account)
        }),
{
}

/// A project that was opened before can be opened where its folder is still there, and put right
/// or forgotten where it is not, that one and no other. What is looked into and what was found
/// wrong are said.
pub proof fn known_projects_can_be_opened_or_repaired(
    a: AppModel,
    available: Seq<bool>,
    i: int,
    path: Seq<char>,
)
    requires
        0 <= i < a.known.projects.len(),
    ensures
        ({
            let s = project_screen(a, available);
            let p = a.known.projects[i];
            let r = s.recent[i];
            &&& s.recent.len() == a.known.projects.len()
            &&& r.name == p.name && r.path == p.path
            &&& i < available.len() && available[i] ==> r.controls.len() == 1
                && r.controls[0].action == UiActionModel::OpenProject(p.path)
                && r.controls[0].enabled
            &&& i >= available.len() || !available[i] ==> r.controls.len() == 2
                && r.controls[0].action == UiActionModel::RepairProject(p.path)
                && r.controls[1].action == UiActionModel::RemoveProject(p.path)
                && r.controls[0].enabled && r.controls[1].enabled
            &&& s.error == a.picker.error
            &&& s.browse.action is BrowseFolder
            &&& s.operation is None <==> a.picker.selection is Idle
            &&& a.picker.selection == SelectionModel::Validating(path) ==> has_part(
                s.operation->0,
                path,
            )
            &&& a.account.auth matches AuthModel::SignedIn(account) ==> s.account
                == account_summary(account)
        }),
{
    parts_are_held("Validating "@, path, "…"@);
}

} // verus!
