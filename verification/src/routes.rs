//! The surfaces of the application, the way from one to another, and what is remembered of it.
use vstd::prelude::*;

use crate::persistence::{ProjectModel, StoredProject};
use crate::text;
use crate::theme::{stored_theme_is_read_back, theme_name, theme_named, ThemeKind};
use crate::views::{opt_view, views, views_index};

verus! {

#[derive(Clone, Copy, Debug, PartialEq, Eq, Structural)]
pub enum SettingsSection {
    Appearance,
    AgentsAndModels,
    Terminal,
    GitAndWorktrees,
    Keybindings,
    Account,
}

impl Default for SettingsSection {
    fn default() -> (r: Self)
        ensures
            r == SettingsSection::Appearance,
    {
        SettingsSection::Appearance
    }
}

pub open spec fn section_label(section: SettingsSection) -> Seq<char> {
    match section {
        SettingsSection::Appearance => "Appearance"@,
        SettingsSection::AgentsAndModels => "Agents & models"@,
        SettingsSection::Terminal => "Terminal"@,
        SettingsSection::GitAndWorktrees => "Git & worktrees"@,
        SettingsSection::Keybindings => "Keybindings"@,
        SettingsSection::Account => "Account"@,
    }
}

impl SettingsSection {
    pub const ALL: [SettingsSection; 6] = [
        SettingsSection::Appearance,
        SettingsSection::AgentsAndModels,
        SettingsSection::Terminal,
        SettingsSection::GitAndWorktrees,
        SettingsSection::Keybindings,
        SettingsSection::Account,
    ];

    pub fn label(self) -> (r: &'static str)
        ensures
            r@ == section_label(self),
    {
        match self {
            SettingsSection::Appearance => "Appearance",
            SettingsSection::AgentsAndModels => "Agents & models",
            SettingsSection::Terminal => "Terminal",
            SettingsSection::GitAndWorktrees => "Git & worktrees",
            SettingsSection::Keybindings => "Keybindings",
            SettingsSection::Account => "Account",
        }
    }
}

#[derive(Clone, Copy, Debug, PartialEq, Eq, Structural)]
pub enum AppRoute {
    Login,
    Workspace,
    SourceControl,
    Terminal,
    Settings(SettingsSection),
}

impl Default for AppRoute {
    fn default() -> (r: Self)
        ensures
            r == AppRoute::Workspace,
    {
        AppRoute::Workspace
    }
}

/// The context in which keys are bound on a surface.
pub open spec fn route_context(route: AppRoute) -> Seq<char> {
    match route {
        AppRoute::Login => "Login"@,
        AppRoute::Workspace => "Workspace"@,
        AppRoute::SourceControl => "SourceControl"@,
        AppRoute::Terminal => "TerminalRoute"@,
        AppRoute::Settings(_) => "Settings"@,
    }
}

/// The name under which a surface is remembered.
pub open spec fn route_name(route: AppRoute) -> Seq<char> {
    match route {
        AppRoute::Login => "workspace"@,
        AppRoute::Workspace => "workspace"@,
        AppRoute::SourceControl => "source_control"@,
        AppRoute::Terminal => "terminal"@,
        AppRoute::Settings(_) => "settings"@,
    }
}

/// The surface of a name; the workspace where the name is unknown.
pub open spec fn named_route(name: Seq<char>) -> AppRoute {
    if name == "source_control"@ {
        AppRoute::SourceControl
    } else if name == "terminal"@ {
        AppRoute::Terminal
    } else if name == "settings"@ {
        AppRoute::Settings(SettingsSection::Appearance)
    } else {
        AppRoute::Workspace
    }
}

pub open spec fn route_label(route: AppRoute) -> Seq<char> {
    match route {
        AppRoute::Login => "Sign in"@,
        AppRoute::Workspace => "Workspace"@,
        AppRoute::SourceControl => "Source control"@,
        AppRoute::Terminal => "Terminal"@,
        AppRoute::Settings(_) => "Settings"@,
    }
}

/// Whether two routes lead to one surface; the sections of the settings are one.
pub open spec fn one_surface(a: AppRoute, b: AppRoute) -> bool {
    a == b || (a is Settings && b is Settings)
}

/// Whether a surface shows something of an open project.
pub open spec fn needs_project(route: AppRoute) -> bool {
    route is SourceControl || route is Terminal
}

impl AppRoute {
    pub fn key_context(self) -> (r: &'static str)
        ensures
            r@ == route_context(self),
    {
        match self {
            AppRoute::Login => "Login",
            AppRoute::Workspace => "Workspace",
            AppRoute::SourceControl => "SourceControl",
            AppRoute::Terminal => "TerminalRoute",
            AppRoute::Settings(_) => "Settings",
        }
    }

    pub fn storage_name(self) -> (r: &'static str)
        ensures
            r@ == route_name(self),
    {
        match self {
            AppRoute::Login => "workspace",
            AppRoute::Workspace => "workspace",
            AppRoute::SourceControl => "source_control",
            AppRoute::Terminal => "terminal",
            AppRoute::Settings(_) => "settings",
        }
    }

    pub fn from_storage_name(value: &str) -> (r: Self)
        ensures
            r == named_route(value@),
    {
        if text::same(value, "source_control") {
            AppRoute::SourceControl
        } else if text::same(value, "terminal") {
            AppRoute::Terminal
        } else if text::same(value, "settings") {
            AppRoute::Settings(SettingsSection::Appearance)
        } else {
            AppRoute::Workspace
        }
    }

    pub fn label(self) -> (r: &'static str)
        ensures
            r@ == route_label(self),
    {
        match self {
            AppRoute::Login => "Sign in",
            AppRoute::Workspace => "Workspace",
            AppRoute::SourceControl => "Source control",
            AppRoute::Terminal => "Terminal",
            AppRoute::Settings(_) => "Settings",
        }
    }

    pub fn same_surface(self, other: Self) -> (r: bool)
        ensures
            r == one_surface(self, other),
    {
        match (self, other) {
            (AppRoute::Login, AppRoute::Login) => true,
            (AppRoute::Workspace, AppRoute::Workspace) => true,
            (AppRoute::SourceControl, AppRoute::SourceControl) => true,
            (AppRoute::Terminal, AppRoute::Terminal) => true,
            (AppRoute::Settings(_), AppRoute::Settings(_)) => true,
            _ => false,
        }
    }

    pub fn requires_project(self) -> (r: bool)
        ensures
            r == needs_project(self),
    {
        match self {
            AppRoute::SourceControl => true,
            AppRoute::Terminal => true,
            _ => false,
        }
    }
}

/// A surface that is remembered by its name is found again, but for the sign-in, in whose place
/// the workspace is.
pub proof fn routes_are_found_again(route: AppRoute)
    ensures
        route is Login ==> named_route(route_name(route)) is Workspace,
        !(route is Login) ==> one_surface(named_route(route_name(route)), route),
{
    reveal_strlit("workspace");
    reveal_strlit("source_control");
    reveal_strlit("terminal");
    reveal_strlit("settings");
    assert("workspace"@.len() == 9 && "source_control"@.len() == 14);
    assert("terminal"@.len() == 8 && "settings"@.len() == 8);
    assert("terminal"@[0] == 't' && "settings"@[0] == 's');
}

/// The surface to show once it is known whether the user has to sign in: the sign-in, or else
/// the surface that was left for it.
pub open spec fn settled_route(current: AppRoute, last_authenticated: AppRoute, sign_in: bool) -> AppRoute {
    if sign_in {
        AppRoute::Login
    } else if current == AppRoute::Login {
        last_authenticated
    } else {
        current
    }
}

/// See [`settled_route`].
pub fn route_after_auth(current: AppRoute, last_authenticated: AppRoute, requires_onboarding: bool) -> (r:
    AppRoute)
    ensures
        r == settled_route(current, last_authenticated, requires_onboarding),
{
    if requires_onboarding {
        return AppRoute::Login;
    }
    match current {
        AppRoute::Login => last_authenticated,
        _ => current,
    }
}

/// Signing out and in again leads back to where the user was.
pub proof fn signing_in_again_leads_back(route: AppRoute)
    ensures
        settled_route(settled_route(route, route, true), route, false) == route,
{
}

#[derive(Clone, Copy, Debug, PartialEq, Eq, Structural)]
pub enum ModalState {
    NewThread,
    ProjectPicker,
    ModelPicker,
    AccessPicker,
    AttachmentPicker,
    Commit,
    Account,
    CommandPalette,
}

pub open spec fn modal_title(modal: ModalState) -> Seq<char> {
    match modal {
        ModalState::NewThread => "New thread"@,
        ModalState::ProjectPicker => "Open project"@,
        ModalState::ModelPicker => "Choose model"@,
        ModalState::AccessPicker => "Runtime access"@,
        ModalState::AttachmentPicker => "Add context"@,
        ModalState::Commit => "Commit changes"@,
        ModalState::Account => "OpenAI account"@,
        ModalState::CommandPalette => "Command palette"@,
    }
}

impl ModalState {
    pub fn title(self) -> (r: &'static str)
        ensures
            r@ == modal_title(self),
    {
        match self {
            ModalState::NewThread => "New thread",
            ModalState::ProjectPicker => "Open project",
            ModalState::ModelPicker => "Choose model",
            ModalState::AccessPicker => "Runtime access",
            ModalState::AttachmentPicker => "Add context",
            ModalState::Commit => "Commit changes",
            ModalState::Account => "OpenAI account",
            ModalState::CommandPalette => "Command palette",
        }
    }
}

pub const ISOLATE_NEW_THREADS_SETTING: &'static str = "isolate_new_threads";

pub const ROUTE_SETTING: &'static str = "ui.route";

pub const THEME_SETTING: &'static str = "ui.theme";

pub const SIDEBAR_WIDTH_SETTING: &'static str = "ui.workspace.sidebar_width";

pub const INSPECTOR_WIDTH_SETTING: &'static str = "ui.workspace.inspector_width";

/// The surface and the theme that the user left.
#[derive(Clone, Copy, Debug, PartialEq, Eq, Structural)]
pub struct UiPreferences {
    pub route: AppRoute,
    pub theme: ThemeKind,
}

impl Default for UiPreferences {
    fn default() -> (r: Self)
        ensures
            r == (UiPreferences { route: AppRoute::Workspace, theme: ThemeKind::Ember }),
    {
        UiPreferences { route: AppRoute::Workspace, theme: ThemeKind::Ember }
    }
}

/// What the two settings say, each with a default.
pub open spec fn preferences(route: Option<Seq<char>>, theme: Option<Seq<char>>) -> UiPreferences {
    UiPreferences {
        route: match route {
            Some(name) => named_route(name),
            None => AppRoute::Workspace,
        },
        theme: match theme {
            Some(name) => theme_named(name),
            None => ThemeKind::Ember,
        },
    }
}

impl UiPreferences {
    /// See [`preferences`]: the values of [`ROUTE_SETTING`] and [`THEME_SETTING`] are given.
    pub fn load(route: &Option<String>, theme: &Option<String>) -> (r: Self)
        ensures
            r == preferences(opt_view(*route), opt_view(*theme)),
    {
        UiPreferences {
            route: match route {
                Some(name) => AppRoute::from_storage_name(name.as_str()),
                None => AppRoute::Workspace,
            },
            theme: match theme {
                Some(name) => ThemeKind::from_storage_name(name.as_str()),
                None => ThemeKind::Ember,
            },
        }
    }
}

/// The id of a new thread: the process, and the milliseconds since the epoch.
pub open spec fn local_thread_id(process: u32, ms: i64) -> Seq<char> {
    "thread-"@ + text::decimal(process as nat) + "-"@ + text::signed_decimal(ms as int)
}

/// See [`local_thread_id`].
pub fn new_local_thread_id(process: u32, ms: i64) -> (r: String)
    ensures
        r@ == local_thread_id(process, ms),
{
    let process = text::number(process as u64, 10);
    let mut r = text::concat3("thread-", process.as_str(), "-");
    let ms = text::signed_number(ms);
    r.append(ms.as_str());
    r
}

/// The position of the first project with an id, from `i` on.
pub open spec fn project_with_id(projects: Seq<ProjectModel>, id: Seq<char>, i: int) -> Option<int>
    decreases projects.len() - i,
{
    if i < 0 || i >= projects.len() {
        None
    } else if projects[i].id == id {
        Some(i)
    } else {
        project_with_id(projects, id, i + 1)
    }
}

/// The project to open at the start, or why there is none: the one that was asked for; else the
/// one that was active; else, where none was, the most recent.
pub open spec fn startup_project(
    requested: Option<Seq<char>>,
    recent: Seq<ProjectModel>,
    active: Option<Seq<char>>,
) -> (Option<Seq<char>>, Option<Seq<char>>) {
    match (requested, active) {
        (Some(path), _) => (Some(path), None),
        (None, Some(id)) => match project_with_id(recent, id, 0) {
            Some(i) => (Some(recent[i].path), None),
            None => (
                None,
                Some("The last active project record is unavailable. Choose a project below."@),
            ),
        },
        (None, None) => if recent.len() > 0 {
            (Some(recent[0].path), None)
        } else {
            (None, None)
        },
    }
}

/// See [`startup_project`].
pub fn select_startup_project(
    requested: &Option<String>,
    recent: &Vec<StoredProject>,
    active_project_id: &Option<String>,
) -> (r: (Option<String>, Option<String>))
    ensures
        (opt_view(r.0), opt_view(r.1)) == startup_project(
            opt_view(*requested),
            views(recent@),
            opt_view(*active_project_id),
        ),
{
    broadcast use views_index;

    if let Some(path) = requested {
        return (Some(path.clone()), None);
    }
    if let Some(id) = active_project_id {
        let ghost all = views(recent@);
        let mut i: usize = 0;
        while i < recent.len()
            invariant
                all == views(recent@),
                *requested is None,
                opt_view(*active_project_id) == Some(id@),
                i <= recent.len(),
                project_with_id(all, id@, 0) == project_with_id(all, id@, i as int),
            decreases recent.len() - i,
        {
            if text::same(recent[i].id.as_str(), id.as_str()) {
                return (Some(recent[i].path.clone()), None);
            }
            i = i + 1;
        }
        return (
            None,
            Some(
                "The last active project record is unavailable. Choose a project below.".to_owned(),
            ),
        );
    }
    if recent.len() > 0 {
        (Some(recent[0].path.clone()), None)
    } else {
        (None, None)
    }
}

/// Without a request only the project that was active is opened, whatever the others are.
pub proof fn only_the_active_project_is_restored(
    recent: Seq<ProjectModel>,
    active: Seq<char>,
)
    ensures
        startup_project(None, recent, Some(active)).0 matches Some(path) ==> exists|i: int|
            0 <= i < recent.len() && recent[i].id == active && #[trigger] recent[i].path == path,
        startup_project(None, recent, Some(active)).0 is None
            == startup_project(None, recent, Some(active)).1 is Some,
{
    project_with_id_is_there(recent, active, 0);
}

proof fn project_with_id_is_there(projects: Seq<ProjectModel>, id: Seq<char>, i: int)
    requires
        0 <= i,
    ensures
        project_with_id(projects, id, i) matches Some(k) ==> i <= k < projects.len()
            && projects[k].id == id,
    decreases projects.len() - i,
{
    if i < projects.len() {
        project_with_id_is_there(projects, id, i + 1);
    }
}

/// The project that is asked for opens first; else the one that was active last, where it is
/// known, and else the one that was opened last. One that is not known any more is told of and no
/// other opens in its place.
pub proof fn the_right_project_opens_first(
    requested: Seq<char>,
    recent: Seq<ProjectModel>,
    active: Option<Seq<char>>,
    i: int,
)
    ensures
        startup_project(Some(requested), recent, active) == (
            Some(requested),
            None::<Seq<char>>,
        ),
        0 <= i < recent.len() && (forall|k: int|
            0 <= k < i ==> (#[trigger] recent[k]).id != recent[i].id) ==> startup_project(
            None,
            recent,
            Some(recent[i].id),
        ) == (Some(recent[i].path), None::<Seq<char>>),
        active is Some && (forall|k: int|
            0 <= k < recent.len() ==> (#[trigger] recent[k]).id != active->0) ==> startup_project(
            None,
            recent,
            active,
        ).0 is None && startup_project(None, recent, active).1 is Some,
        recent.len() > 0 ==> startup_project(None, recent, None) == (
            Some(recent[0].path),
            None::<Seq<char>>,
        ),
        recent.len() == 0 ==> startup_project(None, recent, None) == (
            None::<Seq<char>>,
            None::<Seq<char>>,
        ),
{
    if 0 <= i < recent.len() && (forall|k: int|
        0 <= k < i ==> (#[trigger] recent[k]).id != recent[i].id) {
        first_with_id(recent, 0, i);
    }
    if let Some(id) = active {
        project_with_id_is_there(recent, id, 0);
    }
}

proof fn first_with_id(recent: Seq<ProjectModel>, from: int, i: int)
    requires
        0 <= from <= i < recent.len(),
        forall|k: int| from <= k < i ==> (#[trigger] recent[k]).id != recent[i].id,
    ensures
        project_with_id(recent, recent[i].id, from) == Some(i),
    decreases i - from,
{
    if from < i {
        assert(recent[from].id != recent[i].id);
        first_with_id(recent, from + 1, i);
    }
}

/// What was kept of the surface and of the theme is found again, and without it the workspace
/// shows.
pub proof fn preferences_are_found_again(route: AppRoute, theme: ThemeKind)
    ensures
        preferences(Some(route_name(route)), Some(theme_name(theme))).theme == theme,
        !(route is Login) ==> one_surface(
            preferences(Some(route_name(route)), Some(theme_name(theme))).route,
            route,
        ),
        preferences(None, None).route is Workspace,
        preferences(None, Some(theme_name(theme))).theme == theme,
{
    routes_are_found_again(route);
    stored_theme_is_read_back(theme);
}

/// Threads that are begun at different times have different ids.
pub proof fn thread_ids_differ(process: u32, ms: i64, other: i64)
    requires
        0 <= ms,
        0 <= other,
        ms != other,
    ensures
        local_thread_id(process, ms) != local_thread_id(process, other),
{
    let before = "thread-"@ + text::decimal(process as nat) + "-"@;
    text::decimals_differ(ms as nat, other as nat);
    assert(local_thread_id(process, ms).skip(before.len() as int) =~= text::decimal(ms as nat));
    assert(local_thread_id(process, other).skip(before.len() as int) =~= text::decimal(
        other as nat,
    ));
}

} // verus!
