//! The sidebar: the projects with their threads, the menus, and the account.
use vstd::prelude::*;
use vstd::string::*;

use crate::app::{
    AppModel, AuthModel, CodexAuthState, RenameTarget, RodeApp, TargetModel,
};
use crate::codex_auth::account_summary;
use crate::controls::{
    both, control, none, only, painted_control, row_of, selectable_row, Control, ControlModel,
    Paint, UiAction, UiActionModel,
};
use crate::onboarding::{
    aside, aside_paint, auth_error, error_of, forward, forward_paint,
};
use crate::persistence::{ProjectModel, StoredProject, StoredThread, ThreadModel};
use crate::text;
use crate::text::{has_part, parts_are_held};
use crate::theme::{theme_colors, tokens, ThemeColors};
use crate::views::{opt_view, views, views_index, views_push};

verus! {

/// A thread in the sidebar.
#[derive(Debug, PartialEq, Eq)]
pub struct ThreadRow {
    pub id: String,
    pub title: String,
    pub active: bool,
    /// Whether its name is being written over: then it is no control.
    pub renaming: bool,
    pub background: u32,
    pub border: u32,
    pub session: String,
    pub switch: UiAction,
    pub rename: Control,
}

/// The value of a `ThreadRow`.
#[verifier::ext_equal]
pub struct ThreadRowModel {
    pub id: Seq<char>,
    pub title: Seq<char>,
    pub active: bool,
    pub renaming: bool,
    pub background: u32,
    pub border: u32,
    pub session: Seq<char>,
    pub switch: UiActionModel,
    pub rename: ControlModel,
}

impl View for ThreadRow {
    type V = ThreadRowModel;

    open spec fn view(&self) -> ThreadRowModel {
        ThreadRowModel {
            id: self.id@,
            title: self.title@,
            active: self.active,
            renaming: self.renaming,
            background: self.background,
            border: self.border,
            session: self.session@,
            switch: self.switch@,
            rename: self.rename@,
        }
    }
}

/// The first characters of the id of a session, or that there is none yet.
pub open spec fn session_label(provider_thread_id: Option<Seq<char>>) -> Seq<char> {
    "session "@ + (match provider_thread_id {
        Some(id) => id.take(
            if id.len() < 8 {
                id.len() as int
            } else {
                8
            },
        ),
        None => "not started"@,
    })
}

/// See [`session_label`].
pub fn label_session(provider_thread_id: &Option<String>) -> (r: String)
    ensures
        r@ == session_label(opt_view(*provider_thread_id)),
{
    match provider_thread_id {
        Some(id) => {
            let chars = text::chars(id.as_str());
            let shown: usize = if chars.len() < 8 {
                chars.len()
            } else {
                8
            };
            let short = text::slice(&chars, 0, shown);
            assert(short@ =~= id@.take(shown as int));
            text::concat("session ", short.as_str())
        },
        None => text::concat("session ", "not started"),
    }
}

/// The colours of a small control beside a name.
pub open spec fn beside(background: u32, hover: u32, colors: ThemeColors) -> Paint {
    Paint { background, hover, foreground: colors.muted_text }
}

/// A thread in the sidebar.
pub open spec fn thread_row(t: ThreadModel, a: AppModel) -> ThreadRowModel {
    let colors = theme_colors(a.surface.theme);
    let active = t.id == a.thread.id;
    let background = if active {
        colors.overlay
    } else {
        colors.panel
    };
    ThreadRowModel {
        id: t.id,
        title: t.title,
        active,
        renaming: a.renaming.target == Some(TargetModel::Thread(t.id)),
        background,
        border: if active {
            colors.accent_hover
        } else {
            colors.border
        },
        session: session_label(t.provider_thread_id),
        switch: UiActionModel::SwitchThread(t.id),
        rename: painted_control(
            "✎"@,
            "Rename thread "@ + t.title,
            beside(background, colors.strong_border, colors),
            UiActionModel::RenameThread(t.id),
        ),
    }
}

/// The threads of a project in the sidebar.
pub open spec fn thread_rows(threads: Seq<ThreadModel>, path: Seq<char>, a: AppModel) -> Seq<ThreadRowModel>
    decreases threads.len(),
{
    if threads.len() == 0 {
        Seq::empty()
    } else {
        let before = thread_rows(threads.drop_last(), path, a);
        if threads.last().project_path == path {
            before.push(thread_row(threads.last(), a))
        } else {
            before
        }
    }
}

/// A project in the sidebar.
#[derive(Debug, PartialEq, Eq)]
pub struct ProjectGroup {
    pub name: String,
    pub path: String,
    pub active: bool,
    pub renaming: bool,
    pub background: u32,
    pub border: u32,
    pub new_thread: Control,
    pub rename: Control,
    pub threads: Vec<ThreadRow>,
}

/// The value of a `ProjectGroup`.
#[verifier::ext_equal]
pub struct GroupModel {
    pub name: Seq<char>,
    pub path: Seq<char>,
    pub active: bool,
    pub renaming: bool,
    pub background: u32,
    pub border: u32,
    pub new_thread: ControlModel,
    pub rename: ControlModel,
    pub threads: Seq<ThreadRowModel>,
}

impl View for ProjectGroup {
    type V = GroupModel;

    open spec fn view(&self) -> GroupModel {
        GroupModel {
            name: self.name@,
            path: self.path@,
            active: self.active,
            renaming: self.renaming,
            background: self.background,
            border: self.border,
            new_thread: self.new_thread@,
            rename: self.rename@,
            threads: views(self.threads@),
        }
    }
}

/// A project in the sidebar.
pub open spec fn project_group(p: ProjectModel, a: AppModel) -> GroupModel {
    let colors = theme_colors(a.surface.theme);
    let active = p.path == a.project.root;
    let background = if active {
        colors.raised
    } else {
        colors.chrome
    };
    GroupModel {
        name: p.name,
        path: p.path,
        active,
        renaming: a.renaming.target == Some(TargetModel::Project(p.path)),
        background,
        border: if active {
            colors.strong_border
        } else {
            colors.border
        },
        new_thread: painted_control(
            "+"@,
            "New thread in "@ + p.name,
            beside(background, colors.overlay, colors),
            UiActionModel::NewThreadIn { path: p.path, name: p.name },
        ),
        rename: painted_control(
            "✎"@,
            "Rename project "@ + p.name,
            beside(background, colors.overlay, colors),
            UiActionModel::RenameProject(p.path),
        ),
        threads: thread_rows(a.known.threads, p.path, a),
    }
}

/// The agent in the sidebar: a colour and a few words.
pub open spec fn agent_status(auth: AuthModel, colors: ThemeColors) -> (u32, Seq<char>) {
    match auth {
        AuthModel::Unavailable => (colors.faint_text, "Codex · missing"@),
        AuthModel::Checking => (colors.warning, "Codex · checking account"@),
        AuthModel::SignedOut => (colors.warning, "Codex · sign in required"@),
        AuthModel::SignedIn(account) => (colors.success, "Codex · "@ + account_summary(account)),
        AuthModel::SigningIn => (colors.info, "Codex · waiting for browser"@),
        AuthModel::BrowserPending { .. } => (colors.info, "Codex · waiting for browser"@),
        AuthModel::Cancelling => (colors.warning, "Codex · cancelling sign-in"@),
        AuthModel::Error(_) => (colors.error, "Codex · authentication error"@),
    }
}

/// See [`agent_status`].
fn status_of(auth: &CodexAuthState, colors: ThemeColors) -> (r: (u32, String))
    ensures
        (r.0, r.1@) == agent_status(auth@, colors),
{
    match auth {
        CodexAuthState::Unavailable => (colors.faint_text, "Codex · missing".to_owned()),
        CodexAuthState::Checking => (colors.warning, "Codex · checking account".to_owned()),
        CodexAuthState::SignedOut => (colors.warning, "Codex · sign in required".to_owned()),
        CodexAuthState::SignedIn(account) => {
            let summary = account.summary();
            (colors.success, text::concat("Codex · ", summary.as_str()))
        },
        CodexAuthState::SigningIn => (colors.info, "Codex · waiting for browser".to_owned()),
        CodexAuthState::BrowserPending { .. } => (
            colors.info,
            "Codex · waiting for browser".to_owned(),
        ),
        CodexAuthState::Cancelling => (colors.warning, "Codex · cancelling sign-in".to_owned()),
        CodexAuthState::Error(_) => (colors.error, "Codex · authentication error".to_owned()),
    }
}

/// What can be done about the account in the sidebar.
pub open spec fn agent_controls(auth: AuthModel, colors: ThemeColors) -> Seq<ControlModel> {
    match auth {
        AuthModel::SignedOut => seq![
            painted_control(
                "Sign in with ChatGPT"@,
                "Sign in to OpenAI with ChatGPT"@,
                forward(colors),
                UiActionModel::SignIn,
            ),
        ],
        AuthModel::Error(_) => seq![
            painted_control(
                "Retry account check"@,
                "Retry Codex account check"@,
                aside(colors),
                UiActionModel::RetryAccount,
            ),
        ],
        _ => Seq::empty(),
    }
}

/// See [`agent_controls`].
fn controls_of(auth: &CodexAuthState, colors: ThemeColors) -> (r: Vec<Control>)
    ensures
        views(r@) == agent_controls(auth@, colors),
{
    match auth {
        CodexAuthState::SignedOut => only(
            control(
                "Sign in with ChatGPT",
                "Sign in to OpenAI with ChatGPT",
                forward_paint(colors),
                UiAction::SignIn,
            ),
        ),
        CodexAuthState::Error(_) => only(
            control(
                "Retry account check",
                "Retry Codex account check",
                aside_paint(colors),
                UiAction::RetryAccount,
            ),
        ),
        _ => none(),
    }
}

/// What the sidebar says of new threads.
#[derive(Debug, PartialEq, Eq)]
pub struct IsolationPanel {
    pub text: String,
    pub toggle: Control,
}

/// The value of an `IsolationPanel`.
#[verifier::ext_equal]
pub struct IsolationModel {
    pub text: Seq<char>,
    pub toggle: ControlModel,
}

impl View for IsolationPanel {
    type V = IsolationModel;

    open spec fn view(&self) -> IsolationModel {
        IsolationModel { text: self.text@, toggle: self.toggle@ }
    }
}

/// What the sidebar says of new threads.
pub open spec fn isolation_panel(isolate: bool, colors: ThemeColors) -> IsolationModel {
    IsolationModel {
        text: if isolate {
            "Each new thread gets an isolated Git worktree."@
        } else {
            "New threads use the selected project folder."@
        },
        toggle: painted_control(
            if isolate {
                "Isolated worktree: On"@
            } else {
                "Isolated worktree: Off"@
            },
            "Toggle isolated worktrees for new threads"@,
            Paint {
                background: if isolate {
                    colors.accent
                } else {
                    colors.overlay
                },
                hover: colors.accent_hover,
                foreground: colors.text,
            },
            UiActionModel::ToggleIsolation,
        ),
    }
}

/// See [`isolation_panel`].
fn panel_of(isolate: bool, colors: ThemeColors) -> (r: IsolationPanel)
    ensures
        r@ == isolation_panel(isolate, colors),
{
    IsolationPanel {
        text: (if isolate {
            "Each new thread gets an isolated Git worktree."
        } else {
            "New threads use the selected project folder."
        }).to_owned(),
        toggle: control(
            if isolate {
                "Isolated worktree: On"
            } else {
                "Isolated worktree: Off"
            },
            "Toggle isolated worktrees for new threads",
            Paint {
                background: if isolate {
                    colors.accent
                } else {
                    colors.overlay
                },
                hover: colors.accent_hover,
                foreground: colors.text,
            },
            UiAction::ToggleIsolation,
        ),
    }
}

/// The sidebar.
#[derive(Debug, PartialEq, Eq)]
pub struct Sidebar {
    pub create: Control,
    /// The menu with what can be created; nothing where it is not shown.
    pub create_menu: Vec<Control>,
    pub projects: Vec<ProjectGroup>,
    pub settings: Control,
    pub isolation: Option<IsolationPanel>,
    pub agent_color: u32,
    pub agent_label: String,
    pub agent_error: Option<String>,
    pub agent_controls: Vec<Control>,
}

/// The value of a `Sidebar`.
#[verifier::ext_equal]
pub struct SidebarModel {
    pub create: ControlModel,
    pub create_menu: Seq<ControlModel>,
    pub projects: Seq<GroupModel>,
    pub settings: ControlModel,
    pub isolation: Option<IsolationModel>,
    pub agent_color: u32,
    pub agent_label: Seq<char>,
    pub agent_error: Option<Seq<char>>,
    pub agent_controls: Seq<ControlModel>,
}

impl View for Sidebar {
    type V = SidebarModel;

    open spec fn view(&self) -> SidebarModel {
        SidebarModel {
            create: self.create@,
            create_menu: views(self.create_menu@),
            projects: views(self.projects@),
            settings: self.settings@,
            isolation: opt_view(self.isolation),
            agent_color: self.agent_color,
            agent_label: self.agent_label@,
            agent_error: opt_view(self.agent_error),
            agent_controls: views(self.agent_controls@),
        }
    }
}

/// The projects that are known, in the sidebar.
pub open spec fn project_groups(a: AppModel) -> Seq<GroupModel> {
    Seq::new(a.known.projects.len(), |i: int| project_group(a.known.projects[i], a))
}

/// The sidebar.
pub open spec fn sidebar_of(a: AppModel) -> SidebarModel {
    let theme = a.surface.theme;
    let colors = theme_colors(theme);
    SidebarModel {
        create: painted_control(
            "+"@,
            "Create thread or add project folder"@,
            Paint {
                background: colors.overlay,
                hover: colors.strong_border,
                foreground: colors.text,
            },
            UiActionModel::ToggleCreateMenu,
        ),
        create_menu: if a.surface.show_create_menu {
            seq![
                row_of("New thread"@, false, false, theme, UiActionModel::NewThread),
                row_of("Add project folder…"@, false, false, theme, UiActionModel::AddFolder),
            ]
        } else {
            Seq::empty()
        },
        projects: project_groups(a),
        settings: painted_control(
            if a.surface.show_settings {
                "Settings ▴"@
            } else {
                "Settings ▾"@
            },
            "Open Rode settings"@,
            Paint {
                background: colors.root,
                hover: colors.overlay,
                foreground: colors.muted_text,
            },
            UiActionModel::ToggleSettings,
        ),
        isolation: if a.surface.show_settings {
            Some(isolation_panel(a.known.isolate_new_threads, colors))
        } else {
            None
        },
        agent_color: agent_status(a.account.auth, colors).0,
        agent_label: agent_status(a.account.auth, colors).1,
        agent_error: auth_error(a.account.auth),
        agent_controls: agent_controls(a.account.auth, colors),
    }
}

impl RodeApp {
    /// Whether the thread with an id is being renamed.
    fn renames_thread(&self, id: &str) -> (r: bool)
        ensures
            r == (self@.renaming.target == Some(TargetModel::Thread(id@))),
    {
        match &self.renaming.target {
            Some(RenameTarget::Thread(target)) => text::same(target.as_str(), id),
            _ => false,
        }
    }

    /// Whether the project at a path is being renamed.
    fn renames_project(&self, path: &str) -> (r: bool)
        ensures
            r == (self@.renaming.target == Some(TargetModel::Project(path@))),
    {
        match &self.renaming.target {
            Some(RenameTarget::Project(target)) => text::same(target.as_str(), path),
            _ => false,
        }
    }

    /// See [`thread_row`].
    fn render_thread_row(&self, t: &StoredThread) -> (r: ThreadRow)
        ensures
            r@ == thread_row(t@, self@),
    {
        let colors = tokens(self.surface.theme).colors;
        let active = text::same(t.id.as_str(), self.thread.id.as_str());
        let background: u32 = if active {
            colors.overlay
        } else {
            colors.panel
        };
        let description = text::concat("Rename thread ", t.title.as_str());
        ThreadRow {
            id: t.id.clone(),
            title: t.title.clone(),
            active,
            renaming: self.renames_thread(t.id.as_str()),
            background,
            border: if active {
                colors.accent_hover
            } else {
                colors.border
            },
            session: label_session(&t.provider_thread_id),
            switch: UiAction::SwitchThread(t.id.clone()),
            rename: control(
                "✎",
                description.as_str(),
                Paint {
                    background,
                    hover: colors.strong_border,
                    foreground: colors.muted_text,
                },
                UiAction::RenameThread(t.id.clone()),
            ),
        }
    }

    /// See [`thread_rows`].
    fn render_thread_rows(&self, path: &str) -> (r: Vec<ThreadRow>)
        ensures
            views(r@) == thread_rows(self@.known.threads, path@, self@),
    {
        broadcast use {views_push, views_index};

        let ghost all = self@.known.threads;
        let mut r: Vec<ThreadRow> = Vec::new();
        let mut i: usize = 0;
        assert(views(r@) =~= thread_rows(all.take(0), path@, self@));
        while i < self.known.threads.len()
            invariant
                all == views(self.known.threads@),
                i <= self.known.threads.len(),
                views(r@) == thread_rows(all.take(i as int), path@, self@),
            decreases self.known.threads.len() - i,
        {
            assert(all.take(i + 1).drop_last() =~= all.take(i as int));
            assert(all.take(i + 1).last() == all[i as int]);
            let thread = &self.known.threads[i];
            if text::same(thread.project_path.as_str(), path) {
                let ghost so_far = views(r@);
                let row = self.render_thread_row(thread);
                r.push(row);
                assert(views(r@) == so_far.push(row@));
            }
            i = i + 1;
        }
        assert(all.take(i as int) =~= all);
        r
    }

    /// See [`project_group`].
    pub fn render_project_group(&self, project: &StoredProject) -> (r: ProjectGroup)
        ensures
            r@ == project_group(project@, self@),
    {
        let colors = tokens(self.surface.theme).colors;
        let active = text::same(project.path.as_str(), self.project.root.as_str());
        let background: u32 = if active {
            colors.raised
        } else {
            colors.chrome
        };
        let paint = Paint { background, hover: colors.overlay, foreground: colors.muted_text };
        let create = text::concat("New thread in ", project.name.as_str());
        let rename = text::concat("Rename project ", project.name.as_str());
        ProjectGroup {
            name: project.name.clone(),
            path: project.path.clone(),
            active,
            renaming: self.renames_project(project.path.as_str()),
            background,
            border: if active {
                colors.strong_border
            } else {
                colors.border
            },
            new_thread: control(
                "+",
                create.as_str(),
                paint,
                UiAction::NewThreadIn { path: project.path.clone(), name: project.name.clone() },
            ),
            rename: control(
                "✎",
                rename.as_str(),
                paint,
                UiAction::RenameProject(project.path.clone()),
            ),
            threads: self.render_thread_rows(project.path.as_str()),
        }
    }

    /// See [`project_groups`].
    fn render_project_groups(&self) -> (r: Vec<ProjectGroup>)
        ensures
            views(r@) == project_groups(self@),
    {
        broadcast use {views_push, views_index};

        let ghost all = project_groups(self@);
        let mut r: Vec<ProjectGroup> = Vec::new();
        let mut i: usize = 0;
        assert(views(r@) =~= all.take(0));
        while i < self.known.projects.len()
            invariant
                all == project_groups(self@),
                i <= self.known.projects.len(),
                views(r@) == all.take(i as int),
            decreases self.known.projects.len() - i,
        {
            let ghost so_far = views(r@);
            let group = self.render_project_group(&self.known.projects[i]);
            r.push(group);
            assert(views(r@) == so_far.push(group@));
            assert(all[i as int] == group@);
            assert(views(r@) =~= all.take(i + 1));
            i = i + 1;
        }
        assert(all.take(i as int) =~= all);
        r
    }

    /// See [`sidebar_of`].
    pub fn render_sidebar(&self) -> (r: Sidebar)
        ensures
            r@ == sidebar_of(self@),
    {
        let theme = self.surface.theme;
        let colors = tokens(theme).colors;
        let (agent_color, agent_label) = status_of(&self.account.auth, colors);
        Sidebar {
            create: control(
                "+",
                "Create thread or add project folder",
                Paint {
                    background: colors.overlay,
                    hover: colors.strong_border,
                    foreground: colors.text,
                },
                UiAction::ToggleCreateMenu,
            ),
            create_menu: if self.surface.show_create_menu {
                both(
                    selectable_row("New thread", false, false, theme, UiAction::NewThread),
                    selectable_row("Add project folder…", false, false, theme, UiAction::AddFolder),
                )
            } else {
                none()
            },
            projects: self.render_project_groups(),
            settings: control(
                if self.surface.show_settings {
                    "Settings ▴"
                } else {
                    "Settings ▾"
                },
                "Open Rode settings",
                Paint {
                    background: colors.root,
                    hover: colors.overlay,
                    foreground: colors.muted_text,
                },
                UiAction::ToggleSettings,
            ),
            isolation: if self.surface.show_settings {
                Some(panel_of(self.known.isolate_new_threads, colors))
            } else {
                None
            },
            agent_color,
            agent_label,
            agent_error: error_of(&self.account.auth),
            agent_controls: controls_of(&self.account.auth, colors),
        }
    }
}

/// Each row of a project is one of its threads, and leads to it.
pub proof fn rows_lead_to_their_threads(threads: Seq<ThreadModel>, path: Seq<char>, a: AppModel, k: int)
    requires
        0 <= k < thread_rows(threads, path, a).len(),
    ensures
        exists|i: int|
            0 <= i < threads.len() && (#[trigger] threads[i]).project_path == path && thread_rows(
                threads,
                path,
                a,
            )[k] == thread_row(threads[i], a) && thread_rows(threads, path, a)[k].switch
                == UiActionModel::SwitchThread(threads[i].id),
    decreases threads.len(),
{
    let fewer = threads.drop_last();
    if k < thread_rows(fewer, path, a).len() {
        rows_lead_to_their_threads(fewer, path, a, k);
        let i = choose|i: int|
            0 <= i < fewer.len() && (#[trigger] fewer[i]).project_path == path && thread_rows(
                fewer,
                path,
                a,
            )[k] == thread_row(fewer[i], a) && thread_rows(fewer, path, a)[k].switch
                == UiActionModel::SwitchThread(fewer[i].id);
        assert(threads[i] == fewer[i]);
    } else {
        assert(threads[threads.len() - 1] == threads.last());
    }
}

/// Every thread of a project has a row.
pub proof fn threads_have_rows(threads: Seq<ThreadModel>, path: Seq<char>, a: AppModel, i: int)
    requires
        0 <= i < threads.len(),
        threads[i].project_path == path,
    ensures
        thread_rows(threads, path, a).contains(thread_row(threads[i], a)),
    decreases threads.len(),
{
    let fewer = threads.drop_last();
    let rows = thread_rows(threads, path, a);
    if i < fewer.len() {
        threads_have_rows(fewer, path, a, i);
        let before = thread_rows(fewer, path, a);
        let k = choose|k: int| 0 <= k < before.len() && before[k] == thread_row(threads[i], a);
        assert(rows[k] == thread_row(threads[i], a));
    } else {
        assert(rows.last() == thread_row(threads[i], a));
        assert(rows[rows.len() - 1] == thread_row(threads[i], a));
    }
}

/// The sidebar shows each project that is known, under its name; its controls act on that project
/// and on no other, and the one that is open is marked.
pub proof fn every_known_project_is_shown(a: AppModel, i: int)
    requires
        0 <= i < a.known.projects.len(),
    ensures
        sidebar_of(a).projects.len() == a.known.projects.len(),
        ({
            let p = a.known.projects[i];
            let group = sidebar_of(a).projects[i];
            &&& group.name == p.name
            &&& group.path == p.path
            &&& group.active <==> p.path == a.project.root
            &&& group.renaming <==> a.renaming.target == Some(TargetModel::Project(p.path))
            &&& group.new_thread.action == (UiActionModel::NewThreadIn { path: p.path, name: p.name })
            &&& group.rename.action == UiActionModel::RenameProject(p.path)
            &&& group.new_thread.enabled && group.rename.enabled
            &&& group.threads.len() == a.known.threads.filter(
                |t: ThreadModel| t.project_path == p.path,
            ).len()
        }),
{
    let path = a.known.projects[i].path;
    rows_are_as_many_as_threads(a.known.threads, path, a);
}

proof fn rows_are_as_many_as_threads(threads: Seq<ThreadModel>, path: Seq<char>, a: AppModel)
    ensures
        thread_rows(threads, path, a).len() == threads.filter(
            |t: ThreadModel| t.project_path == path,
        ).len(),
    decreases threads.len(),
{
    reveal(Seq::filter);
    if threads.len() > 0 {
        rows_are_as_many_as_threads(threads.drop_last(), path, a);
    }
}

/// A thread is shown under its title, with the start of its session, and marked where it is the
/// one that is shown; its controls act on that thread.
pub proof fn threads_are_shown_as_they_are(t: ThreadModel, a: AppModel, id: Seq<char>)
    ensures
        ({
            let row = thread_row(t, a);
            &&& row.id == t.id
            &&& row.title == t.title
            &&& row.active <==> t.id == a.thread.id
            &&& row.renaming <==> a.renaming.target == Some(TargetModel::Thread(t.id))
            &&& row.switch == UiActionModel::SwitchThread(t.id)
            &&& row.rename.action == UiActionModel::RenameThread(t.id)
            &&& row.rename.enabled
            &&& t.provider_thread_id == Some(id) && id.len() <= 8 ==> has_part(row.session, id)
            &&& t.provider_thread_id == Some(id) && id.len() > 8 ==> has_part(
                row.session,
                id.take(8),
            )
            &&& t.provider_thread_id is None ==> has_part(row.session, "not started"@)
        }),
{
    let none = Seq::<char>::empty();
    let before = "session "@;
    assert(id.len() <= 8 ==> id.take(id.len() as int) =~= id);
    assert(before + id + none =~= before + id);
    parts_are_held(before, id, none);
    assert(before + id.take(8) + none =~= before + id.take(8));
    parts_are_held(before, id.take(8), none);
    assert(before + "not started"@ + none =~= before + "not started"@);
    parts_are_held(before, "not started"@, none);
}

/// The menus are shown where they were asked for, with what they are for; the account is shown
/// with what it is, and with the way on where there is one.
pub proof fn the_sidebar_offers_the_way_on(a: AppModel)
    ensures
        ({
            let s = sidebar_of(a);
            &&& s.create.action is ToggleCreateMenu
            &&& s.settings.action is ToggleSettings
            &&& a.surface.show_create_menu ==> s.create_menu.len() == 2
                && s.create_menu[0].action is NewThread && s.create_menu[1].action is AddFolder
                && s.create_menu[0].enabled && s.create_menu[1].enabled
            &&& !a.surface.show_create_menu ==> s.create_menu.len() == 0
            &&& s.isolation is Some <==> a.surface.show_settings
            &&& s.isolation matches Some(panel) ==> panel.toggle.action is ToggleIsolation
            &&& a.account.auth matches AuthModel::SignedIn(account) ==> has_part(
                s.agent_label,
                account_summary(account),
            ) && s.agent_controls.len() == 0
            &&& a.account.auth is SignedOut ==> s.agent_controls.len() == 1
                && s.agent_controls[0].action is SignIn
            &&& a.account.auth is Error ==> s.agent_controls.len() == 1
                && s.agent_controls[0].action is RetryAccount
            &&& a.account.auth matches AuthModel::Error(error) ==> s.agent_error == Some(error)
            &&& !(a.account.auth is Error) ==> s.agent_error is None
        }),
{
    if let AuthModel::SignedIn(account) = a.account.auth {
        let none = Seq::<char>::empty();
        let before = "Codex · "@;
        assert(before + account_summary(account) + none =~= before + account_summary(account));
        parts_are_held(before, account_summary(account), none);
    }
}

} // verus!
