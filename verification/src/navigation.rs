//! Going from one surface of the application to another, and what is shown beside it.
use vstd::prelude::*;
use vstd::string::*;

use crate::app::{
    followed_by, noticed, nothing, one, said, saving, AppModel, Effect, EffectModel, FocusTarget,
    KnownModel, MessageRole, OpenModel, RodeApp, SurfaceModel,
};
use crate::diff::DiffViewMode;
use crate::routes::{needs_project, route_label, route_name, AppRoute, SettingsSection};
use crate::snapshot::{RepoSnapshot, SnapshotModel};
use crate::text;
use crate::text::{has_part, parts_are_held};
use crate::theme::{theme_after, theme_name, ThemeKind};
use crate::toast::{announced, ToastKind};
use crate::views::{views, views_push};

verus! {

/// Whether the thread that is shown has a terminal.
pub open spec fn has_terminal(a: AppModel) -> bool {
    a.surface.terminal_sessions.contains(a.thread.id)
}

/// What is done to have a terminal: one is started, where the thread has none and its workspace
/// is there.
pub open spec fn terminal_wanted(a: AppModel) -> Seq<EffectModel> {
    if a.thread.creating_worktree || has_terminal(a) {
        Seq::empty()
    } else {
        seq![EffectModel::StartTerminal { cwd: a.project.path }]
    }
}

/// What is done to write to the terminal.
pub open spec fn terminal_focused(a: AppModel) -> Seq<EffectModel> {
    if has_terminal(a) {
        seq![EffectModel::Focus(FocusTarget::Terminal)]
    } else {
        Seq::empty()
    }
}

/// What is shown on a surface that was just come to: what lay over the last one is put away.
pub open spec fn surfaced(s: SurfaceModel, route: AppRoute) -> SurfaceModel {
    SurfaceModel {
        route,
        last_authenticated_route: route,
        show_create_menu: false,
        show_settings: false,
        modal: None,
        ..s
    }
}

pub open spec fn provided(condition: bool, effect: EffectModel) -> Seq<EffectModel> {
    if condition {
        seq![effect]
    } else {
        Seq::empty()
    }
}

/// See [`provided`].
pub fn only_if(condition: bool, effect: Effect) -> (r: Vec<Effect>)
    ensures
        views(r@) == provided(condition, effect@),
{
    if condition {
        one(effect)
    } else {
        nothing()
    }
}

/// The application after the user asked for a surface, and what is done. Without an account only
/// the sign-in shows; without a repository nothing that needs one does.
pub open spec fn navigated(a: AppModel, route: AppRoute) -> (AppModel, Seq<EffectModel>) {
    if !(a.account.auth is SignedIn) {
        (
            AppModel { surface: SurfaceModel { route: AppRoute::Login, ..a.surface }, ..a },
            Seq::empty(),
        )
    } else if needs_project(route) && !a.project.repo.is_repository {
        (
            noticed(a, ToastKind::Warning, route_label(route) + " requires an open Git project."@),
            Seq::empty(),
        )
    } else {
        let b = AppModel { surface: surfaced(a.surface, route), ..a };
        (b, arrival(b))
    }
}

/// What is done on a surface that was just come to.
pub open spec fn arrival(a: AppModel) -> Seq<EffectModel> {
    let save = provided(a.known.has_store, EffectModel::SaveRoute(route_name(a.surface.route)));
    match a.surface.route {
        AppRoute::Workspace => save + seq![EffectModel::Focus(FocusTarget::Composer)],
        AppRoute::Terminal => save + (terminal_wanted(a) + terminal_focused(a)),
        _ => save,
    }
}

/// The surfaces behind the sign-in, and those that need a repository, are shown to no one else.
pub proof fn surfaces_are_guarded(a: AppModel, route: AppRoute)
    ensures
        ({
            let shown = navigated(a, route).0.surface.route;
            &&& !(a.account.auth is SignedIn) ==> shown is Login
            &&& needs_project(route) && !a.project.repo.is_repository ==> shown == a.surface.route
                || shown is Login
            &&& a.account.auth is SignedIn && (needs_project(route)
                ==> a.project.repo.is_repository) ==> shown == route
        }),
{
}

/// A setting that was to be kept.
#[derive(Clone, Copy, Debug, PartialEq, Eq, Structural)]
pub enum KeptSetting {
    Route,
    Section,
    Theme,
    PanelWidths,
    Isolation,
}

/// The application after a setting could not be kept.
pub open spec fn setting_lost(a: AppModel, setting: KeptSetting, error: Seq<char>) -> AppModel {
    match setting {
        KeptSetting::Route => noticed(
            a,
            ToastKind::Error,
            "Could not save the selected route: "@ + error,
        ),
        KeptSetting::Section => noticed(
            a,
            ToastKind::Error,
            "Could not save the settings section: "@ + error,
        ),
        KeptSetting::Theme => noticed(
            a,
            ToastKind::Error,
            "Could not save the selected theme: "@ + error,
        ),
        KeptSetting::PanelWidths => noticed(
            a,
            ToastKind::Error,
            "Could not save panel widths: "@ + error,
        ),
        KeptSetting::Isolation => said(
            a,
            MessageRole::System,
            "Could not save the thread isolation setting: "@ + error,
        ),
    }
}

/// The application in another theme, and what is done.
pub open spec fn themed(a: AppModel, theme: ThemeKind) -> (AppModel, Seq<EffectModel>) {
    if a.surface.theme == theme {
        (a, Seq::empty())
    } else {
        (
            AppModel { surface: SurfaceModel { theme, ..a.surface }, ..a },
            seq![EffectModel::ThemeTerminals(theme)] + provided(
                a.known.has_store,
                EffectModel::SaveTheme(theme_name(theme)),
            ),
        )
    }
}

/// The application with the terminal shown or not, and what is done.
pub open spec fn terminal_toggled(a: AppModel) -> (AppModel, Seq<EffectModel>) {
    let b = AppModel {
        surface: SurfaceModel { show_terminal: !a.surface.show_terminal, ..a.surface },
        ..a
    };
    if b.surface.show_terminal {
        (b, terminal_wanted(b) + terminal_focused(b))
    } else {
        (b, seq![EffectModel::Focus(FocusTarget::Composer)])
    }
}

pub open spec fn other_view(mode: DiffViewMode) -> DiffViewMode {
    match mode {
        DiffViewMode::Stack => DiffViewMode::Split,
        DiffViewMode::Split => DiffViewMode::Stack,
    }
}

/// The application with a terminal for the thread that is shown.
pub open spec fn with_terminal(a: AppModel) -> AppModel {
    AppModel {
        surface: SurfaceModel {
            terminal_sessions: a.surface.terminal_sessions.push(a.thread.id),
            ..a.surface
        },
        ..a
    }
}

/// The application after the thread that is shown got no terminal.
pub open spec fn without_terminal(a: AppModel, error: Seq<char>) -> AppModel {
    said(
        AppModel { surface: SurfaceModel { show_terminal: false, ..a.surface }, ..a },
        MessageRole::System,
        "Could not start the native terminal: "@ + error,
    )
}

/// The application in a section of the settings, and what is done.
pub open spec fn section_shown(a: AppModel, section: SettingsSection) -> (
    AppModel,
    Seq<EffectModel>,
) {
    (
        AppModel {
            surface: SurfaceModel {
                route: AppRoute::Settings(section),
                last_authenticated_route: AppRoute::Settings(section),
                ..a.surface
            },
            ..a
        },
        provided(
            a.known.has_store,
            EffectModel::SaveSettingsSection(route_name(AppRoute::Settings(section))),
        ),
    )
}

/// The application with new threads kept apart or not, and what is done.
pub open spec fn isolation_toggled(a: AppModel) -> (AppModel, Seq<EffectModel>) {
    let on = !a.known.isolate_new_threads;
    (
        AppModel { known: KnownModel { isolate_new_threads: on, ..a.known }, ..a },
        provided(a.known.has_store, EffectModel::SaveIsolation(on)),
    )
}

/// The application after the terminal was put away, and what is done.
pub open spec fn terminal_closed(a: AppModel) -> (AppModel, Seq<EffectModel>) {
    if a.surface.route == AppRoute::Terminal {
        navigated(a, AppRoute::Workspace)
    } else {
        terminal_toggled(a)
    }
}

/// The application with the changes shown or not.
pub open spec fn diff_toggled(a: AppModel) -> AppModel {
    AppModel {
        surface: SurfaceModel { show_diff: !a.surface.show_diff, ..a.surface },
        ..a
    }
}

/// The application with the changes shown the other way.
pub open spec fn layout_toggled(a: AppModel) -> AppModel {
    AppModel {
        surface: SurfaceModel { diff_view: other_view(a.surface.diff_view), ..a.surface },
        ..a
    }
}

/// The application with the menu for new things shown or not.
pub open spec fn menu_toggled(a: AppModel) -> AppModel {
    AppModel {
        surface: SurfaceModel {
            show_create_menu: !a.surface.show_create_menu,
            show_settings: false,
            ..a.surface
        },
        ..a
    }
}

/// The application with the settings shown or not.
pub open spec fn settings_toggled(a: AppModel) -> AppModel {
    AppModel {
        surface: SurfaceModel {
            show_settings: !a.surface.show_settings,
            show_create_menu: false,
            ..a.surface
        },
        ..a
    }
}

/// The application with what the repository is like now.
pub open spec fn refreshed(a: AppModel, repo: SnapshotModel) -> AppModel {
    AppModel { project: OpenModel { repo, ..a.project }, ..a }
}

impl RodeApp {
    /// See [`has_terminal`].
    pub fn terminal_here(&self) -> (r: bool)
        ensures
            r == has_terminal(self@),
    {
        text::among(&self.surface.terminal_sessions, self.thread.id.as_str())
    }

    /// See [`terminal_wanted`].
    pub fn ensure_terminal(&self) -> (r: Vec<Effect>)
        ensures
            views(r@) == terminal_wanted(self@),
    {
        if self.thread.creating_worktree || self.terminal_here() {
            nothing()
        } else {
            one(Effect::StartTerminal { cwd: self.project.path.clone() })
        }
    }

    /// See [`terminal_focused`].
    fn focus_terminal(&self) -> (r: Vec<Effect>)
        ensures
            views(r@) == terminal_focused(self@),
    {
        only_if(self.terminal_here(), Effect::Focus(FocusTarget::Terminal))
    }

    /// Takes note that the thread that is shown has a terminal now, and writes to it.
    pub fn terminal_started(&mut self) -> (r: Vec<Effect>)
        ensures
            final(self)@ == with_terminal(old(self)@),
            final(self)@ == (AppModel {
                surface: SurfaceModel {
                    terminal_sessions: old(self)@.surface.terminal_sessions.push(
                        old(self)@.thread.id,
                    ),
                    ..old(self)@.surface
                },
                ..old(self)@
            }),
            views(r@) == seq![EffectModel::Focus(FocusTarget::Terminal)],
    {
        broadcast use views_push;

        self.surface.terminal_sessions.push(self.thread.id.clone());
        one(Effect::Focus(FocusTarget::Terminal))
    }

    /// Says why the thread that is shown has no terminal.
    pub fn terminal_failed(&mut self, error: &str) -> (r: Vec<Effect>)
        ensures
            final(self)@ == without_terminal(old(self)@, error@),
            final(self)@ == said(
                AppModel {
                    surface: SurfaceModel { show_terminal: false, ..old(self)@.surface },
                    ..old(self)@
                },
                MessageRole::System,
                "Could not start the native terminal: "@ + error@,
            ),
            views(r@) == saving(final(self)@),
    {
        self.surface.show_terminal = false;
        self.thread.say(
            MessageRole::System,
            text::concat("Could not start the native terminal: ", error),
        );
        self.persist_current_thread()
    }

    /// See [`arrival`].
    fn arrive(&self) -> (r: Vec<Effect>)
        ensures
            views(r@) == arrival(self@),
    {
        let save = only_if(
            self.known.has_store,
            Effect::SaveRoute(self.surface.route.storage_name().to_owned()),
        );
        match self.surface.route {
            AppRoute::Workspace => followed_by(save, one(Effect::Focus(FocusTarget::Composer))),
            AppRoute::Terminal => followed_by(
                save,
                followed_by(self.ensure_terminal(), self.focus_terminal()),
            ),
            _ => save,
        }
    }

    /// See [`navigated`].
    pub fn navigate_to(&mut self, route: AppRoute) -> (r: Vec<Effect>)
        requires
            old(self).wf(),
        ensures
            final(self)@ == navigated(old(self)@, route).0,
            views(r@) == navigated(old(self)@, route).1,
            final(self).wf(),
    {
        if self.account.auth.requires_onboarding() {
            self.surface.route = AppRoute::Login;
            return nothing();
        }
        if route.requires_project() && !self.project.repo.is_repository {
            let notice = text::concat(route.label(), " requires an open Git project.");
            let _ = self.toasts.push(ToastKind::Warning, notice.as_str());
            return nothing();
        }
        self.surface.route = route;
        self.surface.last_authenticated_route = route;
        self.surface.show_create_menu = false;
        self.surface.show_settings = false;
        self.surface.modal = None;
        self.arrive()
    }

    /// See [`themed`].
    pub fn set_theme(&mut self, selected: ThemeKind) -> (r: Vec<Effect>)
        ensures
            final(self)@ == themed(old(self)@, selected).0,
            views(r@) == themed(old(self)@, selected).1,
    {
        if self.surface.theme == selected {
            return nothing();
        }
        self.surface.theme = selected;
        followed_by(
            one(Effect::ThemeTerminals(selected)),
            only_if(self.known.has_store, Effect::SaveTheme(selected.storage_name().to_owned())),
        )
    }

    pub fn cycle_theme(&mut self) -> (r: Vec<Effect>)
        ensures
            final(self)@ == themed(old(self)@, theme_after(old(self)@.surface.theme)).0,
            views(r@) == themed(old(self)@, theme_after(old(self)@.surface.theme)).1,
    {
        let next = self.surface.theme.next();
        self.set_theme(next)
    }

    /// Shows a section of the settings.
    pub fn set_settings_section(&mut self, section: SettingsSection) -> (r: Vec<Effect>)
        ensures
            (final(self)@, views(r@)) == section_shown(old(self)@, section),
            final(self)@ == (AppModel {
                surface: SurfaceModel {
                    route: AppRoute::Settings(section),
                    last_authenticated_route: AppRoute::Settings(section),
                    ..old(self)@.surface
                },
                ..old(self)@
            }),
            views(r@) == provided(
                old(self)@.known.has_store,
                EffectModel::SaveSettingsSection(route_name(AppRoute::Settings(section))),
            ),
    {
        let route = AppRoute::Settings(section);
        self.surface.route = route;
        self.surface.last_authenticated_route = route;
        only_if(
            self.known.has_store,
            Effect::SaveSettingsSection(route.storage_name().to_owned()),
        )
    }

    /// See [`setting_lost`].
    pub fn setting_failed(&mut self, setting: KeptSetting, error: &str)
        requires
            old(self).wf(),
        ensures
            final(self)@ == setting_lost(old(self)@, setting, error@),
            final(self).wf(),
    {
        let what = match setting {
            KeptSetting::Route => "Could not save the selected route: ",
            KeptSetting::Section => "Could not save the settings section: ",
            KeptSetting::Theme => "Could not save the selected theme: ",
            KeptSetting::PanelWidths => "Could not save panel widths: ",
            KeptSetting::Isolation => "Could not save the thread isolation setting: ",
        };
        let text = text::concat(what, error);
        match setting {
            KeptSetting::Isolation => {
                self.thread.say(MessageRole::System, text);
            },
            _ => {
                let _ = self.toasts.push(ToastKind::Error, text.as_str());
            },
        }
    }

    pub fn toggle_create_menu(&mut self)
        ensures
            final(self)@ == menu_toggled(old(self)@),
            final(self)@ == (AppModel {
                surface: SurfaceModel {
                    show_create_menu: !old(self)@.surface.show_create_menu,
                    show_settings: false,
                    ..old(self)@.surface
                },
                ..old(self)@
            }),
    {
        self.surface.show_create_menu = !self.surface.show_create_menu;
        self.surface.show_settings = false;
    }

    pub fn toggle_settings(&mut self)
        ensures
            final(self)@ == settings_toggled(old(self)@),
            final(self)@ == (AppModel {
                surface: SurfaceModel {
                    show_settings: !old(self)@.surface.show_settings,
                    show_create_menu: false,
                    ..old(self)@.surface
                },
                ..old(self)@
            }),
    {
        self.surface.show_settings = !self.surface.show_settings;
        self.surface.show_create_menu = false;
    }

    pub fn toggle_thread_isolation(&mut self) -> (r: Vec<Effect>)
        ensures
            (final(self)@, views(r@)) == isolation_toggled(old(self)@),
            final(self)@ == (AppModel {
                known: KnownModel {
                    isolate_new_threads: !old(self)@.known.isolate_new_threads,
                    ..old(self)@.known
                },
                ..old(self)@
            }),
            views(r@) == provided(
                old(self)@.known.has_store,
                EffectModel::SaveIsolation(!old(self)@.known.isolate_new_threads),
            ),
    {
        self.known.isolate_new_threads = !self.known.isolate_new_threads;
        only_if(self.known.has_store, Effect::SaveIsolation(self.known.isolate_new_threads))
    }

    pub fn toggle_diff(&mut self)
        ensures
            final(self)@ == diff_toggled(old(self)@),
            final(self)@ == (AppModel {
                surface: SurfaceModel {
                    show_diff: !old(self)@.surface.show_diff,
                    ..old(self)@.surface
                },
                ..old(self)@
            }),
    {
        self.surface.show_diff = !self.surface.show_diff;
    }

    pub fn toggle_diff_layout(&mut self)
        ensures
            final(self)@ == layout_toggled(old(self)@),
            final(self)@ == (AppModel {
                surface: SurfaceModel {
                    diff_view: other_view(old(self)@.surface.diff_view),
                    ..old(self)@.surface
                },
                ..old(self)@
            }),
    {
        self.surface.diff_view = match self.surface.diff_view {
            DiffViewMode::Stack => DiffViewMode::Split,
            DiffViewMode::Split => DiffViewMode::Stack,
        };
    }

    /// Shows the changes in one way or the other.
    pub fn set_diff_view(&mut self, mode: DiffViewMode)
        ensures
            final(self)@ == (AppModel {
                surface: SurfaceModel { diff_view: mode, ..old(self)@.surface },
                ..old(self)@
            }),
    {
        self.surface.diff_view = mode;
    }

    /// See [`terminal_toggled`].
    pub fn toggle_terminal(&mut self) -> (r: Vec<Effect>)
        ensures
            final(self)@ == terminal_toggled(old(self)@).0,
            views(r@) == terminal_toggled(old(self)@).1,
    {
        self.surface.show_terminal = !self.surface.show_terminal;
        if self.surface.show_terminal {
            followed_by(self.ensure_terminal(), self.focus_terminal())
        } else {
            one(Effect::Focus(FocusTarget::Composer))
        }
    }

    /// Puts the terminal away: the surface of its own, or the panel.
    pub fn close_terminal(&mut self) -> (r: Vec<Effect>)
        requires
            old(self).wf(),
        ensures
            (final(self)@, views(r@)) == terminal_closed(old(self)@),
            (final(self)@, views(r@)) == (if old(self)@.surface.route == AppRoute::Terminal {
                navigated(old(self)@, AppRoute::Workspace)
            } else {
                terminal_toggled(old(self)@)
            }),
            final(self).wf(),
    {
        match self.surface.route {
            AppRoute::Terminal => self.navigate_to(AppRoute::Workspace),
            _ => self.toggle_terminal(),
        }
    }

    /// Takes what the repository is like now.
    pub fn refresh_repo(&mut self, repo: RepoSnapshot)
        ensures
            final(self)@ == refreshed(old(self)@, repo@),
            final(self)@ == (AppModel {
                project: OpenModel { repo: repo@, ..old(self)@.project },
                ..old(self)@
            }),
    {
        self.project.repo = repo;
    }

    pub fn dismiss_modal(&mut self) -> (r: Vec<Effect>)
        ensures
            final(self)@ == (AppModel {
                surface: SurfaceModel { modal: None, ..old(self)@.surface },
                ..old(self)@
            }),
            views(r@) == provided(
                old(self)@.surface.modal is Some,
                EffectModel::Focus(FocusTarget::Composer),
            ),
    {
        let shown = self.surface.modal.is_some();
        self.surface.modal = None;
        only_if(shown, Effect::Focus(FocusTarget::Composer))
    }
}

/// A surface that was come to is kept, where anything can be, under the name by which it is found
/// again; nothing lies over it, and the user writes where they would on it.
pub proof fn surfaces_are_kept_when_come_to(a: AppModel, route: AppRoute)
    requires
        a.account.auth is SignedIn,
        needs_project(route) ==> a.project.repo.is_repository,
    ensures
        ({
            let (b, effects) = navigated(a, route);
            &&& b.surface.route == route
            &&& b.surface.last_authenticated_route == route
            &&& !b.surface.show_create_menu
            &&& !b.surface.show_settings
            &&& b.surface.modal is None
            &&& b.surface.theme == a.surface.theme
            &&& b.surface.terminal_sessions == a.surface.terminal_sessions
            &&& b.project == a.project && b.thread == a.thread && b.turn == a.turn
            &&& a.known.has_store ==> effects.len() > 0 && effects[0] == EffectModel::SaveRoute(
                route_name(route),
            )
            &&& !a.known.has_store ==> forall|k: int|
                0 <= k < effects.len() ==> !(effects[k] is SaveRoute)
            &&& route is Workspace ==> effects.len() > 0 && effects.last() == EffectModel::Focus(
                FocusTarget::Composer,
            )
        }),
{
}

/// A terminal is started for a thread that has none, in the thread's own workspace, once that is
/// there; the terminal that a thread has is written to.
pub proof fn terminals_start_in_the_workspace(a: AppModel)
    requires
        !a.surface.show_terminal,
    ensures
        ({
            let (b, effects) = terminal_toggled(a);
            let here = a.surface.terminal_sessions.contains(a.thread.id);
            &&& b.surface.show_terminal
            &&& here ==> effects == seq![EffectModel::Focus(FocusTarget::Terminal)]
            &&& !here && !a.thread.creating_worktree ==> effects == seq![
                EffectModel::StartTerminal { cwd: a.project.path },
            ]
            &&& !here && a.thread.creating_worktree ==> effects.len() == 0
            &&& terminal_toggled(b).0 == a
            &&& terminal_toggled(b).1 == seq![EffectModel::Focus(FocusTarget::Composer)]
        }),
        with_terminal(a).surface.terminal_sessions.contains(a.thread.id),
        terminal_wanted(with_terminal(a)).len() == 0,
{
    let (b, effects) = terminal_toggled(a);
    assert(with_terminal(a).surface.terminal_sessions.last() == a.thread.id);
    assert(has_terminal(b) ==> effects =~= seq![EffectModel::Focus(FocusTarget::Terminal)]);
    assert(!has_terminal(b) && !a.thread.creating_worktree ==> effects =~= seq![
        EffectModel::StartTerminal { cwd: a.project.path },
    ]);
    assert(!has_terminal(b) && a.thread.creating_worktree ==> effects =~= Seq::empty());
}

/// A terminal that did not start is put away, and why is said in the thread.
pub proof fn terminals_that_fail_are_told(a: AppModel, error: Seq<char>)
    ensures
        ({
            let b = without_terminal(a, error);
            &&& !b.surface.show_terminal
            &&& b.thread.messages.len() == a.thread.messages.len() + 1
            &&& b.thread.messages.last().role is System
            &&& has_part(b.thread.messages.last().text, error)
        }),
{
    let none = Seq::<char>::empty();
    let before = "Could not start the native terminal: "@;
    assert(before + error + none =~= before + error);
    parts_are_held(before, error, none);
}

/// A theme that the user chooses is the one that is shown, in the terminals too, and is kept under
/// its own name; the one that is shown already is not chosen again.
pub proof fn the_theme_chosen_is_shown(a: AppModel, theme: ThemeKind)
    ensures
        ({
            let (b, effects) = themed(a, theme);
            &&& b.surface.theme == theme
            &&& a.surface.theme != theme && a.known.has_store ==> effects == seq![
                EffectModel::ThemeTerminals(theme),
                EffectModel::SaveTheme(theme_name(theme)),
            ]
            &&& a.surface.theme != theme && !a.known.has_store ==> effects == seq![
                EffectModel::ThemeTerminals(theme),
            ]
            &&& a.surface.theme == theme ==> effects.len() == 0 && b == a
            &&& b.surface.route == a.surface.route
            &&& b.thread == a.thread && b.project == a.project
        }),
{
    let (b, effects) = themed(a, theme);
    assert(a.surface.theme != theme && a.known.has_store ==> effects =~= seq![
        EffectModel::ThemeTerminals(theme),
        EffectModel::SaveTheme(theme_name(theme)),
    ]);
    assert(a.surface.theme != theme && !a.known.has_store ==> effects =~= seq![
        EffectModel::ThemeTerminals(theme),
    ]);
}

/// What is switched on and off again is as it was, and what is kept of a switch is how it stands.
pub proof fn switches_are_undone(a: AppModel)
    ensures
        isolation_toggled(a).0.known.isolate_new_threads == !a.known.isolate_new_threads,
        isolation_toggled(isolation_toggled(a).0).0 == a,
        a.known.has_store ==> isolation_toggled(a).1 == seq![
            EffectModel::SaveIsolation(isolation_toggled(a).0.known.isolate_new_threads),
        ],
        !a.known.has_store ==> isolation_toggled(a).1.len() == 0,
        diff_toggled(a).surface.show_diff == !a.surface.show_diff,
        diff_toggled(diff_toggled(a)) == a,
        layout_toggled(a).surface.diff_view != a.surface.diff_view,
        layout_toggled(layout_toggled(a)) == a,
        menu_toggled(a).surface.show_create_menu == !a.surface.show_create_menu,
        settings_toggled(a).surface.show_settings == !a.surface.show_settings,
        !(menu_toggled(a).surface.show_create_menu && menu_toggled(a).surface.show_settings),
        !(settings_toggled(a).surface.show_create_menu
            && settings_toggled(a).surface.show_settings),
{
}

/// The section of the settings that is asked for is shown and kept, and the repository is shown as
/// it was found.
pub proof fn what_is_asked_for_is_shown(
    a: AppModel,
    section: SettingsSection,
    repo: SnapshotModel,
)
    ensures
        section_shown(a, section).0.surface.route == AppRoute::Settings(section),
        a.known.has_store ==> section_shown(a, section).1 == seq![
            EffectModel::SaveSettingsSection(route_name(AppRoute::Settings(section))),
        ],
        refreshed(a, repo).project.repo == repo,
        refreshed(a, repo).project.path == a.project.path,
        refreshed(a, repo).thread == a.thread,
{
}

/// A terminal on a surface of its own is left for the workspace, and the panel is put away.
pub proof fn terminals_are_put_away(a: AppModel)
    requires
        a.account.auth is SignedIn,
    ensures
        a.surface.route is Terminal ==> terminal_closed(a).0.surface.route is Workspace,
        !(a.surface.route is Terminal) ==> terminal_closed(a).0.surface.show_terminal
            == !a.surface.show_terminal && terminal_closed(a).0.surface.route == a.surface.route,
{
}

/// A setting that was not kept is told with the reason.
pub proof fn lost_settings_are_told(a: AppModel, setting: KeptSetting, error: Seq<char>)
    ensures
        ({
            let b = setting_lost(a, setting, error);
            let told = if setting == KeptSetting::Isolation {
                b.thread.messages.last().text
            } else {
                b.toasts.items.last().message
            };
            &&& has_part(told, error)
            &&& b.surface == a.surface
            &&& b.known == a.known
        }),
{
    let none = Seq::<char>::empty();
    let (r, s, t) = (
        "Could not save the selected route: "@,
        "Could not save the settings section: "@,
        "Could not save the selected theme: "@,
    );
    let (p, i) = (
        "Could not save panel widths: "@,
        "Could not save the thread isolation setting: "@,
    );
    assert(r + error + none =~= r + error);
    assert(s + error + none =~= s + error);
    assert(t + error + none =~= t + error);
    assert(p + error + none =~= p + error);
    assert(i + error + none =~= i + error);
    parts_are_held(r, error, none);
    parts_are_held(s, error, none);
    parts_are_held(t, error, none);
    parts_are_held(p, error, none);
    parts_are_held(i, error, none);
    reveal(announced);
    let b = setting_lost(a, setting, error);
    assert(b.toasts == a.toasts || b.toasts.items.len() > 0);
}

} // verus!
