//! Routes, notices, terminals and keys.
use rode::app::CodexAuthState;
use rode::codex_auth::CodexAccount;
use rode::grid::TerminalGrid;
use rode::keys::{ghostty_key, key_down, key_up, Key, KeyEffect, KeyMotion, Modifiers};
use rode::notifications::turn_finished;
use rode::path::canonical_or_original;
use rode::perf::{SlowOperation, STORAGE_THRESHOLD};
use rode::persistence::StoredProject;
use rode::routes::{
    new_local_thread_id, route_after_auth, select_startup_project, AppRoute, ModalState,
    SettingsSection, UiPreferences, ROUTE_SETTING, THEME_SETTING,
};
use rode::store::StateStore;
use rode::terminal::{
    default_ink, default_paper, ghostty_snapshot, CursorVisualStyle, EmulatorCell, EmulatorFrame,
    TerminalColor, TerminalCursorShape, TerminalSize, TerminalSnapshot,
};
use rode::theme::ThemeKind;
use rode::toast::{toast_accent, ToastKind, ToastQueue};
use rode::worker::{
    copied_text, grid_size, paste_capacity, pointer_event, user_shell, worker_error,
    SelectionPointerPhase, TerminalCore, TerminalEvent, TerminalView, TerminalWorker, WorkerAction,
    WorkerCommand,
};

#[test]
fn workspace_is_only_available_after_codex_authentication() {
    assert!(CodexAuthState::Unavailable.requires_onboarding());
    assert!(CodexAuthState::Checking.requires_onboarding());
    assert!(CodexAuthState::SignedOut.requires_onboarding());
    assert!(CodexAuthState::SigningIn.requires_onboarding());
    assert!(CodexAuthState::BrowserPending { auth_url: "https://example.com".to_owned() }
        .requires_onboarding());
    assert!(CodexAuthState::Cancelling.requires_onboarding());
    assert!(CodexAuthState::Error("failed".to_owned()).requires_onboarding());
    assert!(!CodexAuthState::SignedIn(CodexAccount::ChatGpt {
        email: None,
        plan: "plus".to_owned(),
    })
    .requires_onboarding());
}

#[test]
fn startup_restores_only_the_explicit_active_project() {
    let first = StoredProject::new("/tmp/first".to_owned(), "First".to_owned(), 1, 1);
    let active = StoredProject::new("/tmp/active".to_owned(), "Active".to_owned(), 1, 2);
    let selected = select_startup_project(
        &None,
        &vec![first.clone(), active.clone()],
        &Some(active.id.clone()),
    );
    assert_eq!(selected, (Some(active.path), None));

    let missing_identity =
        select_startup_project(&None, &vec![first], &Some("removed-id".to_owned()));
    assert!(missing_identity.0.is_none());
    assert!(missing_identity.1.is_some());
}

#[test]
fn a_requested_folder_comes_before_the_active_project() {
    let active = StoredProject::new("/tmp/active".to_owned(), "Active".to_owned(), 1, 1);
    let id = Some(active.id.clone());
    assert_eq!(
        select_startup_project(&Some("/tmp/asked".to_owned()), &vec![active], &id),
        (Some("/tmp/asked".to_owned()), None)
    );
    assert_eq!(select_startup_project(&None, &vec![], &None), (None, None));
}

#[test]
fn application_route_defaults_to_workspace() {
    assert_eq!(AppRoute::default(), AppRoute::Workspace);
    assert_ne!(AppRoute::Settings(SettingsSection::Appearance), AppRoute::Workspace);
}

#[test]
fn application_routes_round_trip_through_stable_names() {
    for route in [
        AppRoute::Workspace,
        AppRoute::SourceControl,
        AppRoute::Terminal,
        AppRoute::Settings(SettingsSection::Appearance),
    ] {
        assert!(AppRoute::from_storage_name(route.storage_name()).same_surface(route));
    }
    assert_eq!(AppRoute::from_storage_name("unknown"), AppRoute::Workspace);
}

#[test]
fn authentication_routes_to_onboarding_without_clobbering_signed_in_navigation() {
    assert_eq!(
        route_after_auth(AppRoute::SourceControl, AppRoute::SourceControl, true),
        AppRoute::Login
    );
    assert_eq!(
        route_after_auth(AppRoute::Login, AppRoute::SourceControl, false),
        AppRoute::SourceControl
    );
    assert_eq!(
        route_after_auth(AppRoute::Terminal, AppRoute::Workspace, false),
        AppRoute::Terminal
    );
}

#[test]
fn stored_preferences_restore_route_and_theme() {
    let mut store = StateStore::new();
    store.save_string_setting(ROUTE_SETTING, AppRoute::Terminal.storage_name());
    store.save_string_setting(THEME_SETTING, ThemeKind::Daylight.storage_name());
    let preferences = UiPreferences::load(
        &store.load_string_setting(ROUTE_SETTING),
        &store.load_string_setting(THEME_SETTING),
    );
    assert_eq!(preferences.route, AppRoute::Terminal);
    assert_eq!(preferences.theme, ThemeKind::Daylight);
    assert_eq!(UiPreferences::load(&None, &None), UiPreferences::default());
}

#[test]
fn queue_preserves_order_and_dismisses_by_stable_id() {
    let mut queue = ToastQueue::default();
    let first = queue.push(ToastKind::Info, "first");
    let second = queue.push(ToastKind::Error, "second");
    let third = queue.push(ToastKind::Success, "third");
    let fourth = queue.push(ToastKind::Warning, "fourth");
    assert_eq!(
        queue.items().iter().map(|toast| toast.id).collect::<Vec<_>>(),
        vec![first, second, third, fourth]
    );
    let fifth = queue.push(ToastKind::Info, "fifth");
    assert_eq!(
        queue.items().iter().map(|toast| toast.id).collect::<Vec<_>>(),
        vec![second, third, fourth, fifth]
    );
    assert!(queue.dismiss(second));
    assert_eq!(
        queue.items().iter().map(|toast| toast.id).collect::<Vec<_>>(),
        vec![third, fourth, fifth]
    );
    assert!(!queue.dismiss(first));
}

#[test]
fn kinds_of_notices_differ_in_colour() {
    let kinds = [ToastKind::Info, ToastKind::Success, ToastKind::Warning, ToastKind::Error];
    for (i, a) in kinds.iter().enumerate() {
        for b in &kinds[i + 1..] {
            assert_ne!(toast_accent(*a, ThemeKind::Ember), toast_accent(*b, ThemeKind::Ember));
        }
    }
}

#[test]
fn terminal_size_has_safe_minimums() {
    assert_eq!(TerminalSize::new(0, 0, 0, 0), TerminalSize::new(2, 1, 1, 1));
}

#[test]
fn user_shell_preserves_the_host_choice() {
    assert_eq!(user_shell(&Some("/usr/bin/fish".to_owned())), "/usr/bin/fish");
    assert_eq!(user_shell(&None), user_shell(&Some(String::new())));
}

#[test]
fn pseudo_terminals_hold_what_fits() {
    let size = TerminalSize::new(100_000, 3, 8, 16);
    let pty = size.pty_size();
    assert_eq!((pty.cols, pty.rows), (u16::MAX, 3));
    let grid = grid_size(TerminalSize::new(80, 24, 8, 16));
    assert_eq!((grid.columns, grid.lines, grid.cell_width, grid.cell_height), (80, 24, 8, 16));
}

fn blank(text: &str) -> EmulatorCell {
    EmulatorCell {
        text: text.to_owned(),
        foreground: None,
        background: None,
        selected: false,
        inverse: false,
        invisible: false,
        faint: false,
        bold: false,
        italic: false,
        underlined: false,
        strikethrough: false,
        wide: false,
    }
}

fn frame(cells: Vec<Vec<EmulatorCell>>) -> EmulatorFrame {
    EmulatorFrame {
        columns: 2,
        rows: 1,
        foreground: default_ink(),
        background: default_paper(),
        cursor: Some((1, 0)),
        cursor_style: CursorVisualStyle::Bar,
        cursor_visible: true,
        title: Some("shell".to_owned()),
        cells,
    }
}

fn snapshot(cells: Vec<Vec<EmulatorCell>>) -> TerminalSnapshot {
    ghostty_snapshot(&frame(cells), TerminalSize::new(2, 1, 8, 16), false)
}

#[test]
fn cells_are_shown_where_they_stand() {
    let mut second = blank("b");
    second.inverse = true;
    let shown = snapshot(vec![vec![blank("a"), second]]);
    assert_eq!(shown.cells.len(), 2);
    assert_eq!((shown.cells[0].line, shown.cells[0].column), (0, 0));
    assert_eq!((shown.cells[1].line, shown.cells[1].column), (0, 1));
    assert_eq!(shown.cells[1].text, "b");
    assert_eq!(shown.cells[1].foreground, default_paper());
    assert_eq!(shown.cells[1].background, default_ink());
    assert_eq!((shown.cursor.line, shown.cursor.column), (0, 1));
    assert_eq!(shown.cursor.shape, TerminalCursorShape::Bar);
    assert_eq!(shown.title, "shell");
    assert_eq!(TerminalColor { red: 1, green: 2, blue: 3 }.rgb(), 0x010203);
}

#[test]
fn painted_lines_carry_their_text() {
    let shown = snapshot(vec![vec![blank("a"), blank("b")]]);
    let grid = TerminalGrid::prepaint(&shown, &None, ThemeKind::Ember);
    assert_eq!(grid.lines.len(), 1);
    assert_eq!(grid.lines[0].text, "ab");
    assert_eq!(grid.lines[0].runs.iter().map(|run| run.len).sum::<usize>(), 2);
    assert!(grid.marked_text.is_none());
    let marked = TerminalGrid::prepaint(&shown, &Some("x".to_owned()), ThemeKind::Ember);
    assert_eq!(marked.marked_text.expect("marked").text, "x");
}

const PLAIN: Modifiers = Modifiers { shift: false, alt: false, control: false, platform: false };
const CONTROL: Modifiers = Modifiers { shift: false, alt: false, control: true, platform: false };
const COPY: Modifiers = Modifiers { shift: true, alt: false, control: true, platform: false };

#[test]
fn keys_are_named_and_sent() {
    assert_eq!(ghostty_key("a").expect("a letter").key, Key::Letter('a'));
    assert_eq!(ghostty_key("f12").expect("a function key").key, Key::Function(12));
    assert_eq!(ghostty_key("up").expect("an arrow").key, Key::ArrowUp);
    assert!(ghostty_key("unheard of").is_none());
    match key_down("c", CONTROL, &None, false) {
        KeyEffect::Send(event) => {
            assert_eq!(event.key, Key::Letter('c'));
            assert_eq!(event.action, KeyMotion::Press);
            assert_eq!(event.mods, CONTROL);
        }
        other => panic!("{other:?}"),
    }
    match key_up("c", CONTROL) {
        KeyEffect::Send(event) => assert_eq!(event.action, KeyMotion::Release),
        other => panic!("{other:?}"),
    }
    assert_eq!(key_down("v", COPY, &None, false), KeyEffect::Paste);
    assert_eq!(key_down("c", COPY, &None, false), KeyEffect::CopySelection);
    assert_eq!(key_down("a", PLAIN, &Some("a".to_owned()), false), KeyEffect::Pass);
}

#[test]
fn a_worker_answers_each_command() {
    let size = TerminalSize::new(80, 24, 8, 16);
    let (mut worker, start) =
        TerminalWorker::new("/w", size, &Some("/bin/bash".to_owned()), "1.0");
    assert_eq!(start.shell, "/bin/bash");
    assert_eq!(start.cwd, "/w");
    assert!(start.environment.iter().any(|(name, _)| name == "TERM"));
    assert_eq!(
        worker.run(WorkerCommand::PtyOutput(vec![65])),
        vec![WorkerAction::Parse(vec![65]), WorkerAction::Publish { size, exited: false }]
    );
    let wider = TerminalSize::new(100, 24, 8, 16);
    worker.run(WorkerCommand::Resize(wider));
    assert_eq!(worker.size(), wider);
    let ended = worker.run(WorkerCommand::PtyClosed);
    assert!(ended.contains(&WorkerAction::AnnounceExit));
    assert!(ended.contains(&WorkerAction::Publish { size: wider, exited: true }));
    assert!(!worker.stopped());
    worker.run(WorkerCommand::Shutdown);
    assert!(worker.stopped());
}

#[test]
fn pointers_are_kept_on_the_grid() {
    let size = TerminalSize::new(80, 24, 8, 16);
    let event = pointer_event(size, 500, 3, SelectionPointerPhase::Drag, false, 8, 384);
    assert_eq!((event.column, event.row), (79, 3));
    assert_eq!(event.geometry.columns, 80);
}

#[test]
fn pasted_and_copied_bytes_are_measured() {
    assert_eq!(paste_capacity(10), 52);
    assert_eq!(copied_text(&Some(b"hi".to_vec())).as_deref(), Some("hi"));
    assert_eq!(copied_text(&None), None);
    assert!(matches!(worker_error("gone"), TerminalEvent::Error(error) if error == "Ghostty terminal worker: gone"));
}

#[test]
fn a_terminal_is_resized_only_when_its_size_changes() {
    let mut core = TerminalCore::start();
    let size = core.size();
    assert_eq!(core.resize(size), None);
    let wider = TerminalSize::new(size.columns + 1, size.lines, size.cell_width, size.cell_height);
    assert_eq!(core.resize(wider), Some(WorkerCommand::Resize(wider)));
    assert_eq!(core.size(), wider);
}

#[test]
fn a_view_follows_its_events() {
    let mut view = TerminalView::new(TerminalSize::new(2, 1, 8, 16), ThemeKind::Ember);
    assert!(!view.set_theme(ThemeKind::Ember));
    assert!(view.set_theme(ThemeKind::Daylight));
    view.handle_event(TerminalEvent::Snapshot(snapshot(vec![vec![blank("a"), blank("b")]])));
    assert_eq!(view.title(), "shell");
    assert_eq!(
        view.handle_event(TerminalEvent::ClipboardStore("copied".to_owned())),
        Some("copied".to_owned())
    );
    view.replace_and_mark_text_in_range("né");
    assert_eq!(view.marked_text_range(), Some((0, 2)));
    assert_eq!(view.replace_text_in_range("né"), "né");
    assert_eq!(view.marked_text(), &None);
    view.handle_event(TerminalEvent::Exited);
    assert!(view.exited());
    assert_eq!(view.focus(true), WorkerCommand::Focus(true));
}

#[test]
fn local_threads_and_modals_are_named() {
    assert_eq!(new_local_thread_id(16, 255), "thread-16-255");
    assert_eq!(ModalState::Commit.title(), "Commit changes");
    assert!(SettingsSection::ALL.iter().all(|section| !section.label().is_empty()));
    let arguments = turn_finished("Fix it", "completed", false);
    assert_eq!(
        arguments,
        [
            "--app-name=Rode",
            "--urgency=normal",
            "Rode · Codex turn complete",
            "Fix it · completed",
        ]
    );
    assert_eq!(turn_finished("t", "failed", true)[1], "--urgency=critical");
}

#[test]
fn a_terminal_passes_on_what_it_is_given() {
    let core = TerminalCore::start();
    assert_eq!(core.input(b"ls\n".to_vec()), WorkerCommand::Text(b"ls\n".to_vec()));
    assert_eq!(core.paste("text"), WorkerCommand::Paste("text".to_owned()));
    assert_eq!(core.scroll_lines(-3), WorkerCommand::Scroll(-3));
    assert_eq!(core.copy_selection(), WorkerCommand::CopySelection);
}

#[test]
fn only_slow_operations_are_told() {
    let operation = SlowOperation::new("storage.write", STORAGE_THRESHOLD, "rows=3");
    assert_eq!(operation.ended(19_999_999, "20.0"), None);
    assert_eq!(
        operation.ended(20_000_000, "20.0").as_deref(),
        Some("[perf] slow operation=storage.write elapsed_ms=20.0 threshold_ms=20 rows=3")
    );
}

#[test]
fn paths_are_resolved_where_they_can_be() {
    assert_eq!(canonical_or_original("/link", Ok("/real".to_owned())), "/real");
    assert_eq!(canonical_or_original("/gone", Err("not found".to_owned())), "/gone");
}
