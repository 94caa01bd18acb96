//! The application: what it shows, and what it has done when something happens.
use rode::app::{
    CodexAuthState, Effect, FocusTarget, MessageRole, ProjectSelectionState, PublishOperation,
    RenameTarget, RodeApp, StoreOpening,
};
use rode::codex::{ApprovalKind, ApprovalRequest, CodexEvent, RpcId};
use rode::codex_auth::{CodexAccount, CodexAccountStatus, CodexLoginOutcome, PendingCodexLogin};
use rode::controls::{button, is_activation_key, selectable_row, tab, ButtonStyle, UiAction};
use rode::diff::{DiffDocument, DiffViewMode};
use rode::diff_view::{render_diff_file, render_line_number, render_unchanged_band, DiffBlock};
use rode::git::ThreadWorktree;
use rode::navigation::KeptSetting;
use rode::persistence::{StoredMessage, StoredProject, StoredThread};
use rode::project::ValidatedProject;
use rode::projects::{FolderChoice, OpenPlan};
use rode::publishing::report_operation;
use rode::routes::{AppRoute, ModalState, SettingsSection};
use rode::sidebar::label_session;
use rode::snapshot::RepoSnapshot;
use rode::theme::ThemeKind;
use rode::threads::{largest_number, thread_folder};
use rode::turns::MAX_REASONING_PREVIEW;
use rode::workspace::{render_route_header, Screen};

fn repository(root: &str) -> RepoSnapshot {
    let mut repo = RepoSnapshot::outside(root);
    repo.is_repository = true;
    repo.branch = "main".to_owned();
    repo
}

fn thread(id: &str, project: &str, ordinal: usize) -> StoredThread {
    StoredThread {
        id: id.to_owned(),
        project_path: project.to_owned(),
        project_name: "Project".to_owned(),
        title: format!("Thread {ordinal}"),
        workspace_path: format!("{project}/work"),
        branch: None,
        provider_thread_id: None,
        ordinal,
        draft: String::new(),
        activity: "waiting".to_owned(),
        activity_updated_ms: 0,
        base_branch: None,
        last_error: None,
        dirty_count: 0,
        unread: false,
        conversation_scroll_item: 0,
        conversation_scroll_offset_millis: 0,
        messages: vec![StoredMessage { role: "user".to_owned(), text: "hi".to_owned() }],
        events: Vec::new(),
    }
}

fn project(id: &str, path: &str) -> StoredProject {
    StoredProject::with_id(id.to_owned(), path.to_owned(), "Project".to_owned())
}

fn opening(projects: Vec<StoredProject>, active: Option<&str>) -> StoreOpening {
    StoreOpening::Opened {
        projects: Ok(projects),
        active_project_id: active.map(str::to_owned),
        isolate_new_threads: false,
        route: None,
        theme: None,
    }
}

fn signed_in(app: &mut RodeApp) {
    let effects = app.refresh_codex_account();
    let generation = match effects.as_slice() {
        [Effect::ReadAccount { generation }] => *generation,
        other => panic!("{other:?}"),
    };
    app.account_read(
        generation,
        Ok(CodexAccountStatus {
            account: Some(CodexAccount::ApiKey),
            requires_openai_auth: true,
        }),
    );
}

/// A signed-in application with an open project at `/p` and two known threads.
fn ready() -> RodeApp {
    let (mut app, _) = RodeApp::new(opening(vec![project("one", "/p")], None), None, true, "new");
    signed_in(&mut app);
    app.known_state_loaded(
        vec![project("one", "/p")],
        vec![thread("a", "/p", 1), thread("b", "/p", 4)],
    );
    let opened = ValidatedProject { root: "/p".to_owned(), name: "p".to_owned() };
    assert_eq!(app.plan_project(&opened, &None), OpenPlan::Keep);
    app.open_validated_project(opened, repository("/p"));
    app.arrive_in_project(&None, false, repository("/p"), "fresh");
    app
}

fn said(app: &RodeApp) -> &str {
    &app.thread.messages.last().expect("a message").text
}

#[test]
fn the_start_asks_for_the_sign_in_and_the_last_project() {
    let (app, effects) = RodeApp::new(
        opening(vec![project("one", "/p"), project("two", "/q")], Some("two")),
        None,
        true,
        "first",
    );
    assert!(app.account.auth.requires_onboarding());
    assert_eq!(app.render().0, Screen::SignIn);
    assert!(effects.contains(&Effect::LoadKnown));
    assert!(effects.iter().any(
        |effect| matches!(effect, Effect::ValidateProject { path, .. } if path == "/q")
    ));
    let (broken, effects) =
        RodeApp::new(StoreOpening::Failed("locked".to_owned()), None, false, "first");
    assert!(!broken.known.has_store);
    assert!(!broken.account.codex_available());
    assert!(effects.is_empty());
    assert!(broken.thread.messages.iter().any(|message| message.text.contains("locked"))
        || broken.picker.error.is_some());
}

#[test]
fn a_folder_is_chosen_looked_into_and_opened() {
    let (mut app, _) = RodeApp::new(opening(vec![], None), None, true, "first");
    signed_in(&mut app);
    assert_eq!(app.browse_project_folder(), vec![Effect::PickFolder { repair: None }]);
    assert_eq!(app.picker.selection, ProjectSelectionState::ChoosingFolder);
    let effects = app.folder_chosen(FolderChoice::Chosen(vec!["/p/src".to_owned()]), None);
    let generation = match effects.as_slice() {
        [Effect::ValidateProject { generation, path, repair: None }] if path == "/p/src" => {
            *generation
        }
        other => panic!("{other:?}"),
    };
    assert!(!app.project_validated(generation.wrapping_sub(1), Some("late".to_owned())));
    assert_eq!(app.picker.error, None);
    assert!(app.project_validated(generation, None));
    let found = ValidatedProject { root: "/p".to_owned(), name: "p".to_owned() };
    assert_eq!(
        app.plan_project(&found, &None),
        OpenPlan::Save { path: "/p".to_owned(), name: "p".to_owned() }
    );
    app.open_validated_project(found, repository("/p"));
    assert!(app.project.open);
    let effects = app.arrive_in_project(&None, false, repository("/p"), "t-1");
    assert!(matches!(
        effects.as_slice(),
        [Effect::EndSession, Effect::SaveThread(saved)] if saved.id == "t-1"
    ));
    assert_eq!(app.render().0, Screen::Workspace);
}

#[test]
fn choices_that_end_otherwise_are_told() {
    let (mut app, _) = RodeApp::new(opening(vec![], None), None, true, "first");
    app.open_folder_picker();
    assert!(app.folder_chosen(FolderChoice::Dismissed, None).is_empty());
    assert_eq!(app.picker.selection, ProjectSelectionState::Idle);
    app.folder_chosen(FolderChoice::Failed("portal".to_owned()), None);
    assert_eq!(app.picker.error.as_deref(), Some("Could not open the folder picker: portal"));
    app.folder_chosen(FolderChoice::Lost, None);
    assert_eq!(
        app.picker.error.as_deref(),
        Some("The desktop folder picker closed unexpectedly.")
    );
    app.validate_project_selection("/x".to_owned(), None);
    let generation = app.picker.generation;
    app.cancel_selection();
    assert!(!app.project_validated(generation, None));
    app.project_not_saved("full");
    assert_eq!(app.picker.error.as_deref(), Some("Could not save the project: full"));
}

#[test]
fn a_project_is_not_put_in_the_place_of_another() {
    let (mut app, _) = RodeApp::new(
        opening(vec![project("one", "/p"), project("two", "/q")], None),
        None,
        true,
        "first",
    );
    assert_eq!(
        app.repair_project("/p".to_owned()),
        vec![Effect::PickFolder { repair: Some("/p".to_owned()) }]
    );
    let found = ValidatedProject { root: "/q".to_owned(), name: "q".to_owned() };
    assert_eq!(app.plan_project(&found, &Some("/p".to_owned())), OpenPlan::Refused);
    assert!(app.picker.error.is_some());
    let moved = ValidatedProject { root: "/r".to_owned(), name: "r".to_owned() };
    assert_eq!(
        app.plan_project(&moved, &Some("/p".to_owned())),
        OpenPlan::Repair {
            old_path: "/p".to_owned(),
            new_path: "/r".to_owned(),
            name: "r".to_owned(),
        }
    );
}

#[test]
fn forgotten_projects_are_closed() {
    let mut app = ready();
    assert_eq!(app.remove_project("/p"), vec![Effect::RemoveProject("/p".to_owned())]);
    assert!(app.project.open);
    let effects = app.project_removed("/p");
    assert_eq!(effects, vec![Effect::EndSession, Effect::CloseTerminals, Effect::LoadKnown]);
    assert!(!app.project.open);
    assert_eq!(app.render().0, Screen::ChooseProject);
    app.project_not_removed("busy");
    assert_eq!(app.picker.error.as_deref(), Some("Could not remove the project: busy"));
}

#[test]
fn folders_that_are_gone_close_the_project() {
    let mut app = ready();
    app.new_thread_in_project("/q".to_owned(), "q".to_owned(), false, RepoSnapshot::default());
    assert_eq!(app.picker.error.as_deref(), Some("That saved project folder is missing."));
    assert!(!app.project.open);
    let mut app = ready();
    let effects =
        app.new_thread_in_project("/q".to_owned(), "q".to_owned(), true, RepoSnapshot::outside("/q"));
    assert!(matches!(effects[0], Effect::SaveThread(_)));
    assert_eq!(
        app.picker.error.as_deref(),
        Some("That saved folder is no longer a Git repository.")
    );
    let mut app = ready();
    app.new_thread_in_project("/q".to_owned(), "q".to_owned(), true, repository("/q"));
    app.start_new_thread("t-q", repository("/q"));
    assert_eq!((app.project.root.as_str(), app.thread.id.as_str()), ("/q", "t-q"));
    assert_eq!(app.thread.number, 1);
}

#[test]
fn new_threads_are_numbered_after_the_largest() {
    let mut app = ready();
    assert_eq!(largest_number(&app.known.threads, "/p"), 4);
    assert_eq!(app.thread.number, 5);
    app.thread.composer.set_text("half a thought");
    let effects = app.new_thread();
    assert!(matches!(effects.as_slice(), [Effect::SaveThread(_)]));
    app.start_new_thread("next", repository("/p"));
    assert_eq!(app.thread.title, "Thread 5");
    assert_eq!(app.thread.composer.text(), "");
    assert_eq!(app.thread.draft_of("fresh").as_deref(), Some("half a thought"));
}

#[test]
fn drafts_wait_in_their_threads() {
    let mut app = ready();
    app.thread.composer.set_text("half a thought");
    app.begin_switch("a");
    let effects = app.switch_thread("a", true, repository("/p/work"));
    assert!(effects.contains(&Effect::SaveActiveProject("one".to_owned())));
    assert_eq!(app.project.path, "/p/work");
    assert_eq!(app.thread.composer.text(), "");
    assert_eq!(app.thread.messages[0].role, MessageRole::User);
    assert_eq!(thread_folder(&thread("a", "/p", 1), false), "/p");
    app.begin_switch("b");
    app.switch_thread("b", false, repository("/p"));
    assert_eq!(app.project.path, "/p");
    assert_eq!(app.thread.number, 4);
    app.begin_switch("a");
    app.switch_thread("a", true, RepoSnapshot::outside("/p/work"));
    assert!(app.picker.error.as_deref().expect("an error").starts_with("/p is no longer"));
}

#[test]
fn isolated_threads_wait_for_their_workspace() {
    let mut app = ready();
    assert_eq!(app.toggle_thread_isolation(), vec![Effect::SaveIsolation(true)]);
    app.new_thread();
    let effects = app.start_new_thread("iso", repository("/p"));
    let generation = match effects.last() {
        Some(Effect::CreateWorktree { generation, thread_id, .. }) if thread_id == "iso" => {
            *generation
        }
        other => panic!("{other:?}"),
    };
    assert!(app.thread.creating_worktree);
    app.thread.composer.set_text("too early");
    assert!(app.send_prompt().is_empty());
    let worktree = || ThreadWorktree { path: "/w".to_owned(), branch: "rode/iso".to_owned() };
    assert!(app
        .worktree_created(generation.wrapping_add(1), Ok(worktree()), repository("/w"))
        .is_empty());
    assert!(app.thread.creating_worktree);
    app.worktree_created(generation, Ok(worktree()), repository("/w"));
    assert_eq!(app.project.path, "/w");
    assert_eq!(app.thread.branch.as_deref(), Some("rode/iso"));
    assert!(!app.thread.creating_worktree);
    app.new_thread();
    app.start_new_thread("other", repository("/p"));
    let generation = app.turn.generation;
    app.worktree_created(generation, Err("no room".to_owned()), repository("/p"));
    assert_eq!(app.project.path, "/p");
    assert!(said(&app).starts_with("Could not create an isolated worktree: no room"));
}

#[test]
fn prompts_start_a_session_and_then_turns() {
    let mut app = ready();
    assert!(app.send_prompt().is_empty());
    app.thread.composer.set_text("  Build it  ");
    let effects = app.send_prompt();
    let generation = match effects.last() {
        Some(Effect::StartSession { generation, cwd, prompt, resume: None })
            if cwd == "/p" && prompt == "Build it" =>
        {
            *generation
        }
        other => panic!("{other:?}"),
    };
    assert!(app.turn.running);
    assert!(!app.session_started(generation.wrapping_add(1), None));
    assert!(app.session_started(generation, None));
    app.codex_event_arrived(
        generation,
        CodexEvent::SessionReady { thread_id: "provider".to_owned(), model: "m".to_owned() },
        None,
    );
    assert_eq!(app.turn.provider_thread_id.as_deref(), Some("provider"));
    app.codex_event_arrived(
        generation.wrapping_add(1),
        CodexEvent::Error("late".to_owned()),
        None,
    );
    assert_eq!(said(&app), "Codex app-server session ready · m");
    let effects = app.codex_event_arrived(
        generation,
        CodexEvent::TurnCompleted { status: "completed".to_owned(), error: None },
        Some(repository("/p")),
    );
    assert!(matches!(effects.as_slice(), [Effect::Notify(_), Effect::SaveThread(_)]));
    assert!(!app.turn.running);
    app.thread.composer.set_text("again");
    assert!(matches!(
        app.send_prompt().last(),
        Some(Effect::StartTurn { prompt, .. }) if prompt == "again"
    ));
    assert_eq!(app.cancel_turn(), vec![Effect::Interrupt]);
    app.interrupt_failed("gone");
    assert_eq!(said(&app), "Could not cancel Codex turn: gone");
    let generation = app.turn.generation;
    app.turn_not_started(generation, "busy");
    assert_eq!(said(&app), "Could not start Codex turn: busy");
    assert!(!app.turn.running);
}

#[test]
fn parts_of_a_message_join_in_place() {
    let mut app = ready();
    let before = app.thread.messages.len();
    for part in ["Hel", "lo"] {
        app.handle_codex_event(
            CodexEvent::AgentMessageDelta { item_id: "i".to_owned(), delta: part.to_owned() },
            None,
        );
    }
    assert_eq!(app.thread.messages.len(), before + 1);
    assert_eq!(said(&app), "Hello");
    app.handle_codex_event(
        CodexEvent::AgentMessageCompleted { item_id: "i".to_owned(), text: "Hello!".to_owned() },
        None,
    );
    assert_eq!(app.thread.messages.len(), before + 1);
    assert_eq!(said(&app), "Hello!");
    app.handle_codex_event(
        CodexEvent::CommandCompleted {
            item_id: "c".to_owned(),
            command: "make".to_owned(),
            exit_code: Some(2),
            output: "bad".to_owned(),
        },
        None,
    );
    assert_eq!(app.thread.messages.last().expect("a report").role, MessageRole::Tool);
    assert!(said(&app).contains("make"));
}

#[test]
fn previews_are_short() {
    let mut app = ready();
    app.handle_codex_event(
        CodexEvent::ReasoningDelta {
            item_id: "r".to_owned(),
            content_index: 0,
            delta: "é".repeat(400),
        },
        None,
    );
    assert!(app.turn.reasoning_preview.len() < MAX_REASONING_PREVIEW + 4);
    assert!(app.turn.reasoning_preview.chars().all(|c| c == 'é'));
}

#[test]
fn approvals_are_answered_once() {
    let mut app = ready();
    let request = |id: i64| ApprovalRequest {
        rpc_id: RpcId::Number(id),
        kind: ApprovalKind::Command,
        item_id: "i".to_owned(),
        title: "make".to_owned(),
        detail: String::new(),
    };
    app.turn.session = true;
    app.handle_codex_event(CodexEvent::ApprovalRequested(request(1)), None);
    app.handle_codex_event(CodexEvent::ApprovalRequested(request(2)), None);
    assert_eq!(app.render_messages().approvals.len(), 2);
    let effects = app.respond_to_approval(0, "accept");
    assert_eq!(
        effects,
        vec![Effect::Answer { request: request(1), decision: "accept".to_owned() }]
    );
    assert_eq!(app.turn.approvals, vec![request(2)]);
    assert!(app.respond_to_approval(7, "accept").is_empty());
    app.approval_answered(ApprovalKind::Command, "accept", None);
    let accepted = said(&app).to_owned();
    app.approval_answered(ApprovalKind::Command, "accept", Some("gone".to_owned()));
    assert_ne!(said(&app), accepted);
    app.handle_codex_event(CodexEvent::Exited, None);
    assert!(!app.turn.session);
    assert!(!matches!(app.respond_to_approval(0, "decline").first(), Some(Effect::Answer { .. })));
}

#[test]
fn a_login_leads_back_to_the_surface_it_left() {
    let mut app = ready();
    app.navigate_to(AppRoute::SourceControl);
    assert_eq!(app.surface.route, AppRoute::SourceControl);
    let effects = app.refresh_codex_account();
    assert_eq!(app.surface.route, AppRoute::Login);
    let generation = match effects.as_slice() {
        [Effect::ReadAccount { generation }] => *generation,
        other => panic!("{other:?}"),
    };
    app.account_read(
        generation,
        Ok(CodexAccountStatus { account: None, requires_openai_auth: true }),
    );
    assert_eq!(app.account.auth, CodexAuthState::SignedOut);
    let generation = match app.sign_in_codex().as_slice() {
        [Effect::BeginLogin { generation }] => *generation,
        other => panic!("{other:?}"),
    };
    assert!(app.sign_in_codex().is_empty());
    let login = PendingCodexLogin {
        login_id: "l".to_owned(),
        auth_url: "https://a.example".to_owned(),
    };
    assert_eq!(
        app.login_begun(generation, Ok(login)),
        vec![
            Effect::OpenUrl("https://a.example".to_owned()),
            Effect::AwaitLogin { generation },
        ]
    );
    assert_eq!(
        app.reopen_codex_login(),
        vec![Effect::OpenUrl("https://a.example".to_owned())]
    );
    assert_eq!(app.render_auth_onboarding().controls.len(), 2);
    app.login_ended(generation.wrapping_add(1), Err("late".to_owned()));
    assert!(matches!(app.account.auth, CodexAuthState::BrowserPending { .. }));
    app.login_ended(
        generation,
        Ok(CodexLoginOutcome::Complete(CodexAccountStatus {
            account: Some(CodexAccount::ApiKey),
            requires_openai_auth: true,
        })),
    );
    assert_eq!(app.surface.route, AppRoute::SourceControl);
    assert!(app.account.codex_authenticated());
}

#[test]
fn a_cancellation_that_fails_changes_nothing() {
    let (mut app, _) = RodeApp::new(opening(vec![], None), None, true, "first");
    let generation = match app.sign_in_codex().as_slice() {
        [Effect::BeginLogin { generation }] => *generation,
        other => panic!("{other:?}"),
    };
    let login = PendingCodexLogin {
        login_id: "l".to_owned(),
        auth_url: "https://a.example".to_owned(),
    };
    app.login_begun(generation, Ok(login));
    let (handled, effects) = app.auth_key("escape");
    assert!(handled);
    assert_eq!(
        effects,
        vec![Effect::CancelLogin {
            generation,
            login_id: "l".to_owned(),
            auth_url: "https://a.example".to_owned(),
        }]
    );
    assert_eq!(app.account.auth, CodexAuthState::Cancelling);
    app.cancel_ended(
        generation,
        "l".to_owned(),
        "https://a.example".to_owned(),
        Some("refused".to_owned()),
    );
    assert!(matches!(app.account.auth, CodexAuthState::BrowserPending { .. }));
    assert_eq!(app.abandoned_login().as_deref(), Some("l"));
    assert_eq!(app.abandoned_login(), None);
    app.login_ended(generation, Ok(CodexLoginOutcome::Cancelled));
    assert_eq!(app.account.auth, CodexAuthState::SignedOut);
    assert_eq!(app.auth_key("escape").0, false);
}

#[test]
fn surfaces_are_guarded() {
    let (mut app, _) = RodeApp::new(opening(vec![], None), None, true, "first");
    assert!(app.navigate_to(AppRoute::Terminal).is_empty());
    assert_eq!(app.surface.route, AppRoute::Login);
    signed_in(&mut app);
    app.navigate_to(AppRoute::Terminal);
    assert_ne!(app.surface.route, AppRoute::Terminal);
    assert_eq!(app.toasts.items().len(), 1);
    let mut app = ready();
    let effects = app.navigate_to(AppRoute::Terminal);
    assert!(effects.contains(&Effect::StartTerminal { cwd: "/p".to_owned() }));
    assert_eq!(app.terminal_started(), vec![Effect::Focus(FocusTarget::Terminal)]);
    assert!(app.terminal_here());
    assert!(app.ensure_terminal().is_empty());
    assert_eq!(app.render().0, Screen::Terminal);
    app.close_terminal();
    assert_eq!(app.surface.route, AppRoute::Workspace);
}

#[test]
fn settings_are_shown_and_kept() {
    let mut app = ready();
    assert_eq!(
        app.set_theme(ThemeKind::Daylight),
        vec![
            Effect::ThemeTerminals(ThemeKind::Daylight),
            Effect::SaveTheme("daylight".to_owned()),
        ]
    );
    assert!(app.set_theme(ThemeKind::Daylight).is_empty());
    app.cycle_theme();
    assert_ne!(app.surface.theme, ThemeKind::Daylight);
    app.set_settings_section(SettingsSection::Account);
    assert_eq!(app.render().0, Screen::Settings);
    assert_eq!(app.render_settings_route().sections.len(), SettingsSection::ALL.len());
    assert_eq!(app.render_app_rail().iter().filter(|item| item.selected).count(), 1);
    app.setting_failed(KeptSetting::Theme, "full");
    assert_eq!(
        app.toasts.items().back().expect("a notice").message,
        "Could not save the selected theme: full"
    );
    app.setting_failed(KeptSetting::Isolation, "full");
    assert_eq!(said(&app), "Could not save the thread isolation setting: full");
    app.surface.modal = Some(ModalState::Commit);
    assert_eq!(app.render_overlay().modal.as_deref(), Some("Commit changes"));
    assert_eq!(app.dismiss_modal(), vec![Effect::Focus(FocusTarget::Composer)]);
    assert!(app.dismiss_modal().is_empty());
}

#[test]
fn panels_open_and_close() {
    let mut app = ready();
    let shown = app.surface.show_diff;
    app.toggle_diff();
    assert_eq!(app.surface.show_diff, !shown);
    app.set_diff_view(DiffViewMode::Split);
    app.toggle_diff_layout();
    assert_eq!(app.surface.diff_view, DiffViewMode::Stack);
    app.toggle_create_menu();
    assert_eq!(app.render_sidebar().create_menu.len(), 2);
    let before = app.surface.show_settings;
    app.toggle_settings();
    assert_eq!(app.surface.show_settings, !before);
    let effects = app.toggle_terminal();
    assert!(effects.contains(&Effect::StartTerminal { cwd: "/p".to_owned() }));
    app.terminal_failed("no pty");
    assert!(!app.surface.show_terminal);
    assert_eq!(said(&app), "Could not start the native terminal: no pty");
}

#[test]
fn names_are_changed_or_left() {
    let mut app = ready();
    assert!(app.begin_rename(RenameTarget::Thread("missing".to_owned())).is_empty());
    assert_eq!(
        app.begin_rename(RenameTarget::Thread("a".to_owned())),
        vec![Effect::Focus(FocusTarget::Rename)]
    );
    assert_eq!(app.renaming.editor.text(), "Thread 1");
    app.renaming.editor.set_text("  ");
    assert_eq!(app.submit_rename(), vec![Effect::Focus(FocusTarget::Composer)]);
    app.begin_rename(RenameTarget::Thread("a".to_owned()));
    app.renaming.editor.set_text(" Better ");
    let effects = app.submit_rename();
    assert_eq!(
        effects[0],
        Effect::RenameThread { id: "a".to_owned(), title: "Better".to_owned() }
    );
    app.begin_rename(RenameTarget::Project("/p".to_owned()));
    assert_eq!(app.cancel_rename(), vec![Effect::Focus(FocusTarget::Composer)]);
    assert_eq!(app.renaming.target, None);
    app.rename_failed("taken");
    assert_eq!(said(&app), "Could not rename item: taken");
}

#[test]
fn operations_do_not_overlap() {
    let mut app = ready();
    app.publishing.editor.set_text("feat: it");
    assert_eq!(
        app.commit_changes(),
        vec![Effect::Publish {
            workspace: "/p".to_owned(),
            operation: PublishOperation::Commit("feat: it".to_owned()),
        }]
    );
    assert!(app.push_changes().is_empty());
    assert!(app.create_pr().is_empty());
    let done = PublishOperation::Commit("feat: it".to_owned());
    app.publish_ended(&done, Ok("abc".to_owned()), repository("/p"));
    assert!(app.publishing.operation.is_none());
    assert!(app.publishing.status.as_deref().expect("a status").contains("abc"));
    assert!(!app.push_changes().is_empty());
    let refused: Result<String, String> = Err("rejected".to_owned());
    assert!(report_operation(&PublishOperation::Push, &refused).contains("rejected"));
}

#[test]
fn rows_lead_to_their_threads() {
    let app = ready();
    let group = app.render_project_group(&app.known.projects[0]);
    let ids: Vec<&str> = group.threads.iter().map(|row| row.id.as_str()).collect();
    assert!(ids.contains(&"a") && ids.contains(&"b"));
    for row in &group.threads {
        assert_eq!(row.switch, UiAction::SwitchThread(row.id.clone()));
        assert!(!row.active);
    }
    assert_eq!(app.render_sidebar().projects.len(), 1);
    assert_ne!(label_session(&None), label_session(&Some("provider-1".to_owned())));
}

#[test]
fn known_projects_are_offered() {
    let (mut app, _) = RodeApp::new(
        opening(vec![project("one", "/p"), project("two", "/q")], None),
        None,
        true,
        "first",
    );
    signed_in(&mut app);
    let screen = app.render_project_onboarding(&vec![true, false]);
    assert_eq!(screen.recent.len(), 2);
    assert_ne!(screen.recent[0].status, screen.recent[1].status);
    assert_eq!(app.render().0, Screen::ChooseProject);
    app.cancel_selection();
    let idle = app.render_project_onboarding(&vec![true, false]);
    assert!(idle.browse.enabled && idle.browse_tab_stop);
    app.browse_project_folder();
    let busy = app.render_project_onboarding(&vec![true, false]);
    assert!(busy.browse.enabled && !busy.browse_tab_stop);
    assert_eq!(app.browse_project_folder().len(), 1);
}

#[test]
fn changed_files_are_shown_in_both_layouts() {
    let text = "diff --git a/f b/f\n--- a/f\n+++ b/f\n@@ -3,2 +3,2 @@\n same\n-old\n+new\n";
    let document = DiffDocument::parse(text);
    let stack = render_diff_file(&document.files[0], DiffViewMode::Stack, ThemeKind::Ember);
    assert_eq!((stack.additions.as_str(), stack.deletions.as_str()), ("+1", "−1"));
    match stack.blocks.as_slice() {
        [DiffBlock::Unchanged(_), DiffBlock::Stack { lines, .. }] => assert_eq!(lines.len(), 3),
        other => panic!("{other:?}"),
    }
    let split = render_diff_file(&document.files[0], DiffViewMode::Split, ThemeKind::Ember);
    match split.blocks.as_slice() {
        [DiffBlock::Unchanged(_), DiffBlock::Split { rows, .. }] => {
            assert_eq!(rows.len(), 2);
            assert_eq!((rows[1].left.text.as_str(), rows[1].right.text.as_str()), ("old", "new"));
        }
        other => panic!("{other:?}"),
    }
    assert!(render_unchanged_band(2).contains('2'));
    assert_eq!(render_line_number(Some(7)), "7");
    let mut app = ready();
    let mut repo = repository("/p");
    repo.diff = text.to_owned();
    repo.changed_files = 1;
    app.refresh_repo(repo);
    assert_eq!(app.render_diff().files.len(), 1);
    assert_eq!(app.render_publish_controls().buttons.len(), 3);
}

#[test]
fn controls_can_be_used_unless_disabled() {
    let go = button("Go", ButtonStyle::Primary, false, ThemeKind::Ember, UiAction::Push);
    assert!(go.enabled);
    assert_eq!(go.action, UiAction::Push);
    let off = button("Go", ButtonStyle::Primary, true, ThemeKind::Ember, UiAction::Push);
    assert!(!off.enabled);
    let row = selectable_row("Row", true, false, ThemeKind::Ember, UiAction::NewThread);
    assert!(row.enabled);
    let on = tab("Tab", true, ThemeKind::Ember, UiAction::NewThread);
    let other = tab("Tab", false, ThemeKind::Ember, UiAction::NewThread);
    assert_ne!(on, other);
    assert!(is_activation_key("enter") && is_activation_key("space"));
    assert!(!is_activation_key("a"));
}

#[test]
fn roles_are_found_again() {
    for role in [MessageRole::User, MessageRole::Agent, MessageRole::Tool, MessageRole::System] {
        assert_eq!(MessageRole::from_storage_name(role.storage_name()), role);
    }
    assert_eq!(MessageRole::from_storage_name("unheard of"), MessageRole::System);
}

#[test]
fn the_workspace_is_laid_out() {
    let mut app = ready();
    assert_eq!(app.render_header().title, "Thread 5");
    assert!(app.render_header().branch.contains("main"));
    assert!(app.render_header().cancel.is_none());
    assert_eq!(app.render_composer(), "Enter to send");
    app.turn.running = true;
    assert_eq!(app.render_composer(), "Turn running");
    assert!(app.render_header().cancel.is_some());
    assert!(!app.render_workspace_route(false).diff);
    assert_eq!(app.render_workspace_route(true).diff, app.surface.show_diff);
    assert_eq!(render_route_header(Screen::Terminal), Some(("Terminal", "Ctrl+3")));
    assert_eq!(render_route_header(Screen::Workspace), None);
    let running = app.render_terminal(Some(("zsh", false)));
    let ended = app.render_terminal(Some(("zsh", true)));
    assert_ne!(running, ended);
    assert_eq!(running.close.action, UiAction::CloseTerminal);
}
