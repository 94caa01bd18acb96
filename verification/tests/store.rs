//! The saved state: projects, threads, settings and older layouts of them.
use std::collections::hash_map::DefaultHasher;
use std::hash::{Hash, Hasher};

use rode::conversation::{CardKind, CardStatus, ConversationAttachment, ConversationCard};
use rode::persistence::{
    checked_event, ensure_schema_columns, folder_name, legacy_message_events, legacy_project_id,
    load_row, new_project_id, repaired_activity_time, repaired_identity, rode_state_dir,
    row_of_thread, stable_path_hash, usize_to_i64, StoredMessage, StoredProject, StoredThread,
    ThreadRow, SCHEMA_VERSION,
};
use rode::store::{save_failure, upsert_failure, StateStore, StoreError};

fn thread(id: &str, project: &str, name: &str) -> StoredThread {
    StoredThread {
        id: id.to_owned(),
        project_path: project.to_owned(),
        project_name: name.to_owned(),
        title: "Thread 1".to_owned(),
        workspace_path: project.to_owned(),
        branch: None,
        provider_thread_id: None,
        ordinal: 1,
        draft: String::new(),
        activity: "ready".to_owned(),
        activity_updated_ms: 100,
        base_branch: None,
        last_error: None,
        dirty_count: 0,
        unread: false,
        conversation_scroll_item: 0,
        conversation_scroll_offset_millis: 0,
        messages: Vec::new(),
        events: Vec::new(),
    }
}

fn busy_thread(project: &str, worktree: &str) -> StoredThread {
    StoredThread {
        title: "Native rendering".to_owned(),
        workspace_path: worktree.to_owned(),
        branch: Some("rode/thread-1-native-rendering".to_owned()),
        provider_thread_id: Some("provider-thread-1".to_owned()),
        draft: "Keep this draft".to_owned(),
        activity: "running".to_owned(),
        activity_updated_ms: 1234,
        base_branch: Some("main".to_owned()),
        dirty_count: 2,
        unread: true,
        conversation_scroll_item: 4,
        conversation_scroll_offset_millis: 12_500,
        messages: vec![
            StoredMessage { role: "user".to_owned(), text: "Build it".to_owned() },
            StoredMessage { role: "agent".to_owned(), text: "Done".to_owned() },
        ],
        events: vec![
            ConversationCard::stable(
                "user-turn-1",
                CardKind::UserMessage {
                    text: "Build it".to_owned(),
                    model: "gpt-5.4".to_owned(),
                    access: "workspace-write".to_owned(),
                    attachments: vec![ConversationAttachment::Legacy("design.png".to_owned())],
                },
                CardStatus::Complete,
                Some("turn-1".to_owned()),
            ),
            ConversationCard::stable(
                "assistant-turn-1",
                CardKind::AssistantMessage { text: "Done".to_owned() },
                CardStatus::Complete,
                Some("turn-1".to_owned()),
            ),
        ],
        ..thread("thread-1", project, "Rode project")
    }
}

#[test]
fn round_trips_active_thread_and_messages() {
    let project = "/state/project";
    let worktree = "/state/worktree";
    let mut store = StateStore::new();
    let thread = busy_thread(project, worktree);
    store.save_thread(&thread, 5_000, "project-1").expect("save thread");

    let loaded = store.load_active_thread(project).expect("active thread exists");
    assert_eq!(loaded, thread);
    assert_eq!(store.load_threads(project), vec![thread]);

    let mut streamed = loaded.events[1].clone();
    streamed.status = CardStatus::Running;
    streamed.kind =
        CardKind::AssistantMessage { text: "Done, with a streamed update".to_owned() };
    store.upsert_thread_event("thread-1", 1, &streamed, 5_001).expect("upsert streamed event");
    let streamed_thread = store.load_active_thread(project).expect("streamed thread exists");
    assert_eq!(streamed_thread.events.len(), 2);
    assert_eq!(streamed_thread.events[1], streamed);
    assert_eq!(streamed_thread.events[1].id, "assistant-turn-1");

    store.save_thread_draft("thread-1", "Updated draft");
    store.update_thread_activity(
        "thread-1",
        "error",
        Some("worktree failed".to_owned()),
        4,
        true,
        5_002,
    );
    let updated = store.load_active_thread(project).expect("updated active thread exists");
    assert_eq!(updated.draft, "Updated draft");
    assert_eq!(updated.activity, "error");
    assert!(updated.activity_updated_ms > 1234);
    assert_eq!(updated.last_error.as_deref(), Some("worktree failed"));
    assert_eq!(updated.dirty_count, 4);
    assert!(updated.unread);
    store.mark_thread_read("thread-1");
    assert!(!store.load_active_thread(project).unwrap().unread);
    let projects = store.load_projects();
    assert_eq!(projects.len(), 1);
    assert_eq!(projects[0].path, project);
    assert_eq!(projects[0].git_root, project);
    assert_eq!(projects[0].name, "Rode project");
    assert_eq!(projects[0].active_thread_id.as_deref(), Some("thread-1"));
    assert!(projects[0].last_opened_ms > 0);
    assert!(projects[0].settings_override.is_none());
    let stable_id = projects[0].id.clone();
    store.save_active_project_id(&stable_id);

    assert!(!store.load_bool_setting("isolate", false));
    store.save_bool_setting("isolate", true);
    assert!(store.load_bool_setting("isolate", false));
    store.save_string_setting("theme", "daylight");
    assert_eq!(store.load_string_setting("theme").as_deref(), Some("daylight"));

    let repaired_project = "/state/repaired-project";
    store
        .repair_project_path(project, repaired_project, "Repaired project", 5_003)
        .expect("repair project path");
    let repaired = store.load_projects();
    assert_eq!(repaired.len(), 1);
    assert_eq!(repaired[0].path, repaired_project);
    assert_eq!(repaired[0].name, "Repaired project");
    assert_eq!(repaired[0].id, stable_id);
    assert_eq!(store.load_active_project_id(), Some(stable_id));
    assert_eq!(
        store.load_active_thread(&repaired[0].path).expect("repaired active thread").project_path,
        repaired[0].path
    );
    store.remove_project(&repaired[0].path);
    assert!(store.load_projects().is_empty());
}

#[test]
fn saving_a_thread_does_not_reorder_projects() {
    let older = "/state/older";
    let newer = "/state/newer";
    let mut store = StateStore::new();
    store
        .save_project(&StoredProject::new(older.to_owned(), "Older".to_owned(), 1, 1), 100)
        .expect("save older project");
    store
        .save_project(&StoredProject::new(newer.to_owned(), "Newer".to_owned(), 1, 2), 200)
        .expect("save newer project");

    store
        .save_thread(&thread("older-thread", older, "Older"), 300, "unused")
        .expect("save thread in older project");

    let projects = store.load_projects();
    assert_eq!(projects[0].path, newer);
    assert_eq!(projects[0].last_opened_ms, 200);
    assert_eq!(projects[1].path, older);
    assert_eq!(projects[1].last_opened_ms, 100);

    store.save_project(&projects[1], 400).expect("open older project");
    let reordered = store.load_projects();
    assert_eq!(reordered[0].path, older);
    assert!(reordered[0].last_opened_ms > 200);
}

#[test]
fn upgrades_legacy_projects_with_stable_identity_and_git_root() {
    let legacy = ["path", "name", "active_thread_id", "last_opened_ms"];
    let columns: Vec<String> = legacy.iter().map(|c| c.to_string()).collect();
    let migration = ensure_schema_columns(0, &columns, &vec![])
        .expect("a known layout")
        .expect("columns are lacking");
    for added in [" id TEXT", " git_root TEXT", " settings_json TEXT"] {
        assert!(migration.projects.iter().any(|statement| statement.contains(added)), "{added}");
    }
    let path = "/tmp/legacy-rode-project";
    let (id, git_root) = repaired_identity(None, None, path, 7);
    assert!(id.starts_with("legacy-project-"));
    assert_eq!(git_root, path);
    assert_eq!(
        repaired_identity(Some("kept".to_owned()), Some("/root".to_owned()), path, 7),
        ("kept".to_owned(), "/root".to_owned())
    );
    assert!(legacy_project_id(path).starts_with("legacy-project-"));
    assert_eq!(legacy_project_id(path), legacy_project_id(path));
    assert_ne!(legacy_project_id(path), legacy_project_id("/tmp/another"));
    let mut hasher = DefaultHasher::new();
    path.hash(&mut hasher);
    assert_eq!(legacy_project_id(path), format!("legacy-project-{:016x}", hasher.finish()));
    assert_eq!(stable_path_hash(path), hasher.finish());
}

#[test]
fn transactionally_upgrades_legacy_thread_activity_columns() {
    let legacy = [
        "id",
        "project_path",
        "title",
        "workspace_path",
        "branch",
        "provider_thread_id",
        "ordinal",
        "updated_at_ms",
    ];
    let columns: Vec<String> = legacy.iter().map(|c| c.to_string()).collect();
    let migration = ensure_schema_columns(0, &vec![], &columns)
        .expect("a known layout")
        .expect("columns are lacking");
    for added in ["draft", "activity", "base_branch", "last_error", "dirty_count", "unread"] {
        assert!(migration.threads.iter().any(|statement| statement.contains(added)), "{added}");
    }
    let row = ThreadRow {
        id: "legacy-thread".to_owned(),
        project_path: "/tmp/legacy-thread-project".to_owned(),
        title: "Legacy thread".to_owned(),
        workspace_path: "/tmp/legacy-thread-project".to_owned(),
        branch: Some("main".to_owned()),
        provider_thread_id: None,
        ordinal: 1,
        updated_at_ms: 4242,
        draft: String::new(),
        activity: "waiting".to_owned(),
        activity_updated_ms: repaired_activity_time(0, 4242),
        base_branch: None,
        last_error: None,
        dirty_count: 0,
        unread: false,
        conversation_scroll_item: 0,
        conversation_scroll_offset_millis: 0,
        messages: vec![
            StoredMessage { role: "user".to_owned(), text: "Legacy request".to_owned() },
            StoredMessage { role: "agent".to_owned(), text: "Legacy response".to_owned() },
        ],
        events: Vec::new(),
    };
    let loaded = load_row(&row, "Legacy thread project".to_owned());
    assert_eq!(loaded.draft, "");
    assert_eq!(loaded.activity, "waiting");
    assert_eq!(loaded.activity_updated_ms, 4242);
    assert_eq!(loaded.base_branch, None);
    assert_eq!(loaded.last_error, None);
    assert_eq!(loaded.dirty_count, 0);
    assert!(!loaded.unread);
    assert_eq!(loaded.events.len(), 2);
    assert_eq!(loaded.events[0].id, "legacy-message-0");
    assert!(matches!(
        &loaded.events[0].kind,
        CardKind::UserMessage { text, .. } if text == "Legacy request"
    ));
    assert!(matches!(
        &loaded.events[1].kind,
        CardKind::AssistantMessage { text } if text == "Legacy response"
    ));
}

#[test]
fn complete_and_future_layouts_are_told_apart() {
    assert!(ensure_schema_columns(SCHEMA_VERSION + 1, &vec![], &vec![]).is_err());
    assert!(ensure_schema_columns(SCHEMA_VERSION, &vec![], &vec![]).expect("known").is_none());
    let first = ensure_schema_columns(0, &vec![], &vec![]).expect("known").expect("lacking");
    assert_eq!((first.projects.len(), first.threads.len()), (3, 9));
    assert_eq!(first.projects[0], "ALTER TABLE projects ADD COLUMN id TEXT");
}

#[test]
fn other_roles_of_older_messages_become_notices() {
    let cards = legacy_message_events(&vec![
        StoredMessage { role: "tool".to_owned(), text: "ran".to_owned() },
        StoredMessage { role: "assistant".to_owned(), text: "hello".to_owned() },
    ]);
    assert!(matches!(&cards[0].kind, CardKind::Notice { text, .. } if text == "ran"));
    assert!(matches!(&cards[1].kind, CardKind::AssistantMessage { text } if text == "hello"));
}

#[test]
fn each_refusal_of_the_store_has_its_input() {
    let mut store = StateStore::new();
    let first = StoredProject::with_id("same".to_owned(), "/a".to_owned(), "A".to_owned());
    let second = StoredProject::with_id("same".to_owned(), "/b".to_owned(), "B".to_owned());
    store.save_project(&first, 1).expect("save");
    assert_eq!(store.save_project(&second, 2), Err(StoreError::ProjectIdTaken));

    let card = ConversationCard::stable(
        "twice",
        CardKind::Reasoning { text: String::new() },
        CardStatus::Complete,
        None,
    );
    let mut doubled = thread("t", "/a", "A");
    doubled.events = vec![card.clone(), card.clone()];
    assert_eq!(store.save_thread(&doubled, 3, "fresh"), Err(StoreError::DuplicateEvent));
    assert_eq!(
        store.upsert_thread_event("unknown", 0, &card, 4),
        Err(StoreError::UnknownThread)
    );

    let other = StoredProject::with_id("other".to_owned(), "/b".to_owned(), "B".to_owned());
    store.save_project(&other, 5).expect("save");
    assert_eq!(store.repair_project_path("/a", "/b", "B", 6), Err(StoreError::AlreadySaved));
    assert_eq!(store.repair_project_path("/gone", "/c", "C", 7), Err(StoreError::NotSaved));
    for error in [
        StoreError::ProjectIdTaken,
        StoreError::DuplicateEvent,
        StoreError::UnknownThread,
        StoreError::AlreadySaved,
        StoreError::NotSaved,
    ] {
        assert!(!error.message().is_empty());
    }
}

#[test]
fn other_threads_and_settings_stay() {
    let mut store = StateStore::new();
    store.save_thread(&thread("one", "/a", "A"), 1, "p-a").expect("save");
    store.save_thread(&thread("two", "/b", "B"), 2, "p-b").expect("save");
    store.save_string_setting("k", "v");
    let before = store.load_thread("one").expect("one");
    let mut changed = thread("two", "/b", "B");
    changed.title = "Other".to_owned();
    store.save_thread(&changed, 3, "p-b").expect("save");
    assert_eq!(store.load_thread("one"), Some(before));
    assert_eq!(store.load_thread("two").expect("two").title, "Other");
    assert_eq!(store.load_string_setting("k").as_deref(), Some("v"));
    store.rename_thread("one", "Renamed", 4);
    store.rename_project("/a", "Project A");
    let renamed = store.load_thread("one").expect("one");
    assert_eq!((renamed.title.as_str(), renamed.project_name.as_str()), ("Renamed", "Project A"));
    store.remove_project("/a");
    assert_eq!(store.load_thread("one"), None);
    assert!(store.load_thread("two").is_some());
}

#[test]
fn a_store_is_restored_from_its_rows() {
    let project = StoredProject::with_id("p".to_owned(), "/a".to_owned(), "A".to_owned());
    let row = row_of_thread(&thread("t", "/a", "A"), 9);
    let settings = vec![("k".to_owned(), "v".to_owned())];
    let store = StateStore::restore(vec![project.clone()], vec![row], &settings).expect("rows");
    assert_eq!(store.load_thread("t"), Some(thread("t", "/a", "A")));
    assert_eq!(store.load_string_setting("k").as_deref(), Some("v"));
    assert!(StateStore::restore(vec![project.clone(), project], vec![], &vec![]).is_none());
}

#[test]
fn identities_and_places_are_spelled_exactly() {
    assert_eq!(new_project_id(5, 6, 7, 255), "project-5-6-f8");
    assert_eq!(usize_to_i64(7), 7);
    assert_eq!(usize_to_i64(usize::MAX), i64::MAX);
    assert_eq!(folder_name("/home/me/code"), "code");
    assert_eq!(
        rode_state_dir(Some("/state".to_owned()), Some("/home/me".to_owned())).as_deref(),
        Ok("/state/rode")
    );
    assert_eq!(
        rode_state_dir(None, Some("/home/me".to_owned())).as_deref(),
        Ok("/home/me/.local/state/rode")
    );
    assert!(rode_state_dir(None, None).is_err());
}

#[test]
fn a_card_under_another_identity_is_refused() {
    let card = ConversationCard::stable(
        "a",
        CardKind::Reasoning { text: String::new() },
        CardStatus::Complete,
        None,
    );
    assert!(checked_event("a", card.clone()).is_ok());
    assert!(checked_event("b", card).is_err());
}

#[test]
fn cards_of_a_thread_are_replaced_at_once() {
    let mut store = StateStore::new();
    store.save_thread(&busy_thread("/a", "/a/work"), 1, "p").expect("save");
    let card = |id: &str| {
        ConversationCard::stable(
            id,
            CardKind::Reasoning { text: String::new() },
            CardStatus::Complete,
            None,
        )
    };
    store.save_thread_events("thread-1", &vec![card("x"), card("y")], 2).expect("save cards");
    let loaded = store.load_thread("thread-1").expect("thread");
    assert_eq!(loaded.events.iter().map(|e| e.id.as_str()).collect::<Vec<_>>(), ["x", "y"]);
    assert_eq!(
        store.save_thread_events("thread-1", &vec![card("x"), card("x")], 3),
        Err(StoreError::DuplicateEvent)
    );
    assert_eq!(store.load_thread("thread-1").expect("thread").events.len(), 2);
}

fn reasoning(id: &str) -> ConversationCard {
    ConversationCard::stable(
        id,
        CardKind::Reasoning { text: String::new() },
        CardStatus::Complete,
        None,
    )
}

#[test]
fn failures_name_the_card_that_they_came_with() {
    let cards = vec![reasoning("x"), reasoning("y"), reasoning("y"), reasoning("x")];
    assert_eq!(
        save_failure(&cards, StoreError::DuplicateEvent),
        "failed to save conversation event y: UNIQUE constraint failed: \
         conversation_events.thread_id, conversation_events.event_id"
    );
    assert_eq!(
        save_failure(&cards, StoreError::UnknownThread),
        "failed to save conversation event x: FOREIGN KEY constraint failed"
    );
    assert_eq!(
        save_failure(&cards, StoreError::ProjectIdTaken),
        StoreError::ProjectIdTaken.message()
    );
    assert_eq!(
        upsert_failure(&cards[1], StoreError::UnknownThread),
        "failed to upsert conversation event y: FOREIGN KEY constraint failed"
    );
}

#[test]
fn one_card_is_put_at_its_place_and_read_back() {
    let mut store = StateStore::new();
    store.save_thread(&busy_thread("/a", "/a/work"), 1, "p").expect("save");
    let read = |store: &StateStore| -> Vec<String> {
        let thread = store.load_thread("thread-1").expect("thread");
        thread.events.into_iter().map(|event| event.id).collect()
    };
    store.save_thread_events("thread-1", &vec![reasoning("x"), reasoning("y")], 2).expect("cards");
    store.upsert_thread_event("thread-1", 2, &reasoning("z"), 3).expect("a new card");
    assert_eq!(read(&store), ["x", "y", "z"]);
    store.upsert_thread_event("thread-1", 9, &reasoning("x"), 4).expect("a known card");
    assert_eq!(read(&store), ["y", "z", "x"]);
    assert_eq!(
        store.upsert_thread_event("missing", 0, &reasoning("x"), 5),
        Err(StoreError::UnknownThread)
    );
}

#[test]
fn renaming_by_a_thread_keeps_the_order_and_the_thread_is_listed_once() {
    let mut store = StateStore::new();
    for (at, path) in [(1, "/a"), (2, "/b"), (3, "/c")] {
        let project = StoredProject::new(path.to_owned(), path.to_owned(), 7, at as u64);
        store.save_project(&project, at).expect("save project");
    }
    let order = |store: &StateStore| -> Vec<String> {
        store.load_projects().into_iter().map(|project| project.path).collect()
    };
    assert_eq!(order(&store), ["/c", "/b", "/a"]);
    for now in [10, 11] {
        store.save_thread(&thread("t", "/a", "A renamed"), now, "fresh").expect("save thread");
        assert_eq!(order(&store), ["/c", "/b", "/a"]);
    }
    store.save_thread(&thread("u", "/a", "A"), 12, "fresh").expect("save thread");
    let listed: Vec<String> = store.load_threads("/a").into_iter().map(|t| t.id).collect();
    assert_eq!(listed.iter().filter(|id| *id == "t").count(), 1);
    assert_eq!(listed.len(), 2);
    assert_eq!(store.load_active_thread("/a").expect("a thread").id, "u");
}
