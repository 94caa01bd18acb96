//! The store of projects, threads and settings: what each change does to it, and what is read
//! from it.
use vstd::hash_map::StringHashMap;
use vstd::prelude::*;
use vstd::string::*;

use crate::conversation::{CardModel, ConversationCard};
use crate::persistence;
use crate::persistence::{
    event_rows, events_differ, events_ordered, folder_title, stored_count, thread_of_row, thread_row,
};
use crate::persistence::{EventRow, EventRowModel, ProjectModel, StoredProject, StoredThread};
use crate::persistence::{ThreadModel, ThreadRow, ThreadRowModel};
use crate::text;
use crate::text::{ascii_folded, has_part, parts_are_held, text_lt};
use crate::views::{opt_view, views, views_index, views_push, views_update};

verus! {

/// Why a change was not made.
#[derive(Clone, Copy, Debug, PartialEq, Eq, Structural)]
pub enum StoreError {
    /// Another project has the id.
    ProjectIdTaken,
    /// Two cards of a conversation have one id.
    DuplicateEvent,
    /// There is no such thread.
    UnknownThread,
    /// The folder that a project is to move to is a project already.
    AlreadySaved,
    /// There is no such project.
    NotSaved,
}

/// What an error says.
pub open spec fn error_text(e: StoreError) -> Seq<char> {
    match e {
        StoreError::ProjectIdTaken => "UNIQUE constraint failed: projects.id"@,
        StoreError::DuplicateEvent => "UNIQUE constraint failed: conversation_events.thread_id, conversation_events.event_id"@,
        StoreError::UnknownThread => "FOREIGN KEY constraint failed"@,
        StoreError::AlreadySaved => "the replacement folder is already a saved Rode project"@,
        StoreError::NotSaved => "the project being repaired is no longer saved"@,
    }
}

impl StoreError {
    pub fn message(&self) -> (r: &'static str)
        ensures
            r@ == error_text(*self),
    {
        match self {
            StoreError::ProjectIdTaken => "UNIQUE constraint failed: projects.id",
            StoreError::DuplicateEvent => "UNIQUE constraint failed: conversation_events.thread_id, conversation_events.event_id",
            StoreError::UnknownThread => "FOREIGN KEY constraint failed",
            StoreError::AlreadySaved => "the replacement folder is already a saved Rode project",
            StoreError::NotSaved => "the project being repaired is no longer saved",
        }
    }
}

/// What a store holds. Rows stand in the order in which they came.
#[verifier::ext_equal]
pub struct StoreModel {
    pub projects: Seq<ProjectModel>,
    pub threads: Seq<ThreadRowModel>,
    pub settings: Map<Seq<char>, Seq<char>>,
}

/// The position, from `i` on, of the project with a path.
pub open spec fn project_from(projects: Seq<ProjectModel>, path: Seq<char>, i: int) -> Option<int>
    decreases projects.len() - i,
{
    if i < 0 || i >= projects.len() {
        None
    } else if projects[i].path == path {
        Some(i)
    } else {
        project_from(projects, path, i + 1)
    }
}

/// The position, from `i` on, of the thread with an id.
pub open spec fn thread_from(threads: Seq<ThreadRowModel>, id: Seq<char>, i: int) -> Option<int>
    decreases threads.len() - i,
{
    if i < 0 || i >= threads.len() {
        None
    } else if threads[i].id == id {
        Some(i)
    } else {
        thread_from(threads, id, i + 1)
    }
}

/// The position, from `i` on, of the card with an id.
pub open spec fn event_from(events: Seq<EventRowModel>, id: Seq<char>, i: int) -> Option<int>
    decreases events.len() - i,
{
    if i < 0 || i >= events.len() {
        None
    } else if events[i].card.id == id {
        Some(i)
    } else {
        event_from(events, id, i + 1)
    }
}

/// Whether a project has an id.
pub open spec fn id_taken(projects: Seq<ProjectModel>, id: Seq<char>) -> bool {
    exists|i: int| 0 <= i < projects.len() && (#[trigger] projects[i]).id == id
}

/// Whether two cards have one id.
pub open spec fn ids_repeat(events: Seq<CardModel>) -> bool {
    exists|i: int, j: int|
        0 <= i < j < events.len() && (#[trigger] events[i]).id == (#[trigger] events[j]).id
}

impl StoreModel {
    /// No two projects have one path or one id, no two threads have one id, and no two cards of
    /// a thread have one id.
    pub open spec fn wf(self) -> bool {
        &&& forall|i: int, j: int|
            0 <= i < j < self.projects.len() ==> (#[trigger] self.projects[i]).path != (
            #[trigger] self.projects[j]).path && self.projects[i].id != self.projects[j].id
        &&& forall|i: int, j: int|
            0 <= i < j < self.threads.len() ==> (#[trigger] self.threads[i]).id != (
            #[trigger] self.threads[j]).id
        &&& forall|i: int| 0 <= i < self.threads.len() ==> events_differ((#[trigger] self.threads[i]).events)
    }
}

/// A store without anything.
pub open spec fn empty_store() -> StoreModel {
    StoreModel { projects: Seq::empty(), threads: Seq::empty(), settings: Map::empty() }
}

/// The store after a project was saved: opened now. A known project keeps its id, and the thread
/// that was active where none is given.
pub open spec fn project_saved(st: StoreModel, p: ProjectModel, now: i64) -> Result<
    StoreModel,
    StoreError,
> {
    match project_from(st.projects, p.path, 0) {
        Some(i) => {
            let known = st.projects[i];
            Ok(
                StoreModel {
                    projects: st.projects.update(
                        i,
                        ProjectModel {
                            git_root: p.git_root,
                            name: p.name,
                            active_thread_id: match p.active_thread_id {
                                Some(id) => Some(id),
                                None => known.active_thread_id,
                            },
                            last_opened_ms: now,
                            settings_override: p.settings_override,
                            ..known
                        },
                    ),
                    ..st
                },
            )
        },
        None => if id_taken(st.projects, p.id) {
            Err(StoreError::ProjectIdTaken)
        } else {
            Ok(
                StoreModel {
                    projects: st.projects.push(ProjectModel { last_opened_ms: now, ..p }),
                    ..st
                },
            )
        },
    }
}

/// The projects after a thread was saved in one of them: it is made where it is not known, and
/// keeps the time at which it was opened where it is.
pub open spec fn projects_with_thread(
    projects: Seq<ProjectModel>,
    thread: ThreadModel,
    now: i64,
    fresh_id: Seq<char>,
) -> Result<Seq<ProjectModel>, StoreError> {
    match project_from(projects, thread.project_path, 0) {
        Some(i) => Ok(
            projects.update(
                i,
                ProjectModel {
                    git_root: thread.project_path,
                    name: thread.project_name,
                    active_thread_id: Some(thread.id),
                    ..projects[i]
                },
            ),
        ),
        None => if id_taken(projects, fresh_id) {
            Err(StoreError::ProjectIdTaken)
        } else {
            Ok(
                projects.push(
                    ProjectModel {
                        id: fresh_id,
                        path: thread.project_path,
                        git_root: thread.project_path,
                        name: thread.project_name,
                        active_thread_id: Some(thread.id),
                        last_opened_ms: now,
                        settings_override: None,
                    },
                ),
            )
        },
    }
}

/// The store after a thread was saved, which is then the active one of its project.
pub open spec fn thread_saved(
    st: StoreModel,
    thread: ThreadModel,
    now: i64,
    fresh_id: Seq<char>,
) -> Result<StoreModel, StoreError> {
    match projects_with_thread(st.projects, thread, now, fresh_id) {
        Err(e) => Err(e),
        Ok(projects) => if ids_repeat(thread.events) {
            Err(StoreError::DuplicateEvent)
        } else {
            let row = thread_row(thread, now);
            Ok(
                StoreModel {
                    projects,
                    threads: match thread_from(st.threads, thread.id, 0) {
                        Some(i) => st.threads.update(i, row),
                        None => st.threads.push(row),
                    },
                    ..st
                },
            )
        },
    }
}

/// The store with the row of a thread changed; nothing changes where there is no such thread.
pub open spec fn thread_changed(
    st: StoreModel,
    id: Seq<char>,
    change: spec_fn(ThreadRowModel) -> ThreadRowModel,
) -> StoreModel {
    match thread_from(st.threads, id, 0) {
        Some(i) => StoreModel { threads: st.threads.update(i, change(st.threads[i])), ..st },
        None => st,
    }
}

/// The store after the draft of a thread was saved.
pub open spec fn draft_saved(st: StoreModel, id: Seq<char>, draft: Seq<char>) -> StoreModel {
    thread_changed(st, id, |row: ThreadRowModel| ThreadRowModel { draft, ..row })
}

/// The store after a thread was given another title.
pub open spec fn thread_renamed(st: StoreModel, id: Seq<char>, title: Seq<char>, now: i64) -> StoreModel {
    thread_changed(
        st,
        id,
        |row: ThreadRowModel| ThreadRowModel { title, updated_at_ms: now, ..row },
    )
}

/// The store after what a thread does was saved.
pub open spec fn activity_saved(
    st: StoreModel,
    id: Seq<char>,
    activity: Seq<char>,
    last_error: Option<Seq<char>>,
    dirty_count: usize,
    unread: bool,
    now: i64,
) -> StoreModel {
    thread_changed(
        st,
        id,
        |row: ThreadRowModel|
            ThreadRowModel {
                activity,
                activity_updated_ms: now,
                last_error,
                dirty_count: stored_count(dirty_count),
                unread,
                updated_at_ms: now,
                ..row
            },
    )
}

/// The store after a thread was read.
pub open spec fn thread_read(st: StoreModel, id: Seq<char>) -> StoreModel {
    thread_changed(st, id, |row: ThreadRowModel| ThreadRowModel { unread: false, ..row })
}

/// The store after a project was given another name.
pub open spec fn project_renamed(st: StoreModel, path: Seq<char>, name: Seq<char>) -> StoreModel {
    match project_from(st.projects, path, 0) {
        Some(i) => StoreModel {
            projects: st.projects.update(i, ProjectModel { name, ..st.projects[i] }),
            ..st
        },
        None => st,
    }
}

/// The store after a setting was saved.
pub open spec fn setting_saved(st: StoreModel, key: Seq<char>, value: Seq<char>) -> StoreModel {
    StoreModel { settings: st.settings.insert(key, value), ..st }
}

/// The store after a setting that is on or off was saved.
pub open spec fn switch_saved(st: StoreModel, key: Seq<char>, value: bool) -> StoreModel {
    setting_saved(
        st,
        key,
        if value {
            "true"@
        } else {
            "false"@
        },
    )
}

/// Whether a setting is on.
pub open spec fn switched_on(st: StoreModel, key: Seq<char>, default: bool) -> bool {
    match setting(st, key) {
        Some(value) => value == "true"@,
        None => default,
    }
}

/// The store after it was saved which project is active.
pub open spec fn active_saved(st: StoreModel, id: Seq<char>) -> StoreModel {
    setting_saved(st, "active_project_id"@, id)
}

/// The id of the active project.
pub open spec fn active_id(st: StoreModel) -> Option<Seq<char>> {
    setting(st, "active_project_id"@)
}

/// The threads of a project as they are loaded.
pub open spec fn threads_loaded(st: StoreModel, path: Seq<char>) -> Seq<ThreadModel> {
    threads_of(st.threads, path).map_values(
        |row: ThreadRowModel| thread_of_row(row, project_name(st, row.project_path)),
    )
}

/// A store of projects, threads and settings.
pub struct StateStore {
    projects: Vec<StoredProject>,
    threads: Vec<ThreadRow>,
    settings: StringHashMap<String>,
}

impl View for StateStore {
    type V = StoreModel;

    closed spec fn view(&self) -> StoreModel {
        StoreModel {
            projects: views(self.projects@),
            threads: views(self.threads@),
            settings: self.settings@.map_values(|s: String| s@),
        }
    }
}

/// See [`project_from`].
fn find_project(projects: &Vec<StoredProject>, path: &str) -> (r: Option<usize>)
    ensures
        match r {
            Some(i) => project_from(views(projects@), path@, 0) == Some(i as int) && i
                < projects.len() && views(projects@)[i as int].path == path@,
            None => project_from(views(projects@), path@, 0) is None && forall|k: int|
                0 <= k < projects.len() ==> (#[trigger] views(projects@)[k]).path != path@,
        },
{
    let ghost all = views(projects@);
    let mut i: usize = 0;
    while i < projects.len()
        invariant
            all == views(projects@),
            i <= projects.len(),
            project_from(all, path@, 0) == project_from(all, path@, i as int),
            forall|k: int| 0 <= k < i ==> (#[trigger] all[k]).path != path@,
        decreases projects.len() - i,
    {
        assert(all[i as int] == projects@[i as int]@);
        if text::same(projects[i].path.as_str(), path) {
            return Some(i);
        }
        i = i + 1;
    }
    None
}

/// See [`thread_from`].
fn find_thread(threads: &Vec<ThreadRow>, id: &str) -> (r: Option<usize>)
    ensures
        match r {
            Some(i) => thread_from(views(threads@), id@, 0) == Some(i as int) && i < threads.len()
                && views(threads@)[i as int].id == id@,
            None => thread_from(views(threads@), id@, 0) is None && forall|k: int|
                0 <= k < threads.len() ==> (#[trigger] views(threads@)[k]).id != id@,
        },
{
    let ghost all = views(threads@);
    let mut i: usize = 0;
    while i < threads.len()
        invariant
            all == views(threads@),
            i <= threads.len(),
            thread_from(all, id@, 0) == thread_from(all, id@, i as int),
            forall|k: int| 0 <= k < i ==> (#[trigger] all[k]).id != id@,
        decreases threads.len() - i,
    {
        assert(all[i as int] == threads@[i as int]@);
        if text::same(threads[i].id.as_str(), id) {
            return Some(i);
        }
        i = i + 1;
    }
    None
}

/// See [`event_from`].
fn find_event(events: &Vec<EventRow>, id: &str) -> (r: Option<usize>)
    ensures
        match r {
            Some(i) => event_from(views(events@), id@, 0) == Some(i as int) && i < events.len()
                && views(events@)[i as int].card.id == id@,
            None => event_from(views(events@), id@, 0) is None && forall|k: int|
                0 <= k < events.len() ==> (#[trigger] views(events@)[k]).card.id != id@,
        },
{
    let ghost all = views(events@);
    let mut i: usize = 0;
    while i < events.len()
        invariant
            all == views(events@),
            i <= events.len(),
            event_from(all, id@, 0) == event_from(all, id@, i as int),
            forall|k: int| 0 <= k < i ==> (#[trigger] all[k]).card.id != id@,
        decreases events.len() - i,
    {
        assert(all[i as int] == events@[i as int]@);
        if text::same(events[i].card.id.as_str(), id) {
            return Some(i);
        }
        i = i + 1;
    }
    None
}

/// See [`id_taken`].
fn has_id(projects: &Vec<StoredProject>, id: &str) -> (r: bool)
    ensures
        r == id_taken(views(projects@), id@),
{
    let mut i: usize = 0;
    while i < projects.len()
        invariant
            i <= projects.len(),
            forall|k: int| 0 <= k < i ==> (#[trigger] views(projects@)[k]).id != id@,
        decreases projects.len() - i,
    {
        assert(views(projects@)[i as int] == projects@[i as int]@);
        if text::same(projects[i].id.as_str(), id) {
            return true;
        }
        i = i + 1;
    }
    false
}

/// The first card, from `i` on, with an id that a card before it has.
pub open spec fn repeat_from(events: Seq<CardModel>, i: int) -> Option<int>
    decreases events.len() - i,
{
    if i < 0 || i >= events.len() {
        None
    } else if exists|k: int| 0 <= k < i && (#[trigger] events[k]).id == events[i].id {
        Some(i)
    } else {
        repeat_from(events, i + 1)
    }
}

/// The first card with an id that a card before it has; see [`ids_repeat`].
pub fn first_repeated(events: &Vec<ConversationCard>) -> (r: Option<usize>)
    ensures
        r is Some == ids_repeat(views(events@)),
        match r {
            Some(i) => repeat_from(views(events@), 0) == Some(i as int) && i < events@.len(),
            None => repeat_from(views(events@), 0) is None,
        },
{
    let ghost all = views(events@);
    let mut seen: StringHashMap<usize> = StringHashMap::new();
    let mut i: usize = 0;
    while i < events.len()
        invariant
            all == views(events@),
            i <= events.len(),
            repeat_from(all, 0) == repeat_from(all, i as int),
            forall|k: int| 0 <= k < i ==> seen@.contains_key((#[trigger] all[k]).id),
            forall|id: Seq<char>| #[trigger]
                seen@.contains_key(id) ==> seen@[id] < i && all[seen@[id] as int].id == id,
            forall|a: int, b: int|
                0 <= a < b < i ==> (#[trigger] all[a]).id != (#[trigger] all[b]).id,
        decreases events.len() - i,
    {
        assert(all[i as int] == events@[i as int]@);
        if seen.contains_key(events[i].id.as_str()) {
            proof {
                let k = seen@[all[i as int].id] as int;
                assert(all[k].id == all[i as int].id);
            }
            return Some(i);
        }
        seen.insert(events[i].id.clone(), i);
        i = i + 1;
    }
    None
}

/// What is said where the cards of a thread could not be saved: the card is named with which
/// it came to an end.
pub open spec fn saving_failure(events: Seq<CardModel>, e: StoreError) -> Seq<char> {
    let at = match e {
        StoreError::DuplicateEvent => repeat_from(events, 0),
        StoreError::UnknownThread => if events.len() > 0 {
            Some(0)
        } else {
            None
        },
        _ => None,
    };
    match at {
        Some(i) => "failed to save conversation event "@ + events[i].id + ": "@ + error_text(e),
        None => error_text(e),
    }
}

/// See [`saving_failure`].
pub fn save_failure(events: &Vec<ConversationCard>, error: StoreError) -> (r: String)
    ensures
        r@ == saving_failure(views(events@), error),
{
    broadcast use views_index;

    let at: Option<usize> = match error {
        StoreError::DuplicateEvent => first_repeated(events),
        StoreError::UnknownThread => if events.len() > 0 {
            Some(0)
        } else {
            None
        },
        _ => None,
    };
    match at {
        Some(i) => {
            let mut r = text::concat("failed to save conversation event ", events[i].id.as_str());
            r.append(": ");
            r.append(error.message());
            r
        },
        None => error.message().to_owned(),
    }
}

/// What is said where one card of a thread could not be put.
pub open spec fn upserting_failure(id: Seq<char>, e: StoreError) -> Seq<char> {
    "failed to upsert conversation event "@ + id + ": "@ + error_text(e)
}

/// See [`upserting_failure`].
pub fn upsert_failure(event: &ConversationCard, error: StoreError) -> (r: String)
    ensures
        r@ == upserting_failure(event@.id, error),
{
    let mut r = text::concat("failed to upsert conversation event ", event.id.as_str());
    r.append(": ");
    r.append(error.message());
    r
}

impl StateStore {
    /// See [`StoreModel::wf`].
    pub open spec fn wf(&self) -> bool {
        self@.wf()
    }

    /// A store without anything.
    pub fn new() -> (r: Self)
        ensures
            r@ == empty_store(),
            r.wf(),
    {
        let r = StateStore {
            projects: Vec::new(),
            threads: Vec::new(),
            settings: StringHashMap::new(),
        };
        assert(r@ =~= empty_store());
        r
    }

    /// See [`project_saved`].
    pub fn save_project(&mut self, project: &StoredProject, now: i64) -> (r: Result<(), StoreError>)
        requires
            old(self).wf(),
        ensures
            match project_saved(old(self)@, project@, now) {
                Ok(st) => r is Ok && final(self)@ == st,
                Err(e) => r == Err::<(), StoreError>(e) && final(self)@ == old(self)@,
            },
            final(self).wf(),
    {
        broadcast use {views_push, views_index, views_update};

        match find_project(&self.projects, project.path.as_str()) {
            Some(i) => {
                let known = self.projects[i].clone();
                let active_thread_id = match &project.active_thread_id {
                    Some(id) => Some(id.clone()),
                    None => known.active_thread_id,
                };
                let row = StoredProject {
                    id: known.id,
                    path: known.path,
                    git_root: project.git_root.clone(),
                    name: project.name.clone(),
                    active_thread_id,
                    last_opened_ms: now,
                    settings_override: text::copy_opt(&project.settings_override),
                };
                self.projects.set(i, row);
                Ok(())
            },
            None => {
                if has_id(&self.projects, project.id.as_str()) {
                    return Err(StoreError::ProjectIdTaken);
                }
                let mut row = project.clone();
                row.last_opened_ms = now;
                self.projects.push(row);
                Ok(())
            },
        }
    }

    /// See [`thread_saved`]. `fresh_id` is the id of the thread's project, should it be a new one.
    pub fn save_thread(&mut self, thread: &StoredThread, now: i64, fresh_id: &str) -> (r: Result<
        (),
        StoreError,
    >)
        requires
            old(self).wf(),
        ensures
            match thread_saved(old(self)@, thread@, now, fresh_id@) {
                Ok(st) => r is Ok && final(self)@ == st,
                Err(e) => r == Err::<(), StoreError>(e) && final(self)@ == old(self)@,
            },
            final(self).wf(),
    {
        broadcast use {views_push, views_index, views_update};

        let known = find_project(&self.projects, thread.project_path.as_str());
        if known.is_none() && has_id(&self.projects, fresh_id) {
            return Err(StoreError::ProjectIdTaken);
        }
        if first_repeated(&thread.events).is_some() {
            return Err(StoreError::DuplicateEvent);
        }
        match known {
            Some(i) => {
                let mut row = self.projects[i].clone();
                row.git_root = thread.project_path.clone();
                row.name = thread.project_name.clone();
                row.active_thread_id = Some(thread.id.clone());
                self.projects.set(i, row);
            },
            None => {
                self.projects.push(
                    StoredProject {
                        id: fresh_id.to_owned(),
                        path: thread.project_path.clone(),
                        git_root: thread.project_path.clone(),
                        name: thread.project_name.clone(),
                        active_thread_id: Some(thread.id.clone()),
                        last_opened_ms: now,
                        settings_override: None,
                    },
                );
            },
        }
        let row = persistence::row_of_thread(thread, now);
        assert(events_differ(row@.events));
        match find_thread(&self.threads, thread.id.as_str()) {
            Some(i) => {
                self.threads.set(i, row);
            },
            None => {
                self.threads.push(row);
            },
        }
        Ok(())
    }
}

/// The store after the cards of a thread were replaced.
pub open spec fn events_saved(st: StoreModel, id: Seq<char>, events: Seq<CardModel>, now: i64) -> Result<
    StoreModel,
    StoreError,
> {
    match thread_from(st.threads, id, 0) {
        None => if events.len() == 0 {
            Ok(st)
        } else {
            Err(StoreError::UnknownThread)
        },
        Some(i) => if ids_repeat(events) {
            Err(StoreError::DuplicateEvent)
        } else {
            Ok(
                StoreModel {
                    threads: st.threads.update(
                        i,
                        ThreadRowModel {
                            events: event_rows(events),
                            updated_at_ms: now,
                            ..st.threads[i]
                        },
                    ),
                    ..st
                },
            )
        },
    }
}

/// The cards of a thread with one card put at a place in the order, in place of the one with
/// its id.
pub open spec fn event_upserted(events: Seq<EventRowModel>, sequence: usize, card: CardModel) -> Seq<
    EventRowModel,
> {
    let row = EventRowModel { sequence: stored_count(sequence), card };
    match event_from(events, card.id, 0) {
        Some(k) => events.update(k, row),
        None => events.push(row),
    }
}

/// The position of a project is that of one with its path, and there is none before it.
pub proof fn project_position(projects: Seq<ProjectModel>, path: Seq<char>, i: int)
    requires
        0 <= i,
    ensures
        match project_from(projects, path, i) {
            Some(k) => i <= k < projects.len() && projects[k].path == path && forall|j: int|
                i <= j < k ==> (#[trigger] projects[j]).path != path,
            None => forall|j: int| i <= j < projects.len() ==> (#[trigger] projects[j]).path != path,
        },
    decreases projects.len() - i,
{
    if i < projects.len() && projects[i].path != path {
        project_position(projects, path, i + 1);
    }
}

/// The position of a thread is that of one with its id, and there is none before it.
pub proof fn thread_position(threads: Seq<ThreadRowModel>, id: Seq<char>, i: int)
    requires
        0 <= i,
    ensures
        match thread_from(threads, id, i) {
            Some(k) => i <= k < threads.len() && threads[k].id == id && forall|j: int|
                i <= j < k ==> (#[trigger] threads[j]).id != id,
            None => forall|j: int| i <= j < threads.len() ==> (#[trigger] threads[j]).id != id,
        },
    decreases threads.len() - i,
{
    if i < threads.len() && threads[i].id != id {
        thread_position(threads, id, i + 1);
    }
}

impl StateStore {
    /// Replaces the cards of a thread: see [`events_saved`].
    pub fn save_thread_events(&mut self, thread_id: &str, events: &Vec<ConversationCard>, now: i64) -> (r:
        Result<(), StoreError>)
        requires
            old(self).wf(),
        ensures
            match events_saved(old(self)@, thread_id@, views(events@), now) {
                Ok(st) => r is Ok && final(self)@ == st,
                Err(e) => r == Err::<(), StoreError>(e) && final(self)@ == old(self)@,
            },
            final(self).wf(),
    {
        broadcast use {views_push, views_index, views_update};

        match find_thread(&self.threads, thread_id) {
            None => {
                if events.len() == 0 {
                    Ok(())
                } else {
                    Err(StoreError::UnknownThread)
                }
            },
            Some(i) => {
                if first_repeated(events).is_some() {
                    return Err(StoreError::DuplicateEvent);
                }
                let rows = persistence::number_events(events);
                assert(events_differ(views(rows@)));
                let row = &mut self.threads[i];
                row.events = rows;
                row.updated_at_ms = now;
                Ok(())
            },
        }
    }

    /// Puts one card of a thread at a place in the order: see [`event_upserted`].
    pub fn upsert_thread_event(
        &mut self,
        thread_id: &str,
        sequence: usize,
        event: &ConversationCard,
        now: i64,
    ) -> (r: Result<(), StoreError>)
        requires
            old(self).wf(),
        ensures
            match thread_from(old(self)@.threads, thread_id@, 0) {
                None => r == Err::<(), StoreError>(StoreError::UnknownThread) && final(self)@ == old(
                    self,
                )@,
                Some(i) => r is Ok && final(self)@ == thread_changed(
                    old(self)@,
                    thread_id@,
                    |row: ThreadRowModel|
                        ThreadRowModel {
                            events: event_upserted(row.events, sequence, event@),
                            updated_at_ms: now,
                            ..row
                        },
                ),
            },
            final(self).wf(),
    {
        broadcast use {views_push, views_index, views_update};

        match find_thread(&self.threads, thread_id) {
            None => Err(StoreError::UnknownThread),
            Some(i) => {
                let ghost before = self@.threads[i as int].events;
                let new = EventRow {
                    sequence: persistence::usize_to_i64(sequence),
                    card: event.clone(),
                };
                let ghost after = event_upserted(before, sequence, event@);
                let row = &mut self.threads[i];
                match find_event(&row.events, event.id.as_str()) {
                    Some(k) => {
                        row.events.set(k, new);
                    },
                    None => {
                        row.events.push(new);
                    },
                }
                row.updated_at_ms = now;
                assert(events_differ(before));
                assert(events_differ(after));
                Ok(())
            },
        }
    }

    pub fn save_thread_draft(&mut self, id: &str, draft: &str)
        requires
            old(self).wf(),
        ensures
            final(self)@ == thread_changed(
                old(self)@,
                id@,
                |row: ThreadRowModel| ThreadRowModel { draft: draft@, ..row },
            ),
            final(self)@ == draft_saved(old(self)@, id@, draft@),
            final(self).wf(),
    {
        broadcast use {views_index, views_update};

        if let Some(i) = find_thread(&self.threads, id) {
            let row = &mut self.threads[i];
            row.draft = draft.to_owned();
        }
    }

    pub fn update_thread_activity(
        &mut self,
        id: &str,
        activity: &str,
        last_error: Option<String>,
        dirty_count: usize,
        unread: bool,
        now: i64,
    )
        requires
            old(self).wf(),
        ensures
            final(self)@ == thread_changed(
                old(self)@,
                id@,
                |row: ThreadRowModel|
                    ThreadRowModel {
                        activity: activity@,
                        activity_updated_ms: now,
                        last_error: opt_view(last_error),
                        dirty_count: stored_count(dirty_count),
                        unread,
                        updated_at_ms: now,
                        ..row
                    },
            ),
            final(self)@ == activity_saved(
                old(self)@,
                id@,
                activity@,
                opt_view(last_error),
                dirty_count,
                unread,
                now,
            ),
            final(self).wf(),
    {
        broadcast use {views_index, views_update};

        if let Some(i) = find_thread(&self.threads, id) {
            let row = &mut self.threads[i];
            row.activity = activity.to_owned();
            row.activity_updated_ms = now;
            row.last_error = last_error;
            row.dirty_count = persistence::usize_to_i64(dirty_count);
            row.unread = unread;
            row.updated_at_ms = now;
        }
    }

    pub fn mark_thread_read(&mut self, id: &str)
        requires
            old(self).wf(),
        ensures
            final(self)@ == thread_changed(
                old(self)@,
                id@,
                |row: ThreadRowModel| ThreadRowModel { unread: false, ..row },
            ),
            final(self)@ == thread_read(old(self)@, id@),
            final(self).wf(),
    {
        broadcast use {views_index, views_update};

        if let Some(i) = find_thread(&self.threads, id) {
            let row = &mut self.threads[i];
            row.unread = false;
        }
    }

    pub fn rename_thread(&mut self, id: &str, title: &str, now: i64)
        requires
            old(self).wf(),
        ensures
            final(self)@ == thread_changed(
                old(self)@,
                id@,
                |row: ThreadRowModel| ThreadRowModel { title: title@, updated_at_ms: now, ..row },
            ),
            final(self)@ == thread_renamed(old(self)@, id@, title@, now),
            final(self).wf(),
    {
        broadcast use {views_index, views_update};

        if let Some(i) = find_thread(&self.threads, id) {
            let row = &mut self.threads[i];
            row.title = title.to_owned();
            row.updated_at_ms = now;
        }
    }

    pub fn rename_project(&mut self, path: &str, name: &str)
        requires
            old(self).wf(),
        ensures
            final(self)@ == (match project_from(old(self)@.projects, path@, 0) {
                Some(i) => StoreModel {
                    projects: old(self)@.projects.update(
                        i,
                        ProjectModel { name: name@, ..old(self)@.projects[i] },
                    ),
                    ..old(self)@
                },
                None => old(self)@,
            }),
            final(self)@ == project_renamed(old(self)@, path@, name@),
            final(self).wf(),
    {
        broadcast use {views_index, views_update};

        if let Some(i) = find_project(&self.projects, path) {
            let row = &mut self.projects[i];
            row.name = name.to_owned();
        }
    }
}

/// The store after a project was removed with its threads. It is no longer the active one.
pub open spec fn project_removed(st: StoreModel, path: Seq<char>) -> StoreModel {
    match project_from(st.projects, path, 0) {
        None => st,
        Some(i) => StoreModel {
            projects: st.projects.remove(i),
            threads: st.threads.filter(|row: ThreadRowModel| row.project_path != path),
            settings: if setting(st, "active_project_id"@) == Some(st.projects[i].id) {
                st.settings.remove("active_project_id"@)
            } else {
                st.settings
            },
        },
    }
}

/// The value of a setting.
pub open spec fn setting(st: StoreModel, key: Seq<char>) -> Option<Seq<char>> {
    if st.settings.contains_key(key) {
        Some(st.settings[key])
    } else {
        None
    }
}

/// The store after a project moved to another folder with its threads.
pub open spec fn project_moved(
    st: StoreModel,
    old_path: Seq<char>,
    new_path: Seq<char>,
    name: Seq<char>,
    now: i64,
) -> Result<StoreModel, StoreError> {
    let known = project_from(st.projects, old_path, 0);
    if old_path == new_path {
        match known {
            None => Ok(st),
            Some(i) => Ok(
                StoreModel {
                    projects: st.projects.update(
                        i,
                        ProjectModel { name, last_opened_ms: now, ..st.projects[i] },
                    ),
                    ..st
                },
            ),
        }
    } else if project_from(st.projects, new_path, 0) is Some {
        Err(StoreError::AlreadySaved)
    } else {
        match known {
            None => Err(StoreError::NotSaved),
            Some(i) => Ok(
                StoreModel {
                    projects: st.projects.update(
                        i,
                        ProjectModel {
                            path: new_path,
                            git_root: new_path,
                            name,
                            last_opened_ms: now,
                            ..st.projects[i]
                        },
                    ),
                    threads: st.threads.map_values(
                        |row: ThreadRowModel| row_moved(row, old_path, new_path),
                    ),
                    ..st
                },
            ),
        }
    }
}

/// A thread after its project moved.
pub open spec fn row_moved(row: ThreadRowModel, old_path: Seq<char>, new_path: Seq<char>) -> ThreadRowModel {
    if row.project_path == old_path {
        ThreadRowModel { project_path: new_path, ..row }
    } else {
        row
    }
}

/// Filtering keeps rows apart that were apart.
proof fn filtered_threads_differ(
    threads: Seq<ThreadRowModel>,
    keep: spec_fn(ThreadRowModel) -> bool,
)
    requires
        forall|i: int, j: int|
            0 <= i < j < threads.len() ==> (#[trigger] threads[i]).id != (#[trigger] threads[j]).id,
        forall|i: int| 0 <= i < threads.len() ==> events_differ((#[trigger] threads[i]).events),
    ensures
        ({
            let kept = threads.filter(keep);
            &&& forall|i: int, j: int|
                0 <= i < j < kept.len() ==> (#[trigger] kept[i]).id != (#[trigger] kept[j]).id
            &&& forall|i: int| 0 <= i < kept.len() ==> events_differ((#[trigger] kept[i]).events)
            &&& forall|i: int|
                0 <= i < kept.len() ==> threads.contains(#[trigger] kept[i])
        }),
    decreases threads.len(),
{
    reveal(Seq::filter);
    if threads.len() > 0 {
        let head = threads.drop_last();
        assert forall|i: int| 0 <= i < head.len() implies events_differ((#[trigger] head[i]).events) by {
            assert(head[i] == threads[i]);
        }
        assert forall|i: int, j: int| 0 <= i < j < head.len() implies (#[trigger] head[i]).id != (
        #[trigger] head[j]).id by {
            assert(threads[i].id != threads[j].id);
        }
        filtered_threads_differ(head, keep);
        let old = head.filter(keep);
        let kept = threads.filter(keep);
        assert forall|i: int| 0 <= i < kept.len() implies threads.contains(#[trigger] kept[i]) by {
            if i < old.len() {
                assert(head.contains(old[i]));
                let k = head.index_of(old[i]);
                assert(threads[k] == kept[i]);
            } else {
                assert(threads[threads.len() - 1] == kept[i]);
            }
        }
        assert forall|i: int, j: int| 0 <= i < j < kept.len() implies (#[trigger] kept[i]).id != (
        #[trigger] kept[j]).id by {
            if j == old.len() {
                assert(head.contains(old[i]));
                let k = head.index_of(old[i]);
                assert(threads[k].id != threads[threads.len() - 1].id);
            } else {
                assert(old[i].id != old[j].id);
            }
        }
        assert forall|i: int| 0 <= i < kept.len() implies events_differ((#[trigger] kept[i]).events) by {
            if i < old.len() {
                assert(events_differ(old[i].events));
            } else {
                assert(events_differ(threads[threads.len() - 1].events));
            }
        }
    }
}

impl StateStore {
    /// See [`setting`].
    pub fn load_string_setting(&self, key: &str) -> (r: Option<String>)
        ensures
            opt_view(r) == setting(self@, key@),
    {
        match self.settings.get(key) {
            Some(value) => Some(value.clone()),
            None => None,
        }
    }

    pub fn save_string_setting(&mut self, key: &str, value: &str)
        requires
            old(self).wf(),
        ensures
            final(self)@ == (StoreModel {
                settings: old(self)@.settings.insert(key@, value@),
                ..old(self)@
            }),
            final(self)@ == setting_saved(old(self)@, key@, value@),
            final(self).wf(),
    {
        self.settings.insert(key.to_owned(), value.to_owned());
        assert(self@.settings =~= old(self)@.settings.insert(key@, value@));
    }

    /// A setting that is true or false: only the text `true` means true, and the default counts
    /// where nothing is set.
    pub fn load_bool_setting(&self, key: &str, default: bool) -> (r: bool)
        ensures
            r == (match setting(self@, key@) {
                Some(value) => value == "true"@,
                None => default,
            }),
            r == switched_on(self@, key@, default),
    {
        match self.settings.get(key) {
            Some(value) => text::same(value.as_str(), "true"),
            None => default,
        }
    }

    pub fn save_bool_setting(&mut self, key: &str, value: bool)
        requires
            old(self).wf(),
        ensures
            final(self)@ == (StoreModel {
                settings: old(self)@.settings.insert(
                    key@,
                    if value {
                        "true"@
                    } else {
                        "false"@
                    },
                ),
                ..old(self)@
            }),
            final(self)@ == switch_saved(old(self)@, key@, value),
            final(self).wf(),
    {
        self.save_string_setting(
            key,
            if value {
                "true"
            } else {
                "false"
            },
        );
    }

    pub fn load_active_project_id(&self) -> (r: Option<String>)
        ensures
            opt_view(r) == setting(self@, "active_project_id"@),
            opt_view(r) == active_id(self@),
    {
        self.load_string_setting("active_project_id")
    }

    pub fn save_active_project_id(&mut self, id: &str)
        requires
            old(self).wf(),
        ensures
            final(self)@ == (StoreModel {
                settings: old(self)@.settings.insert("active_project_id"@, id@),
                ..old(self)@
            }),
            final(self)@ == active_saved(old(self)@, id@),
            final(self).wf(),
    {
        self.save_string_setting("active_project_id", id);
    }

    /// See [`project_removed`].
    pub fn remove_project(&mut self, path: &str)
        requires
            old(self).wf(),
        ensures
            final(self)@ == project_removed(old(self)@, path@),
            final(self).wf(),
    {
        broadcast use {views_push, views_index};

        let ghost before = self@;
        match find_project(&self.projects, path) {
            None => {},
            Some(i) => {
                let active = match self.settings.get("active_project_id") {
                    Some(id) => text::same(id.as_str(), self.projects[i].id.as_str()),
                    None => false,
                };
                if active {
                    self.settings.remove("active_project_id");
                }
                assert(self@.settings =~= (if active {
                    before.settings.remove("active_project_id"@)
                } else {
                    before.settings
                }));
                assert(views(self.projects@.remove(i as int)) =~= before.projects.remove(i as int));
                self.projects.remove(i);
                let mut old_threads: Vec<ThreadRow> = Vec::new();
                std::mem::swap(&mut self.threads, &mut old_threads);
                let ghost all = before.threads;
                let ghost keep = |row: ThreadRowModel| row.project_path != path@;
                let mut kept: Vec<ThreadRow> = Vec::new();
                proof {
                    reveal(Seq::filter);
                    assert(views(kept@) =~= all.take(0).filter(keep));
                }
                for row in it: old_threads
                    invariant
                        all == views(it.seq()),
                        keep == (|row: ThreadRowModel| row.project_path != path@),
                        views(kept@) == all.take(it.index()).filter(keep),
                {
                    proof {
                        reveal(Seq::filter);
                        assert(all[it.index()] == row@);
                        assert(all.take(it.index() + 1).drop_last() =~= all.take(it.index()));
                    }
                    if !text::same(row.project_path.as_str(), path) {
                        kept.push(row);
                    }
                }
                assert(all.take(all.len() as int) =~= all);
                self.threads = kept;
                proof {
                    filtered_threads_differ(before.threads, keep);
                    let ps = before.projects;
                    let rest = ps.remove(i as int);
                    assert forall|a: int, b: int| 0 <= a < b < rest.len() implies (
                    #[trigger] rest[a]).path != (#[trigger] rest[b]).path && rest[a].id != rest[b].id by {
                        let x = if a < i {
                            a
                        } else {
                            a + 1
                        };
                        let y = if b < i {
                            b
                        } else {
                            b + 1
                        };
                        assert(rest[a] == ps[x] && rest[b] == ps[y]);
                    }
                }
            },
        }
    }

    /// See [`project_moved`].
    pub fn repair_project_path(&mut self, old_path: &str, new_path: &str, new_name: &str, now: i64) -> (r:
        Result<(), StoreError>)
        requires
            old(self).wf(),
        ensures
            match project_moved(old(self)@, old_path@, new_path@, new_name@, now) {
                Ok(st) => r is Ok && final(self)@ == st,
                Err(e) => r == Err::<(), StoreError>(e) && final(self)@ == old(self)@,
            },
            final(self).wf(),
    {
        broadcast use {views_index, views_update};

        let ghost before = self@;
        let known = find_project(&self.projects, old_path);
        if text::same(old_path, new_path) {
            if let Some(i) = known {
                let row = &mut self.projects[i];
                row.name = new_name.to_owned();
                row.last_opened_ms = now;
            }
            return Ok(());
        }
        if find_project(&self.projects, new_path).is_some() {
            return Err(StoreError::AlreadySaved);
        }
        match known {
            None => Err(StoreError::NotSaved),
            Some(i) => {
                let row = &mut self.projects[i];
                row.path = new_path.to_owned();
                row.git_root = new_path.to_owned();
                row.name = new_name.to_owned();
                row.last_opened_ms = now;
                let ghost after = before.threads.map_values(
                    |row: ThreadRowModel| row_moved(row, old_path@, new_path@),
                );
                let mut k: usize = 0;
                while k < self.threads.len()
                    invariant
                        k <= self.threads.len(),
                        before.threads.len() == self.threads.len(),
                        after == before.threads.map_values(
                            |row: ThreadRowModel| row_moved(row, old_path@, new_path@),
                        ),
                        self@ == (StoreModel {
                            projects: self@.projects,
                            threads: self@.threads,
                            ..before
                        }),
                        self@.projects == before.projects.update(
                            i as int,
                            ProjectModel {
                                path: new_path@,
                                git_root: new_path@,
                                name: new_name@,
                                last_opened_ms: now,
                                ..before.projects[i as int]
                            },
                        ),
                        forall|j: int| 0 <= j < k ==> self@.threads[j] == #[trigger] after[j],
                        forall|j: int| k <= j < before.threads.len() ==> self@.threads[j]
                            == #[trigger] before.threads[j],
                    decreases self.threads.len() - k,
                {
                    assert(self@.threads[k as int] == before.threads[k as int]);
                    assert(after[k as int] == row_moved(
                        before.threads[k as int],
                        old_path@,
                        new_path@,
                    ));
                    if text::same(self.threads[k].project_path.as_str(), old_path) {
                        let row = &mut self.threads[k];
                        row.project_path = new_path.to_owned();
                    }
                    k = k + 1;
                }
                assert(self@.threads =~= after);
                Ok(())
            },
        }
    }
}

/// Whether a project is listed before another: the one that was opened later, or the one whose
/// name comes first where both were opened at one time.
pub open spec fn listed_before(a: ProjectModel, b: ProjectModel) -> bool {
    a.last_opened_ms > b.last_opened_ms || (a.last_opened_ms == b.last_opened_ms && text_lt(
        ascii_folded(a.name),
        ascii_folded(b.name),
    ))
}

/// A project put after those that it is not listed before.
pub open spec fn project_inserted(list: Seq<ProjectModel>, p: ProjectModel) -> Seq<ProjectModel>
    decreases list.len(),
{
    if list.len() == 0 || !listed_before(p, list.last()) {
        list.push(p)
    } else {
        project_inserted(list.drop_last(), p).push(list.last())
    }
}

/// The projects as they are listed.
pub open spec fn projects_listed(projects: Seq<ProjectModel>) -> Seq<ProjectModel>
    decreases projects.len(),
{
    if projects.len() == 0 {
        projects
    } else {
        project_inserted(projects_listed(projects.drop_last()), projects.last())
    }
}

/// Whether a thread comes before another one of its project.
pub open spec fn thread_before(a: ThreadRowModel, b: ThreadRowModel) -> bool {
    a.ordinal < b.ordinal || (a.ordinal == b.ordinal && a.updated_at_ms < b.updated_at_ms)
}

/// A thread put after those that it does not come before.
pub open spec fn thread_inserted(list: Seq<ThreadRowModel>, row: ThreadRowModel) -> Seq<ThreadRowModel>
    decreases list.len(),
{
    if list.len() == 0 || !thread_before(row, list.last()) {
        list.push(row)
    } else {
        thread_inserted(list.drop_last(), row).push(list.last())
    }
}

/// The threads of a project, in order.
pub open spec fn threads_of(threads: Seq<ThreadRowModel>, path: Seq<char>) -> Seq<ThreadRowModel>
    decreases threads.len(),
{
    if threads.len() == 0 {
        Seq::empty()
    } else if threads.last().project_path == path {
        thread_inserted(threads_of(threads.drop_last(), path), threads.last())
    } else {
        threads_of(threads.drop_last(), path)
    }
}

/// The name of the project at a path: what it was called, or what its folder is called.
pub open spec fn project_name(st: StoreModel, path: Seq<char>) -> Seq<char> {
    match project_from(st.projects, path, 0) {
        Some(i) => st.projects[i].name,
        None => folder_title(path),
    }
}

/// The thread with an id.
pub open spec fn thread_loaded(st: StoreModel, id: Seq<char>) -> Option<ThreadModel> {
    match thread_from(st.threads, id, 0) {
        Some(i) => Some(
            thread_of_row(st.threads[i], project_name(st, st.threads[i].project_path)),
        ),
        None => None,
    }
}

/// The active thread of the project at a path.
pub open spec fn active_thread(st: StoreModel, path: Seq<char>) -> Option<ThreadModel> {
    match project_from(st.projects, path, 0) {
        Some(i) => match st.projects[i].active_thread_id {
            Some(id) => thread_loaded(st, id),
            None => None,
        },
        None => None,
    }
}

/// See [`listed_before`].
fn is_listed_before(a: &StoredProject, b: &StoredProject) -> (r: bool)
    ensures
        r == listed_before(a@, b@),
{
    if a.last_opened_ms != b.last_opened_ms {
        a.last_opened_ms > b.last_opened_ms
    } else {
        let x = text::fold_ascii(a.name.as_str());
        let y = text::fold_ascii(b.name.as_str());
        text::less(x.as_str(), y.as_str())
    }
}

/// See [`project_inserted`].
fn insert_project(list: &mut Vec<StoredProject>, p: StoredProject)
    ensures
        views(final(list)@) == project_inserted(views(old(list)@), p@),
{
    broadcast use views_index;

    let ghost before = views(list@);
    let ghost goal = project_inserted(before, p@);
    let mut i: usize = list.len();
    assert(before.take(i as int) =~= before);
    assert(project_inserted(before, p@) + before.skip(i as int) =~= goal);
    while i > 0 && is_listed_before(&p, &list[i - 1])
        invariant
            i <= list.len(),
            before == views(list@),
            goal == project_inserted(before.take(i as int), p@) + before.skip(i as int),
        decreases i,
    {
        let ghost head = before.take(i as int);
        assert(head.last() == before[i - 1]);
        assert(head.drop_last() =~= before.take(i - 1));
        assert(project_inserted(head.drop_last(), p@).push(head.last()) + before.skip(i as int)
            =~= project_inserted(before.take(i - 1), p@) + before.skip(i - 1));
        i = i - 1;
    }
    proof {
        if i > 0 {
            assert(before.take(i as int).last() == before[i - 1]);
        }
        assert(goal =~= before.insert(i as int, p@));
        assert(views(list@.insert(i as int, p)) =~= before.insert(i as int, p@));
    }
    list.insert(i, p);
}

/// The value of a row that is referred to.
pub open spec fn row_views(rows: Seq<&ThreadRow>) -> Seq<ThreadRowModel> {
    rows.map_values(|row: &ThreadRow| row@)
}

/// See [`thread_inserted`].
fn insert_thread<'a>(list: &mut Vec<&'a ThreadRow>, row: &'a ThreadRow)
    ensures
        row_views(final(list)@) == thread_inserted(row_views(old(list)@), row@),
{
    let ghost before = row_views(list@);
    let ghost goal = thread_inserted(before, row@);
    let mut i: usize = list.len();
    assert(before.take(i as int) =~= before);
    assert(thread_inserted(before, row@) + before.skip(i as int) =~= goal);
    while i > 0 && (row.ordinal < list[i - 1].ordinal || (row.ordinal == list[i - 1].ordinal
        && row.updated_at_ms < list[i - 1].updated_at_ms))
        invariant
            i <= list.len(),
            before == row_views(list@),
            goal == thread_inserted(before.take(i as int), row@) + before.skip(i as int),
        decreases i,
    {
        let ghost head = before.take(i as int);
        assert(head.last() == before[i - 1]);
        assert(before[i - 1] == list@[i - 1]@);
        assert(head.drop_last() =~= before.take(i - 1));
        assert(thread_inserted(head.drop_last(), row@).push(head.last()) + before.skip(i as int)
            =~= thread_inserted(before.take(i - 1), row@) + before.skip(i - 1));
        i = i - 1;
    }
    proof {
        if i > 0 {
            assert(before.take(i as int).last() == before[i - 1]);
            assert(before[i - 1] == list@[i - 1]@);
        }
        assert(goal =~= before.insert(i as int, row@));
        assert(row_views(list@.insert(i as int, row)) =~= before.insert(i as int, row@));
    }
    list.insert(i, row);
}

impl StateStore {
    /// The projects as they are listed: see [`listed_before`].
    pub fn load_projects(&self) -> (r: Vec<StoredProject>)
        ensures
            views(r@) == projects_listed(self@.projects),
    {
        broadcast use views_index;

        let ghost all = self@.projects;
        let mut r: Vec<StoredProject> = Vec::new();
        let mut i: usize = 0;
        assert(views(r@) =~= projects_listed(all.take(0)));
        while i < self.projects.len()
            invariant
                all == views(self.projects@),
                i <= self.projects.len(),
                views(r@) == projects_listed(all.take(i as int)),
            decreases self.projects.len() - i,
        {
            assert(all.take(i + 1).drop_last() =~= all.take(i as int));
            insert_project(&mut r, self.projects[i].clone());
            i = i + 1;
        }
        assert(all.take(i as int) =~= all);
        r
    }

    /// See [`project_name`].
    fn name_of(&self, path: &str) -> (r: String)
        ensures
            r@ == project_name(self@, path@),
    {
        match find_project(&self.projects, path) {
            Some(i) => self.projects[i].name.clone(),
            None => persistence::folder_name(path),
        }
    }

    /// See [`thread_loaded`].
    pub fn load_thread(&self, id: &str) -> (r: Option<StoredThread>)
        ensures
            opt_view(r) == thread_loaded(self@, id@),
    {
        match find_thread(&self.threads, id) {
            Some(i) => {
                let row = &self.threads[i];
                let name = self.name_of(row.project_path.as_str());
                Some(persistence::load_row(row, name))
            },
            None => None,
        }
    }

    /// See [`active_thread`].
    pub fn load_active_thread(&self, project_path: &str) -> (r: Option<StoredThread>)
        ensures
            opt_view(r) == active_thread(self@, project_path@),
    {
        match find_project(&self.projects, project_path) {
            Some(i) => match &self.projects[i].active_thread_id {
                Some(id) => self.load_thread(id.as_str()),
                None => None,
            },
            None => None,
        }
    }

    /// The threads of a project in order: see [`threads_of`].
    pub fn load_threads(&self, project_path: &str) -> (r: Vec<StoredThread>)
        ensures
            views(r@) == threads_of(self@.threads, project_path@).map_values(
                |row: ThreadRowModel| thread_of_row(row, project_name(self@, row.project_path)),
            ),
            views(r@) == threads_loaded(self@, project_path@),
    {
        broadcast use {views_index, views_push};

        let ghost all = self@.threads;
        let mut rows: Vec<&ThreadRow> = Vec::new();
        let mut i: usize = 0;
        assert(row_views(rows@) =~= threads_of(all.take(0), project_path@));
        while i < self.threads.len()
            invariant
                all == views(self.threads@),
                i <= self.threads.len(),
                row_views(rows@) == threads_of(all.take(i as int), project_path@),
            decreases self.threads.len() - i,
        {
            assert(all.take(i + 1).drop_last() =~= all.take(i as int));
            if text::same(self.threads[i].project_path.as_str(), project_path) {
                insert_thread(&mut rows, &self.threads[i]);
            }
            i = i + 1;
        }
        assert(all.take(i as int) =~= all);
        let ghost goal = threads_of(all, project_path@).map_values(
            |row: ThreadRowModel| thread_of_row(row, project_name(self@, row.project_path)),
        );
        let mut r: Vec<StoredThread> = Vec::new();
        let mut k: usize = 0;
        while k < rows.len()
            invariant
                row_views(rows@) == threads_of(all, project_path@),
                goal == threads_of(all, project_path@).map_values(
                    |row: ThreadRowModel| thread_of_row(row, project_name(self@, row.project_path)),
                ),
                k <= rows.len(),
                views(r@) == goal.take(k as int),
            decreases rows.len() - k,
        {
            let row = rows[k];
            let name = self.name_of(row.project_path.as_str());
            let thread = persistence::load_row(row, name);
            assert(row_views(rows@)[k as int] == row@);
            assert(goal.take(k + 1) =~= goal.take(k as int).push(thread@));
            r.push(thread);
            k = k + 1;
        }
        assert(goal.take(k as int) =~= goal);
        r
    }
}

/// A thread that was saved is the active thread of its project, and is read back as it was,
/// where its counts fit into 63 bits, its activity has a time, and it has cards or never had
/// messages.
pub proof fn saved_thread_is_active_and_read_back(
    st: StoreModel,
    thread: ThreadModel,
    now: i64,
    fresh_id: Seq<char>,
)
    requires
        st.wf(),
        thread_saved(st, thread, now, fresh_id) is Ok,
        0 <= thread.ordinal <= usize::MAX,
        0 <= thread.dirty_count <= usize::MAX,
        0 <= thread.conversation_scroll_item <= usize::MAX,
        thread.ordinal <= i64::MAX,
        thread.dirty_count <= i64::MAX,
        thread.conversation_scroll_item <= i64::MAX,
        thread.activity_updated_ms > 0,
        thread.events.len() <= usize::MAX,
        thread.events.len() > 0 || thread.messages.len() == 0,
    ensures
        ({
            let q = thread_saved(st, thread, now, fresh_id)->Ok_0;
            &&& active_thread(q, thread.project_path) == Some(thread)
            &&& thread_loaded(q, thread.id) == Some(thread)
        }),
{
    let q = thread_saved(st, thread, now, fresh_id)->Ok_0;
    let row = thread_row(thread, now);
    persistence::saved_threads_are_read_back(thread, now);
    project_position(st.projects, thread.project_path, 0);
    thread_position(st.threads, thread.id, 0);
    project_position(q.projects, thread.project_path, 0);
    thread_position(q.threads, thread.id, 0);
    let i = match project_from(st.projects, thread.project_path, 0) {
        Some(i) => i,
        None => st.projects.len() as int,
    };
    assert(q.projects[i].path == thread.project_path);
    let k = match thread_from(st.threads, thread.id, 0) {
        Some(k) => k,
        None => st.threads.len() as int,
    };
    assert(q.threads[k] == row);
    let i2 = project_from(q.projects, thread.project_path, 0)->0;
    let k2 = thread_from(q.threads, thread.id, 0)->0;
    if k2 != k {
        assert(q.threads[k2] == st.threads[k2]);
    }
    if i2 != i {
        assert(q.projects[i2] == st.projects[i2]);
    }
}

/// Saving a thread changes no other project and no other thread, and leaves the time at which
/// its project was opened.
pub proof fn saving_a_thread_leaves_the_rest(
    st: StoreModel,
    thread: ThreadModel,
    now: i64,
    fresh_id: Seq<char>,
)
    requires
        thread_saved(st, thread, now, fresh_id) is Ok,
    ensures
        ({
            let q = thread_saved(st, thread, now, fresh_id)->Ok_0;
            &&& forall|i: int|
                0 <= i < st.projects.len() ==> {
                    &&& (#[trigger] q.projects[i]).path == st.projects[i].path
                    &&& q.projects[i].id == st.projects[i].id
                    &&& q.projects[i].last_opened_ms == st.projects[i].last_opened_ms
                    &&& st.projects[i].path != thread.project_path ==> q.projects[i] == st.projects[i]
                }
            &&& forall|i: int|
                0 <= i < st.threads.len() && st.threads[i].id != thread.id ==> (
                #[trigger] q.threads[i]) == st.threads[i]
            &&& q.settings == st.settings
        }),
{
    project_position(st.projects, thread.project_path, 0);
    thread_position(st.threads, thread.id, 0);
}

/// Whether two projects are one, opened at the same time.
pub open spec fn same_project(a: ProjectModel, b: ProjectModel) -> bool {
    a.path == b.path && a.id == b.id && a.last_opened_ms == b.last_opened_ms
}

/// Whether two lists show the same projects, opened at the same times.
pub open spec fn same_listing(a: Seq<ProjectModel>, b: Seq<ProjectModel>) -> bool {
    a.len() == b.len() && forall|i: int| 0 <= i < a.len() ==> #[trigger] same_project(a[i], b[i])
}

/// Whether two lists show projects of the same names.
pub open spec fn same_names(a: Seq<ProjectModel>, b: Seq<ProjectModel>) -> bool {
    a.len() == b.len() && forall|i: int| 0 <= i < a.len() ==> (#[trigger] a[i]).name == b[i].name
}

/// Whether no two projects were opened at one time.
pub open spec fn opened_apart(projects: Seq<ProjectModel>) -> bool {
    forall|i: int, j: int|
        0 <= i < j < projects.len() ==> (#[trigger] projects[i]).last_opened_ms != (
        #[trigger] projects[j]).last_opened_ms
}

proof fn same_insertion(a: Seq<ProjectModel>, b: Seq<ProjectModel>, x: ProjectModel, y: ProjectModel)
    requires
        same_listing(a, b),
        same_project(x, y),
        (same_names(a, b) && x.name == y.name) || forall|i: int|
            0 <= i < a.len() ==> (#[trigger] a[i]).last_opened_ms != x.last_opened_ms,
    ensures
        same_listing(project_inserted(a, x), project_inserted(b, y)),
        same_names(a, b) && x.name == y.name ==> same_names(
            project_inserted(a, x),
            project_inserted(b, y),
        ),
    decreases a.len(),
{
    let (r, t) = (project_inserted(a, x), project_inserted(b, y));
    if a.len() > 0 {
        let (head, other) = (a.drop_last(), b.drop_last());
        assert(same_project(a[a.len() - 1], b[b.len() - 1]));
        assert(a[a.len() - 1].name == b[b.len() - 1].name || a[a.len() - 1].last_opened_ms
            != x.last_opened_ms);
        assert forall|i: int| 0 <= i < head.len() implies #[trigger] same_project(
            head[i],
            other[i],
        ) by {
            assert(same_project(a[i], b[i]));
        }
        if same_names(a, b) {
            assert forall|i: int| 0 <= i < head.len() implies (#[trigger] head[i]).name
                == other[i].name by {
                assert(a[i].name == b[i].name);
            }
        }
        same_insertion(head, other, x, y);
        if listed_before(x, a.last()) {
            assert forall|i: int| 0 <= i < r.len() implies #[trigger] same_project(r[i], t[i]) by {
                if i < r.len() - 1 {
                    assert(same_project(
                        project_inserted(head, x)[i],
                        project_inserted(other, y)[i],
                    ));
                }
            }
        } else {
            assert forall|i: int| 0 <= i < r.len() implies #[trigger] same_project(r[i], t[i]) by {
                if i < a.len() {
                    assert(same_project(a[i], b[i]));
                }
            }
        }
    } else {
        assert(same_project(r[0], t[0]));
    }
}

proof fn same_lists(a: Seq<ProjectModel>, b: Seq<ProjectModel>)
    requires
        same_listing(a, b),
        same_names(a, b) || opened_apart(a),
    ensures
        same_listing(projects_listed(a), projects_listed(b)),
        same_names(a, b) ==> same_names(projects_listed(a), projects_listed(b)),
    decreases a.len(),
{
    if a.len() > 0 {
        let (head, other) = (a.drop_last(), b.drop_last());
        assert(same_project(a[a.len() - 1], b[b.len() - 1]));
        assert forall|i: int| 0 <= i < head.len() implies #[trigger] same_project(
            head[i],
            other[i],
        ) by {
            assert(same_project(a[i], b[i]));
        }
        if same_names(a, b) {
            assert(a[a.len() - 1].name == b[b.len() - 1].name);
            assert forall|i: int| 0 <= i < head.len() implies (#[trigger] head[i]).name
                == other[i].name by {
                assert(a[i].name == b[i].name);
            }
        } else {
            assert forall|i: int, j: int| 0 <= i < j < head.len() implies (
            #[trigger] head[i]).last_opened_ms != (#[trigger] head[j]).last_opened_ms by {
                assert(a[i].last_opened_ms != a[j].last_opened_ms);
            }
            listed_projects_are_saved(head);
            let list = projects_listed(head);
            assert forall|i: int| 0 <= i < list.len() implies (#[trigger] list[i]).last_opened_ms
                != a.last().last_opened_ms by {
                let k = head.index_of(list[i]);
                assert(a[k] == list[i]);
                assert(a[k].last_opened_ms != a[a.len() - 1].last_opened_ms);
            }
        }
        same_lists(head, other);
        same_insertion(projects_listed(head), projects_listed(other), a.last(), b.last());
    }
}

/// Every project that is listed is one of those that are saved.
proof fn listed_projects_are_saved(projects: Seq<ProjectModel>)
    ensures
        projects_listed(projects).len() == projects.len(),
        forall|i: int|
            0 <= i < projects.len() ==> projects.contains(#[trigger] projects_listed(projects)[i]),
    decreases projects.len(),
{
    if projects.len() > 0 {
        let head = projects.drop_last();
        let list = projects_listed(head);
        let all = projects_listed(projects);
        listed_projects_are_saved(head);
        projects_are_listed_in_order(head);
        insertion_keeps_listing(list, projects.last());
        assert forall|i: int| 0 <= i < projects.len() implies projects.contains(
            #[trigger] all[i],
        ) by {
            if all[i] == projects.last() {
                assert(projects[projects.len() - 1] == all[i]);
            } else {
                let k = list.index_of(all[i]);
                assert(head.contains(list[k]));
                let j = head.index_of(list[k]);
                assert(projects[j] == all[i]);
            }
        }
    }
}

/// Saving a thread in a known project does not change the order in which the projects are
/// listed, where the project keeps its name or no two were opened at one time; the thread is
/// then the active one of its project.
pub proof fn saving_a_thread_does_not_reorder(
    st: StoreModel,
    thread: ThreadModel,
    now: i64,
    fresh_id: Seq<char>,
)
    requires
        st.wf(),
        thread_saved(st, thread, now, fresh_id) is Ok,
        project_from(st.projects, thread.project_path, 0) matches Some(i) && (st.projects[i].name
            == thread.project_name || opened_apart(st.projects)),
    ensures
        ({
            let list = projects_listed(thread_saved(st, thread, now, fresh_id)->Ok_0.projects);
            &&& same_listing(list, projects_listed(st.projects))
            &&& forall|i: int|
                0 <= i < list.len() && (#[trigger] list[i]).path == thread.project_path
                    ==> list[i].active_thread_id == Some(thread.id)
        }),
{
    let q = thread_saved(st, thread, now, fresh_id)->Ok_0;
    let list = projects_listed(q.projects);
    project_position(st.projects, thread.project_path, 0);
    let at = project_from(st.projects, thread.project_path, 0)->0;
    assert forall|i: int| 0 <= i < q.projects.len() implies #[trigger] same_project(
        q.projects[i],
        st.projects[i],
    ) by {}
    if st.projects[at].name != thread.project_name {
        assert forall|i: int, j: int| 0 <= i < j < q.projects.len() implies (
        #[trigger] q.projects[i]).last_opened_ms != (#[trigger] q.projects[j]).last_opened_ms by {
            assert(st.projects[i].last_opened_ms != st.projects[j].last_opened_ms);
        }
    } else {
        assert forall|i: int| 0 <= i < q.projects.len() implies (#[trigger] q.projects[i]).name
            == st.projects[i].name by {}
    }
    same_lists(q.projects, st.projects);
    listed_projects_are_saved(q.projects);
    assert forall|i: int|
        0 <= i < list.len() && (#[trigger] list[i]).path == thread.project_path implies list[i].active_thread_id
        == Some(thread.id) by {
        let k = q.projects.index_of(list[i]);
        assert(q.projects.contains(list[i]));
        assert(st.projects[k].path == thread.project_path);
        if k < at {
            assert(st.projects[k].path != st.projects[at].path);
        } else if k > at {
            assert(st.projects[at].path != st.projects[k].path);
        }
    }
}

/// Whether no two rows of threads have one id.
pub open spec fn threads_differ(rows: Seq<ThreadRowModel>) -> bool {
    forall|i: int, j: int|
        0 <= i < j < rows.len() ==> (#[trigger] rows[i]).id != (#[trigger] rows[j]).id
}

proof fn inserted_threads(list: Seq<ThreadRowModel>, row: ThreadRowModel)
    requires
        threads_differ(list),
        forall|i: int| 0 <= i < list.len() ==> (#[trigger] list[i]).id != row.id,
    ensures
        threads_differ(thread_inserted(list, row)),
        forall|x: ThreadRowModel| #[trigger]
            thread_inserted(list, row).contains(x) <==> x == row || list.contains(x),
    decreases list.len(),
{
    let r = thread_inserted(list, row);
    if list.len() == 0 || !thread_before(row, list.last()) {
        assert(r[list.len() as int] == row);
        assert forall|x: ThreadRowModel| #[trigger] r.contains(x) <==> x == row || list.contains(
            x,
        ) by {
            if list.contains(x) {
                assert(r[list.index_of(x)] == x);
            }
            if r.contains(x) && x != row {
                assert(list[r.index_of(x)] == x);
            }
        }
    } else {
        let head = list.drop_last();
        let h = thread_inserted(head, row);
        assert forall|i: int, j: int| 0 <= i < j < head.len() implies (#[trigger] head[i]).id != (
        #[trigger] head[j]).id by {
            assert(list[i].id != list[j].id);
        }
        assert forall|i: int| 0 <= i < head.len() implies (#[trigger] head[i]).id != row.id by {
            assert(list[i].id != row.id);
        }
        inserted_threads(head, row);
        assert(list[list.len() - 1] == list.last());
        assert forall|i: int| 0 <= i < h.len() implies (#[trigger] h[i]).id != list.last().id by {
            assert(h.contains(h[i]));
            if h[i] != row {
                let k = head.index_of(h[i]);
                assert(list[k].id != list[list.len() - 1].id);
            }
        }
        assert(r[h.len() as int] == list.last());
        assert forall|x: ThreadRowModel| #[trigger] r.contains(x) <==> x == row || list.contains(
            x,
        ) by {
            if r.contains(x) {
                let k = r.index_of(x);
                if k < h.len() {
                    assert(h[k] == x);
                    assert(h.contains(x));
                    if x != row {
                        assert(list[head.index_of(x)] == x);
                    }
                } else {
                    assert(list[list.len() - 1] == x);
                }
            }
            if x == row || list.contains(x) {
                if x == row || head.contains(x) {
                    assert(h.contains(x));
                    assert(r[h.index_of(x)] == x);
                } else {
                    let k = list.index_of(x);
                    assert(k == list.len() - 1) by {
                        if k < list.len() - 1 {
                            assert(head[k] == x);
                        }
                    }
                    assert(r[h.len() as int] == x);
                }
            }
        }
    }
}

/// The threads of a project hold each of its rows once, and nothing else.
pub proof fn threads_are_listed_once(rows: Seq<ThreadRowModel>, path: Seq<char>)
    requires
        threads_differ(rows),
    ensures
        threads_differ(threads_of(rows, path)),
        forall|x: ThreadRowModel| #[trigger]
            threads_of(rows, path).contains(x) <==> rows.contains(x) && x.project_path == path,
    decreases rows.len(),
{
    let r = threads_of(rows, path);
    if rows.len() > 0 {
        let head = rows.drop_last();
        let h = threads_of(head, path);
        assert forall|i: int, j: int| 0 <= i < j < head.len() implies (#[trigger] head[i]).id != (
        #[trigger] head[j]).id by {
            assert(rows[i].id != rows[j].id);
        }
        threads_are_listed_once(head, path);
        assert(rows[rows.len() - 1] == rows.last());
        assert forall|i: int| 0 <= i < h.len() implies (#[trigger] h[i]).id != rows.last().id by {
            assert(h.contains(h[i]));
            let k = head.index_of(h[i]);
            assert(rows[k].id != rows[rows.len() - 1].id);
        }
        if rows.last().project_path == path {
            inserted_threads(h, rows.last());
        }
        assert forall|x: ThreadRowModel| #[trigger] r.contains(x) <==> rows.contains(x)
            && x.project_path == path by {
            if rows.contains(x) {
                let k = rows.index_of(x);
                if k < rows.len() - 1 {
                    assert(head[k] == x);
                    assert(head.contains(x));
                }
                assert(h.contains(x) <==> head.contains(x) && x.project_path == path);
            }
            if head.contains(x) {
                assert(rows[head.index_of(x)] == x);
            }
            assert(h.contains(x) <==> head.contains(x) && x.project_path == path);
        }
    }
}

/// A thread that was saved stands in the list of its project exactly once, as it was saved.
pub proof fn saved_threads_are_listed_once(
    st: StoreModel,
    thread: ThreadModel,
    now: i64,
    fresh_id: Seq<char>,
)
    requires
        st.wf(),
        thread_saved(st, thread, now, fresh_id) is Ok,
    ensures
        ({
            let q = thread_saved(st, thread, now, fresh_id)->Ok_0;
            let list = threads_of(q.threads, thread.project_path);
            exists|i: int|
                0 <= i < list.len() && (#[trigger] list[i]) == thread_row(thread, now)
                    && forall|j: int|
                    0 <= j < list.len() && j != i ==> (#[trigger] list[j]).id != thread.id
        }),
{
    let q = thread_saved(st, thread, now, fresh_id)->Ok_0;
    let list = threads_of(q.threads, thread.project_path);
    let row = thread_row(thread, now);
    thread_position(st.threads, thread.id, 0);
    assert(threads_differ(q.threads)) by {
        assert forall|i: int, j: int| 0 <= i < j < q.threads.len() implies (
        #[trigger] q.threads[i]).id != (#[trigger] q.threads[j]).id by {
            if j < st.threads.len() {
                assert(st.threads[i].id != st.threads[j].id);
            }
        }
    }
    let k = match thread_from(st.threads, thread.id, 0) {
        Some(k) => k,
        None => st.threads.len() as int,
    };
    assert(q.threads[k] == row);
    threads_are_listed_once(q.threads, thread.project_path);
    assert(list.contains(row));
    let i = list.index_of(row);
    assert forall|j: int| 0 <= j < list.len() && j != i implies (#[trigger] list[j]).id != thread.id by {
        if j < i {
            assert(list[j].id != list[i].id);
        } else {
            assert(list[i].id != list[j].id);
        }
    }
    assert(list[i] == row);
}

proof fn event_position(events: Seq<EventRowModel>, id: Seq<char>, i: int)
    requires
        0 <= i,
    ensures
        match event_from(events, id, i) {
            Some(k) => i <= k < events.len() && events[k].card.id == id,
            None => forall|j: int| i <= j < events.len() ==> (#[trigger] events[j]).card.id != id,
        },
    decreases events.len() - i,
{
    if i < events.len() && events[i].card.id != id {
        event_position(events, id, i + 1);
    }
}

/// A card that was put in a thread is read back with the thread, once, at its place in the order
/// of the numbers, and the other cards of the thread are read back as they were stored.
pub proof fn upserted_events_are_read_back(
    st: StoreModel,
    thread_id: Seq<char>,
    sequence: usize,
    card: CardModel,
    now: i64,
)
    requires
        st.wf(),
        thread_from(st.threads, thread_id, 0) is Some,
    ensures
        ({
            let before = st.threads[thread_from(st.threads, thread_id, 0)->0].events;
            let q = thread_changed(
                st,
                thread_id,
                |row: ThreadRowModel|
                    ThreadRowModel {
                        events: event_upserted(row.events, sequence, card),
                        updated_at_ms: now,
                        ..row
                    },
            );
            let row = EventRowModel { sequence: stored_count(sequence), card };
            let rows = events_ordered(event_upserted(before, sequence, card));
            &&& thread_loaded(q, thread_id) matches Some(t) && t.events == rows.map_values(
                |r: EventRowModel| r.card,
            )
            &&& forall|i: int, j: int|
                0 <= i < j < rows.len() ==> (#[trigger] rows[i]).sequence <= (
                #[trigger] rows[j]).sequence
            &&& events_differ(rows)
            &&& rows.contains(row)
            &&& forall|x: EventRowModel|
                x.card.id != card.id ==> (#[trigger] rows.contains(x) <==> before.contains(x))
        }),
{
    let at = thread_from(st.threads, thread_id, 0)->0;
    thread_position(st.threads, thread_id, 0);
    let before = st.threads[at].events;
    let after = event_upserted(before, sequence, card);
    let row = EventRowModel { sequence: stored_count(sequence), card };
    let change = |row: ThreadRowModel|
        ThreadRowModel {
            events: event_upserted(row.events, sequence, card),
            updated_at_ms: now,
            ..row
        };
    let q = thread_changed(st, thread_id, change);
    assert(events_differ(before));
    event_position(before, card.id, 0);
    assert(events_differ(after));
    persistence::ordered_rows_are_the_rows(after);
    let k = match event_from(before, card.id, 0) {
        Some(k) => k,
        None => before.len() as int,
    };
    assert(after[k] == row);
    assert(after.contains(row));
    assert forall|x: EventRowModel| x.card.id != card.id implies (after.contains(x)
        <==> before.contains(x)) by {
        if after.contains(x) {
            assert(before[after.index_of(x)] == x);
        }
        if before.contains(x) {
            assert(after[before.index_of(x)] == x);
        }
    }
    let rows = events_ordered(after);
    assert forall|x: EventRowModel| x.card.id != card.id implies (#[trigger] rows.contains(x)
        <==> before.contains(x)) by {
        assert(rows.contains(x) <==> after.contains(x));
    }
    thread_position(q.threads, thread_id, 0);
    let k2 = thread_from(q.threads, thread_id, 0)->0;
    assert(q.threads[at].id == thread_id);
    if k2 != at {
        assert(q.threads[k2] == st.threads[k2]);
    }
    assert(q.threads[at].events == after);
}

/// Whether no project is listed after one that it goes before.
pub open spec fn is_listing(list: Seq<ProjectModel>) -> bool {
    forall|i: int, j: int|
        0 <= i < j < list.len() ==> !listed_before(#[trigger] list[j], #[trigger] list[i])
}

proof fn insertion_keeps_listing(list: Seq<ProjectModel>, p: ProjectModel)
    requires
        is_listing(list),
    ensures
        is_listing(project_inserted(list, p)),
        project_inserted(list, p).len() == list.len() + 1,
        forall|i: int|
            0 <= i < list.len() + 1 ==> (#[trigger] project_inserted(list, p)[i]) == p
                || list.contains(project_inserted(list, p)[i]),
    decreases list.len(),
{
    let r = project_inserted(list, p);
    if list.len() == 0 {
    } else if !listed_before(p, list.last()) {
        assert forall|i: int, j: int| 0 <= i < j < r.len() implies !listed_before(
            #[trigger] r[j],
            #[trigger] r[i],
        ) by {
            if j == list.len() && i < list.len() - 1 {
                assert(!listed_before(list[list.len() - 1], list[i]));
                if listed_before(p, list[i]) {
                    listed_before_cases(p, list[i], list.last());
                }
            }
        }
        assert forall|i: int| 0 <= i < r.len() implies (#[trigger] r[i]) == p || list.contains(r[i]) by {
            if i < list.len() {
                assert(list[i] == r[i]);
            }
        }
    } else {
        let head = list.drop_last();
        insertion_keeps_listing(head, p);
        let h = project_inserted(head, p);
        assert forall|i: int, j: int| 0 <= i < j < r.len() implies !listed_before(
            #[trigger] r[j],
            #[trigger] r[i],
        ) by {
            if j == h.len() {
                if h[i] == p {
                    text::text_lt_total(ascii_folded(p.name), ascii_folded(list.last().name));
                } else {
                    assert(head.contains(h[i]));
                    let k = head.index_of(h[i]);
                    assert(!listed_before(list[list.len() - 1], list[k]));
                }
            } else {
                assert(!listed_before(h[j], h[i]));
            }
        }
        assert forall|i: int| 0 <= i < r.len() implies (#[trigger] r[i]) == p || list.contains(r[i]) by {
            if i < h.len() {
                if h[i] != p {
                    assert(head.contains(h[i]));
                    let k = head.index_of(h[i]);
                    assert(list[k] == r[i]);
                }
            } else {
                assert(list[list.len() - 1] == r[i]);
            }
        }
    }
}

/// Where `a` is listed before `b`, any `c` is listed before `b` or `a` is listed before `c`.
proof fn listed_before_cases(a: ProjectModel, b: ProjectModel, c: ProjectModel)
    requires
        listed_before(a, b),
    ensures
        listed_before(c, b) || listed_before(a, c),
{
    let x = ascii_folded(a.name);
    let y = ascii_folded(b.name);
    let z = ascii_folded(c.name);
    text::text_lt_total(z, y);
    text::text_lt_total(x, z);
    if !listed_before(c, b) && !listed_before(a, c) && text_lt(y, z) && text_lt(x, y) {
        text::text_lt_transitive(x, y, z);
    }
}

/// The projects are listed with the one that was opened last at the front, and by name where
/// two were opened at one time.
pub proof fn projects_are_listed_in_order(projects: Seq<ProjectModel>)
    ensures
        is_listing(projects_listed(projects)),
        projects_listed(projects).len() == projects.len(),
    decreases projects.len(),
{
    if projects.len() > 0 {
        projects_are_listed_in_order(projects.drop_last());
        insertion_keeps_listing(projects_listed(projects.drop_last()), projects.last());
    }
}

/// A setting is read back as it was saved.
pub proof fn settings_are_read_back(st: StoreModel, key: Seq<char>, value: Seq<char>)
    ensures
        setting((StoreModel { settings: st.settings.insert(key, value), ..st }), key) == Some(value),
        "true"@ != "false"@,
{
    reveal_strlit("true");
    reveal_strlit("false");
    assert("true"@.len() != "false"@.len());
}

/// A project that was removed is gone with its threads and is not the active one, and other
/// projects and their threads are left.
pub proof fn removed_projects_are_gone(st: StoreModel, path: Seq<char>)
    requires
        st.wf(),
    ensures
        ({
            let q = project_removed(st, path);
            &&& project_from(q.projects, path, 0) is None
            &&& project_from(st.projects, path, 0) is Some ==> forall|i: int|
                0 <= i < q.threads.len() ==> (#[trigger] q.threads[i]).project_path != path
            &&& forall|i: int|
                0 <= i < st.projects.len() && st.projects[i].path != path ==> q.projects.contains(
                    #[trigger] st.projects[i],
                )
            &&& forall|i: int|
                0 <= i < st.threads.len() && st.threads[i].project_path != path
                    ==> q.threads.contains(#[trigger] st.threads[i])
            &&& project_from(st.projects, path, 0) matches Some(i) ==> setting(
                q,
                "active_project_id"@,
            ) != Some(st.projects[i].id)
        }),
{
    broadcast use vstd::seq_lib::group_filter_ensures;

    let q = project_removed(st, path);
    project_position(st.projects, path, 0);
    project_position(q.projects, path, 0);
    match project_from(st.projects, path, 0) {
        Some(i) => {
            let keep = |row: ThreadRowModel| row.project_path != path;
            if project_from(q.projects, path, 0) is Some {
                let k = project_from(q.projects, path, 0)->0;
                let j = if k < i {
                    k
                } else {
                    k + 1
                };
                assert(q.projects[k] == st.projects[j]);
                if j < i {
                    assert(st.projects[j].path != st.projects[i].path);
                } else {
                    assert(st.projects[i].path != st.projects[j].path);
                }
            }
            assert forall|j: int| 0 <= j < st.projects.len() && st.projects[j].path != path implies q.projects.contains(
                #[trigger] st.projects[j]) by {
                if j < i {
                    assert(q.projects[j] == st.projects[j]);
                } else {
                    assert(q.projects[j - 1] == st.projects[j]);
                }
            }
            assert forall|j: int| 0 <= j < q.threads.len() implies (
            #[trigger] q.threads[j]).project_path != path by {
                assert(keep(q.threads[j]));
            }
            assert forall|j: int| 0 <= j < st.threads.len() && st.threads[j].project_path != path implies q.threads.contains(
                #[trigger] st.threads[j]) by {
                assert(keep(st.threads[j]));
            }
        },
        None => {
            assert forall|j: int| 0 <= j < st.projects.len() && st.projects[j].path != path implies q.projects.contains(
                #[trigger] st.projects[j]) by {
                assert(q.projects[j] == st.projects[j]);
            }
            assert forall|j: int| 0 <= j < st.threads.len() && st.threads[j].project_path != path implies q.threads.contains(
                #[trigger] st.threads[j]) by {
                assert(q.threads[j] == st.threads[j]);
            }
        },
    }
}

/// A project that moved keeps its id and its active thread, and no thread is left behind.
pub proof fn moved_projects_keep_their_identity(
    st: StoreModel,
    old_path: Seq<char>,
    new_path: Seq<char>,
    name: Seq<char>,
    now: i64,
)
    requires
        st.wf(),
        old_path != new_path,
        project_moved(st, old_path, new_path, name, now) is Ok,
    ensures
        ({
            let q = project_moved(st, old_path, new_path, name, now)->Ok_0;
            let before = project_from(st.projects, old_path, 0);
            let after = project_from(q.projects, new_path, 0);
            &&& before is Some && after == before
            &&& project_from(q.projects, old_path, 0) is None
            &&& q.projects[after->0].id == st.projects[before->0].id
            &&& q.projects[after->0].active_thread_id == st.projects[before->0].active_thread_id
            &&& forall|i: int|
                0 <= i < q.threads.len() ==> (#[trigger] q.threads[i]).project_path != old_path
            &&& q.settings == st.settings
        }),
{
    let q = project_moved(st, old_path, new_path, name, now)->Ok_0;
    project_position(st.projects, old_path, 0);
    project_position(st.projects, new_path, 0);
    project_position(q.projects, new_path, 0);
    project_position(q.projects, old_path, 0);
    let i = project_from(st.projects, old_path, 0)->0;
    assert(q.projects[i].path == new_path);
    if project_from(q.projects, new_path, 0) is Some {
        let k = project_from(q.projects, new_path, 0)->0;
        if k != i {
            assert(q.projects[k] == st.projects[k]);
        }
    }
    if project_from(q.projects, old_path, 0) is Some {
        let k = project_from(q.projects, old_path, 0)->0;
        if k != i {
            assert(q.projects[k] == st.projects[k]);
            if k < i {
                assert(st.projects[k].path != st.projects[i].path);
            } else {
                assert(st.projects[i].path != st.projects[k].path);
            }
        }
    }
}

/// Settings put one after the other.
pub open spec fn settings_of(entries: Seq<(Seq<char>, Seq<char>)>) -> Map<Seq<char>, Seq<char>>
    decreases entries.len(),
{
    if entries.len() == 0 {
        Map::empty()
    } else {
        settings_of(entries.drop_last()).insert(entries.last().0, entries.last().1)
    }
}

/// The values of names and texts.
pub open spec fn pair_views(v: Seq<(String, String)>) -> Seq<(Seq<char>, Seq<char>)> {
    v.map_values(|e: (String, String)| (e.0@, e.1@))
}

/// Whether rows can stand in one store.
pub open spec fn restorable(projects: Seq<ProjectModel>, threads: Seq<ThreadRowModel>) -> bool {
    StoreModel { projects, threads, settings: Map::empty() }.wf()
}

/// Whether no two projects have one path or one id.
fn projects_apart(projects: &Vec<StoredProject>) -> (r: bool)
    ensures
        r == restorable(views(projects@), Seq::empty()),
{
    broadcast use views_index;

    let ghost all = views(projects@);
    let mut i: usize = 0;
    while i < projects.len()
        invariant
            all == views(projects@),
            i <= projects.len(),
            forall|a: int, b: int|
                0 <= a < b < i ==> (#[trigger] all[a]).path != (#[trigger] all[b]).path && all[a].id
                    != all[b].id,
        decreases projects.len() - i,
    {
        let mut k: usize = 0;
        while k < i
            invariant
                all == views(projects@),
                k <= i < projects.len(),
                forall|a: int|
                    0 <= a < k ==> (#[trigger] all[a]).path != all[i as int].path && all[a].id
                        != all[i as int].id,
            decreases i - k,
        {
            assert(all[k as int] == projects@[k as int]@ && all[i as int] == projects@[i as int]@);
            if text::same(projects[k].path.as_str(), projects[i].path.as_str()) || text::same(
                projects[k].id.as_str(),
                projects[i].id.as_str(),
            ) {
                proof {
                    let st = StoreModel {
                        projects: all,
                        threads: Seq::empty(),
                        settings: Map::empty(),
                    };
                    assert(st.projects[k as int].path == st.projects[i as int].path
                        || st.projects[k as int].id == st.projects[i as int].id);
                }
                return false;
            }
            k = k + 1;
        }
        i = i + 1;
    }
    true
}

/// Whether no two cards have one id.
fn events_apart(events: &Vec<EventRow>) -> (r: bool)
    ensures
        r == events_differ(views(events@)),
{
    let ghost all = views(events@);
    let mut seen: StringHashMap<usize> = StringHashMap::new();
    let mut i: usize = 0;
    while i < events.len()
        invariant
            all == views(events@),
            i <= events.len(),
            forall|k: int| 0 <= k < i ==> seen@.contains_key((#[trigger] all[k]).card.id),
            forall|id: Seq<char>| #[trigger]
                seen@.contains_key(id) ==> seen@[id] < i && all[seen@[id] as int].card.id == id,
            forall|a: int, b: int|
                0 <= a < b < i ==> (#[trigger] all[a]).card.id != (#[trigger] all[b]).card.id,
        decreases events.len() - i,
    {
        assert(all[i as int] == events@[i as int]@);
        if seen.contains_key(events[i].card.id.as_str()) {
            proof {
                let k = seen@[all[i as int].card.id] as int;
                assert(all[k].card.id == all[i as int].card.id);
            }
            return false;
        }
        seen.insert(events[i].card.id.clone(), i);
        i = i + 1;
    }
    true
}

/// Whether no two threads have one id, and no two cards of a thread.
fn threads_apart(threads: &Vec<ThreadRow>) -> (r: bool)
    ensures
        r == restorable(Seq::empty(), views(threads@)),
{
    broadcast use views_index;

    let ghost all = views(threads@);
    let ghost st = StoreModel { projects: Seq::empty(), threads: all, settings: Map::empty() };
    let mut seen: StringHashMap<usize> = StringHashMap::new();
    let mut i: usize = 0;
    while i < threads.len()
        invariant
            all == views(threads@),
            st == (StoreModel { projects: Seq::empty(), threads: all, settings: Map::empty() }),
            i <= threads.len(),
            forall|k: int| 0 <= k < i ==> events_differ((#[trigger] all[k]).events),
            forall|k: int| 0 <= k < i ==> seen@.contains_key((#[trigger] all[k]).id),
            forall|id: Seq<char>| #[trigger]
                seen@.contains_key(id) ==> seen@[id] < i && all[seen@[id] as int].id == id,
            forall|a: int, b: int|
                0 <= a < b < i ==> (#[trigger] all[a]).id != (#[trigger] all[b]).id,
        decreases threads.len() - i,
    {
        assert(all[i as int] == threads@[i as int]@);
        if !events_apart(&threads[i].events) {
            assert(!events_differ(st.threads[i as int].events));
            return false;
        }
        if seen.contains_key(threads[i].id.as_str()) {
            proof {
                let k = seen@[all[i as int].id] as int;
                assert(st.threads[k].id == st.threads[i as int].id);
            }
            return false;
        }
        seen.insert(threads[i].id.clone(), i);
        i = i + 1;
    }
    true
}

impl StateStore {
    /// The store that holds rows which were kept elsewhere; none where two rows cannot stand in
    /// one store.
    pub fn restore(
        projects: Vec<StoredProject>,
        threads: Vec<ThreadRow>,
        settings: &Vec<(String, String)>,
    ) -> (r: Option<Self>)
        ensures
            r is Some == restorable(views(projects@), views(threads@)),
            r matches Some(store) ==> store.wf() && store@ == (StoreModel {
                projects: views(projects@),
                threads: views(threads@),
                settings: settings_of(pair_views(settings@)),
            }),
    {
        if !projects_apart(&projects) || !threads_apart(&threads) {
            return None;
        }
        let ghost all = pair_views(settings@);
        let mut kept: StringHashMap<String> = StringHashMap::new();
        let mut i: usize = 0;
        assert(kept@.map_values(|s: String| s@) =~= settings_of(all.take(0)));
        while i < settings.len()
            invariant
                all == pair_views(settings@),
                i <= settings.len(),
                kept@.map_values(|s: String| s@) == settings_of(all.take(i as int)),
            decreases settings.len() - i,
        {
            let ghost before = kept@;
            assert(all.take(i + 1).drop_last() =~= all.take(i as int));
            assert(all[i as int] == (settings@[i as int].0@, settings@[i as int].1@));
            kept.insert(settings[i].0.clone(), settings[i].1.clone());
            assert(kept@.map_values(|s: String| s@) =~= before.map_values(|s: String| s@).insert(
                settings@[i as int].0@,
                settings@[i as int].1@,
            ));
            i = i + 1;
        }
        assert(all.take(i as int) =~= all);
        Some(StateStore { projects, threads, settings: kept })
    }
}

/// Rows with the same ids are found at the same places.
proof fn same_ids_same_places(
    a: Seq<ThreadRowModel>,
    b: Seq<ThreadRowModel>,
    id: Seq<char>,
    from: int,
)
    requires
        0 <= from,
        a.len() == b.len(),
        forall|k: int| 0 <= k < a.len() ==> (#[trigger] a[k]).id == b[k].id,
    ensures
        thread_from(a, id, from) == thread_from(b, id, from),
    decreases a.len() - from,
{
    if from < a.len() {
        assert(a[from].id == b[from].id);
        same_ids_same_places(a, b, id, from + 1);
    }
}

/// Changing a thread changes what is read of it and of no other, where its id and its project
/// stay.
proof fn changes_are_read_of_their_thread(
    st: StoreModel,
    id: Seq<char>,
    other: Seq<char>,
    change: spec_fn(ThreadRowModel) -> ThreadRowModel,
)
    requires
        forall|row: ThreadRowModel| (#[trigger] change(row)).id == row.id,
        other != id,
    ensures
        ({
            let q = thread_changed(st, id, change);
            &&& thread_loaded(q, other) == thread_loaded(st, other)
            &&& thread_from(q.threads, id, 0) == thread_from(st.threads, id, 0)
            &&& q.projects == st.projects
            &&& q.settings == st.settings
            &&& forall|path: Seq<char>| #[trigger] project_name(q, path) == project_name(st, path)
            &&& thread_from(st.threads, id, 0) matches Some(i) ==> 0 <= i < st.threads.len()
                && q.threads[i] == change(st.threads[i])
        }),
{
    let q = thread_changed(st, id, change);
    thread_position(st.threads, id, 0);
    thread_position(st.threads, other, 0);
    same_ids_same_places(q.threads, st.threads, other, 0);
    same_ids_same_places(q.threads, st.threads, id, 0);
}

/// A draft is read back with the thread that it was saved for: nothing else of the thread is
/// another, and no other thread is.
pub proof fn drafts_are_read_back(st: StoreModel, id: Seq<char>, other: Seq<char>, draft: Seq<char>)
    requires
        other != id,
    ensures
        ({
            let q = draft_saved(st, id, draft);
            &&& thread_loaded(st, id) matches Some(t) ==> thread_loaded(q, id) == Some(
                ThreadModel { draft, ..t },
            )
            &&& thread_loaded(st, id) is None ==> q == st
            &&& thread_loaded(q, other) == thread_loaded(st, other)
            &&& q.projects == st.projects
            &&& q.settings == st.settings
        }),
{
    let change = |row: ThreadRowModel| ThreadRowModel { draft, ..row };
    changes_are_read_of_their_thread(st, id, other, change);
}

/// A new title is read back with the thread that was renamed: nothing else of the thread is
/// another, and no other thread is.
pub proof fn titles_are_read_back(
    st: StoreModel,
    id: Seq<char>,
    other: Seq<char>,
    title: Seq<char>,
    now: i64,
)
    requires
        other != id,
    ensures
        ({
            let q = thread_renamed(st, id, title, now);
            &&& thread_loaded(st, id) matches Some(t) ==> thread_loaded(q, id) == Some(
                ThreadModel { title, ..t },
            )
            &&& thread_loaded(st, id) is None ==> q == st
            &&& thread_loaded(q, other) == thread_loaded(st, other)
            &&& q.projects == st.projects
            &&& q.settings == st.settings
        }),
{
    let change = |row: ThreadRowModel| ThreadRowModel { title, updated_at_ms: now, ..row };
    changes_are_read_of_their_thread(st, id, other, change);
}

/// A thread that was read is unread no more, and nothing else is another.
pub proof fn read_threads_are_read(st: StoreModel, id: Seq<char>, other: Seq<char>)
    requires
        other != id,
    ensures
        ({
            let q = thread_read(st, id);
            &&& thread_loaded(st, id) matches Some(t) ==> thread_loaded(q, id) == Some(
                ThreadModel { unread: false, ..t },
            )
            &&& thread_loaded(st, id) is None ==> q == st
            &&& thread_loaded(q, other) == thread_loaded(st, other)
            &&& q.projects == st.projects
            &&& q.settings == st.settings
        }),
{
    let change = |row: ThreadRowModel| ThreadRowModel { unread: false, ..row };
    changes_are_read_of_their_thread(st, id, other, change);
}

/// What a thread does is read back as it was saved, with its time, its error and how many changes
/// there are, where that number fits into 63 bits; nothing else of the thread is another, and no
/// other thread is.
pub proof fn activities_are_read_back(
    st: StoreModel,
    id: Seq<char>,
    other: Seq<char>,
    activity: Seq<char>,
    last_error: Option<Seq<char>>,
    dirty_count: usize,
    unread: bool,
    now: i64,
)
    requires
        other != id,
        dirty_count <= i64::MAX,
    ensures
        ({
            let q = activity_saved(st, id, activity, last_error, dirty_count, unread, now);
            &&& thread_loaded(st, id) matches Some(t) ==> thread_loaded(q, id) == Some(
                ThreadModel {
                    activity,
                    activity_updated_ms: now,
                    last_error,
                    dirty_count: dirty_count as int,
                    unread,
                    ..t
                },
            )
            &&& thread_loaded(st, id) is None ==> q == st
            &&& thread_loaded(q, other) == thread_loaded(st, other)
            &&& q.projects == st.projects
            &&& q.settings == st.settings
        }),
{
    let change = |row: ThreadRowModel|
        ThreadRowModel {
            activity,
            activity_updated_ms: now,
            last_error,
            dirty_count: stored_count(dirty_count),
            unread,
            updated_at_ms: now,
            ..row
        };
    changes_are_read_of_their_thread(st, id, other, change);
    persistence::counts_are_read_back(dirty_count);
}

/// The cards that are saved for a thread are read back with it, in their order and in the place
/// of those that it had; cards with one id are refused, and so are cards of no thread.
pub proof fn saved_cards_are_read_back(
    st: StoreModel,
    id: Seq<char>,
    other: Seq<char>,
    events: Seq<CardModel>,
    now: i64,
)
    requires
        other != id,
        0 < events.len() <= usize::MAX,
    ensures
        events_saved(st, id, events, now) is Ok <==> thread_loaded(st, id) is Some && !exists|
            i: int,
            j: int,
        |
            0 <= i < j < events.len() && (#[trigger] events[i]).id == (#[trigger] events[j]).id,
        events_saved(st, id, events, now) matches Ok(q) ==> {
            &&& thread_loaded(st, id) matches Some(t) && thread_loaded(q, id) == Some(
                ThreadModel { events, ..t },
            )
            &&& thread_loaded(q, other) == thread_loaded(st, other)
            &&& q.projects == st.projects
            &&& q.settings == st.settings
        },
{
    let change = |row: ThreadRowModel|
        ThreadRowModel { events: event_rows(events), updated_at_ms: now, ..row };
    changes_are_read_of_their_thread(st, id, other, change);
    let rows = event_rows(events);
    assert forall|i: int, j: int| 0 <= i < j < rows.len() implies (#[trigger] rows[i]).sequence <= (
    #[trigger] rows[j]).sequence by {}
    persistence::ordered_rows_stay(rows);
    assert(events_ordered(rows).map_values(|r: EventRowModel| r.card) =~= events);
}

/// A project is read back under the name and at the root that it was saved with, opened at that
/// time. One that was known keeps its id, and its active thread where none is given; a new one
/// has the id that was given, which no other may have. Other projects, threads and settings stay.
pub proof fn saved_projects_are_read_back(st: StoreModel, p: ProjectModel, now: i64)
    ensures
        project_saved(st, p, now) is Err <==> (forall|k: int|
            0 <= k < st.projects.len() ==> (#[trigger] st.projects[k]).path != p.path) && (exists|
            k: int,
        |
            0 <= k < st.projects.len() && (#[trigger] st.projects[k]).id == p.id),
        project_saved(st, p, now) matches Ok(q) ==> {
            &&& project_from(q.projects, p.path, 0) matches Some(k) && {
                let saved = q.projects[k];
                &&& saved.path == p.path
                &&& saved.name == p.name
                &&& saved.git_root == p.git_root
                &&& saved.settings_override == p.settings_override
                &&& saved.last_opened_ms == now
                &&& p.active_thread_id is Some ==> saved.active_thread_id == p.active_thread_id
                &&& project_from(st.projects, p.path, 0) matches Some(i) ==> k == i && saved.id
                    == st.projects[i].id && (p.active_thread_id is None ==> saved.active_thread_id
                    == st.projects[i].active_thread_id)
                &&& project_from(st.projects, p.path, 0) is None ==> saved.id == p.id
                    && saved.active_thread_id == p.active_thread_id
                &&& forall|j: int|
                    0 <= j < st.projects.len() && j != k ==> #[trigger] q.projects[j]
                        == st.projects[j]
                &&& q.projects.len() <= st.projects.len() + 1
            }
            &&& q.threads == st.threads
            &&& q.settings == st.settings
        },
{
    project_position(st.projects, p.path, 0);
    if project_saved(st, p, now) is Ok {
        let q = project_saved(st, p, now)->Ok_0;
        project_position(q.projects, p.path, 0);
        match project_from(st.projects, p.path, 0) {
            Some(i) => {
                assert(q.projects[i].path == p.path);
                let k = project_from(q.projects, p.path, 0)->0;
                if k < i {
                    assert(q.projects[k] == st.projects[k]);
                }
                if k > i {
                    assert(q.projects[i].path != p.path);
                }
            },
            None => {
                let n = st.projects.len() as int;
                assert(q.projects[n].path == p.path);
                let k = project_from(q.projects, p.path, 0)->0;
                if k < n {
                    assert(q.projects[k] == st.projects[k]);
                }
            },
        }
    }
}

/// A new name is read back with the project that was renamed, and with its threads; nothing else
/// of it is another, and no other project is.
pub proof fn project_names_are_read_back(
    st: StoreModel,
    path: Seq<char>,
    other: Seq<char>,
    name: Seq<char>,
)
    requires
        other != path,
    ensures
        ({
            let q = project_renamed(st, path, name);
            &&& project_from(q.projects, path, 0) == project_from(st.projects, path, 0)
            &&& project_from(q.projects, other, 0) == project_from(st.projects, other, 0)
            &&& project_from(st.projects, path, 0) matches Some(i) ==> {
                &&& q.projects[i] == ProjectModel { name, ..st.projects[i] }
                &&& project_name(q, path) == name
                &&& forall|j: int|
                    0 <= j < st.projects.len() && j != i ==> #[trigger] q.projects[j]
                        == st.projects[j]
            }
            &&& project_from(st.projects, path, 0) is None ==> q == st
            &&& project_name(q, other) == project_name(st, other)
            &&& q.projects.len() == st.projects.len()
            &&& q.threads == st.threads
            &&& q.settings == st.settings
        }),
{
    let q = project_renamed(st, path, name);
    project_position(st.projects, path, 0);
    project_position(st.projects, other, 0);
    same_paths_same_places(q.projects, st.projects, path, 0);
    same_paths_same_places(q.projects, st.projects, other, 0);
}

/// Projects with the same paths are found at the same places.
proof fn same_paths_same_places(
    a: Seq<ProjectModel>,
    b: Seq<ProjectModel>,
    path: Seq<char>,
    from: int,
)
    requires
        0 <= from,
        a.len() == b.len(),
        forall|k: int| 0 <= k < a.len() ==> (#[trigger] a[k]).path == b[k].path,
    ensures
        project_from(a, path, from) == project_from(b, path, from),
    decreases a.len() - from,
{
    if from < a.len() {
        assert(a[from].path == b[from].path);
        same_paths_same_places(a, b, path, from + 1);
    }
}

/// A setting is read back as it was saved, be it a text, a switch or which project is active; one
/// that was never saved is as it is by default, and no other setting changes.
pub proof fn every_setting_is_read_back(
    st: StoreModel,
    key: Seq<char>,
    other: Seq<char>,
    value: Seq<char>,
    on: bool,
    default: bool,
)
    requires
        other != key,
    ensures
        setting(setting_saved(st, key, value), key) == Some(value),
        setting(setting_saved(st, key, value), other) == setting(st, other),
        switched_on(switch_saved(st, key, on), key, default) == on,
        switched_on(switch_saved(st, key, on), other, default) == switched_on(st, other, default),
        setting(st, key) is None ==> switched_on(st, key, default) == default,
        active_id(active_saved(st, value)) == Some(value),
        setting_saved(st, key, value).projects == st.projects,
        setting_saved(st, key, value).threads == st.threads,
        active_saved(st, value).projects == st.projects,
        active_saved(st, value).threads == st.threads,
        setting(empty_store(), key) is None,
{
    reveal_strlit("true");
    reveal_strlit("false");
    assert("true"@.len() != "false"@.len());
}

/// The threads that are loaded for a project are those that are stored in it, each as it is
/// loaded by its id.
pub proof fn a_projects_threads_are_loaded(st: StoreModel, path: Seq<char>)
    requires
        st.wf(),
    ensures
        forall|k: int|
            0 <= k < threads_loaded(st, path).len() ==> (#[trigger] threads_loaded(
                st,
                path,
            )[k]).project_path == path && thread_loaded(st, threads_loaded(st, path)[k].id) == Some(
                threads_loaded(st, path)[k],
            ),
        forall|i: int|
            0 <= i < st.threads.len() && (#[trigger] st.threads[i]).project_path == path
                ==> exists|k: int|
                0 <= k < threads_loaded(st, path).len() && (#[trigger] threads_loaded(
                    st,
                    path,
                )[k]).id == st.threads[i].id,
{
    let rows = threads_of(st.threads, path);
    threads_are_listed_once(st.threads, path);
    let loaded = threads_loaded(st, path);
    assert forall|k: int| 0 <= k < loaded.len() implies (#[trigger] loaded[k]).project_path == path
        && thread_loaded(st, loaded[k].id) == Some(loaded[k]) by {
        let row = rows[k];
        assert(rows.contains(row));
        assert(st.threads.contains(row) && row.project_path == path);
        let i = choose|i: int| 0 <= i < st.threads.len() && st.threads[i] == row;
        thread_position(st.threads, row.id, 0);
        let j = thread_from(st.threads, row.id, 0)->0;
        if j < i {
            assert(st.threads[j].id != st.threads[i].id);
        }
        if i < j {
            assert(st.threads[i].id != st.threads[j].id);
        }
    }
    assert forall|i: int| 0 <= i < st.threads.len() && (
    #[trigger] st.threads[i]).project_path == path implies exists|k: int|
        0 <= k < loaded.len() && (#[trigger] loaded[k]).id == st.threads[i].id by {
        assert(st.threads.contains(st.threads[i]));
        assert(rows.contains(st.threads[i]));
        let k = choose|k: int| 0 <= k < rows.len() && rows[k] == st.threads[i];
        assert(loaded[k].id == st.threads[i].id);
    }
}

/// A card that was not saved is named in the failure, with the reason.
pub proof fn failures_name_their_card(id: Seq<char>, events: Seq<CardModel>, e: StoreError)
    ensures
        has_part(upserting_failure(id, e), id),
        has_part(upserting_failure(id, e), error_text(e)),
        has_part(saving_failure(events, e), error_text(e)),
        e == StoreError::UnknownThread && events.len() > 0 ==> has_part(
            saving_failure(events, e),
            events[0].id,
        ),
{
    let none = Seq::<char>::empty();
    let why = error_text(e);
    let before = "failed to upsert conversation event "@;
    let between = ": "@;
    parts_are_held(before, id, between + why);
    assert(before + id + (between + why) =~= before + id + between + why);
    parts_are_held(before + id + between, why, none);
    assert(before + id + between + why + none =~= before + id + between + why);
    parts_are_held(none, why, none);
    assert(none + why + none =~= why);
    let first = "failed to save conversation event "@;
    let at = match e {
        StoreError::DuplicateEvent => repeat_from(events, 0),
        StoreError::UnknownThread => if events.len() > 0 {
            Some(0)
        } else {
            None
        },
        _ => None,
    };
    if at is Some {
        let named = events[at->0].id;
        parts_are_held(first, named, between + why);
        assert(first + named + (between + why) =~= first + named + between + why);
        parts_are_held(first + named + between, why, none);
        assert(first + named + between + why + none =~= first + named + between + why);
    }
}

/// The threads of a project stand in the order of their numbers, and of two with one number the
/// one that was changed first comes first.
pub proof fn threads_are_listed_in_order(rows: Seq<ThreadRowModel>, path: Seq<char>)
    ensures
        forall|i: int, j: int|
            0 <= i < j < threads_of(rows, path).len() ==> {
                let a = #[trigger] threads_of(rows, path)[i];
                let b = #[trigger] threads_of(rows, path)[j];
                a.ordinal < b.ordinal || (a.ordinal == b.ordinal && a.updated_at_ms
                    <= b.updated_at_ms)
            },
    decreases rows.len(),
{
    if rows.len() > 0 {
        threads_are_listed_in_order(rows.drop_last(), path);
        if rows.last().project_path == path {
            insertion_keeps_the_order(threads_of(rows.drop_last(), path), rows.last());
        }
    }
}

proof fn insertion_keeps_the_order(list: Seq<ThreadRowModel>, row: ThreadRowModel)
    requires
        forall|i: int, j: int|
            0 <= i < j < list.len() ==> !thread_before(#[trigger] list[j], #[trigger] list[i]),
    ensures
        ({
            let r = thread_inserted(list, row);
            &&& forall|i: int, j: int|
                0 <= i < j < r.len() ==> !thread_before(#[trigger] r[j], #[trigger] r[i])
            &&& forall|i: int| 0 <= i < r.len() ==> #[trigger] r[i] == row || list.contains(r[i])
        }),
    decreases list.len(),
{
    let r = thread_inserted(list, row);
    if list.len() == 0 || !thread_before(row, list.last()) {
        assert forall|i: int| 0 <= i < r.len() implies #[trigger] r[i] == row || list.contains(
            r[i],
        ) by {
            if i < list.len() {
                assert(list.contains(list[i]));
            }
        }
        assert forall|i: int, j: int| 0 <= i < j < r.len() implies !thread_before(
            #[trigger] r[j],
            #[trigger] r[i],
        ) by {
            if j == list.len() {
                if i < list.len() - 1 {
                    assert(!thread_before(list[list.len() - 1], list[i]));
                }
            }
        }
    } else {
        let head = list.drop_last();
        insertion_keeps_the_order(head, row);
        let q = thread_inserted(head, row);
        assert forall|i: int| 0 <= i < r.len() implies #[trigger] r[i] == row || list.contains(
            r[i],
        ) by {
            if i < q.len() {
                assert(r[i] == q[i]);
                if q[i] != row {
                    assert(head.contains(q[i]));
                    let k = choose|k: int| 0 <= k < head.len() && head[k] == q[i];
                    assert(list[k] == q[i]);
                }
            } else {
                assert(r[i] == list[list.len() - 1]);
            }
        }
        assert forall|i: int, j: int| 0 <= i < j < r.len() implies !thread_before(
            #[trigger] r[j],
            #[trigger] r[i],
        ) by {
            if j < q.len() {
                assert(!thread_before(q[j], q[i]));
            } else {
                assert(r[j] == list.last());
                assert(r[i] == q[i]);
                if q[i] != row {
                    let k = choose|k: int| 0 <= k < head.len() && head[k] == q[i];
                    assert(!thread_before(list[list.len() - 1], list[k]));
                }
            }
        }
    }
}

/// Of what was kept elsewhere each setting is taken over, the last one where a name stands twice,
/// and no other.
pub proof fn kept_settings_are_taken_over(entries: Seq<(Seq<char>, Seq<char>)>, i: int)
    requires
        0 <= i < entries.len(),
        forall|k: int| i < k < entries.len() ==> (#[trigger] entries[k]).0 != entries[i].0,
    ensures
        settings_of(entries).contains_key(entries[i].0),
        settings_of(entries)[entries[i].0] == entries[i].1,
        forall|key: Seq<char>|
            (forall|k: int| 0 <= k < entries.len() ==> (#[trigger] entries[k]).0 != key)
                ==> !#[trigger] settings_of(entries).contains_key(key),
    decreases entries.len(),
{
    if i < entries.len() - 1 {
        assert(entries[entries.len() - 1].0 != entries[i].0);
        assert forall|k: int| i < k < entries.drop_last().len() implies (
        #[trigger] entries.drop_last()[k]).0 != entries.drop_last()[i].0 by {
            assert(entries[k].0 != entries[i].0);
        }
        kept_settings_are_taken_over(entries.drop_last(), i);
    }
    assert forall|key: Seq<char>|
        (forall|k: int| 0 <= k < entries.len() ==> (#[trigger] entries[k]).0 != key) implies !(
    #[trigger] settings_of(entries).contains_key(key)) by {
        other_settings_are_not_there(entries, key);
    }
}

proof fn other_settings_are_not_there(entries: Seq<(Seq<char>, Seq<char>)>, key: Seq<char>)
    requires
        forall|k: int| 0 <= k < entries.len() ==> (#[trigger] entries[k]).0 != key,
    ensures
        !settings_of(entries).contains_key(key),
    decreases entries.len(),
{
    if entries.len() > 0 {
        assert(entries[entries.len() - 1].0 != key);
        assert forall|k: int| 0 <= k < entries.drop_last().len() implies (
        #[trigger] entries.drop_last()[k]).0 != key by {
            assert(entries[k].0 != key);
        }
        other_settings_are_not_there(entries.drop_last(), key);
    }
}

/// The card that is named where cards have one id is the first whose id another card before it
/// has.
pub proof fn the_first_repeated_card_is_named(events: Seq<CardModel>, i: int, from: int)
    requires
        0 <= from <= i < events.len(),
        exists|k: int| 0 <= k < i && (#[trigger] events[k]).id == events[i].id,
        forall|j: int, k: int|
            0 <= k < j && from <= j < i ==> (#[trigger] events[k]).id != (#[trigger] events[j]).id,
    ensures
        repeat_from(events, from) == Some(i),
        from == 0 ==> has_part(saving_failure(events, StoreError::DuplicateEvent), events[i].id),
    decreases i - from,
{
    if from < i {
        assert(!exists|k: int| 0 <= k < from && (#[trigger] events[k]).id == events[from].id);
        the_first_repeated_card_is_named(events, i, from + 1);
    }
    let why = error_text(StoreError::DuplicateEvent);
    let (first, between, named) = ("failed to save conversation event "@, ": "@, events[i].id);
    parts_are_held(first, named, between + why);
    assert(first + named + (between + why) =~= first + named + between + why);
}

} // verus!
