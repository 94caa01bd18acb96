//! Threads: leaving one for another, starting one, and the workspace that it works in.
use vstd::prelude::*;
use vstd::string::*;

use crate::app::{
    closed, closing, countable, drafted, find_thread, first_thread_is_found, followed_by, named_role,
    next_generation, nothing, one,
    reconciled, rewritten, saving, saving_active, show_messages, shown_messages, thread_with_id,
    AppModel, ChatModel, Effect, EffectModel, Message, MessageRole, OpenModel, PickerModel,
    PublishingModel, RodeApp, ShownModel, SurfaceModel, TurnModel,
};
use crate::git::{ThreadWorktree, WorktreeModel};
use crate::navigation::{only_if, provided};
use crate::persistence::{StoredThread, ThreadModel};
use crate::snapshot::{RepoSnapshot, SnapshotModel};
use crate::text;
use crate::text::{decimal, has_part, parts_are_held};
use crate::views::{opt_view, views, views_index};

verus! {

/// The application after what stands in the thread that is shown was put by, and what is done.
pub open spec fn left(a: AppModel) -> (AppModel, Seq<EffectModel>) {
    if a.project.open {
        (drafted(a), saving(drafted(a)))
    } else {
        (a, Seq::empty())
    }
}

/// The application when the user begins to go to a thread, and what is done.
pub open spec fn switch_begun(a: AppModel, id: Seq<char>) -> (AppModel, Seq<EffectModel>) {
    if a.thread.id == id {
        (a, Seq::empty())
    } else {
        left(a)
    }
}

/// The application when the user asks for a new thread, and what is done.
pub open spec fn thread_asked(a: AppModel) -> (AppModel, Seq<EffectModel>) {
    if a.project.open && a.project.repo.is_repository {
        left(AppModel { surface: SurfaceModel { show_create_menu: false, ..a.surface }, ..a })
    } else {
        (a, Seq::empty())
    }
}

/// A turn that nothing runs in, in the next session.
pub open spec fn quiet_turn(t: TurnModel, provider_thread_id: Option<Seq<char>>) -> TurnModel {
    TurnModel {
        session: false,
        provider_thread_id,
        turn_id: None,
        agent_message: None,
        reasoning_preview: Seq::empty(),
        approvals: Seq::empty(),
        generation: next_generation(t.generation),
        running: false,
    }
}

/// No message for the changes, and nothing done with them.
pub open spec fn unpublished(p: PublishingModel) -> PublishingModel {
    PublishingModel { editor: rewritten(p.editor, ""@), operation: None, status: None }
}

/// The folder that a thread works in: its workspace, or the project where that is gone.
pub open spec fn folder_of(thread: ThreadModel, is_dir: bool) -> Seq<char> {
    if is_dir {
        thread.workspace_path
    } else {
        thread.project_path
    }
}

/// See [`folder_of`].
pub fn thread_folder(thread: &StoredThread, workspace_is_dir: bool) -> (r: String)
    ensures
        r@ == folder_of(thread@, workspace_is_dir),
{
    if workspace_is_dir {
        thread.workspace_path.clone()
    } else {
        thread.project_path.clone()
    }
}

/// The application with another thread shown, before it is known what stands in its folder.
pub open spec fn entered(a: AppModel, t: ThreadModel, is_dir: bool, repo: SnapshotModel) -> AppModel {
    AppModel {
        turn: quiet_turn(a.turn, t.provider_thread_id),
        publishing: unpublished(a.publishing),
        thread: ShownModel {
            id: t.id,
            title: t.title,
            branch: t.branch,
            number: if t.ordinal < 1 {
                1
            } else {
                t.ordinal as usize
            },
            creating_worktree: false,
            ..a.thread
        },
        project: OpenModel {
            root: t.project_path,
            path: folder_of(t, is_dir),
            name: t.project_name,
            repo,
            ..a.project
        },
        ..a
    }
}

/// The application with another thread shown whose repository is there.
pub open spec fn resumed(a: AppModel, t: ThreadModel) -> AppModel {
    AppModel {
        project: OpenModel { open: true, ..a.project },
        surface: reconciled(a.surface, a.project.repo.is_repository),
        thread: ShownModel {
            messages: shown_messages(t.messages),
            composer: rewritten(
                a.thread.composer,
                if a.thread.drafts.contains_key(t.id) {
                    a.thread.drafts[t.id]
                } else {
                    ""@
                },
            ),
            ..a.thread
        },
        ..a
    }
}

/// The application after the user went to a thread, and what is done. `is_dir` says whether the
/// thread's workspace is still there, and `repo` what the repository in its folder is like.
pub open spec fn switched(a: AppModel, id: Seq<char>, is_dir: bool, repo: SnapshotModel) -> (
    AppModel,
    Seq<EffectModel>,
) {
    if a.thread.id == id {
        (a, Seq::empty())
    } else {
        match thread_with_id(a.known.threads, id, 0) {
            None => (a, Seq::empty()),
            Some(i) => {
                let t = a.known.threads[i];
                let b = entered(a, t, is_dir, repo);
                if !repo.is_repository {
                    (
                        AppModel {
                            picker: PickerModel {
                                error: Some(
                                    t.project_path
                                        + " is no longer a Git repository. Repair or remove it below."@,
                                ),
                                ..a.picker
                            },
                            ..closed(b)
                        },
                        closing(),
                    )
                } else {
                    let c = resumed(b, t);
                    (
                        c,
                        seq![EffectModel::EndSession] + (saving_active(c) + saving(c)),
                    )
                }
            },
        }
    }
}

/// The largest number of a thread of the project at a path.
pub open spec fn last_number(threads: Seq<ThreadModel>, root: Seq<char>) -> int
    decreases threads.len(),
{
    if threads.len() == 0 {
        0
    } else {
        let before = last_number(threads.drop_last(), root);
        if threads.last().project_path == root && threads.last().ordinal > before {
            threads.last().ordinal
        } else {
            before
        }
    }
}

/// What is said first in a new thread.
pub open spec fn thread_greeting(isolate: bool) -> Seq<char> {
    if isolate {
        "Creating an isolated Git worktree for the new thread…"@
    } else {
        "New local thread in the project folder. The first prompt will open a new Codex app-server session."@
    }
}

/// The application with a new thread.
pub open spec fn begun(a: AppModel, id: Seq<char>, repo: SnapshotModel) -> AppModel {
    let number = (last_number(a.known.threads, a.project.root) + 1) as usize;
    AppModel {
        turn: quiet_turn(a.turn, None),
        publishing: unpublished(a.publishing),
        thread: ShownModel {
            id,
            title: "Thread "@ + decimal(number as nat),
            branch: None,
            number,
            creating_worktree: a.known.isolate_new_threads,
            messages: seq![
                ChatModel {
                    role: MessageRole::System,
                    text: thread_greeting(a.known.isolate_new_threads),
                },
            ],
            composer: rewritten(a.thread.composer, ""@),
            ..a.thread
        },
        project: OpenModel { path: a.project.root, repo, ..a.project },
        ..a
    }
}

/// What is done to have a workspace for a new thread alone.
pub open spec fn isolation(a: AppModel) -> EffectModel {
    EffectModel::CreateWorktree {
        generation: a.turn.generation,
        repository: a.project.root,
        thread_id: a.thread.id,
        title: a.thread.title,
    }
}

/// The application after a new thread was asked for, and what is done. There is none without a
/// project; `repo` is what the repository at its root is like.
pub open spec fn thread_begun(a: AppModel, id: Seq<char>, repo: SnapshotModel) -> (
    AppModel,
    Seq<EffectModel>,
) {
    if !a.project.open || !a.project.repo.is_repository {
        (a, Seq::empty())
    } else {
        let b = begun(a, id, repo);
        (
            b,
            seq![EffectModel::EndSession] + (saving(b) + provided(
                a.known.isolate_new_threads,
                isolation(b),
            )),
        )
    }
}

/// The application after the workspace of a new thread was made, or was not, and what is done.
pub open spec fn isolated(
    a: AppModel,
    generation: u64,
    worktree: Result<WorktreeModel, Seq<char>>,
    repo: SnapshotModel,
) -> (AppModel, Seq<EffectModel>) {
    if a.turn.generation != generation {
        (a, Seq::empty())
    } else {
        let (path, branch, text) = match worktree {
            Ok(w) => (
                w.path,
                Some(w.branch),
                "Isolated worktree ready on `"@ + w.branch
                    + "`. The first prompt will open a new Codex app-server session."@,
            ),
            Err(error) => (
                a.project.root,
                None,
                "Could not create an isolated worktree: "@ + error
                    + ". This thread is using the main checkout."@,
            ),
        };
        let b = AppModel {
            project: OpenModel { path, repo, ..a.project },
            thread: ShownModel {
                branch,
                messages: seq![ChatModel { role: MessageRole::System, text }],
                creating_worktree: false,
                ..a.thread
            },
            ..a
        };
        (b, saving(b))
    }
}

/// See [`last_number`].
pub fn largest_number(threads: &Vec<StoredThread>, root: &str) -> (r: usize)
    ensures
        r == last_number(views(threads@), root@),
{
    broadcast use views_index;

    let ghost all = views(threads@);
    let mut r: usize = 0;
    let mut i: usize = 0;
    while i < threads.len()
        invariant
            all == views(threads@),
            i <= threads.len(),
            r == last_number(all.take(i as int), root@),
        decreases threads.len() - i,
    {
        assert(all.take(i + 1).drop_last() =~= all.take(i as int));
        assert(all.take(i + 1).last() == all[i as int]);
        if text::same(threads[i].project_path.as_str(), root) && threads[i].ordinal > r {
            r = threads[i].ordinal;
        }
        i = i + 1;
    }
    assert(all.take(i as int) =~= all);
    r
}

/// A thread of a project has a number that is not above the largest.
pub proof fn numbers_are_bounded(threads: Seq<ThreadModel>, root: Seq<char>, i: int)
    requires
        0 <= i < threads.len(),
        threads[i].project_path == root,
    ensures
        threads[i].ordinal <= last_number(threads, root),
    decreases threads.len(),
{
    if i < threads.len() - 1 {
        numbers_are_bounded(threads.drop_last(), root, i);
    }
}

proof fn last_number_is_small(threads: Seq<ThreadModel>, root: Seq<char>)
    requires
        countable(threads),
    ensures
        0 <= last_number(threads, root) < usize::MAX,
    decreases threads.len(),
{
    reveal(countable);
    if threads.len() > 0 {
        last_number_is_small(threads.drop_last(), root);
    }
}

impl RodeApp {
    /// See [`left`].
    pub fn leave_thread(&mut self) -> (r: Vec<Effect>)
        ensures
            final(self)@ == left(old(self)@).0,
            views(r@) == left(old(self)@).1,
            old(self).wf() ==> final(self).wf(),
    {
        if self.project.open {
            self.thread.save_current_draft();
            self.persist_current_thread()
        } else {
            nothing()
        }
    }

    /// Begins to go to a thread: what stands in the one that is shown is put by, unless it is that
    /// thread itself.
    pub fn begin_switch(&mut self, thread_id: &str) -> (r: Vec<Effect>)
        ensures
            (final(self)@, views(r@)) == (if old(self)@.thread.id == thread_id@ {
                (old(self)@, Seq::empty())
            } else {
                left(old(self)@)
            }),
            (final(self)@, views(r@)) == switch_begun(old(self)@, thread_id@),
            old(self).wf() ==> final(self).wf(),
    {
        if text::same(self.thread.id.as_str(), thread_id) {
            nothing()
        } else {
            self.leave_thread()
        }
    }

    /// Goes on with nothing of the turn. See [`quiet_turn`].
    fn quiet(&mut self, provider_thread_id: Option<String>)
        ensures
            final(self)@ == (AppModel {
                turn: quiet_turn(old(self)@.turn, opt_view(provider_thread_id)),
                publishing: unpublished(old(self)@.publishing),
                ..old(self)@
            }),
            final(self).known == old(self).known,
            old(self).wf() ==> final(self).wf(),
    {
        self.turn.session = false;
        self.turn.provider_thread_id = provider_thread_id;
        self.turn.turn_id = None;
        self.turn.agent_message = None;
        self.turn.reasoning_preview = String::new();
        self.turn.approvals = Vec::new();
        self.turn.generation = self.turn.generation.wrapping_add(1);
        self.turn.running = false;
        let _ = self.publishing.editor.set_text("");
        self.publishing.operation = None;
        self.publishing.status = None;
        proof {
            reveal_strlit("");
            assert(self@.turn =~= quiet_turn(old(self)@.turn, opt_view(provider_thread_id)));
        }
    }

    /// See [`entered`].
    fn enter(&mut self, i: usize, workspace_is_dir: bool, repo: RepoSnapshot)
        requires
            i < old(self)@.known.threads.len(),
        ensures
            final(self)@ == entered(
                old(self)@,
                old(self)@.known.threads[i as int],
                workspace_is_dir,
                repo@,
            ),
            final(self).known == old(self).known,
            old(self).wf() ==> final(self).wf(),
    {
        broadcast use views_index;

        let provider = text::copy_opt(&self.known.threads[i].provider_thread_id);
        self.enter_thread(i);
        self.enter_folder(i, workspace_is_dir, repo);
        self.quiet(provider);
    }

    fn enter_thread(&mut self, i: usize)
        requires
            i < old(self)@.known.threads.len(),
        ensures
            ({
                let t = old(self)@.known.threads[i as int];
                final(self)@ == (AppModel {
                    thread: ShownModel {
                        id: t.id,
                        title: t.title,
                        branch: t.branch,
                        number: if t.ordinal < 1 {
                            1
                        } else {
                            t.ordinal as usize
                        },
                        creating_worktree: false,
                        ..old(self)@.thread
                    },
                    ..old(self)@
                })
            }),
            final(self).known == old(self).known,
    {
        broadcast use views_index;

        let t = &self.known.threads[i];
        self.thread.id = t.id.clone();
        self.thread.title = t.title.clone();
        self.thread.branch = text::copy_opt(&t.branch);
        self.thread.number = if t.ordinal < 1 {
            1
        } else {
            t.ordinal
        };
        self.thread.creating_worktree = false;
    }

    fn enter_folder(&mut self, i: usize, workspace_is_dir: bool, repo: RepoSnapshot)
        requires
            i < old(self)@.known.threads.len(),
        ensures
            ({
                let t = old(self)@.known.threads[i as int];
                final(self)@ == (AppModel {
                    project: OpenModel {
                        root: t.project_path,
                        path: folder_of(t, workspace_is_dir),
                        name: t.project_name,
                        repo: repo@,
                        ..old(self)@.project
                    },
                    ..old(self)@
                })
            }),
            final(self).known == old(self).known,
    {
        broadcast use views_index;

        let t = &self.known.threads[i];
        self.project.root = t.project_path.clone();
        self.project.path = thread_folder(t, workspace_is_dir);
        self.project.name = t.project_name.clone();
        self.project.repo = repo;
    }

    /// See [`resumed`].
    fn resume(&mut self, i: usize)
        requires
            i < old(self)@.known.threads.len(),
            old(self)@.known.threads[i as int].id == old(self)@.thread.id,
        ensures
            final(self)@ == resumed(old(self)@, old(self)@.known.threads[i as int]),
            old(self).wf() ==> final(self).wf(),
    {
        broadcast use views_index;

        self.project.open = true;
        self.surface.reconcile_project_route(self.project.repo.is_repository);
        let messages = show_messages(&self.known.threads[i].messages);
        self.thread.messages = messages;
        match self.thread.draft_of(self.thread.id.as_str()) {
            Some(draft) => {
                let _ = self.thread.composer.set_text(draft.as_str());
            },
            None => {
                let _ = self.thread.composer.set_text("");
            },
        }
    }

    /// See [`switched`]. What stood in the thread before is put by first, with
    /// [`RodeApp::begin_switch`].
    pub fn switch_thread(&mut self, thread_id: &str, workspace_is_dir: bool, repo: RepoSnapshot) -> (r: Vec<
        Effect,
    >)
        requires
            old(self).wf(),
        ensures
            final(self)@ == switched(old(self)@, thread_id@, workspace_is_dir, repo@).0,
            views(r@) == switched(old(self)@, thread_id@, workspace_is_dir, repo@).1,
            final(self).wf(),
    {
        broadcast use views_index;

        if text::same(self.thread.id.as_str(), thread_id) {
            return nothing();
        }
        let i: usize = match find_thread(&self.known.threads, thread_id) {
            Some(i) => i,
            None => {
                return nothing();
            },
        };
        let is_repository = repo.is_repository;
        self.enter(i, workspace_is_dir, repo);
        if !is_repository {
            let error = text::concat(
                self.project.root.as_str(),
                " is no longer a Git repository. Repair or remove it below.",
            );
            let effects = self.close_project();
            self.picker.error = Some(error);
            return effects;
        }
        self.resume(i);
        followed_by(
            one(Effect::EndSession),
            followed_by(self.save_active_project(), self.persist_current_thread()),
        )
    }

    /// Begins to make a new thread in the project that is open: what stands in the thread that is
    /// shown is put by.
    pub fn new_thread(&mut self) -> (r: Vec<Effect>)
        ensures
            (final(self)@, views(r@)) == (if old(self)@.project.open
                && old(self)@.project.repo.is_repository {
                left(
                    AppModel {
                        surface: SurfaceModel { show_create_menu: false, ..old(self)@.surface },
                        ..old(self)@
                    },
                )
            } else {
                (old(self)@, Seq::empty())
            }),
            (final(self)@, views(r@)) == thread_asked(old(self)@),
    {
        if !self.project.open || !self.project.repo.is_repository {
            return nothing();
        }
        self.surface.show_create_menu = false;
        self.leave_thread()
    }

    /// See [`begun`].
    fn begin_thread(&mut self, thread_id: &str, repo: RepoSnapshot)
        requires
            old(self).wf(),
        ensures
            final(self)@ == begun(old(self)@, thread_id@, repo@),
            final(self).wf(),
    {
        proof {
            last_number_is_small(self@.known.threads, self@.project.root);
        }
        let number: usize = largest_number(&self.known.threads, self.project.root.as_str()) + 1;
        self.quiet(None);
        let label = text::number(number as u64, 10);
        self.thread.id = thread_id.to_owned();
        self.thread.title = text::concat("Thread ", label.as_str());
        self.thread.branch = None;
        self.thread.number = number;
        self.thread.creating_worktree = self.known.isolate_new_threads;
        let _ = self.thread.composer.set_text("");
        let greeting = if self.known.isolate_new_threads {
            "Creating an isolated Git worktree for the new thread…"
        } else {
            "New local thread in the project folder. The first prompt will open a new Codex app-server session."
        };
        self.thread.messages = one_message(greeting.to_owned());
        self.project.path = self.project.root.clone();
        self.project.repo = repo;
        assert(self@.thread =~= begun(old(self)@, thread_id@, repo@).thread);
    }

    /// See [`thread_begun`].
    pub fn start_new_thread(&mut self, thread_id: &str, repo: RepoSnapshot) -> (r: Vec<Effect>)
        requires
            old(self).wf(),
        ensures
            final(self)@ == thread_begun(old(self)@, thread_id@, repo@).0,
            views(r@) == thread_begun(old(self)@, thread_id@, repo@).1,
            final(self).wf(),
    {
        if !self.project.open || !self.project.repo.is_repository {
            return nothing();
        }
        self.begin_thread(thread_id, repo);
        let worktree = Effect::CreateWorktree {
            generation: self.turn.generation,
            repository: self.project.root.clone(),
            thread_id: self.thread.id.clone(),
            title: self.thread.title.clone(),
        };
        followed_by(
            one(Effect::EndSession),
            followed_by(
                self.persist_current_thread(),
                only_if(self.known.isolate_new_threads, worktree),
            ),
        )
    }

    /// See [`isolated`].
    pub fn worktree_created(
        &mut self,
        generation: u64,
        worktree: Result<ThreadWorktree, String>,
        repo: RepoSnapshot,
    ) -> (r: Vec<Effect>)
        ensures
            (final(self)@, views(r@)) == isolated(
                old(self)@,
                generation,
                match worktree {
                    Ok(w) => Ok(w@),
                    Err(error) => Err(error@),
                },
                repo@,
            ),
            old(self).wf() ==> final(self).wf(),
    {
        if self.turn.generation != generation {
            return nothing();
        }
        let text = match worktree {
            Ok(w) => {
                let text = text::concat3(
                    "Isolated worktree ready on `",
                    w.branch.as_str(),
                    "`. The first prompt will open a new Codex app-server session.",
                );
                self.project.path = w.path;
                self.thread.branch = Some(w.branch);
                text
            },
            Err(error) => {
                self.project.path = self.project.root.clone();
                self.thread.branch = None;
                text::concat3(
                    "Could not create an isolated worktree: ",
                    error.as_str(),
                    ". This thread is using the main checkout.",
                )
            },
        };
        self.project.repo = repo;
        self.thread.messages = one_message(text);
        self.thread.creating_worktree = false;
        self.persist_current_thread()
    }
}

/// One message of the application's own.
fn one_message(text: String) -> (r: Vec<Message>)
    ensures
        views(r@) == seq![ChatModel { role: MessageRole::System, text: text@ }],
{
    let mut r: Vec<Message> = Vec::new();
    r.push(Message { role: MessageRole::System, text });
    assert(views(r@) =~= seq![ChatModel { role: MessageRole::System, text: text@ }]);
    r
}

/// The number of a new thread is above those of all other threads of its project.
pub proof fn new_threads_have_new_numbers(a: AppModel, id: Seq<char>, repo: SnapshotModel, i: int)
    requires
        a.wf(),
        0 <= i < a.known.threads.len(),
        a.known.threads[i].project_path == a.project.root,
    ensures
        begun(a, id, repo).thread.number > a.known.threads[i].ordinal,
{
    last_number_is_small(a.known.threads, a.project.root);
    numbers_are_bounded(a.known.threads, a.project.root, i);
}

/// What stood in the composer of a thread stands there again when the user comes back to it.
pub proof fn drafts_are_kept(
    a: AppModel,
    other: Seq<char>,
    there_is_dir: bool,
    there: SnapshotModel,
    back_is_dir: bool,
    back: SnapshotModel,
)
    requires
        a.project.open,
        other != a.thread.id,
        thread_with_id(a.known.threads, other, 0) is Some,
        thread_with_id(a.known.threads, a.thread.id, 0) is Some,
        there.is_repository,
        back.is_repository,
    ensures
        ({
            let away = switched(left(a).0, other, there_is_dir, there).0;
            let home = switched(left(away).0, a.thread.id, back_is_dir, back).0;
            &&& home.thread.id == a.thread.id
            &&& home.thread.composer.text == a.thread.composer.text
        }),
{
    found_threads_have_the_id(a.known.threads, other, 0);
    found_threads_have_the_id(a.known.threads, a.thread.id, 0);
}

proof fn found_threads_have_the_id(threads: Seq<ThreadModel>, id: Seq<char>, i: int)
    requires
        0 <= i,
    ensures
        thread_with_id(threads, id, i) matches Some(k) ==> i <= k < threads.len() && threads[k].id
            == id,
    decreases threads.len() - i,
{
    if i < threads.len() {
        found_threads_have_the_id(threads, id, i + 1);
    }
}

/// What comes of the workspace of an earlier thread is not heeded.
pub proof fn late_workspaces_are_not_heeded(
    a: AppModel,
    id: Seq<char>,
    repo: SnapshotModel,
    worktree: Result<WorktreeModel, Seq<char>>,
    found: SnapshotModel,
)
    requires
        a.project.open,
        a.project.repo.is_repository,
    ensures
        ({
            let b = thread_begun(a, id, repo).0;
            isolated(b, a.turn.generation, worktree, found) == (b, Seq::<EffectModel>::empty())
        }),
{
}

/// The thread that the user goes to is the one that is shown, under its own id, title and branch,
/// with the words of its messages in their order, in its own project and in its own workspace
/// where that is still there. Its next prompt goes on with the agent's thread that it had, and
/// what was left unsent in it is there again.
pub proof fn the_thread_asked_for_is_shown(a: AppModel, i: int, is_dir: bool, repo: SnapshotModel)
    requires
        0 <= i < a.known.threads.len(),
        forall|k: int| 0 <= k < i ==> (#[trigger] a.known.threads[k]).id != a.known.threads[i].id,
        a.thread.id != a.known.threads[i].id,
        repo.is_repository,
    ensures
        ({
            let t = a.known.threads[i];
            let b = switched(a, t.id, is_dir, repo).0;
            &&& b.thread.id == t.id
            &&& b.thread.title == t.title
            &&& b.thread.branch == t.branch
            &&& t.ordinal >= 1 && t.ordinal <= usize::MAX ==> b.thread.number == t.ordinal
            &&& !b.thread.creating_worktree
            &&& t.messages.len() > 0 ==> b.thread.messages.len() == t.messages.len()
            &&& forall|m: int|
                0 <= m < t.messages.len() ==> (#[trigger] b.thread.messages[m]).text
                    == t.messages[m].text && b.thread.messages[m].role == named_role(
                    t.messages[m].role,
                )
            &&& t.messages.len() == 0 ==> b.thread.messages.len() == 1
                && b.thread.messages[0].role is System
            &&& b.turn.provider_thread_id == t.provider_thread_id
            &&& a.thread.drafts.contains_key(t.id) ==> b.thread.composer.text
                == a.thread.drafts[t.id]
            &&& !a.thread.drafts.contains_key(t.id) ==> b.thread.composer.text.len() == 0
            &&& b.thread.drafts == a.thread.drafts
            &&& b.project.open
            &&& b.project.root == t.project_path
            &&& b.project.name == t.project_name
            &&& is_dir ==> b.project.path == t.workspace_path
            &&& !is_dir ==> b.project.path == t.project_path
            &&& b.project.repo == repo
            &&& b.known == a.known
            &&& b.surface == a.surface
            &&& b.account == a.account
        }),
{
    first_thread_is_found(a.known.threads, a.known.threads[i].id, 0, i);
    reveal_strlit("");
}

/// Nothing that runs in the thread that is left goes on in the one that is gone to: the session
/// ends before anything else is done, nothing is waited for, and what the old session still says
/// belongs to another session than the one that counts.
pub proof fn nothing_runs_on_in_another_thread(
    a: AppModel,
    i: int,
    is_dir: bool,
    repo: SnapshotModel,
)
    requires
        0 <= i < a.known.threads.len(),
        forall|k: int| 0 <= k < i ==> (#[trigger] a.known.threads[k]).id != a.known.threads[i].id,
        a.thread.id != a.known.threads[i].id,
        repo.is_repository,
    ensures
        ({
            let (b, effects) = switched(a, a.known.threads[i].id, is_dir, repo);
            &&& !b.turn.session
            &&& !b.turn.running
            &&& b.turn.turn_id is None
            &&& b.turn.agent_message is None
            &&& b.turn.reasoning_preview.len() == 0
            &&& b.turn.approvals.len() == 0
            &&& b.turn.generation != a.turn.generation
            &&& b.publishing.operation is None
            &&& b.publishing.status is None
            &&& b.publishing.editor.text.len() == 0
            &&& effects.len() > 0
            &&& effects[0] == EffectModel::EndSession
            &&& forall|k: int|
                1 <= k < effects.len() ==> effects[k] is SaveThread
                    || effects[k] is SaveActiveProject
        }),
{
    first_thread_is_found(a.known.threads, a.known.threads[i].id, 0, i);
    reveal_strlit("");
    reveal(saving_active);
    reveal(saving);
}

/// The thread that is shown, and one that is not known, are not gone to.
pub proof fn other_threads_are_not_gone_to(
    a: AppModel,
    id: Seq<char>,
    is_dir: bool,
    repo: SnapshotModel,
)
    requires
        a.thread.id == id || forall|k: int|
            0 <= k < a.known.threads.len() ==> (#[trigger] a.known.threads[k]).id != id,
    ensures
        switched(a, id, is_dir, repo).0 == a,
        switched(a, id, is_dir, repo).1.len() == 0,
{
    if a.thread.id != id {
        unknown_threads_are_not_found(a.known.threads, id, 0);
    }
}

proof fn unknown_threads_are_not_found(threads: Seq<ThreadModel>, id: Seq<char>, from: int)
    requires
        0 <= from <= threads.len(),
        forall|k: int| 0 <= k < threads.len() ==> (#[trigger] threads[k]).id != id,
    ensures
        thread_with_id(threads, id, from) is None,
    decreases threads.len() - from,
{
    if from < threads.len() {
        assert(threads[from].id != id);
        unknown_threads_are_not_found(threads, id, from + 1);
    }
}

/// A thread whose repository is gone is not shown: no project is open, the session and the
/// terminals end, and the user is told which folder it is.
pub proof fn lost_repositories_are_told(a: AppModel, i: int, is_dir: bool, repo: SnapshotModel)
    requires
        0 <= i < a.known.threads.len(),
        forall|k: int| 0 <= k < i ==> (#[trigger] a.known.threads[k]).id != a.known.threads[i].id,
        a.thread.id != a.known.threads[i].id,
        !repo.is_repository,
    ensures
        ({
            let t = a.known.threads[i];
            let (b, effects) = switched(a, t.id, is_dir, repo);
            &&& !b.project.open
            &&& !b.project.repo.is_repository
            &&& !b.turn.session
            &&& !b.turn.running
            &&& b.picker.error is Some
            &&& t.project_path.is_prefix_of(b.picker.error->0)
            &&& effects == seq![EffectModel::EndSession, EffectModel::CloseTerminals]
            &&& b.known == a.known
        }),
{
    let t = a.known.threads[i];
    first_thread_is_found(a.known.threads, t.id, 0, i);
    assert(closing() =~= seq![EffectModel::EndSession, EffectModel::CloseTerminals]);
}

/// A new thread is new: it has the id that was given, nothing of the agent's, nothing written in
/// it and nothing that runs; it works at the root of the project. A workspace of its own is asked
/// for exactly where new threads are kept apart, for this thread, in this repository, and it is
/// the last thing that is done.
pub proof fn new_threads_are_new(a: AppModel, id: Seq<char>, repo: SnapshotModel)
    requires
        a.project.open,
        a.project.repo.is_repository,
        countable(a.known.threads),
    ensures
        ({
            let (b, effects) = thread_begun(a, id, repo);
            &&& b.thread.id == id
            &&& b.thread.branch is None
            &&& b.thread.creating_worktree == a.known.isolate_new_threads
            &&& b.thread.messages.len() == 1
            &&& b.thread.messages[0].role is System
            &&& b.thread.composer.text.len() == 0
            &&& b.thread.drafts == a.thread.drafts
            &&& b.turn.provider_thread_id is None
            &&& !b.turn.session
            &&& !b.turn.running
            &&& b.turn.turn_id is None
            &&& b.turn.approvals.len() == 0
            &&& b.turn.generation != a.turn.generation
            &&& b.project.open
            &&& b.project.root == a.project.root
            &&& b.project.path == a.project.root
            &&& b.project.name == a.project.name
            &&& b.project.repo == repo
            &&& b.known == a.known
            &&& b.surface == a.surface
            &&& forall|k: int|
                0 <= k < a.known.threads.len() && (#[trigger] a.known.threads[k]).project_path
                    == a.project.root ==> a.known.threads[k].ordinal < b.thread.number
            &&& effects.len() > 0
            &&& effects[0] == EffectModel::EndSession
            &&& a.known.isolate_new_threads ==> effects.last() == (EffectModel::CreateWorktree {
                generation: b.turn.generation,
                repository: a.project.root,
                thread_id: id,
                title: b.thread.title,
            })
            &&& forall|k: int|
                0 <= k < effects.len() && effects[k] is CreateWorktree
                    ==> a.known.isolate_new_threads
        }),
{
    let b = begun(a, id, repo);
    reveal_strlit("");
    reveal(saving);
    last_number_is_small(a.known.threads, a.project.root);
    assert forall|k: int|
        0 <= k < a.known.threads.len() && (#[trigger] a.known.threads[k]).project_path
            == a.project.root implies a.known.threads[k].ordinal < b.thread.number by {
        numbers_are_bounded(a.known.threads, a.project.root, k);
    }
}

/// Without a repository there is no new thread.
pub proof fn no_threads_without_a_repository(a: AppModel, id: Seq<char>, repo: SnapshotModel)
    requires
        !a.project.open || !a.project.repo.is_repository,
    ensures
        thread_begun(a, id, repo).0 == a,
        thread_begun(a, id, repo).1.len() == 0,
        thread_asked(a).0 == a,
        thread_asked(a).1.len() == 0,
{
}

/// A thread works in the workspace that was made for it, on that workspace's branch, and says so;
/// where none was made it works at the root of the project, on no branch of its own, and says
/// why. It stays the same thread.
pub proof fn threads_work_where_their_workspace_is(
    a: AppModel,
    made: WorktreeModel,
    error: Seq<char>,
    repo: SnapshotModel,
)
    ensures
        ({
            let b = isolated(a, a.turn.generation, Ok(made), repo).0;
            let c = isolated(a, a.turn.generation, Err(error), repo).0;
            &&& b.project.path == made.path
            &&& b.thread.branch == Some(made.branch)
            &&& b.thread.messages.len() == 1
            &&& b.thread.messages[0].role is System
            &&& has_part(b.thread.messages[0].text, made.branch)
            &&& c.project.path == a.project.root
            &&& c.thread.branch is None
            &&& c.thread.messages.len() == 1
            &&& c.thread.messages[0].role is System
            &&& has_part(c.thread.messages[0].text, error)
            &&& forall|d: AppModel|
                d == b || d == c ==> {
                    &&& !(#[trigger] d.thread).creating_worktree
                    &&& d.project.repo == repo
                    &&& d.project.root == a.project.root
                    &&& d.project.open == a.project.open
                    &&& d.project.name == a.project.name
                    &&& d.thread.id == a.thread.id
                    &&& d.thread.title == a.thread.title
                    &&& d.thread.number == a.thread.number
                    &&& d.thread.composer == a.thread.composer
                    &&& d.turn == a.turn
                    &&& d.known == a.known
                }
        }),
{
    let ready = "Isolated worktree ready on `"@;
    let after = "`. The first prompt will open a new Codex app-server session."@;
    let failed = "Could not create an isolated worktree: "@;
    let main = ". This thread is using the main checkout."@;
    parts_are_held(ready, made.branch, after);
    parts_are_held(failed, error, main);
}

/// Whether one thing is done, where anything can be kept: the thread that is shown is, with what
/// stands in the composer.
pub open spec fn keeps_what_is_written(a: AppModel, effects: Seq<EffectModel>) -> bool {
    if a.known.has_store && a.project.open && a.project.repo.is_repository && a.project.root.len()
        > 0 {
        effects.len() == 1 && (effects[0] matches EffectModel::SaveThread(t) && {
            &&& t.id == a.thread.id
            &&& t.draft == a.thread.composer.text
            &&& t.provider_thread_id == a.turn.provider_thread_id
            &&& t.workspace_path == a.project.path
            &&& t.project_path == a.project.root
            &&& t.messages.len() == a.thread.messages.len()
        })
    } else {
        effects.len() == 0
    }
}

/// What stands in the composer is not lost when a thread is left or a new one is asked for, and
/// the thread is kept as it is shown; the one that is gone to already is not left.
pub proof fn nothing_is_lost_when_a_thread_is_left(a: AppModel, id: Seq<char>)
    requires
        a.project.open,
    ensures
        switch_begun(a, a.thread.id).0 == a,
        switch_begun(a, a.thread.id).1.len() == 0,
        id != a.thread.id ==> ({
            let (b, effects) = switch_begun(a, id);
            &&& b.thread.drafts.contains_key(a.thread.id)
            &&& b.thread.drafts[a.thread.id] == a.thread.composer.text
            &&& forall|other: Seq<char>|
                other != a.thread.id && #[trigger] a.thread.drafts.contains_key(other)
                    ==> b.thread.drafts.contains_key(other) && b.thread.drafts[other]
                    == a.thread.drafts[other]
            &&& keeps_what_is_written(a, effects)
            &&& b.turn == a.turn
            &&& b.project == a.project
            &&& b.thread.messages == a.thread.messages
        }),
        a.project.repo.is_repository ==> ({
            let (b, effects) = thread_asked(a);
            &&& b.thread.drafts.contains_key(a.thread.id)
            &&& b.thread.drafts[a.thread.id] == a.thread.composer.text
            &&& keeps_what_is_written(a, effects)
            &&& !b.surface.show_create_menu
            &&& b.turn == a.turn
            &&& b.project == a.project
            &&& b.thread.messages == a.thread.messages
        }),
{
    reveal(saving);
}

} // verus!
