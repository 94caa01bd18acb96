//! Turns: the prompt that starts one, what the agent tells of it, and the approvals that it
//! asks for. Each session has a number, and what comes from an earlier one is not heeded.
use vstd::prelude::*;
use vstd::string::*;

use crate::app::{
    agent_available, followed_by, nothing, one, said, saving, uttered, AppModel, ChatModel, Effect,
    EffectModel, MessageRole, OpenModel, PickerModel, RodeApp, ShownModel, ShownThread, TurnModel,
};
use crate::codex::{ApprovalKind, CodexEvent, EventModel};
use crate::editor;
use crate::editor::{counted, units, EditorModel};
use crate::notifications;
use crate::notifications::notification_args;
use crate::snapshot::{RepoSnapshot, SnapshotModel};
use crate::text;
use crate::text::{joined, lines_of, signed_decimal, trimmed};
use crate::views::{opt_view, views, views_index, views_push, views_update};

verus! {

/// An editor in which everything was deleted.
pub open spec fn cleared(e: EditorModel) -> EditorModel {
    EditorModel {
        text: Seq::empty(),
        cursor: 0,
        selection: None,
        cursor_visible: true,
        ..e
    }
}

/// The application with a turn that was asked for.
pub open spec fn turn_asked(a: AppModel, prompt: Seq<char>) -> AppModel {
    AppModel {
        thread: uttered(
            ShownModel { composer: cleared(a.thread.composer), ..a.thread },
            MessageRole::User,
            prompt,
        ),
        turn: TurnModel {
            agent_message: None,
            reasoning_preview: Seq::empty(),
            running: true,
            ..a.turn
        },
        ..a
    }
}

/// What is done to start a turn: in the session that runs, or in a new one.
pub open spec fn turn_start(a: AppModel, prompt: Seq<char>) -> Seq<EffectModel> {
    if a.turn.session {
        seq![EffectModel::StartTurn { generation: a.turn.generation, prompt }]
    } else {
        seq![
            EffectModel::StartSession {
                generation: a.turn.generation,
                cwd: a.project.path,
                resume: a.turn.provider_thread_id,
                prompt,
            },
        ]
    }
}

/// The application after the user sent what stands in the composer, and what is done. A turn
/// needs a project, an agent and an account; there is one at a time, and none without a prompt.
pub open spec fn prompt_sent(a: AppModel) -> (AppModel, Seq<EffectModel>) {
    let prompt = trimmed(a.thread.composer.text);
    if !a.project.open || !a.project.repo.is_repository {
        (
            AppModel {
                picker: PickerModel {
                    error: Some("Open a Git project before starting a thread."@),
                    ..a.picker
                },
                ..a
            },
            Seq::empty(),
        )
    } else if a.turn.running || a.thread.creating_worktree || prompt.len() == 0 {
        (a, Seq::empty())
    } else if !agent_available(a.account) {
        (
            said(
                a,
                MessageRole::System,
                "Codex was not found on PATH. Install and authenticate the Codex CLI, then restart Rode."@,
            ),
            Seq::empty(),
        )
    } else if !(a.account.auth is SignedIn) {
        (
            said(
                a,
                MessageRole::System,
                "Sign in with ChatGPT from the Codex card in the sidebar before starting a thread."@,
            ),
            Seq::empty(),
        )
    } else {
        let b = turn_asked(a, prompt);
        (b, saving(b) + turn_start(b, prompt))
    }
}

/// The application after the agent was started, or was not.
pub open spec fn session_begun(a: AppModel, generation: u64, error: Option<Seq<char>>) -> AppModel {
    if a.turn.generation != generation {
        a
    } else {
        match error {
            None => AppModel { turn: TurnModel { session: true, ..a.turn }, ..a },
            Some(error) => said(
                AppModel { turn: TurnModel { running: false, ..a.turn }, ..a },
                MessageRole::System,
                "Could not start Codex app-server: "@ + error,
            ),
        }
    }
}

/// The application after a turn was not started.
pub open spec fn turn_lost(a: AppModel, generation: u64, error: Seq<char>) -> AppModel {
    if a.turn.generation != generation {
        a
    } else {
        said(
            AppModel { turn: TurnModel { running: false, ..a.turn }, ..a },
            MessageRole::System,
            "Could not start Codex turn: "@ + error,
        )
    }
}

/// The thread with the agent's message that is being written; a new one where there is none.
pub open spec fn written(t: ShownModel, at: Option<usize>) -> (ShownModel, int) {
    match at {
        Some(i) => if i < t.messages.len() {
            (t, i as int)
        } else {
            (uttered(t, MessageRole::Agent, Seq::empty()), t.messages.len() as int)
        },
        None => (uttered(t, MessageRole::Agent, Seq::empty()), t.messages.len() as int),
    }
}

/// The thread with the text of a message replaced.
pub open spec fn restated(t: ShownModel, i: int, text: Seq<char>) -> ShownModel {
    ShownModel { messages: t.messages.update(i, ChatModel { text, ..t.messages[i] }), ..t }
}

/// The most of what the agent thinks that is shown, in bytes.
pub const MAX_REASONING_PREVIEW: usize = 240;

/// The position of the last character that begins at or before a number of bytes, from `i` on.
pub open spec fn floor_boundary(s: Seq<char>, offset: nat, i: int) -> int
    decreases s.len() - i,
{
    if i < 0 || i >= s.len() || units(s.take(i + 1), false) > offset {
        i
    } else {
        floor_boundary(s, offset, i + 1)
    }
}

/// The end of a text, as much as is shown of it.
pub open spec fn preview(s: Seq<char>) -> Seq<char> {
    let length = counted(units(s, false));
    if length > MAX_REASONING_PREVIEW {
        s.skip(floor_boundary(s, (length - MAX_REASONING_PREVIEW) as nat, 0))
    } else {
        s
    }
}

/// The first lines of what a command wrote.
pub open spec fn head_of(output: Seq<char>) -> Seq<char> {
    let lines = lines_of(output);
    joined(
        lines.take(
            if lines.len() < 20 {
                lines.len() as int
            } else {
                20
            },
        ),
        "\n"@,
    )
}

/// What is said of a command that ended.
pub open spec fn command_report(
    item_id: Seq<char>,
    command: Seq<char>,
    exit_code: Option<i64>,
    output: Seq<char>,
) -> Seq<char> {
    let code = match exit_code {
        Some(code) => signed_decimal(code as int),
        None => "?"@,
    };
    let head = head_of(output);
    "$ "@ + command + "\nexit "@ + code + " · item "@ + item_id + (if head.len() == 0 {
        Seq::empty()
    } else {
        "\n\n"@ + head
    })
}

/// Whether a turn went wrong.
pub open spec fn turn_failed(status: Seq<char>, error: Option<Seq<char>>) -> bool {
    error is Some || !(status == "completed"@ || status == "success"@)
}

/// The application after a turn ended, before that is told.
pub open spec fn turn_ended(a: AppModel, repo: Option<SnapshotModel>) -> AppModel {
    AppModel {
        turn: TurnModel {
            running: false,
            turn_id: None,
            agent_message: None,
            reasoning_preview: Seq::empty(),
            ..a.turn
        },
        project: OpenModel {
            repo: match repo {
                Some(repo) => repo,
                None => a.project.repo,
            },
            ..a.project
        },
        ..a
    }
}

/// The application after the agent told something, and what is done. `repo` is what the
/// repository is like when a turn has ended.
pub open spec fn told(a: AppModel, event: EventModel, repo: Option<SnapshotModel>) -> (
    AppModel,
    Seq<EffectModel>,
) {
    match event {
        EventModel::SessionReady { thread_id, model } => {
            let b = said(
                AppModel {
                    turn: TurnModel { provider_thread_id: Some(thread_id), ..a.turn },
                    ..a
                },
                MessageRole::System,
                "Codex app-server session ready · "@ + model,
            );
            (b, saving(b))
        },
        EventModel::TurnStarted { turn_id } => (
            AppModel { turn: TurnModel { turn_id: Some(turn_id), ..a.turn }, ..a },
            Seq::empty(),
        ),
        EventModel::AgentMessageDelta { delta, .. } => {
            let (t, i) = written(a.thread, a.turn.agent_message);
            (
                AppModel {
                    thread: restated(t, i, t.messages[i].text + delta),
                    turn: TurnModel { agent_message: Some(i as usize), ..a.turn },
                    ..a
                },
                Seq::empty(),
            )
        },
        EventModel::AgentMessageCompleted { text, .. } => {
            let t = match a.turn.agent_message {
                Some(i) => if i < a.thread.messages.len() {
                    restated(a.thread, i as int, text)
                } else if trimmed(text).len() == 0 {
                    a.thread
                } else {
                    uttered(a.thread, MessageRole::Agent, text)
                },
                None => if trimmed(text).len() == 0 {
                    a.thread
                } else {
                    uttered(a.thread, MessageRole::Agent, text)
                },
            };
            let b = AppModel {
                thread: t,
                turn: TurnModel { agent_message: None, ..a.turn },
                ..a
            };
            (b, saving(b))
        },
        EventModel::ReasoningDelta { delta, .. } => (
            AppModel {
                turn: TurnModel {
                    reasoning_preview: preview(a.turn.reasoning_preview + delta),
                    ..a.turn
                },
                ..a
            },
            Seq::empty(),
        ),
        EventModel::CommandStarted { item_id, command, cwd } => (
            said(
                a,
                MessageRole::Tool,
                "$ "@ + command + "\n"@ + cwd + "\nitem "@ + item_id,
            ),
            Seq::empty(),
        ),
        EventModel::CommandCompleted { item_id, command, exit_code, output } => (
            said(a, MessageRole::Tool, command_report(item_id, command, exit_code, output)),
            Seq::empty(),
        ),
        // What a command writes is shown once it has ended.
        EventModel::CommandOutputDelta { .. } => (a, Seq::empty()),
        EventModel::FileChangeStarted { item_id, summary } => (
            said(
                a,
                MessageRole::Tool,
                "Editing files · "@ + summary + "\nitem "@ + item_id,
            ),
            Seq::empty(),
        ),
        // The change itself shows in the diff.
        EventModel::FileChangeCompleted { .. } => (a, Seq::empty()),
        EventModel::ApprovalRequested(request) => (
            AppModel {
                turn: TurnModel { approvals: a.turn.approvals.push(request), ..a.turn },
                ..a
            },
            Seq::empty(),
        ),
        EventModel::TurnCompleted { status, error } => {
            let b = turn_ended(a, repo);
            let c = match error {
                Some(error) => said(
                    b,
                    MessageRole::System,
                    "Codex turn "@ + status + ": "@ + error,
                ),
                None => b,
            };
            (
                c,
                seq![
                    EffectModel::Notify(
                        notification_args(a.thread.title, status, turn_failed(status, error)),
                    ),
                ] + saving(c),
            )
        },
        EventModel::Error(error) => (
            said(a, MessageRole::System, "Codex app-server: "@ + error),
            Seq::empty(),
        ),
        EventModel::Exited => {
            let ended = AppModel {
                turn: TurnModel { session: false, running: false, ..a.turn },
                ..a
            };
            let b = if a.turn.running {
                said(
                    ended,
                    MessageRole::System,
                    "Codex app-server exited before the turn completed."@,
                )
            } else {
                ended
            };
            (b, saving(b))
        },
    }
}

impl ShownThread {
    /// Replaces the text of a message.
    fn restate(&mut self, i: usize, text: String)
        requires
            i < old(self)@.messages.len(),
        ensures
            final(self)@ == restated(old(self)@, i as int, text@),
    {
        broadcast use {views_update, views_index};

        let message = &mut self.messages[i];
        message.text = text;
        assert(self@.messages =~= restated(old(self)@, i as int, text@).messages);
    }

    /// The position of the agent's message that is being written. See [`written`].
    fn write_on(&mut self, at: Option<usize>) -> (i: usize)
        ensures
            (final(self)@, i as int) == written(old(self)@, at),
            i < final(self)@.messages.len(),
    {
        if let Some(i) = at {
            if i < self.messages.len() {
                return i;
            }
        }
        let i: usize = self.messages.len();
        let none = String::new();
        proof {
            reveal_strlit("");
            assert(none@ =~= Seq::empty());
        }
        self.say(MessageRole::Agent, none);
        i
    }
}

/// See [`preview`].
fn shorten(s: String) -> (r: String)
    ensures
        r@ == preview(s@),
{
    let chars = text::chars(s.as_str());
    assert(chars@.take(chars@.len() as int) =~= chars@);
    let length: usize = editor::units_before(&chars, chars.len(), false);
    if length <= MAX_REASONING_PREVIEW {
        return s;
    }
    let offset: usize = length - MAX_REASONING_PREVIEW;
    let mut i: usize = 0;
    while i < chars.len() && editor::units_before(&chars, i + 1, false) <= offset
        invariant
            i <= chars.len(),
            offset < usize::MAX,
            floor_boundary(chars@, offset as nat, 0) == floor_boundary(
                chars@,
                offset as nat,
                i as int,
            ),
        ensures
            i <= chars.len(),
            i == floor_boundary(chars@, offset as nat, 0),
        decreases chars.len() - i,
    {
        i = i + 1;
    }
    let r = text::slice(&chars, i, chars.len());
    assert(r@ =~= s@.skip(i as int));
    r
}

/// See [`head_of`].
fn head(output: &str) -> (r: String)
    ensures
        r@ == head_of(output@),
{
    let mut lines = text::lines(output);
    let ghost all = lines_of(output@);
    if lines.len() > 20 {
        lines.truncate(20);
    }
    assert(views(lines@) =~= all.take(
        if all.len() < 20 {
            all.len() as int
        } else {
            20
        },
    ));
    text::join(&lines, "\n")
}

/// See [`command_report`].
fn report_command(item_id: &str, command: &str, exit_code: Option<i64>, output: &str) -> (r: String)
    ensures
        r@ == command_report(item_id@, command@, exit_code, output@),
{
    let code = match exit_code {
        Some(code) => text::signed_number(code),
        None => "?".to_owned(),
    };
    let head = head(output);
    let mut r = text::concat3("$ ", command, "\nexit ");
    r.append(code.as_str());
    r.append(" · item ");
    r.append(item_id);
    let ghost so_far = r@;
    if head.as_str().unicode_len() > 0 {
        let shown = text::concat("\n\n", head.as_str());
        r.append(shown.as_str());
    } else {
        assert(so_far + Seq::<char>::empty() =~= so_far);
    }
    r
}

impl RodeApp {
    /// See [`prompt_sent`].
    pub fn send_prompt(&mut self) -> (r: Vec<Effect>)
        requires
            old(self).wf(),
        ensures
            final(self)@ == prompt_sent(old(self)@).0,
            views(r@) == prompt_sent(old(self)@).1,
            final(self).wf(),
    {
        if !self.project.open || !self.project.repo.is_repository {
            self.picker.error = Some("Open a Git project before starting a thread.".to_owned());
            return nothing();
        }
        if self.turn.running || self.thread.creating_worktree {
            return nothing();
        }
        let text = self.thread.composer.text();
        let prompt = text::trim(text.as_str());
        if prompt.as_str().unicode_len() == 0 {
            return nothing();
        }
        if !self.account.codex_available() {
            self.thread.say(
                MessageRole::System,
                "Codex was not found on PATH. Install and authenticate the Codex CLI, then restart Rode.".to_owned(),
            );
            return nothing();
        }
        if !self.account.codex_authenticated() {
            self.thread.say(
                MessageRole::System,
                "Sign in with ChatGPT from the Codex card in the sidebar before starting a thread.".to_owned(),
            );
            return nothing();
        }
        self.ask_turn(prompt)
    }

    /// See [`turn_asked`].
    fn ask_turn(&mut self, prompt: String) -> (r: Vec<Effect>)
        requires
            old(self).wf(),
        ensures
            final(self)@ == turn_asked(old(self)@, prompt@),
            views(r@) == saving(final(self)@) + turn_start(final(self)@, prompt@),
            final(self).wf(),
    {
        let _ = self.thread.composer.clear();
        self.thread.say(MessageRole::User, prompt.clone());
        self.turn.agent_message = None;
        self.turn.reasoning_preview = String::new();
        self.turn.running = true;
        proof {
            reveal_strlit("");
            assert(self@.turn.reasoning_preview =~= Seq::empty());
            assert(self@.turn =~= turn_asked(old(self)@, prompt@).turn);
        }
        let save = self.persist_current_thread();
        let generation: u64 = self.turn.generation;
        let start = if self.turn.session {
            one(Effect::StartTurn { generation, prompt })
        } else {
            one(
                Effect::StartSession {
                    generation,
                    cwd: self.project.path.clone(),
                    resume: text::copy_opt(&self.turn.provider_thread_id),
                    prompt,
                },
            )
        };
        followed_by(save, start)
    }

    /// Takes note of whether the agent was started, and says whether its session is wanted. See
    /// [`session_begun`].
    pub fn session_started(&mut self, generation: u64, error: Option<String>) -> (wanted: bool)
        ensures
            final(self)@ == session_begun(old(self)@, generation, opt_view(error)),
            wanted == (old(self)@.turn.generation == generation && error is None),
    {
        if self.turn.generation != generation {
            return false;
        }
        match error {
            None => {
                self.turn.session = true;
                true
            },
            Some(error) => {
                self.turn.running = false;
                self.thread.say(
                    MessageRole::System,
                    text::concat("Could not start Codex app-server: ", error.as_str()),
                );
                false
            },
        }
    }

    /// See [`turn_lost`].
    pub fn turn_not_started(&mut self, generation: u64, error: &str)
        ensures
            final(self)@ == turn_lost(old(self)@, generation, error@),
    {
        if self.turn.generation == generation {
            self.turn.running = false;
            self.thread.say(
                MessageRole::System,
                text::concat("Could not start Codex turn: ", error),
            );
        }
    }

    /// The turn is over: see [`turn_ended`] and [`told`].
    fn finish_turn(&mut self, status: String, error: Option<String>, repo: Option<RepoSnapshot>) -> (r: Vec<
        Effect,
    >)
        ensures
            final(self)@ == told(
                old(self)@,
                EventModel::TurnCompleted { status: status@, error: opt_view(error) },
                opt_view(repo),
            ).0,
            views(r@) == told(
                old(self)@,
                EventModel::TurnCompleted { status: status@, error: opt_view(error) },
                opt_view(repo),
            ).1,
    {
        self.turn.running = false;
        self.turn.turn_id = None;
        self.turn.agent_message = None;
        self.turn.reasoning_preview = String::new();
        if let Some(repo) = repo {
            self.project.repo = repo;
        }
        proof {
            reveal_strlit("");
            assert(self@.turn.reasoning_preview =~= Seq::empty());
            assert(self@.turn =~= turn_ended(old(self)@, opt_view(repo)).turn);
        }
        let failed = error.is_some() || !(text::same(status.as_str(), "completed") || text::same(
            status.as_str(),
            "success",
        ));
        let notify = notifications::turn_finished(
            self.thread.title.as_str(),
            status.as_str(),
            failed,
        );
        if let Some(error) = error {
            let mut text = text::concat3("Codex turn ", status.as_str(), ": ");
            text.append(error.as_str());
            self.thread.say(MessageRole::System, text);
        }
        followed_by(one(Effect::Notify(notify)), self.persist_current_thread())
    }

    /// A message of the agent is complete: see [`told`].
    fn complete_message(&mut self, item_id: String, text: String) -> (r: Vec<Effect>)
        ensures
            final(self)@ == told(
                old(self)@,
                EventModel::AgentMessageCompleted { item_id: item_id@, text: text@ },
                None,
            ).0,
            views(r@) == saving(final(self)@),
    {
        let known: Option<usize> = match self.turn.agent_message {
            Some(i) => if i < self.thread.messages.len() {
                Some(i)
            } else {
                None
            },
            None => None,
        };
        match known {
            Some(i) => {
                self.thread.restate(i, text);
            },
            None => {
                let bare = text::trim(text.as_str());
                if bare.as_str().unicode_len() > 0 {
                    self.thread.say(MessageRole::Agent, text);
                }
            },
        }
        self.turn.agent_message = None;
        self.persist_current_thread()
    }

    /// More of a message of the agent: see [`told`].
    fn extend_message(&mut self, item_id: String, delta: String)
        ensures
            final(self)@ == told(
                old(self)@,
                EventModel::AgentMessageDelta { item_id: item_id@, delta: delta@ },
                None,
            ).0,
    {
        broadcast use views_index;

        let i: usize = self.thread.write_on(self.turn.agent_message);
        let text = text::concat(self.thread.messages[i].text.as_str(), delta.as_str());
        self.turn.agent_message = Some(i);
        self.thread.restate(i, text);
    }

    /// See [`told`].
    pub fn handle_codex_event(&mut self, event: CodexEvent, repo: Option<RepoSnapshot>) -> (r: Vec<
        Effect,
    >)
        ensures
            final(self)@ == told(old(self)@, event@, opt_view(repo)).0,
            views(r@) == told(old(self)@, event@, opt_view(repo)).1,
            old(self).wf() ==> final(self).wf(),
    {
        broadcast use views_push;

        match event {
            CodexEvent::SessionReady { thread_id, model } => {
                self.turn.provider_thread_id = Some(thread_id);
                self.thread.say(
                    MessageRole::System,
                    text::concat("Codex app-server session ready · ", model.as_str()),
                );
                self.persist_current_thread()
            },
            CodexEvent::TurnStarted { turn_id } => {
                self.turn.turn_id = Some(turn_id);
                nothing()
            },
            CodexEvent::AgentMessageDelta { item_id, delta } => {
                self.extend_message(item_id, delta);
                nothing()
            },
            CodexEvent::AgentMessageCompleted { item_id, text } => self.complete_message(
                item_id,
                text,
            ),
            CodexEvent::ReasoningDelta { delta, .. } => {
                let all = text::concat(self.turn.reasoning_preview.as_str(), delta.as_str());
                self.turn.reasoning_preview = shorten(all);
                nothing()
            },
            CodexEvent::CommandStarted { item_id, command, cwd } => {
                let mut text = text::concat3("$ ", command.as_str(), "\n");
                text.append(cwd.as_str());
                text.append("\nitem ");
                text.append(item_id.as_str());
                self.thread.say(MessageRole::Tool, text);
                nothing()
            },
            CodexEvent::CommandCompleted { item_id, command, exit_code, output } => {
                let text = report_command(
                    item_id.as_str(),
                    command.as_str(),
                    exit_code,
                    output.as_str(),
                );
                self.thread.say(MessageRole::Tool, text);
                nothing()
            },
            CodexEvent::CommandOutputDelta { .. } => nothing(),
            CodexEvent::FileChangeStarted { item_id, summary } => {
                let mut text = text::concat3("Editing files · ", summary.as_str(), "\nitem ");
                text.append(item_id.as_str());
                self.thread.say(MessageRole::Tool, text);
                nothing()
            },
            CodexEvent::FileChangeCompleted { .. } => nothing(),
            CodexEvent::ApprovalRequested(request) => {
                self.turn.approvals.push(request);
                nothing()
            },
            CodexEvent::TurnCompleted { status, error } => self.finish_turn(status, error, repo),
            CodexEvent::Error(error) => {
                self.thread.say(
                    MessageRole::System,
                    text::concat("Codex app-server: ", error.as_str()),
                );
                nothing()
            },
            CodexEvent::Exited => {
                self.turn.session = false;
                if self.turn.running {
                    self.turn.running = false;
                    self.thread.say(
                        MessageRole::System,
                        "Codex app-server exited before the turn completed.".to_owned(),
                    );
                }
                self.persist_current_thread()
            },
        }
    }
}

/// What is said of an approval that was answered.
pub open spec fn answer_report(kind: ApprovalKind, decision: Seq<char>, error: Option<Seq<char>>) -> Seq<char> {
    match error {
        Some(error) => "Could not answer approval request: "@ + error,
        None => (match kind {
            ApprovalKind::Command => "Command"@,
            ApprovalKind::FileChange => "File-change"@,
        }) + " request "@ + (if decision == "accept"@ {
            "approved"@
        } else {
            "declined"@
        }) + "."@,
    }
}

/// The application after the user decided on an approval, and what is done: the agent gets the
/// answer, where its session runs.
pub open spec fn decided(a: AppModel, index: int, decision: Seq<char>) -> (AppModel, Seq<EffectModel>) {
    if index >= a.turn.approvals.len() {
        (a, Seq::empty())
    } else {
        let request = a.turn.approvals[index];
        let b = AppModel {
            turn: TurnModel { approvals: a.turn.approvals.remove(index), ..a.turn },
            ..a
        };
        if a.turn.session {
            (b, seq![EffectModel::Answer { request, decision }])
        } else {
            let c = said(
                b,
                MessageRole::System,
                answer_report(
                    request.kind,
                    decision,
                    Some("Codex session is no longer running"@),
                ),
            );
            (c, saving(c))
        }
    }
}

/// See [`answer_report`].
fn report_answer(kind: ApprovalKind, decision: &str, error: &Option<String>) -> (r: String)
    ensures
        r@ == answer_report(kind, decision@, opt_view(*error)),
{
    match error {
        Some(error) => text::concat("Could not answer approval request: ", error.as_str()),
        None => {
            let what = match kind {
                ApprovalKind::Command => "Command",
                ApprovalKind::FileChange => "File-change",
            };
            let how = if text::same(decision, "accept") {
                "approved"
            } else {
                "declined"
            };
            let mut r = text::concat3(what, " request ", how);
            r.append(".");
            r
        },
    }
}

/// The application after a request was answered, or was not.
pub open spec fn answered(
    a: AppModel,
    kind: ApprovalKind,
    decision: Seq<char>,
    error: Option<Seq<char>>,
) -> AppModel {
    said(a, MessageRole::System, answer_report(kind, decision, error))
}

/// What is done to interrupt the turn that runs.
pub open spec fn interrupting(a: AppModel) -> Seq<EffectModel> {
    if a.turn.session {
        seq![EffectModel::Interrupt]
    } else {
        Seq::empty()
    }
}

/// The application after an event of the session with a number, and what is done.
pub open spec fn event_taken(
    a: AppModel,
    generation: u64,
    event: EventModel,
    repo: Option<SnapshotModel>,
) -> (AppModel, Seq<EffectModel>) {
    if a.turn.generation == generation {
        told(a, event, repo)
    } else {
        (a, Seq::empty())
    }
}

impl RodeApp {
    /// See [`decided`].
    pub fn respond_to_approval(&mut self, index: usize, decision: &str) -> (r: Vec<Effect>)
        ensures
            final(self)@ == decided(old(self)@, index as int, decision@).0,
            views(r@) == decided(old(self)@, index as int, decision@).1,
    {
        broadcast use views_index;

        if index >= self.turn.approvals.len() {
            return nothing();
        }
        let ghost before = self@;
        let request = self.turn.approvals.remove(index);
        assert(self@.turn.approvals =~= before.turn.approvals.remove(index as int));
        assert(request@ == before.turn.approvals[index as int]);
        if self.turn.session {
            return one(Effect::Answer { request, decision: decision.to_owned() });
        }
        let gone = Some("Codex session is no longer running".to_owned());
        self.thread.say(MessageRole::System, report_answer(request.kind, decision, &gone));
        self.persist_current_thread()
    }

    /// Says how the answer to an approval went.
    pub fn approval_answered(&mut self, kind: ApprovalKind, decision: &str, error: Option<String>) -> (r:
        Vec<Effect>)
        ensures
            final(self)@ == said(
                old(self)@,
                MessageRole::System,
                answer_report(kind, decision@, opt_view(error)),
            ),
            final(self)@ == answered(old(self)@, kind, decision@, opt_view(error)),
            views(r@) == saving(final(self)@),
    {
        self.thread.say(MessageRole::System, report_answer(kind, decision, &error));
        self.persist_current_thread()
    }

    /// Interrupts the turn, where a session runs.
    pub fn cancel_turn(&self) -> (r: Vec<Effect>)
        ensures
            views(r@) == (if self@.turn.session {
                seq![EffectModel::Interrupt]
            } else {
                Seq::empty()
            }),
            views(r@) == interrupting(self@),
    {
        if self.turn.session {
            one(Effect::Interrupt)
        } else {
            nothing()
        }
    }

    /// Says why the turn was not interrupted.
    pub fn interrupt_failed(&mut self, error: &str)
        ensures
            final(self)@ == said(
                old(self)@,
                MessageRole::System,
                "Could not cancel Codex turn: "@ + error@,
            ),
    {
        self.thread.say(
            MessageRole::System,
            text::concat("Could not cancel Codex turn: ", error),
        );
    }

    /// Takes an event of a session, which counts only while that session is the last. See
    /// [`told`].
    pub fn codex_event_arrived(
        &mut self,
        generation: u64,
        event: CodexEvent,
        repo: Option<RepoSnapshot>,
    ) -> (r: Vec<Effect>)
        ensures
            (final(self)@, views(r@)) == (if old(self)@.turn.generation == generation {
                told(old(self)@, event@, opt_view(repo))
            } else {
                (old(self)@, Seq::empty())
            }),
            (final(self)@, views(r@)) == event_taken(
                old(self)@,
                generation,
                event@,
                opt_view(repo),
            ),
    {
        if self.turn.generation == generation {
            self.handle_codex_event(event, repo)
        } else {
            nothing()
        }
    }
}

/// Whatever the agent tells, the parts of the application keep their invariants, and the user's
/// place in it stays: only the conversation, the turn and the repository change.
pub proof fn events_leave_the_rest(a: AppModel, event: EventModel, repo: Option<SnapshotModel>)
    ensures
        ({
            let b = told(a, event, repo).0;
            &&& a.wf() ==> b.wf()
            &&& b.surface == a.surface
            &&& b.account == a.account
            &&& b.known == a.known
            &&& b.picker == a.picker
            &&& b.renaming == a.renaming
            &&& b.publishing == a.publishing
            &&& b.toasts == a.toasts
            &&& b.thread.id == a.thread.id
            &&& b.thread.composer == a.thread.composer
            &&& b.thread.drafts == a.thread.drafts
            &&& b.project == (OpenModel { repo: b.project.repo, ..a.project })
        }),
{
}

/// The agent never takes back what was said: of the messages before an event each stays in its
/// place, and at most the one that is being written gets another text.
pub proof fn messages_stay_in_place(a: AppModel, event: EventModel, repo: Option<SnapshotModel>, i: int)
    requires
        0 <= i < a.thread.messages.len(),
    ensures
        ({
            let b = told(a, event, repo).0;
            &&& b.thread.messages.len() >= a.thread.messages.len()
            &&& b.thread.messages[i].role == a.thread.messages[i].role
            &&& a.turn.agent_message != Some(i as usize) || i > usize::MAX ==> b.thread.messages[i]
                == a.thread.messages[i]
        }),
{
}

/// Two parts of one message that follow each other are the message that their joined text is.
pub proof fn message_parts_join(
    a: AppModel,
    item_id: Seq<char>,
    first: Seq<char>,
    second: Seq<char>,
)
    requires
        a.thread.messages.len() < usize::MAX,
    ensures
        ({
            let one = told(a, EventModel::AgentMessageDelta { item_id, delta: first }, None).0;
            let two = told(one, EventModel::AgentMessageDelta { item_id, delta: second }, None).0;
            let both = told(
                a,
                EventModel::AgentMessageDelta { item_id, delta: first + second },
                None,
            ).0;
            two == both
        }),
{
    let (t, i) = written(a.thread, a.turn.agent_message);
    let one = told(a, EventModel::AgentMessageDelta { item_id, delta: first }, None).0;
    let two = told(one, EventModel::AgentMessageDelta { item_id, delta: second }, None).0;
    let both = told(a, EventModel::AgentMessageDelta { item_id, delta: first + second }, None).0;
    assert((t.messages[i].text + first) + second =~= t.messages[i].text + (first + second));
    assert(two.thread.messages =~= both.thread.messages);
}

/// Once a turn has ended none runs, and another prompt can be sent.
pub proof fn ended_turns_do_not_run(a: AppModel, event: EventModel, repo: Option<SnapshotModel>)
    requires
        event is TurnCompleted || event is Exited,
    ensures
        !told(a, event, repo).0.turn.running,
{
}

/// A prompt is sent only to an agent that is there, by a user who is signed in, for a project
/// that is open, and while no turn runs; and then it is the last thing said.
pub proof fn prompts_are_guarded(a: AppModel)
    requires
        !a.turn.running,
    ensures
        ({
            let b = prompt_sent(a).0;
            let prompt = trimmed(a.thread.composer.text);
            let free = a.project.open && a.project.repo.is_repository
                && !a.thread.creating_worktree && prompt.len() > 0 && agent_available(a.account)
                && a.account.auth is SignedIn;
            &&& b.turn.running == free
            &&& free ==> b.thread.messages == a.thread.messages.push(
                ChatModel { role: MessageRole::User, text: prompt },
            )
            &&& free ==> b.thread.composer.text.len() == 0
            &&& !free ==> b.thread.composer == a.thread.composer
        }),
{
}

/// What is shown of what the agent thinks is the end of it, and short.
pub proof fn previews_are_short(s: Seq<char>)
    requires
        units(s, false) <= usize::MAX,
    ensures
        units(preview(s), false) < MAX_REASONING_PREVIEW + 4,
        exists|k: int| 0 <= k <= s.len() && preview(s) == #[trigger] s.skip(k),
{
    let length = units(s, false);
    if length > MAX_REASONING_PREVIEW {
        let offset = (length - MAX_REASONING_PREVIEW) as nat;
        floor_boundary_is_near(s, offset, 0);
        let k = floor_boundary(s, offset, 0);
        editor::units_split(s, k, false);
        assert(preview(s) == s.skip(k));
    } else {
        assert(s.skip(0) =~= s);
        assert(preview(s) == s.skip(0));
    }
}

proof fn floor_boundary_is_near(s: Seq<char>, offset: nat, i: int)
    requires
        0 <= i <= s.len(),
        units(s.take(i), false) <= offset,
        offset < units(s, false),
    ensures
        ({
            let k = floor_boundary(s, offset, i);
            &&& i <= k < s.len()
            &&& units(s.take(k), false) <= offset < units(s.take(k), false) + 4
        }),
    decreases s.len() - i,
{
    if i >= s.len() {
        assert(s.take(i) =~= s);
    } else if units(s.take(i + 1), false) > offset {
        assert(s.take(i + 1).drop_last() =~= s.take(i));
        assert(s.take(i + 1).last() == s[i]);
    } else {
        floor_boundary_is_near(s, offset, i + 1);
    }
}

/// What the agent asks for waits for the user: no event answers a request or takes one away, and
/// a new one comes last.
pub proof fn requests_wait_for_the_user(
    a: AppModel,
    event: EventModel,
    repo: Option<SnapshotModel>,
)
    ensures
        told(a, event, repo).0.turn.approvals == (match event {
            EventModel::ApprovalRequested(request) => a.turn.approvals.push(request),
            _ => a.turn.approvals,
        }),
        forall|i: int|
            0 <= i < told(a, event, repo).1.len() ==> !((#[trigger] told(
                a,
                event,
                repo,
            ).1[i]) is Answer),
{
    reveal(saving);
}

/// A decision answers the request that it is about, with that decision, and leaves the others.
pub proof fn decisions_answer_their_request(a: AppModel, index: int, decision: Seq<char>)
    requires
        0 <= index < a.turn.approvals.len(),
        a.turn.session,
    ensures
        decided(a, index, decision).1 == seq![
            EffectModel::Answer { request: a.turn.approvals[index], decision },
        ],
        decided(a, index, decision).0.turn.approvals == a.turn.approvals.remove(index),
{
}

/// A prompt that is accepted starts one turn, in the conversation that it belongs to: in the
/// session that runs, or else in a new one that goes on with the provider's thread where there is
/// one, in the workspace of the thread. The agent gets what the user wrote, without white space
/// at the ends. What was said is kept before.
pub proof fn prompts_go_on_with_their_thread(a: AppModel)
    requires
        !a.turn.running,
        prompt_sent(a).0.turn.running,
    ensures
        ({
            let (b, effects) = prompt_sent(a);
            let prompt = trimmed(a.thread.composer.text);
            &&& effects.len() > 0
            &&& prompt.len() > 0
            &&& match effects.last() {
                EffectModel::StartTurn { generation, prompt: sent } => a.turn.session && generation
                    == a.turn.generation && sent == prompt,
                EffectModel::StartSession { generation, cwd, resume, prompt: sent } => {
                    &&& !a.turn.session
                    &&& generation == a.turn.generation
                    &&& cwd == a.project.path
                    &&& resume == a.turn.provider_thread_id
                    &&& sent == prompt
                },
                _ => false,
            }
            &&& forall|i: int|
                0 <= i < effects.len() - 1 ==> ((#[trigger] effects[i]) matches EffectModel::SaveThread(
                    t,
                ) && t.id == a.thread.id && t.provider_thread_id == a.turn.provider_thread_id
                    && t.messages.len() == a.thread.messages.len() + 1 && t.messages.last().text
                    == prompt)
            &&& effects.len() == 1 + (if a.project.root.len() > 0 && a.known.has_store {
                1int
            } else {
                0
            })
            &&& b.turn.session == a.turn.session
            &&& b.turn.generation == a.turn.generation
            &&& b.turn.provider_thread_id == a.turn.provider_thread_id
            &&& b.turn.approvals == a.turn.approvals
            &&& b.thread.id == a.thread.id
            &&& b.project == a.project
            &&& b.known == a.known
            &&& b.account == a.account
        }),
{
    reveal(saving);
    let prompt = trimmed(a.thread.composer.text);
    let b = turn_asked(a, prompt);
    crate::app::threads_are_kept_as_shown(b);
}

/// A prompt that is not accepted does nothing and starts nothing; where the user can do something
/// about it they are told.
pub proof fn refused_prompts_start_nothing(a: AppModel)
    requires
        a.turn.running || !prompt_sent(a).0.turn.running,
    ensures
        ({
            let (b, effects) = prompt_sent(a);
            &&& effects.len() == 0
            &&& b.turn == a.turn
            &&& b.thread.composer == a.thread.composer
            &&& b.thread.messages.len() <= a.thread.messages.len() + 1
            &&& b.thread.messages.take(a.thread.messages.len() as int) == a.thread.messages
            &&& b.thread.messages.len() > a.thread.messages.len() ==> b.thread.messages.last().role
                == MessageRole::System
        }),
{
    let b = prompt_sent(a).0;
    assert(b.thread.messages.take(a.thread.messages.len() as int) =~= a.thread.messages);
}

/// What came of starting the agent or a turn counts for the session that it is about alone: it
/// runs where it was started, and else no turn runs and the reason is said.
pub proof fn starts_are_taken_note_of(a: AppModel, generation: u64, error: Seq<char>)
    ensures
        generation != a.turn.generation ==> session_begun(a, generation, None) == a
            && session_begun(a, generation, Some(error)) == a && turn_lost(a, generation, error)
            == a,
        generation == a.turn.generation ==> {
            let up = session_begun(a, generation, None);
            let down = session_begun(a, generation, Some(error));
            let lost = turn_lost(a, generation, error);
            &&& up.turn.session && up.turn.running == a.turn.running
            &&& up.thread == a.thread
            &&& up.turn.provider_thread_id == a.turn.provider_thread_id
            &&& !down.turn.running && down.turn.session == a.turn.session
            &&& !lost.turn.running && lost.turn.session == a.turn.session
            &&& down.thread.messages.len() == a.thread.messages.len() + 1
            &&& lost.thread.messages.len() == a.thread.messages.len() + 1
            &&& text::has_part(down.thread.messages.last().text, error)
            &&& text::has_part(lost.thread.messages.last().text, error)
            &&& down.turn.provider_thread_id == a.turn.provider_thread_id
            &&& lost.turn.provider_thread_id == a.turn.provider_thread_id
        },
{
    let none = Seq::<char>::empty();
    text::parts_are_held("Could not start Codex app-server: "@, error, none);
    text::parts_are_held("Could not start Codex turn: "@, error, none);
    assert("Could not start Codex app-server: "@ + error + none =~= "Could not start Codex app-server: "@
        + error);
    assert("Could not start Codex turn: "@ + error + none =~= "Could not start Codex turn: "@
        + error);
}

/// The provider's thread that a session tells of is the one that the conversation goes on with,
/// and it is kept.
pub proof fn ready_sessions_are_resumed_later(a: AppModel, thread_id: Seq<char>, model: Seq<char>)
    ensures
        ({
            let (b, effects) = told(a, EventModel::SessionReady { thread_id, model }, None);
            &&& b.turn == (TurnModel { provider_thread_id: Some(thread_id), ..a.turn })
            &&& effects == saving(b)
            &&& effects.len() > 0 ==> (effects[0] matches EffectModel::SaveThread(t)
                && t.provider_thread_id == Some(thread_id))
            &&& text::has_part(b.thread.messages.last().text, model)
        }),
{
    reveal(saving);
    let none = Seq::<char>::empty();
    text::parts_are_held("Codex app-server session ready · "@, model, none);
    assert("Codex app-server session ready · "@ + model + none
        =~= "Codex app-server session ready · "@ + model);
}

/// The first piece of a message is a new message of the agent with that text, last in the
/// conversation; a further piece goes behind what is there; and a message that is complete holds
/// the whole text that the agent gave for it.
pub proof fn messages_hold_what_the_agent_said(
    a: AppModel,
    item_id: Seq<char>,
    delta: Seq<char>,
    text: Seq<char>,
)
    requires
        a.turn.agent_message matches Some(i) ==> i < a.thread.messages.len(),
        a.thread.messages.len() < usize::MAX,
    ensures
        ({
            let b = told(a, EventModel::AgentMessageDelta { item_id, delta }, None).0;
            match a.turn.agent_message {
                None => {
                    &&& b.thread.messages == a.thread.messages.push(
                        ChatModel { role: MessageRole::Agent, text: delta },
                    )
                    &&& b.turn.agent_message == Some(a.thread.messages.len() as usize)
                },
                Some(i) => {
                    &&& b.thread.messages == a.thread.messages.update(
                        i as int,
                        ChatModel {
                            text: a.thread.messages[i as int].text + delta,
                            ..a.thread.messages[i as int]
                        },
                    )
                    &&& b.turn.agent_message == Some(i)
                },
            }
        }),
        ({
            let (b, effects) = told(a, EventModel::AgentMessageCompleted { item_id, text }, None);
            &&& b.turn.agent_message is None
            &&& effects == saving(b)
            &&& a.turn.agent_message matches Some(i) ==> b.thread.messages == a.thread.messages.update(
                i as int,
                ChatModel { text, ..a.thread.messages[i as int] },
            )
            &&& a.turn.agent_message is None ==> b.thread.messages == (if trimmed(text).len() > 0 {
                a.thread.messages.push(ChatModel { role: MessageRole::Agent, text })
            } else {
                a.thread.messages
            })
        }),
{
    let b = told(a, EventModel::AgentMessageDelta { item_id, delta }, None).0;
    if a.turn.agent_message is None {
        assert(Seq::<char>::empty() + delta =~= delta);
        assert(b.thread.messages =~= a.thread.messages.push(
            ChatModel { role: MessageRole::Agent, text: delta },
        ));
    }
}

/// What the agent thinks is shown from the end: short thoughts whole, with each piece behind the
/// one before, and nothing else changes.
pub proof fn thoughts_are_shown_in_order(
    a: AppModel,
    item_id: Seq<char>,
    content_index: i64,
    delta: Seq<char>,
)
    ensures
        ({
            let b = told(a, EventModel::ReasoningDelta { item_id, content_index, delta }, None).0;
            let all = a.turn.reasoning_preview + delta;
            &&& units(all, false) <= MAX_REASONING_PREVIEW ==> b.turn.reasoning_preview == all
            &&& b.turn == (TurnModel { reasoning_preview: b.turn.reasoning_preview, ..a.turn })
            &&& b.thread == a.thread
        }),
{
}

/// What the agent does is said, with what it is about: a command with its text, its directory and
/// how it ended, a change with its files, an error with its reason. Each is said once, last.
pub proof fn work_is_said_with_what_it_is_about(
    a: AppModel,
    item_id: Seq<char>,
    command: Seq<char>,
    cwd: Seq<char>,
    summary: Seq<char>,
    error: Seq<char>,
)
    ensures
        ({
            let b = told(a, EventModel::CommandStarted { item_id, command, cwd }, None).0;
            let said = b.thread.messages.last();
            &&& b.thread.messages == a.thread.messages.push(said)
            &&& said.role == MessageRole::Tool
            &&& text::has_part(said.text, command)
            &&& text::has_part(said.text, cwd)
            &&& text::has_part(said.text, item_id)
            &&& b.turn == a.turn
        }),
        ({
            let b = told(a, EventModel::FileChangeStarted { item_id, summary }, None).0;
            let said = b.thread.messages.last();
            &&& b.thread.messages == a.thread.messages.push(said)
            &&& said.role == MessageRole::Tool
            &&& text::has_part(said.text, summary)
            &&& text::has_part(said.text, item_id)
            &&& b.turn == a.turn
        }),
        ({
            let (b, effects) = told(a, EventModel::Error(error), None);
            let said = b.thread.messages.last();
            &&& b.thread.messages == a.thread.messages.push(said)
            &&& said.role == MessageRole::System
            &&& text::has_part(said.text, error)
            &&& b.turn == a.turn
            &&& effects.len() == 0
        }),
{
    let none = Seq::<char>::empty();
    let s = "$ "@ + command + "\n"@ + cwd + "\nitem "@ + item_id;
    text::parts_are_held("$ "@, command, "\n"@ + cwd + "\nitem "@ + item_id);
    assert("$ "@ + command + ("\n"@ + cwd + "\nitem "@ + item_id) =~= s);
    text::parts_are_held("$ "@ + command + "\n"@, cwd, "\nitem "@ + item_id);
    assert("$ "@ + command + "\n"@ + cwd + ("\nitem "@ + item_id) =~= s);
    text::parts_are_held("$ "@ + command + "\n"@ + cwd + "\nitem "@, item_id, none);
    assert(s + none =~= s);
    let t = "Editing files · "@ + summary + "\nitem "@ + item_id;
    text::parts_are_held("Editing files · "@, summary, "\nitem "@ + item_id);
    assert("Editing files · "@ + summary + ("\nitem "@ + item_id) =~= t);
    text::parts_are_held("Editing files · "@ + summary + "\nitem "@, item_id, none);
    assert(t + none =~= t);
    let e = "Codex app-server: "@ + error;
    text::parts_are_held("Codex app-server: "@, error, none);
    assert(e + none =~= e);
}

/// A command that ended is said with its text, the code that it ended with, and the first lines
/// of what it wrote, up to twenty, as they were written.
pub proof fn ended_commands_show_what_they_wrote(
    a: AppModel,
    item_id: Seq<char>,
    command: Seq<char>,
    code: i64,
    output: Seq<char>,
)
    ensures
        ({
            let event = EventModel::CommandCompleted { item_id, command, exit_code: Some(code), output };
            let b = told(a, event, None).0;
            let said = b.thread.messages.last();
            let lines = lines_of(output);
            &&& b.thread.messages == a.thread.messages.push(said)
            &&& said.role == MessageRole::Tool
            &&& text::has_part(said.text, command)
            &&& text::has_part(said.text, signed_decimal(code as int))
            &&& forall|i: int|
                0 <= i < lines.len() && i < 20 ==> text::has_part(said.text, #[trigger] lines[i])
            &&& head_of(output).len() > 0 ==> text::pieces(head_of(output), '\n') == lines.take(
                if lines.len() < 20 {
                    lines.len() as int
                } else {
                    20
                },
            )
            &&& b.turn == a.turn
        }),
{
    let none = Seq::<char>::empty();
    let digits = signed_decimal(code as int);
    let head = head_of(output);
    let lines = lines_of(output);
    let n = if lines.len() < 20 {
        lines.len() as int
    } else {
        20
    };
    let shown = if head.len() == 0 {
        none
    } else {
        "\n\n"@ + head
    };
    let s = "$ "@ + command + "\nexit "@ + digits + " · item "@ + item_id + shown;
    assert(command_report(item_id, command, Some(code), output) == s);
    text::parts_are_held("$ "@, command, "\nexit "@ + digits + " · item "@ + item_id + shown);
    assert("$ "@ + command + ("\nexit "@ + digits + " · item "@ + item_id + shown) =~= s);
    text::parts_are_held("$ "@ + command + "\nexit "@, digits, " · item "@ + item_id + shown);
    assert("$ "@ + command + "\nexit "@ + digits + (" · item "@ + item_id + shown) =~= s);
    assert forall|i: int| 0 <= i < lines.len() && i < 20 implies text::has_part(
        s,
        #[trigger] lines[i],
    ) by {
        text::joined_parts_are_held(lines.take(n), "\n"@, i);
        assert(lines.take(n)[i] == lines[i]);
        if head.len() > 0 {
            let before = "$ "@ + command + "\nexit "@ + digits + " · item "@ + item_id + "\n\n"@;
            text::parts_of_parts(before, head, none, lines[i]);
            assert(before + head + none =~= s);
        } else {
            let k = choose|k: int| #[trigger] text::occurs_at(head, lines[i], k);
            assert(lines[i].len() == 0);
            text::parts_are_held(none, lines[i], s);
            assert(none + lines[i] + s =~= s);
        }
    }
    if head.len() > 0 {
        let parts = lines.take(n);
        assert(parts.len() > 0);
        assert forall|i: int| 0 <= i < parts.len() implies text::unbroken(#[trigger] parts[i]) by {
            text::lines_are_unbroken(output, i);
        }
        text::joined_lines_are_parted(parts);
    }
}

/// At the end of a turn nothing of it goes on, the repository is shown as it then is, the user is
/// told of the thread by its title and how it ended, urgently exactly where it went wrong, and a
/// reason that was given is said.
pub proof fn ended_turns_are_told(
    a: AppModel,
    status: Seq<char>,
    error: Option<Seq<char>>,
    repo: Option<SnapshotModel>,
)
    ensures
        ({
            let (b, effects) = told(a, EventModel::TurnCompleted { status, error }, repo);
            &&& !b.turn.running && b.turn.turn_id is None && b.turn.agent_message is None
            &&& b.turn.session == a.turn.session
            &&& b.turn.provider_thread_id == a.turn.provider_thread_id
            &&& match repo {
                Some(repo) => b.project.repo == repo,
                None => b.project.repo == a.project.repo,
            }
            &&& effects.len() > 0
            &&& effects.skip(1) == saving(b)
            &&& effects[0] matches EffectModel::Notify(args) && args.len() == 4 && text::has_part(
                args[3],
                a.thread.title,
            ) && text::has_part(args[3], status) && (args[1] == "--urgency=critical"@ <==> (error
                is Some || (status != "completed"@ && status != "success"@)))
            &&& match error {
                Some(error) => b.thread.messages.len() == a.thread.messages.len() + 1
                    && text::has_part(b.thread.messages.last().text, error),
                None => b.thread.messages == a.thread.messages,
            }
        }),
{
    let none = Seq::<char>::empty();
    let (b, effects) = told(a, EventModel::TurnCompleted { status, error }, repo);
    assert(effects.skip(1) =~= saving(b));
    notifications::ends_are_told_with_their_thread(
        a.thread.title,
        status,
        turn_failed(status, error),
    );
    if let Some(why) = error {
        let s = "Codex turn "@ + status + ": "@ + why;
        text::parts_are_held("Codex turn "@ + status + ": "@, why, none);
        assert(s + none =~= s);
    }
}

/// A session that is gone does not run; a turn that ran in it is said to be lost, and the
/// provider's thread is still there to go on with.
pub proof fn lost_sessions_can_be_resumed(a: AppModel)
    ensures
        ({
            let (b, effects) = told(a, EventModel::Exited, None);
            &&& !b.turn.session && !b.turn.running
            &&& b.turn.provider_thread_id == a.turn.provider_thread_id
            &&& effects == saving(b)
            &&& a.turn.running ==> b.thread.messages.len() == a.thread.messages.len() + 1
                && b.thread.messages.last().role == MessageRole::System
            &&& !a.turn.running ==> b.thread == a.thread
        }),
{
}

/// The id of the turn that runs is the one that the agent gave it.
pub proof fn turns_are_known_by_their_id(a: AppModel, turn_id: Seq<char>)
    ensures
        told(a, EventModel::TurnStarted { turn_id }, None).0 == (AppModel {
            turn: TurnModel { turn_id: Some(turn_id), ..a.turn },
            ..a
        }),
{
}

/// What is said of an answer is what the user decided: that a request was approved is said of an
/// acceptance alone, and the kind of the request is named.
pub proof fn answers_are_reported_truly(decision: Seq<char>, why: Seq<char>)
    ensures
        text::has_part(answer_report(ApprovalKind::Command, decision, None), "approved"@) <==> decision
            == "accept"@,
        text::has_part(answer_report(ApprovalKind::FileChange, decision, None), "approved"@) <==> decision
            == "accept"@,
        text::begins(answer_report(ApprovalKind::Command, decision, None), "Command"@),
        text::begins(answer_report(ApprovalKind::FileChange, decision, None), "File-change"@),
        text::has_part(answer_report(ApprovalKind::Command, decision, Some(why)), why),
        text::has_part(answer_report(ApprovalKind::FileChange, decision, Some(why)), why),
{
    let none = Seq::<char>::empty();
    text::parts_are_held("Could not answer approval request: "@, why, none);
    assert("Could not answer approval request: "@ + why + none
        =~= "Could not answer approval request: "@ + why);
    report_says("Command"@, decision);
    report_says("File-change"@, decision);
}

proof fn report_says(kind: Seq<char>, decision: Seq<char>)
    requires
        kind == "Command"@ || kind == "File-change"@,
    ensures
        ({
            let s = kind + " request "@ + (if decision == "accept"@ {
                "approved"@
            } else {
                "declined"@
            }) + "."@;
            &&& text::has_part(s, "approved"@) <==> decision == "accept"@
            &&& text::begins(s, kind)
        }),
{
    reveal_strlit("Command");
    reveal_strlit("File-change");
    reveal_strlit(" request ");
    reveal_strlit("approved");
    reveal_strlit("declined");
    reveal_strlit(".");
    let how = if decision == "accept"@ {
        "approved"@
    } else {
        "declined"@
    };
    let s = kind + " request "@ + how + "."@;
    assert(s.subrange(0, kind.len() as int) =~= kind);
    if decision == "accept"@ {
        text::parts_are_held(kind + " request "@, "approved"@, "."@);
    } else {
        let p = "approved"@;
        assert(p[1] == 'p' && p.len() == 8);
        assert forall|i: int| 0 <= i < s.len() implies s[i] != 'p' by {
            if i < kind.len() {
                assert(s[i] == kind[i]);
            } else if i < kind.len() + 9 {
                assert(s[i] == " request "@[i - kind.len()]);
            } else if i < kind.len() + 17 {
                assert(s[i] == "declined"@[i - kind.len() - 9]);
            }
        }
        if text::has_part(s, p) {
            let i = choose|i: int| #[trigger] text::occurs_at(s, p, i);
            assert(s.subrange(i, i + 8)[1] == s[i + 1]);
        }
    }
}

/// A decision without a session, or on no request, answers nothing: the requests that it is not
/// about stay, and that the session is gone is said.
pub proof fn decisions_without_a_session_are_not_sent(a: AppModel, index: int, decision: Seq<char>)
    requires
        0 <= index,
    ensures
        index >= a.turn.approvals.len() ==> decided(a, index, decision) == (
            a,
            Seq::<EffectModel>::empty(),
        ),
        index < a.turn.approvals.len() && !a.turn.session ==> {
            let (b, effects) = decided(a, index, decision);
            &&& b.turn.approvals == a.turn.approvals.remove(index)
            &&& b.thread.messages.len() == a.thread.messages.len() + 1
            &&& effects == saving(b)
        },
{
}

/// An event of an earlier session changes nothing and does nothing; a message of the session that
/// runs is heard.
pub proof fn late_events_are_not_heeded(
    a: AppModel,
    generation: u64,
    event: EventModel,
    error: Seq<char>,
    repo: Option<SnapshotModel>,
)
    ensures
        generation != a.turn.generation ==> event_taken(a, generation, event, repo) == (
            a,
            Seq::<EffectModel>::empty(),
        ),
        generation == a.turn.generation ==> {
            let (b, effects) = event_taken(a, generation, EventModel::Error(error), repo);
            &&& b.thread.messages.len() == a.thread.messages.len() + 1
            &&& text::has_part(b.thread.messages.last().text, error)
        },
{
    let none = Seq::<char>::empty();
    text::parts_are_held("Codex app-server: "@, error, none);
    assert("Codex app-server: "@ + error + none =~= "Codex app-server: "@ + error);
}

/// A turn is interrupted in a session that runs, and in no other; and that a request was answered
/// is said at the end of the conversation.
pub proof fn interruptions_and_answers_take_effect(
    a: AppModel,
    kind: ApprovalKind,
    decision: Seq<char>,
    error: Seq<char>,
)
    ensures
        interrupting(a).len() > 0 <==> a.turn.session,
        forall|i: int|
            0 <= i < interrupting(a).len() ==> (#[trigger] interrupting(a)[i])
                == EffectModel::Interrupt,
        ({
            let done = answered(a, kind, decision, None);
            let failed = answered(a, kind, decision, Some(error));
            &&& done.thread.messages.len() == a.thread.messages.len() + 1
            &&& text::has_part(done.thread.messages.last().text, "approved"@) <==> decision
                == "accept"@
            &&& text::has_part(failed.thread.messages.last().text, error)
            &&& done.turn == a.turn && failed.turn == a.turn
        }),
{
    answers_are_reported_truly(decision, error);
}

} // verus!
