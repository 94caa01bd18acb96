//! The state of the application: what is open, what is said, and what runs. Each method takes
//! what happened and gives what is to be done outside.
use vstd::prelude::*;
use vstd::hash_map::StringHashMap;
use vstd::string::*;

use crate::agent::{discover_providers, supported_providers, ProviderKind, ProviderStatus};
use crate::codex::{ApprovalModel, ApprovalRequest};
use crate::codex_auth::{AccountModel, CodexAccount};
use crate::diff::DiffViewMode;
use crate::editor::{Editor, EditorModel};
use crate::persistence::{
    MessageModel, ProjectModel, StoredMessage, StoredProject, StoredThread, ThreadModel,
};
use crate::routes::{
    needs_project, preferences, route_after_auth, select_startup_project, settled_route,
    startup_project, AppRoute, ModalState, UiPreferences,
};
use crate::snapshot::{no_repository, RepoSnapshot, SnapshotModel};
use crate::text;
use crate::text::{has_part, parts_are_held};
use crate::theme::ThemeKind;
use crate::toast::{announced, QueueModel, ToastKind, ToastQueue};
use crate::views::{opt_view, views, views_index, views_push};

verus! {

/// Who says a message.
#[derive(Clone, Copy, Debug, PartialEq, Eq, Structural)]
pub enum MessageRole {
    User,
    Agent,
    Tool,
    System,
}

/// The name under which a role is kept.
pub open spec fn role_name(role: MessageRole) -> Seq<char> {
    match role {
        MessageRole::User => "user"@,
        MessageRole::Agent => "agent"@,
        MessageRole::Tool => "tool"@,
        MessageRole::System => "system"@,
    }
}

/// The role of a name; one that is unknown is the application's own.
pub open spec fn named_role(name: Seq<char>) -> MessageRole {
    if name == "user"@ {
        MessageRole::User
    } else if name == "agent"@ {
        MessageRole::Agent
    } else if name == "tool"@ {
        MessageRole::Tool
    } else {
        MessageRole::System
    }
}

impl MessageRole {
    pub fn storage_name(self) -> (r: &'static str)
        ensures
            r@ == role_name(self),
    {
        match self {
            MessageRole::User => "user",
            MessageRole::Agent => "agent",
            MessageRole::Tool => "tool",
            MessageRole::System => "system",
        }
    }

    pub fn from_storage_name(value: &str) -> (r: Self)
        ensures
            r == named_role(value@),
    {
        if text::same(value, "user") {
            MessageRole::User
        } else if text::same(value, "agent") {
            MessageRole::Agent
        } else if text::same(value, "tool") {
            MessageRole::Tool
        } else {
            MessageRole::System
        }
    }
}

/// A role is found again by its name.
pub proof fn roles_are_found_again(role: MessageRole)
    ensures
        named_role(role_name(role)) == role,
{
    reveal_strlit("user");
    reveal_strlit("agent");
    reveal_strlit("tool");
    reveal_strlit("system");
    assert("user"@.len() == 4 && "agent"@.len() == 5 && "tool"@.len() == 4 && "system"@.len() == 6);
    assert("user"@[0] == 'u' && "tool"@[0] == 't');
}

/// A message of the conversation.
#[derive(Debug, PartialEq, Eq)]
pub struct Message {
    pub role: MessageRole,
    pub text: String,
}

/// The value of a `Message`.
#[verifier::ext_equal]
pub struct ChatModel {
    pub role: MessageRole,
    pub text: Seq<char>,
}

impl View for Message {
    type V = ChatModel;

    open spec fn view(&self) -> ChatModel {
        ChatModel { role: self.role, text: self.text@ }
    }
}

/// How far the user is signed in.
#[derive(Debug, PartialEq, Eq)]
pub enum CodexAuthState {
    Unavailable,
    Checking,
    SignedOut,
    SignedIn(CodexAccount),
    SigningIn,
    BrowserPending { auth_url: String },
    Cancelling,
    Error(String),
}

/// The value of a `CodexAuthState`.
#[verifier::ext_equal]
pub enum AuthModel {
    Unavailable,
    Checking,
    SignedOut,
    SignedIn(AccountModel),
    SigningIn,
    BrowserPending { auth_url: Seq<char> },
    Cancelling,
    Error(Seq<char>),
}

impl View for CodexAuthState {
    type V = AuthModel;

    open spec fn view(&self) -> AuthModel {
        match self {
            CodexAuthState::Unavailable => AuthModel::Unavailable,
            CodexAuthState::Checking => AuthModel::Checking,
            CodexAuthState::SignedOut => AuthModel::SignedOut,
            CodexAuthState::SignedIn(account) => AuthModel::SignedIn(account@),
            CodexAuthState::SigningIn => AuthModel::SigningIn,
            CodexAuthState::BrowserPending { auth_url } => AuthModel::BrowserPending {
                auth_url: auth_url@,
            },
            CodexAuthState::Cancelling => AuthModel::Cancelling,
            CodexAuthState::Error(error) => AuthModel::Error(error@),
        }
    }
}

impl CodexAuthState {
    /// Whether the sign-in is all that is shown.
    pub fn requires_onboarding(&self) -> (r: bool)
        ensures
            r == !(self@ is SignedIn),
    {
        match self {
            CodexAuthState::SignedIn(_) => false,
            _ => true,
        }
    }
}

/// How far the choice of a project is.
#[derive(Debug, PartialEq, Eq)]
pub enum ProjectSelectionState {
    Idle,
    ChoosingFolder,
    Validating(String),
}

/// The value of a `ProjectSelectionState`.
#[verifier::ext_equal]
pub enum SelectionModel {
    Idle,
    ChoosingFolder,
    Validating(Seq<char>),
}

impl View for ProjectSelectionState {
    type V = SelectionModel;

    open spec fn view(&self) -> SelectionModel {
        match self {
            ProjectSelectionState::Idle => SelectionModel::Idle,
            ProjectSelectionState::ChoosingFolder => SelectionModel::ChoosingFolder,
            ProjectSelectionState::Validating(path) => SelectionModel::Validating(path@),
        }
    }
}

/// What is being renamed.
#[derive(Debug, PartialEq, Eq)]
pub enum RenameTarget {
    Project(String),
    Thread(String),
}

/// The value of a `RenameTarget`: the path of a project, or the id of a thread.
#[verifier::ext_equal]
pub enum TargetModel {
    Project(Seq<char>),
    Thread(Seq<char>),
}

impl View for RenameTarget {
    type V = TargetModel;

    open spec fn view(&self) -> TargetModel {
        match self {
            RenameTarget::Project(path) => TargetModel::Project(path@),
            RenameTarget::Thread(id) => TargetModel::Thread(id@),
        }
    }
}

/// What is done with the changes of a workspace.
#[derive(Debug, PartialEq, Eq)]
pub enum PublishOperation {
    Commit(String),
    Push,
    PullRequest(String),
}

/// The value of a `PublishOperation`.
#[verifier::ext_equal]
pub enum PublishModel {
    Commit(Seq<char>),
    Push,
    PullRequest(Seq<char>),
}

impl View for PublishOperation {
    type V = PublishModel;

    open spec fn view(&self) -> PublishModel {
        match self {
            PublishOperation::Commit(message) => PublishModel::Commit(message@),
            PublishOperation::Push => PublishModel::Push,
            PublishOperation::PullRequest(title) => PublishModel::PullRequest(title@),
        }
    }
}

/// What the keyboard writes to.
#[derive(Clone, Copy, Debug, PartialEq, Eq, Structural)]
pub enum FocusTarget {
    Composer,
    Terminal,
    Rename,
}

/// What is to be done outside.
#[derive(Debug, PartialEq, Eq)]
pub enum Effect {
    /// Keep the thread, and then load what is known.
    SaveThread(StoredThread),
    /// Load the projects and threads that are known.
    LoadKnown,
    SaveActiveProject(String),
    SaveRoute(String),
    SaveSettingsSection(String),
    SaveTheme(String),
    SaveIsolation(bool),
    Focus(FocusTarget),
    StartTerminal { cwd: String },
    CloseTerminals,
    ThemeTerminals(ThemeKind),
    ReadAccount { generation: u64 },
    BeginLogin { generation: u64 },
    AwaitLogin { generation: u64 },
    OpenUrl(String),
    CancelLogin { generation: u64, login_id: String, auth_url: String },
    StartTurn { generation: u64, prompt: String },
    StartSession { generation: u64, cwd: String, resume: Option<String>, prompt: String },
    EndSession,
    Answer { request: ApprovalRequest, decision: String },
    Interrupt,
    Notify(Vec<String>),
    PickFolder { repair: Option<String> },
    ValidateProject { generation: u64, path: String, repair: Option<String> },
    RemoveProject(String),
    RenameProject { path: String, name: String },
    RenameThread { id: String, title: String },
    CreateWorktree { generation: u64, repository: String, thread_id: String, title: String },
    Publish { workspace: String, operation: PublishOperation },
}

/// The value of an `Effect`.
#[verifier::ext_equal]
pub enum EffectModel {
    SaveThread(ThreadModel),
    LoadKnown,
    SaveActiveProject(Seq<char>),
    SaveRoute(Seq<char>),
    SaveSettingsSection(Seq<char>),
    SaveTheme(Seq<char>),
    SaveIsolation(bool),
    Focus(FocusTarget),
    StartTerminal { cwd: Seq<char> },
    CloseTerminals,
    ThemeTerminals(ThemeKind),
    ReadAccount { generation: u64 },
    BeginLogin { generation: u64 },
    AwaitLogin { generation: u64 },
    OpenUrl(Seq<char>),
    CancelLogin { generation: u64, login_id: Seq<char>, auth_url: Seq<char> },
    StartTurn { generation: u64, prompt: Seq<char> },
    StartSession {
        generation: u64,
        cwd: Seq<char>,
        resume: Option<Seq<char>>,
        prompt: Seq<char>,
    },
    EndSession,
    Answer { request: ApprovalModel, decision: Seq<char> },
    Interrupt,
    Notify(Seq<Seq<char>>),
    PickFolder { repair: Option<Seq<char>> },
    ValidateProject { generation: u64, path: Seq<char>, repair: Option<Seq<char>> },
    RemoveProject(Seq<char>),
    RenameProject { path: Seq<char>, name: Seq<char> },
    RenameThread { id: Seq<char>, title: Seq<char> },
    CreateWorktree {
        generation: u64,
        repository: Seq<char>,
        thread_id: Seq<char>,
        title: Seq<char>,
    },
    Publish { workspace: Seq<char>, operation: PublishModel },
}

impl View for Effect {
    type V = EffectModel;

    open spec fn view(&self) -> EffectModel {
        match self {
            Effect::SaveThread(thread) => EffectModel::SaveThread(thread@),
            Effect::LoadKnown => EffectModel::LoadKnown,
            Effect::SaveActiveProject(id) => EffectModel::SaveActiveProject(id@),
            Effect::SaveRoute(name) => EffectModel::SaveRoute(name@),
            Effect::SaveSettingsSection(name) => EffectModel::SaveSettingsSection(name@),
            Effect::SaveTheme(name) => EffectModel::SaveTheme(name@),
            Effect::SaveIsolation(on) => EffectModel::SaveIsolation(*on),
            Effect::Focus(target) => EffectModel::Focus(*target),
            Effect::StartTerminal { cwd } => EffectModel::StartTerminal { cwd: cwd@ },
            Effect::CloseTerminals => EffectModel::CloseTerminals,
            Effect::ThemeTerminals(theme) => EffectModel::ThemeTerminals(*theme),
            Effect::ReadAccount { generation } => EffectModel::ReadAccount {
                generation: *generation,
            },
            Effect::BeginLogin { generation } => EffectModel::BeginLogin {
                generation: *generation,
            },
            Effect::AwaitLogin { generation } => EffectModel::AwaitLogin {
                generation: *generation,
            },
            Effect::OpenUrl(url) => EffectModel::OpenUrl(url@),
            Effect::CancelLogin { generation, login_id, auth_url } => EffectModel::CancelLogin {
                generation: *generation,
                login_id: login_id@,
                auth_url: auth_url@,
            },
            Effect::StartTurn { generation, prompt } => EffectModel::StartTurn {
                generation: *generation,
                prompt: prompt@,
            },
            Effect::StartSession { generation, cwd, resume, prompt } => {
                EffectModel::StartSession {
                    generation: *generation,
                    cwd: cwd@,
                    resume: opt_view(*resume),
                    prompt: prompt@,
                }
            },
            Effect::EndSession => EffectModel::EndSession,
            Effect::Answer { request, decision } => EffectModel::Answer {
                request: request@,
                decision: decision@,
            },
            Effect::Interrupt => EffectModel::Interrupt,
            Effect::Notify(args) => EffectModel::Notify(views(args@)),
            Effect::PickFolder { repair } => EffectModel::PickFolder { repair: opt_view(*repair) },
            Effect::ValidateProject { generation, path, repair } => EffectModel::ValidateProject {
                generation: *generation,
                path: path@,
                repair: opt_view(*repair),
            },
            Effect::RemoveProject(path) => EffectModel::RemoveProject(path@),
            Effect::RenameProject { path, name } => EffectModel::RenameProject {
                path: path@,
                name: name@,
            },
            Effect::RenameThread { id, title } => EffectModel::RenameThread {
                id: id@,
                title: title@,
            },
            Effect::CreateWorktree { generation, repository, thread_id, title } => {
                EffectModel::CreateWorktree {
                    generation: *generation,
                    repository: repository@,
                    thread_id: thread_id@,
                    title: title@,
                }
            },
            Effect::Publish { workspace, operation } => EffectModel::Publish {
                workspace: workspace@,
                operation: operation@,
            },
        }
    }
}

/// What is shown: the surface, what lies over it, and the panels beside it.
pub struct Surface {
    pub route: AppRoute,
    pub last_authenticated_route: AppRoute,
    pub theme: ThemeKind,
    pub modal: Option<ModalState>,
    pub show_create_menu: bool,
    pub show_settings: bool,
    pub show_diff: bool,
    pub diff_view: DiffViewMode,
    pub show_terminal: bool,
    /// The threads that have a terminal.
    pub terminal_sessions: Vec<String>,
}

/// The value of a `Surface`.
#[verifier::ext_equal]
pub struct SurfaceModel {
    pub route: AppRoute,
    pub last_authenticated_route: AppRoute,
    pub theme: ThemeKind,
    pub modal: Option<ModalState>,
    pub show_create_menu: bool,
    pub show_settings: bool,
    pub show_diff: bool,
    pub diff_view: DiffViewMode,
    pub show_terminal: bool,
    pub terminal_sessions: Seq<Seq<char>>,
}

impl View for Surface {
    type V = SurfaceModel;

    open spec fn view(&self) -> SurfaceModel {
        SurfaceModel {
            route: self.route,
            last_authenticated_route: self.last_authenticated_route,
            theme: self.theme,
            modal: self.modal,
            show_create_menu: self.show_create_menu,
            show_settings: self.show_settings,
            show_diff: self.show_diff,
            diff_view: self.diff_view,
            show_terminal: self.show_terminal,
            terminal_sessions: views(self.terminal_sessions@),
        }
    }
}

/// The agent's program, and how far the user is signed in with it. Each attempt to learn more
/// has a number.
pub struct Account {
    pub providers: Vec<ProviderStatus>,
    pub auth: CodexAuthState,
    pub attempt: u64,
    /// The id of the login that waits for the browser.
    pub pending_login: Option<String>,
}

/// The value of an `Account`.
#[verifier::ext_equal]
pub struct AccountView {
    pub providers: Seq<ProviderStatus>,
    pub auth: AuthModel,
    pub attempt: u64,
    pub pending_login: Option<Seq<char>>,
}

impl View for Account {
    type V = AccountView;

    open spec fn view(&self) -> AccountView {
        AccountView {
            providers: self.providers@,
            auth: self.auth@,
            attempt: self.attempt,
            pending_login: opt_view(self.pending_login),
        }
    }
}

/// What the store holds, as far as it was loaded.
pub struct Known {
    pub has_store: bool,
    pub projects: Vec<StoredProject>,
    pub threads: Vec<StoredThread>,
    pub isolate_new_threads: bool,
}

/// The value of a `Known`.
#[verifier::ext_equal]
pub struct KnownModel {
    pub has_store: bool,
    pub projects: Seq<ProjectModel>,
    pub threads: Seq<ThreadModel>,
    pub isolate_new_threads: bool,
}

impl View for Known {
    type V = KnownModel;

    open spec fn view(&self) -> KnownModel {
        KnownModel {
            has_store: self.has_store,
            projects: views(self.projects@),
            threads: views(self.threads@),
            isolate_new_threads: self.isolate_new_threads,
        }
    }
}

/// The choice of a project. Each folder that is looked into has a number.
pub struct Picker {
    pub selection: ProjectSelectionState,
    pub generation: u64,
    pub error: Option<String>,
    /// The path of the project for which a folder is looked for.
    pub repairing: Option<String>,
}

/// The value of a `Picker`.
#[verifier::ext_equal]
pub struct PickerModel {
    pub selection: SelectionModel,
    pub generation: u64,
    pub error: Option<Seq<char>>,
    pub repairing: Option<Seq<char>>,
}

impl View for Picker {
    type V = PickerModel;

    open spec fn view(&self) -> PickerModel {
        PickerModel {
            selection: self.selection@,
            generation: self.generation,
            error: opt_view(self.error),
            repairing: opt_view(self.repairing),
        }
    }
}

/// The project that is open: its root, the workspace of the thread, and the repository there.
pub struct OpenProject {
    pub open: bool,
    pub root: String,
    pub path: String,
    pub name: String,
    pub repo: RepoSnapshot,
}

/// The value of an `OpenProject`.
#[verifier::ext_equal]
pub struct OpenModel {
    pub open: bool,
    pub root: Seq<char>,
    pub path: Seq<char>,
    pub name: Seq<char>,
    pub repo: SnapshotModel,
}

impl View for OpenProject {
    type V = OpenModel;

    open spec fn view(&self) -> OpenModel {
        OpenModel {
            open: self.open,
            root: self.root@,
            path: self.path@,
            name: self.name@,
            repo: self.repo@,
        }
    }
}

/// The thread that is shown, and what stands in the composers of the others.
pub struct ShownThread {
    pub id: String,
    pub title: String,
    pub branch: Option<String>,
    pub number: usize,
    pub creating_worktree: bool,
    pub messages: Vec<Message>,
    pub composer: Editor,
    /// What stands in the composers of the threads, by their ids.
    pub drafts: StringHashMap<String>,
}

/// The value of a `ShownThread`.
#[verifier::ext_equal]
pub struct ShownModel {
    pub id: Seq<char>,
    pub title: Seq<char>,
    pub branch: Option<Seq<char>>,
    pub number: usize,
    pub creating_worktree: bool,
    pub messages: Seq<ChatModel>,
    pub composer: EditorModel,
    pub drafts: Map<Seq<char>, Seq<char>>,
}

impl View for ShownThread {
    type V = ShownModel;

    open spec fn view(&self) -> ShownModel {
        ShownModel {
            id: self.id@,
            title: self.title@,
            branch: opt_view(self.branch),
            number: self.number,
            creating_worktree: self.creating_worktree,
            messages: views(self.messages@),
            composer: self.composer@,
            drafts: self.drafts@.map_values(|s: String| s@),
        }
    }
}

/// The session with the agent, and its turn. Each session has a number.
pub struct Turn {
    /// Whether a session runs.
    pub session: bool,
    pub provider_thread_id: Option<String>,
    pub turn_id: Option<String>,
    pub agent_message: Option<usize>,
    pub reasoning_preview: String,
    pub approvals: Vec<ApprovalRequest>,
    pub generation: u64,
    pub running: bool,
}

/// The value of a `Turn`.
#[verifier::ext_equal]
pub struct TurnModel {
    pub session: bool,
    pub provider_thread_id: Option<Seq<char>>,
    pub turn_id: Option<Seq<char>>,
    pub agent_message: Option<usize>,
    pub reasoning_preview: Seq<char>,
    pub approvals: Seq<ApprovalModel>,
    pub generation: u64,
    pub running: bool,
}

impl View for Turn {
    type V = TurnModel;

    open spec fn view(&self) -> TurnModel {
        TurnModel {
            session: self.session,
            provider_thread_id: opt_view(self.provider_thread_id),
            turn_id: opt_view(self.turn_id),
            agent_message: self.agent_message,
            reasoning_preview: self.reasoning_preview@,
            approvals: views(self.approvals@),
            generation: self.generation,
            running: self.running,
        }
    }
}

/// What is being renamed, and the editor with its new name.
pub struct Renaming {
    pub editor: Editor,
    pub target: Option<RenameTarget>,
}

/// The value of a `Renaming`.
#[verifier::ext_equal]
pub struct RenamingModel {
    pub editor: EditorModel,
    pub target: Option<TargetModel>,
}

impl View for Renaming {
    type V = RenamingModel;

    open spec fn view(&self) -> RenamingModel {
        RenamingModel { editor: self.editor@, target: opt_view(self.target) }
    }
}

/// What is done with the changes: the editor with the message, what is under way, and how the
/// last one ended.
pub struct Publishing {
    pub editor: Editor,
    pub operation: Option<String>,
    pub status: Option<String>,
}

/// The value of a `Publishing`.
#[verifier::ext_equal]
pub struct PublishingModel {
    pub editor: EditorModel,
    pub operation: Option<Seq<char>>,
    pub status: Option<Seq<char>>,
}

impl View for Publishing {
    type V = PublishingModel;

    open spec fn view(&self) -> PublishingModel {
        PublishingModel {
            editor: self.editor@,
            operation: opt_view(self.operation),
            status: opt_view(self.status),
        }
    }
}

/// The application.
pub struct RodeApp {
    pub surface: Surface,
    pub account: Account,
    pub known: Known,
    pub picker: Picker,
    pub project: OpenProject,
    pub thread: ShownThread,
    pub turn: Turn,
    pub renaming: Renaming,
    pub publishing: Publishing,
    pub toasts: ToastQueue,
}

/// The state of the application.
pub struct AppModel {
    pub surface: SurfaceModel,
    pub account: AccountView,
    pub known: KnownModel,
    pub picker: PickerModel,
    pub project: OpenModel,
    pub thread: ShownModel,
    pub turn: TurnModel,
    pub renaming: RenamingModel,
    pub publishing: PublishingModel,
    pub toasts: QueueModel,
}

impl View for RodeApp {
    type V = AppModel;

    open spec fn view(&self) -> AppModel {
        AppModel {
            surface: self.surface@,
            account: self.account@,
            known: self.known@,
            picker: self.picker@,
            project: self.project@,
            thread: self.thread@,
            turn: self.turn@,
            renaming: self.renaming@,
            publishing: self.publishing@,
            toasts: self.toasts@,
        }
    }
}

impl AppModel {
    /// The parts keep their own invariants.
    pub open spec fn wf(self) -> bool {
        &&& self.toasts.wf()
        &&& self.thread.composer.wf()
        &&& self.publishing.editor.wf()
        &&& self.renaming.editor.wf()
        &&& countable(self.known.threads)
    }
}

/// Every thread can be followed by another.
#[verifier::opaque]
pub open spec fn countable(threads: Seq<ThreadModel>) -> bool {
    forall|i: int| 0 <= i < threads.len() ==> (#[trigger] threads[i]).ordinal < usize::MAX
}

/// The thread with one more thing said.
pub open spec fn uttered(t: ShownModel, role: MessageRole, text: Seq<char>) -> ShownModel {
    ShownModel { messages: t.messages.push(ChatModel { role, text }), ..t }
}

/// The application with one more thing said.
pub open spec fn said(a: AppModel, role: MessageRole, text: Seq<char>) -> AppModel {
    AppModel { thread: uttered(a.thread, role, text), ..a }
}

/// The application with a notice more on the screen.
pub open spec fn noticed(a: AppModel, kind: ToastKind, message: Seq<char>) -> AppModel {
    AppModel { toasts: announced(a.toasts, kind, message), ..a }
}

/// What is shown to one who is signed in, or has to sign in.
pub open spec fn resurfaced(s: SurfaceModel, auth: AuthModel) -> SurfaceModel {
    SurfaceModel {
        route: settled_route(s.route, s.last_authenticated_route, !(auth is SignedIn)),
        ..s
    }
}

/// The application on the surface that goes with how far the user is signed in.
pub open spec fn synced(a: AppModel) -> AppModel {
    AppModel { surface: resurfaced(a.surface, a.account.auth), ..a }
}

/// Whether the agent's program is there.
pub open spec fn agent_available(account: AccountView) -> bool {
    exists|i: int|
        0 <= i < account.providers.len() && (#[trigger] account.providers[i]).kind
            == ProviderKind::Codex && account.providers[i].available
}

/// The position of the first thread with an id, from `i` on.
pub open spec fn thread_with_id(threads: Seq<ThreadModel>, id: Seq<char>, i: int) -> Option<int>
    decreases threads.len() - i,
{
    if i < 0 || i >= threads.len() {
        None
    } else if threads[i].id == id {
        Some(i)
    } else {
        thread_with_id(threads, id, i + 1)
    }
}

/// The position of the first project at a path, from `i` on.
pub open spec fn project_at(projects: Seq<ProjectModel>, path: Seq<char>, i: int) -> Option<int>
    decreases projects.len() - i,
{
    if i < 0 || i >= projects.len() {
        None
    } else if projects[i].path == path {
        Some(i)
    } else {
        project_at(projects, path, i + 1)
    }
}

/// The messages as they are kept.
pub open spec fn kept_messages(messages: Seq<ChatModel>) -> Seq<MessageModel> {
    messages.map_values(
        |m: ChatModel| MessageModel { role: role_name(m.role), text: m.text },
    )
}

/// A thread of which nothing is known yet but that it waits.
pub open spec fn unknown_thread() -> ThreadModel {
    ThreadModel {
        id: Seq::empty(),
        project_path: Seq::empty(),
        project_name: Seq::empty(),
        title: Seq::empty(),
        workspace_path: Seq::empty(),
        branch: None,
        provider_thread_id: None,
        ordinal: 0,
        draft: Seq::empty(),
        activity: "waiting"@,
        activity_updated_ms: 0,
        base_branch: None,
        last_error: None,
        dirty_count: 0,
        unread: false,
        conversation_scroll_item: 0,
        conversation_scroll_offset_millis: 0,
        messages: Seq::empty(),
        events: Seq::empty(),
    }
}

/// The thread that is shown as it is kept. It is kept by its messages, from which its cards are
/// made again when it is loaded: no cards are kept with it, and those that were stored before go.
/// What else is known of it stays as it was.
pub open spec fn thread_record(a: AppModel) -> ThreadModel {
    let before = match thread_with_id(a.known.threads, a.thread.id, 0) {
        Some(i) => a.known.threads[i],
        None => unknown_thread(),
    };
    ThreadModel {
        id: a.thread.id,
        project_path: a.project.root,
        project_name: a.project.name,
        title: a.thread.title,
        workspace_path: a.project.path,
        branch: a.thread.branch,
        provider_thread_id: a.turn.provider_thread_id,
        ordinal: a.thread.number as int,
        draft: if a.thread.drafts.contains_key(a.thread.id) {
            a.thread.drafts[a.thread.id]
        } else {
            before.draft
        },
        messages: kept_messages(a.thread.messages),
        events: Seq::empty(),
        ..before
    }
}

/// The thread that is shown as it is kept, where there is anything to keep: its project is open,
/// and there is a store.
pub open spec fn thread_to_save(a: AppModel) -> Option<ThreadModel> {
    if !a.project.open || !a.project.repo.is_repository || a.project.root.len() == 0
        || !a.known.has_store {
        None
    } else {
        Some(thread_record(a))
    }
}

/// What is done to keep the thread that is shown.
#[verifier::opaque]
pub open spec fn saving(a: AppModel) -> Seq<EffectModel> {
    match thread_to_save(a) {
        Some(thread) => seq![EffectModel::SaveThread(thread)],
        None => Seq::empty(),
    }
}

/// What is done to load what is known.
pub open spec fn loading(a: AppModel) -> Seq<EffectModel> {
    if a.known.has_store {
        seq![EffectModel::LoadKnown]
    } else {
        Seq::empty()
    }
}

/// What is done to keep which project is active.
#[verifier::opaque]
pub open spec fn saving_active(a: AppModel) -> Seq<EffectModel> {
    match project_at(a.known.projects, a.project.root, 0) {
        Some(i) => if a.known.has_store {
            seq![EffectModel::SaveActiveProject(a.known.projects[i].id)]
        } else {
            Seq::empty()
        },
        None => Seq::empty(),
    }
}

/// The application with the composer's text kept for its thread.
pub open spec fn drafted(a: AppModel) -> AppModel {
    AppModel {
        thread: ShownModel {
            drafts: a.thread.drafts.insert(a.thread.id, a.thread.composer.text),
            ..a.thread
        },
        ..a
    }
}

/// No project.
pub open spec fn no_project() -> OpenModel {
    OpenModel {
        open: false,
        root: Seq::empty(),
        path: Seq::empty(),
        name: "Choose a project"@,
        repo: no_repository(Seq::empty()),
    }
}

/// The application without a project.
pub open spec fn closed(a: AppModel) -> AppModel {
    AppModel {
        project: no_project(),
        turn: TurnModel {
            session: false,
            provider_thread_id: None,
            turn_id: None,
            agent_message: None,
            running: false,
            ..a.turn
        },
        thread: ShownModel { creating_worktree: false, ..a.thread },
        surface: SurfaceModel {
            show_terminal: false,
            terminal_sessions: Seq::empty(),
            route: AppRoute::Workspace,
            last_authenticated_route: AppRoute::Workspace,
            ..a.surface
        },
        ..a
    }
}

/// What is done when a project closes: the session and the terminals end.
pub open spec fn closing() -> Seq<EffectModel> {
    seq![EffectModel::EndSession] + seq![EffectModel::CloseTerminals]
}

/// What is shown where there is a repository, or none: the workspace, where another surface
/// needs one that is not there.
pub open spec fn reconciled(s: SurfaceModel, repository: bool) -> SurfaceModel {
    if !repository && (needs_project(s.route) || needs_project(s.last_authenticated_route)) {
        SurfaceModel {
            route: AppRoute::Workspace,
            last_authenticated_route: AppRoute::Workspace,
            ..s
        }
    } else {
        s
    }
}

/// An editor with another text, and the cursor behind it.
pub open spec fn rewritten(e: EditorModel, text: Seq<char>) -> EditorModel {
    EditorModel {
        text,
        cursor: text.len() as int,
        selection: None,
        cursor_visible: true,
        ..e
    }
}

/// No effect.
pub fn nothing() -> (r: Vec<Effect>)
    ensures
        views(r@) == Seq::<EffectModel>::empty(),
{
    let r: Vec<Effect> = Vec::new();
    assert(views(r@) =~= Seq::<EffectModel>::empty());
    r
}

/// One effect.
pub fn one(effect: Effect) -> (r: Vec<Effect>)
    ensures
        views(r@) == seq![effect@],
{
    let mut r: Vec<Effect> = Vec::new();
    r.push(effect);
    assert(views(r@) =~= seq![effect@]);
    r
}

/// The effects `a` and then the effects `b`.
pub fn followed_by(a: Vec<Effect>, b: Vec<Effect>) -> (r: Vec<Effect>)
    ensures
        views(r@) == views(a@) + views(b@),
{
    let mut r = a;
    let mut more = b;
    let ghost first = views(a@);
    let ghost second = views(b@);
    r.append(&mut more);
    assert(views(r@) =~= first + second);
    r
}

/// See [`thread_with_id`].
pub fn find_thread(threads: &Vec<StoredThread>, id: &str) -> (r: Option<usize>)
    ensures
        match r {
            Some(i) => i < threads.len() && thread_with_id(views(threads@), id@, 0) == Some(
                i as int,
            ),
            None => thread_with_id(views(threads@), id@, 0) is None,
        },
{
    broadcast use views_index;

    let ghost all = views(threads@);
    let mut i: usize = 0;
    while i < threads.len()
        invariant
            all == views(threads@),
            i <= threads.len(),
            thread_with_id(all, id@, 0) == thread_with_id(all, id@, i as int),
        decreases threads.len() - i,
    {
        if text::same(threads[i].id.as_str(), id) {
            return Some(i);
        }
        i = i + 1;
    }
    None
}

/// See [`project_at`].
pub fn find_project(projects: &Vec<StoredProject>, path: &str) -> (r: Option<usize>)
    ensures
        match r {
            Some(i) => i < projects.len() && project_at(views(projects@), path@, 0) == Some(
                i as int,
            ),
            None => project_at(views(projects@), path@, 0) is None,
        },
{
    broadcast use views_index;

    let ghost all = views(projects@);
    let mut i: usize = 0;
    while i < projects.len()
        invariant
            all == views(projects@),
            i <= projects.len(),
            project_at(all, path@, 0) == project_at(all, path@, i as int),
        decreases projects.len() - i,
    {
        if text::same(projects[i].path.as_str(), path) {
            return Some(i);
        }
        i = i + 1;
    }
    None
}

/// See [`kept_messages`].
fn keep_messages(messages: &Vec<Message>) -> (r: Vec<StoredMessage>)
    ensures
        views(r@) == kept_messages(views(messages@)),
{
    broadcast use {views_push, views_index};

    let ghost all = kept_messages(views(messages@));
    let mut r: Vec<StoredMessage> = Vec::new();
    let mut i: usize = 0;
    assert(views(r@) =~= all.take(0));
    while i < messages.len()
        invariant
            all == kept_messages(views(messages@)),
            i <= messages.len(),
            views(r@) == all.take(i as int),
        decreases messages.len() - i,
    {
        let ghost so_far = views(r@);
        let kept = StoredMessage {
            role: messages[i].role.storage_name().to_owned(),
            text: messages[i].text.clone(),
        };
        r.push(kept);
        assert(views(r@) == so_far.push(kept@));
        assert(views(r@) =~= all.take(i + 1));
        i = i + 1;
    }
    assert(all.take(i as int) =~= all);
    r
}

/// The messages of a thread as they are shown; one that says so where there are none.
pub open spec fn shown_messages(messages: Seq<MessageModel>) -> Seq<ChatModel> {
    if messages.len() == 0 {
        seq![
            ChatModel {
                role: MessageRole::System,
                text: "Restored thread has no messages yet."@,
            },
        ]
    } else {
        messages.map_values(
            |m: MessageModel| ChatModel { role: named_role(m.role), text: m.text },
        )
    }
}

/// See [`shown_messages`].
pub fn show_messages(messages: &Vec<StoredMessage>) -> (r: Vec<Message>)
    ensures
        views(r@) == shown_messages(views(messages@)),
{
    broadcast use {views_push, views_index};

    let ghost all = shown_messages(views(messages@));
    let mut r: Vec<Message> = Vec::new();
    if messages.len() == 0 {
        r.push(
            Message {
                role: MessageRole::System,
                text: "Restored thread has no messages yet.".to_owned(),
            },
        );
        assert(views(r@) =~= all);
        return r;
    }
    let mut i: usize = 0;
    assert(views(r@) =~= all.take(0));
    while i < messages.len()
        invariant
            messages.len() > 0,
            all == shown_messages(views(messages@)),
            i <= messages.len(),
            views(r@) == all.take(i as int),
        decreases messages.len() - i,
    {
        let ghost so_far = views(r@);
        let shown = Message {
            role: MessageRole::from_storage_name(messages[i].role.as_str()),
            text: messages[i].text.clone(),
        };
        r.push(shown);
        assert(views(r@) == so_far.push(shown@));
        assert(views(r@) =~= all.take(i + 1));
        i = i + 1;
    }
    assert(all.take(i as int) =~= all);
    r
}

/// What is kept of a conversation is what was said, by the same voices.
pub proof fn conversations_are_read_back(messages: Seq<ChatModel>)
    requires
        messages.len() > 0,
    ensures
        shown_messages(kept_messages(messages)) == messages,
{
    assert forall|i: int| 0 <= i < messages.len() implies shown_messages(
        kept_messages(messages),
    )[i] == messages[i] by {
        roles_are_found_again(messages[i].role);
    }
    assert(shown_messages(kept_messages(messages)) =~= messages);
}

impl Account {
    /// See [`agent_available`].
    pub fn codex_available(&self) -> (r: bool)
        ensures
            r == agent_available(self@),
    {
        let mut i: usize = 0;
        while i < self.providers.len()
            invariant
                i <= self.providers.len(),
                forall|k: int|
                    0 <= k < i ==> !((#[trigger] self.providers@[k]).kind == ProviderKind::Codex
                        && self.providers@[k].available),
            decreases self.providers.len() - i,
        {
            if self.providers[i].kind == ProviderKind::Codex && self.providers[i].available {
                assert(self@.providers[i as int].available);
                return true;
            }
            i = i + 1;
        }
        false
    }

    pub fn codex_authenticated(&self) -> (r: bool)
        ensures
            r == self@.auth is SignedIn,
    {
        !self.auth.requires_onboarding()
    }
}

impl Surface {
    /// See [`resurfaced`].
    pub fn sync_route_with_auth(&mut self, auth: &CodexAuthState)
        ensures
            final(self)@ == resurfaced(old(self)@, auth@),
    {
        self.route = route_after_auth(
            self.route,
            self.last_authenticated_route,
            auth.requires_onboarding(),
        );
    }

    /// See [`reconciled`].
    pub fn reconcile_project_route(&mut self, repository: bool)
        ensures
            final(self)@ == reconciled(old(self)@, repository),
    {
        if !repository && (self.route.requires_project()
            || self.last_authenticated_route.requires_project()) {
            self.route = AppRoute::Workspace;
            self.last_authenticated_route = AppRoute::Workspace;
        }
    }
}

impl ShownThread {
    /// See [`uttered`].
    pub fn say(&mut self, role: MessageRole, text: String)
        ensures
            final(self)@ == uttered(old(self)@, role, text@),
    {
        broadcast use views_push;

        self.messages.push(Message { role, text });
    }

    /// Keeps the composer's text.
    pub fn save_current_draft(&mut self)
        ensures
            final(self)@ == (ShownModel {
                drafts: old(self)@.drafts.insert(old(self)@.id, old(self)@.composer.text),
                ..old(self)@
            }),
    {
        self.drafts.insert(self.id.clone(), self.composer.text());
        assert(self@.drafts =~= old(self)@.drafts.insert(
            old(self)@.id,
            old(self)@.composer.text,
        ));
    }

    /// What stands in the composer of a thread, where that was kept.
    pub fn draft_of(&self, thread_id: &str) -> (r: Option<String>)
        ensures
            opt_view(r) == (if self@.drafts.contains_key(thread_id@) {
                Some(self@.drafts[thread_id@])
            } else {
                None
            }),
    {
        match self.drafts.get(thread_id) {
            Some(draft) => Some(draft.clone()),
            None => None,
        }
    }
}

impl Known {
    /// See [`loading`].
    pub fn refresh_known_state(&self) -> (r: Vec<Effect>)
        ensures
            views(r@) == (if self@.has_store {
                seq![EffectModel::LoadKnown]
            } else {
                Seq::empty()
            }),
    {
        if self.has_store {
            one(Effect::LoadKnown)
        } else {
            nothing()
        }
    }
}

/// The application with what was loaded of what is known.
pub open spec fn known_again(
    a: AppModel,
    projects: Seq<ProjectModel>,
    threads: Seq<ThreadModel>,
) -> AppModel {
    AppModel { known: KnownModel { projects, threads, ..a.known }, ..a }
}

impl RodeApp {
    /// See [`AppModel::wf`].
    pub open spec fn wf(&self) -> bool {
        self@.wf()
    }

    /// See [`thread_record`].
    fn current_thread(&self) -> (r: StoredThread)
        ensures
            r@ == thread_record(self@),
    {
        broadcast use views_index;

        let known = find_thread(&self.known.threads, self.thread.id.as_str());
        let draft = self.thread.draft_of(self.thread.id.as_str());
        let mut thread = StoredThread {
            id: self.thread.id.clone(),
            project_path: self.project.root.clone(),
            project_name: self.project.name.clone(),
            title: self.thread.title.clone(),
            workspace_path: self.project.path.clone(),
            branch: text::copy_opt(&self.thread.branch),
            provider_thread_id: text::copy_opt(&self.turn.provider_thread_id),
            ordinal: self.thread.number,
            draft: String::new(),
            activity: "waiting".to_owned(),
            activity_updated_ms: 0,
            base_branch: None,
            last_error: None,
            dirty_count: 0,
            unread: false,
            conversation_scroll_item: 0,
            conversation_scroll_offset_millis: 0,
            messages: keep_messages(&self.thread.messages),
            events: Vec::new(),
        };
        proof {
            reveal_strlit("");
        }
        if let Some(i) = known {
            let before = &self.known.threads[i];
            thread.draft = before.draft.clone();
            thread.activity = before.activity.clone();
            thread.activity_updated_ms = before.activity_updated_ms;
            thread.base_branch = text::copy_opt(&before.base_branch);
            thread.last_error = text::copy_opt(&before.last_error);
            thread.dirty_count = before.dirty_count;
            thread.unread = before.unread;
            thread.conversation_scroll_item = before.conversation_scroll_item;
            thread.conversation_scroll_offset_millis = before.conversation_scroll_offset_millis;
        }
        if let Some(text) = draft {
            thread.draft = text;
        }
        assert(thread@ =~= thread_record(self@));
        thread
    }

    /// See [`saving`].
    pub fn persist_current_thread(&self) -> (r: Vec<Effect>)
        ensures
            views(r@) == saving(self@),
    {
        reveal(saving);
        if !self.project.open || !self.project.repo.is_repository
            || self.project.root.as_str().unicode_len() == 0 || !self.known.has_store {
            return nothing();
        }
        one(Effect::SaveThread(self.current_thread()))
    }

    /// Takes what is known from the store.
    pub fn known_state_loaded(&mut self, projects: Vec<StoredProject>, threads: Vec<StoredThread>)
        requires
            old(self).wf(),
            forall|i: int| 0 <= i < threads.len() ==> (#[trigger] threads@[i]).ordinal < usize::MAX,
        ensures
            final(self)@ == known_again(old(self)@, views(projects@), views(threads@)),
            final(self)@ == (AppModel {
                known: KnownModel {
                    projects: views(projects@),
                    threads: views(threads@),
                    ..old(self)@.known
                },
                ..old(self)@
            }),
            final(self).wf(),
    {
        broadcast use views_index;

        reveal(countable);
        self.known.projects = projects;
        self.known.threads = threads;
    }

    /// See [`saving_active`].
    pub fn save_active_project(&self) -> (r: Vec<Effect>)
        ensures
            views(r@) == saving_active(self@),
    {
        broadcast use views_index;

        reveal(saving_active);
        match find_project(&self.known.projects, self.project.root.as_str()) {
            Some(i) => if self.known.has_store {
                one(Effect::SaveActiveProject(self.known.projects[i].id.clone()))
            } else {
                nothing()
            },
            None => nothing(),
        }
    }

    /// See [`closed`] and [`closing`].
    pub fn close_project(&mut self) -> (r: Vec<Effect>)
        ensures
            final(self)@ == closed(old(self)@),
            views(r@) == closing(),
    {
        self.project = OpenProject {
            open: false,
            root: String::new(),
            path: String::new(),
            name: "Choose a project".to_owned(),
            repo: RepoSnapshot::default(),
        };
        self.turn.session = false;
        self.turn.provider_thread_id = None;
        self.turn.turn_id = None;
        self.turn.agent_message = None;
        self.turn.running = false;
        self.thread.creating_worktree = false;
        self.surface.show_terminal = false;
        self.surface.terminal_sessions = Vec::new();
        self.surface.route = AppRoute::Workspace;
        self.surface.last_authenticated_route = AppRoute::Workspace;
        proof {
            reveal_strlit("");
        }
        assert(self@.project =~= no_project());
        assert(self@.surface =~= closed(old(self)@).surface);
        followed_by(one(Effect::EndSession), one(Effect::CloseTerminals))
    }
}

/// What is found in the store at the start.
#[derive(Debug, PartialEq, Eq)]
pub enum StoreOpening {
    Opened {
        projects: Result<Vec<StoredProject>, String>,
        active_project_id: Option<String>,
        isolate_new_threads: bool,
        route: Option<String>,
        theme: Option<String>,
    },
    Failed(String),
}

/// The value of a `StoreOpening`.
#[verifier::ext_equal]
pub enum OpeningModel {
    Opened {
        projects: Result<Seq<ProjectModel>, Seq<char>>,
        active_project_id: Option<Seq<char>>,
        isolate_new_threads: bool,
        route: Option<Seq<char>>,
        theme: Option<Seq<char>>,
    },
    Failed(Seq<char>),
}

impl View for StoreOpening {
    type V = OpeningModel;

    open spec fn view(&self) -> OpeningModel {
        match self {
            StoreOpening::Opened { projects, active_project_id, isolate_new_threads, route, theme } => {
                OpeningModel::Opened {
                    projects: match projects {
                        Ok(projects) => Ok(views(projects@)),
                        Err(error) => Err(error@),
                    },
                    active_project_id: opt_view(*active_project_id),
                    isolate_new_threads: *isolate_new_threads,
                    route: opt_view(*route),
                    theme: opt_view(*theme),
                }
            },
            StoreOpening::Failed(error) => OpeningModel::Failed(error@),
        }
    }
}

pub open spec fn opened_projects(opening: OpeningModel) -> Seq<ProjectModel> {
    match opening {
        OpeningModel::Opened { projects: Ok(projects), .. } => projects,
        _ => Seq::empty(),
    }
}

/// What is said where something of the store could not be read.
pub open spec fn opening_error(opening: OpeningModel) -> Option<Seq<char>> {
    match opening {
        OpeningModel::Opened { projects: Ok(_), .. } => None,
        OpeningModel::Opened { projects: Err(error), .. } => Some(
            "Could not restore Rode projects: "@ + error,
        ),
        OpeningModel::Failed(error) => Some("Could not open Rode state database: "@ + error),
    }
}

pub open spec fn opened_preferences(opening: OpeningModel) -> UiPreferences {
    match opening {
        OpeningModel::Opened { route, theme, .. } => preferences(route, theme),
        OpeningModel::Failed(_) => preferences(None, None),
    }
}

pub open spec fn opened_active(opening: OpeningModel) -> Option<Seq<char>> {
    match opening {
        OpeningModel::Opened { active_project_id, .. } => active_project_id,
        OpeningModel::Failed(_) => None,
    }
}

/// An editor in which nothing was written.
pub open spec fn empty_editor(placeholder: Seq<char>) -> EditorModel {
    EditorModel {
        text: Seq::empty(),
        cursor: 0,
        selection: None,
        cursor_visible: false,
        placeholder,
    }
}

/// What is said first.
pub open spec fn greetings(error: Option<Seq<char>>) -> Seq<ChatModel> {
    let hello = ChatModel {
        role: MessageRole::System,
        text:
            "Rode is using the native Wayland renderer. Codex turns run in the workspace-write sandbox by default."@,
    };
    match error {
        Some(error) => seq![hello, ChatModel { role: MessageRole::System, text: error }],
        None => seq![hello],
    }
}

/// The application as it starts, before a project is looked for. The account is still to be
/// checked, so that nothing but the sign-in shows; no project is open, so that a surface that
/// needs one is not gone back to.
pub open spec fn starting(
    opening: OpeningModel,
    requested: Option<Seq<char>>,
    found: bool,
    thread_id: Seq<char>,
) -> AppModel {
    let kept = opened_preferences(opening);
    AppModel {
        surface: SurfaceModel {
            route: AppRoute::Login,
            last_authenticated_route: if needs_project(kept.route) {
                AppRoute::Workspace
            } else {
                kept.route
            },
            theme: kept.theme,
            modal: None,
            show_create_menu: false,
            show_settings: false,
            show_diff: true,
            diff_view: DiffViewMode::Split,
            show_terminal: false,
            terminal_sessions: Seq::empty(),
        },
        account: AccountView {
            providers: seq![ProviderStatus { kind: ProviderKind::Codex, available: found }],
            auth: if found {
                AuthModel::Checking
            } else {
                AuthModel::Unavailable
            },
            attempt: 0,
            pending_login: None,
        },
        known: KnownModel {
            has_store: opening is Opened,
            projects: opened_projects(opening),
            threads: Seq::empty(),
            isolate_new_threads: match opening {
                OpeningModel::Opened { isolate_new_threads, .. } => isolate_new_threads,
                OpeningModel::Failed(_) => false,
            },
        },
        picker: PickerModel {
            selection: SelectionModel::Idle,
            generation: 0,
            error: startup_project(
                requested,
                opened_projects(opening),
                opened_active(opening),
            ).1,
            repairing: None,
        },
        project: no_project(),
        thread: ShownModel {
            id: thread_id,
            title: "Thread 1"@,
            branch: None,
            number: 1,
            creating_worktree: false,
            messages: greetings(opening_error(opening)),
            composer: empty_editor("Ask the agent to inspect, change, or explain the project…"@),
            drafts: Map::empty(),
        },
        turn: TurnModel {
            session: false,
            provider_thread_id: None,
            turn_id: None,
            agent_message: None,
            reasoning_preview: Seq::empty(),
            approvals: Seq::empty(),
            generation: 0,
            running: false,
        },
        renaming: RenamingModel { editor: empty_editor("New name"@), target: None },
        publishing: PublishingModel {
            editor: empty_editor("Commit message or pull-request title"@),
            operation: None,
            status: None,
        },
        toasts: QueueModel { next_id: 0, items: Seq::empty() },
    }
}

/// The generation after one; they begin anew after the largest.
pub open spec fn next_generation(generation: u64) -> u64 {
    if generation == u64::MAX {
        0
    } else {
        (generation + 1) as u64
    }
}

/// The choice while a folder is looked into.
pub open spec fn looked_into(p: PickerModel, path: Seq<char>) -> PickerModel {
    PickerModel {
        generation: next_generation(p.generation),
        selection: SelectionModel::Validating(path),
        error: None,
        ..p
    }
}

/// The application while a folder is looked into.
pub open spec fn validating(a: AppModel, path: Seq<char>) -> AppModel {
    AppModel { picker: looked_into(a.picker, path), ..a }
}

/// What is done to look into a folder.
pub open spec fn validation(a: AppModel, path: Seq<char>, repair: Option<Seq<char>>) -> Seq<EffectModel> {
    seq![
        EffectModel::ValidateProject {
            generation: next_generation(a.picker.generation),
            path,
            repair,
        },
    ]
}

/// The application as it starts, and what is done first: what is known is loaded, and the
/// project of the last time, or the one that was asked for, is looked into.
pub open spec fn started(
    opening: OpeningModel,
    requested: Option<Seq<char>>,
    found: bool,
    thread_id: Seq<char>,
) -> (AppModel, Seq<EffectModel>) {
    let a = starting(opening, requested, found, thread_id);
    match startup_project(requested, opened_projects(opening), opened_active(opening)).0 {
        Some(path) => (validating(a, path), loading(a) + validation(a, path, None)),
        None => (a, loading(a)),
    }
}

/// The application never starts on a surface behind the sign-in, whatever it was left on, and
/// never goes back to one that needs a project.
pub proof fn the_start_is_the_sign_in(
    opening: OpeningModel,
    requested: Option<Seq<char>>,
    found: bool,
    thread_id: Seq<char>,
)
    ensures
        ({
            let a = started(opening, requested, found, thread_id).0;
            &&& a.surface.route is Login
            &&& !(a.account.auth is SignedIn)
            &&& !needs_project(a.surface.last_authenticated_route)
            &&& !a.project.open
            &&& a.wf()
        }),
{
    reveal(countable);
}

/// See [`greetings`].
fn greet(error: Option<String>) -> (r: Vec<Message>)
    ensures
        views(r@) == greetings(opt_view(error)),
{
    let mut r: Vec<Message> = Vec::new();
    r.push(
        Message {
            role: MessageRole::System,
            text:
                "Rode is using the native Wayland renderer. Codex turns run in the workspace-write sandbox by default.".to_owned(),
        },
    );
    if let Some(error) = error {
        r.push(Message { role: MessageRole::System, text: error });
    }
    assert(views(r@) =~= greetings(opt_view(error)));
    r
}

impl RodeApp {
    /// See [`validating`] and [`validation`].
    pub fn validate_project_selection(&mut self, path: String, repair: Option<String>) -> (r: Vec<
        Effect,
    >)
        ensures
            final(self)@ == validating(old(self)@, path@),
            views(r@) == validation(old(self)@, path@, opt_view(repair)),
    {
        self.picker.generation = self.picker.generation.wrapping_add(1);
        self.picker.selection = ProjectSelectionState::Validating(path.clone());
        self.picker.error = None;
        one(Effect::ValidateProject { generation: self.picker.generation, path, repair })
    }

    /// The application before a project is looked for. See [`starting`].
    fn begin(
        opened: OpenedStore,
        picker_error: Option<String>,
        found: bool,
        thread_id: &str,
    ) -> (r: Self)
        ensures
            r@ == (AppModel {
                surface: SurfaceModel {
                    route: AppRoute::Login,
                    last_authenticated_route: if needs_project(opened.kept.route) {
                        AppRoute::Workspace
                    } else {
                        opened.kept.route
                    },
                    theme: opened.kept.theme,
                    modal: None,
                    show_create_menu: false,
                    show_settings: false,
                    show_diff: true,
                    diff_view: DiffViewMode::Split,
                    show_terminal: false,
                    terminal_sessions: Seq::empty(),
                },
                account: starting(OpeningModel::Failed(Seq::empty()), None, found, thread_id@).account,
                known: KnownModel {
                    has_store: opened.has_store,
                    projects: views(opened.projects@),
                    threads: Seq::empty(),
                    isolate_new_threads: opened.isolate_new_threads,
                },
                picker: PickerModel {
                    selection: SelectionModel::Idle,
                    generation: 0,
                    error: opt_view(picker_error),
                    repairing: None,
                },
                thread: ShownModel {
                    messages: greetings(opt_view(opened.error)),
                    ..starting(OpeningModel::Failed(Seq::empty()), None, found, thread_id@).thread
                },
                ..starting(OpeningModel::Failed(Seq::empty()), None, found, thread_id@)
            }),
    {
        let availability = vec![found];
        let ghost first = starting(OpeningModel::Failed(Seq::empty()), None, found, thread_id@);
        let app = RodeApp {
            surface: Surface {
                route: AppRoute::Login,
                last_authenticated_route: if opened.kept.route.requires_project() {
                    AppRoute::Workspace
                } else {
                    opened.kept.route
                },
                theme: opened.kept.theme,
                modal: None,
                show_create_menu: false,
                show_settings: false,
                show_diff: true,
                diff_view: DiffViewMode::Split,
                show_terminal: false,
                terminal_sessions: Vec::new(),
            },
            account: Account {
                providers: discover_providers(&availability),
                auth: if found {
                    CodexAuthState::Checking
                } else {
                    CodexAuthState::Unavailable
                },
                attempt: 0,
                pending_login: None,
            },
            known: Known {
                has_store: opened.has_store,
                projects: opened.projects,
                threads: Vec::new(),
                isolate_new_threads: opened.isolate_new_threads,
            },
            picker: Picker {
                selection: ProjectSelectionState::Idle,
                generation: 0,
                error: picker_error,
                repairing: None,
            },
            project: OpenProject {
                open: false,
                root: String::new(),
                path: String::new(),
                name: "Choose a project".to_owned(),
                repo: RepoSnapshot::default(),
            },
            thread: ShownThread {
                id: thread_id.to_owned(),
                title: "Thread 1".to_owned(),
                branch: None,
                number: 1,
                creating_worktree: false,
                messages: greet(opened.error),
                composer: Editor::new(
                    "",
                    "Ask the agent to inspect, change, or explain the project…",
                ),
                drafts: StringHashMap::new(),
            },
            turn: Turn {
                session: false,
                provider_thread_id: None,
                turn_id: None,
                agent_message: None,
                reasoning_preview: String::new(),
                approvals: Vec::new(),
                generation: 0,
                running: false,
            },
            renaming: Renaming { editor: Editor::new("", "New name"), target: None },
            publishing: Publishing {
                editor: Editor::new("", "Commit message or pull-request title"),
                operation: None,
                status: None,
            },
            toasts: ToastQueue::default(),
        };
        proof {
            reveal_strlit("");
            assert(supported_providers() =~= seq![ProviderKind::Codex]);
            assert(app@.account =~= first.account);
            assert(app@.surface.terminal_sessions =~= Seq::empty());
            assert(app@.known.threads =~= Seq::empty());
            assert(app@.project =~= first.project);
            assert(app@.thread.drafts =~= first.thread.drafts);
            assert(app@.thread.composer =~= first.thread.composer);
            assert(app@.turn =~= first.turn);
            assert(app@.renaming =~= first.renaming);
            assert(app@.publishing =~= first.publishing);
            assert(app@.toasts =~= first.toasts);
        }
        app
    }

    /// The application as it starts, and what is done first. See [`started`]. `found` says
    /// whether the agent's program is there.
    pub fn new(opening: StoreOpening, requested: Option<String>, found: bool, thread_id: &str) -> (r: (
        Self,
        Vec<Effect>,
    ))
        ensures
            r.0@ == started(opening@, opt_view(requested), found, thread_id@).0,
            views(r.1@) == started(opening@, opt_view(requested), found, thread_id@).1,
            r.0.wf(),
    {
        let (opened, active) = open_store(opening);
        let (startup, picker_error) = select_startup_project(&requested, &opened.projects, &active);
        let mut app = RodeApp::begin(opened, picker_error, found, thread_id);
        proof {
            reveal(countable);
            assert(app@ == starting(opening@, opt_view(requested), found, thread_id@));
        }
        let load = app.known.refresh_known_state();
        match startup {
            Some(path) => {
                let validate = app.validate_project_selection(path, None);
                (app, followed_by(load, validate))
            },
            None => (app, load),
        }
    }
}

/// What the store gives at the start.
struct OpenedStore {
    has_store: bool,
    projects: Vec<StoredProject>,
    isolate_new_threads: bool,
    kept: UiPreferences,
    error: Option<String>,
}

/// What the store gives, and beside it the project that was active.
fn open_store(opening: StoreOpening) -> (r: (OpenedStore, Option<String>))
    ensures
        r.0.has_store == opening@ is Opened,
        views(r.0.projects@) == opened_projects(opening@),
        r.0.isolate_new_threads == (match opening@ {
            OpeningModel::Opened { isolate_new_threads, .. } => isolate_new_threads,
            OpeningModel::Failed(_) => false,
        }),
        r.0.kept == opened_preferences(opening@),
        opt_view(r.0.error) == opening_error(opening@),
        opt_view(r.1) == opened_active(opening@),
{
    match opening {
        StoreOpening::Opened { projects, active_project_id, isolate_new_threads, route, theme } => {
            let kept = UiPreferences::load(&route, &theme);
            match projects {
                Ok(projects) => (
                    OpenedStore { has_store: true, projects, isolate_new_threads, kept, error: None },
                    active_project_id,
                ),
                Err(error) => {
                    let none: Vec<StoredProject> = Vec::new();
                    assert(views(none@) =~= Seq::<ProjectModel>::empty());
                    (
                        OpenedStore {
                            has_store: true,
                            projects: none,
                            isolate_new_threads,
                            kept,
                            error: Some(
                                text::concat("Could not restore Rode projects: ", error.as_str()),
                            ),
                        },
                        active_project_id,
                    )
                },
            }
        },
        StoreOpening::Failed(error) => {
            let none: Vec<StoredProject> = Vec::new();
            assert(views(none@) =~= Seq::<ProjectModel>::empty());
            (
                OpenedStore {
                    has_store: false,
                    projects: none,
                    isolate_new_threads: false,
                    kept: UiPreferences::default(),
                    error: Some(
                        text::concat("Could not open Rode state database: ", error.as_str()),
                    ),
                },
                None,
            )
        },
    }
}

/// What is kept of the thread that is shown is what is shown: its id, its title, its place in the
/// project, the conversation with the same voices and words, and the provider's thread to go on
/// with. It is kept once, and wherever a project is open and there is a store.
pub proof fn threads_are_kept_as_shown(a: AppModel)
    ensures
        ({
            let kept = saving(a);
            let open = a.project.open && a.project.repo.is_repository && a.project.root.len() > 0
                && a.known.has_store;
            &&& !open ==> kept.len() == 0
            &&& open ==> kept.len() == 1 && (kept[0] matches EffectModel::SaveThread(t) && {
                &&& t.id == a.thread.id
                &&& t.title == a.thread.title
                &&& t.project_path == a.project.root
                &&& t.project_name == a.project.name
                &&& t.workspace_path == a.project.path
                &&& t.branch == a.thread.branch
                &&& t.provider_thread_id == a.turn.provider_thread_id
                &&& t.ordinal == a.thread.number
                &&& t.messages.len() == a.thread.messages.len()
                &&& forall|i: int|
                    0 <= i < t.messages.len() ==> (#[trigger] t.messages[i]).text
                        == a.thread.messages[i].text && named_role(t.messages[i].role)
                        == a.thread.messages[i].role
                &&& a.thread.drafts.dom().contains(a.thread.id) ==> t.draft
                    == a.thread.drafts[a.thread.id]
            })
        }),
{
    reveal(saving);
    assert forall|i: int| 0 <= i < a.thread.messages.len() implies named_role(
        role_name((#[trigger] a.thread.messages[i]).role),
    ) == a.thread.messages[i].role by {
        roles_are_found_again(a.thread.messages[i].role);
    }
    let t = thread_record(a);
    assert forall|i: int| 0 <= i < t.messages.len() implies (#[trigger] t.messages[i]).text
        == a.thread.messages[i].text && named_role(t.messages[i].role)
        == a.thread.messages[i].role by {
        roles_are_found_again(a.thread.messages[i].role);
    }
}

/// What is known of a thread and not shown stays when the thread is kept.
pub proof fn keeping_a_thread_loses_nothing(a: AppModel, i: int)
    requires
        0 <= i < a.known.threads.len(),
        a.known.threads[i].id == a.thread.id,
        forall|k: int| 0 <= k < i ==> (#[trigger] a.known.threads[k]).id != a.thread.id,
    ensures
        saving(a).len() > 0 ==> (saving(a)[0] matches EffectModel::SaveThread(t) && {
            let before = a.known.threads[i];
            &&& t.activity == before.activity
            &&& t.activity_updated_ms == before.activity_updated_ms
            &&& t.base_branch == before.base_branch
            &&& t.last_error == before.last_error
            &&& t.dirty_count == before.dirty_count
            &&& t.unread == before.unread
            &&& t.conversation_scroll_item == before.conversation_scroll_item
            &&& t.conversation_scroll_offset_millis == before.conversation_scroll_offset_millis
            &&& !a.thread.drafts.dom().contains(a.thread.id) ==> t.draft == before.draft
        }),
{
    reveal(saving);
    first_thread_is_found(a.known.threads, a.thread.id, 0, i);
}

/// A thread is found by its id; of several with one id, the first.
pub proof fn first_thread_is_found(threads: Seq<ThreadModel>, id: Seq<char>, from: int, i: int)
    requires
        0 <= from <= i < threads.len(),
        threads[i].id == id,
        forall|k: int| from <= k < i ==> (#[trigger] threads[k]).id != id,
    ensures
        thread_with_id(threads, id, from) == Some(i),
    decreases i - from,
{
    if from < i {
        assert(threads[from].id != id);
        first_thread_is_found(threads, id, from + 1, i);
    }
}

/// The project that is open is kept as the active one, by its own id.
pub proof fn the_open_project_is_kept_active(a: AppModel, i: int)
    requires
        0 <= i < a.known.projects.len(),
        a.known.projects[i].path == a.project.root,
        forall|k: int| 0 <= k < i ==> (#[trigger] a.known.projects[k]).path != a.project.root,
        a.known.has_store,
    ensures
        saving_active(a) == seq![EffectModel::SaveActiveProject(a.known.projects[i].id)],
{
    reveal(saving_active);
    first_project_is_found(a.known.projects, a.project.root, 0, i);
}

/// A project is found by its path; of several at one path, the first.
pub proof fn first_project_is_found(projects: Seq<ProjectModel>, path: Seq<char>, from: int, i: int)
    requires
        0 <= from <= i < projects.len(),
        projects[i].path == path,
        forall|k: int| from <= k < i ==> (#[trigger] projects[k]).path != path,
    ensures
        project_at(projects, path, from) == Some(i),
    decreases i - from,
{
    if from < i {
        assert(projects[from].path != path);
        first_project_is_found(projects, path, from + 1, i);
    }
}

/// When a project is closed, what runs in it ends and nothing of it is shown; what is known, what
/// was written and who is signed in stay.
pub proof fn closing_ends_what_runs(a: AppModel)
    ensures
        ({
            let b = closed(a);
            &&& !b.project.open
            &&& !b.project.repo.is_repository
            &&& b.project.root.len() == 0
            &&& b.project.path.len() == 0
            &&& !b.turn.session
            &&& !b.turn.running
            &&& b.turn.turn_id is None
            &&& b.turn.provider_thread_id is None
            &&& !b.surface.show_terminal
            &&& b.surface.terminal_sessions.len() == 0
            &&& !needs_project(b.surface.route)
            &&& b.known == a.known
            &&& b.account == a.account
            &&& b.thread.id == a.thread.id
            &&& b.thread.messages == a.thread.messages
            &&& b.thread.composer == a.thread.composer
            &&& b.thread.drafts == a.thread.drafts
            &&& saving(b).len() == 0
        }),
        closing() == seq![EffectModel::EndSession, EffectModel::CloseTerminals],
{
    reveal(saving);
    assert(closing() =~= seq![EffectModel::EndSession, EffectModel::CloseTerminals]);
}

/// No surface that needs a repository is shown without one, and what can be shown stays.
pub proof fn surfaces_fit_the_repository(s: SurfaceModel)
    ensures
        !needs_project(reconciled(s, false).route),
        !needs_project(reconciled(s, false).last_authenticated_route),
        reconciled(s, true) == s,
        !needs_project(s.route) && !needs_project(s.last_authenticated_route) ==> reconciled(
            s,
            false,
        ) == s,
{
}

/// What is said stands behind everything that was said before, in the voice that said it.
pub proof fn what_is_said_stands_last(a: AppModel, role: MessageRole, text: Seq<char>)
    ensures
        ({
            let b = said(a, role, text);
            &&& b.thread.messages.len() == a.thread.messages.len() + 1
            &&& b.thread.messages.last() == (ChatModel { role, text })
            &&& forall|k: int|
                0 <= k < a.thread.messages.len() ==> #[trigger] b.thread.messages[k]
                    == a.thread.messages[k]
            &&& b.thread.id == a.thread.id
            &&& b.turn == a.turn
            &&& b.project == a.project
        }),
{
}

/// The application starts with what was kept: the projects, the theme, the surface, and whether
/// new threads are kept apart; what could not be read is told. The thread has the id that was
/// given, and nothing runs in it.
pub proof fn the_start_is_as_kept(
    opening: OpeningModel,
    requested: Option<Seq<char>>,
    found: bool,
    thread_id: Seq<char>,
    error: Seq<char>,
)
    ensures
        ({
            let (a, effects) = started(opening, requested, found, thread_id);
            &&& a.thread.id == thread_id
            &&& !a.turn.session && !a.turn.running
            &&& a.turn.provider_thread_id is None
            &&& a.turn.approvals.len() == 0
            &&& a.known.threads.len() == 0
            &&& agent_available(a.account) == found
            &&& opening matches OpeningModel::Opened {
                projects,
                active_project_id,
                route,
                theme,
                isolate_new_threads,
            } ==> {
                &&& a.known.has_store
                &&& a.known.isolate_new_threads == isolate_new_threads
                &&& projects matches Ok(list) ==> a.known.projects == list
                &&& projects is Err ==> a.known.projects.len() == 0
                &&& a.surface.theme == preferences(route, theme).theme
                &&& !needs_project(preferences(route, theme).route)
                    ==> a.surface.last_authenticated_route == preferences(route, theme).route
                &&& effects.len() > 0 && effects[0] == EffectModel::LoadKnown
            }
            &&& opening is Failed ==> !a.known.has_store && a.known.projects.len() == 0
            &&& requested matches Some(path) ==> a.picker.selection == SelectionModel::Validating(
                path,
            ) && effects.last() == (EffectModel::ValidateProject {
                generation: a.picker.generation,
                path,
                repair: None,
            })
        }),
        opening_error(OpeningModel::Failed(error)) matches Some(told) && has_part(told, error),
{
    let a = starting(opening, requested, found, thread_id);
    assert(a.account.providers[0].kind == ProviderKind::Codex);
    let none = Seq::<char>::empty();
    let before = "Could not open Rode state database: "@;
    assert(before + error + none =~= before + error);
    parts_are_held(before, error, none);
}

/// What was loaded is what is known from then on; what is shown, written and switched on stays.
pub proof fn what_was_loaded_is_known(
    a: AppModel,
    projects: Seq<ProjectModel>,
    threads: Seq<ThreadModel>,
)
    ensures
        ({
            let b = known_again(a, projects, threads);
            &&& b.known.projects == projects
            &&& b.known.threads == threads
            &&& b.known.has_store == a.known.has_store
            &&& b.known.isolate_new_threads == a.known.isolate_new_threads
            &&& b.thread == a.thread
            &&& b.turn == a.turn
            &&& b.project == a.project
            &&& b.surface == a.surface
        }),
        a.known.has_store ==> loading(a) == seq![EffectModel::LoadKnown],
        !a.known.has_store ==> loading(a).len() == 0,
{
}

} // verus!
