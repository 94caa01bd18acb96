//! The worker behind a terminal, which runs the shell, and the view in front of it.
use vstd::prelude::*;
use vstd::string::*;

use crate::command;
use crate::command::lossy_text;
use crate::editor;
use crate::editor::{counted, units};
use crate::keys::{KeyEventModel, TerminalKeyEvent};
use crate::terminal::{
    blank, default_ink, default_paper, ink, paper, pty_of, PtyDimensions, SnapshotModel,
    TerminalColor, TerminalSize, TerminalSnapshot,
};
use crate::text;
use crate::text::{has_part, parts_are_held};
use crate::theme::ThemeKind;
use crate::views::opt_view;

verus! {

/// The last sixteen bits of a number.
pub open spec fn low16(n: int) -> int {
    n % 65536
}

/// See [`low16`].
fn truncated(n: usize) -> (r: u16)
    ensures
        r == low16(n as int),
{
    (n % 65536) as u16
}

/// The columns and lines of the emulator's grid, and the pixels of a cell.
#[derive(Clone, Copy, Debug, PartialEq, Eq, Structural)]
pub struct GridSize {
    pub columns: u16,
    pub lines: u16,
    pub cell_width: u32,
    pub cell_height: u32,
}

/// The grid of a terminal of a size.
pub open spec fn grid_of(size: TerminalSize) -> GridSize {
    GridSize {
        columns: low16(size.columns as int) as u16,
        lines: low16(size.lines as int) as u16,
        cell_width: size.cell_width as u32,
        cell_height: size.cell_height as u32,
    }
}

/// See [`grid_of`].
pub fn grid_size(size: TerminalSize) -> (r: GridSize)
    ensures
        r == grid_of(size),
{
    GridSize {
        columns: truncated(size.columns),
        lines: truncated(size.lines),
        cell_width: size.cell_width as u32,
        cell_height: size.cell_height as u32,
    }
}

/// The program that runs in a terminal: the one that the environment asks for, where it asks for
/// any.
pub open spec fn shell_of(asked: Option<Seq<char>>) -> Seq<char> {
    match asked {
        Some(shell) => if shell.len() == 0 {
            "/bin/sh"@
        } else {
            shell
        },
        None => "/bin/sh"@,
    }
}

/// See [`shell_of`].
pub fn user_shell(asked: &Option<String>) -> (r: String)
    ensures
        r@ == shell_of(opt_view(*asked)),
{
    match asked {
        Some(shell) => if shell.as_str().unicode_len() == 0 {
            "/bin/sh".to_owned()
        } else {
            shell.clone()
        },
        None => "/bin/sh".to_owned(),
    }
}

/// How a terminal begins: the pseudo terminal, the program in it and its environment, and the
/// emulator.
#[derive(Debug, PartialEq, Eq)]
pub struct TerminalStart {
    pub pty: PtyDimensions,
    pub shell: String,
    pub cwd: String,
    pub environment: Vec<(String, String)>,
    pub grid: GridSize,
    pub max_scrollback: usize,
    pub foreground: TerminalColor,
    pub background: TerminalColor,
    pub cursor: TerminalColor,
    /// What is said where there is no pseudo terminal to be had.
    pub pty_failure: String,
    /// What is said where the program does not start.
    pub shell_failure: String,
}

/// The value of a `TerminalStart`.
#[verifier::ext_equal]
pub struct StartModel {
    pub pty: PtyDimensions,
    pub shell: Seq<char>,
    pub cwd: Seq<char>,
    pub environment: Seq<(Seq<char>, Seq<char>)>,
    pub grid: GridSize,
    pub max_scrollback: usize,
    pub foreground: TerminalColor,
    pub background: TerminalColor,
    pub cursor: TerminalColor,
    pub pty_failure: Seq<char>,
    pub shell_failure: Seq<char>,
}

pub open spec fn pairs(v: Seq<(String, String)>) -> Seq<(Seq<char>, Seq<char>)> {
    v.map_values(|p: (String, String)| (p.0@, p.1@))
}

impl View for TerminalStart {
    type V = StartModel;

    open spec fn view(&self) -> StartModel {
        StartModel {
            pty: self.pty,
            shell: self.shell@,
            cwd: self.cwd@,
            environment: pairs(self.environment@),
            grid: self.grid,
            max_scrollback: self.max_scrollback,
            foreground: self.foreground,
            background: self.background,
            cursor: self.cursor,
            pty_failure: self.pty_failure@,
            shell_failure: self.shell_failure@,
        }
    }
}

/// How a terminal of a size begins in a folder.
pub open spec fn start_of(
    cwd: Seq<char>,
    size: TerminalSize,
    shell: Option<Seq<char>>,
    version: Seq<char>,
) -> StartModel {
    StartModel {
        pty: pty_of(size),
        shell: shell_of(shell),
        cwd,
        environment: seq![
            ("TERM"@, "xterm-256color"@),
            ("COLORTERM"@, "truecolor"@),
            ("TERM_PROGRAM"@, "Rode"@),
            ("TERM_PROGRAM_VERSION"@, version),
        ],
        grid: grid_of(size),
        max_scrollback: 10000,
        foreground: ink(),
        background: paper(),
        cursor: ink(),
        pty_failure: "opening host PTY in "@ + cwd,
        shell_failure: "starting "@ + shell_of(shell),
    }
}

#[derive(Clone, Copy, Debug, PartialEq, Eq, Structural)]
pub enum SelectionPointerPhase {
    Press,
    Drag,
    Release,
}

/// What the emulator knows of where the pointer moves.
#[derive(Clone, Copy, Debug, PartialEq, Eq, Structural)]
pub struct PointerGeometry {
    pub columns: u32,
    pub cell_width: u32,
    pub padding_left: u32,
    pub screen_height: u32,
}

/// The pointer over a cell.
#[derive(Clone, Copy, Debug, PartialEq, Eq, Structural)]
pub struct SelectionPointerEvent {
    pub phase: SelectionPointerPhase,
    pub column: u16,
    pub row: u32,
    pub rectangle: bool,
    pub geometry: PointerGeometry,
}

pub open spec fn smaller(a: int, b: int) -> int {
    if a < b {
        a
    } else {
        b
    }
}

/// The pointer over the column and the row that it points at, or over the last ones where it
/// points beyond them.
pub open spec fn pointer_at(
    size: TerminalSize,
    column: usize,
    row: usize,
    phase: SelectionPointerPhase,
    rectangle: bool,
    cell_width: u32,
    screen_height: u32,
) -> SelectionPointerEvent {
    SelectionPointerEvent {
        phase,
        column: low16(
            smaller(
                column as int,
                if size.columns == 0 {
                    0
                } else {
                    size.columns - 1
                },
            ),
        ) as u16,
        row: (smaller(
            row as int,
            if size.lines == 0 {
                0
            } else {
                size.lines - 1
            },
        ) % 0x1_0000_0000) as u32,
        rectangle,
        geometry: PointerGeometry {
            columns: smaller(size.columns as int, 0xffff_ffff) as u32,
            cell_width,
            padding_left: 0,
            screen_height,
        },
    }
}

/// See [`pointer_at`].
pub fn pointer_event(
    size: TerminalSize,
    column: usize,
    row: usize,
    phase: SelectionPointerPhase,
    rectangle: bool,
    cell_width: u32,
    screen_height: u32,
) -> (r: SelectionPointerEvent)
    ensures
        r == pointer_at(size, column, row, phase, rectangle, cell_width, screen_height),
{
    let last_column: usize = if size.columns == 0 {
        0
    } else {
        size.columns - 1
    };
    let last_line: usize = if size.lines == 0 {
        0
    } else {
        size.lines - 1
    };
    let at_row: usize = if row < last_line {
        row
    } else {
        last_line
    };
    SelectionPointerEvent {
        phase,
        column: truncated(
            if column < last_column {
                column
            } else {
                last_column
            },
        ),
        row: ((at_row as u64) % 0x1_0000_0000) as u32,
        rectangle,
        geometry: PointerGeometry {
            columns: if (size.columns as u64) < 0xffff_ffff {
                size.columns as u32
            } else {
                0xffff_ffff
            },
            cell_width,
            padding_left: 0,
            screen_height,
        },
    }
}

/// The pointer is over a cell of the terminal, wherever it points.
pub proof fn pointers_stay_on_the_grid(
    size: TerminalSize,
    column: usize,
    row: usize,
    phase: SelectionPointerPhase,
    rectangle: bool,
    cell_width: u32,
    screen_height: u32,
)
    requires
        0 < size.columns <= 0x1_0000,
        0 < size.lines <= 0x1_0000_0000,
    ensures
        ({
            let p = pointer_at(size, column, row, phase, rectangle, cell_width, screen_height);
            &&& p.column < size.columns
            &&& p.row < size.lines
            &&& column < size.columns ==> p.column == column
            &&& row < size.lines ==> p.row == row
        }),
{
}

/// What the worker is told.
#[derive(Debug, PartialEq, Eq)]
pub enum WorkerCommand {
    PtyOutput(Vec<u8>),
    PtyClosed,
    Text(Vec<u8>),
    Paste(String),
    Key(TerminalKeyEvent),
    Focus(bool),
    Resize(TerminalSize),
    Scroll(i32),
    CopySelection,
    SelectionPointer(SelectionPointerEvent),
    Shutdown,
}

/// The value of a `WorkerCommand`.
#[verifier::ext_equal]
pub enum CommandModel {
    PtyOutput(Seq<u8>),
    PtyClosed,
    Text(Seq<u8>),
    Paste(Seq<char>),
    Key(KeyEventModel),
    Focus(bool),
    Resize(TerminalSize),
    Scroll(i32),
    CopySelection,
    SelectionPointer(SelectionPointerEvent),
    Shutdown,
}

impl View for WorkerCommand {
    type V = CommandModel;

    open spec fn view(&self) -> CommandModel {
        match self {
            WorkerCommand::PtyOutput(bytes) => CommandModel::PtyOutput(bytes@),
            WorkerCommand::PtyClosed => CommandModel::PtyClosed,
            WorkerCommand::Text(bytes) => CommandModel::Text(bytes@),
            WorkerCommand::Paste(text) => CommandModel::Paste(text@),
            WorkerCommand::Key(event) => CommandModel::Key(event@),
            WorkerCommand::Focus(focused) => CommandModel::Focus(*focused),
            WorkerCommand::Resize(size) => CommandModel::Resize(*size),
            WorkerCommand::Scroll(lines) => CommandModel::Scroll(*lines),
            WorkerCommand::CopySelection => CommandModel::CopySelection,
            WorkerCommand::SelectionPointer(event) => CommandModel::SelectionPointer(*event),
            WorkerCommand::Shutdown => CommandModel::Shutdown,
        }
    }
}

/// What the worker does.
#[derive(Debug, PartialEq, Eq)]
pub enum WorkerAction {
    /// The emulator reads what the program wrote.
    Parse(Vec<u8>),
    /// The program's end is taken note of.
    Reap,
    /// What the terminal shows is told, and whether its program has ended.
    Publish { size: TerminalSize, exited: bool },
    /// The end of the program is told.
    AnnounceExit,
    /// Bytes go to the program.
    Write(Vec<u8>),
    /// A text goes to the program as something that was pasted.
    Paste(String),
    /// A key goes to the program.
    SendKey(TerminalKeyEvent),
    /// The program is told of the focus, where it asked to be.
    ReportFocus(bool),
    ResizeGrid(GridSize),
    ResizePty(PtyDimensions),
    Scroll(i32),
    CopySelection,
    UpdateSelection(SelectionPointerEvent),
    /// The program is stopped.
    Kill,
}

/// The value of a `WorkerAction`.
#[verifier::ext_equal]
pub enum ActionModel {
    Parse(Seq<u8>),
    Reap,
    Publish { size: TerminalSize, exited: bool },
    AnnounceExit,
    Write(Seq<u8>),
    Paste(Seq<char>),
    SendKey(KeyEventModel),
    ReportFocus(bool),
    ResizeGrid(GridSize),
    ResizePty(PtyDimensions),
    Scroll(i32),
    CopySelection,
    UpdateSelection(SelectionPointerEvent),
    Kill,
}

impl View for WorkerAction {
    type V = ActionModel;

    open spec fn view(&self) -> ActionModel {
        match self {
            WorkerAction::Parse(bytes) => ActionModel::Parse(bytes@),
            WorkerAction::Reap => ActionModel::Reap,
            WorkerAction::Publish { size, exited } => ActionModel::Publish {
                size: *size,
                exited: *exited,
            },
            WorkerAction::AnnounceExit => ActionModel::AnnounceExit,
            WorkerAction::Write(bytes) => ActionModel::Write(bytes@),
            WorkerAction::Paste(text) => ActionModel::Paste(text@),
            WorkerAction::SendKey(event) => ActionModel::SendKey(event@),
            WorkerAction::ReportFocus(focused) => ActionModel::ReportFocus(*focused),
            WorkerAction::ResizeGrid(size) => ActionModel::ResizeGrid(*size),
            WorkerAction::ResizePty(size) => ActionModel::ResizePty(*size),
            WorkerAction::Scroll(lines) => ActionModel::Scroll(*lines),
            WorkerAction::CopySelection => ActionModel::CopySelection,
            WorkerAction::UpdateSelection(event) => ActionModel::UpdateSelection(*event),
            WorkerAction::Kill => ActionModel::Kill,
        }
    }
}

/// The worker's own state: the size of the terminal, whether its program has ended, and whether
/// the worker itself has stopped.
#[verifier::ext_equal]
pub struct WorkerModel {
    pub size: TerminalSize,
    pub exited: bool,
    pub stopped: bool,
}

/// The worker after a command, and what it does.
pub open spec fn worker_step(w: WorkerModel, command: CommandModel) -> (WorkerModel, Seq<ActionModel>) {
    let publish = ActionModel::Publish { size: w.size, exited: w.exited };
    match command {
        CommandModel::PtyOutput(bytes) => (w, seq![ActionModel::Parse(bytes), publish]),
        CommandModel::PtyClosed => (
            WorkerModel { exited: true, ..w },
            seq![
                ActionModel::Reap,
                ActionModel::Publish { size: w.size, exited: true },
                ActionModel::AnnounceExit,
            ],
        ),
        CommandModel::Text(bytes) => (w, seq![ActionModel::Write(bytes)]),
        CommandModel::Paste(text) => (w, seq![ActionModel::Paste(text)]),
        CommandModel::Key(event) => (w, seq![ActionModel::SendKey(event)]),
        CommandModel::Focus(focused) => (w, seq![ActionModel::ReportFocus(focused)]),
        CommandModel::Resize(size) => (
            WorkerModel { size, ..w },
            seq![
                ActionModel::ResizeGrid(grid_of(size)),
                ActionModel::ResizePty(pty_of(size)),
                ActionModel::Publish { size, exited: w.exited },
            ],
        ),
        CommandModel::Scroll(lines) => (w, seq![ActionModel::Scroll(lines), publish]),
        CommandModel::CopySelection => (w, seq![ActionModel::CopySelection]),
        CommandModel::SelectionPointer(event) => (
            w,
            seq![ActionModel::UpdateSelection(event), publish],
        ),
        CommandModel::Shutdown => (WorkerModel { stopped: true, ..w }, seq![ActionModel::Kill]),
    }
}

/// The worker behind a terminal.
#[derive(Debug, PartialEq, Eq)]
pub struct TerminalWorker {
    size: TerminalSize,
    exited: bool,
    stopped: bool,
}

impl View for TerminalWorker {
    type V = WorkerModel;

    closed spec fn view(&self) -> WorkerModel {
        WorkerModel { size: self.size, exited: self.exited, stopped: self.stopped }
    }
}

pub open spec fn action_views(v: Seq<WorkerAction>) -> Seq<ActionModel> {
    v.map_values(|a: WorkerAction| a@)
}

impl TerminalWorker {
    /// A worker for a terminal of a size, and how that terminal begins.
    pub fn new(cwd: &str, size: TerminalSize, shell: &Option<String>, version: &str) -> (r: (
        Self,
        TerminalStart,
    ))
        ensures
            r.0@ == (WorkerModel { size, exited: false, stopped: false }),
            r.1@ == start_of(cwd@, size, opt_view(*shell), version@),
    {
        let program = user_shell(shell);
        let shell_failure = text::concat("starting ", program.as_str());
        let environment = vec![
            ("TERM".to_owned(), "xterm-256color".to_owned()),
            ("COLORTERM".to_owned(), "truecolor".to_owned()),
            ("TERM_PROGRAM".to_owned(), "Rode".to_owned()),
            ("TERM_PROGRAM_VERSION".to_owned(), version.to_owned()),
        ];
        let start = TerminalStart {
            pty: size.pty_size(),
            shell: program,
            cwd: cwd.to_owned(),
            environment,
            grid: grid_size(size),
            max_scrollback: 10000,
            foreground: default_ink(),
            background: default_paper(),
            cursor: default_ink(),
            pty_failure: text::concat("opening host PTY in ", cwd),
            shell_failure,
        };
        assert(start@.environment =~= start_of(cwd@, size, opt_view(*shell), version@).environment);
        (TerminalWorker { size, exited: false, stopped: false }, start)
    }

    pub fn size(&self) -> (r: TerminalSize)
        ensures
            r == self@.size,
    {
        self.size
    }

    pub fn stopped(&self) -> (r: bool)
        ensures
            r == self@.stopped,
    {
        self.stopped
    }

    /// Tells what the terminal shows.
    fn publish(&self) -> (r: WorkerAction)
        ensures
            r@ == (ActionModel::Publish { size: self@.size, exited: self@.exited }),
    {
        WorkerAction::Publish { size: self.size, exited: self.exited }
    }

    /// See [`worker_step`].
    pub fn run(&mut self, command: WorkerCommand) -> (r: Vec<WorkerAction>)
        ensures
            (final(self)@, action_views(r@)) == worker_step(old(self)@, command@),
    {
        let ghost next = worker_step(self@, command@);
        let actions = match command {
            WorkerCommand::PtyOutput(bytes) => vec![WorkerAction::Parse(bytes), self.publish()],
            WorkerCommand::PtyClosed => {
                self.exited = true;
                vec![WorkerAction::Reap, self.publish(), WorkerAction::AnnounceExit]
            },
            WorkerCommand::Text(bytes) => vec![WorkerAction::Write(bytes)],
            WorkerCommand::Paste(text) => vec![WorkerAction::Paste(text)],
            WorkerCommand::Key(event) => vec![WorkerAction::SendKey(event)],
            WorkerCommand::Focus(focused) => vec![WorkerAction::ReportFocus(focused)],
            WorkerCommand::Resize(size) => {
                self.size = size;
                vec![
                    WorkerAction::ResizeGrid(grid_size(size)),
                    WorkerAction::ResizePty(size.pty_size()),
                    self.publish(),
                ]
            },
            WorkerCommand::Scroll(lines) => vec![WorkerAction::Scroll(lines), self.publish()],
            WorkerCommand::CopySelection => vec![WorkerAction::CopySelection],
            WorkerCommand::SelectionPointer(event) => vec![
                WorkerAction::UpdateSelection(event),
                self.publish(),
            ],
            WorkerCommand::Shutdown => {
                self.stopped = true;
                vec![WorkerAction::Kill]
            },
        };
        assert(action_views(actions@) =~= next.1);
        actions
    }
}

/// The state of the worker after commands, and all that it does.
pub open spec fn worker_run(w: WorkerModel, commands: Seq<CommandModel>) -> (WorkerModel, Seq<ActionModel>)
    decreases commands.len(),
{
    if commands.len() == 0 {
        (w, Seq::empty())
    } else {
        let before = worker_run(w, commands.drop_last());
        let last = worker_step(before.0, commands.last());
        (last.0, before.1 + last.1)
    }
}

/// Once its program has ended a terminal never shows it as running again.
pub proof fn ended_programs_stay_ended(w: WorkerModel, commands: Seq<CommandModel>)
    requires
        w.exited,
    ensures
        worker_run(w, commands).0.exited,
        forall|i: int|
            0 <= i < worker_run(w, commands).1.len() ==> ((
            #[trigger] worker_run(w, commands).1[i]) matches ActionModel::Publish { exited, .. }
                ==> exited),
    decreases commands.len(),
{
    if commands.len() > 0 {
        ended_programs_stay_ended(w, commands.drop_last());
    }
}

/// How much room the encoding of a pasted text of a number of bytes is given at first.
pub open spec fn paste_room(bytes: usize) -> nat {
    counted(bytes as nat * 2 + 32)
}

/// See [`paste_room`].
pub fn paste_capacity(bytes: usize) -> (r: usize)
    ensures
        r == paste_room(bytes),
{
    if bytes > (usize::MAX - 32) / 2 {
        usize::MAX
    } else {
        bytes * 2 + 32
    }
}

/// The text that goes to the clipboard of the bytes that are selected, if there is any.
pub open spec fn copied(bytes: Option<Seq<u8>>) -> Option<Seq<char>> {
    match bytes {
        Some(bytes) => if lossy_text(bytes).len() == 0 {
            None
        } else {
            Some(lossy_text(bytes))
        },
        None => None,
    }
}

/// See [`copied`].
pub fn copied_text(bytes: &Option<Vec<u8>>) -> (r: Option<String>)
    ensures
        opt_view(r) == copied(opt_view(*bytes)),
{
    match bytes {
        Some(bytes) => {
            let text = command::text_of(bytes.as_slice());
            if text.as_str().unicode_len() == 0 {
                None
            } else {
                Some(text)
            }
        },
        None => None,
    }
}

/// What the view is told.
#[derive(Debug, PartialEq, Eq)]
pub enum TerminalEvent {
    Snapshot(TerminalSnapshot),
    ClipboardStore(String),
    Bell,
    Exited,
    Error(String),
}

/// The value of a `TerminalEvent`.
#[verifier::ext_equal]
pub enum EventModel {
    Snapshot(SnapshotModel),
    ClipboardStore(Seq<char>),
    Bell,
    Exited,
    Error(Seq<char>),
}

impl View for TerminalEvent {
    type V = EventModel;

    open spec fn view(&self) -> EventModel {
        match self {
            TerminalEvent::Snapshot(snapshot) => EventModel::Snapshot(snapshot@),
            TerminalEvent::ClipboardStore(text) => EventModel::ClipboardStore(text@),
            TerminalEvent::Bell => EventModel::Bell,
            TerminalEvent::Exited => EventModel::Exited,
            TerminalEvent::Error(error) => EventModel::Error(error@),
        }
    }
}

/// The event with which a worker that failed tells so.
pub fn worker_error(error: &str) -> (r: TerminalEvent)
    ensures
        r@ == EventModel::Error("Ghostty terminal worker: "@ + error@),
{
    TerminalEvent::Error(text::concat("Ghostty terminal worker: ", error))
}

/// A terminal from outside: its size as far as it was told.
#[derive(Debug, PartialEq, Eq)]
pub struct TerminalCore {
    size: TerminalSize,
}

impl View for TerminalCore {
    type V = TerminalSize;

    closed spec fn view(&self) -> TerminalSize {
        self.size
    }
}

impl TerminalCore {
    /// A terminal of the first size.
    pub fn start() -> (r: Self)
        ensures
            r@ == (TerminalSize { columns: 80, lines: 24, cell_width: 8, cell_height: 18 }),
    {
        TerminalCore { size: TerminalSize::default() }
    }

    pub fn size(&self) -> (r: TerminalSize)
        ensures
            r == self@,
    {
        self.size
    }

    /// Changes the size, and gives what the worker is told of it: nothing, where it is the same.
    pub fn resize(&mut self, size: TerminalSize) -> (r: Option<WorkerCommand>)
        ensures
            final(self)@ == size,
            opt_view(r) == (if size == old(self)@ {
                None
            } else {
                Some(CommandModel::Resize(size))
            }),
    {
        if self.size == size {
            return None;
        }
        self.size = size;
        Some(WorkerCommand::Resize(size))
    }

    /// What the worker is told of bytes that were typed.
    pub fn input(&self, bytes: Vec<u8>) -> (r: WorkerCommand)
        ensures
            r@ == CommandModel::Text(bytes@),
    {
        WorkerCommand::Text(bytes)
    }

    /// What the worker is told of a text that is pasted.
    pub fn paste(&self, text: &str) -> (r: WorkerCommand)
        ensures
            r@ == CommandModel::Paste(text@),
    {
        WorkerCommand::Paste(text.to_owned())
    }

    /// What the worker is told to show other lines.
    pub fn scroll_lines(&self, lines: i32) -> (r: WorkerCommand)
        ensures
            r@ == CommandModel::Scroll(lines),
    {
        WorkerCommand::Scroll(lines)
    }

    /// What the worker is told to have the selection copied.
    pub fn copy_selection(&self) -> (r: WorkerCommand)
        ensures
            r@ == CommandModel::CopySelection,
    {
        WorkerCommand::CopySelection
    }
}

/// The state of the view: what it shows, its title, whether the program has ended, the text that
/// is being composed, and the theme.
#[verifier::ext_equal]
pub struct ViewModel {
    pub snapshot: SnapshotModel,
    pub title: Seq<char>,
    pub exited: bool,
    pub marked_text: Option<Seq<char>>,
    pub theme: ThemeKind,
}

/// The view after an event.
pub open spec fn view_after(v: ViewModel, event: EventModel) -> ViewModel {
    match event {
        EventModel::Snapshot(snapshot) => ViewModel {
            title: snapshot.title,
            exited: snapshot.exited,
            snapshot,
            ..v
        },
        EventModel::ClipboardStore(_) => v,
        EventModel::Bell => v,
        EventModel::Exited => ViewModel { exited: true, ..v },
        EventModel::Error(error) => ViewModel {
            title: "Terminal error · "@ + error,
            exited: true,
            ..v
        },
    }
}

/// The view of a terminal.
#[derive(Debug, PartialEq, Eq)]
pub struct TerminalView {
    snapshot: TerminalSnapshot,
    title: String,
    exited: bool,
    marked_text: Option<String>,
    theme: ThemeKind,
}

impl View for TerminalView {
    type V = ViewModel;

    closed spec fn view(&self) -> ViewModel {
        ViewModel {
            snapshot: self.snapshot@,
            title: self.title@,
            exited: self.exited,
            marked_text: opt_view(self.marked_text),
            theme: self.theme,
        }
    }
}

impl TerminalView {
    pub fn new(size: TerminalSize, theme: ThemeKind) -> (r: Self)
        ensures
            r@ == (ViewModel {
                snapshot: blank(size),
                title: "Terminal"@,
                exited: false,
                marked_text: None,
                theme,
            }),
    {
        TerminalView {
            snapshot: TerminalSnapshot::empty(size),
            title: "Terminal".to_owned(),
            exited: false,
            marked_text: None,
            theme,
        }
    }

    /// Takes another theme, and says whether anything changed.
    pub fn set_theme(&mut self, theme: ThemeKind) -> (changed: bool)
        ensures
            final(self)@ == (ViewModel { theme, ..old(self)@ }),
            changed == (old(self)@.theme != theme),
    {
        if self.theme != theme {
            self.theme = theme;
            true
        } else {
            false
        }
    }

    pub fn title(&self) -> (r: &str)
        ensures
            r@ == self@.title,
    {
        self.title.as_str()
    }

    pub fn exited(&self) -> (r: bool)
        ensures
            r == self@.exited,
    {
        self.exited
    }

    pub fn snapshot(&self) -> (r: &TerminalSnapshot)
        ensures
            r@ == self@.snapshot,
    {
        &self.snapshot
    }

    pub fn theme(&self) -> (r: ThemeKind)
        ensures
            r == self@.theme,
    {
        self.theme
    }

    /// Takes an event, and gives the text that goes to the clipboard, if there is any. See
    /// [`view_after`].
    pub fn handle_event(&mut self, event: TerminalEvent) -> (r: Option<String>)
        ensures
            final(self)@ == view_after(old(self)@, event@),
            opt_view(r) == (match event@ {
                EventModel::ClipboardStore(text) => Some(text),
                _ => None,
            }),
    {
        match event {
            TerminalEvent::Snapshot(snapshot) => {
                self.title = snapshot.title.clone();
                self.exited = snapshot.exited;
                self.snapshot = snapshot;
                None
            },
            TerminalEvent::ClipboardStore(text) => Some(text),
            TerminalEvent::Bell => None,
            TerminalEvent::Exited => {
                self.exited = true;
                None
            },
            TerminalEvent::Error(error) => {
                self.title = text::concat("Terminal error · ", error.as_str());
                self.exited = true;
                None
            },
        }
    }

    /// Takes or loses the focus, and gives what the worker is told of it. What is being composed
    /// goes with the focus.
    pub fn focus(&mut self, focused: bool) -> (r: WorkerCommand)
        ensures
            r@ == CommandModel::Focus(focused),
            final(self)@ == (if focused {
                old(self)@
            } else {
                ViewModel { marked_text: None, ..old(self)@ }
            }),
    {
        if !focused {
            self.marked_text = None;
        }
        WorkerCommand::Focus(focused)
    }

    pub fn marked_text(&self) -> (r: &Option<String>)
        ensures
            opt_view(*r) == self@.marked_text,
    {
        &self.marked_text
    }

    /// The range of the text that is being composed, in units of UTF-16.
    pub fn marked_text_range(&self) -> (r: Option<(usize, usize)>)
        ensures
            r == (match self@.marked_text {
                Some(text) => Some((0usize, counted(units(text, true)) as usize)),
                None => None,
            }),
    {
        match &self.marked_text {
            Some(text) => {
                let chars = text::chars(text.as_str());
                assert(chars@.take(chars@.len() as int) =~= chars@);
                Some((0, editor::units_before(&chars, chars.len(), true)))
            },
            None => None,
        }
    }

    pub fn unmark_text(&mut self)
        ensures
            final(self)@ == (ViewModel { marked_text: None, ..old(self)@ }),
    {
        self.marked_text = None;
    }

    /// Ends the composing, and gives the text that goes to the program.
    pub fn replace_text_in_range(&mut self, new_text: &str) -> (r: String)
        ensures
            final(self)@ == (ViewModel { marked_text: None, ..old(self)@ }),
            r@ == new_text@,
    {
        self.marked_text = None;
        new_text.to_owned()
    }

    pub fn replace_and_mark_text_in_range(&mut self, new_text: &str)
        ensures
            final(self)@ == (ViewModel { marked_text: Some(new_text@), ..old(self)@ }),
    {
        self.marked_text = Some(new_text.to_owned());
    }
}

/// What the user types, pastes or presses goes to the program as it is, and is all that is done.
pub proof fn input_goes_to_the_program(
    w: WorkerModel,
    bytes: Seq<u8>,
    text: Seq<char>,
    key: KeyEventModel,
    focused: bool,
)
    ensures
        worker_step(w, CommandModel::Text(bytes)) == (w, seq![ActionModel::Write(bytes)]),
        worker_step(w, CommandModel::Paste(text)) == (w, seq![ActionModel::Paste(text)]),
        worker_step(w, CommandModel::Key(key)) == (w, seq![ActionModel::SendKey(key)]),
        worker_step(w, CommandModel::Focus(focused)) == (
            w,
            seq![ActionModel::ReportFocus(focused)],
        ),
        worker_step(w, CommandModel::CopySelection) == (w, seq![ActionModel::CopySelection]),
{
}

/// What the program writes is read, every byte of it, and then shown; so is what the user scrolls
/// or selects. What is shown has the size of the terminal and says whether the program has ended.
pub proof fn changes_are_shown(
    w: WorkerModel,
    bytes: Seq<u8>,
    lines: i32,
    pointer: SelectionPointerEvent,
)
    ensures
        worker_step(w, CommandModel::PtyOutput(bytes)) == (
            w,
            seq![
                ActionModel::Parse(bytes),
                ActionModel::Publish { size: w.size, exited: w.exited },
            ],
        ),
        worker_step(w, CommandModel::Scroll(lines)) == (
            w,
            seq![
                ActionModel::Scroll(lines),
                ActionModel::Publish { size: w.size, exited: w.exited },
            ],
        ),
        worker_step(w, CommandModel::SelectionPointer(pointer)) == (
            w,
            seq![
                ActionModel::UpdateSelection(pointer),
                ActionModel::Publish { size: w.size, exited: w.exited },
            ],
        ),
{
}

/// A terminal of another size has it everywhere: the grid, the program's terminal and what is
/// shown, the numbers as they are where they fit into sixteen bits.
pub proof fn sizes_agree_everywhere(w: WorkerModel, size: TerminalSize)
    requires
        size.columns < 65536,
        size.lines < 65536,
    ensures
        ({
            let (v, actions) = worker_step(w, CommandModel::Resize(size));
            &&& v == WorkerModel { size, ..w }
            &&& actions.len() == 3
            &&& actions[0] matches ActionModel::ResizeGrid(grid) && grid.columns == size.columns
                && grid.lines == size.lines && grid.cell_width == size.cell_width
                && grid.cell_height == size.cell_height
            &&& actions[1] matches ActionModel::ResizePty(pty) && pty.cols == size.columns
                && pty.rows == size.lines
            &&& actions[2] == (ActionModel::Publish { size, exited: w.exited })
        }),
{
}

/// A program that has ended is waited for, shown as ended and told of, and one that is to end is
/// ended; neither changes the size.
pub proof fn ends_are_carried_out(w: WorkerModel)
    ensures
        ({
            let (v, actions) = worker_step(w, CommandModel::PtyClosed);
            &&& v == WorkerModel { exited: true, ..w }
            &&& actions == seq![
                ActionModel::Reap,
                ActionModel::Publish { size: w.size, exited: true },
                ActionModel::AnnounceExit,
            ]
        }),
        ({
            let (v, actions) = worker_step(w, CommandModel::Shutdown);
            v == WorkerModel { stopped: true, ..w } && actions == seq![ActionModel::Kill]
        }),
{
}

/// A terminal starts the user's shell, or the plain one where they have none, in the directory
/// that was asked for and at the size that was asked for.
pub proof fn shells_start_where_asked(
    cwd: Seq<char>,
    size: TerminalSize,
    shell: Seq<char>,
    version: Seq<char>,
)
    requires
        size.columns < 65536,
        size.lines < 65536,
    ensures
        ({
            let start = start_of(cwd, size, Some(shell), version);
            &&& shell.len() > 0 ==> start.shell == shell
            &&& start.cwd == cwd
            &&& start.grid.columns == size.columns && start.grid.lines == size.lines
            &&& start.pty.cols == size.columns && start.pty.rows == size.lines
            &&& start.environment.contains(("TERM"@, "xterm-256color"@))
            &&& start.environment.contains(("TERM_PROGRAM_VERSION"@, version))
            &&& has_part(start.pty_failure, cwd)
            &&& has_part(start.shell_failure, start.shell)
        }),
        start_of(cwd, size, None, version).shell == "/bin/sh"@,
        start_of(cwd, size, Some(Seq::empty()), version).shell == "/bin/sh"@,
{
    let start = start_of(cwd, size, Some(shell), version);
    let none = Seq::<char>::empty();
    assert("opening host PTY in "@ + cwd + none =~= "opening host PTY in "@ + cwd);
    parts_are_held("opening host PTY in "@, cwd, none);
    assert("starting "@ + start.shell + none =~= "starting "@ + start.shell);
    parts_are_held("starting "@, start.shell, none);
    assert(start.environment[0] == ("TERM"@, "xterm-256color"@));
    assert(start.environment[3] == ("TERM_PROGRAM_VERSION"@, version));
}

/// What the view shows is what the worker told of last: the frame as it came with its title, and
/// whether the program has ended; an error is told with its reason. Nothing else changes it.
pub proof fn views_show_what_was_told(
    v: ViewModel,
    frame: SnapshotModel,
    error: Seq<char>,
    text: Seq<char>,
)
    ensures
        ({
            let r = view_after(v, EventModel::Snapshot(frame));
            &&& r.snapshot == frame
            &&& r.title == frame.title
            &&& r.exited == frame.exited
            &&& r.theme == v.theme
            &&& r.marked_text == v.marked_text
        }),
        view_after(v, EventModel::Exited) == (ViewModel { exited: true, ..v }),
        ({
            let r = view_after(v, EventModel::Error(error));
            r.exited && has_part(r.title, error) && r.snapshot == v.snapshot
        }),
        view_after(v, EventModel::Bell) == v,
        view_after(v, EventModel::ClipboardStore(text)) == v,
{
    let none = Seq::<char>::empty();
    let before = "Terminal error · "@;
    assert(before + error + none =~= before + error);
    parts_are_held(before, error, none);
}

/// What is copied is the text that was selected, and nothing where that is none.
pub proof fn selections_are_copied_whole(bytes: Seq<u8>)
    ensures
        copied(None) is None,
        lossy_text(bytes).len() > 0 ==> copied(Some(bytes)) == Some(lossy_text(bytes)),
        lossy_text(bytes).len() == 0 ==> copied(Some(bytes)) is None,
{
}

/// There is room for all that is pasted.
pub proof fn pastes_have_room(bytes: usize)
    ensures
        paste_room(bytes) >= bytes,
        bytes <= (usize::MAX - 32) / 2 ==> paste_room(bytes) == 2 * bytes + 32,
{
}

} // verus!
