//! The changes of a workspace as they are shown, one below the other or side by side, and what
//! can be done with them.
use vstd::prelude::*;
use vstd::string::*;

use crate::app::{AppModel, RodeApp};
use crate::controls::{
    both, button, button_of, tab, tab_of, ButtonStyle, Control, ControlModel, UiAction,
    UiActionModel,
};
use crate::diff::{
    parsed, rows_of, shown_path, split_rows, DiffDocument, DiffFile, DiffHunk, DiffLine,
    DiffLineKind, DiffViewMode, FileModel, HunkModel, LineModel, RowModel, SplitRow,
};
use crate::text;
use crate::text::{begins, decimal, has_part, parts_are_held};
use crate::theme::{theme_colors, tokens, ThemeColors, ThemeKind};
use crate::views::{opt_view, views, views_index, views_push};

verus! {

/// How a line is marked: its two colours, and the sign before it.
pub open spec fn line_style(kind: DiffLineKind, colors: ThemeColors) -> (u32, u32, Seq<char>) {
    match kind {
        DiffLineKind::Context => (colors.root, colors.text, " "@),
        DiffLineKind::Addition => (colors.addition_soft, colors.text, "+"@),
        DiffLineKind::Deletion => (colors.deletion_soft, colors.text, "−"@),
        DiffLineKind::Meta => (colors.panel, colors.muted_text, ""@),
    }
}

/// See [`line_style`].
pub fn diff_line_style(kind: DiffLineKind, theme: ThemeKind) -> (r: (u32, u32, &'static str))
    ensures
        (r.0, r.1, r.2@) == line_style(kind, theme_colors(theme)),
{
    let colors = tokens(theme).colors;
    match kind {
        DiffLineKind::Context => (colors.root, colors.text, " "),
        DiffLineKind::Addition => (colors.addition_soft, colors.text, "+"),
        DiffLineKind::Deletion => (colors.deletion_soft, colors.text, "−"),
        DiffLineKind::Meta => (colors.panel, colors.muted_text, ""),
    }
}

/// The number of a line as it is shown.
pub open spec fn line_number(number: Option<u32>) -> Seq<char> {
    match number {
        Some(number) => decimal(number as nat),
        None => ""@,
    }
}

/// See [`line_number`].
pub fn render_line_number(number: Option<u32>) -> (r: String)
    ensures
        r@ == line_number(number),
{
    match number {
        Some(number) => text::number(number as u64, 10),
        None => "".to_owned(),
    }
}

/// A line of a file, with its numbers there where it has any.
#[derive(Debug, PartialEq, Eq)]
pub struct ShownLine {
    pub background: u32,
    pub foreground: u32,
    pub marker: String,
    /// One number in a column of its own, two where the lines stand one below the other.
    pub numbers: Vec<String>,
    pub text: String,
}

/// The value of a `ShownLine`.
#[verifier::ext_equal]
pub struct ShownLineModel {
    pub background: u32,
    pub foreground: u32,
    pub marker: Seq<char>,
    pub numbers: Seq<Seq<char>>,
    pub text: Seq<char>,
}

impl View for ShownLine {
    type V = ShownLineModel;

    open spec fn view(&self) -> ShownLineModel {
        ShownLineModel {
            background: self.background,
            foreground: self.foreground,
            marker: self.marker@,
            numbers: views(self.numbers@),
            text: self.text@,
        }
    }
}

/// A line among others below each other.
pub open spec fn stack_line(line: LineModel, colors: ThemeColors) -> ShownLineModel {
    let style = line_style(line.kind, colors);
    ShownLineModel {
        background: style.0,
        foreground: style.1,
        marker: style.2,
        numbers: seq![line_number(line.old_line), line_number(line.new_line)],
        text: line.text,
    }
}

/// See [`stack_line`].
pub fn render_stack_line(line: &DiffLine, theme: ThemeKind) -> (r: ShownLine)
    ensures
        r@ == stack_line(line@, theme_colors(theme)),
{
    let (background, foreground, marker) = diff_line_style(line.kind, theme);
    let numbers = vec![render_line_number(line.old_line), render_line_number(line.new_line)];
    assert(views(numbers@) =~= seq![line_number(line.old_line), line_number(line.new_line)]);
    ShownLine {
        background,
        foreground,
        marker: marker.to_owned(),
        numbers,
        text: line.text.clone(),
    }
}

/// A line of one side; an empty one where nothing stands opposite.
pub open spec fn split_cell(line: Option<LineModel>, left: bool, colors: ThemeColors) -> ShownLineModel {
    match line {
        Some(line) => {
            let style = line_style(line.kind, colors);
            ShownLineModel {
                background: style.0,
                foreground: style.1,
                marker: style.2,
                numbers: seq![
                    line_number(
                        if left {
                            line.old_line
                        } else {
                            line.new_line
                        },
                    ),
                ],
                text: line.text,
            }
        },
        None => ShownLineModel {
            background: colors.root,
            foreground: colors.faint_text,
            marker: ""@,
            numbers: seq![""@],
            text: ""@,
        },
    }
}

/// See [`split_cell`].
pub fn render_split_cell(line: &Option<DiffLine>, left: bool, theme: ThemeKind) -> (r: ShownLine)
    ensures
        r@ == split_cell(opt_view(*line), left, theme_colors(theme)),
{
    match line {
        Some(line) => {
            let (background, foreground, marker) = diff_line_style(line.kind, theme);
            let number = if left {
                line.old_line
            } else {
                line.new_line
            };
            let numbers = vec![render_line_number(number)];
            assert(views(numbers@) =~= seq![line_number(number)]);
            ShownLine {
                background,
                foreground,
                marker: marker.to_owned(),
                numbers,
                text: line.text.clone(),
            }
        },
        None => {
            let colors = tokens(theme).colors;
            let numbers = vec!["".to_owned()];
            assert(views(numbers@) =~= seq![""@]);
            ShownLine {
                background: colors.root,
                foreground: colors.faint_text,
                marker: "".to_owned(),
                numbers,
                text: "".to_owned(),
            }
        },
    }
}

/// Two lines side by side.
#[derive(Debug, PartialEq, Eq)]
pub struct ShownPair {
    pub left: ShownLine,
    pub right: ShownLine,
}

/// The value of a `ShownPair`.
#[verifier::ext_equal]
pub struct ShownPairModel {
    pub left: ShownLineModel,
    pub right: ShownLineModel,
}

impl View for ShownPair {
    type V = ShownPairModel;

    open spec fn view(&self) -> ShownPairModel {
        ShownPairModel { left: self.left@, right: self.right@ }
    }
}

/// A part of a file as it is shown.
#[derive(Debug, PartialEq, Eq)]
pub enum DiffBlock {
    /// Lines that did not change, and are not shown.
    Unchanged(String),
    Stack { header: String, lines: Vec<ShownLine> },
    Split { header: String, rows: Vec<ShownPair> },
}

/// The value of a `DiffBlock`.
#[verifier::ext_equal]
pub enum BlockModel {
    Unchanged(Seq<char>),
    Stack { header: Seq<char>, lines: Seq<ShownLineModel> },
    Split { header: Seq<char>, rows: Seq<ShownPairModel> },
}

impl View for DiffBlock {
    type V = BlockModel;

    open spec fn view(&self) -> BlockModel {
        match self {
            DiffBlock::Unchanged(text) => BlockModel::Unchanged(text@),
            DiffBlock::Stack { header, lines } => BlockModel::Stack {
                header: header@,
                lines: views(lines@),
            },
            DiffBlock::Split { header, rows } => BlockModel::Split {
                header: header@,
                rows: views(rows@),
            },
        }
    }
}

/// The band in the place of lines that did not change.
pub open spec fn unchanged_band(count: nat) -> Seq<char> {
    "▾ "@ + decimal(count) + " unchanged lines"@
}

/// See [`unchanged_band`].
pub fn render_unchanged_band(count: u32) -> (r: String)
    ensures
        r@ == unchanged_band(count as nat),
{
    let number = text::number(count as u64, 10);
    text::concat3("▾ ", number.as_str(), " unchanged lines")
}

pub open spec fn stack_lines(lines: Seq<LineModel>, colors: ThemeColors) -> Seq<ShownLineModel> {
    lines.map_values(|line: LineModel| stack_line(line, colors))
}

pub open spec fn split_pairs(rows: Seq<RowModel>, colors: ThemeColors) -> Seq<ShownPairModel> {
    rows.map_values(
        |row: RowModel|
            ShownPairModel {
                left: split_cell(row.left, true, colors),
                right: split_cell(row.right, false, colors),
            },
    )
}

/// A hunk as it is shown.
pub open spec fn hunk_block(hunk: HunkModel, mode: DiffViewMode, colors: ThemeColors) -> BlockModel {
    match mode {
        DiffViewMode::Stack => BlockModel::Stack {
            header: hunk.header,
            lines: stack_lines(hunk.lines, colors),
        },
        DiffViewMode::Split => BlockModel::Split {
            header: hunk.header,
            rows: split_pairs(rows_of(hunk.lines), colors),
        },
    }
}

/// See [`hunk_block`].
pub fn render_stack_hunk(hunk: &DiffHunk, theme: ThemeKind) -> (r: DiffBlock)
    ensures
        r@ == hunk_block(hunk@, DiffViewMode::Stack, theme_colors(theme)),
{
    broadcast use {views_push, views_index};

    let ghost all = stack_lines(hunk@.lines, theme_colors(theme));
    let mut lines: Vec<ShownLine> = Vec::new();
    let mut i: usize = 0;
    assert(views(lines@) =~= all.take(0));
    while i < hunk.lines.len()
        invariant
            all == stack_lines(hunk@.lines, theme_colors(theme)),
            i <= hunk.lines.len(),
            views(lines@) == all.take(i as int),
        decreases hunk.lines.len() - i,
    {
        let ghost so_far = views(lines@);
        let line = render_stack_line(&hunk.lines[i], theme);
        lines.push(line);
        assert(views(lines@) == so_far.push(line@));
        assert(views(lines@) =~= all.take(i + 1));
        i = i + 1;
    }
    assert(all.take(i as int) =~= all);
    DiffBlock::Stack { header: hunk.header.clone(), lines }
}

/// See [`hunk_block`].
pub fn render_split_hunk(hunk: &DiffHunk, theme: ThemeKind) -> (r: DiffBlock)
    ensures
        r@ == hunk_block(hunk@, DiffViewMode::Split, theme_colors(theme)),
{
    broadcast use {views_push, views_index};

    let sides = split_rows(hunk);
    let ghost all = split_pairs(rows_of(hunk@.lines), theme_colors(theme));
    let mut rows: Vec<ShownPair> = Vec::new();
    let mut i: usize = 0;
    assert(views(rows@) =~= all.take(0));
    while i < sides.len()
        invariant
            views(sides@) == rows_of(hunk@.lines),
            all == split_pairs(rows_of(hunk@.lines), theme_colors(theme)),
            i <= sides.len(),
            views(rows@) == all.take(i as int),
        decreases sides.len() - i,
    {
        let ghost so_far = views(rows@);
        let row: &SplitRow = &sides[i];
        let pair = ShownPair {
            left: render_split_cell(&row.left, true, theme),
            right: render_split_cell(&row.right, false, theme),
        };
        rows.push(pair);
        assert(views(rows@) == so_far.push(pair@));
        assert(views(sides@)[i as int] == row@);
        assert(views(rows@) =~= all.take(i + 1));
        i = i + 1;
    }
    assert(all.take(i as int) =~= all);
    DiffBlock::Split { header: hunk.header.clone(), rows }
}

/// The line of the old file after a hunk.
pub open spec fn hunk_end(hunk: HunkModel) -> int {
    if hunk.old_start + hunk.old_count > u32::MAX {
        u32::MAX as int
    } else {
        hunk.old_start + hunk.old_count
    }
}

/// How many lines of the old file stand before the last hunk and after the one before it.
pub open spec fn hidden_before(hunks: Seq<HunkModel>) -> int {
    let from = if hunks.len() < 2 {
        1
    } else {
        hunk_end(hunks[hunks.len() - 2])
    };
    if hunks.last().old_start > from {
        hunks.last().old_start - from
    } else {
        0
    }
}

/// The hunks of a file as they are shown, with what lies between them.
pub open spec fn blocks_of(hunks: Seq<HunkModel>, mode: DiffViewMode, colors: ThemeColors) -> Seq<BlockModel>
    decreases hunks.len(),
{
    if hunks.len() == 0 {
        Seq::empty()
    } else {
        let before = blocks_of(hunks.drop_last(), mode, colors);
        let hidden = hidden_before(hunks);
        let so_far = if hidden > 0 {
            before.push(BlockModel::Unchanged(unchanged_band(hidden as nat)))
        } else {
            before
        };
        so_far.push(hunk_block(hunks.last(), mode, colors))
    }
}

/// See [`blocks_of`].
fn render_blocks(hunks: &Vec<DiffHunk>, mode: DiffViewMode, theme: ThemeKind) -> (r: Vec<DiffBlock>)
    ensures
        views(r@) == blocks_of(views(hunks@), mode, theme_colors(theme)),
{
    broadcast use {views_push, views_index};

    let ghost all = views(hunks@);
    let ghost colors = theme_colors(theme);
    let mut r: Vec<DiffBlock> = Vec::new();
    let mut previous_old_end: u32 = 1;
    let mut i: usize = 0;
    assert(views(r@) =~= blocks_of(all.take(0), mode, colors));
    while i < hunks.len()
        invariant
            all == views(hunks@),
            colors == theme_colors(theme),
            i <= hunks.len(),
            previous_old_end == (if i == 0 {
                1
            } else {
                hunk_end(all[i - 1])
            }),
            views(r@) == blocks_of(all.take(i as int), mode, colors),
        decreases hunks.len() - i,
    {
        let hunk = &hunks[i];
        assert(all.take(i + 1).drop_last() =~= all.take(i as int));
        assert(all.take(i + 1).last() == hunk@);
        assert(i > 0 ==> all.take(i + 1)[i - 1] == all[i - 1]);
        let hidden: u32 = hunk.old_start.saturating_sub(previous_old_end);
        assert(hidden == hidden_before(all.take(i + 1)));
        if hidden > 0 {
            let ghost so_far = views(r@);
            let band = DiffBlock::Unchanged(render_unchanged_band(hidden));
            r.push(band);
            assert(views(r@) == so_far.push(band@));
        }
        let ghost so_far = views(r@);
        let block = match mode {
            DiffViewMode::Stack => render_stack_hunk(hunk, theme),
            DiffViewMode::Split => render_split_hunk(hunk, theme),
        };
        r.push(block);
        assert(views(r@) == so_far.push(block@));
        previous_old_end = hunk.old_start.saturating_add(hunk.old_count);
        i = i + 1;
    }
    assert(all.take(i as int) =~= all);
    r
}

/// A file of the changes as it is shown.
#[derive(Debug, PartialEq, Eq)]
pub struct DiffFileView {
    pub path: String,
    pub status: Option<String>,
    pub additions: String,
    pub deletions: String,
    /// What the two sides are, where they stand beside each other.
    pub sides: Option<(String, String)>,
    pub blocks: Vec<DiffBlock>,
    /// What is said where there is nothing to show.
    pub note: Option<String>,
}

/// The value of a `DiffFileView`.
#[verifier::ext_equal]
pub struct DiffFileModel {
    pub path: Seq<char>,
    pub status: Option<Seq<char>>,
    pub additions: Seq<char>,
    pub deletions: Seq<char>,
    pub sides: Option<(Seq<char>, Seq<char>)>,
    pub blocks: Seq<BlockModel>,
    pub note: Option<Seq<char>>,
}

impl View for DiffFileView {
    type V = DiffFileModel;

    open spec fn view(&self) -> DiffFileModel {
        DiffFileModel {
            path: self.path@,
            status: opt_view(self.status),
            additions: self.additions@,
            deletions: self.deletions@,
            sides: match self.sides {
                Some((old, new)) => Some((old@, new@)),
                None => None,
            },
            blocks: views(self.blocks@),
            note: opt_view(self.note),
        }
    }
}

/// A file of the changes as it is shown.
pub open spec fn file_view(file: FileModel, mode: DiffViewMode, colors: ThemeColors) -> DiffFileModel {
    DiffFileModel {
        path: shown_path(file),
        status: file.status,
        additions: "+"@ + decimal(file.additions),
        deletions: "−"@ + decimal(file.deletions),
        sides: if mode == DiffViewMode::Split && file.hunks.len() > 0 {
            Some(("Original · "@ + file.old_path, "Modified · "@ + file.new_path))
        } else {
            None
        },
        blocks: blocks_of(file.hunks, mode, colors),
        note: if file.hunks.len() > 0 {
            None
        } else if file.binary {
            Some("Binary file changed"@)
        } else {
            Some("No textual hunks"@)
        },
    }
}

/// See [`file_view`].
pub fn render_diff_file(file: &DiffFile, mode: DiffViewMode, theme: ThemeKind) -> (r: DiffFileView)
    ensures
        r@ == file_view(file@, mode, theme_colors(theme)),
{
    let additions = text::number(file.additions as u64, 10);
    let deletions = text::number(file.deletions as u64, 10);
    DiffFileView {
        path: file.display_path().to_owned(),
        status: text::copy_opt(&file.status),
        additions: text::concat("+", additions.as_str()),
        deletions: text::concat("−", deletions.as_str()),
        sides: if mode == DiffViewMode::Split && file.hunks.len() > 0 {
            Some(
                (
                    text::concat("Original · ", file.old_path.as_str()),
                    text::concat("Modified · ", file.new_path.as_str()),
                ),
            )
        } else {
            None
        },
        blocks: render_blocks(&file.hunks, mode, theme),
        note: if file.hunks.len() > 0 {
            None
        } else if file.binary {
            Some("Binary file changed".to_owned())
        } else {
            Some("No textual hunks".to_owned())
        },
    }
}

/// What can be done with the changes.
#[derive(Debug, PartialEq, Eq)]
pub struct PublishPanel {
    pub buttons: Vec<Control>,
    pub operation: Option<String>,
    pub status: Option<String>,
    pub status_color: u32,
}

/// The value of a `PublishPanel`.
#[verifier::ext_equal]
pub struct PublishPanelModel {
    pub buttons: Seq<ControlModel>,
    pub operation: Option<Seq<char>>,
    pub status: Option<Seq<char>>,
    pub status_color: u32,
}

impl View for PublishPanel {
    type V = PublishPanelModel;

    open spec fn view(&self) -> PublishPanelModel {
        PublishPanelModel {
            buttons: views(self.buttons@),
            operation: opt_view(self.operation),
            status: opt_view(self.status),
            status_color: self.status_color,
        }
    }
}

/// A button for something to be done with the changes.
pub open spec fn publish_button_of(label: Seq<char>, busy: bool, theme: ThemeKind, action: UiActionModel) -> ControlModel {
    button_of(label, ButtonStyle::Primary, busy, theme, action)
}

/// See [`publish_button_of`].
pub fn publish_button(label: &str, busy: bool, theme: ThemeKind, action: UiAction) -> (r: Control)
    ensures
        r@ == publish_button_of(label@, busy, theme, action@),
{
    button(label, ButtonStyle::Primary, busy, theme, action)
}

/// What can be done with the changes, while nothing is under way, and how the last of it ended.
pub open spec fn publish_panel(a: AppModel) -> PublishPanelModel {
    let theme = a.surface.theme;
    let colors = theme_colors(theme);
    let busy = a.publishing.operation is Some;
    PublishPanelModel {
        buttons: seq![
            publish_button_of("Commit all"@, busy, theme, UiActionModel::CommitAll),
            publish_button_of("Push"@, busy, theme, UiActionModel::Push),
            publish_button_of("Create PR"@, busy, theme, UiActionModel::CreatePr),
        ],
        operation: match a.publishing.operation {
            Some(operation) => Some(operation + "…"@),
            None => None,
        },
        status: a.publishing.status,
        status_color: match a.publishing.status {
            Some(status) => if begins(status, "Git workflow failed"@) {
                colors.error
            } else {
                colors.success
            },
            None => colors.success,
        },
    }
}

/// The panel with the changes.
#[derive(Debug, PartialEq, Eq)]
pub struct DiffPanel {
    pub count: String,
    pub modes: Vec<Control>,
    pub stat: String,
    pub publish: PublishPanel,
    pub files: Vec<DiffFileView>,
    /// What is said where nothing changed.
    pub empty: Option<String>,
}

/// The value of a `DiffPanel`.
#[verifier::ext_equal]
pub struct DiffPanelModel {
    pub count: Seq<char>,
    pub modes: Seq<ControlModel>,
    pub stat: Seq<char>,
    pub publish: PublishPanelModel,
    pub files: Seq<DiffFileModel>,
    pub empty: Option<Seq<char>>,
}

impl View for DiffPanel {
    type V = DiffPanelModel;

    open spec fn view(&self) -> DiffPanelModel {
        DiffPanelModel {
            count: self.count@,
            modes: views(self.modes@),
            stat: self.stat@,
            publish: self.publish@,
            files: views(self.files@),
            empty: opt_view(self.empty),
        }
    }
}

pub open spec fn file_views(files: Seq<FileModel>, mode: DiffViewMode, colors: ThemeColors) -> Seq<
    DiffFileModel,
> {
    files.map_values(|file: FileModel| file_view(file, mode, colors))
}

/// The panel with the changes.
pub open spec fn diff_panel(a: AppModel) -> DiffPanelModel {
    let theme = a.surface.theme;
    let mode = a.surface.diff_view;
    let files = parsed(a.project.repo.diff);
    DiffPanelModel {
        count: decimal(a.project.repo.changed_files) + " files"@,
        modes: seq![
            tab_of(
                "Stack"@,
                mode == DiffViewMode::Stack,
                theme,
                UiActionModel::ShowDiff(DiffViewMode::Stack),
            ),
            tab_of(
                "Split"@,
                mode == DiffViewMode::Split,
                theme,
                UiActionModel::ShowDiff(DiffViewMode::Split),
            ),
        ],
        stat: a.project.repo.diff_stat,
        publish: publish_panel(a),
        files: file_views(files, mode, theme_colors(theme)),
        empty: if files.len() == 0 {
            Some("No uncommitted diff"@)
        } else {
            None
        },
    }
}

impl RodeApp {
    /// See [`publish_panel`].
    pub fn render_publish_controls(&self) -> (r: PublishPanel)
        ensures
            r@ == publish_panel(self@),
    {
        let theme = self.surface.theme;
        let colors = tokens(theme).colors;
        let busy = self.publishing.operation.is_some();
        let buttons = vec![
            publish_button("Commit all", busy, theme, UiAction::CommitAll),
            publish_button("Push", busy, theme, UiAction::Push),
            publish_button("Create PR", busy, theme, UiAction::CreatePr),
        ];
        assert(views(buttons@) =~= publish_panel(self@).buttons);
        let failed = match &self.publishing.status {
            Some(status) => text::starts_with(status.as_str(), "Git workflow failed"),
            None => false,
        };
        PublishPanel {
            buttons,
            operation: match &self.publishing.operation {
                Some(operation) => Some(text::concat(operation.as_str(), "…")),
                None => None,
            },
            status: text::copy_opt(&self.publishing.status),
            status_color: if failed {
                colors.error
            } else {
                colors.success
            },
        }
    }

    /// A tab for one way to show the changes.
    pub fn render_diff_mode_button(&self, label: &str, mode: DiffViewMode) -> (r: Control)
        ensures
            r@ == tab_of(
                label@,
                self@.surface.diff_view == mode,
                self@.surface.theme,
                UiActionModel::ShowDiff(mode),
            ),
    {
        tab(label, self.surface.diff_view == mode, self.surface.theme, UiAction::ShowDiff(mode))
    }

    /// See [`diff_panel`].
    pub fn render_diff(&self) -> (r: DiffPanel)
        ensures
            r@ == diff_panel(self@),
    {
        broadcast use {views_push, views_index};

        let theme = self.surface.theme;
        let mode = self.surface.diff_view;
        let document = DiffDocument::parse(self.project.repo.diff.as_str());
        let ghost all = file_views(parsed(self@.project.repo.diff), mode, theme_colors(theme));
        let mut files: Vec<DiffFileView> = Vec::new();
        let mut i: usize = 0;
        assert(views(files@) =~= all.take(0));
        while i < document.files.len()
            invariant
                views(document.files@) == parsed(self@.project.repo.diff),
                all == file_views(parsed(self@.project.repo.diff), mode, theme_colors(theme)),
                i <= document.files.len(),
                views(files@) == all.take(i as int),
            decreases document.files.len() - i,
        {
            let ghost so_far = views(files@);
            let file = render_diff_file(&document.files[i], mode, theme);
            files.push(file);
            assert(views(files@) == so_far.push(file@));
            assert(views(document.files@)[i as int] == document.files@[i as int]@);
            assert(views(files@) =~= all.take(i + 1));
            i = i + 1;
        }
        assert(all.take(i as int) =~= all);
        let changed = text::number(self.project.repo.changed_files as u64, 10);
        DiffPanel {
            count: text::concat(changed.as_str(), " files"),
            modes: both(
                self.render_diff_mode_button("Stack", DiffViewMode::Stack),
                self.render_diff_mode_button("Split", DiffViewMode::Split),
            ),
            stat: self.project.repo.diff_stat.clone(),
            publish: self.render_publish_controls(),
            files,
            empty: if document.files.len() == 0 {
                Some("No uncommitted diff".to_owned())
            } else {
                None
            },
        }
    }
}

/// Every line of a hunk shows where the lines stand one below the other, in order.
pub proof fn stacked_lines_all_show(hunk: HunkModel, colors: ThemeColors, i: int)
    requires
        0 <= i < hunk.lines.len(),
    ensures
        hunk_block(hunk, DiffViewMode::Stack, colors) matches BlockModel::Stack { lines, .. }
            && lines.len() == hunk.lines.len() && lines[i].text == hunk.lines[i].text,
{
}

/// How many hunks are shown in blocks.
pub open spec fn shown_hunks(blocks: Seq<BlockModel>) -> nat
    decreases blocks.len(),
{
    if blocks.len() == 0 {
        0
    } else {
        shown_hunks(blocks.drop_last()) + (if blocks.last() is Unchanged {
            0nat
        } else {
            1nat
        })
    }
}

/// Each hunk of a file is shown once, in both ways; what is left out between them changes nothing
/// of that.
pub proof fn every_hunk_is_shown(hunks: Seq<HunkModel>, mode: DiffViewMode, colors: ThemeColors)
    ensures
        shown_hunks(blocks_of(hunks, mode, colors)) == hunks.len(),
    decreases hunks.len(),
{
    if hunks.len() > 0 {
        every_hunk_is_shown(hunks.drop_last(), mode, colors);
        let before = blocks_of(hunks.drop_last(), mode, colors);
        let all = blocks_of(hunks, mode, colors);
        let hidden = hidden_before(hunks);
        let so_far = if hidden > 0 {
            before.push(BlockModel::Unchanged(unchanged_band(hidden as nat)))
        } else {
            before
        };
        assert(all == so_far.push(hunk_block(hunks.last(), mode, colors)));
        assert(all.drop_last() =~= so_far);
        assert(!(all.last() is Unchanged));
        if hidden > 0 {
            assert(so_far.drop_last() =~= before);
            assert(so_far.last() is Unchanged);
            assert(shown_hunks(so_far) == shown_hunks(before));
        }
        assert(shown_hunks(all) == shown_hunks(so_far) + 1);
    }
}

/// The panel shows every file of the repository's diff, in its order, and says so where there is
/// none; it offers both ways to show it, and marks the one that is shown.
pub proof fn every_changed_file_is_shown(a: AppModel, i: int)
    ensures
        ({
            let panel = diff_panel(a);
            let files = parsed(a.project.repo.diff);
            &&& panel.files.len() == files.len()
            &&& panel.empty is Some <==> files.len() == 0
            &&& panel.stat == a.project.repo.diff_stat
            &&& has_part(panel.count, decimal(a.project.repo.changed_files))
            &&& 0 <= i < files.len() ==> {
                let shown = panel.files[i];
                &&& shown.path == shown_path(files[i])
                &&& shown.status == files[i].status
                &&& has_part(shown.additions, decimal(files[i].additions))
                &&& has_part(shown.deletions, decimal(files[i].deletions))
                &&& shown_hunks(shown.blocks) == files[i].hunks.len()
                &&& shown.note is Some <==> files[i].hunks.len() == 0
                &&& a.surface.diff_view == DiffViewMode::Split && files[i].hunks.len() > 0 ==> (
                shown.sides matches Some((old, new)) && has_part(old, files[i].old_path)
                    && has_part(new, files[i].new_path))
            }
            &&& panel.modes.len() == 2
            &&& panel.modes[0].action == UiActionModel::ShowDiff(DiffViewMode::Stack)
            &&& panel.modes[1].action == UiActionModel::ShowDiff(DiffViewMode::Split)
        }),
{
    let none = Seq::<char>::empty();
    let files = parsed(a.project.repo.diff);
    let count = decimal(a.project.repo.changed_files);
    assert(none + count + " files"@ =~= count + " files"@);
    parts_are_held(none, count, " files"@);
    if 0 <= i < files.len() {
        let f = files[i];
        every_hunk_is_shown(f.hunks, a.surface.diff_view, theme_colors(a.surface.theme));
        assert("+"@ + decimal(f.additions) + none =~= "+"@ + decimal(f.additions));
        parts_are_held("+"@, decimal(f.additions), none);
        assert("−"@ + decimal(f.deletions) + none =~= "−"@ + decimal(f.deletions));
        parts_are_held("−"@, decimal(f.deletions), none);
        assert("Original · "@ + f.old_path + none =~= "Original · "@ + f.old_path);
        parts_are_held("Original · "@, f.old_path, none);
        assert("Modified · "@ + f.new_path + none =~= "Modified · "@ + f.new_path);
        parts_are_held("Modified · "@, f.new_path, none);
    }
}

/// A line is shown with its words, with the number that it has on each side, and marked as what it
/// is; no two kinds of line are marked alike.
pub proof fn lines_are_shown_as_what_they_are(line: LineModel, colors: ThemeColors, n: u32)
    ensures
        ({
            let shown = stack_line(line, colors);
            &&& shown.text == line.text
            &&& shown.numbers.len() == 2
            &&& line.old_line == Some(n) ==> shown.numbers[0] == decimal(n as nat)
            &&& line.new_line == Some(n) ==> shown.numbers[1] == decimal(n as nat)
            &&& line.old_line is None ==> shown.numbers[0].len() == 0
            &&& line.new_line is None ==> shown.numbers[1].len() == 0
            &&& line.kind == DiffLineKind::Addition <==> shown.marker == "+"@
            &&& line.kind == DiffLineKind::Deletion <==> shown.marker == "−"@
            &&& line.kind == DiffLineKind::Context <==> shown.marker == " "@
        }),
        ({
            let (left, right) = (
                split_cell(Some(line), true, colors),
                split_cell(Some(line), false, colors),
            );
            &&& left.text == line.text && right.text == line.text
            &&& left.numbers.len() == 1 && right.numbers.len() == 1
            &&& line.old_line == Some(n) ==> left.numbers[0] == decimal(n as nat)
            &&& line.new_line == Some(n) ==> right.numbers[0] == decimal(n as nat)
            &&& left.marker == stack_line(line, colors).marker
            &&& right.marker == left.marker
        }),
        split_cell(None, true, colors).text.len() == 0,
{
    reveal_strlit("");
    reveal_strlit("+");
    reveal_strlit("−");
    reveal_strlit(" ");
    assert("+"@[0] == '+' && "−"@[0] == '−' && " "@[0] == ' ');
    assert(""@.len() == 0 && "+"@.len() == 1 && "−"@.len() == 1 && " "@.len() == 1);
}

/// The lines that are left out before a hunk are counted: from the end of the hunk before it, or
/// from the first line, up to its start; where none is left out nothing is said.
pub proof fn left_out_lines_are_counted(
    before: HunkModel,
    hunk: HunkModel,
    mode: DiffViewMode,
    colors: ThemeColors,
)
    requires
        before.old_start + before.old_count <= u32::MAX,
    ensures
        hunk.old_start > before.old_start + before.old_count ==> hidden_before(seq![before, hunk])
            == hunk.old_start - (before.old_start + before.old_count),
        hunk.old_start <= before.old_start + before.old_count ==> hidden_before(
            seq![before, hunk],
        ) == 0,
        hunk.old_start >= 1 ==> hidden_before(seq![hunk]) == hunk.old_start - 1,
        hunk.old_start > 1 ==> blocks_of(seq![hunk], mode, colors).len() == 2 && (blocks_of(
            seq![hunk],
            mode,
            colors,
        )[0] matches BlockModel::Unchanged(said) && has_part(
            said,
            decimal((hunk.old_start - 1) as nat),
        )),
        hunk.old_start <= 1 ==> blocks_of(seq![hunk], mode, colors).len() == 1,
{
    let one = seq![hunk];
    assert(one.drop_last() =~= Seq::<HunkModel>::empty());
    reveal_with_fuel(blocks_of, 2);
    if hunk.old_start > 1 {
        parts_are_held("▾ "@, decimal((hunk.old_start - 1) as nat), " unchanged lines"@);
    }
}

/// What can be done with the changes is offered while nothing is done with them, and how the last
/// of it ended is shown as it was reported, a failure in another colour than a success.
pub proof fn publishing_is_offered_when_idle(a: AppModel, status: Seq<char>)
    ensures
        ({
            let panel = publish_panel(a);
            &&& panel.buttons.len() == 3
            &&& panel.buttons[0].action is CommitAll
            &&& panel.buttons[1].action is Push
            &&& panel.buttons[2].action is CreatePr
            &&& forall|k: int|
                0 <= k < 3 ==> ((#[trigger] panel.buttons[k]).enabled
                    <==> a.publishing.operation is None)
            &&& panel.operation is Some <==> a.publishing.operation is Some
            &&& panel.status == a.publishing.status
            &&& a.publishing.status == Some(status) && begins(status, "Git workflow failed"@)
                ==> panel.status_color == theme_colors(a.surface.theme).error
            &&& a.publishing.status == Some(status) && !begins(status, "Git workflow failed"@)
                ==> panel.status_color == theme_colors(a.surface.theme).success
        }),
{
}

} // verus!
