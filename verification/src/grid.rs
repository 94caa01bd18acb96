//! The grid of a terminal as it is painted: the text of each line with its runs, the cells with a
//! background of their own, the cursor, and the text that is being composed.
use vstd::prelude::*;
use vstd::string::*;

use crate::editor;
use crate::editor::{counted, units};
use crate::terminal::{
    default_ink, default_paper, ink, packed, paper, CellModel, SnapshotModel, TerminalCell,
    TerminalCursor, TerminalCursorShape, TerminalSize, TerminalSnapshot,
};
use crate::text;
use crate::text::{has_part, parts_are_held, parts_of_parts};
use crate::theme::{theme_colors, tokens, ThemeKind};
use crate::views::{opt_view, views, views_index, views_push};

verus! {

/// A stretch of text of one colour and style.
#[derive(Clone, Copy, Debug, PartialEq, Eq, Structural)]
pub struct GridRun {
    pub len: usize,
    pub color: u32,
    pub bold: bool,
    pub italic: bool,
    pub underline: bool,
    pub strikeout: bool,
}

/// A cell that is filled before anything is written on it.
#[derive(Clone, Copy, Debug, PartialEq, Eq, Structural)]
pub struct GridFill {
    pub line: usize,
    pub column: usize,
    pub width: usize,
    pub color: u32,
}

/// A line of the grid.
#[derive(Debug, PartialEq, Eq)]
pub struct GridLine {
    pub text: String,
    pub runs: Vec<GridRun>,
}

/// The value of a `GridLine`.
#[verifier::ext_equal]
pub struct GridLineModel {
    pub text: Seq<char>,
    pub runs: Seq<GridRun>,
}

impl View for GridLine {
    type V = GridLineModel;

    open spec fn view(&self) -> GridLineModel {
        GridLineModel { text: self.text@, runs: self.runs@ }
    }
}

/// The position of the cell that is shown on a line and in a column: the last one that stands
/// there.
pub open spec fn shown_at(cells: Seq<CellModel>, line: int, column: int) -> Option<int>
    decreases cells.len(),
{
    if cells.len() == 0 {
        None
    } else if cells.last().line == line && cells.last().column == column {
        Some(cells.len() - 1)
    } else {
        shown_at(cells.drop_last(), line, column)
    }
}

/// The cell that is shown on a line and in a column; an empty one where none stands there.
pub open spec fn cell_at(cells: Seq<CellModel>, line: int, column: int) -> CellModel {
    match shown_at(cells, line, column) {
        Some(i) => cells[i],
        None => CellModel {
            line,
            column,
            text: " "@,
            foreground: ink(),
            background: paper(),
            bold: false,
            italic: false,
            underline: false,
            strikeout: false,
            wide: false,
        },
    }
}

/// How many columns a cell takes.
pub open spec fn cell_width(cell: CellModel) -> int {
    if cell.wide {
        2
    } else {
        1
    }
}

/// The columns of a line at which a cell is painted, from one on: a wide cell covers the next.
pub open spec fn painted_columns(cells: Seq<CellModel>, line: int, columns: int, from: int) -> Seq<int>
    decreases columns - from + 1,
{
    if from >= columns {
        Seq::empty()
    } else {
        seq![from] + painted_columns(
            cells,
            line,
            columns,
            from + cell_width(cell_at(cells, line, from)),
        )
    }
}

/// The run of a cell.
pub open spec fn run_of(cell: CellModel) -> GridRun {
    GridRun {
        len: counted(units(cell.text, false)) as usize,
        color: packed(cell.foreground) as u32,
        bold: cell.bold,
        italic: cell.italic,
        underline: cell.underline,
        strikeout: cell.strikeout,
    }
}

/// The texts of the cells at columns of a line, one after the other.
pub open spec fn text_at(cells: Seq<CellModel>, line: int, at: Seq<int>) -> Seq<char>
    decreases at.len(),
{
    if at.len() == 0 {
        Seq::empty()
    } else {
        text_at(cells, line, at.drop_last()) + cell_at(cells, line, at.last()).text
    }
}

/// The runs of the cells at columns of a line.
pub open spec fn runs_at(cells: Seq<CellModel>, line: int, at: Seq<int>) -> Seq<GridRun> {
    Seq::new(at.len(), |k: int| run_of(cell_at(cells, line, at[k])))
}

/// Where the cells at columns of a line are filled: where their background is not the usual one.
pub open spec fn fills_at(cells: Seq<CellModel>, line: int, at: Seq<int>) -> Seq<GridFill>
    decreases at.len(),
{
    if at.len() == 0 {
        Seq::empty()
    } else {
        let cell = cell_at(cells, line, at.last());
        let before = fills_at(cells, line, at.drop_last());
        if cell.background == paper() {
            before
        } else {
            before.push(
                GridFill {
                    line: line as usize,
                    column: at.last() as usize,
                    width: cell_width(cell) as usize,
                    color: packed(cell.background) as u32,
                },
            )
        }
    }
}

/// A line of the grid.
pub open spec fn painted_line(cells: Seq<CellModel>, line: int, columns: int) -> GridLineModel {
    let at = painted_columns(cells, line, columns, 0);
    GridLineModel { text: text_at(cells, line, at), runs: runs_at(cells, line, at) }
}

/// The fills of the lines before one, line after line.
pub open spec fn painted_fills(cells: Seq<CellModel>, lines: int, columns: int) -> Seq<GridFill>
    decreases lines,
{
    if lines <= 0 {
        Seq::empty()
    } else {
        painted_fills(cells, lines - 1, columns) + fills_at(
            cells,
            lines - 1,
            painted_columns(cells, lines - 1, columns, 0),
        )
    }
}

/// How the cursor is drawn.
#[derive(Clone, Copy, Debug, PartialEq, Eq, Structural)]
pub enum CursorMark {
    /// A stroke under the cell.
    Underline,
    /// A stroke before the cell.
    Bar,
    /// A frame round the cell.
    Outline,
    /// The cell, so that what is written shows through.
    Block,
}

/// How the cursor is drawn, where it is seen.
pub open spec fn mark_of(cursor: TerminalCursor) -> Option<CursorMark> {
    if !cursor.visible {
        None
    } else {
        Some(
            match cursor.shape {
                TerminalCursorShape::Underline => CursorMark::Underline,
                TerminalCursorShape::Bar => CursorMark::Bar,
                TerminalCursorShape::HollowBlock => CursorMark::Outline,
                TerminalCursorShape::Block => CursorMark::Block,
            },
        )
    }
}

/// The text that is being composed, as it is written over the cursor.
#[derive(Debug, PartialEq, Eq)]
pub struct MarkedText {
    pub text: String,
    pub color: u32,
    pub background: u32,
    pub underline: u32,
}

/// The value of a `MarkedText`.
#[verifier::ext_equal]
pub struct MarkedTextModel {
    pub text: Seq<char>,
    pub color: u32,
    pub background: u32,
    pub underline: u32,
}

impl View for MarkedText {
    type V = MarkedTextModel;

    open spec fn view(&self) -> MarkedTextModel {
        MarkedTextModel {
            text: self.text@,
            color: self.color,
            background: self.background,
            underline: self.underline,
        }
    }
}

/// The text that is being composed, where there is any of it.
pub open spec fn marked(text: Option<Seq<char>>, theme: ThemeKind) -> Option<MarkedTextModel> {
    match text {
        Some(text) => if text.len() == 0 {
            None
        } else {
            Some(
                MarkedTextModel {
                    text,
                    color: theme_colors(theme).text,
                    background: theme_colors(theme).overlay,
                    underline: theme_colors(theme).focus_ring,
                },
            )
        },
        None => None,
    }
}

/// All that is painted of a terminal.
#[derive(Debug, PartialEq, Eq)]
pub struct TerminalGrid {
    pub lines: Vec<GridLine>,
    pub backgrounds: Vec<GridFill>,
    pub cursor: Option<CursorMark>,
    pub cursor_color: u32,
    pub marked_text: Option<MarkedText>,
}

/// The value of a `TerminalGrid`.
#[verifier::ext_equal]
pub struct GridModel {
    pub lines: Seq<GridLineModel>,
    pub backgrounds: Seq<GridFill>,
    pub cursor: Option<CursorMark>,
    pub cursor_color: u32,
    pub marked_text: Option<MarkedTextModel>,
}

impl View for TerminalGrid {
    type V = GridModel;

    open spec fn view(&self) -> GridModel {
        GridModel {
            lines: views(self.lines@),
            backgrounds: self.backgrounds@,
            cursor: self.cursor,
            cursor_color: self.cursor_color,
            marked_text: opt_view(self.marked_text),
        }
    }
}

/// All that is painted of what a terminal shows.
pub open spec fn painted(snapshot: SnapshotModel, text: Option<Seq<char>>, theme: ThemeKind) -> GridModel {
    let columns = snapshot.size.columns as int;
    GridModel {
        lines: Seq::new(
            snapshot.size.lines as nat,
            |line: int| painted_line(snapshot.cells, line, columns),
        ),
        backgrounds: painted_fills(snapshot.cells, snapshot.size.lines as int, columns),
        cursor: mark_of(snapshot.cursor),
        cursor_color: theme_colors(theme).text,
        marked_text: marked(text, theme),
    }
}

/// The columns at which cells are painted lie on the line, and no cell is painted into another.
pub proof fn painted_cells_do_not_overlap(cells: Seq<CellModel>, line: int, columns: int, from: int)
    requires
        0 <= from,
    ensures
        ({
            let at = painted_columns(cells, line, columns, from);
            &&& forall|k: int| 0 <= k < at.len() ==> from <= #[trigger] at[k] < columns
            &&& forall|k: int, m: int|
                0 <= k < m < at.len() ==> #[trigger] at[k] + cell_width(
                    cell_at(cells, line, at[k]),
                ) <= #[trigger] at[m]
        }),
    decreases columns - from + 1,
{
    if from < columns {
        let next = from + cell_width(cell_at(cells, line, from));
        painted_cells_do_not_overlap(cells, line, columns, next);
        let rest = painted_columns(cells, line, columns, next);
        let at = painted_columns(cells, line, columns, from);
        assert(at =~= seq![from] + rest);
        assert(forall|k: int| 1 <= k < at.len() ==> #[trigger] at[k] == rest[k - 1]);
    }
}

/// The columns that are painted up to one, and those from there on.
proof fn painted_columns_split(cells: Seq<CellModel>, line: int, columns: int, done: Seq<int>, from: int)
    requires
        0 <= from < columns,
        done + painted_columns(cells, line, columns, from) == painted_columns(cells, line, columns, 0),
    ensures
        done.push(from) + painted_columns(
            cells,
            line,
            columns,
            from + cell_width(cell_at(cells, line, from)),
        ) == painted_columns(cells, line, columns, 0),
{
    let rest = painted_columns(
        cells,
        line,
        columns,
        from + cell_width(cell_at(cells, line, from)),
    );
    assert(done.push(from) + rest =~= done + (seq![from] + rest));
}

/// The positions of the cells that are shown, line by line and column by column.
type Index = Vec<Vec<Option<usize>>>;

spec fn index_is(index: Index, cells: Seq<CellModel>, size: TerminalSize) -> bool {
    &&& index@.len() == size.lines
    &&& forall|l: int| 0 <= l < size.lines ==> (#[trigger] index@[l])@.len() == size.columns
    &&& forall|l: int, c: int|
        0 <= l < size.lines && 0 <= c < size.columns ==> (match #[trigger] index@[l]@[c] {
            Some(i) => shown_at(cells, l, c) == Some(i as int),
            None => shown_at(cells, l, c) is None,
        })
}

proof fn shown_at_in_range(cells: Seq<CellModel>, line: int, column: int)
    ensures
        shown_at(cells, line, column) matches Some(i) ==> 0 <= i < cells.len(),
    decreases cells.len(),
{
    if cells.len() > 0 {
        shown_at_in_range(cells.drop_last(), line, column);
    }
}

fn empty_index(size: TerminalSize) -> (r: Index)
    ensures
        index_is(r, Seq::empty(), size),
{
    let mut index: Index = Vec::new();
    let mut line: usize = 0;
    while line < size.lines
        invariant
            line <= size.lines,
            index@.len() == line,
            forall|l: int| 0 <= l < line ==> (#[trigger] index@[l])@.len() == size.columns,
            forall|l: int, c: int|
                0 <= l < line && 0 <= c < size.columns ==> (#[trigger] index@[l]@[c]) is None,
        decreases size.lines - line,
    {
        let mut row: Vec<Option<usize>> = Vec::new();
        let mut column: usize = 0;
        while column < size.columns
            invariant
                column <= size.columns,
                row@.len() == column,
                forall|c: int| 0 <= c < column ==> (#[trigger] row@[c]) is None,
            decreases size.columns - column,
        {
            row.push(None);
            column = column + 1;
        }
        index.push(row);
        line = line + 1;
    }
    index
}

/// The index of the cells.
fn index_cells(cells: &Vec<TerminalCell>, size: TerminalSize) -> (r: Index)
    ensures
        index_is(r, views(cells@), size),
{
    broadcast use views_index;

    let ghost all = views(cells@);
    let mut index = empty_index(size);
    assert(all.take(0) =~= Seq::<CellModel>::empty());
    let mut k: usize = 0;
    while k < cells.len()
        invariant
            all == views(cells@),
            k <= cells.len(),
            index_is(index, all.take(k as int), size),
        decreases cells.len() - k,
    {
        let line: usize = cells[k].line;
        let column: usize = cells[k].column;
        let ghost before = index;
        assert(all.take(k + 1).drop_last() =~= all.take(k as int));
        assert(all.take(k + 1).last() == all[k as int]);
        if line < size.lines && column < size.columns {
            let row = &mut index[line];
            row.set(column, Some(k));
        }
        assert(index_is(index, all.take(k + 1), size)) by {
            assert forall|l: int, c: int| 0 <= l < size.lines && 0 <= c < size.columns implies (
            match #[trigger] index@[l]@[c] {
                Some(i) => shown_at(all.take(k + 1), l, c) == Some(i as int),
                None => shown_at(all.take(k + 1), l, c) is None,
            }) by {
                if !(l == line && c == column) {
                    assert(index@[l]@[c] == before@[l]@[c]);
                }
            }
        }
        k = k + 1;
    }
    assert(all.take(k as int) =~= all);
    index
}

/// See [`mark_of`].
pub fn cursor_mark(cursor: TerminalCursor) -> (r: Option<CursorMark>)
    ensures
        r == mark_of(cursor),
{
    if !cursor.visible {
        return None;
    }
    Some(
        match cursor.shape {
            TerminalCursorShape::Underline => CursorMark::Underline,
            TerminalCursorShape::Bar => CursorMark::Bar,
            TerminalCursorShape::HollowBlock => CursorMark::Outline,
            TerminalCursorShape::Block => CursorMark::Block,
        },
    )
}

/// See [`marked`].
fn mark_text(text: &Option<String>, theme: ThemeKind) -> (r: Option<MarkedText>)
    ensures
        opt_view(r) == marked(opt_view(*text), theme),
{
    match text {
        Some(text) => {
            if text.as_str().unicode_len() == 0 {
                return None;
            }
            let colors = tokens(theme).colors;
            Some(
                MarkedText {
                    text: text.clone(),
                    color: colors.text,
                    background: colors.overlay,
                    underline: colors.focus_ring,
                },
            )
        },
        None => None,
    }
}

/// The cell at a place of the index; an empty one where there is none.
fn look_up(cells: &Vec<TerminalCell>, at: Option<usize>, line: usize, column: usize) -> (r: TerminalCell)
    requires
        match at {
            Some(i) => shown_at(views(cells@), line as int, column as int) == Some(i as int),
            None => shown_at(views(cells@), line as int, column as int) is None,
        },
    ensures
        r@ == cell_at(views(cells@), line as int, column as int),
{
    broadcast use views_index;

    proof {
        shown_at_in_range(views(cells@), line as int, column as int);
    }
    match at {
        Some(i) => {
            let cell = &cells[i];
            TerminalCell {
                line: cell.line,
                column: cell.column,
                text: cell.text.clone(),
                foreground: cell.foreground,
                background: cell.background,
                bold: cell.bold,
                italic: cell.italic,
                underline: cell.underline,
                strikeout: cell.strikeout,
                wide: cell.wide,
            }
        },
        None => TerminalCell {
            line,
            column,
            text: " ".to_owned(),
            foreground: default_ink(),
            background: default_paper(),
            bold: false,
            italic: false,
            underline: false,
            strikeout: false,
            wide: false,
        },
    }
}

/// See [`run_of`].
fn cell_run(cell: &TerminalCell) -> (r: GridRun)
    ensures
        r == run_of(cell@),
{
    let chars = text::chars(cell.text.as_str());
    assert(chars@.take(chars@.len() as int) =~= chars@);
    GridRun {
        len: editor::units_before(&chars, chars.len(), false),
        color: cell.foreground.rgb(),
        bold: cell.bold,
        italic: cell.italic,
        underline: cell.underline,
        strikeout: cell.strikeout,
    }
}

/// Paints one line: its text and its runs, and beside them its fills.
fn paint_line(
    cells: &Vec<TerminalCell>,
    row: &Vec<Option<usize>>,
    line: usize,
    columns: usize,
    fills: &mut Vec<GridFill>,
) -> (r: GridLine)
    requires
        row@.len() == columns,
        forall|c: int|
            0 <= c < columns ==> (match #[trigger] row@[c] {
                Some(i) => shown_at(views(cells@), line as int, c) == Some(i as int),
                None => shown_at(views(cells@), line as int, c) is None,
            }),
    ensures
        r@ == painted_line(views(cells@), line as int, columns as int),
        final(fills)@ == old(fills)@ + fills_at(
            views(cells@),
            line as int,
            painted_columns(views(cells@), line as int, columns as int, 0),
        ),
{
    let ghost all = views(cells@);
    let ghost at = painted_columns(all, line as int, columns as int, 0);
    let ghost earlier = fills@;
    let ghost mut done: Seq<int> = Seq::empty();
    let mut line_text = String::new();
    let mut runs: Vec<GridRun> = Vec::new();
    let mut column: usize = 0;
    proof {
        reveal_strlit("");
        assert(done + at =~= at);
        assert(line_text@ =~= text_at(all, line as int, done));
        assert(runs@ =~= runs_at(all, line as int, done));
        assert(fills@ =~= earlier + fills_at(all, line as int, done));
    }
    while column < columns
        invariant
            all == views(cells@),
            at == painted_columns(all, line as int, columns as int, 0),
            row@.len() == columns,
            forall|c: int|
                0 <= c < columns ==> (match #[trigger] row@[c] {
                    Some(i) => shown_at(all, line as int, c) == Some(i as int),
                    None => shown_at(all, line as int, c) is None,
                }),
            done + painted_columns(all, line as int, columns as int, column as int) == at,
            line_text@ == text_at(all, line as int, done),
            runs@ == runs_at(all, line as int, done),
            fills@ == earlier + fills_at(all, line as int, done),
        decreases columns - column,
    {
        let cell = look_up(cells, row[column], line, column);
        proof {
            painted_columns_split(all, line as int, columns as int, done, column as int);
        }
        let ghost more = done.push(column as int);
        assert(more.drop_last() =~= done);
        line_text.append(cell.text.as_str());
        runs.push(cell_run(&cell));
        assert(runs@ =~= runs_at(all, line as int, more));
        let width: usize = if cell.wide {
            2
        } else {
            1
        };
        if cell.background != default_paper() {
            fills.push(GridFill { line, column, width, color: cell.background.rgb() });
        }
        assert(fills@ =~= earlier + fills_at(all, line as int, more));
        proof {
            done = more;
        }
        if columns - column <= width {
            assert(painted_columns(all, line as int, columns as int, column + width)
                =~= Seq::<int>::empty());
            assert(painted_columns(all, line as int, columns as int, columns as int)
                =~= Seq::<int>::empty());
            column = columns;
        } else {
            column = column + width;
        }
    }
    assert(done =~= at);
    GridLine { text: line_text, runs }
}

impl TerminalGrid {
    /// See [`painted`].
    pub fn prepaint(snapshot: &TerminalSnapshot, text: &Option<String>, theme: ThemeKind) -> (r: Self)
        ensures
            r@ == painted(snapshot@, opt_view(*text), theme),
    {
        broadcast use views_push;

        let size = snapshot.size;
        let ghost all = views(snapshot.cells@);
        let ghost goal = painted(snapshot@, opt_view(*text), theme);
        let index = index_cells(&snapshot.cells, size);
        let mut lines: Vec<GridLine> = Vec::new();
        let mut backgrounds: Vec<GridFill> = Vec::new();
        let mut line: usize = 0;
        assert(views(lines@) =~= goal.lines.take(0));
        while line < size.lines
            invariant
                size == snapshot.size,
                all == views(snapshot.cells@),
                goal == painted(snapshot@, opt_view(*text), theme),
                index_is(index, all, size),
                line <= size.lines,
                views(lines@) == goal.lines.take(line as int),
                backgrounds@ == painted_fills(all, line as int, size.columns as int),
            decreases size.lines - line,
        {
            let ghost so_far = views(lines@);
            let next = paint_line(
                &snapshot.cells,
                &index[line],
                line,
                size.columns,
                &mut backgrounds,
            );
            lines.push(next);
            assert(views(lines@) == so_far.push(next@));
            assert(goal.lines[line as int] == next@);
            assert(views(lines@) =~= goal.lines.take(line + 1));
            line = line + 1;
        }
        assert(goal.lines.take(line as int) =~= goal.lines);
        TerminalGrid {
            lines,
            backgrounds,
            cursor: cursor_mark(snapshot.cursor),
            cursor_color: tokens(theme).colors.text,
            marked_text: mark_text(text, theme),
        }
    }
}

/// What is painted at a place is the cell that was put there last, and a blank where none was.
pub proof fn the_last_cell_is_painted(cells: Seq<CellModel>, i: int, line: int, column: int)
    ensures
        0 <= i < cells.len() && (forall|k: int|
            i < k < cells.len() ==> !((#[trigger] cells[k]).line == cells[i].line
                && cells[k].column == cells[i].column)) ==> cell_at(
            cells,
            cells[i].line,
            cells[i].column,
        ) == cells[i],
        (forall|k: int|
            0 <= k < cells.len() ==> !((#[trigger] cells[k]).line == line && cells[k].column
                == column)) ==> cell_at(cells, line, column).text == " "@ && cell_at(
            cells,
            line,
            column,
        ).background == paper(),
{
    if 0 <= i < cells.len() && (forall|k: int|
        i < k < cells.len() ==> !((#[trigger] cells[k]).line == cells[i].line && cells[k].column
            == cells[i].column)) {
        last_cell_is_found(cells, i);
    }
    if forall|k: int|
        0 <= k < cells.len() ==> !((#[trigger] cells[k]).line == line && cells[k].column
            == column) {
        no_cell_is_found(cells, line, column);
    }
}

proof fn last_cell_is_found(cells: Seq<CellModel>, i: int)
    requires
        0 <= i < cells.len(),
        forall|k: int|
            i < k < cells.len() ==> !((#[trigger] cells[k]).line == cells[i].line
                && cells[k].column == cells[i].column),
    ensures
        shown_at(cells, cells[i].line, cells[i].column) == Some(i),
    decreases cells.len(),
{
    if i < cells.len() - 1 {
        let n = cells.len() - 1;
        assert(!(cells[n].line == cells[i].line && cells[n].column == cells[i].column));
        let fewer = cells.drop_last();
        assert(fewer[i] == cells[i]);
        assert forall|k: int| i < k < fewer.len() implies !((#[trigger] fewer[k]).line
            == fewer[i].line && fewer[k].column == fewer[i].column) by {
            assert(fewer[k] == cells[k]);
        }
        last_cell_is_found(fewer, i);
    }
}

proof fn no_cell_is_found(cells: Seq<CellModel>, line: int, column: int)
    requires
        forall|k: int|
            0 <= k < cells.len() ==> !((#[trigger] cells[k]).line == line && cells[k].column
                == column),
    ensures
        shown_at(cells, line, column) is None,
    decreases cells.len(),
{
    if cells.len() > 0 {
        let n = cells.len() - 1;
        assert(!(cells[n].line == line && cells[n].column == column));
        let fewer = cells.drop_last();
        assert forall|k: int| 0 <= k < fewer.len() implies !((#[trigger] fewer[k]).line == line
            && fewer[k].column == column) by {
            assert(fewer[k] == cells[k]);
        }
        no_cell_is_found(fewer, line, column);
    }
}

/// Each cell of a line is painted with its own characters, colour and style, in the order of the
/// columns, and its background is filled exactly where it is another than that of the page.
pub proof fn cells_are_painted_as_they_are(cells: Seq<CellModel>, line: int, columns: int, k: int)
    requires
        0 <= k < painted_columns(cells, line, columns, 0).len(),
        0 <= line <= usize::MAX,
        columns <= usize::MAX,
    ensures
        ({
            let column = painted_columns(cells, line, columns, 0)[k];
            let cell = cell_at(cells, line, column);
            let shown = painted_line(cells, line, columns);
            let at = painted_columns(cells, line, columns, 0);
            &&& shown.runs.len() == at.len()
            &&& shown.runs[k].color == packed(cell.foreground)
            &&& shown.runs[k].bold == cell.bold
            &&& shown.runs[k].italic == cell.italic
            &&& shown.runs[k].underline == cell.underline
            &&& shown.runs[k].strikeout == cell.strikeout
            &&& units(cell.text, false) <= usize::MAX ==> shown.runs[k].len == units(
                cell.text,
                false,
            )
            &&& has_part(shown.text, cell.text)
            &&& cell.background != paper() ==> exists|m: int|
                0 <= m < fills_at(cells, line, at).len() && {
                    let fill = #[trigger] fills_at(cells, line, at)[m];
                    &&& fill.line == line
                    &&& fill.column == column
                    &&& fill.width == (if cell.wide {
                        2int
                    } else {
                        1int
                    })
                    &&& fill.color == packed(cell.background)
                }
        }),
{
    let at = painted_columns(cells, line, columns, 0);
    painted_cells_do_not_overlap(cells, line, columns, 0);
    cells_are_in_the_text(cells, line, at, k);
    let cell = cell_at(cells, line, at[k]);
    if cell.background != paper() {
        other_backgrounds_are_filled(cells, line, at, k);
    }
}

proof fn cells_are_in_the_text(cells: Seq<CellModel>, line: int, at: Seq<int>, k: int)
    requires
        0 <= k < at.len(),
    ensures
        has_part(text_at(cells, line, at), cell_at(cells, line, at[k]).text),
    decreases at.len(),
{
    let none = Seq::<char>::empty();
    let fewer = at.drop_last();
    let before = text_at(cells, line, fewer);
    let last = cell_at(cells, line, at.last()).text;
    if k == at.len() - 1 {
        assert(before + last + none =~= before + last);
        parts_are_held(before, last, none);
    } else {
        assert(fewer[k] == at[k]);
        cells_are_in_the_text(cells, line, fewer, k);
        assert(none + before + last =~= before + last);
        parts_are_held(none, before, last);
        parts_of_parts(none, before, last, cell_at(cells, line, at[k]).text);
    }
}

proof fn other_backgrounds_are_filled(cells: Seq<CellModel>, line: int, at: Seq<int>, k: int)
    requires
        0 <= k < at.len(),
        cell_at(cells, line, at[k]).background != paper(),
        0 <= line <= usize::MAX,
        forall|i: int| 0 <= i < at.len() ==> 0 <= #[trigger] at[i] <= usize::MAX,
    ensures
        exists|m: int|
            0 <= m < fills_at(cells, line, at).len() && {
                let fill = #[trigger] fills_at(cells, line, at)[m];
                let cell = cell_at(cells, line, at[k]);
                &&& fill.line == line
                &&& fill.column == at[k]
                &&& fill.width == (if cell.wide {
                    2int
                } else {
                    1int
                })
                &&& fill.color == packed(cell.background)
            },
    decreases at.len(),
{
    let fewer = at.drop_last();
    let fills = fills_at(cells, line, at);
    let before = fills_at(cells, line, fewer);
    let cell = cell_at(cells, line, at[k]);
    if k == at.len() - 1 {
        let fill = fills[fills.len() - 1];
        assert(fill.column == at[k]);
    } else {
        assert forall|i: int| 0 <= i < fewer.len() implies 0 <= #[trigger] fewer[i]
            <= usize::MAX by {
            assert(at[i] <= usize::MAX);
        }
        assert(fewer[k] == at[k]);
        other_backgrounds_are_filled(cells, line, fewer, k);
        let m = choose|m: int|
            0 <= m < before.len() && {
                let fill = #[trigger] before[m];
                &&& fill.line == line
                &&& fill.column == at[k]
                &&& fill.width == (if cell.wide {
                    2int
                } else {
                    1int
                })
                &&& fill.color == packed(cell.background)
            };
        assert(fills[m] == before[m]);
    }
}

/// The grid has the lines of the terminal, the cursor as it is where it is shown, and the text
/// that is being composed, where there is any.
pub proof fn the_whole_terminal_is_painted(
    snapshot: SnapshotModel,
    text: Seq<char>,
    theme: ThemeKind,
    line: int,
)
    requires
        0 <= line < snapshot.size.lines,
    ensures
        ({
            let grid = painted(snapshot, Some(text), theme);
            &&& grid.lines.len() == snapshot.size.lines
            &&& grid.lines[line] == painted_line(
                snapshot.cells,
                line,
                snapshot.size.columns as int,
            )
            &&& grid.cursor is Some <==> snapshot.cursor.visible
            &&& snapshot.cursor.visible ==> match snapshot.cursor.shape {
                TerminalCursorShape::Underline => grid.cursor == Some(CursorMark::Underline),
                TerminalCursorShape::Bar => grid.cursor == Some(CursorMark::Bar),
                TerminalCursorShape::HollowBlock => grid.cursor == Some(CursorMark::Outline),
                TerminalCursorShape::Block => grid.cursor == Some(CursorMark::Block),
            }
            &&& text.len() > 0 ==> (grid.marked_text matches Some(m) && m.text == text)
            &&& text.len() == 0 ==> grid.marked_text is None
            &&& painted(snapshot, None, theme).marked_text is None
        }),
{
}

} // verus!
