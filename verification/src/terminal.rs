//! Terminals: their size, their cells, and what is shown of what the emulator holds.
use vstd::prelude::*;
use vstd::string::*;

use crate::views::{opt_view, views, views_index, views_push};

verus! {

/// How many columns and lines a terminal has, and how many pixels a cell.
#[derive(Clone, Copy, Debug, PartialEq, Eq, Structural)]
pub struct TerminalSize {
    pub columns: usize,
    pub lines: usize,
    pub cell_width: u16,
    pub cell_height: u16,
}

/// The size of a pseudo terminal, in cells and in pixels.
#[derive(Clone, Copy, Debug, PartialEq, Eq, Structural)]
pub struct PtyDimensions {
    pub rows: u16,
    pub cols: u16,
    pub pixel_width: u16,
    pub pixel_height: u16,
}

pub open spec fn at_least(n: int, least: int) -> int {
    if n < least {
        least
    } else {
        n
    }
}

/// A number, or the largest that sixteen bits hold.
pub open spec fn capped(n: int) -> u16 {
    if n > 65535 {
        65535u16
    } else {
        n as u16
    }
}

/// See [`capped`].
fn cap(n: usize) -> (r: u16)
    ensures
        r == capped(n as int),
{
    if n > 65535 {
        65535
    } else {
        n as u16
    }
}

/// The size in which nothing is too small to be shown.
pub open spec fn safe_size(columns: usize, lines: usize, cell_width: u16, cell_height: u16) -> TerminalSize {
    TerminalSize {
        columns: at_least(columns as int, 2) as usize,
        lines: at_least(lines as int, 1) as usize,
        cell_width: at_least(cell_width as int, 1) as u16,
        cell_height: at_least(cell_height as int, 1) as u16,
    }
}

/// The size of the pseudo terminal behind a terminal.
pub open spec fn pty_of(size: TerminalSize) -> PtyDimensions {
    PtyDimensions {
        rows: capped(size.lines as int),
        cols: capped(size.columns as int),
        pixel_width: capped(size.columns * size.cell_width),
        pixel_height: capped(size.lines * size.cell_height),
    }
}

/// The product of two numbers, or the largest number that sixteen bits hold.
fn capped_product(n: usize, each: u16) -> (r: u16)
    ensures
        r == capped(n * each),
{
    if each == 0 {
        assert(n * each == 0) by (nonlinear_arith)
            requires
                each == 0,
        ;
        return 0;
    }
    if n > 65535 {
        assert(n * each > 65535) by (nonlinear_arith)
            requires
                n > 65535,
                each >= 1,
        ;
        return 65535;
    }
    assert(0 <= n * each <= 65535 * 65535) by (nonlinear_arith)
        requires
            0 <= n <= 65535,
            0 <= each <= 65535,
    ;
    let product: u64 = (n as u64) * (each as u64);
    if product > 65535 {
        65535
    } else {
        product as u16
    }
}

impl TerminalSize {
    pub fn new(columns: usize, lines: usize, cell_width: u16, cell_height: u16) -> (r: Self)
        ensures
            r == safe_size(columns, lines, cell_width, cell_height),
    {
        TerminalSize {
            columns: if columns < 2 {
                2
            } else {
                columns
            },
            lines: if lines < 1 {
                1
            } else {
                lines
            },
            cell_width: if cell_width < 1 {
                1
            } else {
                cell_width
            },
            cell_height: if cell_height < 1 {
                1
            } else {
                cell_height
            },
        }
    }

    pub fn pty_size(self) -> (r: PtyDimensions)
        ensures
            r == pty_of(self),
    {
        PtyDimensions {
            rows: cap(self.lines),
            cols: cap(self.columns),
            pixel_width: capped_product(self.columns, self.cell_width),
            pixel_height: capped_product(self.lines, self.cell_height),
        }
    }
}

impl Default for TerminalSize {
    /// Eighty columns and twenty-four lines.
    fn default() -> (r: Self)
        ensures
            r == (TerminalSize { columns: 80, lines: 24, cell_width: 8, cell_height: 18 }),
    {
        TerminalSize::new(80, 24, 8, 18)
    }
}

/// No side of a pseudo terminal is empty.
pub proof fn pseudo_terminals_are_never_empty(columns: usize, lines: usize, cell_width: u16, cell_height: u16)
    ensures
        ({
            let p = pty_of(safe_size(columns, lines, cell_width, cell_height));
            p.rows >= 1 && p.cols >= 2 && p.pixel_width >= 2 && p.pixel_height >= 1
        }),
{
    let s = safe_size(columns, lines, cell_width, cell_height);
    assert(s.columns * s.cell_width >= 2) by (nonlinear_arith)
        requires
            s.columns >= 2,
            s.cell_width >= 1,
    ;
    assert(s.lines * s.cell_height >= 1) by (nonlinear_arith)
        requires
            s.lines >= 1,
            s.cell_height >= 1,
    ;
}

#[derive(Clone, Copy, Debug, PartialEq, Eq, Structural)]
pub struct TerminalColor {
    pub red: u8,
    pub green: u8,
    pub blue: u8,
}

/// The colour as one number: eight bits of red, of green and of blue.
pub open spec fn packed(color: TerminalColor) -> int {
    color.red * 65536 + color.green * 256 + color.blue
}

impl TerminalColor {
    /// See [`packed`].
    pub fn rgb(self) -> (r: u32)
        ensures
            r == packed(self),
    {
        (self.red as u32) * 65536 + (self.green as u32) * 256 + (self.blue as u32)
    }
}

/// Two colours with the same number are the same.
pub proof fn packed_colors_are_told_apart(a: TerminalColor, b: TerminalColor)
    requires
        packed(a) == packed(b),
    ensures
        a == b,
{
}

/// What is written where nothing else is asked for.
pub open spec fn ink() -> TerminalColor {
    TerminalColor { red: 216, green: 219, blue: 226 }
}

/// What it is written on.
pub open spec fn paper() -> TerminalColor {
    TerminalColor { red: 15, green: 17, blue: 21 }
}

/// See [`ink`].
pub fn default_ink() -> (r: TerminalColor)
    ensures
        r == ink(),
{
    TerminalColor { red: 216, green: 219, blue: 226 }
}

/// See [`paper`].
pub fn default_paper() -> (r: TerminalColor)
    ensures
        r == paper(),
{
    TerminalColor { red: 15, green: 17, blue: 21 }
}

/// A cell as it is shown.
#[derive(Debug, PartialEq, Eq)]
pub struct TerminalCell {
    pub line: usize,
    pub column: usize,
    pub text: String,
    pub foreground: TerminalColor,
    pub background: TerminalColor,
    pub bold: bool,
    pub italic: bool,
    pub underline: bool,
    pub strikeout: bool,
    pub wide: bool,
}

/// The value of a `TerminalCell`.
#[verifier::ext_equal]
pub struct CellModel {
    pub line: int,
    pub column: int,
    pub text: Seq<char>,
    pub foreground: TerminalColor,
    pub background: TerminalColor,
    pub bold: bool,
    pub italic: bool,
    pub underline: bool,
    pub strikeout: bool,
    pub wide: bool,
}

impl View for TerminalCell {
    type V = CellModel;

    open spec fn view(&self) -> CellModel {
        CellModel {
            line: self.line as int,
            column: self.column as int,
            text: self.text@,
            foreground: self.foreground,
            background: self.background,
            bold: self.bold,
            italic: self.italic,
            underline: self.underline,
            strikeout: self.strikeout,
            wide: self.wide,
        }
    }
}

#[derive(Clone, Copy, Debug, PartialEq, Eq, Structural)]
pub enum TerminalCursorShape {
    Bar,
    Block,
    Underline,
    HollowBlock,
}

#[derive(Clone, Copy, Debug, PartialEq, Eq, Structural)]
pub struct TerminalCursor {
    pub line: usize,
    pub column: usize,
    pub shape: TerminalCursorShape,
    pub visible: bool,
}

/// What a terminal shows at one moment.
#[derive(Debug, PartialEq, Eq)]
pub struct TerminalSnapshot {
    pub size: TerminalSize,
    pub cells: Vec<TerminalCell>,
    pub cursor: TerminalCursor,
    pub title: String,
    pub exited: bool,
}

/// The value of a `TerminalSnapshot`.
#[verifier::ext_equal]
pub struct SnapshotModel {
    pub size: TerminalSize,
    pub cells: Seq<CellModel>,
    pub cursor: TerminalCursor,
    pub title: Seq<char>,
    pub exited: bool,
}

impl View for TerminalSnapshot {
    type V = SnapshotModel;

    open spec fn view(&self) -> SnapshotModel {
        SnapshotModel {
            size: self.size,
            cells: views(self.cells@),
            cursor: self.cursor,
            title: self.title@,
            exited: self.exited,
        }
    }
}

/// A terminal in which nothing was written.
pub open spec fn blank(size: TerminalSize) -> SnapshotModel {
    SnapshotModel {
        size,
        cells: Seq::empty(),
        cursor: TerminalCursor {
            line: 0,
            column: 0,
            shape: TerminalCursorShape::Block,
            visible: true,
        },
        title: "Terminal"@,
        exited: false,
    }
}

impl TerminalSnapshot {
    /// See [`blank`].
    pub fn empty(size: TerminalSize) -> (r: Self)
        ensures
            r@ == blank(size),
    {
        let r = TerminalSnapshot {
            size,
            cells: Vec::new(),
            cursor: TerminalCursor {
                line: 0,
                column: 0,
                shape: TerminalCursorShape::Block,
                visible: true,
            },
            title: "Terminal".to_owned(),
            exited: false,
        };
        assert(r@.cells =~= Seq::<CellModel>::empty());
        r
    }
}

/// A cell as the emulator holds it: the text, the colours where it has its own, and its style.
#[derive(Debug, PartialEq, Eq)]
pub struct EmulatorCell {
    pub text: String,
    pub foreground: Option<TerminalColor>,
    pub background: Option<TerminalColor>,
    pub selected: bool,
    pub inverse: bool,
    pub invisible: bool,
    pub faint: bool,
    pub bold: bool,
    pub italic: bool,
    pub underlined: bool,
    pub strikethrough: bool,
    pub wide: bool,
}

/// The value of an `EmulatorCell`.
#[verifier::ext_equal]
pub struct EmulatorCellModel {
    pub text: Seq<char>,
    pub foreground: Option<TerminalColor>,
    pub background: Option<TerminalColor>,
    pub selected: bool,
    pub inverse: bool,
    pub invisible: bool,
    pub faint: bool,
    pub bold: bool,
    pub italic: bool,
    pub underlined: bool,
    pub strikethrough: bool,
    pub wide: bool,
}

impl View for EmulatorCell {
    type V = EmulatorCellModel;

    open spec fn view(&self) -> EmulatorCellModel {
        EmulatorCellModel {
            text: self.text@,
            foreground: self.foreground,
            background: self.background,
            selected: self.selected,
            inverse: self.inverse,
            invisible: self.invisible,
            faint: self.faint,
            bold: self.bold,
            italic: self.italic,
            underlined: self.underlined,
            strikethrough: self.strikethrough,
            wide: self.wide,
        }
    }
}

/// The form of the cursor as the emulator names it.
#[derive(Clone, Copy, Debug, PartialEq, Eq, Structural)]
pub enum CursorVisualStyle {
    Bar,
    Block,
    Underline,
    BlockHollow,
    Other,
}

/// What the emulator holds at one moment: the rows of cells, the colours of those without their
/// own, and the cursor.
#[derive(Debug, PartialEq, Eq)]
pub struct EmulatorFrame {
    pub columns: u16,
    pub rows: u16,
    pub foreground: TerminalColor,
    pub background: TerminalColor,
    pub cursor: Option<(u16, u16)>,
    pub cursor_style: CursorVisualStyle,
    pub cursor_visible: bool,
    pub title: Option<String>,
    pub cells: Vec<Vec<EmulatorCell>>,
}

/// The value of an `EmulatorFrame`; the cursor is a column and a row.
#[verifier::ext_equal]
pub struct FrameModel {
    pub columns: u16,
    pub rows: u16,
    pub foreground: TerminalColor,
    pub background: TerminalColor,
    pub cursor: Option<(u16, u16)>,
    pub cursor_style: CursorVisualStyle,
    pub cursor_visible: bool,
    pub title: Option<Seq<char>>,
    pub cells: Seq<Seq<EmulatorCellModel>>,
}

pub open spec fn rows_of(cells: Seq<Vec<EmulatorCell>>) -> Seq<Seq<EmulatorCellModel>> {
    Seq::new(cells.len(), |i: int| views(cells[i]@))
}

impl View for EmulatorFrame {
    type V = FrameModel;

    open spec fn view(&self) -> FrameModel {
        FrameModel {
            columns: self.columns,
            rows: self.rows,
            foreground: self.foreground,
            background: self.background,
            cursor: self.cursor,
            cursor_style: self.cursor_style,
            cursor_visible: self.cursor_visible,
            title: opt_view(self.title),
            cells: rows_of(self.cells@),
        }
    }
}

pub open spec fn shape_of(style: CursorVisualStyle) -> TerminalCursorShape {
    match style {
        CursorVisualStyle::Bar => TerminalCursorShape::Bar,
        CursorVisualStyle::Block => TerminalCursorShape::Block,
        CursorVisualStyle::Underline => TerminalCursorShape::Underline,
        CursorVisualStyle::BlockHollow => TerminalCursorShape::HollowBlock,
        CursorVisualStyle::Other => TerminalCursorShape::Block,
    }
}

/// See [`shape_of`].
pub fn cursor_shape(style: CursorVisualStyle) -> (r: TerminalCursorShape)
    ensures
        r == shape_of(style),
{
    match style {
        CursorVisualStyle::Bar => TerminalCursorShape::Bar,
        CursorVisualStyle::Block => TerminalCursorShape::Block,
        CursorVisualStyle::Underline => TerminalCursorShape::Underline,
        CursorVisualStyle::BlockHollow => TerminalCursorShape::HollowBlock,
        CursorVisualStyle::Other => TerminalCursorShape::Block,
    }
}

/// Seven tenths of a share of a colour.
pub open spec fn dimmed(share: u8) -> u8 {
    (share * 7 / 10) as u8
}

/// The colours in which a cell is shown. A cell that is inverse or selected has the two changed
/// about; of one that is invisible nothing shows; one that is faint is dimmed.
pub open spec fn shown_colors(
    cell: EmulatorCellModel,
    foreground: TerminalColor,
    background: TerminalColor,
) -> (TerminalColor, TerminalColor) {
    let own = match cell.foreground {
        Some(color) => color,
        None => foreground,
    };
    let behind = match cell.background {
        Some(color) => color,
        None => background,
    };
    let (front, back) = if cell.inverse || cell.selected {
        (behind, own)
    } else {
        (own, behind)
    };
    let seen = if cell.invisible {
        back
    } else {
        front
    };
    let front = if cell.faint {
        TerminalColor { red: dimmed(seen.red), green: dimmed(seen.green), blue: dimmed(seen.blue) }
    } else {
        seen
    };
    (front, back)
}

/// See [`dimmed`].
fn dim(share: u8) -> (r: u8)
    ensures
        r == dimmed(share),
{
    ((share as u16 * 7) / 10) as u8
}

/// A cell of the emulator as it is shown on a line and in a column.
pub open spec fn shown_cell(
    cell: EmulatorCellModel,
    line: int,
    column: int,
    foreground: TerminalColor,
    background: TerminalColor,
) -> CellModel {
    let colors = shown_colors(cell, foreground, background);
    CellModel {
        line,
        column,
        text: cell.text,
        foreground: colors.0,
        background: colors.1,
        bold: cell.bold,
        italic: cell.italic,
        underline: cell.underlined,
        strikeout: cell.strikethrough,
        wide: cell.wide,
    }
}

/// See [`shown_cell`].
fn show_cell(
    cell: &EmulatorCell,
    line: usize,
    column: usize,
    foreground: TerminalColor,
    background: TerminalColor,
) -> (r: TerminalCell)
    ensures
        r@ == shown_cell(cell@, line as int, column as int, foreground, background),
{
    let own = match cell.foreground {
        Some(color) => color,
        None => foreground,
    };
    let behind = match cell.background {
        Some(color) => color,
        None => background,
    };
    let (front, back) = if cell.inverse || cell.selected {
        (behind, own)
    } else {
        (own, behind)
    };
    let seen = if cell.invisible {
        back
    } else {
        front
    };
    let front = if cell.faint {
        TerminalColor { red: dim(seen.red), green: dim(seen.green), blue: dim(seen.blue) }
    } else {
        seen
    };
    TerminalCell {
        line,
        column,
        text: cell.text.clone(),
        foreground: front,
        background: back,
        bold: cell.bold,
        italic: cell.italic,
        underline: cell.underlined,
        strikeout: cell.strikethrough,
        wide: cell.wide,
    }
}

/// The cells of one row as they are shown.
pub open spec fn shown_row(
    row: Seq<EmulatorCellModel>,
    line: int,
    foreground: TerminalColor,
    background: TerminalColor,
) -> Seq<CellModel> {
    Seq::new(row.len(), |j: int| shown_cell(row[j], line, j, foreground, background))
}

/// The cells of the rows as they are shown, row after row.
pub open spec fn shown_rows(
    rows: Seq<Seq<EmulatorCellModel>>,
    foreground: TerminalColor,
    background: TerminalColor,
) -> Seq<CellModel>
    decreases rows.len(),
{
    if rows.len() == 0 {
        Seq::empty()
    } else {
        shown_rows(rows.drop_last(), foreground, background) + shown_row(
            rows.last(),
            rows.len() - 1,
            foreground,
            background,
        )
    }
}

/// What is shown of what the emulator holds.
pub open spec fn shown_frame(frame: FrameModel, size: TerminalSize, exited: bool) -> SnapshotModel {
    SnapshotModel {
        size: safe_size(
            frame.columns as usize,
            frame.rows as usize,
            size.cell_width,
            size.cell_height,
        ),
        cells: shown_rows(frame.cells, frame.foreground, frame.background),
        cursor: TerminalCursor {
            line: match frame.cursor {
                Some(at) => at.1 as usize,
                None => 0,
            },
            column: match frame.cursor {
                Some(at) => at.0 as usize,
                None => 0,
            },
            shape: shape_of(frame.cursor_style),
            visible: frame.cursor_visible,
        },
        title: match frame.title {
            Some(title) => if title.len() == 0 {
                "Terminal"@
            } else {
                title
            },
            None => "Terminal"@,
        },
        exited,
    }
}

/// See [`shown_rows`].
fn show_rows(rows: &Vec<Vec<EmulatorCell>>, foreground: TerminalColor, background: TerminalColor) -> (r: Vec<
    TerminalCell,
>)
    ensures
        views(r@) == shown_rows(rows_of(rows@), foreground, background),
{
    broadcast use {views_push, views_index};

    let ghost all = rows_of(rows@);
    let mut r: Vec<TerminalCell> = Vec::new();
    let mut line: usize = 0;
    assert(views(r@) =~= shown_rows(all.take(0), foreground, background));
    while line < rows.len()
        invariant
            all == rows_of(rows@),
            line <= rows.len(),
            views(r@) == shown_rows(all.take(line as int), foreground, background),
        decreases rows.len() - line,
    {
        let row = &rows[line];
        let ghost before = views(r@);
        let ghost shown = shown_row(all[line as int], line as int, foreground, background);
        let mut column: usize = 0;
        assert(views(r@) =~= before + shown.take(0));
        while column < row.len()
            invariant
                all == rows_of(rows@),
                line < rows.len(),
                *row == rows@[line as int],
                shown == shown_row(all[line as int], line as int, foreground, background),
                column <= row.len(),
                views(r@) == before + shown.take(column as int),
            decreases row.len() - column,
        {
            assert(all[line as int] == views(row@));
            assert(shown.len() == row.len());
            assert(shown[column as int] == shown_cell(
                row@[column as int]@,
                line as int,
                column as int,
                foreground,
                background,
            ));
            let ghost so_far = views(r@);
            let cell = show_cell(&row[column], line, column, foreground, background);
            r.push(cell);
            assert(views(r@) == so_far.push(cell@));
            assert(views(r@) =~= before + shown.take(column + 1));
            column = column + 1;
        }
        assert(shown.take(column as int) =~= shown);
        assert(all.take(line + 1).drop_last() =~= all.take(line as int));
        assert(all.take(line + 1).last() == all[line as int]);
        line = line + 1;
    }
    assert(all.take(line as int) =~= all);
    r
}

/// See [`shown_frame`].
pub fn ghostty_snapshot(frame: &EmulatorFrame, size: TerminalSize, exited: bool) -> (r: TerminalSnapshot)
    ensures
        r@ == shown_frame(frame@, size, exited),
{
    let (column, line): (usize, usize) = match frame.cursor {
        Some(at) => (at.0 as usize, at.1 as usize),
        None => (0, 0),
    };
    let title = match &frame.title {
        Some(title) => if title.as_str().unicode_len() == 0 {
            "Terminal".to_owned()
        } else {
            title.clone()
        },
        None => "Terminal".to_owned(),
    };
    TerminalSnapshot {
        size: TerminalSize::new(
            frame.columns as usize,
            frame.rows as usize,
            size.cell_width,
            size.cell_height,
        ),
        cells: show_rows(&frame.cells, frame.foreground, frame.background),
        cursor: TerminalCursor {
            line,
            column,
            shape: cursor_shape(frame.cursor_style),
            visible: frame.cursor_visible,
        },
        title,
        exited,
    }
}

/// How many cells stand in the rows before one.
pub open spec fn cells_before(rows: Seq<Seq<EmulatorCellModel>>, line: int) -> nat
    decreases line,
{
    if line <= 0 || line > rows.len() {
        0
    } else {
        cells_before(rows, line - 1) + rows[line - 1].len()
    }
}

/// Every cell of the emulator is shown on its line and in its column, and the cells come in the
/// order in which they are read.
pub proof fn cells_are_shown_in_place(
    rows: Seq<Seq<EmulatorCellModel>>,
    foreground: TerminalColor,
    background: TerminalColor,
    line: int,
    column: int,
)
    requires
        0 <= line < rows.len(),
        0 <= column < rows[line].len(),
    ensures
        ({
            let at = cells_before(rows, line) + column;
            let shown = shown_rows(rows, foreground, background);
            &&& at < shown.len()
            &&& shown[at as int] == shown_cell(rows[line][column], line, column, foreground, background)
        }),
        shown_rows(rows, foreground, background).len() == cells_before(rows, rows.len() as int),
    decreases rows.len(),
{
    let fewer = rows.drop_last();
    shown_rows_length(rows, foreground, background);
    shown_rows_length(fewer, foreground, background);
    cells_before_prefix(rows, rows.len() - 1);
    if line < rows.len() - 1 {
        cells_are_shown_in_place(fewer, foreground, background, line, column);
        cells_before_prefix(rows, line);
    }
}

proof fn cells_before_prefix(rows: Seq<Seq<EmulatorCellModel>>, line: int)
    requires
        0 <= line < rows.len(),
    ensures
        cells_before(rows.drop_last(), line) == cells_before(rows, line),
    decreases line,
{
    if line > 0 {
        cells_before_prefix(rows, line - 1);
    }
}

proof fn shown_rows_length(rows: Seq<Seq<EmulatorCellModel>>, foreground: TerminalColor, background: TerminalColor)
    ensures
        shown_rows(rows, foreground, background).len() == cells_before(rows, rows.len() as int),
    decreases rows.len(),
{
    if rows.len() > 0 {
        shown_rows_length(rows.drop_last(), foreground, background);
        cells_before_prefix(rows, rows.len() - 1);
    }
}

/// A cell is shown with its characters and in its own colours, or those of the page where it has
/// none; one that is selected or inverse has them the other way round, and what is invisible is
/// not seen.
pub proof fn cells_are_shown_in_their_colours(
    cell: EmulatorCellModel,
    line: int,
    column: int,
    page_ink: TerminalColor,
    page: TerminalColor,
)
    ensures
        ({
            let shown = shown_cell(cell, line, column, page_ink, page);
            let own = if cell.foreground is Some {
                cell.foreground->0
            } else {
                page_ink
            };
            let behind = if cell.background is Some {
                cell.background->0
            } else {
                page
            };
            &&& shown.text == cell.text
            &&& shown.line == line && shown.column == column
            &&& shown.bold == cell.bold
            &&& shown.italic == cell.italic
            &&& shown.underline == cell.underlined
            &&& shown.strikeout == cell.strikethrough
            &&& shown.wide == cell.wide
            &&& !cell.inverse && !cell.selected ==> shown.background == behind
            &&& cell.inverse || cell.selected ==> shown.background == own
            &&& !cell.faint && !cell.invisible && !cell.inverse && !cell.selected
                ==> shown.foreground == own
            &&& !cell.faint && !cell.invisible && (cell.inverse || cell.selected)
                ==> shown.foreground == behind
            &&& !cell.faint && cell.invisible ==> shown.foreground == shown.background
            &&& cell.faint && !cell.invisible && !cell.inverse && !cell.selected ==> {
                &&& 10 * shown.foreground.red <= 7 * own.red < 10 * (shown.foreground.red + 1)
                &&& 10 * shown.foreground.green <= 7 * own.green < 10 * (shown.foreground.green
                    + 1)
                &&& 10 * shown.foreground.blue <= 7 * own.blue < 10 * (shown.foreground.blue + 1)
            }
        }),
{
}

/// A frame is shown at its own size, with its cursor where it is and its title, or a plain one
/// where it has none.
pub proof fn frames_are_shown_as_they_are(frame: FrameModel, size: TerminalSize, exited: bool)
    requires
        frame.columns >= 2,
        frame.rows >= 1,
    ensures
        ({
            let shown = shown_frame(frame, size, exited);
            &&& shown.size.columns == frame.columns
            &&& shown.size.lines == frame.rows
            &&& shown.exited == exited
            &&& shown.cursor.visible == frame.cursor_visible
            &&& frame.cursor matches Some(at) ==> shown.cursor.column == at.0 && shown.cursor.line
                == at.1
            &&& frame.title matches Some(title) ==> title.len() > 0 ==> shown.title == title
            &&& frame.title is None ==> shown.title == "Terminal"@
            &&& frame.cursor_style is Bar ==> shown.cursor.shape is Bar
            &&& frame.cursor_style is Underline ==> shown.cursor.shape is Underline
            &&& frame.cursor_style is BlockHollow ==> shown.cursor.shape is HollowBlock
            &&& frame.cursor_style is Block ==> shown.cursor.shape is Block
            &&& shown.cells.len() == cells_before(frame.cells, frame.cells.len() as int)
        }),
{
    shown_rows_length(frame.cells, frame.foreground, frame.background);
}

} // verus!
