//! Unified diffs: parsing `git diff` output into files, hunks and numbered lines, and
//! aligning a hunk's lines for a side-by-side view.
use vstd::prelude::*;

use crate::text;
use crate::text::{
    after_prefix, before, begins, cut, decimal, find, find_from_is_first, is_digit, is_space,
    lines_of, occurs_at, read_number, trimmed, unbroken, unquoted, unspaced, words_of,
};
use crate::views::{opt_view, views, views_index, views_push};

verus! {

#[derive(Clone, Copy, Debug, PartialEq, Eq, Structural)]
pub enum DiffViewMode {
    Stack,
    Split,
}

#[derive(Clone, Copy, Debug, PartialEq, Eq, Structural)]
pub enum DiffLineKind {
    Context,
    Addition,
    Deletion,
    Meta,
}

/// One line of a hunk, with its numbers in the old and the new file.
#[derive(Debug, PartialEq, Eq)]
pub struct DiffLine {
    pub kind: DiffLineKind,
    pub old_line: Option<u32>,
    pub new_line: Option<u32>,
    pub text: String,
}

/// The value of a `DiffLine`.
#[verifier::ext_equal]
pub struct LineModel {
    pub kind: DiffLineKind,
    pub old_line: Option<u32>,
    pub new_line: Option<u32>,
    pub text: Seq<char>,
}

impl View for DiffLine {
    type V = LineModel;

    open spec fn view(&self) -> LineModel {
        LineModel {
            kind: self.kind,
            old_line: self.old_line,
            new_line: self.new_line,
            text: self.text@,
        }
    }
}

impl Clone for DiffLine {
    fn clone(&self) -> (r: Self)
        ensures
            r@ == self@,
    {
        DiffLine {
            kind: self.kind,
            old_line: self.old_line,
            new_line: self.new_line,
            text: self.text.clone(),
        }
    }
}

/// A hunk: its header, the ranges that the header gives, and its lines.
#[derive(Debug, PartialEq, Eq)]
pub struct DiffHunk {
    pub header: String,
    pub old_start: u32,
    pub old_count: u32,
    pub new_start: u32,
    pub new_count: u32,
    pub lines: Vec<DiffLine>,
}

/// The value of a `DiffHunk`.
#[verifier::ext_equal]
pub struct HunkModel {
    pub header: Seq<char>,
    pub old_start: u32,
    pub old_count: u32,
    pub new_start: u32,
    pub new_count: u32,
    pub lines: Seq<LineModel>,
}

impl View for DiffHunk {
    type V = HunkModel;

    open spec fn view(&self) -> HunkModel {
        HunkModel {
            header: self.header@,
            old_start: self.old_start,
            old_count: self.old_count,
            new_start: self.new_start,
            new_count: self.new_count,
            lines: views(self.lines@),
        }
    }
}

/// A file of a diff.
#[derive(Debug, PartialEq, Eq)]
pub struct DiffFile {
    pub old_path: String,
    pub new_path: String,
    pub status: Option<String>,
    pub additions: usize,
    pub deletions: usize,
    pub binary: bool,
    pub hunks: Vec<DiffHunk>,
}

/// The value of a `DiffFile`.
#[verifier::ext_equal]
pub struct FileModel {
    pub old_path: Seq<char>,
    pub new_path: Seq<char>,
    pub status: Option<Seq<char>>,
    pub additions: nat,
    pub deletions: nat,
    pub binary: bool,
    pub hunks: Seq<HunkModel>,
}

impl View for DiffFile {
    type V = FileModel;

    open spec fn view(&self) -> FileModel {
        FileModel {
            old_path: self.old_path@,
            new_path: self.new_path@,
            status: opt_view(self.status),
            additions: self.additions as nat,
            deletions: self.deletions as nat,
            binary: self.binary,
            hunks: views(self.hunks@),
        }
    }
}

/// The path to show for a file: the new one, unless there is none.
pub open spec fn shown_path(f: FileModel) -> Seq<char> {
    if f.new_path.len() == 0 || f.new_path == "/dev/null"@ {
        f.old_path
    } else {
        f.new_path
    }
}

impl DiffFile {
    pub fn display_path(&self) -> (r: &str)
        ensures
            r@ == shown_path(self@),
    {
        if self.new_path.as_str().is_empty() || text::same(self.new_path.as_str(), "/dev/null") {
            self.old_path.as_str()
        } else {
            self.new_path.as_str()
        }
    }
}

/// A parsed diff.
#[derive(Debug, PartialEq, Eq)]
pub struct DiffDocument {
    pub files: Vec<DiffFile>,
}

impl View for DiffDocument {
    type V = Seq<FileModel>;

    open spec fn view(&self) -> Seq<FileModel> {
        views(self.files@)
    }
}

/// A path as it stands in a diff, without the quotes and the `a/` or `b/` before it.
pub open spec fn bare_path(path: Seq<char>) -> Seq<char> {
    let p = unquoted(trimmed(path), '"');
    match after_prefix(p, "a/"@) {
        Some(rest) => rest,
        None => match after_prefix(p, "b/"@) {
            Some(rest) => rest,
            None => p,
        },
    }
}

/// See [`bare_path`].
pub fn clean_path(path: &str) -> (r: String)
    ensures
        r@ == bare_path(path@),
{
    let trim = text::trim(path);
    let p = text::unquote(trim.as_str(), '"');
    match text::strip_prefix(p.as_str(), "a/") {
        Some(rest) => rest,
        None => match text::strip_prefix(p.as_str(), "b/") {
            Some(rest) => rest,
            None => p,
        },
    }
}

/// The old and the new path of a `diff --git` line; both empty where no ` b/` parts them.
pub open spec fn header_paths(paths: Seq<char>) -> (Seq<char>, Seq<char>) {
    match cut(trimmed(paths), " b/"@) {
        Some(c) => (bare_path(c.0), bare_path("b/"@ + c.1)),
        None => (Seq::empty(), Seq::empty()),
    }
}

/// See [`header_paths`].
pub fn parse_diff_paths(paths: &str) -> (r: (String, String))
    ensures
        (r.0@, r.1@) == header_paths(paths@),
{
    let trim = text::trim(paths);
    match text::split_once(trim.as_str(), " b/") {
        Some((old_path, new_path)) => {
            let new_path = text::concat("b/", new_path.as_str());
            (clean_path(old_path.as_str()), clean_path(new_path.as_str()))
        },
        None => (String::new(), String::new()),
    }
}

/// The start and the length of a range such as `10,4`; the length is one where none stands.
pub open spec fn range_value(range: Seq<char>) -> Option<(u32, u32)> {
    let (start, count) = match cut(range, ","@) {
        Some(c) => c,
        None => (range, "1"@),
    };
    match (read_number(start, u32::MAX as nat), read_number(count, u32::MAX as nat)) {
        (Some(a), Some(b)) => Some((a as u32, b as u32)),
        _ => None,
    }
}

/// See [`range_value`].
pub fn parse_range(range: &str) -> (r: Option<(u32, u32)>)
    ensures
        r == range_value(range@),
{
    let (start, count) = match text::split_once(range, ",") {
        Some(c) => c,
        None => (range.to_owned(), "1".to_owned()),
    };
    match (text::parse_u32(start.as_str()), text::parse_u32(count.as_str())) {
        (Some(a), Some(b)) => Some((a, b)),
        _ => None,
    }
}

/// The ranges that a hunk header gives: the old start and length, the new start and length.
pub open spec fn header_ranges(header: Seq<char>) -> Option<(u32, u32, u32, u32)> {
    match after_prefix(header, "@@ "@) {
        None => None,
        Some(rest) => {
            let words = words_of(before(rest, " @@"@));
            if words.len() < 2 {
                None
            } else {
                match (after_prefix(words[0], "-"@), after_prefix(words[1], "+"@)) {
                    (Some(old), Some(new)) => match (range_value(old), range_value(new)) {
                        (Some(o), Some(n)) => Some((o.0, o.1, n.0, n.1)),
                        _ => None,
                    },
                    _ => None,
                }
            }
        },
    }
}

/// See [`header_ranges`].
pub fn parse_hunk_header(header: &str) -> (r: Option<(u32, u32, u32, u32)>)
    ensures
        r == header_ranges(header@),
{
    match text::strip_prefix(header, "@@ ") {
        None => None,
        Some(rest) => {
            let ranges = text::until(rest.as_str(), " @@");
            let words = text::words(ranges.as_str());
            proof {
                assert(words@.len() == views(words@).len());
            }
            if words.len() < 2 {
                return None;
            }
            proof {
                views_index(words@, 0);
                views_index(words@, 1);
            }
            match (
                text::strip_prefix(words[0].as_str(), "-"),
                text::strip_prefix(words[1].as_str(), "+"),
            ) {
                (Some(old), Some(new)) => match (
                    parse_range(old.as_str()),
                    parse_range(new.as_str()),
                ) {
                    (Some(o), Some(n)) => Some((o.0, o.1, n.0, n.1)),
                    _ => None,
                },
                _ => None,
            }
        },
    }
}

/// What the parser knows between two lines: the files that are complete, the file and the
/// hunk that are being read, and the numbers of the next line of each side.
#[verifier::ext_equal]
pub struct ParseModel {
    pub files: Seq<FileModel>,
    pub file: Option<FileModel>,
    pub hunk: Option<HunkModel>,
    pub old_line: u32,
    pub new_line: u32,
}

/// The state before the first line.
pub open spec fn parse_start() -> ParseModel {
    ParseModel { files: Seq::empty(), file: None, hunk: None, old_line: 0, new_line: 0 }
}

/// The line number after `n`.
pub open spec fn next_number(n: u32) -> u32 {
    if n == u32::MAX {
        0
    } else {
        (n + 1) as u32
    }
}

/// The state once the hunk that is being read is complete.
pub open spec fn hunk_closed(st: ParseModel) -> ParseModel {
    ParseModel {
        file: match (st.file, st.hunk) {
            (Some(f), Some(h)) => Some(FileModel { hunks: f.hunks.push(h), ..f }),
            _ => st.file,
        },
        hunk: None,
        ..st
    }
}

/// The state once the file that is being read is complete.
pub open spec fn file_closed(st: ParseModel) -> ParseModel {
    match st.file {
        Some(f) => ParseModel { files: st.files.push(f), file: None, ..st },
        None => st,
    }
}

/// The state after a `diff --git` line that gives `paths`.
pub open spec fn file_opened(st: ParseModel, paths: Seq<char>) -> ParseModel {
    let (old_path, new_path) = header_paths(paths);
    ParseModel {
        file: Some(
            FileModel {
                old_path,
                new_path,
                status: None,
                additions: 0,
                deletions: 0,
                binary: false,
                hunks: Seq::empty(),
            },
        ),
        ..file_closed(hunk_closed(st))
    }
}

/// The state after a hunk header; ranges that cannot be read count as zero.
pub open spec fn hunk_opened(st: ParseModel, header: Seq<char>) -> ParseModel {
    let (old_start, old_count, new_start, new_count) = match header_ranges(header) {
        Some(r) => r,
        None => (0, 0, 0, 0),
    };
    ParseModel {
        hunk: Some(
            HunkModel { header, old_start, old_count, new_start, new_count, lines: Seq::empty() },
        ),
        old_line: old_start,
        new_line: new_start,
        ..hunk_closed(st)
    }
}

/// The state after the line `line` of a hunk `h` of a file `f`.
pub open spec fn hunk_line(st: ParseModel, f: FileModel, h: HunkModel, line: Seq<char>) -> ParseModel {
    if begins(line, "+"@) {
        ParseModel {
            file: Some(FileModel { additions: f.additions + 1, ..f }),
            hunk: Some(
                HunkModel {
                    lines: h.lines.push(
                        LineModel {
                            kind: DiffLineKind::Addition,
                            old_line: None,
                            new_line: Some(st.new_line),
                            text: line.skip("+"@.len() as int),
                        },
                    ),
                    ..h
                },
            ),
            new_line: next_number(st.new_line),
            ..st
        }
    } else if begins(line, "-"@) {
        ParseModel {
            file: Some(FileModel { deletions: f.deletions + 1, ..f }),
            hunk: Some(
                HunkModel {
                    lines: h.lines.push(
                        LineModel {
                            kind: DiffLineKind::Deletion,
                            old_line: Some(st.old_line),
                            new_line: None,
                            text: line.skip("-"@.len() as int),
                        },
                    ),
                    ..h
                },
            ),
            old_line: next_number(st.old_line),
            ..st
        }
    } else if begins(line, " "@) {
        ParseModel {
            hunk: Some(
                HunkModel {
                    lines: h.lines.push(
                        LineModel {
                            kind: DiffLineKind::Context,
                            old_line: Some(st.old_line),
                            new_line: Some(st.new_line),
                            text: line.skip(" "@.len() as int),
                        },
                    ),
                    ..h
                },
            ),
            old_line: next_number(st.old_line),
            new_line: next_number(st.new_line),
            ..st
        }
    } else {
        ParseModel {
            hunk: Some(
                HunkModel {
                    lines: h.lines.push(
                        LineModel {
                            kind: DiffLineKind::Meta,
                            old_line: None,
                            new_line: None,
                            text: line,
                        },
                    ),
                    ..h
                },
            ),
            ..st
        }
    }
}

/// The file `f` after the line `line` between its `diff --git` line and its first hunk.
pub open spec fn file_line(f: FileModel, line: Seq<char>) -> FileModel {
    match after_prefix(line, "--- "@) {
        Some(path) => FileModel { old_path: bare_path(path), ..f },
        None => match after_prefix(line, "+++ "@) {
            Some(path) => FileModel { new_path: bare_path(path), ..f },
            None => if begins(line, "new file mode "@) {
                FileModel { status: Some("Added"@), ..f }
            } else if begins(line, "deleted file mode "@) {
                FileModel { status: Some("Deleted"@), ..f }
            } else if begins(line, "rename from "@) {
                FileModel { status: Some("Renamed"@), ..f }
            } else if begins(line, "Binary files "@) || line == "GIT binary patch"@ {
                FileModel {
                    binary: true,
                    status: match f.status {
                        Some(s) => Some(s),
                        None => Some("Binary"@),
                    },
                    ..f
                }
            } else {
                f
            },
        },
    }
}

/// The state after one more line of the diff.
pub open spec fn parse_step(st: ParseModel, line: Seq<char>) -> ParseModel {
    match after_prefix(line, "diff --git "@) {
        Some(paths) => file_opened(st, paths),
        None => if begins(line, "@@"@) {
            hunk_opened(st, line)
        } else {
            match (st.file, st.hunk) {
                (None, _) => st,
                (Some(f), Some(h)) => hunk_line(st, f, h, line),
                (Some(f), None) => ParseModel { file: Some(file_line(f, line)), ..st },
            }
        },
    }
}

/// The state after the lines `lines`.
pub open spec fn parse_lines(lines: Seq<Seq<char>>) -> ParseModel
    decreases lines.len(),
{
    if lines.len() == 0 {
        parse_start()
    } else {
        parse_step(parse_lines(lines.drop_last()), lines.last())
    }
}

/// The files that a diff holds.
pub open spec fn parsed(input: Seq<char>) -> Seq<FileModel> {
    file_closed(hunk_closed(parse_lines(lines_of(input)))).files
}

/// The state of the parser.
struct DiffParser {
    files: Vec<DiffFile>,
    file: Option<DiffFile>,
    hunk: Option<DiffHunk>,
    old_line: u32,
    new_line: u32,
}

impl View for DiffParser {
    type V = ParseModel;

    closed spec fn view(&self) -> ParseModel {
        ParseModel {
            files: views(self.files@),
            file: opt_view(self.file),
            hunk: opt_view(self.hunk),
            old_line: self.old_line,
            new_line: self.new_line,
        }
    }
}

/// The larger of a file's two counts.
spec fn larger_count(f: DiffFile) -> nat {
    if f.additions >= f.deletions {
        f.additions as nat
    } else {
        f.deletions as nat
    }
}

impl DiffParser {
    /// The larger count of the file that is being read.
    spec fn counted(&self) -> nat {
        match self.file {
            Some(f) => larger_count(f),
            None => 0,
        }
    }

    fn flush_hunk(&mut self)
        ensures
            final(self)@ == hunk_closed(old(self)@),
            final(self).counted() == old(self).counted(),
    {
        broadcast use views_push;

        let hunk = self.hunk.take();
        let file = self.file.take();
        match (file, hunk) {
            (Some(f), Some(h)) => {
                let mut f = f;
                f.hunks.push(h);
                self.file = Some(f);
            },
            (f, _) => {
                self.file = f;
            },
        }
    }

    fn flush_file(&mut self)
        ensures
            final(self)@ == file_closed(old(self)@),
            final(self).counted() == 0,
    {
        broadcast use views_push;

        match self.file.take() {
            Some(f) => {
                self.files.push(f);
            },
            None => {},
        }
    }

    fn hunk_line(&mut self, f: DiffFile, h: DiffHunk, line: &str)
        requires
            old(self).file is None,
            old(self).hunk is None,
            larger_count(f) < usize::MAX,
        ensures
            final(self)@ == hunk_line(
                (ParseModel { file: Some(f@), hunk: Some(h@), ..old(self)@ }),
                f@,
                h@,
                line@,
            ),
            final(self).counted() <= larger_count(f) + 1,
    {
        broadcast use views_push;

        let mut f = f;
        let mut h = h;
        let entry = if let Some(text) = text::strip_prefix(line, "+") {
            let number: u32 = self.new_line;
            self.new_line = number.wrapping_add(1);
            f.additions = f.additions + 1;
            DiffLine { kind: DiffLineKind::Addition, old_line: None, new_line: Some(number), text }
        } else if let Some(text) = text::strip_prefix(line, "-") {
            let number: u32 = self.old_line;
            self.old_line = number.wrapping_add(1);
            f.deletions = f.deletions + 1;
            DiffLine { kind: DiffLineKind::Deletion, old_line: Some(number), new_line: None, text }
        } else if let Some(text) = text::strip_prefix(line, " ") {
            let old_number: u32 = self.old_line;
            let new_number: u32 = self.new_line;
            self.old_line = old_number.wrapping_add(1);
            self.new_line = new_number.wrapping_add(1);
            DiffLine {
                kind: DiffLineKind::Context,
                old_line: Some(old_number),
                new_line: Some(new_number),
                text,
            }
        } else {
            DiffLine {
                kind: DiffLineKind::Meta,
                old_line: None,
                new_line: None,
                text: line.to_owned(),
            }
        };
        h.lines.push(entry);
        self.file = Some(f);
        self.hunk = Some(h);
    }

    fn file_line(f: DiffFile, line: &str) -> (r: DiffFile)
        ensures
            r@ == file_line(f@, line@),
            larger_count(r) == larger_count(f),
    {
        let mut f = f;
        if let Some(path) = text::strip_prefix(line, "--- ") {
            f.old_path = clean_path(path.as_str());
        } else if let Some(path) = text::strip_prefix(line, "+++ ") {
            f.new_path = clean_path(path.as_str());
        } else if text::starts_with(line, "new file mode ") {
            f.status = Some("Added".to_owned());
        } else if text::starts_with(line, "deleted file mode ") {
            f.status = Some("Deleted".to_owned());
        } else if text::starts_with(line, "rename from ") {
            f.status = Some("Renamed".to_owned());
        } else if text::starts_with(line, "Binary files ") || text::same(line, "GIT binary patch") {
            f.binary = true;
            if f.status.is_none() {
                f.status = Some("Binary".to_owned());
            }
        }
        f
    }

    fn line(&mut self, line: &str)
        requires
            old(self).counted() < usize::MAX,
        ensures
            final(self)@ == parse_step(old(self)@, line@),
            final(self).counted() <= old(self).counted() + 1,
    {
        if let Some(paths) = text::strip_prefix(line, "diff --git ") {
            self.flush_hunk();
            self.flush_file();
            let (old_path, new_path) = parse_diff_paths(paths.as_str());
            let hunks: Vec<DiffHunk> = Vec::new();
            assert(views(hunks@) =~= Seq::<HunkModel>::empty());
            self.file = Some(
                DiffFile {
                    old_path,
                    new_path,
                    status: None,
                    additions: 0,
                    deletions: 0,
                    binary: false,
                    hunks,
                },
            );
        } else if text::starts_with(line, "@@") {
            self.flush_hunk();
            let (old_start, old_count, new_start, new_count) = match parse_hunk_header(line) {
                Some(r) => r,
                None => (0, 0, 0, 0),
            };
            self.old_line = old_start;
            self.new_line = new_start;
            let lines: Vec<DiffLine> = Vec::new();
            assert(views(lines@) =~= Seq::<LineModel>::empty());
            self.hunk = Some(
                DiffHunk {
                    header: line.to_owned(),
                    old_start,
                    old_count,
                    new_start,
                    new_count,
                    lines,
                },
            );
        } else {
            match self.file.take() {
                None => {},
                Some(f) => match self.hunk.take() {
                    Some(h) => {
                        self.hunk_line(f, h, line);
                    },
                    None => {
                        self.file = Some(Self::file_line(f, line));
                    },
                },
            }
        }
    }
}

impl DiffDocument {
    /// Parses the output of `git diff`. Lines that belong to no file are passed over.
    pub fn parse(input: &str) -> (r: Self)
        ensures
            r@ == parsed(input@),
    {
        let lines = text::lines(input);
        let mut parser = DiffParser {
            files: Vec::new(),
            file: None,
            hunk: None,
            old_line: 0,
            new_line: 0,
        };
        let ghost all = views(lines@);
        let mut i: usize = 0;
        assert(parser@ =~= parse_lines(all.take(0)));
        while i < lines.len()
            invariant
                all == views(lines@),
                i <= lines.len(),
                parser.counted() <= i,
                parser@ == parse_lines(all.take(i as int)),
            decreases lines.len() - i,
        {
            proof {
                assert(all.take(i + 1).drop_last() =~= all.take(i as int));
                views_index(lines@, i as int);
            }
            parser.line(lines[i].as_str());
            i = i + 1;
        }
        assert(all.take(i as int) =~= all);
        parser.flush_hunk();
        parser.flush_file();
        DiffDocument { files: parser.files }
    }
}

/// A row of the side-by-side view.
#[derive(Debug, PartialEq, Eq)]
pub struct SplitRow {
    pub left: Option<DiffLine>,
    pub right: Option<DiffLine>,
}

/// The value of a `SplitRow`.
#[verifier::ext_equal]
pub struct RowModel {
    pub left: Option<LineModel>,
    pub right: Option<LineModel>,
}

impl View for SplitRow {
    type V = RowModel;

    open spec fn view(&self) -> RowModel {
        RowModel { left: opt_view(self.left), right: opt_view(self.right) }
    }
}

/// Whether a line is added or deleted.
pub open spec fn changed(line: LineModel) -> bool {
    line.kind == DiffLineKind::Addition || line.kind == DiffLineKind::Deletion
}

/// The lines of one kind.
pub open spec fn of_kind(lines: Seq<LineModel>, kind: DiffLineKind) -> Seq<LineModel> {
    lines.filter(|l: LineModel| l.kind == kind)
}

/// How many lines from the first on are changed.
pub open spec fn change_run(lines: Seq<LineModel>) -> nat
    decreases lines.len(),
{
    if lines.len() == 0 || !changed(lines[0]) {
        0
    } else {
        1 + change_run(lines.drop_first())
    }
}

/// The rows of a block of changed lines: the deletions on the left and the additions on the
/// right, each from the top.
pub open spec fn paired(block: Seq<LineModel>) -> Seq<RowModel> {
    let deletions = of_kind(block, DiffLineKind::Deletion);
    let additions = of_kind(block, DiffLineKind::Addition);
    let height = if deletions.len() >= additions.len() {
        deletions.len()
    } else {
        additions.len()
    };
    Seq::new(
        height,
        |i: int|
            RowModel {
                left: if i < deletions.len() {
                    Some(deletions[i])
                } else {
                    None
                },
                right: if i < additions.len() {
                    Some(additions[i])
                } else {
                    None
                },
            },
    )
}

/// The rows of the side-by-side view: an unchanged line stands on both sides, and each
/// longest run of changed lines is paired.
pub open spec fn rows_of(lines: Seq<LineModel>) -> Seq<RowModel>
    decreases lines.len(),
{
    if lines.len() == 0 {
        Seq::empty()
    } else if !changed(lines[0]) {
        seq![RowModel { left: Some(lines[0]), right: Some(lines[0]) }] + rows_of(lines.drop_first())
    } else {
        let n = change_run(lines);
        if n > lines.len() {
            Seq::empty()
        } else {
            paired(lines.take(n as int)) + rows_of(lines.skip(n as int))
        }
    }
}

/// A run of changed lines is as long as it can be and no longer than the lines.
proof fn change_run_bound(lines: Seq<LineModel>)
    ensures
        change_run(lines) <= lines.len(),
        forall|i: int| 0 <= i < change_run(lines) ==> changed(#[trigger] lines[i]),
        change_run(lines) < lines.len() ==> !changed(lines[change_run(lines) as int]),
    decreases lines.len(),
{
    if lines.len() > 0 && changed(lines[0]) {
        let rest = lines.drop_first();
        change_run_bound(rest);
        assert forall|i: int| 0 <= i < change_run(lines) implies changed(#[trigger] lines[i]) by {
            if i > 0 {
                assert(changed(rest[i - 1]));
            }
        }
    }
}

/// A run of at least `n` changed lines that an unchanged line or the end follows is `n` long.
proof fn change_run_is(lines: Seq<LineModel>, n: int)
    requires
        0 <= n <= lines.len(),
        forall|i: int| 0 <= i < n ==> changed(#[trigger] lines[i]),
        n < lines.len() ==> !changed(lines[n]),
    ensures
        change_run(lines) == n,
    decreases lines.len(),
{
    if n > 0 {
        let rest = lines.drop_first();
        assert forall|i: int| 0 <= i < n - 1 implies changed(#[trigger] rest[i]) by {
            assert(changed(lines[i + 1]));
        }
        change_run_is(rest, n - 1);
    }
}

/// The lines of a kind between two positions.
fn lines_of_kind(lines: &Vec<DiffLine>, from: usize, to: usize, kind: DiffLineKind) -> (r: Vec<DiffLine>)
    requires
        from <= to <= lines.len(),
    ensures
        views(r@) == of_kind(views(lines@).subrange(from as int, to as int), kind),
{
    broadcast use {views_push, views_index};

    let mut r: Vec<DiffLine> = Vec::new();
    let mut i: usize = from;
    let ghost all = views(lines@);
    proof {
        reveal(Seq::filter);
        assert(views(r@) =~= of_kind(all.subrange(from as int, from as int), kind));
    }
    while i < to
        invariant
            all == views(lines@),
            from <= i <= to <= lines.len(),
            views(r@) == of_kind(all.subrange(from as int, i as int), kind),
        decreases to - i,
    {
        proof {
            reveal(Seq::filter);
            assert(all.subrange(from as int, i + 1).drop_last() =~= all.subrange(
                from as int,
                i as int,
            ));
        }
        if lines[i].kind == kind {
            r.push(lines[i].clone());
        }
        i = i + 1;
    }
    r
}

/// A copy of the line at `i`, if there is one.
fn line_at(lines: &Vec<DiffLine>, i: usize) -> (r: Option<DiffLine>)
    ensures
        opt_view(r) == (if i < lines.len() {
            Some(views(lines@)[i as int])
        } else {
            None
        }),
{
    if i < lines.len() {
        Some(lines[i].clone())
    } else {
        None
    }
}

/// Lays the lines of a hunk out side by side.
pub fn split_rows(hunk: &DiffHunk) -> (rows: Vec<SplitRow>)
    ensures
        views(rows@) == rows_of(hunk@.lines),
{
    broadcast use {views_push, views_index};

    let mut rows: Vec<SplitRow> = Vec::new();
    let mut index: usize = 0;
    let ghost all = hunk@.lines;
    assert(all.skip(0) =~= all);
    assert(views(rows@) + rows_of(all) =~= rows_of(all));
    while index < hunk.lines.len()
        invariant
            all == views(hunk.lines@),
            index <= hunk.lines.len(),
            views(rows@) + rows_of(all.skip(index as int)) == rows_of(all),
        decreases hunk.lines.len() - index,
    {
        let ghost rest = all.skip(index as int);
        let ghost done = views(rows@);
        assert(rest[0] == all[index as int]);
        match hunk.lines[index].kind {
            DiffLineKind::Context | DiffLineKind::Meta => {
                let line = &hunk.lines[index];
                rows.push(SplitRow { left: Some(line.clone()), right: Some(line.clone()) });
                proof {
                    assert(rest.drop_first() =~= all.skip(index + 1));
                    assert(done + rows_of(rest) =~= views(rows@) + rows_of(all.skip(index + 1)));
                }
                index = index + 1;
            },
            DiffLineKind::Addition | DiffLineKind::Deletion => {
                let start: usize = index;
                while index < hunk.lines.len() && (hunk.lines[index].kind == DiffLineKind::Addition
                    || hunk.lines[index].kind == DiffLineKind::Deletion)
                    invariant
                        all == views(hunk.lines@),
                        start <= index <= hunk.lines.len(),
                        forall|i: int| start <= i < index ==> changed(#[trigger] all[i]),
                    decreases hunk.lines.len() - index,
                {
                    index = index + 1;
                }
                proof {
                    assert(start < index) by {
                        if start == index {
                            assert(changed(all[start as int]));
                        }
                    }
                    let n = index - start;
                    assert forall|i: int| 0 <= i < n implies changed(#[trigger] rest[i]) by {
                        assert(changed(all[start + i]));
                    }
                    if n < rest.len() {
                        assert(rest[n] == all[index as int]);
                    }
                    change_run_is(rest, n);
                    assert(rest.take(n) =~= all.subrange(start as int, index as int));
                    assert(rest.skip(n) =~= all.skip(index as int));
                }
                let deletions = lines_of_kind(&hunk.lines, start, index, DiffLineKind::Deletion);
                let additions = lines_of_kind(&hunk.lines, start, index, DiffLineKind::Addition);
                let ghost block = paired(all.subrange(start as int, index as int));
                let height: usize = if deletions.len() >= additions.len() {
                    deletions.len()
                } else {
                    additions.len()
                };
                let mut k: usize = 0;
                while k < height
                    invariant
                        k <= height,
                        block == paired(all.subrange(start as int, index as int)),
                        views(deletions@) == of_kind(
                            all.subrange(start as int, index as int),
                            DiffLineKind::Deletion,
                        ),
                        views(additions@) == of_kind(
                            all.subrange(start as int, index as int),
                            DiffLineKind::Addition,
                        ),
                        deletions@.len() == views(deletions@).len(),
                        additions@.len() == views(additions@).len(),
                        height == block.len(),
                        views(rows@) == done + block.take(k as int),
                    decreases height - k,
                {
                    let row = SplitRow {
                        left: line_at(&deletions, k),
                        right: line_at(&additions, k),
                    };
                    proof {
                        assert(row@ =~= block[k as int]);
                        assert(block.take(k + 1) =~= block.take(k as int).push(row@));
                        assert(views(rows@).push(row@) =~= done + block.take(k + 1));
                    }
                    rows.push(row);
                    k = k + 1;
                }
                proof {
                    assert(block.take(k as int) =~= block);
                    assert(done + rows_of(rest) =~= views(rows@) + rows_of(all.skip(index as int)));
                }
            },
        }
    }
    assert(all.skip(index as int) =~= Seq::<LineModel>::empty());
    assert(views(rows@) + rows_of(all.skip(index as int)) =~= views(rows@));
    rows
}

/// What a column of rows shows, from the top, where it is not blank.
pub open spec fn column(rows: Seq<RowModel>, left: bool) -> Seq<LineModel>
    decreases rows.len(),
{
    if rows.len() == 0 {
        Seq::empty()
    } else {
        let above = column(rows.drop_last(), left);
        let cell = if left {
            rows.last().left
        } else {
            rows.last().right
        };
        match cell {
            Some(line) => above.push(line),
            None => above,
        }
    }
}

/// The lines that stand in one of the two files: those of its kind of change, and those that
/// are not changed.
pub open spec fn side(lines: Seq<LineModel>, left: bool) -> Seq<LineModel> {
    lines.filter(
        |l: LineModel|
            l.kind != (if left {
                DiffLineKind::Addition
            } else {
                DiffLineKind::Deletion
            }),
    )
}

proof fn column_concat(a: Seq<RowModel>, b: Seq<RowModel>, left: bool)
    ensures
        column(a + b, left) == column(a, left) + column(b, left),
    decreases b.len(),
{
    if b.len() == 0 {
        assert(a + b =~= a);
        assert(column(a, left) + column(b, left) =~= column(a, left));
    } else {
        assert((a + b).drop_last() =~= a + b.drop_last());
        column_concat(a, b.drop_last(), left);
        assert(column(a + b, left) =~= column(a, left) + column(b, left));
    }
}

proof fn column_of_cells(rows: Seq<RowModel>, cells: Seq<LineModel>, left: bool)
    requires
        cells.len() <= rows.len(),
        forall|i: int|
            0 <= i < rows.len() ==> (if left {
                (#[trigger] rows[i]).left
            } else {
                rows[i].right
            }) == (if i < cells.len() {
                Some(cells[i])
            } else {
                None
            }),
    ensures
        column(rows, left) == cells,
    decreases rows.len(),
{
    if rows.len() == 0 {
        assert(cells =~= Seq::empty());
    } else {
        assert(rows.last() == rows[rows.len() - 1]);
        if cells.len() == rows.len() {
            column_of_cells(rows.drop_last(), cells.drop_last(), left);
            assert(cells =~= cells.drop_last().push(cells.last()));
        } else {
            column_of_cells(rows.drop_last(), cells, left);
        }
    }
}

proof fn side_of_changed(block: Seq<LineModel>, left: bool)
    requires
        forall|i: int| 0 <= i < block.len() ==> changed(#[trigger] block[i]),
    ensures
        side(block, left) == of_kind(
            block,
            if left {
                DiffLineKind::Deletion
            } else {
                DiffLineKind::Addition
            },
        ),
    decreases block.len(),
{
    reveal(Seq::filter);
    if block.len() > 0 {
        assert(changed(block.last()));
        side_of_changed(block.drop_last(), left);
    }
}

/// The side-by-side view loses no line and keeps their order: the left column shows the
/// lines of the old file and the right column those of the new one.
pub proof fn split_rows_keep_both_sides(lines: Seq<LineModel>, left: bool)
    ensures
        column(rows_of(lines), left) == side(lines, left),
    decreases lines.len(),
{
    reveal(Seq::filter);
    let f = |l: LineModel|
        l.kind != (if left {
            DiffLineKind::Addition
        } else {
            DiffLineKind::Deletion
        });
    if lines.len() == 0 {
        assert(column(rows_of(lines), left) =~= side(lines, left));
    } else if !changed(lines[0]) {
        let rest = lines.drop_first();
        split_rows_keep_both_sides(rest, left);
        let first = seq![RowModel { left: Some(lines[0]), right: Some(lines[0]) }];
        column_concat(first, rows_of(rest), left);
        column_of_cells(first, seq![lines[0]], left);
        assert(lines =~= seq![lines[0]] + rest);
        Seq::filter_distributes_over_add(seq![lines[0]], rest, f);
        assert(seq![lines[0]].drop_last() =~= Seq::empty());
        assert(seq![lines[0]].filter(f) =~= seq![lines[0]]);
    } else {
        change_run_bound(lines);
        let n = change_run(lines) as int;
        let block = lines.take(n);
        let rest = lines.skip(n);
        split_rows_keep_both_sides(rest, left);
        column_concat(paired(block), rows_of(rest), left);
        assert forall|i: int| 0 <= i < block.len() implies changed(#[trigger] block[i]) by {
            assert(changed(lines[i]));
        }
        side_of_changed(block, left);
        column_of_cells(paired(block), side(block, left), left);
        assert(lines =~= block + rest);
        Seq::filter_distributes_over_add(block, rest, f);
    }
}

/// How many lines of a kind the hunks hold.
pub open spec fn kind_total(hunks: Seq<HunkModel>, kind: DiffLineKind) -> nat
    decreases hunks.len(),
{
    if hunks.len() == 0 {
        0
    } else {
        kind_total(hunks.drop_last(), kind) + of_kind(hunks.last().lines, kind).len()
    }
}

/// Whether a file counts the added and the deleted lines of its hunks.
pub open spec fn counts_lines(f: FileModel) -> bool {
    f.additions == kind_total(f.hunks, DiffLineKind::Addition) && f.deletions == kind_total(
        f.hunks,
        DiffLineKind::Deletion,
    )
}

/// The line number `k` lines after `n`.
pub open spec fn advanced(n: u32, k: nat) -> u32 {
    ((n as nat + k) % 0x1_0000_0000) as u32
}

/// How many lines stand in the old (`left`) or the new file.
pub open spec fn numbered_count(lines: Seq<LineModel>, left: bool) -> nat
    decreases lines.len(),
{
    if lines.len() == 0 {
        0
    } else {
        numbered_count(lines.drop_last(), left) + (if carries_number(lines.last().kind, left) {
            1nat
        } else {
            0nat
        })
    }
}

/// Whether a line of a kind stands in the old (`left`) or the new file.
pub open spec fn carries_number(kind: DiffLineKind, left: bool) -> bool {
    kind == DiffLineKind::Context || kind == (if left {
        DiffLineKind::Deletion
    } else {
        DiffLineKind::Addition
    })
}

/// Whether the lines of a hunk are numbered one after the other, on each side from the start
/// that the header gives.
pub open spec fn numbered_in_order(h: HunkModel) -> bool {
    forall|j: int|
        0 <= j < h.lines.len() ==> {
            &&& (#[trigger] h.lines[j]).old_line == (if carries_number(h.lines[j].kind, true) {
                Some(advanced(h.old_start, numbered_count(h.lines.take(j), true)))
            } else {
                None
            })
            &&& h.lines[j].new_line == (if carries_number(h.lines[j].kind, false) {
                Some(advanced(h.new_start, numbered_count(h.lines.take(j), false)))
            } else {
                None
            })
        }
}

/// What holds of the parser's state between two lines.
spec fn parse_invariant(st: ParseModel) -> bool {
    &&& forall|i: int| 0 <= i < st.files.len() ==> counts_lines(#[trigger] st.files[i])
    &&& forall|i: int, j: int|
        0 <= i < st.files.len() && 0 <= j < st.files[i].hunks.len() ==> numbered_in_order(
            #[trigger] st.files[i].hunks[j],
        )
    &&& st.file matches Some(f) ==> {
        let (a, d) = match st.hunk {
            Some(h) => (
                of_kind(h.lines, DiffLineKind::Addition).len(),
                of_kind(h.lines, DiffLineKind::Deletion).len(),
            ),
            None => (0, 0),
        };
        &&& f.additions == kind_total(f.hunks, DiffLineKind::Addition) + a
        &&& f.deletions == kind_total(f.hunks, DiffLineKind::Deletion) + d
        &&& forall|j: int| 0 <= j < f.hunks.len() ==> numbered_in_order(#[trigger] f.hunks[j])
    }
    &&& st.hunk matches Some(h) ==> {
        &&& numbered_in_order(h)
        &&& st.file is Some ==> {
            &&& st.old_line == advanced(h.old_start, numbered_count(h.lines, true))
            &&& st.new_line == advanced(h.new_start, numbered_count(h.lines, false))
        }
        &&& st.file is None ==> h.lines.len() == 0
    }
}

proof fn hunk_closed_invariant(st: ParseModel)
    requires
        parse_invariant(st),
    ensures
        parse_invariant(hunk_closed(st)),
{
    if st.file is Some && st.hunk is Some {
        let f = st.file->0;
        let h = st.hunk->0;
        let hunks = f.hunks.push(h);
        assert(hunks.drop_last() =~= f.hunks);
    }
}

proof fn file_closed_invariant(st: ParseModel)
    requires
        parse_invariant(st),
        st.hunk is None,
    ensures
        parse_invariant(file_closed(st)),
{
    if st.file is Some {
        let files = st.files.push(st.file->0);
        assert forall|i: int, j: int|
            0 <= i < files.len() && 0 <= j < files[i].hunks.len() implies numbered_in_order(
            #[trigger] files[i].hunks[j],
        ) by {
            if i < st.files.len() {
                assert(numbered_in_order(st.files[i].hunks[j]));
            }
        }
    }
}

proof fn advanced_next(n: u32, k: nat)
    ensures
        next_number(advanced(n, k)) == advanced(n, k + 1),
{
}

/// A hunk stays numbered in order when it grows by a line with the next numbers.
proof fn numbered_push(h: HunkModel, line: LineModel)
    requires
        numbered_in_order(h),
        line.old_line == (if carries_number(line.kind, true) {
            Some(advanced(h.old_start, numbered_count(h.lines, true)))
        } else {
            None
        }),
        line.new_line == (if carries_number(line.kind, false) {
            Some(advanced(h.new_start, numbered_count(h.lines, false)))
        } else {
            None
        }),
    ensures
        numbered_in_order((HunkModel { lines: h.lines.push(line), ..h })),
        forall|left: bool|
            numbered_count(h.lines.push(line), left) == #[trigger] numbered_count(h.lines, left)
                + (if carries_number(line.kind, left) {
                1nat
            } else {
                0nat
            }),
{
    let lines = h.lines.push(line);
    assert(lines.drop_last() =~= h.lines);
    assert forall|j: int| 0 <= j < lines.len() implies lines.take(j) == #[trigger] h.lines.take(j) by {
        assert(lines.take(j) =~= h.lines.take(j));
    }
    let g = HunkModel { lines, ..h };
    assert forall|j: int| 0 <= j < lines.len() implies {
        &&& (#[trigger] g.lines[j]).old_line == (if carries_number(g.lines[j].kind, true) {
            Some(advanced(g.old_start, numbered_count(g.lines.take(j), true)))
        } else {
            None
        })
        &&& g.lines[j].new_line == (if carries_number(g.lines[j].kind, false) {
            Some(advanced(g.new_start, numbered_count(g.lines.take(j), false)))
        } else {
            None
        })
    } by {
        assert(lines.take(j) == h.lines.take(j));
        if j < h.lines.len() {
            assert(g.lines[j] == h.lines[j]);
        } else {
            assert(h.lines.take(j) =~= h.lines);
        }
    }
}

proof fn of_kind_push(lines: Seq<LineModel>, line: LineModel, kind: DiffLineKind)
    ensures
        of_kind(lines.push(line), kind).len() == of_kind(lines, kind).len() + (if line.kind == kind {
            1nat
        } else {
            0nat
        }),
{
    reveal(Seq::filter);
    assert(lines.push(line).drop_last() =~= lines);
}

proof fn hunk_line_invariant(st: ParseModel, f: FileModel, h: HunkModel, line: Seq<char>)
    requires
        parse_invariant(st),
        st.file == Some(f),
        st.hunk == Some(h),
    ensures
        parse_invariant(hunk_line(st, f, h, line)),
{
    let next = hunk_line(st, f, h, line);
    let added = next.hunk->0.lines.last();
    assert(next.hunk->0.lines =~= h.lines.push(added));
    numbered_push(h, added);
    advanced_next(h.old_start, numbered_count(h.lines, true));
    advanced_next(h.new_start, numbered_count(h.lines, false));
    of_kind_push(h.lines, added, DiffLineKind::Addition);
    of_kind_push(h.lines, added, DiffLineKind::Deletion);
    assert(next.hunk->0 == HunkModel { lines: h.lines.push(added), ..h });
}

proof fn opened_invariant(st: ParseModel, line: Seq<char>, paths: Seq<char>)
    requires
        parse_invariant(st),
    ensures
        parse_invariant(hunk_opened(st, line)),
        parse_invariant(file_opened(st, paths)),
{
    reveal(Seq::filter);
    hunk_closed_invariant(st);
    file_closed_invariant(hunk_closed(st));
}

proof fn parse_step_invariant(st: ParseModel, line: Seq<char>)
    requires
        parse_invariant(st),
    ensures
        parse_invariant(parse_step(st, line)),
{
    match after_prefix(line, "diff --git "@) {
        Some(paths) => {
            opened_invariant(st, line, paths);
        },
        None => {
            if begins(line, "@@"@) {
                opened_invariant(st, line, line);
            } else if st.file is Some && st.hunk is Some {
                hunk_line_invariant(st, st.file->0, st.hunk->0, line);
            }
        },
    }
}

proof fn parse_lines_invariant(lines: Seq<Seq<char>>)
    ensures
        parse_invariant(parse_lines(lines)),
    decreases lines.len(),
{
    if lines.len() > 0 {
        parse_lines_invariant(lines.drop_last());
        parse_step_invariant(parse_lines(lines.drop_last()), lines.last());
    }
}

/// Every file of a parsed diff counts as many additions and deletions as its hunks hold.
pub proof fn parsed_files_count_their_lines(input: Seq<char>)
    ensures
        forall|i: int| 0 <= i < parsed(input).len() ==> counts_lines(#[trigger] parsed(input)[i]),
{
    let st = parse_lines(lines_of(input));
    parse_lines_invariant(lines_of(input));
    hunk_closed_invariant(st);
    file_closed_invariant(hunk_closed(st));
}

/// Every hunk of a parsed diff numbers its lines one after the other on each side, from the
/// starts that its header gives.
pub proof fn parsed_hunks_are_numbered_in_order(input: Seq<char>)
    ensures
        forall|i: int, j: int|
            0 <= i < parsed(input).len() && 0 <= j < parsed(input)[i].hunks.len()
                ==> numbered_in_order(#[trigger] parsed(input)[i].hunks[j]),
{
    let st = parse_lines(lines_of(input));
    parse_lines_invariant(lines_of(input));
    hunk_closed_invariant(st);
    file_closed_invariant(hunk_closed(st));
}

/// How many of the lines open a file.
pub open spec fn file_headers(lines: Seq<Seq<char>>) -> nat
    decreases lines.len(),
{
    if lines.len() == 0 {
        0
    } else if begins(lines.last(), "diff --git "@) {
        file_headers(lines.drop_last()) + 1
    } else {
        file_headers(lines.drop_last())
    }
}

proof fn files_are_opened_by_headers(lines: Seq<Seq<char>>)
    ensures
        file_closed(hunk_closed(parse_lines(lines))).files.len() == file_headers(lines),
    decreases lines.len(),
{
    if lines.len() > 0 {
        files_are_opened_by_headers(lines.drop_last());
    }
}

/// A parsed diff has a file for each line that opens one, and for no other line.
pub proof fn parsed_files_are_those_with_a_header(input: Seq<char>)
    ensures
        parsed(input).len() == file_headers(lines_of(input)),
{
    files_are_opened_by_headers(lines_of(input));
}

/// Whether two states differ in the files that are complete alone, of which the first has
/// `earlier` before those of the second. The numbers of the next lines count within a hunk only.
spec fn follows(st: ParseModel, other: ParseModel, earlier: Seq<FileModel>) -> bool {
    &&& st.files == earlier + other.files
    &&& st.file == other.file
    &&& st.hunk == other.hunk
    &&& st.hunk is Some ==> st.old_line == other.old_line && st.new_line == other.new_line
}

proof fn closing_follows(st: ParseModel, other: ParseModel, earlier: Seq<FileModel>)
    requires
        follows(st, other, earlier),
    ensures
        follows(hunk_closed(st), hunk_closed(other), earlier),
        follows(file_closed(hunk_closed(st)), file_closed(hunk_closed(other)), earlier),
{
    let a = file_closed(hunk_closed(st)).files;
    let b = file_closed(hunk_closed(other)).files;
    assert(a =~= earlier + b);
}

proof fn step_follows(
    st: ParseModel,
    other: ParseModel,
    earlier: Seq<FileModel>,
    line: Seq<char>,
)
    requires
        follows(st, other, earlier),
    ensures
        follows(parse_step(st, line), parse_step(other, line), earlier),
{
    closing_follows(st, other, earlier);
}

proof fn lines_follow(a: Seq<Seq<char>>, b: Seq<Seq<char>>)
    requires
        b.len() > 0,
        begins(b[0], "diff --git "@),
    ensures
        follows(
            parse_lines(a + b),
            parse_lines(b),
            file_closed(hunk_closed(parse_lines(a))).files,
        ),
    decreases b.len(),
{
    let earlier = file_closed(hunk_closed(parse_lines(a))).files;
    assert((a + b).drop_last() =~= a + b.drop_last());
    assert((a + b).last() == b.last());
    if b.len() == 1 {
        assert(b.drop_last() =~= Seq::empty());
        assert(a + b.drop_last() =~= a);
        assert(parse_lines(b.drop_last()) == parse_start());
        assert(earlier + Seq::<FileModel>::empty() =~= earlier);
    } else {
        lines_follow(a, b.drop_last());
        step_follows(parse_lines(a + b.drop_last()), parse_lines(b.drop_last()), earlier, b.last());
    }
}

/// Two diffs, one after the other, give the files of the first and then those of the second.
pub proof fn diffs_are_parsed_one_after_the_other(a: Seq<char>, b: Seq<char>)
    requires
        a.len() > 0 ==> a.last() == '\n',
        b.len() > 0 ==> begins(b, "diff --git "@),
    ensures
        parsed(a + b) == parsed(a) + parsed(b),
{
    text::lines_are_appended(a, b);
    if b.len() == 0 {
        assert(lines_of(b) =~= Seq::empty());
        assert(lines_of(a) + lines_of(b) =~= lines_of(a));
        assert(parsed(b) =~= Seq::empty());
    } else {
        let p = "diff --git "@;
        reveal_strlit("diff --git ");
        assert(p.len() == 11 && p[10] == ' ');
        assert(unbroken(p));
        assert(b =~= p + b.skip(11));
        text::first_line_begins(p, b.skip(11));
        lines_follow(lines_of(a), lines_of(b));
        closing_follows(
            parse_lines(lines_of(a) + lines_of(b)),
            parse_lines(lines_of(b)),
            parsed(a),
        );
    }
}

/// A line of a hunk as it stood in the diff.
pub open spec fn written_line(line: LineModel) -> Seq<char> {
    match line.kind {
        DiffLineKind::Addition => "+"@ + line.text,
        DiffLineKind::Deletion => "-"@ + line.text,
        DiffLineKind::Context => " "@ + line.text,
        DiffLineKind::Meta => line.text,
    }
}

/// The lines of a hunk as they stood in the diff.
pub open spec fn written_lines(h: HunkModel) -> Seq<Seq<char>> {
    h.lines.map_values(|line: LineModel| written_line(line))
}

/// Whether a line belongs to the hunk that is being read: it opens neither a file nor a hunk.
pub open spec fn within_hunk(line: Seq<char>) -> bool {
    !begins(line, "diff --git "@) && !begins(line, "@@"@)
}

proof fn line_is_kept(line: Seq<char>, p: Seq<char>)
    requires
        begins(line, p),
    ensures
        p + line.skip(p.len() as int) == line,
{
    assert(line.subrange(0, p.len() as int) == p);
    assert(p + line.skip(p.len() as int) =~= line);
}

/// A hunk keeps every line that follows its header up to the next hunk or file: the lines of the
/// hunk, written as they stood, are the lines of the diff, in order.
pub proof fn hunks_keep_their_lines(head: Seq<Seq<char>>, body: Seq<Seq<char>>)
    requires
        parse_lines(head).file is Some,
        parse_lines(head).hunk is Some,
        forall|i: int| 0 <= i < body.len() ==> within_hunk(#[trigger] body[i]),
    ensures
        ({
            let before = parse_lines(head);
            let after = parse_lines(head + body);
            &&& after.files == before.files
            &&& after.file is Some
            &&& after.hunk is Some
            &&& written_lines(after.hunk->0) == written_lines(before.hunk->0) + body
        }),
    decreases body.len(),
{
    if body.len() == 0 {
        assert(head + body =~= head);
        assert(written_lines(parse_lines(head).hunk->0) + body =~= written_lines(
            parse_lines(head).hunk->0,
        ));
    } else {
        let fewer = body.drop_last();
        let line = body.last();
        assert forall|i: int| 0 <= i < fewer.len() implies within_hunk(#[trigger] fewer[i]) by {
            assert(within_hunk(body[i]));
        }
        hunks_keep_their_lines(head, fewer);
        assert((head + body).drop_last() =~= head + fewer);
        assert((head + body).last() == line);
        assert(within_hunk(body[body.len() - 1]));
        let st = parse_lines(head + fewer);
        let after = parse_lines(head + body);
        if begins(line, "+"@) {
            line_is_kept(line, "+"@);
        } else if begins(line, "-"@) {
            line_is_kept(line, "-"@);
        } else if begins(line, " "@) {
            line_is_kept(line, " "@);
        }
        assert(written_lines(after.hunk->0) =~= written_lines(st.hunk->0).push(line));
        assert(written_lines(parse_lines(head).hunk->0) + body =~= (written_lines(
            parse_lines(head).hunk->0,
        ) + fewer).push(line));
    }
}

/// A range as a hunk header writes it, with its length.
pub open spec fn full_range(start: u32, count: u32) -> Seq<char> {
    decimal(start as nat) + ","@ + decimal(count as nat)
}

/// A hunk header with its ranges in words.
pub open spec fn header_of(old: Seq<char>, new: Seq<char>, tail: Seq<char>) -> Seq<char> {
    "@@ -"@ + old + " +"@ + new + " @@"@ + tail
}

/// Whether a text holds digits and commas only.
spec fn is_range(s: Seq<char>) -> bool {
    forall|i: int| 0 <= i < s.len() ==> is_digit(#[trigger] s[i]) || s[i] == ','
}

proof fn full_ranges_are_read(start: u32, count: u32)
    ensures
        range_value(full_range(start, count)) == Some((start, count)),
        is_range(full_range(start, count)),
{
    let (a, b) = (decimal(start as nat), decimal(count as nat));
    let s = full_range(start, count);
    let max = u32::MAX as nat;
    text::decimals_are_read_back(start as nat, max);
    text::decimals_are_read_back(count as nat, max);
    reveal_strlit(",");
    let p = ","@;
    assert(p.len() == 1 && p[0] == ',');
    assert(s.subrange(a.len() as int, a.len() as int + 1) =~= p);
    assert forall|j: int| 0 <= j < a.len() implies !occurs_at(s, p, j) by {
        assert(is_digit(a[j]));
        assert(s.subrange(j, j + 1)[0] == a[j]);
    }
    text::first_is_found(s, p, a.len() as int);
    assert(s.take(a.len() as int) =~= a);
    assert(s.skip(a.len() as int + 1) =~= b);
    assert forall|i: int| 0 <= i < s.len() implies is_digit(#[trigger] s[i]) || s[i] == ',' by {
        if i < a.len() {
            assert(s[i] == a[i]);
        } else if i > a.len() {
            assert(s[i] == b[i - a.len() - 1]);
        }
    }
}

proof fn short_ranges_are_read(start: u32)
    ensures
        range_value(decimal(start as nat)) == Some((start, 1u32)),
        is_range(decimal(start as nat)),
{
    let s = decimal(start as nat);
    let max = u32::MAX as nat;
    text::decimals_are_read_back(start as nat, max);
    text::decimals_are_read_back(1, max);
    reveal_strlit(",");
    reveal_strlit("1");
    assert(decimal(1) =~= "1"@);
    find_from_is_first(s, ","@, 0);
    if let Some(k) = find(s, ","@) {
        assert(s.subrange(k, k + 1)[0] == ',');
        assert(is_digit(s[k]));
    }
}

/// The two ranges of a hunk header, as they stand in it.
spec fn two_ranges(old: Seq<char>, new: Seq<char>) -> Seq<char> {
    seq!['-'] + old + seq![' ', '+'] + new
}

proof fn ranges_end_at_the_mark(old: Seq<char>, new: Seq<char>, tail: Seq<char>)
    requires
        is_range(old),
        is_range(new),
    ensures
        before(two_ranges(old, new) + " @@"@ + tail, " @@"@) == two_ranges(old, new),
{
    reveal_strlit(" @@");
    let p = " @@"@;
    let ranges = two_ranges(old, new);
    let rest = ranges + p + tail;
    let end = ranges.len() as int;
    assert(rest.subrange(end, end + 3) =~= p);
    assert forall|j: int| 0 <= j < end implies !occurs_at(rest, p, j) by {
        if occurs_at(rest, p, j) {
            let at = rest.subrange(j, j + 3);
            assert(at[0] == ' ' && at[1] == '@');
            assert(rest[j] == ' ' && rest[j + 1] == '@');
            assert(rest[j] == ranges[j]);
            if 0 < j <= old.len() {
                assert(ranges[j] == old[j - 1]);
            } else if j > old.len() + 2 {
                assert(ranges[j] == new[j - old.len() - 3]);
            } else if j == old.len() + 1 {
                assert(rest[j + 1] == ranges[j + 1]);
            }
        }
    }
    text::first_is_found(rest, p, end);
    assert(rest.take(end) =~= ranges);
}

proof fn ranges_are_two_words(old: Seq<char>, new: Seq<char>)
    requires
        is_range(old),
        is_range(new),
    ensures
        words_of(two_ranges(old, new)) == seq![seq!['-'] + old, seq!['+'] + new],
{
    let first = seq!['-'] + old;
    let second = seq!['+'] + new;
    assert(unspaced(first)) by {
        assert forall|i: int| 0 <= i < first.len() implies !text::is_space(#[trigger] first[i]) by {
            if i > 0 {
                assert(first[i] == old[i - 1]);
            }
        }
    }
    assert(unspaced(second)) by {
        assert forall|i: int| 0 <= i < second.len() implies !text::is_space(
            #[trigger] second[i],
        ) by {
            if i > 0 {
                assert(second[i] == new[i - 1]);
            }
        }
    }
    text::two_words(first, second);
    assert(two_ranges(old, new) =~= first + seq![' '] + second);
}

proof fn headers_are_cut(old: Seq<char>, new: Seq<char>, tail: Seq<char>)
    requires
        is_range(old),
        is_range(new),
    ensures
        header_ranges(header_of(old, new, tail)) == (match (range_value(old), range_value(new)) {
            (Some(o), Some(n)) => Some((o.0, o.1, n.0, n.1)),
            _ => None,
        }),
{
    let h = header_of(old, new, tail);
    let rest = two_ranges(old, new) + " @@"@ + tail;
    let first = seq!['-'] + old;
    let second = seq!['+'] + new;
    assert(after_prefix(h, "@@ "@) == Some(rest)) by {
        reveal_strlit("@@ -");
        reveal_strlit(" +");
        reveal_strlit("@@ ");
        assert(h =~= "@@ "@ + rest);
        assert(h.subrange(0, 3) =~= "@@ "@);
        assert(h.skip(3) =~= rest);
    }
    ranges_end_at_the_mark(old, new, tail);
    ranges_are_two_words(old, new);
    assert(after_prefix(first, "-"@) == Some(old)) by {
        reveal_strlit("-");
        assert(first.subrange(0, 1) =~= "-"@);
        assert(first.skip(1) =~= old);
    }
    assert(after_prefix(second, "+"@) == Some(new)) by {
        reveal_strlit("+");
        assert(second.subrange(0, 1) =~= "+"@);
        assert(second.skip(1) =~= new);
    }
}

/// A hunk header is read back, whatever follows its ranges; a length that is left out is one.
pub proof fn hunk_headers_are_read_back(
    old_start: u32,
    old_count: u32,
    new_start: u32,
    new_count: u32,
    tail: Seq<char>,
)
    ensures
        header_ranges(
            header_of(full_range(old_start, old_count), full_range(new_start, new_count), tail),
        ) == Some((old_start, old_count, new_start, new_count)),
        header_ranges(header_of(decimal(old_start as nat), decimal(new_start as nat), tail)) == Some(
            (old_start, 1u32, new_start, 1u32),
        ),
{
    full_ranges_are_read(old_start, old_count);
    full_ranges_are_read(new_start, new_count);
    headers_are_cut(full_range(old_start, old_count), full_range(new_start, new_count), tail);
    short_ranges_are_read(old_start);
    short_ranges_are_read(new_start);
    headers_are_cut(decimal(old_start as nat), decimal(new_start as nat), tail);
}

/// Whether a hunk is another one with blank lines behind it at most.
pub open spec fn blank_ended(h: HunkModel, g: HunkModel) -> bool {
    &&& g == (HunkModel { lines: g.lines, ..h })
    &&& g.lines.len() >= h.lines.len()
    &&& g.lines.take(h.lines.len() as int) == h.lines
    &&& forall|i: int|
        h.lines.len() <= i < g.lines.len() ==> (#[trigger] g.lines[i]).kind == DiffLineKind::Meta
            && g.lines[i].text.len() == 0
}

/// Whether a file is another one with blank lines behind its hunks at most: the same change.
pub open spec fn same_change(f: FileModel, g: FileModel) -> bool {
    &&& g == (FileModel { hunks: g.hunks, ..f })
    &&& g.hunks.len() == f.hunks.len()
    &&& forall|i: int| 0 <= i < f.hunks.len() ==> #[trigger] blank_ended(f.hunks[i], g.hunks[i])
}

/// A change is the same as itself.
pub proof fn changes_are_the_same_as_themselves(f: FileModel)
    ensures
        same_change(f, f),
{
    assert forall|i: int| 0 <= i < f.hunks.len() implies #[trigger] blank_ended(
        f.hunks[i],
        f.hunks[i],
    ) by {
        assert(f.hunks[i].lines.take(f.hunks[i].lines.len() as int) =~= f.hunks[i].lines);
    }
}

/// What is the same change as the same change is the same change.
pub proof fn same_changes_chain(f: FileModel, g: FileModel, h: FileModel)
    requires
        same_change(f, g),
        same_change(g, h),
    ensures
        same_change(f, h),
{
    assert forall|i: int| 0 <= i < f.hunks.len() implies #[trigger] blank_ended(
        f.hunks[i],
        h.hunks[i],
    ) by {
        assert(blank_ended(f.hunks[i], g.hunks[i]));
        assert(blank_ended(g.hunks[i], h.hunks[i]));
        let (a, b, c) = (f.hunks[i].lines, g.hunks[i].lines, h.hunks[i].lines);
        assert(c.take(a.len() as int) =~= a) by {
            assert(c.take(b.len() as int).take(a.len() as int) =~= c.take(a.len() as int));
        }
        assert forall|k: int| a.len() <= k < c.len() implies (#[trigger] c[k]).kind
            == DiffLineKind::Meta && c[k].text.len() == 0 by {
            if k < b.len() {
                assert(c.take(b.len() as int)[k] == c[k]);
                assert(b[k].kind == DiffLineKind::Meta);
            }
        }
    }
}

/// Whether two states hold the same changes, those of the second with blank lines at the end.
spec fn same_state(st: ParseModel, other: ParseModel) -> bool {
    let a = file_closed(hunk_closed(st)).files;
    let b = file_closed(hunk_closed(other)).files;
    a.len() == b.len() && forall|i: int| 0 <= i < a.len() ==> #[trigger] same_change(a[i], b[i])
}

proof fn blank_lines_change_nothing(lines: Seq<Seq<char>>)
    ensures
        same_state(parse_lines(lines), parse_lines(lines.push(Seq::empty()))),
{
    let blank = Seq::<char>::empty();
    let st = parse_lines(lines);
    let all = lines.push(blank);
    assert(all.drop_last() =~= lines);
    let next = parse_lines(all);
    assert(next == parse_step(st, blank));
    reveal_strlit("diff --git ");
    reveal_strlit("@@");
    reveal_strlit("+");
    reveal_strlit("-");
    reveal_strlit(" ");
    reveal_strlit("--- ");
    reveal_strlit("+++ ");
    reveal_strlit("new file mode ");
    reveal_strlit("deleted file mode ");
    reveal_strlit("rename from ");
    reveal_strlit("Binary files ");
    reveal_strlit("GIT binary patch");
    assert(blank.len() == 0);
    assert("GIT binary patch"@.len() == 16);
    let a = file_closed(hunk_closed(st)).files;
    let b = file_closed(hunk_closed(next)).files;
    assert forall|i: int| 0 <= i < a.len() implies #[trigger] same_change(a[i], b[i]) by {
        if st.file is Some && st.hunk is Some && i == a.len() - 1 {
            let h = st.hunk->0;
            let g = next.hunk->0;
            assert(g.lines == h.lines.push(
                LineModel {
                    kind: DiffLineKind::Meta,
                    old_line: None,
                    new_line: None,
                    text: blank,
                },
            ));
            assert(g.lines.take(h.lines.len() as int) =~= h.lines);
            assert(blank_ended(h, g));
            let f = st.file->0;
            assert forall|k: int| 0 <= k < a[i].hunks.len() implies #[trigger] blank_ended(
                a[i].hunks[k],
                b[i].hunks[k],
            ) by {
                if k < f.hunks.len() {
                    let x = f.hunks[k];
                    assert(a[i].hunks[k] == x && b[i].hunks[k] == x);
                    assert(x.lines.take(x.lines.len() as int) =~= x.lines);
                }
            }
        } else {
            assert(a[i] == b[i]);
            changes_are_the_same_as_themselves(a[i]);
        }
    }
}

/// A blank line behind a diff changes none of its files, but that the last hunk ends with blank
/// lines.
pub proof fn blank_lines_belong_to_the_last_hunk(d: Seq<char>)
    requires
        d.len() > 0,
        d.last() != '\r',
    ensures
        parsed(d + "\n\n"@).len() == parsed(d).len(),
        forall|i: int|
            0 <= i < parsed(d).len() ==> #[trigger] same_change(
                parsed(d)[i],
                parsed(d + "\n\n"@)[i],
            ),
{
    let blank = Seq::<char>::empty();
    text::blank_lines_are_lines(d);
    blank_lines_change_nothing(lines_of(d));
    if d.last() == '\n' {
        let one = lines_of(d).push(blank);
        blank_lines_change_nothing(one);
        let a = parsed(d);
        let b = file_closed(hunk_closed(parse_lines(one))).files;
        let c = parsed(d + "\n\n"@);
        assert forall|i: int| 0 <= i < a.len() implies #[trigger] same_change(a[i], c[i]) by {
            assert(same_change(a[i], b[i]));
            assert(same_change(b[i], c[i]));
            same_changes_chain(a[i], b[i], c[i]);
        }
    }
}

/// Whether two lists hold the same changes.
pub open spec fn same_changes(a: Seq<FileModel>, b: Seq<FileModel>) -> bool {
    a.len() == b.len() && forall|i: int| 0 <= i < a.len() ==> #[trigger] same_change(a[i], b[i])
}

/// Lists of the same changes chain.
pub proof fn same_lists_chain(a: Seq<FileModel>, b: Seq<FileModel>, c: Seq<FileModel>)
    requires
        same_changes(a, b),
        same_changes(b, c),
    ensures
        same_changes(a, c),
{
    assert forall|i: int| 0 <= i < a.len() implies #[trigger] same_change(a[i], c[i]) by {
        assert(same_change(a[i], b[i]));
        assert(same_change(b[i], c[i]));
        same_changes_chain(a[i], b[i], c[i]);
    }
}

/// Lists of the same changes stay so with one more file behind both.
pub proof fn same_lists_grow(a: Seq<FileModel>, b: Seq<FileModel>, f: FileModel)
    requires
        same_changes(a, b),
    ensures
        same_changes(a.push(f), b.push(f)),
{
    changes_are_the_same_as_themselves(f);
    assert forall|i: int| 0 <= i < a.push(f).len() implies #[trigger] same_change(
        a.push(f)[i],
        b.push(f)[i],
    ) by {
        if i < a.len() {
            assert(same_change(a[i], b[i]));
        }
    }
}

/// A list holds the same changes as itself.
pub proof fn lists_are_the_same_as_themselves(a: Seq<FileModel>)
    ensures
        same_changes(a, a),
{
    assert forall|i: int| 0 <= i < a.len() implies #[trigger] same_change(a[i], a[i]) by {
        changes_are_the_same_as_themselves(a[i]);
    }
}

/// Whether a path can stand at the end of a line as it is: it does not end in white space or in a
/// quotation mark.
pub open spec fn plain_path(path: Seq<char>) -> bool {
    path.len() > 0 && !is_space(path.last()) && path.last() != '"'
}

/// A text with nothing to take away at its ends stays as it is.
proof fn plain_texts_stay(s: Seq<char>)
    requires
        s.len() > 0,
        !is_space(s[0]),
        !is_space(s.last()),
        s[0] != '"',
        s.last() != '"',
    ensures
        unquoted(trimmed(s), '"') == s,
{
    text::trimming_takes_white_space_alone(s);
    let quote = text::is_char('"');
    assert(!quote(s[0]) && !quote(s.last()));
    assert(text::trim_front(s, quote) == s);
    assert(text::trim_back(s, quote) == s);
}

proof fn sides_are_taken_off(path: Seq<char>, side: char)
    requires
        plain_path(path),
        side == 'a' || side == 'b',
    ensures
        bare_path(seq![side, '/'] + path) == path,
{
    reveal_strlit("a/");
    reveal_strlit("b/");
    assert("a/"@ =~= seq!['a', '/']);
    assert("b/"@ =~= seq!['b', '/']);
    let s = seq![side, '/'] + path;
    assert(s[0] == side);
    assert(s.last() == path.last());
    plain_texts_stay(s);
    assert(s.subrange(0, 2) =~= seq![side, '/']);
    assert(s.skip(2) =~= path);
    if side == 'b' {
        text::begins_otherwise(s, "a/"@);
    }
}

/// A path is what stands behind the mark of its side, and the path of no file is its own.
pub proof fn paths_stand_behind_their_side(path: Seq<char>)
    requires
        plain_path(path),
    ensures
        bare_path(seq!['a', '/'] + path) == path,
        bare_path(seq!['b', '/'] + path) == path,
        bare_path("/dev/null"@) == "/dev/null"@,
{
    sides_are_taken_off(path, 'a');
    sides_are_taken_off(path, 'b');
    reveal_strlit("/dev/null");
    reveal_strlit("a/");
    reveal_strlit("b/");
    let null = "/dev/null"@;
    assert(null[0] == '/' && null.last() == 'l');
    plain_texts_stay(null);
    text::begins_otherwise(null, "a/"@);
    text::begins_otherwise(null, "b/"@);
}

/// A file is read with the two paths that its header names, and then with those that its own lines
/// name.
pub proof fn files_bear_their_paths(st: ParseModel, f: FileModel, old: Seq<char>, new: Seq<char>)
    requires
        plain_path(old),
        plain_path(new),
        forall|j: int| !#[trigger] occurs_at(old, " b/"@, j),
    ensures
        ({
            let line = "diff --git "@ + (seq!['a', '/'] + old + " b/"@ + new);
            let after = parse_step(st, line);
            after.hunk is None && (after.file matches Some(g) && g.old_path == old && g.new_path
                == new && g.hunks.len() == 0 && g.additions == 0 && g.deletions == 0 && g.status
                is None && !g.binary)
        }),
        file_line(f, "--- "@ + (seq!['a', '/'] + old)) == (FileModel { old_path: old, ..f }),
        file_line(f, "+++ "@ + (seq!['b', '/'] + new)) == (FileModel { new_path: new, ..f }),
{
    let paths = seq!['a', '/'] + old + " b/"@ + new;
    header_paths_are_named(old, new);
    let start = "diff --git "@;
    let line = start + paths;
    assert(line.subrange(0, start.len() as int) =~= start);
    assert(line.skip(start.len() as int) =~= paths);
    paths_stand_behind_their_side(old);
    paths_stand_behind_their_side(new);
    let (minus, plus) = ("--- "@, "+++ "@);
    reveal_strlit("--- ");
    reveal_strlit("+++ ");
    let a = minus + (seq!['a', '/'] + old);
    let b = plus + (seq!['b', '/'] + new);
    assert(a.subrange(0, minus.len() as int) =~= minus);
    assert(a.skip(minus.len() as int) =~= seq!['a', '/'] + old);
    assert(b.subrange(0, plus.len() as int) =~= plus);
    assert(b.skip(plus.len() as int) =~= seq!['b', '/'] + new);
    text::begins_otherwise(b, minus);
}

proof fn header_paths_are_named(old: Seq<char>, new: Seq<char>)
    requires
        plain_path(old),
        plain_path(new),
        forall|j: int| !#[trigger] occurs_at(old, " b/"@, j),
    ensures
        header_paths(seq!['a', '/'] + old + " b/"@ + new) == (old, new),
{
    let p = " b/"@;
    reveal_strlit(" b/");
    reveal_strlit("b/");
    let first = seq!['a', '/'] + old;
    let s = first + p + new;
    text::trimming_takes_white_space_alone(s);
    assert(s[0] == 'a');
    assert(s.last() == new.last());
    let end = first.len() as int;
    assert(s.subrange(end, end + 3) =~= p);
    assert forall|j: int| 0 <= j < end implies !occurs_at(s, p, j) by {
        if occurs_at(s, p, j) {
            let at = s.subrange(j, j + 3);
            assert(at[0] == s[j] && at[1] == s[j + 1] && at[2] == s[j + 2]);
            assert(at == p);
            assert(s[j] == ' ' && s[j + 1] == 'b' && s[j + 2] == '/');
            if j >= 2 && j + 3 <= end {
                assert(old.subrange(j - 2, j + 1) =~= at);
                assert(occurs_at(old, p, j - 2));
            } else if j >= 2 {
                assert(s[end] == ' ');
            }
        }
    }
    text::first_is_found(s, p, end);
    assert(s.take(end) =~= first);
    assert(s.skip(end + 3) =~= new);
    assert("b/"@ =~= seq!['b', '/']);
    paths_stand_behind_their_side(old);
    paths_stand_behind_their_side(new);
}

/// What became of a file is read from its lines: that it was added, deleted or renamed, or that it
/// holds no text. Its paths stay.
pub proof fn what_became_of_a_file_is_read(f: FileModel, line: Seq<char>)
    ensures
        begins(line, "new file mode "@) ==> file_line(f, line) == (FileModel {
            status: Some("Added"@),
            ..f
        }),
        begins(line, "deleted file mode "@) ==> file_line(f, line) == (FileModel {
            status: Some("Deleted"@),
            ..f
        }),
        begins(line, "rename from "@) ==> file_line(f, line) == (FileModel {
            status: Some("Renamed"@),
            ..f
        }),
        begins(line, "Binary files "@) ==> file_line(f, line).binary && file_line(f, line).hunks
            == f.hunks && (f.status is None ==> file_line(f, line).status == Some("Binary"@)) && (
        f.status is Some ==> file_line(f, line).status == f.status),
        file_line(f, line).additions == f.additions,
        file_line(f, line).deletions == f.deletions,
        file_line(f, line).hunks == f.hunks,
{
    reveal_strlit("--- ");
    reveal_strlit("+++ ");
    reveal_strlit("new file mode ");
    reveal_strlit("deleted file mode ");
    reveal_strlit("rename from ");
    reveal_strlit("Binary files ");
    if begins(line, "new file mode "@) {
        first_character_is_shared(line, "new file mode "@);
        text::begins_otherwise(line, "--- "@);
        text::begins_otherwise(line, "+++ "@);
    }
    if begins(line, "deleted file mode "@) {
        first_character_is_shared(line, "deleted file mode "@);
        text::begins_otherwise(line, "--- "@);
        text::begins_otherwise(line, "+++ "@);
        text::begins_otherwise(line, "new file mode "@);
    }
    if begins(line, "rename from "@) {
        first_character_is_shared(line, "rename from "@);
        text::begins_otherwise(line, "--- "@);
        text::begins_otherwise(line, "+++ "@);
        text::begins_otherwise(line, "new file mode "@);
        text::begins_otherwise(line, "deleted file mode "@);
    }
    if begins(line, "Binary files "@) {
        first_character_is_shared(line, "Binary files "@);
        text::begins_otherwise(line, "--- "@);
        text::begins_otherwise(line, "+++ "@);
        text::begins_otherwise(line, "new file mode "@);
        text::begins_otherwise(line, "deleted file mode "@);
        text::begins_otherwise(line, "rename from "@);
    }
}

proof fn first_character_is_shared(s: Seq<char>, p: Seq<char>)
    requires
        begins(s, p),
        p.len() > 0,
    ensures
        s.len() > 0,
        s[0] == p[0],
{
    assert(s.subrange(0, p.len() as int)[0] == s[0]);
}

/// In a hunk a line is read as what its mark says: added, taken away or left as it is, with the
/// words behind the mark, and numbered on the sides on which it stands.
pub proof fn lines_are_read_by_their_mark(
    st: ParseModel,
    f: FileModel,
    h: HunkModel,
    words: Seq<char>,
)
    requires
        st.file == Some(f),
        st.hunk == Some(h),
    ensures
        ({
            let after = parse_step(st, seq!['+'] + words);
            &&& after.file == Some(FileModel { additions: f.additions + 1, ..f })
            &&& after.hunk matches Some(g) && g.lines == h.lines.push(
                LineModel {
                    kind: DiffLineKind::Addition,
                    old_line: None,
                    new_line: Some(st.new_line),
                    text: words,
                },
            )
            &&& after.old_line == st.old_line
            &&& st.new_line < u32::MAX ==> after.new_line == st.new_line + 1
        }),
        ({
            let after = parse_step(st, seq!['-'] + words);
            &&& after.file == Some(FileModel { deletions: f.deletions + 1, ..f })
            &&& after.hunk matches Some(g) && g.lines == h.lines.push(
                LineModel {
                    kind: DiffLineKind::Deletion,
                    old_line: Some(st.old_line),
                    new_line: None,
                    text: words,
                },
            )
            &&& st.old_line < u32::MAX ==> after.old_line == st.old_line + 1
            &&& after.new_line == st.new_line
        }),
        ({
            let after = parse_step(st, seq![' '] + words);
            &&& after.file == Some(f)
            &&& after.hunk matches Some(g) && g.lines == h.lines.push(
                LineModel {
                    kind: DiffLineKind::Context,
                    old_line: Some(st.old_line),
                    new_line: Some(st.new_line),
                    text: words,
                },
            )
            &&& st.old_line < u32::MAX ==> after.old_line == st.old_line + 1
            &&& st.new_line < u32::MAX ==> after.new_line == st.new_line + 1
        }),
{
    reveal_strlit("diff --git ");
    reveal_strlit("@@");
    reveal_strlit("+");
    reveal_strlit("-");
    reveal_strlit(" ");
    let (a, d, c) = (seq!['+'] + words, seq!['-'] + words, seq![' '] + words);
    text::begins_otherwise(a, "diff --git "@);
    text::begins_otherwise(d, "diff --git "@);
    text::begins_otherwise(c, "diff --git "@);
    text::begins_otherwise(a, "@@"@);
    text::begins_otherwise(d, "@@"@);
    text::begins_otherwise(c, "@@"@);
    text::begins_otherwise(d, "+"@);
    text::begins_otherwise(c, "+"@);
    text::begins_otherwise(c, "-"@);
    assert(a.subrange(0, 1) =~= "+"@);
    assert(d.subrange(0, 1) =~= "-"@);
    assert(c.subrange(0, 1) =~= " "@);
    assert(a.skip(1) =~= words);
    assert(d.skip(1) =~= words);
    assert(c.skip(1) =~= words);
}

/// A file is shown under its new path, and one that is gone under its old one.
pub proof fn files_are_shown_where_they_are(f: FileModel)
    ensures
        f.new_path.len() > 0 && f.new_path != "/dev/null"@ ==> shown_path(f) == f.new_path,
        f.new_path == "/dev/null"@ || f.new_path.len() == 0 ==> shown_path(f) == f.old_path,
{
}

} // verus!
