//! The state of a repository at one moment: its branch, its latest commits, and everything
//! that is not committed, with untracked files shown as added ones.
use vstd::prelude::*;
use vstd::string::*;
use vstd::utf8::*;

use crate::command;
use crate::command::{git_call, lossy_text, output_or_empty, printed, succeeded, texts};
use crate::command::{Reply, ReplyModel, Step, StepModel};
use crate::diff::{
    bare_path, blank_lines_belong_to_the_last_hunk, diffs_are_parsed_one_after_the_other,
    file_closed, file_line, full_range, header_of, header_ranges, hunk_closed,
    hunk_headers_are_read_back, lists_are_the_same_as_themselves, parse_lines, parse_start,
    parse_step, parsed, same_change, same_changes, same_lists_chain, same_lists_grow, shown_path,
    DiffLineKind, FileModel, HunkModel, LineModel, ParseModel,
};
use crate::git;
use crate::git::{branch_call, current_branch, runs_git, status_call};
use crate::path;
use crate::path::below;
use crate::text;
use crate::text::{
    begins, begins_otherwise, decimal, is_space, lines_after_break, lines_are_unbroken,
    lines_hold_no_return, lines_of, lines_of_something, lines_of_unbroken, no_returns,
    numerals_are_unbroken, pieces, trimmed, unbroken, unquoted, without_return,
};
use crate::views::{views, views_index, views_push};

verus! {

/// A commit as the latest ones are shown.
#[derive(Debug, PartialEq, Eq)]
pub struct RecentCommit {
    pub short_hash: String,
    pub subject: String,
    pub author: String,
    pub relative_date: String,
}

/// The value of a `RecentCommit`.
#[verifier::ext_equal]
pub struct RecentModel {
    pub short_hash: Seq<char>,
    pub subject: Seq<char>,
    pub author: Seq<char>,
    pub relative_date: Seq<char>,
}

impl View for RecentCommit {
    type V = RecentModel;

    open spec fn view(&self) -> RecentModel {
        RecentModel {
            short_hash: self.short_hash@,
            subject: self.subject@,
            author: self.author@,
            relative_date: self.relative_date@,
        }
    }
}

/// The commit that a record of the log holds, if it holds four fields and the first is not
/// empty.
pub open spec fn recent_in(record: Seq<char>) -> Option<RecentModel> {
    let fields = pieces(trimmed(record), '\x1f');
    if fields.len() < 4 || fields[0].len() == 0 {
        None
    } else {
        Some(
            RecentModel {
                short_hash: fields[0],
                subject: fields[1],
                author: fields[2],
                relative_date: fields[3],
            },
        )
    }
}

/// The commits that records of the log hold.
pub open spec fn recent_all(records: Seq<Seq<char>>) -> Seq<RecentModel>
    decreases records.len(),
{
    if records.len() == 0 {
        Seq::empty()
    } else {
        match recent_in(records.last()) {
            Some(commit) => recent_all(records.drop_last()).push(commit),
            None => recent_all(records.drop_last()),
        }
    }
}

/// The commits that a log holds, in its order.
pub fn recent_commits(log: &str) -> (r: Vec<RecentCommit>)
    ensures
        views(r@) == recent_all(pieces(log@, '\x1e')),
{
    broadcast use {views_push, views_index};

    let records = text::split(log, '\x1e');
    let ghost all = views(records@);
    let mut r: Vec<RecentCommit> = Vec::new();
    let mut i: usize = 0;
    assert(views(r@) =~= recent_all(all.take(0)));
    while i < records.len()
        invariant
            all == views(records@),
            i <= records.len(),
            views(r@) == recent_all(all.take(i as int)),
        decreases records.len() - i,
    {
        assert(all.take(i + 1).drop_last() =~= all.take(i as int));
        let fields = text::split(text::trim(records[i].as_str()).as_str(), '\x1f');
        assert(fields@.len() == views(fields@).len());
        if fields.len() >= 4 && !fields[0].as_str().is_empty() {
            r.push(
                RecentCommit {
                    short_hash: fields[0].clone(),
                    subject: fields[1].clone(),
                    author: fields[2].clone(),
                    relative_date: fields[3].clone(),
                },
            );
        }
        i = i + 1;
    }
    assert(all.take(i as int) =~= all);
    r
}

/// The state of a repository.
#[derive(Debug, PartialEq, Eq)]
pub struct RepoSnapshot {
    pub root: String,
    pub is_repository: bool,
    pub branch: String,
    pub changed_files: usize,
    pub diff_stat: String,
    pub diff: String,
    pub recent_commits: Vec<RecentCommit>,
}

/// The value of a `RepoSnapshot`.
#[verifier::ext_equal]
pub struct SnapshotModel {
    pub root: Seq<char>,
    pub is_repository: bool,
    pub branch: Seq<char>,
    pub changed_files: nat,
    pub diff_stat: Seq<char>,
    pub diff: Seq<char>,
    pub recent_commits: Seq<RecentModel>,
}

impl View for RepoSnapshot {
    type V = SnapshotModel;

    open spec fn view(&self) -> SnapshotModel {
        SnapshotModel {
            root: self.root@,
            is_repository: self.is_repository,
            branch: self.branch@,
            changed_files: self.changed_files as nat,
            diff_stat: self.diff_stat@,
            diff: self.diff@,
            recent_commits: views(self.recent_commits@),
        }
    }
}

/// What is known of a directory that is in no repository.
pub open spec fn no_repository(root: Seq<char>) -> SnapshotModel {
    SnapshotModel {
        root,
        is_repository: false,
        branch: Seq::empty(),
        changed_files: 0,
        diff_stat: Seq::empty(),
        diff: Seq::empty(),
        recent_commits: Seq::empty(),
    }
}

impl Default for RepoSnapshot {
    fn default() -> (r: Self)
        ensures
            r@ == no_repository(Seq::empty()),
    {
        proof {
            reveal_strlit("");
            assert(""@ =~= Seq::<char>::empty());
        }
        RepoSnapshot::outside("")
    }
}

/// The head of the diff of an untracked file.
pub open spec fn added_head(path: Seq<char>) -> Seq<char> {
    "diff --git a/"@ + path + " b/"@ + path + "\nnew file mode 100644\n--- /dev/null\n+++ b/"@ + path
        + "\n"@
}

/// The lines, each as an added one.
pub open spec fn added_lines(lines: Seq<Seq<char>>) -> Seq<char>
    decreases lines.len(),
{
    if lines.len() == 0 {
        Seq::empty()
    } else {
        added_lines(lines.drop_last()) + "+"@ + lines.last() + "\n"@
    }
}

/// Whether a file is shown line by line: it is UTF-8 without a zero byte, holds at most
/// 256 KiB, and has at most 5000 lines.
pub open spec fn shown_as_text(bytes: Seq<u8>) -> bool {
    &&& valid_utf8(bytes)
    &&& !bytes.contains(0)
    &&& bytes.len() <= 256 * 1024
    &&& lines_of(decode_utf8(bytes)).len() <= 5000
}

/// The text of the diff of an untracked file behind its head.
pub open spec fn added_body(path: Seq<char>, bytes: Seq<u8>) -> Seq<char> {
    let text = decode_utf8(bytes);
    let lines = lines_of(text);
    if !shown_as_text(bytes) {
        "Binary files /dev/null and b/"@ + path + " differ"@
    } else if lines.len() == 0 {
        Seq::empty()
    } else {
        "@@ -0,0 +1,"@ + decimal(lines.len()) + " @@\n"@ + added_lines(lines) + (if text.last()
            == '\n' {
            Seq::empty()
        } else {
            "\\ No newline at end of file\n"@
        })
    }
}

/// The diff that shows an untracked file as an added one.
pub open spec fn untracked_diff(path: Seq<char>, bytes: Seq<u8>) -> Seq<char> {
    added_head(path) + added_body(path, bytes)
}

/// Whether a byte is among bytes.
fn has_zero(bytes: &[u8]) -> (r: bool)
    ensures
        r == bytes@.contains(0),
{
    let mut i: usize = 0;
    while i < bytes.len()
        invariant
            i <= bytes.len(),
            forall|k: int| 0 <= k < i ==> bytes@[k] != 0,
        decreases bytes.len() - i,
    {
        if bytes[i] == 0 {
            assert(bytes@[i as int] == 0);
            return true;
        }
        i = i + 1;
    }
    false
}

/// See [`untracked_diff`].
pub fn untracked_file_diff(path: &str, bytes: &[u8]) -> (r: String)
    ensures
        r@ == untracked_diff(path@, bytes@),
{
    broadcast use views_index;

    let mut diff = text::concat3("diff --git a/", path, " b/");
    diff.append(path);
    diff.append("\nnew file mode 100644\n--- /dev/null\n+++ b/");
    diff.append(path);
    diff.append("\n");
    assert(diff@ =~= added_head(path@));
    let ghost head = diff@;
    let text = match command::from_utf8(bytes) {
        Err(_) => {
            diff.append("Binary files /dev/null and b/");
            diff.append(path);
            diff.append(" differ");
            assert(diff@ =~= untracked_diff(path@, bytes@));
            return diff;
        },
        Ok(text) => text,
    };
    let lines = text::lines(text.as_str());
    assert(lines@.len() == views(lines@).len());
    if has_zero(bytes) || bytes.len() > 256 * 1024 || lines.len() > 5000 {
        diff.append("Binary files /dev/null and b/");
        diff.append(path);
        diff.append(" differ");
        assert(diff@ =~= untracked_diff(path@, bytes@));
        return diff;
    }
    if lines.len() == 0 {
        assert(diff@ =~= untracked_diff(path@, bytes@));
        return diff;
    }
    diff.append("@@ -0,0 +1,");
    diff.append(text::number(lines.len() as u64, 10).as_str());
    diff.append(" @@\n");
    let ghost opened = diff@;
    let ghost all = views(lines@);
    let mut i: usize = 0;
    assert(opened + added_lines(all.take(0)) =~= opened);
    while i < lines.len()
        invariant
            all == views(lines@),
            i <= lines.len(),
            diff@ == opened + added_lines(all.take(i as int)),
        decreases lines.len() - i,
    {
        assert(all.take(i + 1).drop_last() =~= all.take(i as int));
        diff.append("+");
        diff.append(lines[i].as_str());
        diff.append("\n");
        i = i + 1;
        assert(diff@ =~= opened + added_lines(all.take(i as int)));
    }
    assert(all.take(i as int) =~= all);
    let chars = text::chars(text.as_str());
    proof {
        if chars@.len() == 0 {
            lines_of_something(chars@);
        }
    }
    if chars[chars.len() - 1] != '\n' {
        diff.append("\\ No newline at end of file\n");
    }
    assert(diff@ =~= untracked_diff(path@, bytes@));
    diff
}

/// The pieces of bytes between the zero bytes.
pub open spec fn zero_ended(bytes: Seq<u8>) -> Seq<Seq<u8>>
    decreases bytes.len(),
{
    if bytes.len() == 0 {
        seq![Seq::empty()]
    } else {
        let head = zero_ended(bytes.drop_last());
        if bytes.last() == 0 {
            head.push(Seq::empty())
        } else {
            head.drop_last().push(head.last().push(bytes.last()))
        }
    }
}

/// The texts of the pieces that are not empty.
pub open spec fn nonempty_texts(parts: Seq<Seq<u8>>) -> Seq<Seq<char>>
    decreases parts.len(),
{
    if parts.len() == 0 {
        Seq::empty()
    } else {
        let head = nonempty_texts(parts.drop_last());
        if parts.last().len() > 0 {
            head.push(lossy_text(parts.last()))
        } else {
            head
        }
    }
}

/// The untracked files that a listing with zero bytes between names gives.
pub open spec fn untracked_in(reply: ReplyModel) -> Seq<Seq<char>> {
    match reply {
        ReplyModel::Exited { success: true, stdout, .. } => nonempty_texts(zero_ended(stdout)),
        _ => Seq::empty(),
    }
}

/// The texts of the pieces between zero bytes that are not empty.
fn zero_separated(bytes: &Vec<u8>) -> (r: Vec<String>)
    ensures
        views(r@) == nonempty_texts(zero_ended(bytes@)),
{
    broadcast use views_push;

    let mut r: Vec<String> = Vec::new();
    let mut part: Vec<u8> = Vec::new();
    let mut i: usize = 0;
    let ghost mut parts: Seq<Seq<u8>> = Seq::empty();
    assert(views(r@) =~= nonempty_texts(parts));
    assert(parts.push(part@) =~= zero_ended(bytes@.take(0)));
    while i < bytes.len()
        invariant
            i <= bytes.len(),
            views(r@) == nonempty_texts(parts),
            parts.push(part@) == zero_ended(bytes@.take(i as int)),
        decreases bytes.len() - i,
    {
        proof {
            assert(bytes@.take(i + 1).drop_last() =~= bytes@.take(i as int));
            assert(parts.push(part@).drop_last() =~= parts);
        }
        if bytes[i] == 0 {
            if part.len() > 0 {
                r.push(command::text_of(part.as_slice()));
            }
            proof {
                parts = parts.push(part@);
            }
            part = Vec::new();
            assert(part@ =~= Seq::<u8>::empty());
        } else {
            part.push(bytes[i]);
        }
        i = i + 1;
    }
    assert(bytes@.take(i as int) =~= bytes@);
    assert(parts.push(part@).drop_last() =~= parts);
    if part.len() > 0 {
        r.push(command::text_of(part.as_slice()));
    }
    r
}

/// See [`untracked_in`].
pub fn untracked_paths(reply: &Reply) -> (r: Vec<String>)
    ensures
        views(r@) == untracked_in(reply@),
{
    match reply {
        Reply::Exited { success, stdout, .. } => {
            if *success {
                return zero_separated(stdout);
            }
        },
        _ => {},
    }
    let r: Vec<String> = Vec::new();
    assert(views(r@) =~= Seq::<Seq<char>>::empty());
    r
}

/// The bytes that a reply gives of a file.
pub open spec fn contents_of(reply: ReplyModel) -> Seq<u8> {
    match reply {
        ReplyModel::Contents { bytes } => bytes,
        _ => Seq::empty(),
    }
}

/// A diff with the first `n` untracked files after it, a blank line between each two parts.
pub open spec fn with_untracked(
    diff: Seq<char>,
    files: Seq<Seq<char>>,
    contents: Seq<ReplyModel>,
    n: int,
) -> Seq<char>
    decreases n,
{
    if n <= 0 {
        diff
    } else {
        let d = with_untracked(diff, files, contents, n - 1);
        (if d.len() > 0 {
            d + "\n\n"@
        } else {
            d
        }) + untracked_diff(files[n - 1], contents_of(contents[n - 1]))
    }
}

/// The summary of a diff and of the number of untracked files.
pub open spec fn stat_with_untracked(stat: Seq<char>, n: nat) -> Seq<char> {
    if n == 0 {
        stat
    } else {
        (if stat.len() > 0 {
            stat + "\n"@
        } else {
            stat
        }) + decimal(n) + " untracked file(s)"@
    }
}

/// A text, or another one where it is empty.
pub open spec fn or_else(s: Seq<char>, other: Seq<char>) -> Seq<char> {
    if s.len() == 0 {
        other
    } else {
        s
    }
}

/// The state of a repository, from the replies to all questions.
pub open spec fn assembled(root: Seq<char>, replies: Seq<ReplyModel>) -> SnapshotModel {
    let files = untracked_in(replies[4]);
    SnapshotModel {
        root,
        is_repository: true,
        branch: match current_branch(replies[1]) {
            Some(branch) => branch,
            None => "detached HEAD"@,
        },
        changed_files: lines_of(output_or_empty(replies[2])).len(),
        diff_stat: or_else(
            stat_with_untracked(output_or_empty(replies[5]), files.len()),
            "Working tree is clean"@,
        ),
        diff: or_else(
            with_untracked(
                output_or_empty(replies[6]),
                files,
                replies.skip(7),
                files.len() as int,
            ),
            "No uncommitted diff"@,
        ),
        recent_commits: recent_all(pieces(output_or_empty(replies[3]), '\x1e')),
    }
}

/// The question with the given number, asked in the directory `root`.
pub open spec fn snapshot_question(root: Seq<char>, n: int) -> command::InvocationModel {
    if n == 0 {
        git_call(root, seq!["rev-parse"@, "--is-inside-work-tree"@])
    } else if n == 1 {
        branch_call(root)
    } else if n == 2 {
        status_call(root)
    } else if n == 3 {
        git_call(root, seq!["log"@, "-8"@, "--pretty=format:%h%x1f%s%x1f%an%x1f%cr%x1e"@])
    } else if n == 4 {
        git_call(root, seq!["ls-files"@, "--others"@, "--exclude-standard"@, "-z"@])
    } else if n == 5 {
        git_call(root, seq!["diff"@, "--stat"@, "HEAD"@])
    } else {
        git_call(root, seq!["diff"@, "--no-ext-diff"@, "--no-color"@, "HEAD"@])
    }
}

/// Reading the state of the repository that holds a directory: what to do next after the
/// replies so far.
pub open spec fn snapshot_step(root: Seq<char>, replies: Seq<ReplyModel>) -> StepModel<
    SnapshotModel,
> {
    if replies.len() == 0 {
        StepModel::Run(snapshot_question(root, 0))
    } else if !succeeded(replies[0]) {
        StepModel::Done(Ok(no_repository(root)))
    } else if replies.len() < 7 {
        StepModel::Run(snapshot_question(root, replies.len() as int))
    } else {
        let files = untracked_in(replies[4]);
        if replies.len() < 7 + files.len() {
            StepModel::ReadFile(below(root, files[replies.len() - 7]))
        } else {
            StepModel::Done(Ok(assembled(root, replies)))
        }
    }
}

/// See [`snapshot_question`].
fn ask(root: &str, n: usize) -> (r: command::Invocation)
    requires
        n < 7,
    ensures
        r@ == snapshot_question(root@, n as int),
{
    if n == 0 {
        let args = ["rev-parse", "--is-inside-work-tree"];
        assert(texts(args@) =~= seq!["rev-parse"@, "--is-inside-work-tree"@]);
        command::git(root, &args)
    } else if n == 1 {
        git::ask_branch(root)
    } else if n == 2 {
        git::ask_status(root)
    } else if n == 3 {
        let args = ["log", "-8", "--pretty=format:%h%x1f%s%x1f%an%x1f%cr%x1e"];
        assert(texts(args@) =~= seq![
            "log"@,
            "-8"@,
            "--pretty=format:%h%x1f%s%x1f%an%x1f%cr%x1e"@,
        ]);
        command::git(root, &args)
    } else if n == 4 {
        let args = ["ls-files", "--others", "--exclude-standard", "-z"];
        assert(texts(args@) =~= seq!["ls-files"@, "--others"@, "--exclude-standard"@, "-z"@]);
        command::git(root, &args)
    } else if n == 5 {
        let args = ["diff", "--stat", "HEAD"];
        assert(texts(args@) =~= seq!["diff"@, "--stat"@, "HEAD"@]);
        command::git(root, &args)
    } else {
        let args = ["diff", "--no-ext-diff", "--no-color", "HEAD"];
        assert(texts(args@) =~= seq!["diff"@, "--no-ext-diff"@, "--no-color"@, "HEAD"@]);
        command::git(root, &args)
    }
}

impl RepoSnapshot {
    /// What is known of a directory that is in no repository.
    pub fn outside(root: &str) -> (r: Self)
        ensures
            r@ == no_repository(root@),
    {
        let r = RepoSnapshot {
            root: root.to_owned(),
            is_repository: false,
            branch: String::new(),
            changed_files: 0,
            diff_stat: String::new(),
            diff: String::new(),
            recent_commits: Vec::new(),
        };
        assert(r@ =~= no_repository(root@));
        r
    }

    /// See [`snapshot_step`].
    pub fn load(root: &str, replies: &Vec<Reply>) -> (r: Step<RepoSnapshot>)
        ensures
            r@ == snapshot_step(root@, views(replies@)),
    {
        broadcast use views_index;

        if replies.len() == 0 {
            return Step::Run(ask(root, 0));
        }
        if !command::git_ok(&replies[0]) {
            return Step::Done(Ok(RepoSnapshot::outside(root)));
        }
        if replies.len() < 7 {
            return Step::Run(ask(root, replies.len()));
        }
        let files = untracked_paths(&replies[4]);
        assert(files@.len() == views(files@).len());
        let read: usize = replies.len() - 7;
        if read < files.len() {
            return Step::ReadFile(path::join(root, files[read].as_str()));
        }
        let branch = match git::branch_in(&replies[1]) {
            Some(branch) => branch,
            None => "detached HEAD".to_owned(),
        };
        let status = text::lines(command::git_output_or_empty(&replies[2]).as_str());
        assert(status@.len() == views(status@).len());
        let mut diff_stat = command::git_output_or_empty(&replies[5]);
        let mut diff = command::git_output_or_empty(&replies[6]);
        let ghost first = diff@;
        let ghost names = views(files@);
        let ghost contents = views(replies@).skip(7);
        if files.len() > 0 {
            if !diff_stat.as_str().is_empty() {
                diff_stat.append("\n");
            }
            diff_stat.append(text::number(files.len() as u64, 10).as_str());
            diff_stat.append(" untracked file(s)");
        }
        let mut i: usize = 0;
        while i < files.len()
            invariant
                names == views(files@),
                contents == views(replies@).skip(7),
                files.len() + 7 <= replies.len(),
                i <= files.len(),
                diff@ == with_untracked(first, names, contents, i as int),
            decreases files.len() - i,
        {
            if !diff.as_str().is_empty() {
                diff.append("\n\n");
            }
            let empty: Vec<u8> = Vec::new();
            assert(empty@ =~= Seq::<u8>::empty());
            let bytes = match &replies[i + 7] {
                Reply::Contents { bytes } => bytes,
                _ => &empty,
            };
            assert(contents[i as int] == replies@[i + 7]@);
            assert(bytes@ == contents_of(contents[i as int]));
            diff.append(untracked_file_diff(files[i].as_str(), bytes.as_slice()).as_str());
            i = i + 1;
        }
        if diff_stat.as_str().is_empty() {
            diff_stat = "Working tree is clean".to_owned();
        }
        if diff.as_str().is_empty() {
            diff = "No uncommitted diff".to_owned();
        }
        let log = command::git_output_or_empty(&replies[3]);
        Step::Done(
            Ok(
                RepoSnapshot {
                    root: root.to_owned(),
                    is_repository: true,
                    branch,
                    changed_files: status.len(),
                    diff_stat,
                    diff,
                    recent_commits: recent_commits(log.as_str()),
                },
            ),
        )
    }
}

/// Whether a path can be told from what stands around it in a diff: it is on one line, and ends
/// neither in white space nor in a quote.
pub open spec fn tellable(path: Seq<char>) -> bool {
    &&& path.len() > 0
    &&& unbroken(path)
    &&& !is_space(path.last())
    &&& path.last() != '"'
}

/// The first lines of the diff of an untracked file.
pub open spec fn head_lines(path: Seq<char>) -> Seq<Seq<char>> {
    seq![
        without_return("diff --git a/"@ + path + " b/"@ + path),
        "new file mode 100644"@,
        "--- /dev/null"@,
        without_return("+++ b/"@ + path),
    ]
}

proof fn head_is_read(path: Seq<char>, body: Seq<char>)
    requires
        unbroken(path),
    ensures
        lines_of(added_head(path) + body) == head_lines(path) + lines_of(body),
{
    reveal_strlit("diff --git a/");
    reveal_strlit(" b/");
    reveal_strlit("\nnew file mode 100644\n--- /dev/null\n+++ b/");
    reveal_strlit("\n");
    reveal_strlit("new file mode 100644");
    reveal_strlit("--- /dev/null");
    reveal_strlit("+++ b/");
    let l = head_lines(path);
    let nl = seq!['\n'];
    assert("\n"@ =~= nl);
    let first = "diff --git a/"@ + path + " b/"@ + path;
    let fourth = "+++ b/"@ + path;
    let after3 = fourth + nl + body;
    let after2 = l[2] + nl + after3;
    let after1 = l[1] + nl + after2;
    assert(added_head(path) + body =~= first + nl + after1) by {
        assert("\nnew file mode 100644\n--- /dev/null\n+++ b/"@ =~= nl + "new file mode 100644"@ + nl
            + "--- /dev/null"@ + nl + "+++ b/"@);
    }
    assert(unbroken(first) && unbroken(l[1]) && unbroken(l[2]) && unbroken(fourth));
    lines_after_break(first, after1);
    lines_after_break(l[1], after2);
    lines_after_break(l[2], after3);
    lines_after_break(fourth, body);
    assert(lines_of(added_head(path) + body) =~= l + lines_of(body));
}

/// The file that the first lines of the diff of an untracked file tell of.
spec fn is_added(st: ParseModel, path: Seq<char>) -> bool {
    &&& st.files.len() == 0
    &&& st.file matches Some(f) && f.status == Some("Added"@) && f.deletions == 0 && (tellable(path)
        ==> f.old_path == "/dev/null"@ && f.new_path == path)
}

proof fn bare_path_of_added(path: Seq<char>)
    requires
        tellable(path),
    ensures
        bare_path("b/"@ + path) == path,
        bare_path("/dev/null"@) == "/dev/null"@,
{
    reveal_strlit("b/");
    reveal_strlit("a/");
    reveal_strlit("/dev/null");
    let p = "b/"@ + path;
    assert(p[0] == 'b');
    assert(p.last() == path.last());
    assert(trimmed(p) == p);
    assert(unquoted(p, '"') == p);
    assert(!begins(p, "a/"@)) by {
        assert(p.subrange(0, 2)[0] == 'b');
    }
    assert(begins(p, "b/"@));
    assert(p.skip(2) =~= path);
    let d = "/dev/null"@;
    assert(trimmed(d) == d);
    assert(unquoted(d, '"') == d);
    assert(d.subrange(0, 2)[0] == '/');
}

/// The line that opens the diff of an untracked file.
proof fn first_line_is_parsed(path: Seq<char>)
    ensures
        ({
            let line = without_return("diff --git a/"@ + path + " b/"@ + path);
            let st = parse_step(parse_start(), line);
            st.files.len() == 0 && st.hunk is None && (st.file matches Some(f) && f.additions == 0
                && f.deletions == 0 && !f.binary && f.hunks.len() == 0)
        }),
{
    reveal_strlit("diff --git a/");
    reveal_strlit("diff --git ");
    reveal_strlit(" b/");
    let line = without_return("diff --git a/"@ + path + " b/"@ + path);
    assert(line.subrange(0, 11) =~= "diff --git "@);
    assert(begins(line, "diff --git "@));
}

/// A line that stands between the opening of a file and its first hunk.
proof fn file_line_is_parsed(st: ParseModel, line: Seq<char>)
    requires
        st.file is Some,
        st.hunk is None,
        line.len() > 0,
        line[0] != 'd',
        line[0] != '@',
    ensures
        parse_step(st, line) == (ParseModel { file: Some(file_line(st.file->0, line)), ..st }),
{
    reveal_strlit("diff --git ");
    reveal_strlit("@@");
    begins_otherwise(line, "diff --git "@);
    begins_otherwise(line, "@@"@);
}

proof fn mode_line_is_read(f: FileModel)
    ensures
        file_line(f, "new file mode 100644"@) == (FileModel { status: Some("Added"@), ..f }),
        "new file mode 100644"@.len() > 0,
        "new file mode 100644"@[0] == 'n',
{
    reveal_strlit("--- ");
    reveal_strlit("+++ ");
    reveal_strlit("new file mode ");
    reveal_strlit("new file mode 100644");
    let line = "new file mode 100644"@;
    begins_otherwise(line, "--- "@);
    begins_otherwise(line, "+++ "@);
    assert(begins(line, "new file mode "@));
}

proof fn path_lines_are_read(f: FileModel, path: Seq<char>)
    ensures
        file_line(f, "--- /dev/null"@) == (FileModel { old_path: "/dev/null"@, ..f }),
        ({
            let read = file_line(f, without_return("+++ b/"@ + path));
            &&& read == (FileModel { new_path: read.new_path, ..f })
            &&& tellable(path) ==> read.new_path == path
        }),
        "--- /dev/null"@.len() > 0,
        "--- /dev/null"@[0] == '-',
        without_return("+++ b/"@ + path).len() > 0,
        without_return("+++ b/"@ + path)[0] == '+',
{
    reveal_strlit("--- ");
    reveal_strlit("+++ ");
    reveal_strlit("--- /dev/null");
    reveal_strlit("/dev/null");
    reveal_strlit("+++ b/");
    reveal_strlit("b/");
    reveal_strlit("a/");
    let old_line = "--- /dev/null"@;
    assert(begins(old_line, "--- "@));
    assert(old_line.skip(4) =~= "/dev/null"@);
    let whole = "+++ b/"@ + path;
    let new_line = without_return(whole);
    assert(path.len() > 0 ==> whole.last() == path.last());
    assert(path.len() == 0 ==> whole.last() == '/');
    begins_otherwise(new_line, "--- "@);
    assert(new_line.subrange(0, 4) =~= "+++ "@);
    assert(begins(new_line, "+++ "@));
    let d = "/dev/null"@;
    assert(trimmed(d) == d);
    assert(unquoted(d, '"') == d);
    assert(d.subrange(0, 2)[0] == '/');
    if tellable(path) {
        bare_path_of_added(path);
        assert(new_line.skip(4) =~= "b/"@ + path);
    }
}

proof fn head_is_parsed(path: Seq<char>)
    ensures
        ({
            let st = parse_lines(head_lines(path));
            is_added(st, path) && st.hunk is None && st.file->0.additions == 0
                && !st.file->0.binary && st.file->0.hunks.len() == 0
        }),
{
    let l = head_lines(path);
    let one = seq![l[0]];
    let two = seq![l[0], l[1]];
    let three = seq![l[0], l[1], l[2]];
    assert(one.drop_last() =~= Seq::empty());
    assert(two.drop_last() =~= one);
    assert(three.drop_last() =~= two);
    assert(l.drop_last() =~= three);
    first_line_is_parsed(path);
    let s1 = parse_lines(one);
    assert(s1 == parse_step(parse_lines(one.drop_last()), l[0]));
    mode_line_is_read(s1.file->0);
    file_line_is_parsed(s1, l[1]);
    let s2 = parse_lines(two);
    assert(s2 == parse_step(s1, l[1]));
    path_lines_are_read(s2.file->0, path);
    file_line_is_parsed(s2, l[2]);
    let s3 = parse_lines(three);
    assert(s3 == parse_step(s2, l[2]));
    path_lines_are_read(s3.file->0, path);
    file_line_is_parsed(s3, l[3]);
    assert(parse_lines(l) == parse_step(s3, l[3]));
}

/// The lines of a text that holds some lines, each behind a plus sign, and then a rest.
proof fn added_lines_are_read(lines: Seq<Seq<char>>, rest: Seq<char>)
    requires
        forall|i: int| 0 <= i < lines.len() ==> unbroken(#[trigger] lines[i]),
    ensures
        lines_of(added_lines(lines) + rest) == plus_lines(lines) + lines_of(rest),
    decreases lines.len(),
{
    if lines.len() == 0 {
        assert(added_lines(lines) + rest =~= rest);
        assert(plus_lines(lines) + lines_of(rest) =~= lines_of(rest));
    } else {
        reveal_strlit("+");
        reveal_strlit("\n");
        let last = "+"@ + lines.last();
        let nl = seq!['\n'];
        assert("\n"@ =~= nl);
        let behind = last + nl + rest;
        assert(unbroken(last)) by {
            assert(unbroken(lines[lines.len() - 1]));
        }
        lines_after_break(last, rest);
        assert(added_lines(lines) + rest =~= added_lines(lines.drop_last()) + behind);
        assert forall|i: int| 0 <= i < lines.drop_last().len() implies unbroken(
            #[trigger] lines.drop_last()[i],
        ) by {
            assert(unbroken(lines[i]));
        }
        added_lines_are_read(lines.drop_last(), behind);
        assert(plus_lines(lines) =~= plus_lines(lines.drop_last()).push(without_return(last)));
        assert(plus_lines(lines.drop_last()) + (seq![without_return(last)] + lines_of(rest))
            =~= plus_lines(lines) + lines_of(rest));
    }
}

/// Lines behind plus signs, as they are read.
spec fn plus_lines(lines: Seq<Seq<char>>) -> Seq<Seq<char>> {
    Seq::new(lines.len(), |i: int| without_return("+"@ + lines[i]))
}

/// Lines of a file as the added lines of a hunk, numbered from one.
pub open spec fn shown_lines(lines: Seq<Seq<char>>) -> Seq<LineModel> {
    Seq::new(
        lines.len(),
        |i: int|
            LineModel {
                kind: DiffLineKind::Addition,
                old_line: None,
                new_line: Some((i + 1) as u32),
                text: without_return(lines[i]),
            },
    )
}

/// After added lines of a hunk the file counts as many more, and the hunk holds them.
proof fn plus_lines_are_parsed(head: Seq<Seq<char>>, lines: Seq<Seq<char>>, path: Seq<char>)
    requires
        is_added(parse_lines(head), path),
        parse_lines(head).hunk matches Some(h) && h.lines.len() == 0,
        parse_lines(head).new_line == 1,
        lines.len() <= 5000,
    ensures
        ({
            let before = parse_lines(head);
            let st = parse_lines(head + plus_lines(lines));
            &&& is_added(st, path)
            &&& st.hunk == Some(HunkModel { lines: shown_lines(lines), ..before.hunk->0 })
            &&& st.new_line == lines.len() + 1
            &&& st.file->0.additions == before.file->0.additions + lines.len()
            &&& st.file->0.binary == before.file->0.binary
            &&& st.file->0.hunks == before.file->0.hunks
        }),
    decreases lines.len(),
{
    let all = head + plus_lines(lines);
    if lines.len() == 0 {
        assert(all =~= head);
        assert(shown_lines(lines) =~= parse_lines(head).hunk->0.lines);
    } else {
        plus_lines_are_parsed(head, lines.drop_last(), path);
        assert(all.drop_last() =~= head + plus_lines(lines.drop_last()));
        let whole = "+"@ + lines.last();
        let line = all.last();
        assert(line == without_return(whole));
        reveal_strlit("+");
        reveal_strlit("diff --git ");
        reveal_strlit("@@");
        assert(whole[0] == '+');
        assert(line.len() > 0 && line[0] == '+');
        begins_otherwise(line, "diff --git "@);
        begins_otherwise(line, "@@"@);
        assert(line.subrange(0, 1) =~= "+"@);
        assert(begins(line, "+"@));
        assert(line.skip(1) =~= without_return(lines.last())) by {
            assert(lines.last().len() > 0 ==> whole.last() == lines.last().last());
        }
        assert(shown_lines(lines) =~= shown_lines(lines.drop_last()).push(
            LineModel {
                kind: DiffLineKind::Addition,
                old_line: None,
                new_line: Some(lines.len() as u32),
                text: line.skip(1),
            },
        ));
    }
}

/// What is read of the diff of an untracked file that is shown as text.
spec fn text_lines(lines: Seq<Seq<char>>, ended: bool) -> Seq<Seq<char>> {
    seq!["@@ -0,0 +1,"@ + decimal(lines.len()) + " @@"@] + (plus_lines(lines) + (if ended {
        Seq::empty()
    } else {
        seq!["\\ No newline at end of file"@]
    }))
}

proof fn text_body_is_read(path: Seq<char>, bytes: Seq<u8>)
    requires
        shown_as_text(bytes),
        lines_of(decode_utf8(bytes)).len() > 0,
    ensures
        lines_of(added_body(path, bytes)) == text_lines(
            lines_of(decode_utf8(bytes)),
            decode_utf8(bytes).last() == '\n',
        ),
{
    let text = decode_utf8(bytes);
    let lines = lines_of(text);
    let ended = text.last() == '\n';
    reveal_strlit("@@ -0,0 +1,");
    reveal_strlit(" @@");
    reveal_strlit(" @@\n");
    reveal_strlit("\\ No newline at end of file");
    reveal_strlit("\\ No newline at end of file\n");
    let nl = seq!['\n'];
    let header = "@@ -0,0 +1,"@ + decimal(lines.len()) + " @@"@;
    let note = "\\ No newline at end of file"@;
    let tail = if ended {
        Seq::<char>::empty()
    } else {
        "\\ No newline at end of file\n"@
    };
    numerals_are_unbroken(lines.len());
    assert(unbroken(header));
    assert(header.last() == '@');
    assert(" @@\n"@ =~= " @@"@ + nl);
    assert(added_body(path, bytes) =~= header + nl + (added_lines(lines) + tail));
    lines_after_break(header, added_lines(lines) + tail);
    assert forall|i: int| 0 <= i < lines.len() implies unbroken(#[trigger] lines[i]) by {
        lines_are_unbroken(text, i);
    }
    added_lines_are_read(lines, tail);
    if ended {
        lines_of_unbroken(tail);
    } else {
        assert(unbroken(note));
        assert(tail =~= note + nl + Seq::<char>::empty());
        lines_after_break(note, Seq::empty());
        lines_of_unbroken(Seq::<char>::empty());
        assert(lines_of(tail) =~= seq![note]);
    }
    assert(lines_of(added_body(path, bytes)) =~= text_lines(lines, ended));
}

/// The hunk that shows all lines of an added file.
pub open spec fn added_hunk(lines: Seq<Seq<char>>, ended: bool) -> HunkModel {
    HunkModel {
        header: "@@ -0,0 +1,"@ + decimal(lines.len()) + " @@"@,
        old_start: 0,
        old_count: 0,
        new_start: 1,
        new_count: lines.len() as u32,
        lines: shown_lines(lines) + (if ended {
            Seq::empty()
        } else {
            seq![
                LineModel {
                    kind: DiffLineKind::Meta,
                    old_line: None,
                    new_line: None,
                    text: "\\ No newline at end of file"@,
                },
            ]
        }),
    }
}

proof fn header_is_read(n: nat)
    requires
        n <= 5000,
    ensures
        header_ranges("@@ -0,0 +1,"@ + decimal(n) + " @@"@) == Some((0u32, 0u32, 1u32, n as u32)),
{
    reveal_strlit("@@ -0,0 +1,");
    reveal_strlit("@@ -");
    reveal_strlit(" +");
    reveal_strlit(" @@");
    reveal_strlit(",");
    hunk_headers_are_read_back(0, 0, 1, n as u32, Seq::empty());
    assert(decimal(0) =~= seq!['0']);
    assert(decimal(1) =~= seq!['1']);
    assert("@@ -0,0 +1,"@ + decimal(n) + " @@"@ =~= header_of(
        full_range(0, 0),
        full_range(1, n as u32),
        Seq::empty(),
    ));
}

proof fn text_is_parsed(path: Seq<char>, lines: Seq<Seq<char>>, ended: bool)
    requires
        lines.len() <= 5000,
    ensures
        ({
            let st = parse_lines(head_lines(path) + text_lines(lines, ended));
            &&& is_added(st, path)
            &&& st.file->0.additions == lines.len()
            &&& !st.file->0.binary
            &&& st.file->0.hunks.len() == 0
            &&& st.hunk == Some(added_hunk(lines, ended))
        }),
{
    header_is_read(lines.len());
    head_is_parsed(path);
    let head = head_lines(path);
    let header = "@@ -0,0 +1,"@ + decimal(lines.len()) + " @@"@;
    let opened = head.push(header);
    assert(opened.drop_last() =~= head);
    reveal_strlit("@@ -0,0 +1,");
    reveal_strlit("diff --git ");
    reveal_strlit("@@");
    begins_otherwise(header, "diff --git "@);
    assert(begins(header, "@@"@));
    let st = parse_lines(opened);
    assert(is_added(st, path) && st.hunk is Some && st.file->0.additions == 0
        && !st.file->0.binary);
    plus_lines_are_parsed(opened, lines, path);
    let all = head + text_lines(lines, ended);
    let added = opened + plus_lines(lines);
    if ended {
        assert(all =~= added);
        assert(parse_lines(all).hunk->0.lines =~= added_hunk(lines, ended).lines);
    } else {
        let note = "\\ No newline at end of file"@;
        assert(all =~= added.push(note));
        assert(all.drop_last() =~= added);
        reveal_strlit("\\ No newline at end of file");
        reveal_strlit("+");
        reveal_strlit("-");
        reveal_strlit(" ");
        begins_otherwise(note, "diff --git "@);
        begins_otherwise(note, "@@"@);
        begins_otherwise(note, "+"@);
        begins_otherwise(note, "-"@);
        begins_otherwise(note, " "@);
        assert(parse_lines(all).hunk->0.lines =~= added_hunk(lines, ended).lines);
    }
}

proof fn binary_is_parsed(path: Seq<char>)
    requires
        unbroken(path),
    ensures
        ({
            let note = "Binary files /dev/null and b/"@ + path + " differ"@;
            let st = parse_lines(head_lines(path).push(note));
            &&& lines_of(note) == seq![note]
            &&& is_added(st, path)
            &&& st.file->0.additions == 0
            &&& st.file->0.binary
            &&& st.file->0.hunks.len() == 0
            &&& st.hunk is None
        }),
{
    head_is_parsed(path);
    let head = head_lines(path);
    let note = "Binary files /dev/null and b/"@ + path + " differ"@;
    reveal_strlit("Binary files /dev/null and b/");
    reveal_strlit(" differ");
    assert(unbroken(note));
    lines_of_unbroken(note);
    assert(head.push(note).drop_last() =~= head);
    let f = parse_lines(head).file->0;
    assert(note[0] == 'B');
    file_line_is_parsed(parse_lines(head), note);
    reveal_strlit("--- ");
    reveal_strlit("+++ ");
    reveal_strlit("new file mode ");
    reveal_strlit("deleted file mode ");
    reveal_strlit("rename from ");
    reveal_strlit("Binary files ");
    begins_otherwise(note, "--- "@);
    begins_otherwise(note, "+++ "@);
    begins_otherwise(note, "new file mode "@);
    begins_otherwise(note, "deleted file mode "@);
    begins_otherwise(note, "rename from "@);
    assert(begins(note, "Binary files "@));
}

/// The diff that is made for an untracked file is read back as one file, which was added: under
/// its own path where that can be told from what stands around it, and else under some path.
/// Where the file is shown as text, the one hunk holds its lines in order, numbered from one, and
/// then a note where the last one does not end; a file without text has no hunk, and neither has
/// one that is not shown as text, which is read back as a binary one.
pub proof fn untracked_files_are_read_back(path: Seq<char>, bytes: Seq<u8>)
    requires
        unbroken(path),
    ensures
        ({
            let files = parsed(untracked_diff(path, bytes));
            let text = decode_utf8(bytes);
            let lines = lines_of(text);
            &&& files.len() == 1
            &&& tellable(path) ==> shown_path(files[0]) == path
            &&& files[0].status == Some("Added"@)
            &&& files[0].deletions == 0
            &&& files[0].binary == !shown_as_text(bytes)
            &&& files[0].additions == (if shown_as_text(bytes) {
                lines.len()
            } else {
                0
            })
            &&& files[0].hunks == (if shown_as_text(bytes) && text.len() > 0 {
                seq![added_hunk(lines, text.last() == '\n')]
            } else {
                Seq::empty()
            })
        }),
{
    let body = added_body(path, bytes);
    let lines = lines_of(decode_utf8(bytes));
    lines_of_something(decode_utf8(bytes));
    head_is_read(path, body);
    head_is_parsed(path);
    let all = head_lines(path) + lines_of(body);
    if !shown_as_text(bytes) {
        binary_is_parsed(path);
        assert(all =~= head_lines(path).push(body));
    } else if lines.len() == 0 {
        lines_of_unbroken(body);
        assert(all =~= head_lines(path));
    } else {
        text_body_is_read(path, bytes);
        text_is_parsed(path, lines, decode_utf8(bytes).last() == '\n');
    }
    let st = parse_lines(all);
    assert(is_added(st, path));
    let closed = file_closed(hunk_closed(st));
    assert(closed.files.len() == 1);
    assert(tellable(path) && path == "/dev/null"@ ==> shown_path(closed.files[0]) == path);
    if shown_as_text(bytes) && lines.len() > 0 {
        assert(closed.files[0].hunks =~= seq![added_hunk(lines, decode_utf8(bytes).last() == '\n')]);
    } else {
        assert(closed.files[0].hunks =~= Seq::empty());
    }
}

/// The added lines that are shown of a text without carriage returns are its own lines.
pub proof fn shown_lines_are_the_lines(text: Seq<char>, i: int)
    requires
        no_returns(text),
        0 <= i < lines_of(text).len(),
    ensures
        shown_lines(lines_of(text))[i].text == lines_of(text)[i],
{
    lines_hold_no_return(text, i);
}

/// A diff with untracked files behind it begins with the diff.
proof fn diffs_come_first(
    diff: Seq<char>,
    files: Seq<Seq<char>>,
    contents: Seq<ReplyModel>,
    n: int,
)
    requires
        0 <= n <= files.len(),
    ensures
        begins(with_untracked(diff, files, contents, n), diff),
        n > 0 ==> with_untracked(diff, files, contents, n).len() > 0,
        n > 0 ==> with_untracked(diff, files, contents, n).last() != '\r',
    decreases n,
{
    if n > 0 {
        let d = with_untracked(diff, files, contents, n - 1);
        diffs_come_first(diff, files, contents, n - 1);
        let all = with_untracked(diff, files, contents, n);
        let more = untracked_diff(files[n - 1], contents_of(contents[n - 1]));
        untracked_diffs_are_whole(files[n - 1], contents_of(contents[n - 1]));
        assert(all.last() == more.last());
        assert(d.subrange(0, diff.len() as int) =~= diff);
        assert(all.subrange(0, diff.len() as int) =~= d.subrange(0, diff.len() as int));
    } else {
        assert(diff.subrange(0, diff.len() as int) =~= diff);
    }
}

proof fn untracked_diffs_are_whole(path: Seq<char>, bytes: Seq<u8>)
    ensures
        begins(untracked_diff(path, bytes), "diff --git "@),
        untracked_diff(path, bytes).len() > 0,
        untracked_diff(path, bytes).last() != '\r',
{
    let d = untracked_diff(path, bytes);
    reveal_strlit("diff --git a/");
    reveal_strlit("diff --git ");
    reveal_strlit("\n");
    reveal_strlit(" differ");
    reveal_strlit("\\ No newline at end of file\n");
    assert(d.subrange(0, 11) =~= "diff --git "@);
    let text = decode_utf8(bytes);
    let lines = lines_of(text);
    let body = added_body(path, bytes);
    assert(added_head(path).last() == '\n');
    if !shown_as_text(bytes) {
        assert(body.last() == 'r');
        assert(d.last() == 'r');
    } else if lines.len() == 0 {
        assert(d =~= added_head(path));
    } else {
        assert(added_lines(lines).last() == '\n');
        assert(body.last() == '\n');
        assert(d.last() == '\n');
    }
}

/// The files that the first `n` untracked files are shown as.
pub open spec fn own_files(files: Seq<Seq<char>>, contents: Seq<ReplyModel>, n: int) -> Seq<FileModel>
    decreases n,
{
    if n <= 0 {
        Seq::empty()
    } else {
        own_files(files, contents, n - 1).push(
            parsed(untracked_diff(files[n - 1], contents_of(contents[n - 1])))[0],
        )
    }
}

proof fn own_files_are_in_order(files: Seq<Seq<char>>, contents: Seq<ReplyModel>, n: int, i: int)
    requires
        0 <= i < n,
    ensures
        own_files(files, contents, n).len() == n,
        own_files(files, contents, n)[i] == parsed(
            untracked_diff(files[i], contents_of(contents[i])),
        )[0],
    decreases n,
{
    if n > 1 {
        own_files_are_in_order(
            files,
            contents,
            n - 1,
            if i < n - 1 {
                i
            } else {
                0
            },
        );
    } else {
        assert(own_files(files, contents, 0).len() == 0);
    }
}

proof fn one_more_file_is_shown(d: Seq<char>, path: Seq<char>, bytes: Seq<u8>)
    requires
        unbroken(path),
        d.len() > 0 ==> d.last() != '\r',
    ensures
        ({
            let more = untracked_diff(path, bytes);
            let whole = (if d.len() > 0 {
                d + "\n\n"@
            } else {
                d
            }) + more;
            same_changes(parsed(d).push(parsed(more)[0]), parsed(whole))
        }),
{
    let more = untracked_diff(path, bytes);
    untracked_diffs_are_whole(path, bytes);
    untracked_files_are_read_back(path, bytes);
    reveal_strlit("\n\n");
    let start = if d.len() > 0 {
        d + "\n\n"@
    } else {
        d
    };
    diffs_are_parsed_one_after_the_other(start, more);
    if d.len() > 0 {
        blank_lines_belong_to_the_last_hunk(d);
    } else {
        lists_are_the_same_as_themselves(parsed(d));
    }
    assert(same_changes(parsed(d), parsed(start)));
    same_lists_grow(parsed(d), parsed(start), parsed(more)[0]);
    assert(parsed(start) + parsed(more) =~= parsed(start).push(parsed(more)[0]));
}

/// The files of a diff with untracked files behind it are those of the diff, and then one for
/// each untracked file, in the order of their names.
proof fn files_of_both_are_shown(
    diff: Seq<char>,
    files: Seq<Seq<char>>,
    contents: Seq<ReplyModel>,
    n: int,
)
    requires
        0 <= n <= files.len(),
        diff.len() > 0 ==> diff.last() != '\r',
        forall|i: int| 0 <= i < files.len() ==> unbroken(#[trigger] files[i]),
    ensures
        same_changes(
            parsed(diff) + own_files(files, contents, n),
            parsed(with_untracked(diff, files, contents, n)),
        ),
    decreases n,
{
    let base = parsed(diff) + own_files(files, contents, n);
    if n == 0 {
        assert(base =~= parsed(diff));
        lists_are_the_same_as_themselves(parsed(diff));
    } else {
        let d = with_untracked(diff, files, contents, n - 1);
        let bytes = contents_of(contents[n - 1]);
        let own = parsed(untracked_diff(files[n - 1], bytes))[0];
        files_of_both_are_shown(diff, files, contents, n - 1);
        diffs_come_first(diff, files, contents, n - 1);
        assert(unbroken(files[n - 1]));
        one_more_file_is_shown(d, files[n - 1], bytes);
        let before = parsed(diff) + own_files(files, contents, n - 1);
        same_lists_grow(before, parsed(d), own);
        assert(base =~= before.push(own));
        same_lists_chain(
            base,
            parsed(d).push(own),
            parsed(with_untracked(diff, files, contents, n)),
        );
    }
}

/// Whether a file is shown as an added one, under its path and with its lines.
pub open spec fn shows_added(f: FileModel, path: Seq<char>, bytes: Seq<u8>) -> bool {
    &&& tellable(path) ==> shown_path(f) == path
    &&& f.status == Some("Added"@)
    &&& f.deletions == 0
    &&& f.binary == !shown_as_text(bytes)
    &&& f.additions == (if shown_as_text(bytes) {
        lines_of(decode_utf8(bytes)).len()
    } else {
        0
    })
}

proof fn added_files_are_shown(told: Seq<char>, paths: Seq<Seq<char>>, contents: Seq<ReplyModel>)
    requires
        told.len() > 0 ==> told.last() != '\r',
        forall|i: int| 0 <= i < paths.len() ==> unbroken(#[trigger] paths[i]),
    ensures
        ({
            let changed = parsed(told);
            let all = parsed(with_untracked(told, paths, contents, paths.len() as int));
            &&& all.len() == changed.len() + paths.len()
            &&& forall|i: int| 0 <= i < changed.len() ==> #[trigger] same_change(changed[i], all[i])
            &&& forall|i: int|
                0 <= i < paths.len() ==> shows_added(
                    all[changed.len() + i],
                    #[trigger] paths[i],
                    contents_of(contents[i]),
                )
        }),
{
    let n = paths.len() as int;
    let changed = parsed(told);
    let own = own_files(paths, contents, n);
    let all = parsed(with_untracked(told, paths, contents, n));
    files_of_both_are_shown(told, paths, contents, n);
    if n > 0 {
        own_files_are_in_order(paths, contents, n, 0);
    }
    assert(own.len() == n);
    assert forall|i: int| 0 <= i < changed.len() implies #[trigger] same_change(
        changed[i],
        all[i],
    ) by {
        assert(same_change((changed + own)[i], all[i]));
    }
    assert forall|i: int| 0 <= i < paths.len() implies shows_added(
        all[changed.len() + i],
        #[trigger] paths[i],
        contents_of(contents[i]),
    ) by {
        assert(unbroken(paths[i]));
        own_files_are_in_order(paths, contents, n, i);
        untracked_files_are_read_back(paths[i], contents_of(contents[i]));
        let k = changed.len() + i;
        assert((changed + own)[k] == own[i]);
        assert(same_change((changed + own)[k], all[k]));
    }
}

/// The diff that is shown is all that is not committed: it begins with all that `git diff HEAD`
/// told, and its files are the ones of that diff, and then one added file for each untracked
/// path, in the order in which Git listed them, each with the path and the lines that it has.
pub proof fn the_whole_uncommitted_diff_is_shown(
    root: Seq<char>,
    replies: Seq<ReplyModel>,
    told: Seq<char>,
)
    requires
        replies.len() >= 7,
        succeeded(replies[0]),
        replies.len() == 7 + untracked_in(replies[4]).len(),
        printed(replies[6], told),
        told.len() > 0 || untracked_in(replies[4]).len() > 0,
    ensures
        snapshot_step(root, replies) matches StepModel::Done(Ok(snapshot)) && begins(
            snapshot.diff,
            told,
        ) && (untracked_in(replies[4]).len() == 0 ==> snapshot.diff == told),
        (forall|i: int|
            0 <= i < untracked_in(replies[4]).len() ==> unbroken(
                #[trigger] untracked_in(replies[4])[i],
            )) ==> (snapshot_step(root, replies) matches StepModel::Done(Ok(snapshot)) && {
            let paths = untracked_in(replies[4]);
            let changed = parsed(told);
            let all = parsed(snapshot.diff);
            &&& all.len() == changed.len() + paths.len()
            &&& forall|i: int| 0 <= i < changed.len() ==> #[trigger] same_change(changed[i], all[i])
            &&& forall|i: int|
                0 <= i < paths.len() ==> shows_added(
                    all[changed.len() + i],
                    #[trigger] paths[i],
                    contents_of(replies[7 + i]),
                )
        }),
{
    let paths = untracked_in(replies[4]);
    let contents = replies.skip(7);
    let n = paths.len() as int;
    let diff = with_untracked(told, paths, contents, n);
    diffs_come_first(told, paths, contents, n);
    assert(diff.len() > 0);
    assert(assembled(root, replies).diff == diff);
    text::trimming_takes_white_space_alone(lossy_text(replies[6]->stdout));
    assert(is_space('\r'));
    if forall|i: int| 0 <= i < paths.len() ==> unbroken(#[trigger] paths[i]) {
        added_files_are_shown(told, paths, contents);
        let changed = parsed(told);
        let all = parsed(diff);
        assert forall|i: int| 0 <= i < paths.len() implies shows_added(
            all[changed.len() + i],
            #[trigger] paths[i],
            contents_of(replies[7 + i]),
        ) by {
            assert(contents[i] == replies[7 + i]);
        }
    }
}

/// What is not committed is asked of Git: the changes against the last commit, and the files that
/// are neither known to it nor ignored.
pub proof fn uncommitted_work_is_asked_for(root: Seq<char>, replies: Seq<ReplyModel>)
    requires
        replies.len() >= 7,
        succeeded(replies[0]),
    ensures
        runs_git(
            snapshot_step(root, replies.take(6)),
            root,
            seq!["diff"@, "--no-ext-diff"@, "--no-color"@, "HEAD"@],
        ),
        runs_git(
            snapshot_step(root, replies.take(4)),
            root,
            seq!["ls-files"@, "--others"@, "--exclude-standard"@, "-z"@],
        ),
{
    assert(replies.take(6)[0] == replies[0] && replies.take(4)[0] == replies[0]);
}

/// Each untracked file is read from its place below the root, one after the other.
pub proof fn untracked_files_are_read_in_turn(root: Seq<char>, replies: Seq<ReplyModel>, i: int)
    requires
        succeeded(replies[0]),
        replies.len() == 7 + i,
        0 <= i < untracked_in(replies[4]).len(),
    ensures
        snapshot_step(root, replies) == StepModel::<SnapshotModel>::ReadFile(
            below(root, untracked_in(replies[4])[i]),
        ),
{
}

/// Names with a zero byte behind each.
pub open spec fn zero_closed(names: Seq<Seq<u8>>) -> Seq<u8>
    decreases names.len(),
{
    if names.len() == 0 {
        Seq::empty()
    } else {
        zero_closed(names.drop_last()) + names.last() + seq![0u8]
    }
}

proof fn zero_pieces(a: Seq<u8>, name: Seq<u8>)
    requires
        forall|i: int| 0 <= i < name.len() ==> name[i] != 0,
    ensures
        zero_ended(a).len() > 0,
        zero_ended(a + name) == zero_ended(a).drop_last().push(zero_ended(a).last() + name),
    decreases name.len(),
{
    zero_pieces_there(a);
    let head = zero_ended(a);
    if name.len() == 0 {
        assert(a + name =~= a);
        assert(head.last() + name =~= head.last());
        assert(head.drop_last().push(head.last()) =~= head);
    } else {
        let fewer = name.drop_last();
        assert forall|i: int| 0 <= i < fewer.len() implies fewer[i] != 0 by {
            assert(fewer[i] == name[i]);
        }
        zero_pieces(a, fewer);
        assert((a + name).drop_last() =~= a + fewer);
        assert((head.last() + fewer).push(name.last()) =~= head.last() + name);
        let short = head.drop_last().push(head.last() + fewer);
        assert(short.drop_last() =~= head.drop_last());
    }
}

proof fn zero_pieces_there(a: Seq<u8>)
    ensures
        zero_ended(a).len() > 0,
    decreases a.len(),
{
    if a.len() > 0 {
        zero_pieces_there(a.drop_last());
    }
}

proof fn closed_names_are_parted(names: Seq<Seq<u8>>)
    requires
        forall|i: int, k: int|
            0 <= i < names.len() && 0 <= k < names[i].len() ==> (#[trigger] names[i][k]) != 0,
    ensures
        zero_ended(zero_closed(names)) == names.push(Seq::empty()),
    decreases names.len(),
{
    let none = Seq::<u8>::empty();
    if names.len() == 0 {
        assert(zero_ended(zero_closed(names)) =~= names.push(none));
    } else {
        let head = names.drop_last();
        assert forall|i: int, k: int| 0 <= i < head.len() && 0 <= k < head[i].len() implies (
        #[trigger] head[i][k]) != 0 by {
            assert(names[i][k] != 0);
        }
        closed_names_are_parted(head);
        let a = zero_closed(head);
        let name = names.last();
        assert forall|k: int| 0 <= k < name.len() implies name[k] != 0 by {
            assert(names[names.len() - 1][k] != 0);
        }
        zero_pieces(a, name);
        let all = zero_closed(names);
        assert(all.drop_last() =~= a + name);
        assert(all.last() == 0);
        assert(head.push(none).drop_last() =~= head);
        assert(none + name =~= name);
        assert(zero_ended(all) =~= names.push(none));
    }
}

proof fn whole_names_are_kept(names: Seq<Seq<u8>>)
    requires
        forall|i: int| 0 <= i < names.len() ==> (#[trigger] names[i]).len() > 0,
    ensures
        nonempty_texts(names) == names.map_values(|n: Seq<u8>| lossy_text(n)),
    decreases names.len(),
{
    if names.len() > 0 {
        let head = names.drop_last();
        assert forall|i: int| 0 <= i < head.len() implies (#[trigger] head[i]).len() > 0 by {
            assert(names[i].len() > 0);
        }
        whole_names_are_kept(head);
        assert(names[names.len() - 1].len() > 0);
    }
    assert(nonempty_texts(names) =~= names.map_values(|n: Seq<u8>| lossy_text(n)));
}

/// The untracked files are those that Git lists, all of them and in its order.
pub proof fn untracked_files_are_those_that_git_lists(names: Seq<Seq<u8>>, stderr: Seq<u8>)
    requires
        forall|i: int, k: int|
            0 <= i < names.len() && 0 <= k < names[i].len() ==> (#[trigger] names[i][k]) != 0,
        forall|i: int| 0 <= i < names.len() ==> (#[trigger] names[i]).len() > 0,
    ensures
        ({
            let listed = untracked_in(
                ReplyModel::Exited { success: true, stdout: zero_closed(names), stderr },
            );
            &&& listed.len() == names.len()
            &&& forall|i: int|
                0 <= i < names.len() ==> #[trigger] listed[i] == lossy_text(names[i])
        }),
        untracked_in(ReplyModel::Exited { success: false, stdout: zero_closed(names), stderr }).len()
            == 0,
{
    closed_names_are_parted(names);
    whole_names_are_kept(names);
    assert(names.push(Seq::empty()).drop_last() =~= names);
}

/// The state of a repository is what Git tells of it: the branch that is checked out, a file for
/// each line of the status, and the latest commits.
pub proof fn snapshots_are_what_git_tells(
    root: Seq<char>,
    replies: Seq<ReplyModel>,
    branch: Seq<char>,
    status: Seq<char>,
    log: Seq<char>,
    stat: Seq<char>,
)
    requires
        replies.len() >= 7,
        succeeded(replies[0]),
        replies.len() == 7 + untracked_in(replies[4]).len(),
        printed(replies[1], branch),
        printed(replies[2], status),
        printed(replies[3], log),
        printed(replies[5], stat),
    ensures
        runs_git(
            snapshot_step(root, replies.take(0)),
            root,
            seq!["rev-parse"@, "--is-inside-work-tree"@],
        ),
        runs_git(snapshot_step(root, replies.take(1)), root, seq!["branch"@, "--show-current"@]),
        runs_git(snapshot_step(root, replies.take(2)), root, seq!["status"@, "--porcelain=v1"@]),
        runs_git(snapshot_step(root, replies.take(5)), root, seq!["diff"@, "--stat"@, "HEAD"@]),
        snapshot_step(root, replies) matches StepModel::Done(Ok(snapshot)) && {
            &&& snapshot.root == root
            &&& snapshot.is_repository
            &&& branch.len() > 0 ==> snapshot.branch == branch
            &&& branch.len() == 0 ==> snapshot.branch == "detached HEAD"@
            &&& snapshot.changed_files == lines_of(status).len()
            &&& begins(snapshot.diff_stat, stat)
            &&& snapshot.recent_commits == recent_all(pieces(log, '\x1e'))
        },
{
    assert(replies.take(1)[0] == replies[0] && replies.take(2)[0] == replies[0]
        && replies.take(5)[0] == replies[0]);
    let n = untracked_in(replies[4]).len();
    let all = stat_with_untracked(stat, n);
    assert(all.subrange(0, stat.len() as int) =~= stat);
    if stat.len() == 0 {
        assert("Working tree is clean"@.subrange(0, 0) =~= stat);
    }
}

/// A directory outside of a repository is said to be one, and nothing more is asked.
pub proof fn other_directories_hold_nothing(root: Seq<char>, replies: Seq<ReplyModel>)
    requires
        replies.len() > 0,
        !succeeded(replies[0]),
    ensures
        snapshot_step(root, replies) matches StepModel::Done(Ok(snapshot))
            && !snapshot.is_repository && snapshot.root == root && snapshot.diff.len() == 0
            && snapshot.changed_files == 0 && snapshot.recent_commits.len() == 0,
{
}

/// The latest commits are read one from each record of the log, in order, with their fields.
pub proof fn latest_commits_are_read_in_order(records: Seq<Seq<char>>, i: int)
    requires
        0 <= i < records.len(),
        forall|k: int|
            0 <= k < records.len() ==> {
                let fields = pieces(trimmed(#[trigger] records[k]), '\x1f');
                fields.len() >= 4 && fields[0].len() > 0
            },
    ensures
        recent_all(records).len() == records.len(),
        ({
            let fields = pieces(trimmed(records[i]), '\x1f');
            let commit = recent_all(records)[i];
            &&& commit.short_hash == fields[0]
            &&& commit.subject == fields[1]
            &&& commit.author == fields[2]
            &&& commit.relative_date == fields[3]
        }),
    decreases records.len(),
{
    let head = records.drop_last();
    let last = pieces(trimmed(records[records.len() - 1]), '\x1f');
    assert forall|k: int| 0 <= k < head.len() implies {
        let fields = pieces(trimmed(#[trigger] head[k]), '\x1f');
        fields.len() >= 4 && fields[0].len() > 0
    } by {
        assert(head[k] == records[k]);
    }
    if head.len() > 0 {
        latest_commits_are_read_in_order(
            head,
            if i < head.len() {
                i
            } else {
                0
            },
        );
    } else {
        assert(recent_all(head).len() == 0);
    }
    if i < head.len() {
        assert(head[i] == records[i]);
    }
}

} // verus!
