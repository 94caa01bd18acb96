//! Git: branch and worktree names, the decisions between two runs of `git`, and what its
//! output means.
use vstd::prelude::*;
use vstd::string::*;
use vstd::utf8::*;

use crate::command;
use crate::command::{
    git_call, git_failure, output_of, output_or_empty, printed, quoted, succeeded, texts,
};
use crate::command::{Invocation, InvocationModel, Reply, ReplyModel, Step, StepModel};
use crate::hashing;
use crate::hashing::hash_of_path;
use crate::path;
use crate::path::{base_name, below};
use crate::text;
use crate::text::{
    ascii_folded, ascii_lower, lines_of, numeral, pieces, trimmed, words_of, zero_padded,
};
use crate::views::{opt_view, views, views_index, views_push};

verus! {

/// What `char::to_lowercase` gives for a character.
pub uninterp spec fn lower(c: char) -> Seq<char>;

/// `char::to_lowercase`: the lower case of a character, which may be several characters. An
/// ASCII letter becomes its small letter, and other ASCII characters stay. No capital ASCII
/// letter is left.
#[verifier::external_body]
fn lowercase(c: char) -> (r: Vec<char>)
    ensures
        r@ == lower(c),
        (c as u32) < 128 ==> r@ == seq![ascii_lower(c)],
        no_capitals(r@),
{
    c.to_lowercase().collect()
}

/// The lower case of a text.
pub open spec fn lowered(s: Seq<char>) -> Seq<char>
    decreases s.len(),
{
    if s.len() == 0 {
        Seq::empty()
    } else {
        lowered(s.drop_last()) + lower(s.last())
    }
}

/// Whether a text holds ASCII characters only.
pub open spec fn all_ascii(s: Seq<char>) -> bool {
    forall|i: int| 0 <= i < s.len() ==> (#[trigger] s[i] as u32) < 128
}

/// Whether a text holds no capital ASCII letter.
pub open spec fn no_capitals(s: Seq<char>) -> bool {
    forall|i: int| 0 <= i < s.len() ==> !('A' <= #[trigger] s[i] <= 'Z')
}

/// Whether a text holds an ASCII letter or digit.
pub open spec fn has_word(s: Seq<char>) -> bool {
    exists|i: int| 0 <= i < s.len() && is_ascii_word(#[trigger] s[i])
}

/// The lower case of a text.
fn lower_case(s: &str) -> (r: Vec<char>)
    ensures
        r@ == lowered(s@),
        no_capitals(r@),
        all_ascii(s@) ==> r@ == ascii_folded(s@),
        has_word(s@) ==> has_word(r@),
{
    let v = text::chars(s);
    let mut r: Vec<char> = Vec::new();
    let mut i: usize = 0;
    assert(r@ =~= lowered(v@.take(0)));
    while i < v.len()
        invariant
            i <= v.len(),
            r@ == lowered(v@.take(i as int)),
            no_capitals(r@),
            all_ascii(v@) ==> r@ == ascii_folded(v@.take(i as int)),
            has_word(v@.take(i as int)) ==> has_word(r@),
        decreases v.len() - i,
    {
        let ghost so_far = v@.take(i as int);
        let ghost upto = v@.take(i + 1);
        let ghost before = r@;
        assert(upto.drop_last() =~= so_far);
        let mut more = lowercase(v[i]);
        let ghost added = more@;
        r.append(&mut more);
        proof {
            assert(r@ == before + added);
            if all_ascii(v@) {
                assert(ascii_folded(upto) =~= ascii_folded(so_far).push(ascii_lower(v@[i as int])));
                assert(r@ =~= ascii_folded(upto));
            }
            if has_word(upto) {
                let at = choose|k: int| 0 <= k < upto.len() && is_ascii_word(#[trigger] upto[k]);
                if at < i {
                    assert(is_ascii_word(so_far[at]));
                    let held = choose|k: int| 0 <= k < before.len() && is_ascii_word(#[trigger] before[k]);
                    assert(is_ascii_word(r@[held]));
                } else {
                    assert(added[0] == ascii_lower(v@[i as int]));
                    assert(is_ascii_word(r@[before.len() as int]));
                }
            }
        }
        i = i + 1;
    }
    assert(v@.take(i as int) =~= v@);
    r
}

/// Whether a character is an ASCII letter or digit.
pub open spec fn is_ascii_word(c: char) -> bool {
    'a' <= c <= 'z' || 'A' <= c <= 'Z' || '0' <= c <= '9'
}

/// Text in which a dash stands for each run of other characters than ASCII letters and digits
/// that something goes before.
pub open spec fn dashed(s: Seq<char>) -> Seq<char>
    decreases s.len(),
{
    if s.len() == 0 {
        Seq::empty()
    } else {
        let head = dashed(s.drop_last());
        if is_ascii_word(s.last()) {
            head.push(s.last())
        } else if head.len() > 0 && head.last() != '-' {
            head.push('-')
        } else {
            head
        }
    }
}

/// A text as part of a branch name or of a path, without a dash at its end.
pub open spec fn slug_of(lowered: Seq<char>) -> Seq<char> {
    let d = dashed(lowered);
    if d.len() > 0 && d.last() == '-' {
        d.drop_last()
    } else {
        d
    }
}

/// A dash in a dashed text has something before it that is no dash.
proof fn dashed_shape(s: Seq<char>)
    ensures
        dashed(s).len() > 0 ==> dashed(s)[0] != '-',
        forall|i: int|
            0 <= i < dashed(s).len() ==> is_ascii_word(#[trigger] dashed(s)[i]) || dashed(s)[i] == '-',
        forall|i: int|
            0 < i < dashed(s).len() && #[trigger] dashed(s)[i] == '-' ==> dashed(s)[i - 1] != '-',
    decreases s.len(),
{
    if s.len() > 0 {
        dashed_shape(s.drop_last());
    }
}

/// The slug of a text in lower case.
pub fn slug(lowered: &Vec<char>) -> (r: String)
    ensures
        r@ == slug_of(lowered@),
{
    let mut out: Vec<char> = Vec::new();
    let mut i: usize = 0;
    while i < lowered.len()
        invariant
            i <= lowered.len(),
            out@ == dashed(lowered@.take(i as int)),
        decreases lowered.len() - i,
    {
        assert(lowered@.take(i + 1).drop_last() =~= lowered@.take(i as int));
        let c = lowered[i];
        if ('a' <= c && c <= 'z') || ('A' <= c && c <= 'Z') || ('0' <= c && c <= '9') {
            out.push(c);
        } else if out.len() > 0 && out[out.len() - 1] != '-' {
            out.push('-');
        }
        i = i + 1;
    }
    assert(lowered@.take(i as int) =~= lowered@);
    if out.len() > 0 && out[out.len() - 1] == '-' {
        assert(out@.subrange(0, out@.len() - 1) =~= out@.drop_last());
        text::slice(&out, 0, out.len() - 1)
    } else {
        assert(out@.subrange(0, out@.len() as int) =~= out@);
        text::slice(&out, 0, out.len())
    }
}

/// Whether a text is safe in a branch name and in a path: it holds small ASCII letters, digits
/// and dashes only, no dash at either end, and no two dashes in a row.
pub open spec fn is_safe(s: Seq<char>) -> bool {
    &&& forall|i: int| 0 <= i < s.len() ==> is_ascii_word(#[trigger] s[i]) || s[i] == '-'
    &&& no_capitals(s)
    &&& s.len() > 0 ==> s[0] != '-' && s.last() != '-'
    &&& forall|i: int| 0 < i < s.len() && #[trigger] s[i] == '-' ==> s[i - 1] != '-'
}

/// A text as part of a branch name or of a path.
pub fn safe_slug(value: &str) -> (r: String)
    ensures
        r@ == slug_of(lowered(value@)),
        is_safe(r@),
        slug_of(ascii_folded(r@)) == r@,
        all_ascii(value@) ==> r@ == slug_of(ascii_folded(value@)),
        has_word(value@) ==> r@.len() > 0,
{
    let low = lower_case(value);
    proof {
        slugs_are_safe(low@);
    }
    slug(&low)
}

/// A text that has the shape of a dashed one stays as it is.
proof fn dashed_stays(s: Seq<char>)
    requires
        s.len() > 0 ==> s[0] != '-',
        forall|i: int| 0 <= i < s.len() ==> is_ascii_word(#[trigger] s[i]) || s[i] == '-',
        forall|i: int| 0 < i < s.len() && #[trigger] s[i] == '-' ==> s[i - 1] != '-',
    ensures
        dashed(s) == s,
    decreases s.len(),
{
    if s.len() > 0 {
        let head = s.drop_last();
        dashed_stays(head);
        assert(s =~= head.push(s.last()));
        if s.last() == '-' {
            assert(s[s.len() - 1] == '-');
            assert(head.last() == s[s.len() - 2]);
        }
    }
}

/// A text with a letter or digit is not empty once dashed.
proof fn dashed_keeps_words(s: Seq<char>)
    requires
        has_word(s),
    ensures
        dashed(s).len() > 0,
    decreases s.len(),
{
    let at = choose|i: int| 0 <= i < s.len() && is_ascii_word(#[trigger] s[i]);
    if at < s.len() - 1 {
        assert(is_ascii_word(s.drop_last()[at]));
        dashed_keeps_words(s.drop_last());
    }
}

/// The slug of a text in lower case is safe in a branch name and in a path, is its own slug, and
/// is not empty where the text has a letter or digit.
pub proof fn slugs_are_safe(text: Seq<char>)
    requires
        no_capitals(text),
    ensures
        is_safe(slug_of(text)),
        slug_of(ascii_folded(slug_of(text))) == slug_of(text),
        has_word(text) ==> slug_of(text).len() > 0,
{
    let d = dashed(text);
    let s = slug_of(text);
    dashed_shape(text);
    dashed_has_no_capitals(text);
    if d.len() > 0 && d.last() == '-' {
        assert(d[d.len() - 1] == '-');
        if s.len() > 0 {
            assert(s.last() == d[d.len() - 2]);
        }
    }
    assert forall|i: int| 0 <= i < s.len() implies is_ascii_word(#[trigger] s[i]) || s[i] == '-' by {
        assert(s[i] == d[i]);
    }
    assert forall|i: int| 0 <= i < s.len() implies !('A' <= #[trigger] s[i] <= 'Z') by {
        assert(s[i] == d[i]);
    }
    assert forall|i: int| 0 < i < s.len() && #[trigger] s[i] == '-' implies s[i - 1] != '-' by {
        assert(s[i] == d[i]);
    }
    assert(ascii_folded(s) =~= s);
    dashed_stays(s);
    if has_word(text) {
        dashed_keeps_words(text);
    }
}

/// A dashed text has no capital letter that the text did not have.
proof fn dashed_has_no_capitals(s: Seq<char>)
    requires
        no_capitals(s),
    ensures
        no_capitals(dashed(s)),
    decreases s.len(),
{
    if s.len() > 0 {
        assert(no_capitals(s.drop_last())) by {
            assert forall|i: int| 0 <= i < s.drop_last().len() implies !('A'
                <= #[trigger] s.drop_last()[i] <= 'Z') by {
                assert(s.drop_last()[i] == s[i]);
            }
        }
        dashed_has_no_capitals(s.drop_last());
        assert(s.last() == s[s.len() - 1]);
    }
}

/// The name of the directory that holds the worktrees of a repository, given the hash of its
/// path.
pub open spec fn key_of(path: Seq<char>, hash: u64) -> Seq<char> {
    let name = match base_name(path) {
        Some(n) => slug_of(lowered(n)),
        None => Seq::empty(),
    };
    (if name.len() > 0 {
        name
    } else {
        "repository"@
    }) + "-"@ + zero_padded(numeral(hash as nat, 16), 16)
}

/// See [`key_of`].
pub fn repository_key_with(path: &str, hash: u64) -> (r: String)
    ensures
        r@ == key_of(path@, hash),
{
    let name = match path::file_name(path) {
        Some(n) => safe_slug(n.as_str()),
        None => String::new(),
    };
    let name = if name.as_str().is_empty() {
        "repository".to_owned()
    } else {
        name
    };
    text::concat3(name.as_str(), "-", text::hex16(hash).as_str())
}

/// The name of the directory that holds the worktrees of a repository.
pub fn repository_key(path: &str) -> (r: String)
    ensures
        r@ == key_of(path@, hash_of_path(path@)),
{
    repository_key_with(path, hashing::path_hash(path))
}

/// The names of branches, in order.
#[derive(Debug, PartialEq, Eq)]
pub struct BranchNames {
    pub names: Vec<String>,
}

impl View for BranchNames {
    type V = Seq<Seq<char>>;

    open spec fn view(&self) -> Seq<Seq<char>> {
        views(self.names@)
    }
}

/// A local branch.
#[derive(Debug, PartialEq, Eq)]
pub struct GitBranch {
    pub name: String,
    pub current: bool,
}

/// The value of a `GitBranch`.
#[verifier::ext_equal]
pub struct BranchModel {
    pub name: Seq<char>,
    pub current: bool,
}

impl View for GitBranch {
    type V = BranchModel;

    open spec fn view(&self) -> BranchModel {
        BranchModel { name: self.name@, current: self.current }
    }
}

/// A commit, with its place in the graph.
#[derive(Debug, PartialEq, Eq)]
pub struct GitCommit {
    pub hash: String,
    pub short_hash: String,
    pub subject: String,
    pub author: String,
    pub relative_date: String,
    pub decorations: Vec<String>,
    pub graph_column: usize,
    pub graph_width: usize,
    pub is_merge: bool,
}

/// The value of a `GitCommit`.
#[verifier::ext_equal]
pub struct CommitModel {
    pub hash: Seq<char>,
    pub short_hash: Seq<char>,
    pub subject: Seq<char>,
    pub author: Seq<char>,
    pub relative_date: Seq<char>,
    pub decorations: Seq<Seq<char>>,
    pub graph_column: int,
    pub graph_width: int,
    pub is_merge: bool,
}

impl View for GitCommit {
    type V = CommitModel;

    open spec fn view(&self) -> CommitModel {
        CommitModel {
            hash: self.hash@,
            short_hash: self.short_hash@,
            subject: self.subject@,
            author: self.author@,
            relative_date: self.relative_date@,
            decorations: views(self.decorations@),
            graph_column: self.graph_column as int,
            graph_width: self.graph_width as int,
            is_merge: self.is_merge,
        }
    }
}

/// The branches and the latest commits of a repository.
#[derive(Debug, PartialEq, Eq)]
pub struct GitHistory {
    pub branches: Vec<GitBranch>,
    pub commits: Vec<GitCommit>,
}

/// The value of a `GitHistory`.
#[verifier::ext_equal]
pub struct HistoryModel {
    pub branches: Seq<BranchModel>,
    pub commits: Seq<CommitModel>,
}

impl View for GitHistory {
    type V = HistoryModel;

    open spec fn view(&self) -> HistoryModel {
        HistoryModel { branches: views(self.branches@), commits: views(self.commits@) }
    }
}

/// The position of a text, from `i` on.
pub open spec fn position_from(lanes: Seq<Seq<char>>, x: Seq<char>, i: int) -> int
    decreases lanes.len() - i,
{
    if i >= lanes.len() || lanes[i] == x {
        i
    } else {
        position_from(lanes, x, i + 1)
    }
}

/// The texts without those that stood before.
pub open spec fn distinct(s: Seq<Seq<char>>) -> Seq<Seq<char>>
    decreases s.len(),
{
    if s.len() == 0 {
        Seq::empty()
    } else {
        let head = distinct(s.drop_last());
        if head.contains(s.last()) {
            head
        } else {
            head.push(s.last())
        }
    }
}

/// The lanes with each of the further parents of a commit beside the commit's own lane, unless
/// it has a lane already.
pub open spec fn with_parents(lanes: Seq<Seq<char>>, column: int, more: Seq<Seq<char>>) -> Seq<
    Seq<char>,
>
    decreases more.len(),
{
    if more.len() == 0 {
        lanes
    } else if lanes.contains(more.last()) {
        with_parents(lanes, column, more.drop_last())
    } else {
        with_parents(lanes.insert(column + 1, more.last()), column, more.drop_last())
    }
}

/// The lanes of the graph as the commit `hash` finds them: a commit that no lane waits for
/// opens one at the left.
pub open spec fn lanes_with(lanes: Seq<Seq<char>>, hash: Seq<char>) -> Seq<Seq<char>> {
    if lanes.contains(hash) {
        lanes
    } else {
        lanes.insert(0, hash)
    }
}

/// The lanes below a commit: its lane goes on to its first parent, further parents get lanes
/// beside it, and a commit without parents ends its lane. No two lanes wait for one commit.
pub open spec fn lanes_below(
    lanes: Seq<Seq<char>>,
    hash: Seq<char>,
    parents: Seq<Seq<char>>,
) -> Seq<Seq<char>> {
    let placed = lanes_with(lanes, hash);
    let column = position_from(placed, hash, 0);
    distinct(
        if parents.len() == 0 {
            placed.remove(column)
        } else {
            with_parents(placed.update(column, parents[0]), column, parents.skip(1))
        },
    )
}

/// The commits read so far, and the lanes that go on below them.
#[verifier::ext_equal]
pub struct GraphModel {
    pub lanes: Seq<Seq<char>>,
    pub commits: Seq<CommitModel>,
}

/// The graph with one more line of the log. A line that does not hold seven fields is passed
/// over.
pub open spec fn graph_step(g: GraphModel, line: Seq<char>) -> GraphModel {
    let fields = pieces(line, '\x1f');
    if line.len() == 0 || fields.len() != 7 {
        g
    } else {
        let hash = fields[0];
        let parents = words_of(fields[2]);
        let lanes = lanes_below(g.lanes, hash, parents);
        GraphModel {
            lanes,
            commits: g.commits.push(
                CommitModel {
                    hash,
                    short_hash: fields[1],
                    subject: fields[6],
                    author: fields[3],
                    relative_date: fields[4],
                    decorations: text::trimmed_nonempty(pieces(fields[5], ',')),
                    graph_column: position_from(lanes_with(g.lanes, hash), hash, 0),
                    graph_width: if lanes.len() > 1 {
                        lanes.len() as int
                    } else {
                        1
                    },
                    is_merge: parents.len() > 1,
                },
            ),
        }
    }
}

/// The graph of the lines of a log.
pub open spec fn graph_of(lines: Seq<Seq<char>>) -> GraphModel
    decreases lines.len(),
{
    if lines.len() == 0 {
        GraphModel { lanes: Seq::empty(), commits: Seq::empty() }
    } else {
        graph_step(graph_of(lines.drop_last()), lines.last())
    }
}

/// The position of a text among texts, and their number where it is not among them.
fn position_of(lanes: &Vec<String>, x: &str) -> (r: usize)
    ensures
        r == position_from(views(lanes@), x@, 0),
        r <= lanes.len(),
        r < lanes.len() ==> views(lanes@)[r as int] == x@,
        r < lanes.len() <==> views(lanes@).contains(x@),
{
    let ghost all = views(lanes@);
    let mut i: usize = 0;
    while i < lanes.len()
        invariant
            all == views(lanes@),
            i <= lanes.len(),
            position_from(all, x@, 0) == position_from(all, x@, i as int),
            forall|k: int| 0 <= k < i ==> all[k] != x@,
        decreases lanes.len() - i,
    {
        assert(all[i as int] == lanes@[i as int]@);
        if text::same(lanes[i].as_str(), x) {
            return i;
        }
        i = i + 1;
    }
    i
}

/// See [`distinct`].
fn deduplicated(lanes: &Vec<String>) -> (r: Vec<String>)
    ensures
        views(r@) == distinct(views(lanes@)),
{
    broadcast use views_push;

    let ghost all = views(lanes@);
    let mut r: Vec<String> = Vec::new();
    let mut i: usize = 0;
    assert(views(r@) =~= distinct(all.take(0)));
    while i < lanes.len()
        invariant
            all == views(lanes@),
            i <= lanes.len(),
            views(r@) == distinct(all.take(i as int)),
        decreases lanes.len() - i,
    {
        proof {
            assert(all.take(i + 1).drop_last() =~= all.take(i as int));
            assert(all[i as int] == lanes@[i as int]@);
        }
        if !text::among(&r, lanes[i].as_str()) {
            r.push(lanes[i].clone());
        }
        i = i + 1;
    }
    assert(all.take(i as int) =~= all);
    r
}

/// The views of a sequence in which an item was put.
proof fn views_insert(v: Seq<String>, i: int, s: String)
    requires
        0 <= i <= v.len(),
    ensures
        views(v.insert(i, s)) == views(v).insert(i, s@),
{
    assert(views(v.insert(i, s)) =~= views(v).insert(i, s@));
}

/// The graph while it is read.
struct Graph {
    lanes: Vec<String>,
    commits: Vec<GitCommit>,
}

impl View for Graph {
    type V = GraphModel;

    closed spec fn view(&self) -> GraphModel {
        GraphModel { lanes: views(self.lanes@), commits: views(self.commits@) }
    }
}

impl Graph {
    /// Puts a commit into the lanes, and gives its column.
    fn place(&mut self, hash: &str, parents: &Vec<String>) -> (column: usize)
        ensures
            final(self)@.lanes == lanes_below(old(self)@.lanes, hash@, views(parents@)),
            final(self)@.commits == old(self)@.commits,
            column == position_from(lanes_with(old(self)@.lanes, hash@), hash@, 0),
    {
        broadcast use {views_push, views_index};

        let ghost before = self@.lanes;
        let ghost ps = views(parents@);
        let found: usize = position_of(&self.lanes, hash);
        let mut column: usize = found;
        if found == self.lanes.len() {
            let lane = hash.to_owned();
            proof {
                views_insert(self.lanes@, 0, lane);
            }
            self.lanes.insert(0, lane);
            column = 0;
        }
        let ghost placed = lanes_with(before, hash@);
        assert(views(self.lanes@) == placed);
        assert(placed[column as int] == hash@);
        assert(column == position_from(placed, hash@, 0));
        if parents.len() > 0 {
            let first = parents[0].clone();
            proof {
                crate::views::views_update(self.lanes@, column as int, first);
            }
            self.lanes.set(column, first);
            let mut k: usize = parents.len();
            let ghost goal = with_parents(
                placed.update(column as int, ps[0]),
                column as int,
                ps.skip(1),
            );
            assert(ps.skip(1).take(k - 1) =~= ps.skip(1));
            while k > 1
                invariant
                    ps == views(parents@),
                    1 <= k <= parents.len(),
                    column < self.lanes.len(),
                    self@.commits == old(self)@.commits,
                    with_parents(views(self.lanes@), column as int, ps.skip(1).take(k - 1)) == goal,
                decreases k,
            {
                k = k - 1;
                proof {
                    assert(ps.skip(1).take(k as int).last() == parents@[k as int]@);
                    assert(ps.skip(1).take(k as int).drop_last() =~= ps.skip(1).take(k - 1));
                }
                if !text::among(&self.lanes, parents[k].as_str()) {
                    let lane = parents[k].clone();
                    proof {
                        views_insert(self.lanes@, column + 1, lane);
                    }
                    self.lanes.insert(column + 1, lane);
                }
            }
            assert(ps.skip(1).take(0) =~= Seq::empty());
        } else {
            assert(views(self.lanes@.remove(column as int)) =~= placed.remove(column as int));
            self.lanes.remove(column);
        }
        self.lanes = deduplicated(&self.lanes);
        column
    }

    /// Takes in one more line of the log.
    fn line(&mut self, line: &str)
        ensures
            final(self)@ == graph_step(old(self)@, line@),
    {
        broadcast use {views_push, views_index};

        let fields = text::split(line, '\x1f');
        assert(fields@.len() == views(fields@).len());
        if line.is_empty() || fields.len() != 7 {
            return;
        }
        let parents = text::words(fields[2].as_str());
        assert(parents@.len() == views(parents@).len());
        let column: usize = self.place(fields[0].as_str(), &parents);
        let width: usize = if self.lanes.len() > 1 {
            self.lanes.len()
        } else {
            1
        };
        assert(self.lanes@.len() == self@.lanes.len());
        let names = text::split(fields[5].as_str(), ',');
        let commit = GitCommit {
            hash: fields[0].clone(),
            short_hash: fields[1].clone(),
            subject: fields[6].clone(),
            author: fields[3].clone(),
            relative_date: fields[4].clone(),
            decorations: text::trim_nonempty(&names),
            graph_column: column,
            graph_width: width,
            is_merge: parents.len() > 1,
        };
        self.commits.push(commit);
    }
}

/// The commits of a log, each with its place in the graph.
pub fn graph_commits(log: &str) -> (r: Vec<GitCommit>)
    ensures
        views(r@) == graph_of(lines_of(log@)).commits,
{
    let lines = text::lines(log);
    let ghost all = views(lines@);
    let mut graph = Graph { lanes: Vec::new(), commits: Vec::new() };
    let mut i: usize = 0;
    assert(graph@ =~= graph_of(all.take(0)));
    while i < lines.len()
        invariant
            all == views(lines@),
            i <= lines.len(),
            graph@ == graph_of(all.take(i as int)),
        decreases lines.len() - i,
    {
        proof {
            assert(all.take(i + 1).drop_last() =~= all.take(i as int));
            assert(all[i as int] == lines@[i as int]@);
        }
        graph.line(lines[i].as_str());
        i = i + 1;
    }
    assert(all.take(i as int) =~= all);
    graph.commits
}

/// What is said of a workspace that is in no repository.
pub open spec fn no_workspace_repository() -> Seq<char> {
    "the selected workspace is not inside a Git repository"@
}

/// The question for the root of the repository that holds a path.
pub open spec fn root_call(path: Seq<char>) -> InvocationModel {
    git_call(path, seq!["rev-parse"@, "--show-toplevel"@])
}

/// See [`root_call`].
pub fn ask_root(path: &str) -> (r: Invocation)
    ensures
        r@ == root_call(path@),
{
    let args = ["rev-parse", "--show-toplevel"];
    assert(texts(args@) =~= seq!["rev-parse"@, "--show-toplevel"@]);
    command::git(path, &args)
}

/// The root of a repository that a reply gives.
pub open spec fn root_of(reply: ReplyModel) -> Result<Seq<char>, Seq<char>> {
    match output_of(reply) {
        Some(root) => Ok(root),
        None => Err(no_workspace_repository()),
    }
}

/// See [`root_of`].
pub fn repository_root(reply: &Reply) -> (r: Result<String, String>)
    ensures
        match r {
            Ok(root) => root_of(reply@) == Ok::<Seq<char>, Seq<char>>(root@),
            Err(e) => root_of(reply@) == Err::<Seq<char>, Seq<char>>(e@),
        },
{
    match command::git_output(reply) {
        Some(root) => Ok(root),
        None => Err("the selected workspace is not inside a Git repository".to_owned()),
    }
}

/// The question for the current branch.
pub open spec fn branch_call(root: Seq<char>) -> InvocationModel {
    git_call(root, seq!["branch"@, "--show-current"@])
}

/// See [`branch_call`].
pub fn ask_branch(root: &str) -> (r: Invocation)
    ensures
        r@ == branch_call(root@),
{
    let args = ["branch", "--show-current"];
    assert(texts(args@) =~= seq!["branch"@, "--show-current"@]);
    command::git(root, &args)
}

/// The question for what is changed in the working tree.
pub open spec fn status_call(root: Seq<char>) -> InvocationModel {
    git_call(root, seq!["status"@, "--porcelain=v1"@])
}

/// See [`status_call`].
pub fn ask_status(root: &str) -> (r: Invocation)
    ensures
        r@ == status_call(root@),
{
    let args = ["status", "--porcelain=v1"];
    assert(texts(args@) =~= seq!["status"@, "--porcelain=v1"@]);
    command::git(root, &args)
}

/// The question for whether there is a commit.
pub open spec fn head_call(root: Seq<char>) -> InvocationModel {
    git_call(root, seq!["rev-parse"@, "--verify"@, "HEAD"@])
}

/// See [`head_call`].
fn ask_head(root: &str) -> (r: Invocation)
    ensures
        r@ == head_call(root@),
{
    let args = ["rev-parse", "--verify", "HEAD"];
    assert(texts(args@) =~= seq!["rev-parse"@, "--verify"@, "HEAD"@]);
    command::git(root, &args)
}

/// The branches that a listing of references names.
pub open spec fn branches_in(output: Seq<char>) -> Seq<Seq<char>> {
    text::sorted_distinct(text::trimmed_nonempty(lines_of(output)))
}

/// Listing the local branches of the repository that holds a path: what to do next after the
/// replies so far.
pub open spec fn list_step(path: Seq<char>, replies: Seq<ReplyModel>) -> StepModel<Seq<Seq<char>>> {
    if replies.len() == 0 {
        StepModel::Run(root_call(path))
    } else {
        match root_of(replies[0]) {
            Err(e) => StepModel::Done(Err(e)),
            Ok(root) => if replies.len() == 1 {
                StepModel::Run(
                    git_call(
                        root,
                        seq!["for-each-ref"@, "--format=%(refname:short)"@, "refs/heads"@],
                    ),
                )
            } else {
                match output_of(replies[1]) {
                    None => StepModel::Done(Err("failed to list local Git branches"@)),
                    Some(out) => StepModel::Done(Ok(branches_in(out))),
                }
            },
        }
    }
}

/// See [`list_step`]; the replies are those from `at` on.
pub fn list_local_branches(path: &str, replies: &Vec<Reply>, at: usize) -> (r: Step<BranchNames>)
    requires
        at <= replies.len(),
    ensures
        r@ == list_step(path@, views(replies@).skip(at as int)),
{
    broadcast use views_index;

    if replies.len() - at == 0 {
        return Step::Run(ask_root(path));
    }
    match repository_root(&replies[at]) {
        Err(e) => Step::Done(Err(e)),
        Ok(root) => {
            if replies.len() - at == 1 {
                let args = ["for-each-ref", "--format=%(refname:short)", "refs/heads"];
                assert(texts(args@) =~= seq![
                    "for-each-ref"@,
                    "--format=%(refname:short)"@,
                    "refs/heads"@,
                ]);
                return Step::Run(command::git(root.as_str(), &args));
            }
            match command::git_output(&replies[at + 1]) {
                None => Step::Done(Err("failed to list local Git branches".to_owned())),
                Some(out) => {
                    let names = text::sorted_set(&text::trim_nonempty(&text::lines(out.as_str())));
                    Step::Done(Ok(BranchNames { names }))
                },
            }
        },
    }
}

/// What an earlier part of the work still has to do, if it is not done.
pub open spec fn still<V, W>(step: StepModel<V>) -> StepModel<W> {
    match step {
        StepModel::Run(call) => StepModel::Run(call),
        StepModel::PathExists(path) => StepModel::PathExists(path),
        StepModel::IsDirectory(path) => StepModel::IsDirectory(path),
        StepModel::Canonicalize(path) => StepModel::Canonicalize(path),
        StepModel::MakeParent(path) => StepModel::MakeParent(path),
        StepModel::RemoveTree(path) => StepModel::RemoveTree(path),
        StepModel::ReadFile(path) => StepModel::ReadFile(path),
        StepModel::Done(Err(e)) => StepModel::Done(Err(e)),
        StepModel::Done(Ok(_)) => StepModel::Done(Err(Seq::empty())),
    }
}

/// The names of the branches with the current one marked.
pub open spec fn marked(names: Seq<Seq<char>>, current: Seq<char>) -> Seq<BranchModel> {
    names.map_values(|name: Seq<char>| BranchModel { name, current: name == current })
}

/// See [`marked`].
fn mark_current(names: &Vec<String>, current: &str) -> (r: Vec<GitBranch>)
    ensures
        views(r@) == marked(views(names@), current@),
{
    broadcast use views_push;

    let ghost all = marked(views(names@), current@);
    let mut r: Vec<GitBranch> = Vec::new();
    let mut i: usize = 0;
    while i < names.len()
        invariant
            all == marked(views(names@), current@),
            i <= names.len(),
            views(r@) == all.take(i as int),
        decreases names.len() - i,
    {
        let branch = GitBranch {
            name: names[i].clone(),
            current: text::same(names[i].as_str(), current),
        };
        assert(all.take(i + 1) =~= all.take(i as int).push(branch@));
        r.push(branch);
        i = i + 1;
    }
    assert(all.take(i as int) =~= all);
    r
}

/// The question for the latest commits of all branches.
pub open spec fn log_call(root: Seq<char>) -> InvocationModel {
    git_call(
        root,
        seq![
            "log"@,
            "--all"@,
            "--topo-order"@,
            "--date=relative"@,
            "--max-count=200"@,
            "--format=%H%x1f%h%x1f%P%x1f%an%x1f%ar%x1f%D%x1f%s"@,
        ],
    )
}

/// Reading the history of the repository that holds a path: what to do next after the replies
/// so far. A repository without a commit has an empty history.
pub open spec fn history_step(path: Seq<char>, replies: Seq<ReplyModel>) -> StepModel<HistoryModel> {
    if replies.len() == 0 {
        StepModel::Run(root_call(path))
    } else {
        match root_of(replies[0]) {
            Err(e) => StepModel::Done(Err(e)),
            Ok(root) => if replies.len() == 1 {
                StepModel::Run(branch_call(root))
            } else {
                let current = output_or_empty(replies[1]);
                match list_step(root, replies.skip(2)) {
                    StepModel::Done(Ok(names)) => {
                        let branches = marked(names, current);
                        if replies.len() == 4 {
                            StepModel::Run(head_call(root))
                        } else if !succeeded(replies[4]) {
                            StepModel::Done(Ok(HistoryModel { branches, commits: Seq::empty() }))
                        } else if replies.len() == 5 {
                            StepModel::Run(log_call(root))
                        } else {
                            match output_of(replies[5]) {
                                None => StepModel::Done(Err("failed to read Git history"@)),
                                Some(log) => StepModel::Done(
                                    Ok(
                                        HistoryModel {
                                            branches,
                                            commits: graph_of(lines_of(log)).commits,
                                        },
                                    ),
                                ),
                            }
                        }
                    },
                    other => still(other),
                }
            },
        }
    }
}

/// See [`history_step`].
pub fn load_git_history(path: &str, replies: &Vec<Reply>) -> (r: Step<GitHistory>)
    ensures
        r@ == history_step(path@, views(replies@)),
{
    broadcast use views_index;

    if replies.len() == 0 {
        return Step::Run(ask_root(path));
    }
    match repository_root(&replies[0]) {
        Err(e) => Step::Done(Err(e)),
        Ok(root) => {
            if replies.len() == 1 {
                return Step::Run(ask_branch(root.as_str()));
            }
            let current = command::git_output_or_empty(&replies[1]);
            match list_local_branches(root.as_str(), replies, 2) {
                Step::Done(Ok(names)) => {
                    let branches = mark_current(&names.names, current.as_str());
                    if replies.len() == 4 {
                        return Step::Run(ask_head(root.as_str()));
                    }
                    let commits: Vec<GitCommit> = Vec::new();
                    assert(views(commits@) =~= Seq::<CommitModel>::empty());
                    if !command::git_ok(&replies[4]) {
                        return Step::Done(Ok(GitHistory { branches, commits }));
                    }
                    if replies.len() == 5 {
                        let args = [
                            "log",
                            "--all",
                            "--topo-order",
                            "--date=relative",
                            "--max-count=200",
                            "--format=%H%x1f%h%x1f%P%x1f%an%x1f%ar%x1f%D%x1f%s",
                        ];
                        assert(git_call(root@, texts(args@)) =~= log_call(root@));
                        return Step::Run(command::git(root.as_str(), &args));
                    }
                    match command::git_output(&replies[5]) {
                        None => Step::Done(Err("failed to read Git history".to_owned())),
                        Some(log) => Step::Done(
                            Ok(GitHistory { branches, commits: graph_commits(log.as_str()) }),
                        ),
                    }
                },
                Step::Run(call) => Step::Run(call),
                Step::PathExists(p) => Step::PathExists(p),
                Step::IsDirectory(p) => Step::IsDirectory(p),
                Step::Canonicalize(p) => Step::Canonicalize(p),
                Step::MakeParent(p) => Step::MakeParent(p),
                Step::RemoveTree(p) => Step::RemoveTree(p),
                Step::ReadFile(p) => Step::ReadFile(p),
                Step::Done(Err(e)) => Step::Done(Err(e)),
            }
        },
    }
}

/// Switching the repository that holds a path to a local branch: what to do next after the
/// replies so far. The branch must exist, and the working tree must be clean unless the branch
/// is the current one.
pub open spec fn switch_step(path: Seq<char>, branch: Seq<char>, replies: Seq<ReplyModel>) -> StepModel<
    (),
> {
    let name = trimmed(branch);
    let missing = "the local branch "@ + quoted(name) + " does not exist"@;
    if replies.len() == 0 {
        StepModel::Run(root_call(path))
    } else {
        match root_of(replies[0]) {
            Err(e) => StepModel::Done(Err(e)),
            Ok(root) => if name.len() == 0 {
                StepModel::Done(Err(missing))
            } else {
                match list_step(root, replies.skip(1)) {
                    StepModel::Done(Ok(names)) => if !names.contains(name) {
                        StepModel::Done(Err(missing))
                    } else if replies.len() == 3 {
                        StepModel::Run(branch_call(root))
                    } else if output_or_empty(replies[3]) == name {
                        StepModel::Done(Ok(()))
                    } else if replies.len() == 4 {
                        StepModel::Run(status_call(root))
                    } else if output_or_empty(replies[4]).len() > 0 {
                        StepModel::Done(
                            Err(
                                "commit or stash your working-tree changes before switching branches"@,
                            ),
                        )
                    } else if replies.len() == 5 {
                        StepModel::Run(git_call(root, seq!["switch"@, name]))
                    } else {
                        match git_failure(seq!["switch"@, name], replies[5]) {
                            None => StepModel::Done(Ok(())),
                            Some(why) => StepModel::Done(
                                Err("could not switch to branch "@ + quoted(name) + ": "@ + why),
                            ),
                        }
                    },
                    other => still(other),
                }
            },
        }
    }
}

/// See [`switch_step`].
pub fn switch_local_branch(path: &str, branch: &str, replies: &Vec<Reply>) -> (r: Step<()>)
    ensures
        r@ == switch_step(path@, branch@, views(replies@)),
{
    broadcast use views_index;

    let name = text::trim(branch);
    let missing = text::concat3(
        "the local branch ",
        command::quote(name.as_str()).as_str(),
        " does not exist",
    );
    if replies.len() == 0 {
        return Step::Run(ask_root(path));
    }
    match repository_root(&replies[0]) {
        Err(e) => Step::Done(Err(e)),
        Ok(root) => {
            if name.as_str().is_empty() {
                return Step::Done(Err(missing));
            }
            match list_local_branches(root.as_str(), replies, 1) {
                Step::Done(Ok(names)) => {
                    if !text::among(&names.names, name.as_str()) {
                        return Step::Done(Err(missing));
                    }
                    if replies.len() == 3 {
                        return Step::Run(ask_branch(root.as_str()));
                    }
                    let current = command::git_output_or_empty(&replies[3]);
                    if text::same(current.as_str(), name.as_str()) {
                        return Step::Done(Ok(()));
                    }
                    if replies.len() == 4 {
                        return Step::Run(ask_status(root.as_str()));
                    }
                    let status = command::git_output_or_empty(&replies[4]);
                    if !status.as_str().is_empty() {
                        return Step::Done(
                            Err(
                                "commit or stash your working-tree changes before switching branches".to_owned(),
                            ),
                        );
                    }
                    let args = ["switch", name.as_str()];
                    assert(texts(args@) =~= seq!["switch"@, name@]);
                    if replies.len() == 5 {
                        return Step::Run(command::git(root.as_str(), &args));
                    }
                    match command::git_command(&args, &replies[5]) {
                        None => Step::Done(Ok(())),
                        Some(why) => {
                            let mut e = text::concat3(
                                "could not switch to branch ",
                                command::quote(name.as_str()).as_str(),
                                ": ",
                            );
                            e.append(why.as_str());
                            Step::Done(Err(e))
                        },
                    }
                },
                Step::Run(call) => Step::Run(call),
                Step::PathExists(p) => Step::PathExists(p),
                Step::IsDirectory(p) => Step::IsDirectory(p),
                Step::Canonicalize(p) => Step::Canonicalize(p),
                Step::MakeParent(p) => Step::MakeParent(p),
                Step::RemoveTree(p) => Step::RemoveTree(p),
                Step::ReadFile(p) => Step::ReadFile(p),
                Step::Done(Err(e)) => Step::Done(Err(e)),
            }
        },
    }
}

/// Committing everything in the working tree that holds a path: what to do next after the
/// replies so far. It ends with the short name of the commit.
pub open spec fn commit_step(path: Seq<char>, message: Seq<char>, replies: Seq<ReplyModel>) -> StepModel<
    Seq<char>,
> {
    let text = trimmed(message);
    if text.len() == 0 {
        StepModel::Done(Err("enter a commit message first"@))
    } else if replies.len() == 0 {
        StepModel::Run(root_call(path))
    } else {
        match root_of(replies[0]) {
            Err(e) => StepModel::Done(Err(e)),
            Ok(root) => if replies.len() == 1 {
                StepModel::Run(status_call(root))
            } else if output_or_empty(replies[1]).len() == 0 {
                StepModel::Done(Err("the working tree has no changes to commit"@))
            } else if replies.len() == 2 {
                StepModel::Run(git_call(root, seq!["add"@, "--all"@]))
            } else {
                match git_failure(seq!["add"@, "--all"@], replies[2]) {
                    Some(e) => StepModel::Done(Err(e)),
                    None => if replies.len() == 3 {
                        StepModel::Run(git_call(root, seq!["commit"@, "-m"@, text]))
                    } else {
                        match git_failure(seq!["commit"@, "-m"@, text], replies[3]) {
                            Some(e) => StepModel::Done(Err(e)),
                            None => if replies.len() == 4 {
                                StepModel::Run(
                                    git_call(root, seq!["rev-parse"@, "--short"@, "HEAD"@]),
                                )
                            } else {
                                match output_of(replies[4]) {
                                    Some(id) => StepModel::Done(Ok(id)),
                                    None => StepModel::Done(
                                        Err("Git did not return the new commit ID"@),
                                    ),
                                }
                            },
                        }
                    },
                }
            },
        }
    }
}

/// See [`commit_step`].
pub fn commit_all(path: &str, message: &str, replies: &Vec<Reply>) -> (r: Step<String>)
    ensures
        r@ == commit_step(path@, message@, views(replies@)),
{
    broadcast use views_index;

    let message = text::trim(message);
    if message.as_str().is_empty() {
        return Step::Done(Err("enter a commit message first".to_owned()));
    }
    if replies.len() == 0 {
        return Step::Run(ask_root(path));
    }
    match repository_root(&replies[0]) {
        Err(e) => Step::Done(Err(e)),
        Ok(root) => {
            if replies.len() == 1 {
                return Step::Run(ask_status(root.as_str()));
            }
            let status = command::git_output_or_empty(&replies[1]);
            if status.as_str().is_empty() {
                return Step::Done(Err("the working tree has no changes to commit".to_owned()));
            }
            let add = ["add", "--all"];
            assert(texts(add@) =~= seq!["add"@, "--all"@]);
            if replies.len() == 2 {
                return Step::Run(command::git(root.as_str(), &add));
            }
            if let Some(e) = command::git_command(&add, &replies[2]) {
                return Step::Done(Err(e));
            }
            let commit = ["commit", "-m", message.as_str()];
            assert(texts(commit@) =~= seq!["commit"@, "-m"@, message@]);
            if replies.len() == 3 {
                return Step::Run(command::git(root.as_str(), &commit));
            }
            if let Some(e) = command::git_command(&commit, &replies[3]) {
                return Step::Done(Err(e));
            }
            if replies.len() == 4 {
                let args = ["rev-parse", "--short", "HEAD"];
                assert(texts(args@) =~= seq!["rev-parse"@, "--short"@, "HEAD"@]);
                return Step::Run(command::git(root.as_str(), &args));
            }
            match command::git_output(&replies[4]) {
                Some(id) => Step::Done(Ok(id)),
                None => Step::Done(Err("Git did not return the new commit ID".to_owned())),
            }
        },
    }
}

/// The current branch that a reply gives; none where the head is detached.
pub open spec fn current_branch(reply: ReplyModel) -> Option<Seq<char>> {
    match output_of(reply) {
        Some(branch) => if branch.len() > 0 {
            Some(branch)
        } else {
            None
        },
        None => None,
    }
}

/// See [`current_branch`].
pub fn branch_in(reply: &Reply) -> (r: Option<String>)
    ensures
        opt_view(r) == current_branch(reply@),
{
    match command::git_output(reply) {
        Some(branch) => if branch.as_str().is_empty() {
            None
        } else {
            Some(branch)
        },
        None => None,
    }
}

/// Pushing the current branch of the repository that holds a path: what to do next after the
/// replies so far. It ends with the name of the branch.
pub open spec fn push_step(path: Seq<char>, replies: Seq<ReplyModel>) -> StepModel<Seq<char>> {
    if replies.len() == 0 {
        StepModel::Run(root_call(path))
    } else {
        match root_of(replies[0]) {
            Err(e) => StepModel::Done(Err(e)),
            Ok(root) => if replies.len() == 1 {
                StepModel::Run(branch_call(root))
            } else {
                match current_branch(replies[1]) {
                    None => StepModel::Done(Err("cannot push a detached HEAD"@)),
                    Some(branch) => {
                        let args = seq!["push"@, "--set-upstream"@, "origin"@, branch];
                        if replies.len() == 2 {
                            StepModel::Run(git_call(root, args))
                        } else {
                            match git_failure(args, replies[2]) {
                                Some(e) => StepModel::Done(Err(e)),
                                None => StepModel::Done(Ok(branch)),
                            }
                        }
                    },
                }
            },
        }
    }
}

/// See [`push_step`].
pub fn push_current_branch(path: &str, replies: &Vec<Reply>) -> (r: Step<String>)
    ensures
        r@ == push_step(path@, views(replies@)),
{
    broadcast use views_index;

    if replies.len() == 0 {
        return Step::Run(ask_root(path));
    }
    match repository_root(&replies[0]) {
        Err(e) => Step::Done(Err(e)),
        Ok(root) => {
            if replies.len() == 1 {
                return Step::Run(ask_branch(root.as_str()));
            }
            match branch_in(&replies[1]) {
                None => Step::Done(Err("cannot push a detached HEAD".to_owned())),
                Some(branch) => {
                    let args = ["push", "--set-upstream", "origin", branch.as_str()];
                    assert(texts(args@) =~= seq!["push"@, "--set-upstream"@, "origin"@, branch@]);
                    if replies.len() == 2 {
                        return Step::Run(command::git(root.as_str(), &args));
                    }
                    match command::git_command(&args, &replies[2]) {
                        Some(e) => Step::Done(Err(e)),
                        None => Step::Done(Ok(branch)),
                    }
                },
            }
        },
    }
}

/// The run of `gh` that opens a pull request.
pub open spec fn request_call(root: Seq<char>, title: Seq<char>, branch: Seq<char>) -> InvocationModel {
    InvocationModel {
        program: "gh"@,
        cwd: root,
        args: seq![
            "pr"@,
            "create"@,
            "--title"@,
            title,
            "--body"@,
            "Created with Rode."@,
            "--head"@,
            branch,
        ],
    }
}

/// What a run of `gh` gives: the address of the pull request.
pub open spec fn request_result(reply: ReplyModel) -> Result<Seq<char>, Seq<char>> {
    match reply {
        ReplyModel::Exited { success: true, stdout, .. } => {
            let url = trimmed(command::lossy_text(stdout));
            if url.len() == 0 {
                Err("gh created the pull request but returned no URL"@)
            } else {
                Ok(url)
            }
        },
        ReplyModel::Exited { success: false, stdout, stderr } => Err(
            "gh pr create failed: "@ + command::detail_of(stdout, stderr),
        ),
        ReplyModel::NotStarted { error } => Err(
            "failed to start `gh`; install GitHub CLI and authenticate it first: "@ + error,
        ),
        _ => Err("failed to start `gh`; install GitHub CLI and authenticate it first"@),
    }
}

/// Opening a pull request for the current branch: what to do next after the replies so far.
pub open spec fn request_step(path: Seq<char>, title: Seq<char>, replies: Seq<ReplyModel>) -> StepModel<
    Seq<char>,
> {
    let name = trimmed(title);
    if name.len() == 0 {
        StepModel::Done(Err("enter a pull-request title first"@))
    } else if replies.len() == 0 {
        StepModel::Run(root_call(path))
    } else {
        match root_of(replies[0]) {
            Err(e) => StepModel::Done(Err(e)),
            Ok(root) => if replies.len() == 1 {
                StepModel::Run(branch_call(root))
            } else {
                match current_branch(replies[1]) {
                    None => StepModel::Done(
                        Err("cannot create a pull request from a detached HEAD"@),
                    ),
                    Some(branch) => if replies.len() == 2 {
                        StepModel::Run(request_call(root, name, branch))
                    } else {
                        StepModel::Done(request_result(replies[2]))
                    },
                }
            },
        }
    }
}

/// See [`request_step`].
pub fn create_pull_request(path: &str, title: &str, replies: &Vec<Reply>) -> (r: Step<String>)
    ensures
        r@ == request_step(path@, title@, views(replies@)),
{
    broadcast use views_index;

    let name = text::trim(title);
    if name.as_str().is_empty() {
        return Step::Done(Err("enter a pull-request title first".to_owned()));
    }
    if replies.len() == 0 {
        return Step::Run(ask_root(path));
    }
    match repository_root(&replies[0]) {
        Err(e) => Step::Done(Err(e)),
        Ok(root) => {
            if replies.len() == 1 {
                return Step::Run(ask_branch(root.as_str()));
            }
            match branch_in(&replies[1]) {
                None => Step::Done(
                    Err("cannot create a pull request from a detached HEAD".to_owned()),
                ),
                Some(branch) => {
                    if replies.len() == 2 {
                        let args = [
                            "pr",
                            "create",
                            "--title",
                            name.as_str(),
                            "--body",
                            "Created with Rode.",
                            "--head",
                            branch.as_str(),
                        ];
                        let call = Invocation {
                            program: "gh".to_owned(),
                            cwd: root,
                            args: command::strings(&args),
                        };
                        assert(call@ =~= request_call(root@, name@, branch@));
                        return Step::Run(call);
                    }
                    match &replies[2] {
                        Reply::Exited { success, stdout, stderr } => {
                            if !*success {
                                let detail = command::command_detail(
                                    stdout.as_slice(),
                                    stderr.as_slice(),
                                );
                                return Step::Done(
                                    Err(text::concat("gh pr create failed: ", detail.as_str())),
                                );
                            }
                            let url = text::trim(command::text_of(stdout.as_slice()).as_str());
                            if url.as_str().is_empty() {
                                return Step::Done(
                                    Err(
                                        "gh created the pull request but returned no URL".to_owned(),
                                    ),
                                );
                            }
                            Step::Done(Ok(url))
                        },
                        Reply::NotStarted { error } => Step::Done(
                            Err(
                                text::concat(
                                    "failed to start `gh`; install GitHub CLI and authenticate it first: ",
                                    error.as_str(),
                                ),
                            ),
                        ),
                        _ => Step::Done(
                            Err(
                                "failed to start `gh`; install GitHub CLI and authenticate it first".to_owned(),
                            ),
                        ),
                    }
                },
            }
        },
    }
}

/// A worktree that a thread works in.
#[derive(Debug, PartialEq, Eq)]
pub struct ThreadWorktree {
    pub path: String,
    pub branch: String,
}

/// The value of a `ThreadWorktree`.
#[verifier::ext_equal]
pub struct WorktreeModel {
    pub path: Seq<char>,
    pub branch: Seq<char>,
}

impl View for ThreadWorktree {
    type V = WorktreeModel;

    open spec fn view(&self) -> WorktreeModel {
        WorktreeModel { path: self.path@, branch: self.branch@ }
    }
}

/// The short form of a thread's id, for its branch: the first twelve characters of its slug.
pub open spec fn short_id(thread_id: Seq<char>) -> Seq<char> {
    let s = slug_of(lowered(thread_id));
    if s.len() > 12 {
        s.take(12)
    } else {
        s
    }
}

/// See [`short_id`].
pub fn short_thread_id(thread_id: &str) -> (r: String)
    ensures
        r@ == short_id(thread_id@),
{
    let s = text::chars(safe_slug(thread_id).as_str());
    if s.len() > 12 {
        assert(s@.subrange(0, 12) =~= s@.take(12));
        text::slice(&s, 0, 12)
    } else {
        assert(s@.subrange(0, s@.len() as int) =~= s@);
        text::slice(&s, 0, s.len())
    }
}

/// The branch of a thread.
pub open spec fn thread_branch(thread_id: Seq<char>, title: Seq<char>) -> Seq<char> {
    let name = slug_of(lowered(title));
    if name.len() == 0 {
        "rode/"@ + short_id(thread_id)
    } else {
        "rode/"@ + short_id(thread_id) + "-"@ + name
    }
}

/// See [`thread_branch`].
pub fn worktree_branch(thread_id: &str, title: &str) -> (r: String)
    ensures
        r@ == thread_branch(thread_id@, title@),
{
    let name = safe_slug(title);
    let mut r = text::concat("rode/", short_thread_id(thread_id).as_str());
    if !name.as_str().is_empty() {
        r.append("-");
        r.append(name.as_str());
    }
    r
}

/// What is said of a project that is in no repository.
pub open spec fn no_project_repository() -> Seq<char> {
    "the selected project is not inside a Git repository"@
}

/// What a thread's worktree is made from.
pub struct WorktreePlan<'a> {
    /// The path of the project.
    pub repository: &'a str,
    pub thread_id: &'a str,
    pub title: &'a str,
    pub base_branch: &'a str,
    /// The directory that holds the worktrees of all repositories.
    pub worktrees_root: &'a str,
}

/// The value of a `WorktreePlan`.
#[verifier::ext_equal]
pub struct PlanModel {
    pub repository: Seq<char>,
    pub thread_id: Seq<char>,
    pub title: Seq<char>,
    pub base_branch: Seq<char>,
    pub worktrees_root: Seq<char>,
}

impl<'a> View for WorktreePlan<'a> {
    type V = PlanModel;

    open spec fn view(&self) -> PlanModel {
        PlanModel {
            repository: self.repository@,
            thread_id: self.thread_id@,
            title: self.title@,
            base_branch: self.base_branch@,
            worktrees_root: self.worktrees_root@,
        }
    }
}

/// Where a thread's worktree stands, given the hash of the repository's root.
pub open spec fn worktree_path(plan: PlanModel, root: Seq<char>, hash: u64) -> Seq<char> {
    below(below(plan.worktrees_root, key_of(root, hash)), slug_of(lowered(plan.thread_id)))
}

/// The command that asks whether a branch is there.
pub open spec fn own_branch_call(root: Seq<char>, branch: Seq<char>) -> InvocationModel {
    git_call(root, seq!["rev-parse"@, "--verify"@, "refs/heads/"@ + branch])
}

/// Whether a program ran and failed.
pub open spec fn says_no(reply: ReplyModel) -> bool {
    reply matches ReplyModel::Exited { success: false, .. }
}

/// See [`says_no`].
pub fn answered_no(reply: &Reply) -> (r: bool)
    ensures
        r == says_no(reply@),
{
    match reply {
        Reply::Exited { success, .. } => !*success,
        _ => false,
    }
}

/// Making a worktree for a thread: what to do next after the replies so far, given the hash of
/// the repository's root. The base branch must exist, and nothing may stand where the worktree
/// goes. What a failed attempt leaves behind is removed: the directory, and the branch where it
/// was not there before.
pub open spec fn worktree_step(plan: PlanModel, hash: u64, replies: Seq<ReplyModel>) -> StepModel<
    WorktreeModel,
> {
    let base = trimmed(plan.base_branch);
    let no_base = "the selected base branch "@ + quoted(base) + " does not exist"@;
    if replies.len() == 0 {
        StepModel::Run(root_call(plan.repository))
    } else {
        match output_of(replies[0]) {
            None => StepModel::Done(Err(no_project_repository())),
            Some(root) => {
                let branch = thread_branch(plan.thread_id, plan.title);
                let path = worktree_path(plan, root, hash);
                if replies.len() == 1 {
                    StepModel::Run(head_call(root))
                } else if !succeeded(replies[1]) {
                    StepModel::Done(
                        Err(
                            "the repository needs an initial commit before Rode can create worktrees"@,
                        ),
                    )
                } else if base.len() == 0 {
                    StepModel::Done(Err(no_base))
                } else if replies.len() == 2 {
                    StepModel::Run(
                        git_call(root, seq!["rev-parse"@, "--verify"@, base + "^{commit}"@]),
                    )
                } else if !succeeded(replies[2]) {
                    StepModel::Done(Err(no_base))
                } else if replies.len() == 3 {
                    StepModel::PathExists(path)
                } else if replies[3] == (ReplyModel::Exists { exists: true }) {
                    StepModel::Done(Err("thread worktree already exists at "@ + path))
                } else if replies.len() == 4 {
                    StepModel::MakeParent(path)
                } else {
                    match replies[4] {
                        ReplyModel::Finished { failure: Some(why) } => StepModel::Done(
                            Err("failed to create worktree directory "@ + why),
                        ),
                        _ => if replies.len() == 5 {
                            StepModel::Run(own_branch_call(root, branch))
                        } else if replies.len() == 6 {
                            StepModel::Run(
                                git_call(
                                    root,
                                    seq!["worktree"@, "add"@, "-b"@, branch, path, base],
                                ),
                            )
                        } else {
                            match replies[6] {
                                ReplyModel::Exited { success: true, .. } => StepModel::Done(
                                    Ok(WorktreeModel { path, branch }),
                                ),
                                ReplyModel::Exited { success: false, stderr, .. } => {
                                    let failed = "git worktree add failed: "@ + trimmed(
                                        command::lossy_text(stderr),
                                    );
                                    if replies.len() == 7 {
                                        StepModel::PathExists(path)
                                    } else {
                                        let left = replies[7] == (ReplyModel::Exists {
                                            exists: true,
                                        });
                                        let cleared: nat = if left {
                                            9
                                        } else {
                                            8
                                        };
                                        if replies.len() < cleared {
                                            StepModel::RemoveTree(path)
                                        } else if replies.len() == cleared && says_no(replies[5]) {
                                            StepModel::Run(
                                                git_call(root, seq!["branch"@, "-D"@, branch]),
                                            )
                                        } else {
                                            StepModel::Done(Err(failed))
                                        }
                                    }
                                },
                                ReplyModel::NotStarted { error } => StepModel::Done(
                                    Err("failed to start `git worktree add`: "@ + error),
                                ),
                                _ => StepModel::Done(Err("failed to start `git worktree add`"@)),
                            }
                        },
                    }
                }
            },
        }
    }
}

/// Whether a reply says that a path exists.
pub fn says_exists(reply: &Reply) -> (r: bool)
    ensures
        r == (reply@ == (ReplyModel::Exists { exists: true })),
{
    match reply {
        Reply::Exists { exists } => *exists,
        _ => false,
    }
}

/// See [`worktree_step`].
pub fn create_thread_worktree_with(plan: &WorktreePlan<'_>, hash: u64, replies: &Vec<Reply>) -> (r:
    Step<ThreadWorktree>)
    ensures
        r@ == worktree_step(plan@, hash, views(replies@)),
{
    broadcast use views_index;

    let base = text::trim(plan.base_branch);
    let no_base = text::concat3(
        "the selected base branch ",
        command::quote(base.as_str()).as_str(),
        " does not exist",
    );
    if replies.len() == 0 {
        return Step::Run(ask_root(plan.repository));
    }
    let root = match command::git_output(&replies[0]) {
        None => {
            return Step::Done(
                Err("the selected project is not inside a Git repository".to_owned()),
            );
        },
        Some(root) => root,
    };
    let branch = worktree_branch(plan.thread_id, plan.title);
    let key = repository_key_with(root.as_str(), hash);
    let path = path::join(
        path::join(plan.worktrees_root, key.as_str()).as_str(),
        safe_slug(plan.thread_id).as_str(),
    );
    if replies.len() == 1 {
        return Step::Run(ask_head(root.as_str()));
    }
    if !command::git_ok(&replies[1]) {
        return Step::Done(
            Err(
                "the repository needs an initial commit before Rode can create worktrees".to_owned(),
            ),
        );
    }
    if base.as_str().is_empty() {
        return Step::Done(Err(no_base));
    }
    if replies.len() == 2 {
        let commit = text::concat(base.as_str(), "^{commit}");
        let args = ["rev-parse", "--verify", commit.as_str()];
        assert(texts(args@) =~= seq!["rev-parse"@, "--verify"@, base@ + "^{commit}"@]);
        return Step::Run(command::git(root.as_str(), &args));
    }
    if !command::git_ok(&replies[2]) {
        return Step::Done(Err(no_base));
    }
    if replies.len() == 3 {
        return Step::PathExists(path);
    }
    if says_exists(&replies[3]) {
        return Step::Done(Err(text::concat("thread worktree already exists at ", path.as_str())));
    }
    if replies.len() == 4 {
        return Step::MakeParent(path);
    }
    if let Reply::Finished { failure: Some(why) } = &replies[4] {
        return Step::Done(Err(text::concat("failed to create worktree directory ", why.as_str())));
    }
    if replies.len() == 5 {
        let name = text::concat("refs/heads/", branch.as_str());
        let args = ["rev-parse", "--verify", name.as_str()];
        assert(texts(args@) =~= seq!["rev-parse"@, "--verify"@, "refs/heads/"@ + branch@]);
        return Step::Run(command::git(root.as_str(), &args));
    }
    if replies.len() == 6 {
        let args = ["worktree", "add", "-b", branch.as_str(), path.as_str(), base.as_str()];
        assert(texts(args@) =~= seq!["worktree"@, "add"@, "-b"@, branch@, path@, base@]);
        return Step::Run(command::git(root.as_str(), &args));
    }
    match &replies[6] {
        Reply::Exited { success, stderr, .. } => {
            if *success {
                return Step::Done(Ok(ThreadWorktree { path, branch }));
            }
            if replies.len() == 7 {
                return Step::PathExists(path);
            }
            let cleared: usize = if says_exists(&replies[7]) {
                9
            } else {
                8
            };
            if replies.len() < cleared {
                return Step::RemoveTree(path);
            }
            if replies.len() == cleared && answered_no(&replies[5]) {
                let args = ["branch", "-D", branch.as_str()];
                assert(texts(args@) =~= seq!["branch"@, "-D"@, branch@]);
                return Step::Run(command::git(root.as_str(), &args));
            }
            let detail = text::trim(command::text_of(stderr.as_slice()).as_str());
            Step::Done(Err(text::concat("git worktree add failed: ", detail.as_str())))
        },
        Reply::NotStarted { error } => Step::Done(
            Err(text::concat("failed to start `git worktree add`: ", error.as_str())),
        ),
        _ => Step::Done(Err("failed to start `git worktree add`".to_owned())),
    }
}

/// The hash of the repository's root that the first reply names, and zero before it does.
pub open spec fn replied_hash(replies: Seq<ReplyModel>) -> u64 {
    if replies.len() == 0 {
        0
    } else {
        match output_of(replies[0]) {
            Some(root) => hash_of_path(root),
            None => 0,
        }
    }
}

/// Making a worktree for a thread: see [`worktree_step`].
pub fn create_thread_worktree(plan: &WorktreePlan<'_>, replies: &Vec<Reply>) -> (r: Step<
    ThreadWorktree,
>)
    ensures
        r@ == worktree_step(plan@, replied_hash(views(replies@)), views(replies@)),
{
    broadcast use views_index;

    let hash: u64 = if replies.len() == 0 {
        0
    } else {
        match command::git_output(&replies[0]) {
            Some(root) => hashing::path_hash(root.as_str()),
            None => 0,
        }
    };
    create_thread_worktree_with(plan, hash, replies)
}

/// Removing a thread's worktree: what to do next after the replies so far.
pub open spec fn remove_step(
    repository: Seq<char>,
    worktree: WorktreeModel,
    replies: Seq<ReplyModel>,
) -> StepModel<()> {
    if replies.len() == 0 {
        StepModel::Run(root_call(repository))
    } else {
        match output_of(replies[0]) {
            None => StepModel::Done(Err(no_project_repository())),
            Some(root) => if replies.len() == 1 {
                StepModel::Run(
                    git_call(root, seq!["worktree"@, "remove"@, "--force"@, worktree.path]),
                )
            } else {
                match replies[1] {
                    ReplyModel::Exited { success: true, .. } => StepModel::Done(Ok(())),
                    ReplyModel::Exited { success: false, stderr, .. } => StepModel::Done(
                        Err(
                            "git worktree remove failed: "@ + trimmed(command::lossy_text(stderr)),
                        ),
                    ),
                    ReplyModel::NotStarted { error } => StepModel::Done(
                        Err("failed to start `git worktree remove`: "@ + error),
                    ),
                    _ => StepModel::Done(Err("failed to start `git worktree remove`"@)),
                }
            },
        }
    }
}

/// See [`remove_step`].
pub fn remove_thread_worktree(repository: &str, worktree: &ThreadWorktree, replies: &Vec<Reply>) -> (r:
    Step<()>)
    ensures
        r@ == remove_step(repository@, worktree@, views(replies@)),
{
    broadcast use views_index;

    if replies.len() == 0 {
        return Step::Run(ask_root(repository));
    }
    match command::git_output(&replies[0]) {
        None => Step::Done(Err("the selected project is not inside a Git repository".to_owned())),
        Some(root) => {
            if replies.len() == 1 {
                let args = ["worktree", "remove", "--force", worktree.path.as_str()];
                assert(texts(args@) =~= seq!["worktree"@, "remove"@, "--force"@, worktree.path@]);
                return Step::Run(command::git(root.as_str(), &args));
            }
            match &replies[1] {
                Reply::Exited { success, stderr, .. } => {
                    if *success {
                        Step::Done(Ok(()))
                    } else {
                        let detail = text::trim(command::text_of(stderr.as_slice()).as_str());
                        Step::Done(
                            Err(text::concat("git worktree remove failed: ", detail.as_str())),
                        )
                    }
                },
                Reply::NotStarted { error } => Step::Done(
                    Err(text::concat("failed to start `git worktree remove`: ", error.as_str())),
                ),
                _ => Step::Done(Err("failed to start `git worktree remove`".to_owned())),
            }
        },
    }
}

/// Texts without those that stood before: none stands twice, and all that stood still stand.
proof fn distinct_shape(s: Seq<Seq<char>>)
    ensures
        distinct(s).no_duplicates(),
        distinct(s).to_set() == s.to_set(),
    decreases s.len(),
{
    if s.len() > 0 {
        let head = s.drop_last();
        distinct_shape(head);
        let d = distinct(head);
        assert(s =~= head.push(s.last()));
        assert forall|x: Seq<char>| distinct(s).to_set().contains(x) <==> s.to_set().contains(x) by {
            assert(d.to_set().contains(x) <==> head.to_set().contains(x));
            if s.contains(x) {
                let i = s.index_of(x);
                if i < head.len() {
                    assert(head[i] == x);
                    assert(d.contains(x));
                    let j = d.index_of(x);
                    assert(distinct(s)[j] == x);
                } else if !d.contains(x) {
                    assert(distinct(s)[d.len() as int] == x);
                }
            }
            if distinct(s).contains(x) {
                if d.contains(x) {
                    assert(head.contains(x));
                    let j = head.index_of(x);
                    assert(s[j] == x);
                } else {
                    let j = distinct(s).index_of(x);
                    if j < d.len() {
                        assert(d[j] == x);
                    }
                    assert(s[s.len() - 1] == x);
                }
            }
        }
        assert(distinct(s).to_set() =~= s.to_set());
    } else {
        assert(distinct(s).to_set() =~= s.to_set());
    }
}

/// Lanes for further parents are added to the lanes that there are.
proof fn with_parents_keeps(lanes: Seq<Seq<char>>, column: int, more: Seq<Seq<char>>)
    requires
        0 <= column < lanes.len(),
    ensures
        lanes.to_set().subset_of(with_parents(lanes, column, more).to_set()),
    decreases more.len(),
{
    if more.len() > 0 {
        if lanes.contains(more.last()) {
            with_parents_keeps(lanes, column, more.drop_last());
        } else {
            let next = lanes.insert(column + 1, more.last());
            with_parents_keeps(next, column, more.drop_last());
            assert forall|x: Seq<char>| lanes.to_set().contains(x) implies next.to_set().contains(x) by {
                let i = lanes.index_of(x);
                if i <= column {
                    assert(next[i] == x);
                } else {
                    assert(next[i + 1] == x);
                }
            }
        }
    }
}

/// Where a text stands among texts that hold it.
proof fn position_is_inside(lanes: Seq<Seq<char>>, x: Seq<char>, i: int)
    requires
        0 <= i,
        exists|k: int| i <= k < lanes.len() && lanes[k] == x,
    ensures
        i <= position_from(lanes, x, i) < lanes.len(),
        lanes[position_from(lanes, x, i)] == x,
    decreases lanes.len() - i,
{
    if i < lanes.len() && lanes[i] != x {
        position_is_inside(lanes, x, i + 1);
    }
}

/// The column of a commit is at most the number of lanes that go on below it.
proof fn column_bound(lanes: Seq<Seq<char>>, hash: Seq<char>, parents: Seq<Seq<char>>)
    requires
        lanes.no_duplicates(),
    ensures
        0 <= position_from(lanes_with(lanes, hash), hash, 0) <= lanes_below(
            lanes,
            hash,
            parents,
        ).len(),
{
    let placed = lanes_with(lanes, hash);
    if lanes.contains(hash) {
        let k = lanes.index_of(hash);
        assert(placed[k] == hash);
    } else {
        assert(placed[0] == hash);
        assert forall|i: int, j: int| 0 <= i < placed.len() && 0 <= j < placed.len() && i != j implies placed[i]
            != placed[j] by {
            if i > 0 {
                assert(placed[i] == lanes[i - 1]);
            }
            if j > 0 {
                assert(placed[j] == lanes[j - 1]);
            }
        }
    }
    assert(placed.no_duplicates());
    position_is_inside(placed, hash, 0);
    let column = position_from(placed, hash, 0);
    let others = placed.remove(column);
    assert(others.no_duplicates());
    others.unique_seq_to_set();
    let next = if parents.len() == 0 {
        others
    } else {
        with_parents(placed.update(column, parents[0]), column, parents.skip(1))
    };
    distinct_shape(next);
    distinct(next).unique_seq_to_set();
    if parents.len() > 0 {
        let updated = placed.update(column, parents[0]);
        with_parents_keeps(updated, column, parents.skip(1));
        assert forall|x: Seq<char>| others.to_set().contains(x) implies next.to_set().contains(x) by {
            let i = others.index_of(x);
            if i < column {
                assert(updated[i] == x);
            } else {
                assert(updated[i + 1] == x);
            }
            assert(updated.to_set().contains(x));
        }
    }
    vstd::set_lib::lemma_len_subset(others.to_set(), next.to_set());
}

/// In the graph of any log no two lanes wait for one commit, and every commit stands in a lane
/// or just right of those that go on below it.
pub proof fn graph_columns_fit(lines: Seq<Seq<char>>)
    ensures
        graph_of(lines).lanes.no_duplicates(),
        forall|i: int|
            0 <= i < graph_of(lines).commits.len() ==> 0 <= (
            #[trigger] graph_of(lines).commits[i]).graph_column
                <= graph_of(lines).commits[i].graph_width,
    decreases lines.len(),
{
    if lines.len() > 0 {
        let before = graph_of(lines.drop_last());
        graph_columns_fit(lines.drop_last());
        let fields = pieces(lines.last(), '\x1f');
        if lines.last().len() > 0 && fields.len() == 7 {
            column_bound(before.lanes, fields[0], words_of(fields[2]));
            let placed = lanes_with(before.lanes, fields[0]);
            let parents = words_of(fields[2]);
            let column = position_from(placed, fields[0], 0);
            distinct_shape(
                if parents.len() == 0 {
                    placed.remove(column)
                } else {
                    with_parents(placed.update(column, parents[0]), column, parents.skip(1))
                },
            );
        }
    }
}

/// A branch is switched to only in a clean working tree, and only where it is a local branch
/// and not the current one.
pub proof fn dirty_trees_are_not_switched(
    path: Seq<char>,
    branch: Seq<char>,
    replies: Seq<ReplyModel>,
)
    requires
        switch_step(path, branch, replies) matches StepModel::Run(call) && call.args.len() > 0
            && call.args[0] == "switch"@,
    ensures
        replies.len() == 5,
        output_or_empty(replies[4]).len() == 0,
        output_or_empty(replies[3]) != trimmed(branch),
        list_step(root_of(replies[0])->Ok_0, replies.skip(1)) matches StepModel::Done(Ok(names))
            && names.contains(trimmed(branch)),
{
    reveal_strlit("switch");
    reveal_strlit("rev-parse");
    reveal_strlit("for-each-ref");
    reveal_strlit("branch");
    reveal_strlit("status");
    assert("switch"@.len() == 6 && "rev-parse"@.len() == 9 && "for-each-ref"@.len() == 12
        && "branch"@.len() == 6 && "status"@.len() == 6);
    assert("switch"@[0] == 's' && "branch"@[0] == 'b');
    assert("switch"@[1] == 'w' && "status"@[1] == 't');
}

/// Making a worktree removes a directory only where it stands for the thread, was not there
/// before, and adding the worktree failed.
pub proof fn only_own_worktrees_are_removed(
    plan: PlanModel,
    hash: u64,
    replies: Seq<ReplyModel>,
    removed: Seq<char>,
)
    requires
        worktree_step(plan, hash, replies) == StepModel::<WorktreeModel>::RemoveTree(removed),
    ensures
        output_of(replies[0]) matches Some(root) && removed == worktree_path(plan, root, hash),
        replies[3] != (ReplyModel::Exists { exists: true }),
        says_no(replies[6]),
{
}

/// Making a worktree deletes a branch only where it is the thread's, was not there before, and
/// adding the worktree failed; the directory is gone by then.
pub proof fn only_own_branches_are_deleted(
    plan: PlanModel,
    hash: u64,
    replies: Seq<ReplyModel>,
    call: InvocationModel,
)
    requires
        worktree_step(plan, hash, replies) == StepModel::<WorktreeModel>::Run(call),
        call.args.len() > 0 && call.args[0] == "branch"@,
    ensures
        output_of(replies[0]) matches Some(root) && call == git_call(
            root,
            seq!["branch"@, "-D"@, thread_branch(plan.thread_id, plan.title)],
        ),
        says_no(replies[5]),
        says_no(replies[6]),
        replies[7] == (ReplyModel::Exists { exists: true }) ==> replies.len() == 9,
{
    reveal_strlit("branch");
    reveal_strlit("rev-parse");
    reveal_strlit("worktree");
    assert("branch"@.len() == 6 && "rev-parse"@.len() == 9 && "worktree"@.len() == 8);
}

/// A worktree that could not be added is not reported before what it left was cleaned up: the
/// directory where there is one, and then the branch where it was not there before.
pub proof fn failed_worktrees_are_cleaned_up(
    plan: PlanModel,
    hash: u64,
    replies: Seq<ReplyModel>,
)
    requires
        replies.len() > 6,
        worktree_step(plan, hash, replies) is Done,
        worktree_step(plan, hash, replies.take(6)) is Run,
        says_no(replies[6]),
    ensures
        worktree_step(plan, hash, replies) matches StepModel::Done(Err(_)),
        output_of(replies[0]) matches Some(root) && {
            let path = worktree_path(plan, root, hash);
            let branch = thread_branch(plan.thread_id, plan.title);
            let left = replies[7] == (ReplyModel::Exists { exists: true });
            let cleared: int = if left {
                9
            } else {
                8
            };
            &&& replies.len() >= cleared
            &&& worktree_step(plan, hash, replies.take(7)) == StepModel::<
                WorktreeModel,
            >::PathExists(path)
            &&& left ==> worktree_step(plan, hash, replies.take(8)) == StepModel::<
                WorktreeModel,
            >::RemoveTree(path)
            &&& says_no(replies[5]) ==> replies.len() > cleared && worktree_step(
                plan,
                hash,
                replies.take(cleared),
            ) == StepModel::<WorktreeModel>::Run(
                git_call(root, seq!["branch"@, "-D"@, branch]),
            )
        },
{
}

/// Making a worktree runs no command in the repository but to look up revisions, to add the
/// worktree on a branch of its own, and to delete that branch again.
pub proof fn the_main_checkout_is_left_alone(
    plan: PlanModel,
    hash: u64,
    replies: Seq<ReplyModel>,
)
    ensures
        worktree_step(plan, hash, replies) matches StepModel::Run(call) ==> {
            ||| call.args.len() > 0 && call.args[0] == "rev-parse"@
            ||| call.args == seq![
                "branch"@,
                "-D"@,
                thread_branch(plan.thread_id, plan.title),
            ]
            ||| exists|root: Seq<char>|
                call.args == seq![
                    "worktree"@,
                    "add"@,
                    "-b"@,
                    thread_branch(plan.thread_id, plan.title),
                    #[trigger] worktree_path(plan, root, hash),
                    trimmed(plan.base_branch),
                ]
        },
{
    if let Some(root) = output_of(replies[0]) {
        let path = worktree_path(plan, root, hash);
    }
}

/// The worktree of a thread stands in a directory that the repository's root alone gives, under
/// the slug of the thread's id: two threads of one repository whose ids have different slugs never
/// share one. An id that is its own slug is the name of the directory.
pub proof fn worktrees_stand_apart(a: PlanModel, b: PlanModel, root: Seq<char>)
    requires
        a.worktrees_root == b.worktrees_root,
    ensures
        slug_of(lowered(a.thread_id)) != slug_of(lowered(b.thread_id)) ==> worktree_path(
            a,
            root,
            hash_of_path(root),
        ) != worktree_path(b, root, hash_of_path(root)),
        slug_of(lowered(a.thread_id)) == a.thread_id ==> worktree_path(a, root, hash_of_path(root))
            == below(below(a.worktrees_root, key_of(root, hash_of_path(root))), a.thread_id),
{
    let dir = below(a.worktrees_root, key_of(root, hash_of_path(root)));
    let one = slug_of(lowered(a.thread_id));
    let other = slug_of(lowered(b.thread_id));
    dashed_shape(lowered(a.thread_id));
    dashed_shape(lowered(b.thread_id));
    reveal_strlit("-");
    reveal_strlit("/");
    assert(dir.len() > 0);
    assert(one.len() > 0 ==> one[0] == dashed(lowered(a.thread_id))[0]);
    assert(other.len() > 0 ==> other[0] == dashed(lowered(b.thread_id))[0]);
    let start = if dir.last() == '/' {
        dir
    } else {
        dir + "/"@
    };
    assert(below(dir, one) =~= start + one);
    assert(below(dir, other) =~= start + other);
    if start + one == start + other {
        assert(one.len() == other.len()) by {
            assert((start + one).len() == (start + other).len());
        }
        assert forall|i: int| 0 <= i < one.len() implies one[i] == other[i] by {
            assert((start + one)[start.len() + i] == one[i]);
            assert((start + other)[start.len() + i] == other[i]);
        }
        assert(one =~= other);
    }
}

/// A commit is made only of changes, which were added before, and with a message.
pub proof fn commits_hold_the_changes(
    path: Seq<char>,
    message: Seq<char>,
    replies: Seq<ReplyModel>,
)
    requires
        commit_step(path, message, replies) matches StepModel::Run(call) && call.args.len() > 0
            && call.args[0] == "commit"@,
    ensures
        trimmed(message).len() > 0,
        replies.len() == 3,
        output_or_empty(replies[1]).len() > 0,
        git_failure(seq!["add"@, "--all"@], replies[2]) is None,
{
    reveal_strlit("commit");
    reveal_strlit("rev-parse");
    reveal_strlit("status");
    reveal_strlit("add");
    assert("commit"@.len() == 6 && "rev-parse"@.len() == 9 && "status"@.len() == 6 && "add"@.len()
        == 3);
    assert("commit"@[0] == 'c' && "status"@[0] == 's');
}

/// No operation asks for ever: each is done once it has had as many replies as it can ask for.
pub proof fn operations_come_to_an_end(
    path: Seq<char>,
    text: Seq<char>,
    plan: PlanModel,
    hash: u64,
    worktree: WorktreeModel,
    replies: Seq<ReplyModel>,
)
    ensures
        replies.len() >= 2 ==> list_step(path, replies) is Done,
        replies.len() >= 6 ==> history_step(path, replies) is Done,
        replies.len() >= 6 ==> switch_step(path, text, replies) is Done,
        replies.len() >= 5 ==> commit_step(path, text, replies) is Done,
        replies.len() >= 3 ==> push_step(path, replies) is Done,
        replies.len() >= 3 ==> request_step(path, text, replies) is Done,
        replies.len() >= 10 ==> worktree_step(plan, hash, replies) is Done,
        replies.len() >= 2 ==> remove_step(path, worktree, replies) is Done,
{
}

/// Whether a step is a run of `git` in a directory with some arguments.
pub open spec fn runs_git<T>(step: StepModel<T>, cwd: Seq<char>, args: Seq<Seq<char>>) -> bool {
    step matches StepModel::Run(call) && call.program == "git"@ && call.cwd == cwd && call.args
        == args
}

/// A branch that is said to be pushed was pushed: it is the current branch of the repository that
/// holds the path, as Git told, and the one push that was asked for named the remote `origin` and
/// that branch, and went well. It goes so wherever Git answers.
pub proof fn the_current_branch_is_pushed(
    path: Seq<char>,
    replies: Seq<ReplyModel>,
    root: Seq<char>,
    branch: Seq<char>,
)
    requires
        replies.len() >= 3,
        printed(replies[0], root),
        printed(replies[1], branch),
    ensures
        runs_git(push_step(path, replies.take(0)), path, seq!["rev-parse"@, "--show-toplevel"@]),
        runs_git(push_step(path, replies.take(1)), root, seq!["branch"@, "--show-current"@]),
        branch.len() > 0 ==> runs_git(
            push_step(path, replies.take(2)),
            root,
            seq!["push"@, "--set-upstream"@, "origin"@, branch],
        ),
        branch.len() > 0 && succeeded(replies[2]) ==> push_step(path, replies) == StepModel::<
            Seq<char>,
        >::Done(Ok(branch)),
        branch.len() == 0 || !succeeded(replies[2]) ==> (push_step(path, replies)
            matches StepModel::Done(r) && r is Err),
{
    assert(replies.take(1)[0] == replies[0]);
    assert(replies.take(2)[0] == replies[0] && replies.take(2)[1] == replies[1]);
}

/// Pushing ends with a branch only after Git named it and the push of it went well.
pub proof fn nothing_else_is_said_to_be_pushed(
    path: Seq<char>,
    replies: Seq<ReplyModel>,
    branch: Seq<char>,
)
    requires
        push_step(path, replies) == StepModel::<Seq<char>>::Done(Ok(branch)),
    ensures
        replies.len() >= 3,
        branch.len() > 0,
        printed(replies[1], branch),
        succeeded(replies[2]),
        push_step(path, replies.take(2)) matches StepModel::Run(call) && call.args.len() == 4
            && call.args[0] == "push"@ && call.args[2] == "origin"@ && call.args[3] == branch,
{
    assert(replies.take(2)[0] == replies[0] && replies.take(2)[1] == replies[1]);
}

/// A commit holds all changes and bears the message of the user, without white space at its
/// ends; what is given back is the id that Git names for it. It goes so wherever Git answers.
pub proof fn commits_bear_their_message(
    path: Seq<char>,
    message: Seq<char>,
    replies: Seq<ReplyModel>,
    root: Seq<char>,
    status: Seq<char>,
    id: Seq<char>,
)
    requires
        replies.len() >= 5,
        trimmed(message).len() > 0,
        printed(replies[0], root),
        printed(replies[1], status),
    ensures
        runs_git(
            commit_step(path, message, replies.take(0)),
            path,
            seq!["rev-parse"@, "--show-toplevel"@],
        ),
        runs_git(
            commit_step(path, message, replies.take(1)),
            root,
            seq!["status"@, "--porcelain=v1"@],
        ),
        status.len() > 0 ==> runs_git(
            commit_step(path, message, replies.take(2)),
            root,
            seq!["add"@, "--all"@],
        ),
        status.len() > 0 && succeeded(replies[2]) ==> runs_git(
            commit_step(path, message, replies.take(3)),
            root,
            seq!["commit"@, "-m"@, trimmed(message)],
        ),
        status.len() > 0 && succeeded(replies[2]) && succeeded(replies[3]) ==> runs_git(
            commit_step(path, message, replies.take(4)),
            root,
            seq!["rev-parse"@, "--short"@, "HEAD"@],
        ),
        status.len() > 0 && succeeded(replies[2]) && succeeded(replies[3]) && printed(replies[4], id)
            ==> commit_step(path, message, replies) == StepModel::<Seq<char>>::Done(Ok(id)),
        status.len() == 0 || !succeeded(replies[2]) || !succeeded(replies[3]) || !succeeded(
            replies[4],
        ) ==> (commit_step(path, message, replies) matches StepModel::Done(r) && r is Err),
{
    assert(replies.take(1)[0] == replies[0]);
    assert(replies.take(2)[0] == replies[0] && replies.take(2)[1] == replies[1]);
    let three = replies.take(3);
    assert(three[0] == replies[0] && three[1] == replies[1] && three[2] == replies[2]);
    let four = replies.take(4);
    assert(four[0] == replies[0] && four[1] == replies[1] && four[2] == replies[2] && four[3]
        == replies[3]);
}

/// Without a message nothing is committed, and without a title no pull request is opened.
pub proof fn nameless_work_is_not_published(
    path: Seq<char>,
    words: Seq<char>,
    replies: Seq<ReplyModel>,
)
    requires
        trimmed(words).len() == 0,
    ensures
        commit_step(path, words, replies) matches StepModel::Done(r) && r is Err,
        request_step(path, words, replies) matches StepModel::Done(r) && r is Err,
{
}

/// A pull request is opened from the current branch, as Git told it, under the title of the user,
/// without white space at its ends; what is given back is the address that `gh` printed.
pub proof fn pull_requests_are_of_the_current_branch(
    path: Seq<char>,
    title: Seq<char>,
    replies: Seq<ReplyModel>,
    root: Seq<char>,
    branch: Seq<char>,
    url: Seq<char>,
)
    requires
        replies.len() >= 3,
        trimmed(title).len() > 0,
        printed(replies[0], root),
        printed(replies[1], branch),
    ensures
        runs_git(
            request_step(path, title, replies.take(0)),
            path,
            seq!["rev-parse"@, "--show-toplevel"@],
        ),
        runs_git(
            request_step(path, title, replies.take(1)),
            root,
            seq!["branch"@, "--show-current"@],
        ),
        branch.len() > 0 ==> (request_step(path, title, replies.take(2)) matches StepModel::Run(call)
            && {
            &&& call.program == "gh"@
            &&& call.cwd == root
            &&& call.args.len() == 8
            &&& call.args[0] == "pr"@ && call.args[1] == "create"@
            &&& call.args[2] == "--title"@ && call.args[3] == trimmed(title)
            &&& call.args[6] == "--head"@ && call.args[7] == branch
        }),
        branch.len() > 0 && url.len() > 0 && printed(replies[2], url) ==> request_step(
            path,
            title,
            replies,
        ) == StepModel::<Seq<char>>::Done(Ok(url)),
        branch.len() == 0 || !succeeded(replies[2]) ==> (request_step(path, title, replies)
            matches StepModel::Done(r) && r is Err),
{
    assert(replies.take(1)[0] == replies[0]);
    assert(replies.take(2)[0] == replies[0] && replies.take(2)[1] == replies[1]);
}

/// The branches that are listed are the local ones that Git names, each once and in order.
pub proof fn branches_are_those_that_git_names(
    path: Seq<char>,
    replies: Seq<ReplyModel>,
    root: Seq<char>,
    out: Seq<char>,
    name: Seq<char>,
)
    requires
        replies.len() >= 2,
        printed(replies[0], root),
        printed(replies[1], out),
    ensures
        runs_git(list_step(path, replies.take(0)), path, seq!["rev-parse"@, "--show-toplevel"@]),
        runs_git(
            list_step(path, replies.take(1)),
            root,
            seq!["for-each-ref"@, "--format=%(refname:short)"@, "refs/heads"@],
        ),
        list_step(path, replies) matches StepModel::Done(Ok(names)) && {
            &&& names.contains(name) <==> name.len() > 0 && exists|i: int|
                0 <= i < lines_of(out).len() && trimmed(#[trigger] lines_of(out)[i]) == name
            &&& forall|i: int, j: int|
                0 <= i < j < names.len() ==> text::text_lt(#[trigger] names[i], #[trigger] names[j])
        },
{
    assert(replies.take(1)[0] == replies[0]);
    let lines = lines_of(out);
    text::sorting_keeps_the_texts(text::trimmed_nonempty(lines));
    text::trimmed_texts_are_those_that_hold_something(lines, name);
}

/// Switching goes to the branch that was asked for: it must be a local branch, the tree must be
/// clean, and then the one switch that is asked for names it. It is done where that went well, or
/// where the branch is the current one already.
pub proof fn the_branch_asked_for_is_switched_to(
    path: Seq<char>,
    branch: Seq<char>,
    replies: Seq<ReplyModel>,
    root: Seq<char>,
    top: Seq<char>,
    out: Seq<char>,
    current: Seq<char>,
    status: Seq<char>,
)
    requires
        replies.len() >= 6,
        printed(replies[0], root),
        printed(replies[1], top),
        printed(replies[2], out),
        printed(replies[3], current),
        printed(replies[4], status),
        trimmed(branch).len() > 0,
        exists|i: int|
            0 <= i < lines_of(out).len() && trimmed(#[trigger] lines_of(out)[i]) == trimmed(branch),
    ensures
        runs_git(
            switch_step(path, branch, replies.take(3)),
            root,
            seq!["branch"@, "--show-current"@],
        ),
        current == trimmed(branch) ==> switch_step(path, branch, replies) == StepModel::<()>::Done(
            Ok(()),
        ),
        current != trimmed(branch) ==> {
            &&& runs_git(
                switch_step(path, branch, replies.take(4)),
                root,
                seq!["status"@, "--porcelain=v1"@],
            )
            &&& status.len() > 0 ==> (switch_step(path, branch, replies) matches StepModel::Done(r)
                && r is Err)
            &&& status.len() == 0 ==> runs_git(
                switch_step(path, branch, replies.take(5)),
                root,
                seq!["switch"@, trimmed(branch)],
            )
            &&& status.len() == 0 ==> (switch_step(path, branch, replies) matches StepModel::Done(r)
                && (r is Ok <==> succeeded(replies[5])))
        },
{
    let name = trimmed(branch);
    branches_are_those_that_git_names(root, replies.skip(1), top, out, name);
    let three = replies.take(3);
    let four = replies.take(4);
    let five = replies.take(5);
    assert(three[0] == replies[0] && four[0] == replies[0] && five[0] == replies[0]);
    assert(four[3] == replies[3] && five[3] == replies[3] && five[4] == replies[4]);
    assert(replies.skip(1)[0] == replies[1] && replies.skip(1)[1] == replies[2]);
    same_listing(root, three.skip(1), replies.skip(1));
    same_listing(root, four.skip(1), replies.skip(1));
    same_listing(root, five.skip(1), replies.skip(1));
}

proof fn same_listing(path: Seq<char>, a: Seq<ReplyModel>, b: Seq<ReplyModel>)
    requires
        a.len() >= 2,
        b.len() >= 2,
        a[0] == b[0],
        a[1] == b[1],
    ensures
        list_step(path, a) == list_step(path, b),
{
}

/// A branch that does not exist is not switched to.
pub proof fn missing_branches_are_not_switched_to(
    path: Seq<char>,
    branch: Seq<char>,
    replies: Seq<ReplyModel>,
    root: Seq<char>,
    top: Seq<char>,
    out: Seq<char>,
)
    requires
        replies.len() >= 3,
        printed(replies[0], root),
        printed(replies[1], top),
        printed(replies[2], out),
        forall|i: int|
            0 <= i < lines_of(out).len() ==> trimmed(#[trigger] lines_of(out)[i]) != trimmed(branch),
    ensures
        switch_step(path, branch, replies) matches StepModel::Done(r) && r is Err,
{
    branches_are_those_that_git_names(root, replies.skip(1), top, out, trimmed(branch));
    assert(replies.skip(1)[0] == replies[1] && replies.skip(1)[1] == replies[2]);
}

/// A line of the log with its seven fields.
pub open spec fn is_log_line(line: Seq<char>) -> bool {
    line.len() > 0 && pieces(line, '\x1f').len() == 7
}

/// The commits of a log are read one from each line, in order, with the fields that the line
/// holds; a commit with several parents is a merge, and no other.
pub proof fn commits_are_read_from_their_lines(lines: Seq<Seq<char>>, i: int)
    requires
        forall|k: int| 0 <= k < lines.len() ==> is_log_line(#[trigger] lines[k]),
        0 <= i < lines.len(),
    ensures
        graph_of(lines).commits.len() == lines.len(),
        ({
            let fields = pieces(lines[i], '\x1f');
            let commit = graph_of(lines).commits[i];
            &&& commit.hash == fields[0]
            &&& commit.short_hash == fields[1]
            &&& commit.author == fields[3]
            &&& commit.relative_date == fields[4]
            &&& commit.subject == fields[6]
            &&& commit.is_merge <==> words_of(fields[2]).len() > 1
            &&& forall|name: Seq<char>| #[trigger]
                commit.decorations.contains(name) <==> name.len() > 0 && exists|k: int|
                    0 <= k < pieces(fields[5], ',').len() && trimmed(
                        #[trigger] pieces(fields[5], ',')[k],
                    ) == name
        }),
    decreases lines.len(),
{
    let head = lines.drop_last();
    assert(is_log_line(lines[lines.len() - 1]));
    assert forall|k: int| 0 <= k < head.len() implies is_log_line(#[trigger] head[k]) by {
        assert(is_log_line(lines[k]));
    }
    if head.len() > 0 {
        commits_are_read_from_their_lines(
            head,
            if i < head.len() {
                i
            } else {
                0
            },
        );
    } else {
        assert(graph_of(head).commits.len() == 0);
    }
    if i == head.len() {
        let fields = pieces(lines[i], '\x1f');
        let commit = graph_of(lines).commits[i];
        assert forall|name: Seq<char>| #[trigger]
            commit.decorations.contains(name) <==> name.len() > 0 && exists|k: int|
                0 <= k < pieces(fields[5], ',').len() && trimmed(
                    #[trigger] pieces(fields[5], ',')[k],
                ) == name by {
            text::trimmed_texts_are_those_that_hold_something(pieces(fields[5], ','), name);
        }
    } else {
        assert(head[i] == lines[i]);
    }
}

/// A lane is in the graph where its commit stands: the column of a commit is that of the lane
/// that waited for it, or the first where none did.
pub proof fn commits_stand_in_their_lane(g: GraphModel, line: Seq<char>, i: int)
    requires
        is_log_line(line),
        ({
            let hash = pieces(line, '\x1f')[0];
            &&& 0 <= i < g.lanes.len()
            &&& g.lanes[i] == hash
            &&& forall|k: int| 0 <= k < i ==> (#[trigger] g.lanes[k]) != hash
        }),
    ensures
        graph_step(g, line).commits.last().graph_column == i,
{
    let hash = pieces(line, '\x1f')[0];
    assert(g.lanes.contains(hash));
    position_is_first(g.lanes, hash, 0, i);
}

proof fn position_is_first(lanes: Seq<Seq<char>>, x: Seq<char>, from: int, i: int)
    requires
        0 <= from <= i < lanes.len(),
        lanes[i] == x,
        forall|k: int| from <= k < i ==> (#[trigger] lanes[k]) != x,
    ensures
        position_from(lanes, x, from) == i,
    decreases i - from,
{
    if from < i {
        assert(lanes[from] != x);
        position_is_first(lanes, x, from + 1, i);
    }
}

/// The history of a repository is what Git tells: the local branches, with the current one marked
/// and no other, and the commits of the log.
pub proof fn histories_are_what_git_tells(
    path: Seq<char>,
    replies: Seq<ReplyModel>,
    root: Seq<char>,
    current: Seq<char>,
    top: Seq<char>,
    out: Seq<char>,
    log: Seq<char>,
)
    requires
        replies.len() >= 6,
        printed(replies[0], root),
        printed(replies[1], current),
        printed(replies[2], top),
        printed(replies[3], out),
        succeeded(replies[4]),
        printed(replies[5], log),
    ensures
        history_step(path, replies) matches StepModel::Done(Ok(history)) && {
            &&& history.commits == graph_of(lines_of(log)).commits
            &&& forall|i: int|
                0 <= i < history.branches.len() ==> ((#[trigger] history.branches[i]).current <==> history.branches[i].name
                    == current)
            &&& list_step(root, replies.skip(2)) matches StepModel::Done(Ok(names))
                && names.len() == history.branches.len() && forall|i: int|
                0 <= i < names.len() ==> (#[trigger] history.branches[i]).name == names[i]
        },
        history_step(path, replies.take(5)) matches StepModel::Run(call) && call.program == "git"@
            && call.cwd == root && call.args[0] == "log"@ && call.args.contains("--all"@),
{
    let listed = replies.skip(2);
    assert(listed[0] == replies[2] && listed[1] == replies[3]);
    let five = replies.take(5);
    assert(five[0] == replies[0] && five[1] == replies[1] && five[4] == replies[4]);
    same_listing(root, five.skip(2), listed);
    let call = log_call(root);
    assert(call.args[1] == "--all"@);
}

/// The worktree of a thread is added on a branch of its own, made from the base branch that was
/// chosen, where nothing stands yet; what is given back is where it is and on which branch. It
/// goes so wherever Git answers.
pub proof fn worktrees_are_added_as_planned(
    plan: PlanModel,
    hash: u64,
    replies: Seq<ReplyModel>,
    root: Seq<char>,
)
    requires
        replies.len() >= 7,
        printed(replies[0], root),
        succeeded(replies[1]),
        succeeded(replies[2]),
        replies[3] == (ReplyModel::Exists { exists: false }),
        replies[4] == (ReplyModel::Finished { failure: None }),
        trimmed(plan.base_branch).len() > 0,
    ensures
        ({
            let path = below(
                below(plan.worktrees_root, key_of(root, hash)),
                slug_of(lowered(plan.thread_id)),
            );
            let base = trimmed(plan.base_branch);
            &&& runs_git(
                worktree_step(plan, hash, replies.take(0)),
                plan.repository,
                seq!["rev-parse"@, "--show-toplevel"@],
            )
            &&& runs_git(
                worktree_step(plan, hash, replies.take(2)),
                root,
                seq!["rev-parse"@, "--verify"@, base + "^{commit}"@],
            )
            &&& worktree_step(plan, hash, replies.take(3)) == StepModel::<
                WorktreeModel,
            >::PathExists(path)
            &&& worktree_step(plan, hash, replies.take(4)) == StepModel::<
                WorktreeModel,
            >::MakeParent(path)
            &&& worktree_step(plan, hash, replies.take(6)) matches StepModel::Run(call) && {
                &&& call.program == "git"@ && call.cwd == root
                &&& call.args.len() == 6
                &&& call.args[0] == "worktree"@ && call.args[1] == "add"@ && call.args[2] == "-b"@
                &&& call.args[4] == path && call.args[5] == base
                &&& succeeded(replies[6]) ==> worktree_step(plan, hash, replies) == StepModel::<
                    WorktreeModel,
                >::Done(Ok(WorktreeModel { path, branch: call.args[3] }))
            }
        }),
{
    let two = replies.take(2);
    let three = replies.take(3);
    let four = replies.take(4);
    let six = replies.take(6);
    assert(two[0] == replies[0] && two[1] == replies[1]);
    assert(three[0] == replies[0] && three[1] == replies[1] && three[2] == replies[2]);
    assert(four[0] == replies[0] && four[1] == replies[1] && four[2] == replies[2] && four[3]
        == replies[3]);
    assert(six[0] == replies[0] && six[1] == replies[1] && six[2] == replies[2] && six[3]
        == replies[3] && six[4] == replies[4]);
}

/// The branch of a thread begins with `rode/` and the thread's id, shortened to twelve characters,
/// and ends with the slug of its title.
pub proof fn branches_are_named_after_their_thread(thread_id: Seq<char>, title: Seq<char>)
    ensures
        ({
            let branch = thread_branch(thread_id, title);
            let id = slug_of(lowered(thread_id));
            let name = slug_of(lowered(title));
            let short = if id.len() > 12 {
                id.take(12)
            } else {
                id
            };
            &&& text::begins(branch, "rode/"@ + short)
            &&& name.len() == 0 ==> branch == "rode/"@ + short
            &&& name.len() > 0 ==> branch == "rode/"@ + short + "-"@ + name
        }),
{
    let id = slug_of(lowered(thread_id));
    let short = short_id(thread_id);
    let branch = thread_branch(thread_id, title);
    let p = "rode/"@ + short;
    assert(branch.subrange(0, p.len() as int) =~= p);
}

/// Removing a worktree removes that worktree, through Git, and is done where Git did it.
pub proof fn the_worktree_asked_for_is_removed(
    repository: Seq<char>,
    worktree: WorktreeModel,
    replies: Seq<ReplyModel>,
    root: Seq<char>,
)
    requires
        replies.len() >= 2,
        printed(replies[0], root),
    ensures
        runs_git(
            remove_step(repository, worktree, replies.take(1)),
            root,
            seq!["worktree"@, "remove"@, "--force"@, worktree.path],
        ),
        remove_step(repository, worktree, replies) matches StepModel::Done(r) && (r is Ok
            <==> succeeded(replies[1])),
{
    assert(replies.take(1)[0] == replies[0]);
}

/// Outside of a repository nothing is done.
pub proof fn nothing_is_done_outside_a_repository(
    path: Seq<char>,
    words: Seq<char>,
    plan: PlanModel,
    hash: u64,
    worktree: WorktreeModel,
    replies: Seq<ReplyModel>,
)
    requires
        replies.len() > 0,
        !succeeded(replies[0]),
    ensures
        push_step(path, replies) matches StepModel::Done(r) && r is Err,
        commit_step(path, words, replies) matches StepModel::Done(r) && r is Err,
        request_step(path, words, replies) matches StepModel::Done(r) && r is Err,
        switch_step(path, words, replies) matches StepModel::Done(r) && r is Err,
        list_step(path, replies) matches StepModel::Done(r) && r is Err,
        history_step(path, replies) matches StepModel::Done(r) && r is Err,
        worktree_step(plan, hash, replies) matches StepModel::Done(r) && r is Err,
        remove_step(path, worktree, replies) matches StepModel::Done(r) && r is Err,
{
}

} // verus!
