//! A text editor: a text, a cursor or a selection in it, and the edits. Positions count
//! characters; bytes and UTF-16 units are what the platform counts.
use unicode_segmentation::UnicodeSegmentation;
use vstd::prelude::*;
use vstd::string::*;
use vstd::utf8::*;

use crate::text;
use crate::text::{
    any_space, is_space, joined, joined_lines_are_parted, pieces, trim_back, unbroken,
};
use crate::views::views;

verus! {

/// The grapheme clusters of a text, in order.
pub uninterp spec fn grapheme_clusters(s: Seq<char>) -> Seq<Seq<char>>;

/// Texts, one after the other.
pub open spec fn strung(parts: Seq<Seq<char>>) -> Seq<char>
    decreases parts.len(),
{
    if parts.len() == 0 {
        Seq::empty()
    } else {
        strung(parts.drop_last()) + parts.last()
    }
}

/// `UnicodeSegmentation::grapheme_indices`, with extended clusters, without the indices. Clusters
/// are not empty, and one after the other they are the text.
#[verifier::external_body]
fn graphemes(s: &str) -> (r: Vec<String>)
    ensures
        views(r@) == grapheme_clusters(s@),
        strung(views(r@)) == s@,
        forall|i: int| 0 <= i < r@.len() ==> (#[trigger] r@[i])@.len() > 0,
{
    s.grapheme_indices(true).map(|(_, cluster)| cluster.to_owned()).collect()
}

/// How many characters each grapheme cluster of a text holds, in order.
pub open spec fn grapheme_sizes(s: Seq<char>) -> Seq<usize> {
    grapheme_clusters(s).map_values(|cluster: Seq<char>| cluster.len() as usize)
}

/// The sum of sizes.
pub open spec fn total(sizes: Seq<usize>) -> nat
    decreases sizes.len(),
{
    if sizes.len() == 0 {
        0
    } else {
        total(sizes.drop_last()) + sizes.last() as nat
    }
}

/// See [`grapheme_sizes`]. Clusters are not empty, and together they are the text.
fn clusters(s: &str) -> (r: Vec<usize>)
    ensures
        r@ == grapheme_sizes(s@),
        total(r@) == s@.len(),
        forall|i: int| 0 <= i < r@.len() ==> #[trigger] r@[i] > 0,
{
    let parts = graphemes(s);
    let ghost all = views(parts@);
    let mut r: Vec<usize> = Vec::new();
    let mut i: usize = 0;
    while i < parts.len()
        invariant
            all == views(parts@),
            i <= parts.len(),
            r.len() == i,
            forall|k: int| 0 <= k < i ==> #[trigger] r@[k] == all[k].len(),
            total(r@) == strung(all.take(i as int)).len(),
        decreases parts.len() - i,
    {
        let ghost before = r@;
        assert(all.take(i + 1).drop_last() =~= all.take(i as int));
        assert(all[i as int] == parts@[i as int]@);
        r.push(parts[i].as_str().unicode_len());
        assert(r@.drop_last() =~= before);
        i = i + 1;
    }
    assert(all.take(i as int) =~= all);
    assert(r@ =~= grapheme_sizes(s@));
    r
}

/// The start of the last cluster that begins before a position; the start of the text where
/// none does.
pub open spec fn cluster_before(sizes: Seq<usize>, position: nat) -> nat
    decreases sizes.len(),
{
    if sizes.len() == 0 {
        0
    } else if total(sizes.drop_last()) < position {
        total(sizes.drop_last())
    } else {
        cluster_before(sizes.drop_last(), position)
    }
}

/// The start of the first cluster that begins after a position; the end of the text where none
/// does.
pub open spec fn cluster_after(sizes: Seq<usize>, position: nat) -> nat
    decreases sizes.len(),
{
    if sizes.len() == 0 {
        0
    } else {
        let start = total(sizes.drop_last());
        if start <= position {
            total(sizes)
        } else {
            cluster_after(sizes.drop_last(), position)
        }
    }
}

proof fn total_grows(sizes: Seq<usize>, i: int, j: int)
    requires
        0 <= i <= j <= sizes.len(),
    ensures
        total(sizes.take(i)) <= total(sizes.take(j)),
    decreases j - i,
{
    if i < j {
        assert(sizes.take(j).drop_last() =~= sizes.take(j - 1));
        total_grows(sizes, i, j - 1);
    }
}

/// See [`cluster_before`].
pub fn start_before(sizes: &Vec<usize>, position: usize) -> (r: usize)
    requires
        total(sizes@) <= usize::MAX,
    ensures
        r == cluster_before(sizes@, position as nat),
        r <= position,
{
    let mut i: usize = 0;
    let mut start: usize = 0;
    let mut best: usize = 0;
    while i < sizes.len()
        invariant
            i <= sizes.len(),
            total(sizes@) <= usize::MAX,
            start == total(sizes@.take(i as int)),
            best == cluster_before(sizes@.take(i as int), position as nat),
            best <= position,
        decreases sizes.len() - i,
    {
        proof {
            assert(sizes@.take(i + 1).drop_last() =~= sizes@.take(i as int));
            total_grows(sizes@, i + 1, sizes@.len() as int);
            assert(sizes@.take(sizes@.len() as int) =~= sizes@);
        }
        if start < position {
            best = start;
        }
        start = start + sizes[i];
        i = i + 1;
    }
    assert(sizes@.take(i as int) =~= sizes@);
    best
}

/// See [`cluster_after`].
pub fn start_after(sizes: &Vec<usize>, position: usize) -> (r: usize)
    requires
        total(sizes@) <= usize::MAX,
        forall|i: int| 0 <= i < sizes@.len() ==> #[trigger] sizes@[i] > 0,
    ensures
        r == cluster_after(sizes@, position as nat),
        r <= total(sizes@),
        position < total(sizes@) ==> position < r,
{
    let mut i: usize = 0;
    let mut start: usize = 0;
    let mut next: usize = 0;
    while i < sizes.len()
        invariant
            i <= sizes.len(),
            total(sizes@) <= usize::MAX,
            forall|i: int| 0 <= i < sizes@.len() ==> #[trigger] sizes@[i] > 0,
            start == total(sizes@.take(i as int)),
            next == cluster_after(sizes@.take(i as int), position as nat),
            next <= start,
            start > position ==> next > position,
            start <= position ==> next == start,
        decreases sizes.len() - i,
    {
        proof {
            assert(sizes@.take(i + 1).drop_last() =~= sizes@.take(i as int));
            total_grows(sizes@, i + 1, sizes@.len() as int);
            assert(sizes@.take(sizes@.len() as int) =~= sizes@);
        }
        let end: usize = start + sizes[i];
        if start <= position {
            next = end;
        }
        start = end;
        i = i + 1;
    }
    assert(sizes@.take(i as int) =~= sizes@);
    next
}

/// The position to the left of a position, a cluster away.
pub open spec fn left_of(s: Seq<char>, position: nat) -> nat {
    cluster_before(grapheme_sizes(s), position)
}

/// The position to the right of a position, a cluster away.
pub open spec fn right_of(s: Seq<char>, position: nat) -> nat {
    cluster_after(grapheme_sizes(s), position)
}

/// A text as a string.
fn string_of(v: &Vec<char>) -> (r: String)
    ensures
        r@ == v@,
{
    assert(v@.subrange(0, v@.len() as int) =~= v@);
    text::slice(v, 0, v.len())
}

/// See [`left_of`].
pub fn previous_boundary(content: &Vec<char>, position: usize) -> (r: usize)
    ensures
        r == left_of(content@, position as nat),
        r <= position,
{
    let sizes = clusters(string_of(content).as_str());
    assert(content.len() <= usize::MAX);
    start_before(&sizes, position)
}

/// See [`right_of`].
pub fn next_boundary(content: &Vec<char>, position: usize) -> (r: usize)
    ensures
        r == right_of(content@, position as nat),
        r <= content.len(),
        position < content.len() ==> position < r,
{
    let sizes = clusters(string_of(content).as_str());
    assert(content.len() <= usize::MAX);
    start_after(&sizes, position)
}

/// The position after the last white space of a text; its start where there is none.
pub open spec fn after_last_space(s: Seq<char>) -> nat
    decreases s.len(),
{
    if s.len() == 0 || is_space(s.last()) {
        s.len()
    } else {
        after_last_space(s.drop_last())
    }
}

/// The start of the word before a position.
pub open spec fn word_start(s: Seq<char>, position: int) -> nat {
    after_last_space(trim_back(s.take(position), any_space()))
}

/// How many characters from the first on are of a kind.
pub open spec fn run_length(s: Seq<char>, space: bool) -> nat
    decreases s.len(),
{
    if s.len() == 0 || is_space(s[0]) != space {
        0
    } else {
        1 + run_length(s.drop_first(), space)
    }
}

/// The end of the word after a position, with the white space after it.
pub open spec fn word_end(s: Seq<char>, position: int) -> nat {
    let word = run_length(s.skip(position), false);
    (position + word + run_length(s.skip(position + word), true)) as nat
}

/// See [`word_start`].
pub fn previous_word_start(content: &Vec<char>, position: usize) -> (r: usize)
    requires
        position <= content.len(),
    ensures
        r == word_start(content@, position as int),
        r <= position,
{
    let ghost before = content@.take(position as int);
    let mut i: usize = position;
    assert(before.take(i as int) =~= before);
    while i > 0 && text::space(content[i - 1])
        invariant
            i <= position <= content.len(),
            before == content@.take(position as int),
            trim_back(before, any_space()) == trim_back(before.take(i as int), any_space()),
        decreases i,
    {
        assert(before.take(i as int).last() == content@[i - 1]);
        assert(before.take(i as int).drop_last() =~= before.take(i - 1));
        i = i - 1;
    }
    proof {
        if i > 0 {
            assert(before.take(i as int).last() == content@[i - 1]);
        }
    }
    let ghost trimmed = before.take(i as int);
    assert(trim_back(before, any_space()) == trimmed);
    assert(trimmed.take(i as int) =~= trimmed);
    let mut k: usize = i;
    while k > 0 && !text::space(content[k - 1])
        invariant
            k <= i <= position <= content.len(),
            trimmed == content@.take(i as int),
            after_last_space(trimmed) == after_last_space(trimmed.take(k as int)),
        decreases k,
    {
        assert(trimmed.take(k as int).last() == content@[k - 1]);
        assert(trimmed.take(k as int).drop_last() =~= trimmed.take(k - 1));
        k = k - 1;
    }
    proof {
        if k > 0 {
            assert(trimmed.take(k as int).last() == content@[k - 1]);
        }
    }
    k
}

/// The end of a run of characters of a kind.
fn run_end(content: &Vec<char>, from: usize, space: bool) -> (r: usize)
    requires
        from <= content.len(),
    ensures
        r == from + run_length(content@.skip(from as int), space),
        from <= r <= content.len(),
{
    let ghost rest = content@.skip(from as int);
    let mut i: usize = from;
    assert(rest.skip(0) =~= rest);
    while i < content.len() && text::space(content[i]) == space
        invariant
            from <= i <= content.len(),
            rest == content@.skip(from as int),
            run_length(rest, space) == (i - from) + run_length(rest.skip(i - from), space),
        decreases content.len() - i,
    {
        assert(rest.skip(i - from)[0] == content@[i as int]);
        assert(rest.skip(i - from).drop_first() =~= rest.skip(i + 1 - from));
        i = i + 1;
    }
    proof {
        if i < content@.len() {
            assert(rest.skip(i - from)[0] == content@[i as int]);
        }
    }
    i
}

/// See [`word_end`].
pub fn next_word_end(content: &Vec<char>, position: usize) -> (r: usize)
    requires
        position <= content.len(),
    ensures
        r == word_end(content@, position as int),
        position <= r <= content.len(),
{
    let word: usize = run_end(content, position, false);
    run_end(content, word, true)
}

/// How many bytes of UTF-8 a character takes.
pub open spec fn utf8_size(c: char) -> nat {
    let u = c as u32;
    if u < 0x80 {
        1
    } else if u < 0x800 {
        2
    } else if u < 0x10000 {
        3
    } else {
        4
    }
}

/// How many units of UTF-16 a character takes.
pub open spec fn utf16_size(c: char) -> nat {
    if (c as u32) < 0x10000 {
        1
    } else {
        2
    }
}

/// How many bytes of UTF-8 (`wide` false) or units of UTF-16 (`wide` true) a text takes.
pub open spec fn units(s: Seq<char>, wide: bool) -> nat
    decreases s.len(),
{
    if s.len() == 0 {
        0
    } else {
        units(s.drop_last(), wide) + (if wide {
            utf16_size(s.last())
        } else {
            utf8_size(s.last())
        })
    }
}

/// The size of a character in units.
fn size_of_char(c: char, wide: bool) -> (r: usize)
    ensures
        r == (if wide {
            utf16_size(c)
        } else {
            utf8_size(c)
        }),
        1 <= r <= 4,
{
    let u: u32 = c as u32;
    if wide {
        if u < 0x10000 {
            1
        } else {
            2
        }
    } else if u < 0x80 {
        1
    } else if u < 0x800 {
        2
    } else if u < 0x10000 {
        3
    } else {
        4
    }
}

/// A text takes the units of its first part and those of the rest.
pub proof fn units_split(s: Seq<char>, k: int, wide: bool)
    requires
        0 <= k <= s.len(),
    ensures
        units(s, wide) == units(s.take(k), wide) + units(s.skip(k), wide),
    decreases s.len(),
{
    if k < s.len() {
        units_split(s.drop_last(), k, wide);
        assert(s.drop_last().take(k) =~= s.take(k));
        assert(s.drop_last().skip(k) =~= s.skip(k).drop_last());
    } else {
        assert(s.take(k) =~= s);
    }
}

proof fn units_grow(s: Seq<char>, i: int, j: int, wide: bool)
    requires
        0 <= i <= j <= s.len(),
    ensures
        units(s.take(i), wide) + (j - i) <= units(s.take(j), wide),
        units(s.take(j), wide) <= units(s.take(i), wide) + 4 * (j - i),
    decreases j - i,
{
    if i < j {
        assert(s.take(j).drop_last() =~= s.take(j - 1));
        units_grow(s, i, j - 1, wide);
    }
}

/// The position of the first character that begins at or after a number of units; the end where
/// none does.
pub open spec fn position_at(s: Seq<char>, offset: nat, wide: bool, i: int) -> int
    decreases s.len() - i,
{
    if i < 0 || i >= s.len() || units(s.take(i), wide) >= offset {
        i
    } else {
        position_at(s, offset, wide, i + 1)
    }
}

/// A number, or the largest that a machine word counts.
pub open spec fn counted(n: nat) -> nat {
    if n > usize::MAX {
        usize::MAX as nat
    } else {
        n
    }
}

/// How many units the characters before a position take, as far as a machine word counts.
pub fn units_before(content: &Vec<char>, position: usize, wide: bool) -> (r: usize)
    requires
        position <= content.len(),
    ensures
        r == counted(units(content@.take(position as int), wide)),
{
    let ghost s = content@;
    let mut i: usize = 0;
    let mut n: usize = 0;
    while i < position
        invariant
            s == content@,
            i <= position <= content.len(),
            n == counted(units(s.take(i as int), wide)),
        decreases position - i,
    {
        assert(s.take(i + 1).drop_last() =~= s.take(i as int));
        let size: usize = size_of_char(content[i], wide);
        n = if n > usize::MAX - size {
            usize::MAX
        } else {
            n + size
        };
        i = i + 1;
    }
    n
}

proof fn units_of_first(s: Seq<char>)
    requires
        s.len() > 0,
    ensures
        units(s, false) == utf8_size(s[0]) + units(s.drop_first(), false),
    decreases s.len(),
{
    if s.len() == 1 {
        assert(s.drop_last() =~= Seq::empty());
        assert(s.drop_first() =~= Seq::empty());
    } else {
        units_of_first(s.drop_last());
        assert(s.drop_last().drop_first() =~= s.drop_first().drop_last());
    }
}

/// The bytes of a text are those of its encoding.
proof fn units_are_bytes(s: Seq<char>)
    ensures
        encode_utf8(s).len() == units(s, false),
    decreases s.len(),
{
    if s.len() > 0 {
        units_of_first(s);
        units_are_bytes(s.drop_first());
        char_is_scalar(s[0]);
        assert(encode_scalar(s[0] as u32).len() == utf8_size(s[0]));
        assert(encode_utf8(s) == encode_scalar(s[0] as u32) + encode_utf8(s.drop_first()));
    }
}

/// A text takes no more bytes than a machine word counts.
fn bytes_fit(content: &str)
    ensures
        units(content@, false) <= usize::MAX,
{
    let bytes = content.as_bytes();
    let n: usize = bytes.len();
    proof {
        assert(n == encode_utf8(content@).len());
        units_are_bytes(content@);
    }
}

/// See [`position_at`].
pub fn position_of_units(content: &Vec<char>, offset: usize, wide: bool) -> (r: usize)
    ensures
        r == position_at(content@, offset as nat, wide, 0),
        r <= content.len(),
{
    let ghost s = content@;
    let mut i: usize = 0;
    let mut n: usize = 0;
    while i < content.len() && n < offset
        invariant
            s == content@,
            i <= content.len(),
            n == units(s.take(i as int), wide) || (n >= offset && units(s.take(i as int), wide)
                >= offset),
            position_at(s, offset as nat, wide, 0) == position_at(s, offset as nat, wide, i as int),
        decreases content.len() - i,
    {
        assert(s.take(i + 1).drop_last() =~= s.take(i as int));
        let size: usize = size_of_char(content[i], wide);
        n = if n > usize::MAX - size {
            usize::MAX
        } else {
            n + size
        };
        i = i + 1;
    }
    i
}

proof fn position_at_from(s: Seq<char>, position: int, wide: bool, i: int)
    requires
        0 <= i <= position <= s.len(),
    ensures
        position_at(s, units(s.take(position), wide), wide, i) == position,
    decreases position - i,
{
    if i < position {
        units_grow(s, i, position, wide);
        position_at_from(s, position, wide, i + 1);
    }
}

/// A position that is counted in units is found again.
pub proof fn positions_survive_unit_counts(s: Seq<char>, position: int, wide: bool)
    requires
        0 <= position <= s.len(),
    ensures
        position_at(s, units(s.take(position), wide), wide, 0) == position,
{
    position_at_from(s, position, wide, 0);
}

/// Whether an offset in bytes stands between two characters.
pub open spec fn is_boundary(s: Seq<char>, offset: nat) -> bool {
    exists|position: int| 0 <= position <= s.len() && units(s.take(position), false) == offset
}

/// The start in bytes of the word before an offset in bytes.
pub fn previous_word_boundary(content: &str, offset: usize) -> (r: usize)
    requires
        is_boundary(content@, offset as nat),
    ensures
        ({
            let position = position_at(content@, offset as nat, false, 0);
            r == units(content@.take(word_start(content@, position) as int), false)
        }),
        is_boundary(content@, r as nat),
        r <= offset,
{
    bytes_fit(content);
    let v = text::chars(content);
    let position: usize = position_of_units(&v, offset, false);
    proof {
        let p = choose|p: int| 0 <= p <= v@.len() && units(v@.take(p), false) == offset;
        positions_survive_unit_counts(v@, p, false);
        assert(position == p);
    }
    let start: usize = previous_word_start(&v, position);
    proof {
        units_grow(v@, start as int, position as int, false);
        units_grow(v@, position as int, v@.len() as int, false);
        assert(v@.take(v@.len() as int) =~= v@);
    }
    units_before(&v, start, false)
}

/// The end in bytes of the word after an offset in bytes, with the white space after it.
pub fn next_word_boundary(content: &str, offset: usize) -> (r: usize)
    requires
        is_boundary(content@, offset as nat),
    ensures
        ({
            let position = position_at(content@, offset as nat, false, 0);
            r == units(content@.take(word_end(content@, position) as int), false)
        }),
        is_boundary(content@, r as nat),
        offset <= r,
{
    bytes_fit(content);
    let v = text::chars(content);
    let position: usize = position_of_units(&v, offset, false);
    proof {
        let p = choose|p: int| 0 <= p <= v@.len() && units(v@.take(p), false) == offset;
        positions_survive_unit_counts(v@, p, false);
        assert(position == p);
    }
    let end: usize = next_word_end(&v, position);
    proof {
        units_grow(v@, position as int, end as int, false);
        units_grow(v@, end as int, v@.len() as int, false);
        assert(v@.take(v@.len() as int) =~= v@);
    }
    units_before(&v, end, false)
}

/// Deleting by words takes away at least a character where there is one.
pub proof fn word_deletions_make_progress(s: Seq<char>, position: int)
    requires
        0 <= position <= s.len(),
    ensures
        0 < position ==> word_start(s, position) < position,
        position < s.len() ==> position < word_end(s, position) <= s.len(),
{
    let before = s.take(position);
    if 0 < position {
        trim_back_shape(before);
        let trimmed = trim_back(before, any_space());
        after_last_space_shape(trimmed);
    }
    if position < s.len() {
        let rest = s.skip(position);
        run_length_bound(rest, false);
        let word = run_length(rest, false);
        run_length_bound(s.skip(position + word), true);
        if is_space(rest[0]) {
            assert(s.skip(position + word) =~= rest);
        }
    }
}

proof fn trim_back_shape(s: Seq<char>)
    ensures
        trim_back(s, any_space()).len() <= s.len(),
        trim_back(s, any_space()).len() > 0 ==> !is_space(trim_back(s, any_space()).last()),
    decreases s.len(),
{
    if s.len() > 0 && is_space(s.last()) {
        trim_back_shape(s.drop_last());
    }
}

proof fn after_last_space_shape(s: Seq<char>)
    ensures
        after_last_space(s) <= s.len(),
        s.len() > 0 && !is_space(s.last()) ==> after_last_space(s) < s.len(),
    decreases s.len(),
{
    if s.len() > 0 && !is_space(s.last()) {
        after_last_space_shape(s.drop_last());
    }
}

proof fn run_length_bound(s: Seq<char>, space: bool)
    ensures
        run_length(s, space) <= s.len(),
        s.len() > 0 && is_space(s[0]) == space ==> run_length(s, space) > 0,
    decreases s.len(),
{
    if s.len() > 0 && is_space(s[0]) == space {
        run_length_bound(s.drop_first(), space);
    }
}

/// What an editor tells its surroundings.
#[derive(Clone, Copy, Debug, PartialEq, Eq, Structural)]
pub enum EditorEvent {
    Changed,
}

/// The state of an editor. Positions count characters.
#[verifier::ext_equal]
pub struct EditorModel {
    pub text: Seq<char>,
    pub cursor: int,
    pub selection: Option<(int, int)>,
    pub cursor_visible: bool,
    pub placeholder: Seq<char>,
}

impl EditorModel {
    /// The cursor and the selection stand in the text.
    pub open spec fn wf(self) -> bool {
        &&& 0 <= self.cursor <= self.text.len()
        &&& self.selection matches Some((a, b)) ==> 0 <= a <= b <= self.text.len()
    }
}

/// A text with a part of it replaced.
pub open spec fn spliced(s: Seq<char>, from: int, to: int, new: Seq<char>) -> Seq<char> {
    s.take(from) + new + s.skip(to)
}

/// The editor after a part of its text was replaced: the cursor stands behind what is new, and
/// nothing is selected.
pub open spec fn replaced(e: EditorModel, from: int, to: int, new: Seq<char>) -> EditorModel {
    EditorModel {
        text: spliced(e.text, from, to, new),
        cursor: from + new.len(),
        selection: None,
        cursor_visible: true,
        ..e
    }
}

/// The editor with its cursor moved and nothing selected.
pub open spec fn moved(e: EditorModel, cursor: int) -> EditorModel {
    EditorModel { cursor, selection: None, cursor_visible: true, ..e }
}

/// What an edit replaces unless something is selected: the part between two positions.
pub open spec fn deleted(e: EditorModel, from: int, to: int) -> EditorModel {
    match e.selection {
        Some((a, b)) => replaced(e, a, b, Seq::empty()),
        None => if from < to {
            replaced(e, from, to, Seq::empty())
        } else {
            EditorModel { cursor_visible: true, ..e }
        },
    }
}

/// The position after the last line feed before a position.
pub open spec fn line_start_at(s: Seq<char>, position: int) -> int
    decreases position,
{
    if position <= 0 || position > s.len() || s[position - 1] == '\n' {
        position
    } else {
        line_start_at(s, position - 1)
    }
}

/// The position of the first line feed from a position on, or the end.
pub open spec fn line_end_at(s: Seq<char>, position: int) -> int
    decreases s.len() - position,
{
    if position < 0 || position >= s.len() || s[position] == '\n' {
        position
    } else {
        line_end_at(s, position + 1)
    }
}

/// An editor.
#[derive(Debug)]
pub struct Editor {
    value: Vec<char>,
    cursor: usize,
    selection: Option<(usize, usize)>,
    cursor_visible: bool,
    placeholder: String,
}

impl View for Editor {
    type V = EditorModel;

    closed spec fn view(&self) -> EditorModel {
        EditorModel {
            text: self.value@,
            cursor: self.cursor as int,
            selection: match self.selection {
                Some((a, b)) => Some((a as int, b as int)),
                None => None,
            },
            cursor_visible: self.cursor_visible,
            placeholder: self.placeholder@,
        }
    }
}

/// Replaces a part of a text.
fn splice(value: &Vec<char>, from: usize, to: usize, new: &Vec<char>) -> (r: Vec<char>)
    requires
        from <= to <= value.len(),
    ensures
        r@ == spliced(value@, from as int, to as int, new@),
{
    let mut r: Vec<char> = Vec::new();
    let mut i: usize = 0;
    while i < from
        invariant
            i <= from <= value.len(),
            r@ == value@.take(i as int),
        decreases from - i,
    {
        r.push(value[i]);
        i = i + 1;
    }
    let mut k: usize = 0;
    assert(new@.take(0) =~= Seq::empty());
    while k < new.len()
        invariant
            k <= new.len(),
            r@ == value@.take(from as int) + new@.take(k as int),
        decreases new.len() - k,
    {
        r.push(new[k]);
        k = k + 1;
        assert(r@ =~= value@.take(from as int) + new@.take(k as int));
    }
    assert(new@.take(k as int) =~= new@);
    let mut j: usize = to;
    assert(value@.subrange(to as int, to as int) =~= Seq::empty());
    while j < value.len()
        invariant
            to <= j <= value.len(),
            r@ == value@.take(from as int) + new@ + value@.subrange(to as int, j as int),
        decreases value.len() - j,
    {
        r.push(value[j]);
        j = j + 1;
        assert(r@ =~= value@.take(from as int) + new@ + value@.subrange(to as int, j as int));
    }
    assert(value@.subrange(to as int, j as int) =~= value@.skip(to as int));
    r
}

/// An editor that holds a text.
pub open spec fn holding(text: Seq<char>, placeholder: Seq<char>) -> EditorModel {
    EditorModel {
        text,
        cursor: text.len() as int,
        selection: None,
        cursor_visible: false,
        placeholder,
    }
}

/// The editor after its text was replaced as a whole.
pub open spec fn filled(e: EditorModel, text: Seq<char>) -> EditorModel {
    EditorModel {
        text,
        cursor: text.len() as int,
        selection: None,
        cursor_visible: true,
        ..e
    }
}

/// The editor after its text was taken away.
pub open spec fn emptied(e: EditorModel) -> EditorModel {
    EditorModel { text: Seq::empty(), cursor: 0, selection: None, cursor_visible: true, ..e }
}

/// The editor with the cursor one step to the left.
pub open spec fn stepped_left(e: EditorModel) -> EditorModel {
    moved(
        e,
        match e.selection {
            Some((a, _)) => a,
            None => if e.cursor > 0 {
                left_of(e.text, e.cursor as nat) as int
            } else {
                0
            },
        },
    )
}

/// The editor with the cursor one step to the right.
pub open spec fn stepped_right(e: EditorModel) -> EditorModel {
    moved(
        e,
        match e.selection {
            Some((_, b)) => b,
            None => if e.cursor < e.text.len() {
                right_of(e.text, e.cursor as nat) as int
            } else {
                e.cursor
            },
        },
    )
}

/// The editor with the cursor at the start of its line.
pub open spec fn at_line_start(e: EditorModel) -> EditorModel {
    moved(e, line_start_at(e.text, e.cursor))
}

/// The editor with the cursor at the end of its line.
pub open spec fn at_line_end(e: EditorModel) -> EditorModel {
    moved(e, line_end_at(e.text, e.cursor))
}

/// The editor after what stands before the cursor was deleted.
pub open spec fn erased_before(e: EditorModel) -> EditorModel {
    deleted(
        e,
        if e.cursor > 0 {
            left_of(e.text, e.cursor as nat) as int
        } else {
            0
        },
        e.cursor,
    )
}

/// The editor after what stands behind the cursor was deleted.
pub open spec fn erased_behind(e: EditorModel) -> EditorModel {
    deleted(
        e,
        e.cursor,
        if e.cursor < e.text.len() {
            right_of(e.text, e.cursor as nat) as int
        } else {
            e.cursor
        },
    )
}

/// The editor after the word before the cursor was deleted.
pub open spec fn word_erased_before(e: EditorModel) -> EditorModel {
    deleted(e, word_start(e.text, e.cursor) as int, e.cursor)
}

/// The editor after the word behind the cursor was deleted.
pub open spec fn word_erased_behind(e: EditorModel) -> EditorModel {
    deleted(e, e.cursor, word_end(e.text, e.cursor) as int)
}

/// The editor with all of its text selected.
pub open spec fn all_selected(e: EditorModel) -> EditorModel {
    if e.text.len() > 0 {
        EditorModel {
            selection: Some((0, e.text.len() as int)),
            cursor: e.text.len() as int,
            cursor_visible: true,
            ..e
        }
    } else {
        EditorModel { cursor_visible: true, ..e }
    }
}

/// The editor after a text was put in the place of a range of units, or where input goes.
pub open spec fn written(e: EditorModel, range: Option<(nat, nat)>, new: Seq<char>) -> EditorModel {
    let target = match range {
        Some((start, end)) => range_from_units(e.text, start, end),
        None => input_range(e),
    };
    replaced(e, target.0, target.1, new)
}

/// The lines that an editor shows.
pub open spec fn lines_shown(e: EditorModel) -> Seq<Seq<char>> {
    if e.text.len() == 0 {
        seq![e.placeholder]
    } else {
        pieces(e.text, '\n')
    }
}

impl Editor {
    /// See [`EditorModel::wf`].
    pub open spec fn wf(&self) -> bool {
        self@.wf()
    }

    /// An editor that shows a text, with the cursor at its end.
    pub fn new(text: &str, placeholder: &str) -> (r: Self)
        ensures
            r@ == holding(text@, placeholder@),
            r@ == (EditorModel {
                text: text@,
                cursor: text@.len() as int,
                selection: None,
                cursor_visible: false,
                placeholder: placeholder@,
            }),
            r.wf(),
    {
        let value = text::chars(text);
        Editor {
            cursor: value.len(),
            value,
            selection: None,
            cursor_visible: false,
            placeholder: placeholder.to_owned(),
        }
    }

    pub fn text(&self) -> (r: String)
        ensures
            r@ == self@.text,
    {
        string_of(&self.value)
    }

    pub fn clear(&mut self) -> (r: EditorEvent)
        ensures
            final(self)@ == emptied(old(self)@),
            final(self)@ == (EditorModel {
                text: Seq::empty(),
                cursor: 0,
                selection: None,
                cursor_visible: true,
                ..old(self)@
            }),
            final(self).wf(),
            r == EditorEvent::Changed,
    {
        self.value = Vec::new();
        self.cursor = 0;
        self.selection = None;
        self.cursor_visible = true;
        EditorEvent::Changed
    }

    pub fn set_text(&mut self, value: &str) -> (r: EditorEvent)
        ensures
            final(self)@ == filled(old(self)@, value@),
            final(self)@ == (EditorModel {
                text: value@,
                cursor: value@.len() as int,
                selection: None,
                cursor_visible: true,
                ..old(self)@
            }),
            final(self).wf(),
            r == EditorEvent::Changed,
    {
        self.value = text::chars(value);
        self.cursor = self.value.len();
        self.selection = None;
        self.cursor_visible = true;
        EditorEvent::Changed
    }

    /// The cursor shows from now on.
    pub fn start_blink(&mut self)
        ensures
            final(self)@ == (EditorModel { cursor_visible: true, ..old(self)@ }),
    {
        self.cursor_visible = true;
    }

    /// The cursor does not show any more.
    pub fn stop_blink(&mut self)
        ensures
            final(self)@ == (EditorModel { cursor_visible: false, ..old(self)@ }),
    {
        self.cursor_visible = false;
    }

    /// The cursor shows where it did not, and the other way round.
    pub fn blink(&mut self)
        ensures
            final(self)@ == (EditorModel {
                cursor_visible: !old(self)@.cursor_visible,
                ..old(self)@
            }),
    {
        self.cursor_visible = !self.cursor_visible;
    }

    /// Moves to the left: to the start of the selection, or a cluster away.
    pub fn left(&mut self)
        requires
            old(self).wf(),
        ensures
            final(self)@ == stepped_left(old(self)@),
            final(self)@ == moved(
                old(self)@,
                match old(self)@.selection {
                    Some((a, _)) => a,
                    None => if old(self)@.cursor > 0 {
                        left_of(old(self)@.text, old(self)@.cursor as nat) as int
                    } else {
                        0
                    },
                },
            ),
            final(self).wf(),
    {
        match self.selection {
            Some((a, _)) => {
                self.cursor = a;
            },
            None => {
                if self.cursor > 0 {
                    self.cursor = previous_boundary(&self.value, self.cursor);
                }
            },
        }
        self.selection = None;
        self.cursor_visible = true;
    }

    /// Moves to the right: to the end of the selection, or a cluster away.
    pub fn right(&mut self)
        requires
            old(self).wf(),
        ensures
            final(self)@ == stepped_right(old(self)@),
            final(self)@ == moved(
                old(self)@,
                match old(self)@.selection {
                    Some((_, b)) => b,
                    None => if old(self)@.cursor < old(self)@.text.len() {
                        right_of(old(self)@.text, old(self)@.cursor as nat) as int
                    } else {
                        old(self)@.cursor
                    },
                },
            ),
            final(self).wf(),
    {
        match self.selection {
            Some((_, b)) => {
                self.cursor = b;
            },
            None => {
                if self.cursor < self.value.len() {
                    self.cursor = next_boundary(&self.value, self.cursor);
                }
            },
        }
        self.selection = None;
        self.cursor_visible = true;
    }

    /// Moves to the start of the line.
    pub fn home(&mut self)
        requires
            old(self).wf(),
        ensures
            final(self)@ == at_line_start(old(self)@),
            final(self)@ == moved(old(self)@, line_start_at(old(self)@.text, old(self)@.cursor)),
            final(self).wf(),
    {
        self.cursor = line_start(&self.value, self.cursor);
        self.selection = None;
        self.cursor_visible = true;
    }

    /// Moves to the end of the line.
    pub fn end(&mut self)
        requires
            old(self).wf(),
        ensures
            final(self)@ == at_line_end(old(self)@),
            final(self)@ == moved(old(self)@, line_end_at(old(self)@.text, old(self)@.cursor)),
            final(self).wf(),
    {
        self.cursor = line_end(&self.value, self.cursor);
        self.selection = None;
        self.cursor_visible = true;
    }

    /// Replaces a part of the text.
    fn replace(&mut self, from: usize, to: usize, new: &Vec<char>)
        requires
            from <= to <= old(self)@.text.len(),
            old(self)@.text.len() - (to - from) + new@.len() <= usize::MAX,
        ensures
            final(self)@ == replaced(old(self)@, from as int, to as int, new@),
            final(self).wf(),
    {
        self.value = splice(&self.value, from, to, new);
        self.cursor = from + new.len();
        self.selection = None;
        self.cursor_visible = true;
    }

    /// Deletes the selection, or else a part of the text, and says whether anything went.
    fn delete_range(&mut self, from: usize, to: usize) -> (changed: bool)
        requires
            old(self).wf(),
            from <= to <= old(self)@.text.len(),
        ensures
            final(self)@ == deleted(old(self)@, from as int, to as int),
            final(self).wf(),
            changed == (old(self)@.selection is Some || from < to),
    {
        let nothing: Vec<char> = Vec::new();
        assert(nothing@ =~= Seq::empty());
        assert(self.value.len() <= usize::MAX);
        match self.selection {
            Some((a, b)) => {
                self.replace(a, b, &nothing);
                true
            },
            None => {
                if from < to {
                    self.replace(from, to, &nothing);
                    true
                } else {
                    self.cursor_visible = true;
                    false
                }
            },
        }
    }

    /// Deletes the selection, or the cluster before the cursor.
    pub fn backspace(&mut self) -> (r: Option<EditorEvent>)
        requires
            old(self).wf(),
        ensures
            final(self)@ == erased_before(old(self)@),
            final(self)@ == deleted(
                old(self)@,
                if old(self)@.cursor > 0 {
                    left_of(old(self)@.text, old(self)@.cursor as nat) as int
                } else {
                    0
                },
                old(self)@.cursor,
            ),
            final(self).wf(),
            r == change_event(old(self)@, final(self)@),
    {
        let from: usize = if self.cursor > 0 {
            previous_boundary(&self.value, self.cursor)
        } else {
            0
        };
        let to: usize = self.cursor;
        event_of(self.delete_range(from, to))
    }

    /// Deletes the selection, or the cluster after the cursor.
    pub fn delete(&mut self) -> (r: Option<EditorEvent>)
        requires
            old(self).wf(),
        ensures
            final(self)@ == erased_behind(old(self)@),
            final(self)@ == deleted(
                old(self)@,
                old(self)@.cursor,
                if old(self)@.cursor < old(self)@.text.len() {
                    right_of(old(self)@.text, old(self)@.cursor as nat) as int
                } else {
                    old(self)@.cursor
                },
            ),
            final(self).wf(),
            r == change_event(old(self)@, final(self)@),
    {
        let from: usize = self.cursor;
        let to: usize = if self.cursor < self.value.len() {
            next_boundary(&self.value, self.cursor)
        } else {
            self.cursor
        };
        event_of(self.delete_range(from, to))
    }

    /// Selects the whole text, unless it is empty.
    pub fn select_all(&mut self)
        requires
            old(self).wf(),
        ensures
            final(self)@ == all_selected(old(self)@),
            final(self)@ == (if old(self)@.text.len() > 0 {
                EditorModel {
                    selection: Some((0, old(self)@.text.len() as int)),
                    cursor: old(self)@.text.len() as int,
                    cursor_visible: true,
                    ..old(self)@
                }
            } else {
                EditorModel { cursor_visible: true, ..old(self)@ }
            }),
            final(self).wf(),
    {
        if self.value.len() > 0 {
            self.selection = Some((0, self.value.len()));
            self.cursor = self.value.len();
        }
        self.cursor_visible = true;
    }

    /// Deletes the selection, or the word before the cursor.
    pub fn delete_word_backward(&mut self) -> (r: Option<EditorEvent>)
        requires
            old(self).wf(),
        ensures
            final(self)@ == word_erased_before(old(self)@),
            final(self)@ == deleted(
                old(self)@,
                word_start(old(self)@.text, old(self)@.cursor) as int,
                old(self)@.cursor,
            ),
            final(self).wf(),
            r == change_event(old(self)@, final(self)@),
    {
        let from: usize = previous_word_start(&self.value, self.cursor);
        let to: usize = self.cursor;
        event_of(self.delete_range(from, to))
    }

    /// Deletes the selection, or the word after the cursor.
    pub fn delete_word_forward(&mut self) -> (r: Option<EditorEvent>)
        requires
            old(self).wf(),
        ensures
            final(self)@ == word_erased_behind(old(self)@),
            final(self)@ == deleted(
                old(self)@,
                old(self)@.cursor,
                word_end(old(self)@.text, old(self)@.cursor) as int,
            ),
            final(self).wf(),
            r == change_event(old(self)@, final(self)@),
    {
        let from: usize = self.cursor;
        let to: usize = next_word_end(&self.value, self.cursor);
        event_of(self.delete_range(from, to))
    }
}

/// What an editor tells of an edit that deletes: that it changed, where anything went.
pub open spec fn change_event(before: EditorModel, after: EditorModel) -> Option<EditorEvent> {
    if before.selection is Some || before.text != after.text {
        Some(EditorEvent::Changed)
    } else {
        None
    }
}

fn event_of(changed: bool) -> (r: Option<EditorEvent>)
    ensures
        r == (if changed {
            Some(EditorEvent::Changed)
        } else {
            None
        }),
{
    if changed {
        Some(EditorEvent::Changed)
    } else {
        None
    }
}

/// See [`line_start_at`].
pub fn line_start(content: &Vec<char>, position: usize) -> (r: usize)
    requires
        position <= content.len(),
    ensures
        r == line_start_at(content@, position as int),
        r <= position,
{
    let mut i: usize = position;
    while i > 0 && content[i - 1] != '\n'
        invariant
            i <= position <= content.len(),
            line_start_at(content@, position as int) == line_start_at(content@, i as int),
        decreases i,
    {
        i = i - 1;
    }
    i
}

/// See [`line_end_at`].
pub fn line_end(content: &Vec<char>, position: usize) -> (r: usize)
    requires
        position <= content.len(),
    ensures
        r == line_end_at(content@, position as int),
        position <= r <= content.len(),
{
    let mut i: usize = position;
    while i < content.len() && content[i] != '\n'
        invariant
            position <= i <= content.len(),
            line_end_at(content@, position as int) == line_end_at(content@, i as int),
        decreases content.len() - i,
    {
        i = i + 1;
    }
    i
}

/// The part of the text that input goes to: the selection, or the place of the cursor.
pub open spec fn input_range(e: EditorModel) -> (int, int) {
    match e.selection {
        Some(range) => range,
        None => (e.cursor, e.cursor),
    }
}

/// A range in UTF-16 units as positions.
pub open spec fn range_from_units(s: Seq<char>, start: nat, end: nat) -> (int, int) {
    (position_at(s, start, true, 0), position_at(s, end, true, 0))
}

/// Positions as a range in UTF-16 units, as far as a machine word counts.
pub open spec fn range_to_units(s: Seq<char>, range: (int, int)) -> (nat, nat) {
    (counted(units(s.take(range.0), true)), counted(units(s.take(range.1), true)))
}

proof fn position_at_bounds(s: Seq<char>, a: nat, b: nat, wide: bool, i: int)
    requires
        a <= b,
        0 <= i <= s.len(),
    ensures
        i <= position_at(s, a, wide, i) <= position_at(s, b, wide, i) <= s.len(),
    decreases s.len() - i,
{
    if i < s.len() {
        if units(s.take(i), wide) < a {
            position_at_bounds(s, a, b, wide, i + 1);
        } else if units(s.take(i), wide) < b {
            position_at_bounds(s, b, b, wide, i + 1);
        }
    }
}

/// The line that a position stands on, and where that line starts.
pub open spec fn line_of(s: Seq<char>, position: int) -> (int, int)
    decreases position,
{
    if position <= 0 || position > s.len() {
        (0, 0)
    } else {
        let (line, start) = line_of(s, position - 1);
        if s[position - 1] == '\n' {
            (line + 1, position)
        } else {
            (line, start)
        }
    }
}

/// The part of a line that is marked: the line and two offsets in bytes from its start.
#[derive(Clone, Copy, Debug, PartialEq, Eq, Structural)]
pub struct LineSpan {
    pub line: usize,
    pub start: usize,
    pub end: usize,
}

/// How many bytes a part of a text takes, as far as a machine word counts.
pub open spec fn bytes_between(s: Seq<char>, from: int, to: int) -> nat {
    counted(units(s.subrange(from, to), false))
}

/// Bytes of a part of a text.
fn count_bytes(content: &Vec<char>, from: usize, to: usize) -> (r: usize)
    requires
        from <= to <= content.len(),
    ensures
        r == bytes_between(content@, from as int, to as int),
{
    let mut part: Vec<char> = Vec::new();
    let mut i: usize = from;
    while i < to
        invariant
            from <= i <= to <= content.len(),
            part@ == content@.subrange(from as int, i as int),
        decreases to - i,
    {
        part.push(content[i]);
        i = i + 1;
    }
    assert(part@.take(part@.len() as int) =~= part@);
    units_before(&part, part.len(), false)
}

/// See [`line_of`].
fn line_and_start(content: &Vec<char>, position: usize) -> (r: (usize, usize))
    requires
        position <= content.len(),
    ensures
        (r.0 as int, r.1 as int) == line_of(content@, position as int),
        r.1 <= position,
        r.0 <= position,
{
    let mut line: usize = 0;
    let mut start: usize = 0;
    let mut i: usize = 0;
    while i < position
        invariant
            i <= position <= content.len(),
            (line as int, start as int) == line_of(content@, i as int),
            start <= i,
            line <= i,
        decreases position - i,
    {
        if content[i] == '\n' {
            line = line + 1;
            start = i + 1;
        }
        i = i + 1;
    }
    (line, start)
}

/// The line of a position and the offset in bytes from its start.
pub open spec fn place_of(s: Seq<char>, position: int) -> (int, nat) {
    let (line, start) = line_of(s, position);
    (line, bytes_between(s, start, position))
}

/// See [`place_of`].
pub fn cursor_line_and_offset(content: &Vec<char>, position: usize) -> (r: (usize, usize))
    requires
        position <= content.len(),
    ensures
        (r.0 as int, r.1 as nat) == place_of(content@, position as int),
{
    let (line, start) = line_and_start(content, position);
    (line, count_bytes(content, start, position))
}

/// The marked part of a line of a selection: on the first line from where the selection starts,
/// on the last one up to where it ends, and on lines between all of the line, whose length in
/// bytes is given.
pub open spec fn span_on(s: Seq<char>, range: (int, int), line: int, length: nat) -> (nat, nat) {
    let (first, from) = place_of(s, range.0);
    let (last, to) = place_of(s, range.1);
    (
        if line == first {
            from
        } else {
            0
        },
        if line == last {
            to
        } else {
            length
        },
    )
}

impl Editor {
    /// Puts a line feed in place of the selection, or at the cursor.
    pub fn insert_newline(&mut self) -> (r: EditorEvent)
        requires
            old(self).wf(),
            old(self)@.text.len() < usize::MAX,
        ensures
            final(self)@ == written(old(self)@, None, seq!['\n']),
            final(self)@ == replaced(
                old(self)@,
                input_range(old(self)@).0,
                input_range(old(self)@).1,
                seq!['\n'],
            ),
            final(self).wf(),
            r == EditorEvent::Changed,
    {
        let (from, to) = match self.selection {
            Some((a, b)) => (a, b),
            None => (self.cursor, self.cursor),
        };
        let mut new: Vec<char> = Vec::new();
        new.push('\n');
        assert(new@ =~= seq!['\n']);
        self.replace(from, to, &new);
        EditorEvent::Changed
    }

    /// The text in a range of UTF-16 units, and the range that it really takes.
    pub fn text_for_range(&self, start: usize, end: usize) -> (r: (String, (usize, usize)))
        requires
            start <= end,
        ensures
            ({
                let s = self@.text;
                let range = range_from_units(s, start as nat, end as nat);
                &&& r.0@ == s.subrange(range.0, range.1)
                &&& (r.1.0 as nat, r.1.1 as nat) == range_to_units(s, range)
            }),
    {
        let from: usize = position_of_units(&self.value, start, true);
        let to: usize = position_of_units(&self.value, end, true);
        proof {
            position_at_bounds(self.value@, start as nat, end as nat, true, 0);
        }
        let range = (
            units_before(&self.value, from, true),
            units_before(&self.value, to, true),
        );
        (text::slice(&self.value, from, to), range)
    }

    /// The range in UTF-16 units that input goes to.
    pub fn selected_text_range(&self) -> (r: (usize, usize))
        requires
            self.wf(),
        ensures
            (r.0 as nat, r.1 as nat) == range_to_units(self@.text, input_range(self@)),
    {
        let (from, to) = match self.selection {
            Some((a, b)) => (a, b),
            None => (self.cursor, self.cursor),
        };
        (units_before(&self.value, from, true), units_before(&self.value, to, true))
    }

    /// Puts a text in place of a range of UTF-16 units, or where input goes.
    pub fn replace_text_in_range(&mut self, range: Option<(usize, usize)>, new_text: &str) -> (r:
        EditorEvent)
        requires
            old(self).wf(),
            range matches Some((start, end)) ==> start <= end,
            old(self)@.text.len() + new_text@.len() <= usize::MAX,
        ensures
            final(self)@ == written(
                old(self)@,
                match range {
                    Some((start, end)) => Some((start as nat, end as nat)),
                    None => None,
                },
                new_text@,
            ),
            ({
                let target = match range {
                    Some((start, end)) => range_from_units(
                        old(self)@.text,
                        start as nat,
                        end as nat,
                    ),
                    None => input_range(old(self)@),
                };
                final(self)@ == replaced(old(self)@, target.0, target.1, new_text@)
            }),
            final(self).wf(),
            r == EditorEvent::Changed,
    {
        let new = text::chars(new_text);
        let (from, to) = match range {
            Some((start, end)) => {
                proof {
                    position_at_bounds(self.value@, start as nat, end as nat, true, 0);
                }
                (
                    position_of_units(&self.value, start, true),
                    position_of_units(&self.value, end, true),
                )
            },
            None => match self.selection {
                Some((a, b)) => (a, b),
                None => (self.cursor, self.cursor),
            },
        };
        self.replace(from, to, &new);
        EditorEvent::Changed
    }

    /// The lines to show: those of the text, or the placeholder where the text is empty.
    pub fn shown_lines(&self) -> (r: Vec<String>)
        ensures
            views(r@) == lines_shown(self@),
            views(r@) == (if self@.text.len() == 0 {
                seq![self@.placeholder]
            } else {
                pieces(self@.text, '\n')
            }),
    {
        if self.value.len() == 0 {
            let mut r: Vec<String> = Vec::new();
            r.push(self.placeholder.clone());
            assert(views(r@) =~= seq![self@.placeholder]);
            r
        } else {
            text::split(string_of(&self.value).as_str(), '\n')
        }
    }

    /// Whether the placeholder is shown.
    pub fn shows_placeholder(&self) -> (r: bool)
        ensures
            r == (self@.text.len() == 0),
    {
        self.value.len() == 0
    }

    /// Where the cursor is shown, as a line and an offset in bytes: not without focus, while it
    /// blinks away, or while something is selected.
    pub fn shown_cursor(&self, focused: bool) -> (r: Option<(usize, usize)>)
        requires
            self.wf(),
        ensures
            match r {
                Some((line, offset)) => focused && self@.cursor_visible && self@.selection is None
                    && (line as int, offset as nat) == place_of(self@.text, self@.cursor),
                None => !(focused && self@.cursor_visible && self@.selection is None),
            },
    {
        if focused && self.cursor_visible && self.selection.is_none() {
            Some(cursor_line_and_offset(&self.value, self.cursor))
        } else {
            None
        }
    }

    /// The first and the last line of what is shown as selected; nothing without focus.
    pub fn shown_selection(&self, focused: bool) -> (r: Option<(usize, usize)>)
        requires
            self.wf(),
        ensures
            match (self@.selection, focused) {
                (Some((a, b)), true) => r matches Some((first, last)) && first == place_of(
                    self@.text,
                    a,
                ).0 && last == place_of(self@.text, b).0,
                _ => r is None,
            },
    {
        match self.selection {
            Some((a, b)) => {
                if focused {
                    Some(
                        (
                            cursor_line_and_offset(&self.value, a).0,
                            cursor_line_and_offset(&self.value, b).0,
                        ),
                    )
                } else {
                    None
                }
            },
            None => None,
        }
    }

    /// The marked part of a line that takes `length` bytes: see [`span_on`].
    pub fn selection_span(&self, line: usize, length: usize) -> (r: Option<LineSpan>)
        requires
            self.wf(),
        ensures
            match self@.selection {
                Some(range) => r matches Some(span) && span.line == line && (
                    span.start as nat,
                    span.end as nat,
                ) == span_on(self@.text, range, line as int, length as nat),
                None => r is None,
            },
    {
        match self.selection {
            Some((a, b)) => {
                let (first, from) = cursor_line_and_offset(&self.value, a);
                let (last, to) = cursor_line_and_offset(&self.value, b);
                Some(
                    LineSpan {
                        line,
                        start: if line == first {
                            from
                        } else {
                            0
                        },
                        end: if line == last {
                            to
                        } else {
                            length
                        },
                    },
                )
            },
            None => None,
        }
    }
}

/// What is typed is put where input goes, and the cursor stands behind it: reading that part of
/// the text gives what was typed.
pub proof fn typed_text_is_read_back(e: EditorModel, from: int, to: int, new: Seq<char>)
    requires
        e.wf(),
        0 <= from <= to <= e.text.len(),
    ensures
        ({
            let after = replaced(e, from, to, new);
            &&& after.wf()
            &&& after.text.subrange(from, after.cursor) == new
            &&& after.text.take(from) == e.text.take(from)
            &&& after.text.skip(after.cursor) == e.text.skip(to)
        }),
{
    let after = replaced(e, from, to, new);
    assert(after.text.subrange(from, after.cursor) =~= new);
    assert(after.text.take(from) =~= e.text.take(from));
    assert(after.text.skip(after.cursor) =~= e.text.skip(to));
}

/// The place of a boundary between two sizes.
pub open spec fn boundary(sizes: Seq<usize>, k: int) -> nat {
    total(sizes.take(k))
}

proof fn boundaries_of_prefix(sizes: Seq<usize>, k: int)
    requires
        0 <= k < sizes.len(),
    ensures
        boundary(sizes, k) == boundary(sizes.drop_last(), k),
        boundary(sizes, k) <= total(sizes.drop_last()),
        boundary(sizes, sizes.len() as int) == total(sizes),
        boundary(sizes, sizes.len() - 1) == total(sizes.drop_last()),
{
    assert(sizes.drop_last().take(k) =~= sizes.take(k));
    assert(sizes.take(sizes.len() as int) =~= sizes);
    assert(sizes.take(sizes.len() - 1) =~= sizes.drop_last());
    boundaries_grow(sizes, k, sizes.len() - 1);
}

proof fn boundaries_grow(sizes: Seq<usize>, i: int, j: int)
    requires
        0 <= i <= j <= sizes.len(),
    ensures
        boundary(sizes, i) <= boundary(sizes, j),
        (forall|k: int| 0 <= k < sizes.len() ==> #[trigger] sizes[k] > 0) && i < j ==> boundary(
            sizes,
            i,
        ) < boundary(sizes, j),
    decreases j - i,
{
    if i < j {
        boundaries_grow(sizes, i, j - 1);
        let s = sizes.take(j);
        assert(s.drop_last() =~= sizes.take(j - 1));
        assert(s.last() == sizes[j - 1]);
    }
}

/// One step to the left leads to the nearest boundary between two clusters before the cursor.
pub proof fn steps_left_are_to_the_nearest_boundary(sizes: Seq<usize>, position: nat)
    ensures
        sizes.len() > 0 ==> exists|k: int|
            0 <= k < sizes.len() && cluster_before(sizes, position) == #[trigger] boundary(sizes, k),
        position > 0 ==> cluster_before(sizes, position) < position,
        forall|k: int|
            0 <= k < sizes.len() && #[trigger] boundary(sizes, k) < position ==> boundary(sizes, k)
                <= cluster_before(sizes, position),
    decreases sizes.len(),
{
    if sizes.len() > 0 {
        let head = sizes.drop_last();
        steps_left_are_to_the_nearest_boundary(head, position);
        assert forall|k: int| 0 <= k < sizes.len() implies #[trigger] boundary(sizes, k) == boundary(
            head,
            k,
        ) && boundary(sizes, k) <= total(head) by {
            boundaries_of_prefix(sizes, k);
        }
        boundaries_of_prefix(sizes, sizes.len() - 1);
        if total(head) >= position && head.len() > 0 {
            let k = choose|k: int|
                0 <= k < head.len() && cluster_before(head, position) == #[trigger] boundary(head, k);
            assert(boundary(sizes, k) == boundary(head, k));
        }
        if total(head) < position {
            assert(cluster_before(sizes, position) == boundary(sizes, sizes.len() - 1));
        }
        if head.len() == 0 {
            assert(sizes.take(0) =~= head);
            assert(cluster_before(head, position) == 0);
            assert(cluster_before(sizes, position) == boundary(sizes, 0));
        }
    }
}

/// One step to the right leads to the nearest boundary between two clusters behind the cursor.
pub proof fn steps_right_are_to_the_nearest_boundary(sizes: Seq<usize>, position: nat)
    requires
        forall|k: int| 0 <= k < sizes.len() ==> #[trigger] sizes[k] > 0,
        position < total(sizes),
    ensures
        exists|k: int|
            0 <= k <= sizes.len() && cluster_after(sizes, position) == #[trigger] boundary(sizes, k),
        position < cluster_after(sizes, position) <= total(sizes),
        forall|k: int|
            0 <= k <= sizes.len() && position < #[trigger] boundary(sizes, k) ==> cluster_after(
                sizes,
                position,
            ) <= boundary(sizes, k),
    decreases sizes.len(),
{
    if sizes.len() > 0 {
        let head = sizes.drop_last();
        boundaries_of_prefix(sizes, sizes.len() - 1);
        assert forall|k: int| 0 <= k < sizes.len() implies #[trigger] boundary(sizes, k) == boundary(
            head,
            k,
        ) && boundary(sizes, k) <= total(head) by {
            boundaries_of_prefix(sizes, k);
        }
        if total(head) > position {
            assert forall|k: int| 0 <= k < head.len() implies #[trigger] head[k] > 0 by {
                assert(sizes[k] > 0);
            }
            steps_right_are_to_the_nearest_boundary(head, position);
            let k = choose|k: int|
                0 <= k <= head.len() && cluster_after(head, position) == #[trigger] boundary(
                    head,
                    k,
                );
            assert(boundary(sizes, k) == boundary(head, k));
        } else {
            assert(cluster_after(sizes, position) == boundary(sizes, sizes.len() as int));
        }
    }
}

/// Moving the cursor changes no text. Where something was selected it goes to that end of the
/// selection, and else by a cluster; at the ends of the text it stays.
pub proof fn moving_changes_no_text(e: EditorModel)
    requires
        e.wf(),
    ensures
        forall|f: EditorModel|
            f == stepped_left(e) || f == stepped_right(e) || f == at_line_start(e) || f
                == at_line_end(e) ==> {
                &&& (#[trigger] f.text) == e.text
                &&& f.selection is None
                &&& f.cursor_visible
                &&& f.placeholder == e.placeholder
            },
        e.selection matches Some((a, b)) ==> stepped_left(e).cursor == a && stepped_right(e).cursor
            == b,
        e.selection is None && e.cursor == 0 ==> stepped_left(e).cursor == 0,
        e.selection is None && e.cursor == e.text.len() ==> stepped_right(e).cursor == e.cursor,
        e.selection is None && e.cursor > 0 ==> stepped_left(e).cursor == left_of(
            e.text,
            e.cursor as nat,
        ),
        e.selection is None && e.cursor < e.text.len() ==> stepped_right(e).cursor == right_of(
            e.text,
            e.cursor as nat,
        ),
{
}

/// The start of a line stands behind the last line feed before the cursor, or at the start of the
/// text, and the end of it before the next line feed, or at the end of the text.
pub proof fn lines_end_at_line_feeds(e: EditorModel)
    requires
        e.wf(),
    ensures
        ({
            let r = at_line_start(e).cursor;
            &&& 0 <= r <= e.cursor
            &&& r == 0 || e.text[r - 1] == '\n'
            &&& forall|k: int| r <= k < e.cursor ==> #[trigger] e.text[k] != '\n'
        }),
        ({
            let r = at_line_end(e).cursor;
            &&& e.cursor <= r <= e.text.len()
            &&& r == e.text.len() || e.text[r] == '\n'
            &&& forall|k: int| e.cursor <= k < r ==> #[trigger] e.text[k] != '\n'
        }),
{
    line_starts_behind_feeds(e.text, e.cursor);
    line_ends_before_feeds(e.text, e.cursor);
}

proof fn line_starts_behind_feeds(s: Seq<char>, position: int)
    requires
        0 <= position <= s.len(),
    ensures
        ({
            let r = line_start_at(s, position);
            &&& 0 <= r <= position
            &&& r == 0 || s[r - 1] == '\n'
            &&& forall|k: int| r <= k < position ==> #[trigger] s[k] != '\n'
        }),
    decreases position,
{
    if position > 0 && s[position - 1] != '\n' {
        line_starts_behind_feeds(s, position - 1);
    }
}

proof fn line_ends_before_feeds(s: Seq<char>, position: int)
    requires
        0 <= position <= s.len(),
    ensures
        ({
            let r = line_end_at(s, position);
            &&& position <= r <= s.len()
            &&& r == s.len() || s[r] == '\n'
            &&& forall|k: int| position <= k < r ==> #[trigger] s[k] != '\n'
        }),
    decreases s.len() - position,
{
    if position < s.len() && s[position] != '\n' {
        line_ends_before_feeds(s, position + 1);
    }
}

/// Deleting takes away what is selected, every character of it and no other; where nothing is
/// selected, what stands between the cursor and where it would go. The cursor stands where that
/// was.
pub proof fn deletions_take_away_what_they_should(e: EditorModel)
    requires
        e.wf(),
    ensures
        e.selection matches Some((a, b)) ==> forall|f: EditorModel|
            f == erased_before(e) || f == erased_behind(e) || f == word_erased_before(e) || f
                == word_erased_behind(e) ==> {
                &&& (#[trigger] f.text) == e.text.take(a) + e.text.skip(b)
                &&& f.cursor == a
                &&& f.selection is None
            },
        e.selection is None && e.cursor > 0 && stepped_left(e).cursor < e.cursor ==> ({
            let f = erased_before(e);
            &&& f.text == e.text.take(stepped_left(e).cursor) + e.text.skip(e.cursor)
            &&& f.cursor == stepped_left(e).cursor
        }),
        e.selection is None && stepped_right(e).cursor > e.cursor ==> ({
            let f = erased_behind(e);
            &&& f.text == e.text.take(e.cursor) + e.text.skip(stepped_right(e).cursor)
            &&& f.cursor == e.cursor
        }),
        e.selection is None && e.cursor == 0 ==> erased_before(e).text == e.text,
        e.selection is None && e.cursor == e.text.len() ==> erased_behind(e).text == e.text,
{
    if let Some((a, b)) = e.selection {
        assert(e.text.take(a) + Seq::<char>::empty() + e.text.skip(b) =~= e.text.take(a)
            + e.text.skip(b));
    }
    let (l, r) = (stepped_left(e).cursor, stepped_right(e).cursor);
    assert(e.text.take(l) + Seq::<char>::empty() + e.text.skip(e.cursor) =~= e.text.take(l)
        + e.text.skip(e.cursor));
    assert(e.text.take(e.cursor) + Seq::<char>::empty() + e.text.skip(r) =~= e.text.take(e.cursor)
        + e.text.skip(r));
}

/// A word that is deleted before the cursor goes with the white space behind it and with nothing
/// else: the deleted part is a word without white space, then white space up to the cursor, and
/// before it stands white space or the start of the text.
pub proof fn the_word_before_is_deleted(s: Seq<char>, position: int) -> (end: int)
    requires
        0 <= position <= s.len(),
    ensures
        ({
            let start = word_start(s, position) as int;
            &&& start <= end <= position
            &&& forall|k: int| start <= k < end ==> !is_space(#[trigger] s[k])
            &&& forall|k: int| end <= k < position ==> is_space(#[trigger] s[k])
            &&& start == 0 || is_space(s[start - 1])
            &&& position > 0 ==> start < position
        }),
{
    let before = s.take(position);
    let end = trim_back(before, any_space()).len() as int;
    trimmed_back_is_a_prefix(before);
    let t = trim_back(before, any_space());
    assert(t =~= s.take(end));
    last_word_is_unspaced(t);
    after_last_space_shape(t);
    word_deletions_make_progress(s, position);
    let start = word_start(s, position) as int;
    assert forall|k: int| start <= k < end implies !is_space(#[trigger] s[k]) by {
        assert(t[k] == s[k]);
    }
    assert forall|k: int| end <= k < position implies is_space(#[trigger] s[k]) by {
        assert(before[k] == s[k]);
    }
    if start > 0 {
        assert(t[start - 1] == s[start - 1]);
    }
    end
}

proof fn trimmed_back_is_a_prefix(s: Seq<char>)
    ensures
        trim_back(s, any_space()).len() <= s.len(),
        trim_back(s, any_space()) == s.take(trim_back(s, any_space()).len() as int),
        forall|k: int|
            trim_back(s, any_space()).len() <= k < s.len() ==> is_space(#[trigger] s[k]),
    decreases s.len(),
{
    if s.len() > 0 && is_space(s.last()) {
        let head = s.drop_last();
        trimmed_back_is_a_prefix(head);
        let n = trim_back(head, any_space()).len() as int;
        assert(s.take(n) =~= head.take(n));
        assert forall|k: int| n <= k < s.len() implies is_space(#[trigger] s[k]) by {
            if k < head.len() {
                assert(head[k] == s[k]);
            }
        }
    } else {
        assert(s.take(s.len() as int) =~= s);
    }
}

proof fn last_word_is_unspaced(s: Seq<char>)
    ensures
        after_last_space(s) <= s.len(),
        forall|k: int| after_last_space(s) <= k < s.len() ==> !is_space(#[trigger] s[k]),
        after_last_space(s) == 0 || is_space(s[after_last_space(s) - 1]),
    decreases s.len(),
{
    if s.len() > 0 && !is_space(s.last()) {
        let head = s.drop_last();
        last_word_is_unspaced(head);
        let n = after_last_space(head);
        assert forall|k: int| n <= k < s.len() implies !is_space(#[trigger] s[k]) by {
            if k < head.len() {
                assert(head[k] == s[k]);
            }
        }
        if n > 0 {
            assert(head[n - 1] == s[n - 1]);
        }
    }
}

/// A word that is deleted behind the cursor goes with the white space behind it and with nothing
/// else: the deleted part is a word without white space, then white space, and behind it stands
/// something else or the end of the text.
pub proof fn the_word_behind_is_deleted(s: Seq<char>, position: int) -> (middle: int)
    requires
        0 <= position <= s.len(),
    ensures
        ({
            let end = word_end(s, position) as int;
            &&& position <= middle <= end <= s.len()
            &&& forall|k: int| position <= k < middle ==> !is_space(#[trigger] s[k])
            &&& forall|k: int| middle <= k < end ==> is_space(#[trigger] s[k])
            &&& end == s.len() || !is_space(s[end])
            &&& middle == s.len() || is_space(s[middle])
        }),
{
    let rest = s.skip(position);
    let word = run_length(rest, false) as int;
    let middle = position + word;
    runs_are_alike(rest, false);
    let after = s.skip(middle);
    runs_are_alike(after, true);
    let end = word_end(s, position) as int;
    assert forall|k: int| position <= k < middle implies !is_space(#[trigger] s[k]) by {
        assert(rest[k - position] == s[k]);
    }
    assert forall|k: int| middle <= k < end implies is_space(#[trigger] s[k]) by {
        assert(after[k - middle] == s[k]);
    }
    if end < s.len() {
        assert(after[end - middle] == s[end]);
    }
    if middle < s.len() {
        assert(rest[word] == s[middle]);
    }
    middle
}

proof fn runs_are_alike(s: Seq<char>, space: bool)
    ensures
        run_length(s, space) <= s.len(),
        forall|k: int| 0 <= k < run_length(s, space) ==> is_space(#[trigger] s[k]) == space,
        run_length(s, space) == s.len() || is_space(s[run_length(s, space) as int]) != space,
    decreases s.len(),
{
    if s.len() > 0 && is_space(s[0]) == space {
        let tail = s.drop_first();
        runs_are_alike(tail, space);
        let n = run_length(tail, space) as int;
        assert forall|k: int| 0 <= k < n + 1 implies is_space(#[trigger] s[k]) == space by {
            if k > 0 {
                assert(tail[k - 1] == s[k]);
            }
        }
        if n < tail.len() {
            assert(tail[n] == s[n + 1]);
        }
    }
}

/// What is written takes the place of what is selected, or goes in at the cursor; everything
/// before and behind it stays, and the cursor stands behind it.
pub proof fn what_is_written_goes_where_input_goes(e: EditorModel, new: Seq<char>)
    requires
        e.wf(),
    ensures
        ({
            let f = written(e, None, new);
            let (from, to) = match e.selection {
                Some(range) => range,
                None => (e.cursor, e.cursor),
            };
            &&& f.text == e.text.take(from) + new + e.text.skip(to)
            &&& f.cursor == from + new.len()
            &&& f.selection is None
            &&& f.placeholder == e.placeholder
            &&& f.wf()
        }),
        all_selected(e).text == e.text,
        written(all_selected(e), None, new).text == (if e.text.len() > 0 {
            new
        } else {
            e.text.take(e.cursor) + new + e.text.skip(e.cursor)
        }),
        filled(e, new).text == new && filled(e, new).cursor == new.len() && filled(e, new).selection
            is None && filled(e, new).placeholder == e.placeholder,
        emptied(e).text.len() == 0 && emptied(e).cursor == 0 && emptied(e).selection is None
            && emptied(e).placeholder == e.placeholder,
        holding(new, e.placeholder).text == new && holding(new, e.placeholder).cursor == new.len(),
        holding(new, e.placeholder).placeholder == e.placeholder,
{
    let none = e.text.take(0);
    assert(none =~= Seq::<char>::empty());
    assert(e.text.skip(e.text.len() as int) =~= Seq::<char>::empty());
    assert(Seq::<char>::empty() + new + Seq::<char>::empty() =~= new);
}

/// A range of units is the part of the text between the characters that its ends fall on: the
/// text that is read of it, and written to it, is that part.
pub proof fn ranges_of_units_are_parts(e: EditorModel, from: int, to: int, new: Seq<char>)
    requires
        0 <= from <= to <= e.text.len(),
    ensures
        ({
            let start = units(e.text.take(from), true);
            let end = units(e.text.take(to), true);
            &&& range_from_units(e.text, start, end) == (from, to)
            &&& written(e, Some((start, end)), new).text == e.text.take(from) + new + e.text.skip(to)
            &&& written(e, Some((start, end)), new).cursor == from + new.len()
        }),
{
    positions_survive_unit_counts(e.text, from, true);
    positions_survive_unit_counts(e.text, to, true);
}

/// The cursor is shown on the line that it is on, which is as many lines down as there are line
/// feeds before it, behind the part of the line that stands before it.
pub proof fn the_cursor_is_shown_where_it_is(s: Seq<char>, position: int)
    requires
        0 <= position <= s.len(),
    ensures
        line_of(s, position).1 == line_start_at(s, position),
        place_of(s, position).0 == s.take(position).filter(|c: char| c == '\n').len(),
        place_of(s, position).1 == counted(
            units(s.subrange(line_start_at(s, position), position), false),
        ),
    decreases position,
{
    reveal(Seq::filter);
    let feed = |c: char| c == '\n';
    if position > 0 {
        the_cursor_is_shown_where_it_is(s, position - 1);
        let t = s.take(position);
        assert(t.drop_last() =~= s.take(position - 1));
        assert(t.last() == s[position - 1]);
    } else {
        assert(s.take(0) =~= Seq::<char>::empty());
    }
}

/// An editor with no text shows its placeholder, and one with a text shows its lines.
pub proof fn lines_are_shown_as_written(e: EditorModel, lines: Seq<Seq<char>>)
    requires
        lines.len() > 0,
        forall|i: int| 0 <= i < lines.len() ==> unbroken(#[trigger] lines[i]),
        e.text == joined(lines, "\n"@),
        e.text.len() > 0,
    ensures
        lines_shown(e) == lines,
        lines_shown(emptied(e)) == seq![e.placeholder],
{
    joined_lines_are_parted(lines);
}

} // verus!
