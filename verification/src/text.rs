//! Text as sequences of characters: the searching, splitting, trimming and number
//! formatting that the rest of the library is stated with.
use vstd::prelude::*;
use vstd::string::*;
use vstd::utf8::*;

use crate::views::{opt_view, views, views_push};

verus! {

/// `String::push` appends one character.
pub assume_specification[ std::string::String::push ](s: &mut std::string::String, c: char)
    ensures
        final(s)@ == old(s)@.push(c),
;

/// The characters of `s`.
pub fn chars(s: &str) -> (out: Vec<char>)
    ensures
        out@ == s@,
{
    let mut out: Vec<char> = Vec::new();
    for c in it: s.chars()
        invariant
            it.seq() == s@,
            out@ == s@.take(it.index()),
    {
        out.push(c);
    }
    out
}

/// The string made of the characters of `v` from `from` up to `to`.
pub fn slice(v: &Vec<char>, from: usize, to: usize) -> (out: String)
    requires
        from <= to <= v.len(),
    ensures
        out@ == v@.subrange(from as int, to as int),
{
    let mut out = String::new();
    let mut i: usize = from;
    while i < to
        invariant
            from <= i <= to <= v.len(),
            out@ == v@.subrange(from as int, i as int),
        decreases to - i,
    {
        out.push(v[i]);
        i = i + 1;
    }
    out
}

/// Whether `a` and `b` hold the same characters.
pub fn same(a: &str, b: &str) -> (r: bool)
    ensures
        r == (a@ == b@),
{
    let x = a.as_bytes();
    let y = b.as_bytes();
    if x.len() != y.len() {
        return false;
    }
    let mut i: usize = 0;
    while i < x.len()
        invariant
            x@ == encode_utf8(a@),
            y@ == encode_utf8(b@),
            x@.len() == y@.len(),
            i <= x@.len(),
            forall|k: int| 0 <= k < i ==> x@[k] == y@[k],
        decreases x@.len() - i,
    {
        if x[i] != y[i] {
            return false;
        }
        i = i + 1;
    }
    proof {
        assert(x@ =~= y@);
        encode_utf8_decode_utf8(a@);
        encode_utf8_decode_utf8(b@);
    }
    true
}

/// A copy of an optional string.
pub fn copy_opt(o: &Option<String>) -> (r: Option<String>)
    ensures
        opt_view(r) == opt_view(*o),
{
    match o {
        Some(s) => Some(s.clone()),
        None => None,
    }
}

/// Whether `p` stands in `s` at position `i`.
pub open spec fn occurs_at(s: Seq<char>, p: Seq<char>, i: int) -> bool {
    0 <= i && i + p.len() <= s.len() && s.subrange(i, i + p.len()) =~= p
}

/// The first position at or after `i` at which `p` stands in `s`.
pub open spec fn find_from(s: Seq<char>, p: Seq<char>, i: int) -> Option<int>
    decreases s.len() - i,
{
    if i < 0 || i + p.len() > s.len() {
        None
    } else if occurs_at(s, p, i) {
        Some(i)
    } else {
        find_from(s, p, i + 1)
    }
}

/// The first position at which `p` stands in `s`.
pub open spec fn find(s: Seq<char>, p: Seq<char>) -> Option<int> {
    find_from(s, p, 0)
}

/// What `find_from` gives back is an occurrence with none before it, and it gives back
/// nothing only where there is none.
pub proof fn find_from_is_first(s: Seq<char>, p: Seq<char>, i: int)
    requires
        0 <= i,
    ensures
        match find_from(s, p, i) {
            Some(k) => i <= k && occurs_at(s, p, k) && forall|j: int|
                i <= j < k ==> !occurs_at(s, p, j),
            None => forall|j: int| i <= j ==> !occurs_at(s, p, j),
        },
    decreases s.len() - i,
{
    if i + p.len() <= s.len() && !occurs_at(s, p, i) {
        find_from_is_first(s, p, i + 1);
    }
}

/// An occurrence with none before it is the first one.
pub proof fn first_is_found(s: Seq<char>, p: Seq<char>, i: int)
    requires
        occurs_at(s, p, i),
        forall|j: int| 0 <= j < i ==> !occurs_at(s, p, j),
    ensures
        find(s, p) == Some(i),
{
    find_from_is_first(s, p, 0);
}

/// Whether `p` stands in `v` at position `i`.
pub fn stands_at(v: &Vec<char>, p: &Vec<char>, i: usize) -> (r: bool)
    ensures
        r == occurs_at(v@, p@, i as int),
{
    if i > v.len() || p.len() > v.len() - i {
        return false;
    }
    let mut k: usize = 0;
    while k < p.len()
        invariant
            i + p.len() <= v.len(),
            k <= p@.len(),
            forall|j: int| 0 <= j < k ==> v@[i + j] == p@[j],
        decreases p@.len() - k,
    {
        if v[i + k] != p[k] {
            assert(v@.subrange(i as int, i + p@.len())[k as int] == v@[i + k]);
            return false;
        }
        k = k + 1;
    }
    true
}

/// The first position at which `p` stands in `v`.
pub fn position(v: &Vec<char>, p: &Vec<char>) -> (r: Option<usize>)
    ensures
        r is Some == find(v@, p@) is Some,
        r is Some ==> r->0 == find(v@, p@)->0 && occurs_at(v@, p@, r->0 as int),
{
    let mut i: usize = 0;
    while i <= v.len() && p.len() <= v.len() - i
        invariant
            i <= v@.len() + 1,
            find(v@, p@) == find_from(v@, p@, i as int),
        decreases v@.len() + 1 - i,
    {
        if stands_at(v, p, i) {
            return Some(i);
        }
        if i == v.len() {
            return None;
        }
        i = i + 1;
    }
    None
}

/// Whether `p` stands somewhere in `s`.
pub fn has(s: &str, p: &str) -> (r: bool)
    ensures
        r == (find(s@, p@) is Some),
{
    position(&chars(s), &chars(p)).is_some()
}

/// Whether `s` begins with `p`.
pub open spec fn begins(s: Seq<char>, p: Seq<char>) -> bool {
    occurs_at(s, p, 0)
}

/// A text does not begin with one whose first character is another.
pub proof fn begins_otherwise(s: Seq<char>, p: Seq<char>)
    requires
        s.len() > 0,
        p.len() > 0,
        s[0] != p[0],
    ensures
        !begins(s, p),
{
    if begins(s, p) {
        assert(s.subrange(0, p.len() as int)[0] == s[0]);
    }
}

/// Whether `s` begins with `p`.
pub fn starts_with(s: &str, p: &str) -> (r: bool)
    ensures
        r == begins(s@, p@),
{
    stands_at(&chars(s), &chars(p), 0)
}

/// What follows the prefix `p` of `s`, if `s` begins with it.
pub open spec fn after_prefix(s: Seq<char>, p: Seq<char>) -> Option<Seq<char>> {
    if begins(s, p) {
        Some(s.skip(p.len() as int))
    } else {
        None
    }
}

/// What follows the prefix `p` of `s`, if `s` begins with it.
pub fn strip_prefix(s: &str, p: &str) -> (r: Option<String>)
    ensures
        opt_view(r) == after_prefix(s@, p@),
{
    let v = chars(s);
    let q = chars(p);
    if stands_at(&v, &q, 0) {
        assert(v@.subrange(q@.len() as int, v@.len() as int) =~= v@.skip(q@.len() as int));
        Some(slice(&v, q.len(), v.len()))
    } else {
        None
    }
}

/// The text before and after the first occurrence of `p` in `s`.
pub open spec fn cut(s: Seq<char>, p: Seq<char>) -> Option<(Seq<char>, Seq<char>)> {
    match find(s, p) {
        Some(i) => Some((s.take(i), s.skip(i + p.len()))),
        None => None,
    }
}

/// The text before and after the first occurrence of `p` in `s`.
pub fn split_once(s: &str, p: &str) -> (r: Option<(String, String)>)
    ensures
        r is Some == cut(s@, p@) is Some,
        r matches Some(c) ==> cut(s@, p@) == Some((c.0@, c.1@)),
{
    let v = chars(s);
    let q = chars(p);
    match position(&v, &q) {
        Some(i) => {
            assert(v@.subrange(0, i as int) =~= v@.take(i as int));
            assert(v@.subrange(i + q@.len(), v@.len() as int) =~= v@.skip(i + q@.len()));
            Some((slice(&v, 0, i), slice(&v, i + q.len(), v.len())))
        },
        None => None,
    }
}

/// The text of `s` before the first occurrence of `p`, all of it if there is none.
pub open spec fn before(s: Seq<char>, p: Seq<char>) -> Seq<char> {
    match cut(s, p) {
        Some(c) => c.0,
        None => s,
    }
}

/// The text of `s` before the first occurrence of `p`, all of it if there is none.
pub fn until(s: &str, p: &str) -> (r: String)
    ensures
        r@ == before(s@, p@),
{
    match split_once(s, p) {
        Some((a, _)) => a,
        None => s.to_owned(),
    }
}

/// The characters that Unicode counts as white space.
pub open spec fn is_space(c: char) -> bool {
    let u = c as u32;
    ||| 9 <= u <= 13
    ||| u == 0x20
    ||| u == 0x85
    ||| u == 0xA0
    ||| u == 0x1680
    ||| 0x2000 <= u <= 0x200A
    ||| u == 0x2028
    ||| u == 0x2029
    ||| u == 0x202F
    ||| u == 0x205F
    ||| u == 0x3000
}

/// Whether `c` is white space.
pub fn space(c: char) -> (r: bool)
    ensures
        r == is_space(c),
{
    let u: u32 = c as u32;
    (9 <= u && u <= 13) || u == 0x20 || u == 0x85 || u == 0xA0 || u == 0x1680 || (0x2000 <= u
        && u <= 0x200A) || u == 0x2028 || u == 0x2029 || u == 0x202F || u == 0x205F || u == 0x3000
}

/// `s` without the leading characters of the kind `f`.
pub open spec fn trim_front(s: Seq<char>, f: spec_fn(char) -> bool) -> Seq<char>
    decreases s.len(),
{
    if s.len() > 0 && f(s[0]) {
        trim_front(s.drop_first(), f)
    } else {
        s
    }
}

/// `s` without the trailing characters of the kind `f`.
pub open spec fn trim_back(s: Seq<char>, f: spec_fn(char) -> bool) -> Seq<char>
    decreases s.len(),
{
    if s.len() > 0 && f(s.last()) {
        trim_back(s.drop_last(), f)
    } else {
        s
    }
}

/// The kind of character that is white space.
pub open spec fn any_space() -> spec_fn(char) -> bool {
    |c: char| is_space(c)
}

/// The kind of character that is `q`.
pub open spec fn is_char(q: char) -> spec_fn(char) -> bool {
    |c: char| c == q
}

/// `s` without white space at its ends.
pub open spec fn trimmed(s: Seq<char>) -> Seq<char> {
    trim_back(trim_front(s, any_space()), any_space())
}

/// `s` without the character `q` at its ends.
pub open spec fn unquoted(s: Seq<char>, q: char) -> Seq<char> {
    trim_back(trim_front(s, is_char(q)), is_char(q))
}

/// Whether `c` is `q`, or is white space where no `q` is given.
fn in_kind(c: char, q: Option<char>) -> (r: bool)
    ensures
        r == kind(q)(c),
{
    match q {
        Some(k) => c == k,
        None => space(c),
    }
}

/// The kind of character that `trim_ends` takes away.
spec fn kind(q: Option<char>) -> spec_fn(char) -> bool {
    match q {
        Some(k) => is_char(k),
        None => any_space(),
    }
}

/// `s` without characters of a kind at its ends.
fn trim_ends(s: &str, q: Option<char>) -> (r: String)
    ensures
        r@ == trim_back(trim_front(s@, kind(q)), kind(q)),
{
    let v = chars(s);
    let mut from: usize = 0;
    let ghost f = kind(q);
    assert(v@.skip(0) =~= v@);
    while from < v.len() && in_kind(v[from], q)
        invariant
            f == kind(q),
            from <= v@.len(),
            trim_front(v@, f) == trim_front(v@.skip(from as int), f),
        decreases v@.len() - from,
    {
        assert(v@.skip(from as int).drop_first() =~= v@.skip(from + 1));
        from = from + 1;
    }
    let ghost rest = v@.skip(from as int);
    assert(trim_front(v@, f) == rest);
    let mut to: usize = v.len();
    assert(rest.take(to - from) =~= rest);
    while to > from && in_kind(v[to - 1], q)
        invariant
            f == kind(q),
            from <= to <= v@.len(),
            rest == v@.skip(from as int),
            trim_back(rest, f) == trim_back(rest.take(to - from), f),
        decreases to,
    {
        assert(rest.take(to - from).drop_last() =~= rest.take(to - from - 1));
        assert(rest.take(to - from).last() == v@[to - 1]);
        to = to - 1;
    }
    proof {
        if to > from {
            assert(rest.take(to - from).last() == v@[to - 1]);
        }
        assert(rest.take(to - from) =~= v@.subrange(from as int, to as int));
    }
    slice(&v, from, to)
}

/// `s` without white space at its ends.
pub fn trim(s: &str) -> (r: String)
    ensures
        r@ == trimmed(s@),
{
    trim_ends(s, None)
}

/// `s` without the character `q` at its ends.
pub fn unquote(s: &str, q: char) -> (r: String)
    ensures
        r@ == unquoted(s@, q),
{
    trim_ends(s, Some(q))
}

/// The pieces of `s` between the occurrences of `c`; one more piece than occurrences.
pub open spec fn pieces(s: Seq<char>, c: char) -> Seq<Seq<char>>
    decreases s.len(),
{
    if s.len() == 0 {
        seq![Seq::empty()]
    } else {
        let head = pieces(s.drop_last(), c);
        if s.last() == c {
            head.push(Seq::empty())
        } else {
            head.drop_last().push(head.last().push(s.last()))
        }
    }
}

/// Splitting gives at least one piece.
pub proof fn pieces_nonempty(s: Seq<char>, c: char)
    ensures
        pieces(s, c).len() > 0,
    decreases s.len(),
{
    if s.len() > 0 {
        pieces_nonempty(s.drop_last(), c);
    }
}

/// There are at most one more pieces than characters.
pub proof fn pieces_bound(s: Seq<char>, c: char)
    ensures
        0 < pieces(s, c).len() <= s.len() + 1,
    decreases s.len(),
{
    if s.len() > 0 {
        pieces_bound(s.drop_last(), c);
    }
}

/// The pieces of `s` between the occurrences of `c`.
pub fn split(s: &str, c: char) -> (r: Vec<String>)
    ensures
        views(r@) == pieces(s@, c),
        r.len() > 0,
{
    let v = chars(s);
    let mut done: Vec<String> = Vec::new();
    let mut last = String::new();
    let mut i: usize = 0;
    assert(views(done@).push(last@) =~= pieces(v@.take(0), c));
    while i < v.len()
        invariant
            i <= v@.len(),
            views(done@).push(last@) == pieces(v@.take(i as int), c),
        decreases v@.len() - i,
    {
        proof {
            assert(v@.take(i + 1).drop_last() =~= v@.take(i as int));
            assert(views(done@).push(last@).drop_last() =~= views(done@));
            views_push(done@, last);
        }
        if v[i] == c {
            done.push(last);
            last = String::new();
            assert(last@ =~= Seq::<char>::empty());
        } else {
            last.push(v[i]);
        }
        i = i + 1;
    }
    proof {
        assert(v@.take(i as int) =~= v@);
        views_push(done@, last);
    }
    done.push(last);
    done
}

/// A line without the carriage return that ends it.
pub open spec fn without_return(s: Seq<char>) -> Seq<char> {
    if s.len() > 0 && s.last() == '\r' {
        s.drop_last()
    } else {
        s
    }
}

/// The lines of `s`: what line feeds end, each with a carriage return before the line
/// feed taken off, and what follows the last line feed unless it is empty.
pub open spec fn lines_of(s: Seq<char>) -> Seq<Seq<char>> {
    let p = pieces(s, '\n');
    let ended = p.drop_last().map_values(|l: Seq<char>| without_return(l));
    if p.last().len() == 0 {
        ended
    } else {
        ended.push(p.last())
    }
}

/// Whether a text stands on one line.
pub open spec fn unbroken(s: Seq<char>) -> bool {
    forall|i: int| 0 <= i < s.len() ==> s[i] != '\n'
}

proof fn pieces_of_unbroken(s: Seq<char>)
    requires
        unbroken(s),
    ensures
        pieces(s, '\n') == seq![s],
    decreases s.len(),
{
    if s.len() > 0 {
        pieces_of_unbroken(s.drop_last());
        assert(s.last() != '\n');
        assert(s.drop_last().push(s.last()) =~= s);
    } else {
        assert(s =~= Seq::empty());
    }
    assert(pieces(s, '\n') =~= seq![s]);
}

proof fn pieces_after_break(a: Seq<char>, rest: Seq<char>)
    requires
        unbroken(a),
    ensures
        pieces(a + seq!['\n'] + rest, '\n') == seq![a] + pieces(rest, '\n'),
    decreases rest.len(),
{
    let s = a + seq!['\n'] + rest;
    pieces_nonempty(rest, '\n');
    if rest.len() == 0 {
        pieces_of_unbroken(a);
        assert(s.drop_last() =~= a);
    } else {
        let fewer = rest.drop_last();
        pieces_after_break(a, fewer);
        pieces_nonempty(fewer, '\n');
        assert(s.drop_last() =~= a + seq!['\n'] + fewer);
        assert(s.last() == rest.last());
    }
    assert(pieces(s, '\n') =~= seq![a] + pieces(rest, '\n'));
}

/// The lines of a text whose first line is known.
pub proof fn lines_after_break(a: Seq<char>, rest: Seq<char>)
    requires
        unbroken(a),
    ensures
        lines_of(a + seq!['\n'] + rest) == seq![without_return(a)] + lines_of(rest),
{
    pieces_after_break(a, rest);
    pieces_nonempty(rest, '\n');
    assert(lines_of(a + seq!['\n'] + rest) =~= seq![without_return(a)] + lines_of(rest));
}

proof fn pieces_after_ended(a: Seq<char>, b: Seq<char>)
    requires
        a.len() > 0,
        a.last() == '\n',
    ensures
        pieces(a + b, '\n') == pieces(a, '\n').drop_last() + pieces(b, '\n'),
        pieces(a, '\n').last() == Seq::<char>::empty(),
    decreases b.len(),
{
    pieces_nonempty(b, '\n');
    if b.len() == 0 {
        assert(a + b =~= a);
    } else {
        pieces_after_ended(a, b.drop_last());
        pieces_nonempty(b.drop_last(), '\n');
        assert((a + b).drop_last() =~= a + b.drop_last());
    }
    assert(pieces(a + b, '\n') =~= pieces(a, '\n').drop_last() + pieces(b, '\n'));
}

/// Where a text ends with a line feed, or is empty, the lines of what follows come after its
/// own.
pub proof fn lines_are_appended(a: Seq<char>, b: Seq<char>)
    requires
        a.len() > 0 ==> a.last() == '\n',
    ensures
        lines_of(a + b) == lines_of(a) + lines_of(b),
{
    if a.len() == 0 {
        assert(a + b =~= b);
        assert(lines_of(a) =~= Seq::empty());
        assert(lines_of(a) + lines_of(b) =~= lines_of(b));
    } else {
        pieces_after_ended(a, b);
        pieces_nonempty(b, '\n');
        assert(lines_of(a + b) =~= lines_of(a) + lines_of(b));
    }
}

proof fn first_piece_begins(p: Seq<char>, rest: Seq<char>)
    requires
        unbroken(p),
    ensures
        pieces(p + rest, '\n').len() > 0,
        begins(pieces(p + rest, '\n')[0], p),
    decreases rest.len(),
{
    let s = p + rest;
    if rest.len() == 0 {
        pieces_of_unbroken(p);
        assert(s =~= p);
        assert(p.subrange(0, p.len() as int) =~= p);
    } else {
        let head = pieces(p + rest.drop_last(), '\n');
        first_piece_begins(p, rest.drop_last());
        assert(s.drop_last() =~= p + rest.drop_last());
        let first = pieces(s, '\n')[0];
        assert(first.subrange(0, p.len() as int) =~= head[0].subrange(0, p.len() as int));
    }
}

/// The first line of a text begins as the text does, up to a line break.
pub proof fn first_line_begins(p: Seq<char>, rest: Seq<char>)
    requires
        unbroken(p),
        p.len() > 0,
        p.last() != '\r',
    ensures
        lines_of(p + rest).len() > 0,
        begins(lines_of(p + rest)[0], p),
{
    first_piece_begins(p, rest);
    let first = pieces(p + rest, '\n')[0];
    let line = without_return(first);
    assert(p.last() == first.subrange(0, p.len() as int)[p.len() - 1]);
    assert(line.subrange(0, p.len() as int) =~= first.subrange(0, p.len() as int));
}

/// A text that stands on one line is its only line, and there is none in nothing.
pub proof fn lines_of_unbroken(s: Seq<char>)
    requires
        unbroken(s),
    ensures
        lines_of(s) == (if s.len() == 0 {
            Seq::empty()
        } else {
            seq![s]
        }),
{
    pieces_of_unbroken(s);
    assert(lines_of(s) =~= (if s.len() == 0 {
        Seq::empty()
    } else {
        seq![s]
    }));
}

/// No line of a text holds a line break.
pub proof fn lines_are_unbroken(s: Seq<char>, i: int)
    requires
        0 <= i < lines_of(s).len(),
    ensures
        unbroken(lines_of(s)[i]),
{
    pieces_nonempty(s, '\n');
    if i < pieces(s, '\n').len() - 1 {
        pieces_are_unbroken(s, i);
    } else {
        pieces_are_unbroken(s, pieces(s, '\n').len() - 1);
    }
}

/// There is a line in every text that is not empty, and none in one that is.
pub proof fn lines_of_something(s: Seq<char>)
    ensures
        lines_of(s).len() > 0 <==> s.len() > 0,
{
    if s.len() > 0 {
        pieces_nonempty(s.drop_last(), '\n');
    } else {
        assert(pieces(s, '\n').last() =~= Seq::empty());
    }
}

/// Whether a text holds no carriage return.
pub open spec fn no_returns(s: Seq<char>) -> bool {
    forall|i: int| 0 <= i < s.len() ==> s[i] != '\r'
}

proof fn pieces_hold_no_return(s: Seq<char>, i: int)
    requires
        no_returns(s),
        0 <= i < pieces(s, '\n').len(),
    ensures
        no_returns(pieces(s, '\n')[i]),
    decreases s.len(),
{
    if s.len() > 0 {
        let head = pieces(s.drop_last(), '\n');
        pieces_nonempty(s.drop_last(), '\n');
        assert(no_returns(s.drop_last()));
        if i < head.len() - 1 || (s.last() == '\n' && i < head.len()) {
            pieces_hold_no_return(s.drop_last(), i);
        } else if s.last() != '\n' {
            pieces_hold_no_return(s.drop_last(), head.len() - 1);
        }
    }
}

/// A line of a text without carriage returns holds none.
pub proof fn lines_hold_no_return(s: Seq<char>, i: int)
    requires
        no_returns(s),
        0 <= i < lines_of(s).len(),
    ensures
        no_returns(lines_of(s)[i]),
{
    pieces_nonempty(s, '\n');
    if i < pieces(s, '\n').len() - 1 {
        pieces_hold_no_return(s, i);
    } else {
        pieces_hold_no_return(s, pieces(s, '\n').len() - 1);
    }
}

proof fn pieces_are_unbroken(s: Seq<char>, i: int)
    requires
        0 <= i < pieces(s, '\n').len(),
    ensures
        unbroken(pieces(s, '\n')[i]),
    decreases s.len(),
{
    if s.len() > 0 {
        let head = pieces(s.drop_last(), '\n');
        pieces_nonempty(s.drop_last(), '\n');
        if i < head.len() - 1 || (s.last() == '\n' && i < head.len()) {
            pieces_are_unbroken(s.drop_last(), i);
        } else if s.last() != '\n' {
            pieces_are_unbroken(s.drop_last(), head.len() - 1);
        }
    }
}

/// `s` without a carriage return at its end.
fn drop_return(s: &str) -> (r: String)
    ensures
        r@ == without_return(s@),
{
    let v = chars(s);
    if v.len() > 0 && v[v.len() - 1] == '\r' {
        assert(v@.subrange(0, v@.len() - 1) =~= v@.drop_last());
        slice(&v, 0, v.len() - 1)
    } else {
        s.to_owned()
    }
}

/// The lines of `s`.
pub fn lines(s: &str) -> (r: Vec<String>)
    ensures
        views(r@) == lines_of(s@),
{
    let p = split(s, '\n');
    let ghost parts = pieces(s@, '\n');
    let last: usize = p.len() - 1;
    let mut r: Vec<String> = Vec::new();
    let mut i: usize = 0;
    let ghost ended = parts.drop_last().map_values(|l: Seq<char>| without_return(l));
    while i < last
        invariant
            last == p@.len() - 1,
            parts == views(p@),
            ended == parts.drop_last().map_values(|l: Seq<char>| without_return(l)),
            i <= last,
            views(r@) == ended.take(i as int),
        decreases last - i,
    {
        let line = drop_return(p[i].as_str());
        proof {
            views_push(r@, line);
            assert(parts[i as int] == p@[i as int]@);
        }
        r.push(line);
        i = i + 1;
    }
    proof {
        assert(ended.take(last as int) =~= ended);
        assert(parts.last() == p@[last as int]@);
    }
    if !p[last].as_str().is_empty() {
        proof {
            views_push(r@, p@[last as int]);
        }
        r.push(p[last].clone());
    }
    r
}

/// The words of `s`: its longest runs of characters that are not white space.
pub open spec fn words_of(s: Seq<char>) -> Seq<Seq<char>>
    decreases s.len(),
{
    if s.len() == 0 {
        Seq::empty()
    } else {
        let head = words_of(s.drop_last());
        if is_space(s.last()) {
            head
        } else if s.len() == 1 || is_space(s[s.len() - 2]) {
            head.push(seq![s.last()])
        } else {
            head.drop_last().push(head.last().push(s.last()))
        }
    }
}

/// The words of `s`.
pub fn words(s: &str) -> (r: Vec<String>)
    ensures
        views(r@) == words_of(s@),
{
    let v = chars(s);
    let mut r: Vec<String> = Vec::new();
    let mut word = String::new();
    let mut open = false;
    let mut i: usize = 0;
    assert(views(r@) =~= words_of(v@.take(0)));
    while i < v.len()
        invariant
            i <= v@.len(),
            open == (i > 0 && !is_space(v@[i - 1])),
            open ==> views(r@).push(word@) == words_of(v@.take(i as int)),
            !open ==> views(r@) == words_of(v@.take(i as int)) && word@.len() == 0,
        decreases v@.len() - i,
    {
        proof {
            let t = v@.take(i + 1);
            assert(t.drop_last() =~= v@.take(i as int));
            assert(views(r@).push(word@).drop_last() =~= views(r@));
            views_push(r@, word);
            assert(i > 0 ==> t[t.len() - 2] == v@[i - 1]);
            assert(word@.len() == 0 ==> word@.push(v@[i as int]) =~= seq![v@[i as int]]);
        }
        if space(v[i]) {
            if open {
                r.push(word);
                word = String::new();
                open = false;
            }
        } else {
            word.push(v[i]);
            open = true;
        }
        i = i + 1;
    }
    proof {
        assert(v@.take(i as int) =~= v@);
        views_push(r@, word);
    }
    if open {
        r.push(word);
    }
    r
}

/// The parts with `sep` between each two of them.
pub open spec fn joined(parts: Seq<Seq<char>>, sep: Seq<char>) -> Seq<char>
    decreases parts.len(),
{
    if parts.len() == 0 {
        Seq::empty()
    } else if parts.len() == 1 {
        parts[0]
    } else {
        joined(parts.drop_last(), sep) + sep + parts.last()
    }
}

/// The parts with `sep` between each two of them.
pub fn join(parts: &Vec<String>, sep: &str) -> (r: String)
    ensures
        r@ == joined(views(parts@), sep@),
{
    let mut r = String::new();
    let mut i: usize = 0;
    let ghost all = views(parts@);
    while i < parts.len()
        invariant
            i <= parts@.len(),
            all == views(parts@),
            r@ == joined(all.take(i as int), sep@),
        decreases parts@.len() - i,
    {
        proof {
            assert(all.take(i + 1).drop_last() =~= all.take(i as int));
            assert(all[i as int] == parts@[i as int]@);
        }
        if i > 0 {
            r.append(sep);
        }
        r.append(parts[i].as_str());
        proof {
            if i == 0 {
                assert(r@ =~= all.take(1)[0]);
            }
        }
        i = i + 1;
    }
    assert(all.take(i as int) =~= all);
    r
}

/// Two texts one after the other.
pub fn concat(a: &str, b: &str) -> (r: String)
    ensures
        r@ == a@ + b@,
{
    let mut r = a.to_owned();
    r.append(b);
    r
}

/// Three texts one after the other.
pub fn concat3(a: &str, b: &str, c: &str) -> (r: String)
    ensures
        r@ == a@ + b@ + c@,
{
    let mut r = a.to_owned();
    r.append(b);
    r.append(c);
    r
}

/// The digit that stands for `d` in a base of up to sixteen.
pub open spec fn digit(d: nat) -> char {
    if d < 10 {
        ('0' as nat + d) as char
    } else {
        ('a' as nat + (d - 10)) as char
    }
}

/// The number `n` in the base `base`, without leading zeros.
pub open spec fn numeral(n: nat, base: nat) -> Seq<char>
    decreases n,
{
    if base < 2 || n < base {
        seq![digit(n)]
    } else {
        proof {
            assert(n / base < n) by (nonlinear_arith)
                requires
                    2 <= base <= n,
            ;
        }
        numeral(n / base, base).push(digit(n % base))
    }
}

/// The digit that stands for `d`.
fn digit_char(d: u8) -> (c: char)
    requires
        d < 16,
    ensures
        c == digit(d as nat),
{
    if d < 10 {
        (48u8 + d) as char
    } else {
        (97u8 + (d - 10)) as char
    }
}

/// The number `n` in the base `base`, without leading zeros.
pub fn number(n: u64, base: u64) -> (r: String)
    requires
        2 <= base <= 16,
    ensures
        r@ == numeral(n as nat, base as nat),
    decreases n,
{
    if n < base {
        let mut r = String::new();
        r.push(digit_char(n as u8));
        assert(r@ =~= seq![digit(n as nat)]);
        r
    } else {
        assert(n / base < n) by (nonlinear_arith)
            requires
                2 <= base <= n,
        ;
        assert(n % base < base) by (nonlinear_arith)
            requires
                2 <= base,
        ;
        let mut r = number(n / base, base);
        r.push(digit_char((n % base) as u8));
        r
    }
}

/// A number in decimal stands on one line.
pub proof fn numerals_are_unbroken(n: nat)
    ensures
        unbroken(numeral(n, 10)),
        numeral(n, 10).len() > 0,
    decreases n,
{
    if n >= 10 {
        numerals_are_unbroken(n / 10);
    }
}

/// The number `n` in decimal.
pub open spec fn decimal(n: nat) -> Seq<char> {
    numeral(n, 10)
}

/// Two numbers are never written alike.
pub proof fn decimals_differ(a: nat, b: nat)
    requires
        a != b,
    ensures
        decimal(a) != decimal(b),
    decreases a,
{
    if a >= 10 && b >= 10 {
        let (s, t) = (decimal(a), decimal(b));
        assert(s.drop_last() =~= decimal(a / 10));
        assert(t.drop_last() =~= decimal(b / 10));
        if a / 10 != b / 10 {
            decimals_differ(a / 10, b / 10);
        } else {
            assert(s.last() == digit(a % 10) && t.last() == digit(b % 10));
        }
    } else if a < 10 && b < 10 {
        assert(decimal(a)[0] == digit(a) && decimal(b)[0] == digit(b));
    } else if a < 10 {
        numerals_are_written(b / 10);
        assert(decimal(b).len() == decimal(b / 10).len() + 1);
    } else {
        numerals_are_written(a / 10);
        assert(decimal(a).len() == decimal(a / 10).len() + 1);
    }
}

/// A number is written with at least one digit.
proof fn numerals_are_written(n: nat)
    ensures
        decimal(n).len() > 0,
{
}

/// The integer `n` in decimal, with a minus sign where it is negative.
pub open spec fn signed_decimal(n: int) -> Seq<char> {
    if n < 0 {
        seq!['-'] + decimal((-n) as nat)
    } else {
        decimal(n as nat)
    }
}

/// The integer `n` in decimal.
pub fn signed_number(n: i64) -> (r: String)
    ensures
        r@ == signed_decimal(n as int),
{
    if n < 0 {
        let m: u64 = (-(n as i128)) as u64;
        let mut r = String::new();
        r.push('-');
        r.append(number(m, 10).as_str());
        assert(r@ =~= seq!['-'] + decimal(m as nat));
        r
    } else {
        number(n as u64, 10)
    }
}

/// `s` with zeros before it up to a width.
pub open spec fn zero_padded(s: Seq<char>, width: nat) -> Seq<char> {
    if s.len() >= width {
        s
    } else {
        Seq::new((width - s.len()) as nat, |i: int| '0') + s
    }
}

/// The number `n` in base sixteen, with zeros before it up to a width of sixteen.
pub fn hex16(n: u64) -> (r: String)
    ensures
        r@ == zero_padded(numeral(n as nat, 16), 16),
{
    let digits = chars(number(n, 16).as_str());
    let mut r = String::new();
    let mut i: usize = digits.len();
    while i < 16
        invariant
            digits@.len() <= i,
            i <= 16 || i == digits@.len(),
            r@ == Seq::new((i - digits@.len()) as nat, |k: int| '0'),
        decreases 16 - i,
    {
        r.push('0');
        assert(r@ =~= Seq::new((i + 1 - digits@.len()) as nat, |k: int| '0'));
        i = i + 1;
    }
    let tail = slice(&digits, 0, digits.len());
    assert(digits@.subrange(0, digits@.len() as int) =~= digits@);
    r.append(tail.as_str());
    assert(digits@.len() >= 16 ==> r@ =~= digits@);
    r
}

/// Whether `c` is a decimal digit.
pub open spec fn is_digit(c: char) -> bool {
    '0' <= c <= '9'
}

/// The number that the decimal digits `s` stand for.
pub open spec fn digits_value(s: Seq<char>) -> nat
    decreases s.len(),
{
    if s.len() == 0 {
        0
    } else {
        10 * digits_value(s.drop_last()) + (s.last() as nat - '0' as nat) as nat
    }
}

/// `s` without a plus sign before it.
pub open spec fn unsigned_part(s: Seq<char>) -> Seq<char> {
    if s.len() > 0 && s[0] == '+' {
        s.skip(1)
    } else {
        s
    }
}

/// Whether `s` holds decimal digits only.
pub open spec fn all_digits(s: Seq<char>) -> bool {
    forall|i: int| 0 <= i < s.len() ==> is_digit(#[trigger] s[i])
}

/// The number that `s` writes: decimal digits, with a plus sign before them or not, for
/// a number that is at most `max`.
pub open spec fn read_number(s: Seq<char>, max: nat) -> Option<nat> {
    let d = unsigned_part(s);
    if d.len() > 0 && all_digits(d) && digits_value(d) <= max {
        Some(digits_value(d))
    } else {
        None
    }
}

/// A number that is written in decimal is read back.
pub proof fn decimals_are_read_back(n: nat, max: nat)
    requires
        n <= max,
    ensures
        decimal(n).len() > 0,
        all_digits(decimal(n)),
        digits_value(decimal(n)) == n,
        read_number(decimal(n), max) == Some(n),
    decreases n,
{
    let s = decimal(n);
    if n >= 10 {
        decimals_are_read_back(n / 10, max);
        assert(s.drop_last() =~= decimal(n / 10));
        assert(s.last() == digit(n % 10));
        assert forall|i: int| 0 <= i < s.len() implies is_digit(#[trigger] s[i]) by {
            if i < s.len() - 1 {
                assert(s[i] == decimal(n / 10)[i]);
            }
        }
    } else {
        assert(s.drop_last() =~= Seq::empty());
        assert(digits_value(s.drop_last()) == 0);
        assert(s.last() == digit(n));
    }
    assert(is_digit(s[0]));
}

/// Whether a text holds no white space.
pub open spec fn unspaced(s: Seq<char>) -> bool {
    forall|i: int| 0 <= i < s.len() ==> !is_space(#[trigger] s[i])
}

/// A text without white space is its only word.
pub proof fn words_of_unspaced(s: Seq<char>)
    requires
        s.len() > 0,
        unspaced(s),
    ensures
        words_of(s) == seq![s],
    decreases s.len(),
{
    assert(s.last() == s[s.len() - 1]);
    if s.len() == 1 {
        assert(words_of(s.drop_last()) =~= Seq::empty());
        assert(s =~= seq![s.last()]);
    } else {
        let head = s.drop_last();
        assert forall|i: int| 0 <= i < head.len() implies !is_space(#[trigger] head[i]) by {
            assert(head[i] == s[i]);
        }
        words_of_unspaced(head);
        assert(!is_space(s[s.len() - 2]));
        assert(head.push(s.last()) =~= s);
    }
    assert(words_of(s) =~= seq![s]);
}

/// Two texts without white space are the words of what a space between them gives.
pub proof fn two_words(a: Seq<char>, b: Seq<char>)
    requires
        a.len() > 0,
        b.len() > 0,
        unspaced(a),
        unspaced(b),
    ensures
        words_of(a + seq![' '] + b) == seq![a, b],
    decreases b.len(),
{
    let s = a + seq![' '] + b;
    assert(s.last() == b[b.len() - 1]);
    assert(is_space(' '));
    if b.len() == 1 {
        let head = s.drop_last();
        assert(head.last() == ' ');
        assert(head.drop_last() =~= a);
        assert(words_of(head) == words_of(a));
        words_of_unspaced(a);
        assert(words_of(s) == words_of(head).push(seq![s.last()]));
        assert(s[s.len() - 2] == ' ');
        assert(seq![s.last()] =~= b);
    } else {
        let fewer = b.drop_last();
        assert forall|i: int| 0 <= i < fewer.len() implies !is_space(#[trigger] fewer[i]) by {
            assert(fewer[i] == b[i]);
        }
        two_words(a, fewer);
        assert(s.drop_last() =~= a + seq![' '] + fewer);
        assert(s[s.len() - 2] == b[b.len() - 2]);
        assert(fewer.push(b.last()) =~= b);
        assert(words_of(s) =~= seq![a].push(fewer.push(s.last())));
    }
    assert(words_of(s) =~= seq![a, b]);
}

/// The number of at most 32 bits that `s` writes.
pub fn parse_u32(s: &str) -> (r: Option<u32>)
    ensures
        r is Some == read_number(s@, u32::MAX as nat) is Some,
        r matches Some(n) ==> read_number(s@, u32::MAX as nat) == Some(n as nat),
{
    let v = chars(s);
    let from: usize = if v.len() > 0 && v[0] == '+' {
        1
    } else {
        0
    };
    let ghost d = unsigned_part(s@);
    assert(d =~= v@.skip(from as int));
    if from == v.len() {
        return None;
    }
    let mut i: usize = from;
    let mut value: u64 = 0;
    let mut over = false;
    while i < v.len()
        invariant
            from <= i <= v@.len(),
            d == v@.skip(from as int),
            d == unsigned_part(s@),
            forall|k: int| 0 <= k < i - from ==> is_digit(d[k]),
            !over ==> value <= u32::MAX && value == digits_value(d.take(i - from)),
            over ==> digits_value(d.take(i - from)) > u32::MAX,
        decreases v@.len() - i,
    {
        let c = v[i];
        assert(d[i - from] == c);
        if c < '0' || c > '9' {
            assert(!is_digit(d[i - from]));
            return None;
        }
        assert(d.take(i - from + 1).drop_last() =~= d.take(i - from));
        if !over {
            value = 10 * value + (c as u64 - 48);
            if value > u32::MAX as u64 {
                over = true;
            }
        }
        i = i + 1;
    }
    assert(d.take(i - from) =~= d);
    if over {
        None
    } else {
        Some(value as u32)
    }
}

/// Whether `a` comes before `b` in the order of code points.
pub open spec fn text_lt(a: Seq<char>, b: Seq<char>) -> bool
    decreases a.len(),
{
    if b.len() == 0 {
        false
    } else if a.len() == 0 {
        true
    } else if a[0] != b[0] {
        a[0] < b[0]
    } else {
        text_lt(a.drop_first(), b.drop_first())
    }
}

/// Of two texts one comes before the other, unless they are the same.
pub proof fn text_lt_total(a: Seq<char>, b: Seq<char>)
    ensures
        text_lt(a, b) || text_lt(b, a) || a == b,
        !(text_lt(a, b) && text_lt(b, a)),
        !text_lt(a, a),
    decreases a.len(),
{
    if a.len() > 0 {
        text_lt_total(a.drop_first(), a.drop_first());
        if b.len() > 0 && a[0] == b[0] {
            text_lt_total(a.drop_first(), b.drop_first());
            if a.drop_first() == b.drop_first() {
                assert(a =~= seq![a[0]] + a.drop_first());
                assert(b =~= seq![b[0]] + b.drop_first());
            }
        }
    } else if b.len() == 0 {
        assert(a =~= b);
    }
}

/// The order is transitive.
pub proof fn text_lt_transitive(a: Seq<char>, b: Seq<char>, c: Seq<char>)
    requires
        text_lt(a, b),
        text_lt(b, c),
    ensures
        text_lt(a, c),
    decreases a.len(),
{
    if a.len() > 0 && b.len() > 0 && c.len() > 0 && a[0] == b[0] && b[0] == c[0] {
        text_lt_transitive(a.drop_first(), b.drop_first(), c.drop_first());
    }
}

/// Whether `a` comes before `b`.
pub fn less(a: &str, b: &str) -> (r: bool)
    ensures
        r == text_lt(a@, b@),
{
    let x = chars(a);
    let y = chars(b);
    let mut i: usize = 0;
    assert(x@.skip(0) =~= x@);
    assert(y@.skip(0) =~= y@);
    while i < x.len() && i < y.len()
        invariant
            i <= x.len(),
            i <= y.len(),
            x@ == a@,
            y@ == b@,
            text_lt(x@, y@) == text_lt(x@.skip(i as int), y@.skip(i as int)),
        decreases x.len() - i,
    {
        if x[i] != y[i] {
            return x[i] < y[i];
        }
        assert(x@.skip(i as int).drop_first() =~= x@.skip(i + 1));
        assert(y@.skip(i as int).drop_first() =~= y@.skip(i + 1));
        i = i + 1;
    }
    i < y.len()
}

/// Whether each text comes before the next ones, so that none stands twice.
pub open spec fn increasing(s: Seq<Seq<char>>) -> bool {
    forall|i: int, j: int| 0 <= i < j < s.len() ==> text_lt(#[trigger] s[i], #[trigger] s[j])
}

/// Whether `r` holds the texts of `s`, each once and in order.
pub open spec fn is_sorted_set(r: Seq<Seq<char>>, s: Seq<Seq<char>>) -> bool {
    &&& increasing(r)
    &&& forall|x: Seq<char>| #[trigger] r.contains(x) <==> s.contains(x)
}

/// The texts of `s`, each once and in order.
pub open spec fn sorted_distinct(s: Seq<Seq<char>>) -> Seq<Seq<char>> {
    choose|r: Seq<Seq<char>>| is_sorted_set(r, s)
}

/// Two sequences that hold the texts of one sequence, each once and in order, are the same.
pub proof fn sorted_set_is_unique(a: Seq<Seq<char>>, b: Seq<Seq<char>>, s: Seq<Seq<char>>)
    requires
        is_sorted_set(a, s),
        is_sorted_set(b, s),
    ensures
        a == b,
    decreases a.len(),
{
    if a.len() == 0 || b.len() == 0 {
        if b.len() > 0 {
            assert(b.contains(b[0]));
            assert(a.contains(b[0]));
        }
        if a.len() > 0 {
            assert(a.contains(a[0]));
            assert(b.contains(a[0]));
        }
        assert(a =~= b);
    } else {
        let x = a.last();
        let y = b.last();
        assert(a.contains(x) && b.contains(y));
        assert(b.contains(x) && a.contains(y));
        let i = b.index_of(x);
        let j = a.index_of(y);
        assert(b[i] == x && a[j] == y);
        if i < b.len() - 1 && j < a.len() - 1 {
            assert(text_lt(b[i], b[b.len() - 1]));
            assert(text_lt(a[j], a[a.len() - 1]));
            text_lt_total(x, y);
        }
        text_lt_total(x, x);
        assert(x == y);
        let ra = a.drop_last();
        let rb = b.drop_last();
        let rest = ra;
        assert forall|z: Seq<char>| #[trigger] rb.contains(z) <==> rest.contains(z) by {
            if rb.contains(z) {
                let k = rb.index_of(z);
                assert(b[k] == z);
                assert(b.contains(z));
                assert(a.contains(z));
                let m = a.index_of(z);
                assert(a[m] == z);
                assert(text_lt(b[k], b[b.len() - 1]));
                text_lt_total(z, x);
                assert(m != a.len() - 1);
                assert(ra[m] == z);
            }
            if ra.contains(z) {
                let k = ra.index_of(z);
                assert(a[k] == z);
                assert(a.contains(z));
                assert(b.contains(z));
                let m = b.index_of(z);
                assert(b[m] == z);
                assert(text_lt(a[k], a[a.len() - 1]));
                text_lt_total(z, x);
                assert(m != b.len() - 1);
                assert(rb[m] == z);
            }
        }
        sorted_set_is_unique(ra, rb, rest);
        assert(a =~= ra.push(x));
        assert(b =~= rb.push(y));
    }
}

/// The texts of `v`, each once and in order.
pub fn sorted_set(v: &Vec<String>) -> (r: Vec<String>)
    ensures
        is_sorted_set(views(r@), views(v@)),
        views(r@) == sorted_distinct(views(v@)),
{
    let mut r: Vec<String> = Vec::new();
    let ghost all = views(v@);
    let mut n: usize = 0;
    while n < v.len()
        invariant
            all == views(v@),
            n <= v.len(),
            is_sorted_set(views(r@), all.take(n as int)),
        decreases v.len() - n,
    {
        let ghost old = views(r@);
        let ghost new = v@[n as int]@;
        assert(all[n as int] == new);
        let mut i: usize = 0;
        while i < r.len() && less(r[i].as_str(), v[n].as_str())
            invariant
                old == views(r@),
                n < v.len(),
                new == v@[n as int]@,
                i <= r.len(),
                forall|k: int| 0 <= k < i ==> text_lt(#[trigger] old[k], new),
            decreases r.len() - i,
        {
            i = i + 1;
        }
        let known = i < r.len() && same(r[i].as_str(), v[n].as_str());
        assert(i < r@.len() ==> old[i as int] == r@[i as int]@);
        if !known {
            r.insert(i, v[n].clone());
        }
        proof {
            text_lt_total(new, new);
            if i < old.len() {
                text_lt_total(old[i as int], new);
            }
            assert forall|x: Seq<char>| #[trigger]
                views(r@).contains(x) <==> all.take(n + 1).contains(x) by {
                let a = all.take(n as int);
                let b = all.take(n + 1);
                assert(b =~= a.push(new));
                if b.contains(x) {
                    let k = b.index_of(x);
                    if k < a.len() {
                        assert(a[k] == x);
                        assert(a.contains(x));
                        assert(old.contains(x));
                        let m = old.index_of(x);
                        if known || m < i {
                            assert(views(r@)[m] == x);
                        } else {
                            assert(views(r@)[m + 1] == x);
                        }
                    } else {
                        assert(views(r@)[i as int] == x);
                    }
                }
                if views(r@).contains(x) {
                    let m = views(r@).index_of(x);
                    if known || m < i {
                        assert(old[m] == x);
                        assert(old.contains(x));
                    } else if m > i {
                        assert(old[m - 1] == x);
                        assert(old.contains(x));
                    }
                    if old.contains(x) {
                        assert(a.contains(x));
                        let k = a.index_of(x);
                        assert(b[k] == x);
                    } else {
                        assert(b[n as int] == x);
                    }
                }
            }
            if !known {
                assert(views(r@) =~= old.insert(i as int, new));
                assert forall|j: int| i <= j < old.len() implies text_lt(new, #[trigger] old[j]) by {
                    if j > i {
                        assert(text_lt(old[i as int], old[j]));
                        text_lt_transitive(new, old[i as int], old[j]);
                    }
                }
            }
        }
        n = n + 1;
    }
    proof {
        assert(all.take(n as int) =~= all);
        sorted_set_is_unique(views(r@), sorted_distinct(all), all);
    }
    r
}

/// The texts that are not empty once white space at their ends is taken off, without it.
pub open spec fn trimmed_nonempty(s: Seq<Seq<char>>) -> Seq<Seq<char>>
    decreases s.len(),
{
    if s.len() == 0 {
        Seq::empty()
    } else {
        let head = trimmed_nonempty(s.drop_last());
        if trimmed(s.last()).len() > 0 {
            head.push(trimmed(s.last()))
        } else {
            head
        }
    }
}

/// See [`trimmed_nonempty`].
pub fn trim_nonempty(v: &Vec<String>) -> (r: Vec<String>)
    ensures
        views(r@) == trimmed_nonempty(views(v@)),
{
    let mut r: Vec<String> = Vec::new();
    let ghost all = views(v@);
    let mut i: usize = 0;
    assert(views(r@) =~= trimmed_nonempty(all.take(0)));
    while i < v.len()
        invariant
            all == views(v@),
            i <= v.len(),
            views(r@) == trimmed_nonempty(all.take(i as int)),
        decreases v.len() - i,
    {
        let t = trim(v[i].as_str());
        proof {
            assert(all.take(i + 1).drop_last() =~= all.take(i as int));
            assert(all[i as int] == v@[i as int]@);
            views_push(r@, t);
        }
        if !t.as_str().is_empty() {
            r.push(t);
        }
        i = i + 1;
    }
    assert(all.take(i as int) =~= all);
    r
}

/// Whether `x` is among the texts of `v`.
pub fn among(v: &Vec<String>, x: &str) -> (r: bool)
    ensures
        r == views(v@).contains(x@),
{
    let mut i: usize = 0;
    while i < v.len()
        invariant
            i <= v.len(),
            forall|k: int| 0 <= k < i ==> views(v@)[k] != x@,
        decreases v.len() - i,
    {
        if same(v[i].as_str(), x) {
            assert(views(v@)[i as int] == x@);
            return true;
        }
        i = i + 1;
    }
    false
}

/// The small letter of an ASCII letter, and any other character itself.
pub open spec fn ascii_lower(c: char) -> char {
    if 'A' <= c <= 'Z' {
        (c as u32 + 32) as char
    } else {
        c
    }
}

/// A text with the small letters of its ASCII letters.
pub open spec fn ascii_folded(s: Seq<char>) -> Seq<char> {
    s.map_values(|c: char| ascii_lower(c))
}

/// See [`ascii_folded`].
pub fn fold_ascii(s: &str) -> (r: String)
    ensures
        r@ == ascii_folded(s@),
{
    let v = chars(s);
    let mut r = String::new();
    let mut i: usize = 0;
    while i < v.len()
        invariant
            i <= v.len(),
            r@ == ascii_folded(v@).take(i as int),
        decreases v.len() - i,
    {
        let c = v[i];
        let d = if 'A' <= c && c <= 'Z' {
            ((c as u8) + 32) as char
        } else {
            c
        };
        assert(ascii_folded(v@).take(i + 1) =~= ascii_folded(v@).take(i as int).push(d));
        r.push(d);
        i = i + 1;
    }
    assert(ascii_folded(v@).take(i as int) =~= ascii_folded(v@));
    r
}

/// Whether `p` stands somewhere in `s`.
pub open spec fn has_part(s: Seq<char>, p: Seq<char>) -> bool {
    exists|i: int| #[trigger] occurs_at(s, p, i)
}

/// What is put between two texts stands in the whole.
pub proof fn parts_are_held(a: Seq<char>, p: Seq<char>, b: Seq<char>)
    ensures
        has_part(a + p + b, p),
{
    let s = a + p + b;
    assert(s.subrange(a.len() as int, a.len() as int + p.len() as int) =~= p);
    assert(occurs_at(s, p, a.len() as int));
}

/// A part of a part is a part of the whole.
pub proof fn parts_of_parts(a: Seq<char>, s: Seq<char>, b: Seq<char>, p: Seq<char>)
    requires
        has_part(s, p),
    ensures
        has_part(a + s + b, p),
{
    let i = choose|i: int| #[trigger] occurs_at(s, p, i);
    let all = a + s + b;
    let k = a.len() as int + i;
    assert(all.subrange(k, k + p.len() as int) =~= s.subrange(i, i + p.len() as int));
    assert(occurs_at(all, p, k));
}

/// What is printed on paper with ASCII is not white space, and blanks and line ends are.
pub proof fn blanks_are_white_space(c: char)
    requires
        (c as u32) < 128,
    ensures
        is_space(c) <==> c == ' ' || c == '\t' || c == '\n' || c == '\r' || c == '\x0b' || c
            == '\x0c',
{
}

proof fn trim_front_cuts(s: Seq<char>, f: spec_fn(char) -> bool)
    ensures
        ({
            let r = trim_front(s, f);
            let k = s.len() - r.len();
            &&& 0 <= k <= s.len()
            &&& r == s.skip(k)
            &&& forall|i: int| 0 <= i < k ==> f(#[trigger] s[i])
            &&& r.len() > 0 ==> !f(r[0])
        }),
    decreases s.len(),
{
    if s.len() > 0 && f(s[0]) {
        let rest = s.drop_first();
        trim_front_cuts(rest, f);
        let r = trim_front(s, f);
        let k = s.len() - r.len();
        assert(r =~= s.skip(k));
        assert forall|i: int| 0 <= i < k implies f(#[trigger] s[i]) by {
            if i > 0 {
                assert(s[i] == rest[i - 1]);
            }
        }
    } else {
        assert(s.skip(0) =~= s);
    }
}

proof fn trim_back_cuts(s: Seq<char>, f: spec_fn(char) -> bool)
    ensures
        ({
            let r = trim_back(s, f);
            &&& r.len() <= s.len()
            &&& r == s.take(r.len() as int)
            &&& forall|i: int| r.len() <= i < s.len() ==> f(#[trigger] s[i])
            &&& r.len() > 0 ==> !f(r.last())
        }),
    decreases s.len(),
{
    if s.len() > 0 && f(s.last()) {
        let rest = s.drop_last();
        trim_back_cuts(rest, f);
        let r = trim_back(s, f);
        assert(r =~= s.take(r.len() as int));
        assert forall|i: int| r.len() <= i < s.len() implies f(#[trigger] s[i]) by {
            if i < s.len() - 1 {
                assert(s[i] == rest[i]);
            }
        }
    } else {
        assert(s.take(s.len() as int) =~= s);
    }
}

/// Trimming takes white space from the ends, all of it, and nothing else: what is left is a run
/// of the text with white space alone before and after it, and has none at its own ends.
pub proof fn trimming_takes_white_space_alone(s: Seq<char>)
    ensures
        exists|i: int, j: int|
            0 <= i <= j <= s.len() && trimmed(s) == #[trigger] s.subrange(i, j) && (forall|k: int|
                (0 <= k < i || j <= k < s.len()) ==> is_space(#[trigger] s[k])),
        trimmed(s).len() > 0 ==> !is_space(trimmed(s)[0]) && !is_space(trimmed(s).last()),
        s.len() > 0 && !is_space(s[0]) && !is_space(s.last()) ==> trimmed(s) == s,
        s.len() == 0 ==> trimmed(s).len() == 0,
{
    let f = any_space();
    let front = trim_front(s, f);
    let r = trim_back(front, f);
    trim_front_cuts(s, f);
    trim_back_cuts(front, f);
    let i = s.len() - front.len();
    let j = i + r.len();
    assert(r =~= s.subrange(i, j));
    assert forall|k: int| (0 <= k < i || j <= k < s.len()) implies is_space(#[trigger] s[k]) by {
        if k >= j {
            assert(f(front[k - i]));
            assert(s[k] == front[k - i]);
        } else {
            assert(f(s[k]));
        }
    }
    if r.len() > 0 {
        assert(r[0] == front[0]);
        assert(!f(front[0]));
        assert(!f(r.last()));
    }
}

/// Joined lines are parted again into the same lines.
pub proof fn joined_lines_are_parted(parts: Seq<Seq<char>>)
    requires
        parts.len() > 0,
        forall|i: int| 0 <= i < parts.len() ==> unbroken(#[trigger] parts[i]),
    ensures
        pieces(joined(parts, "\n"@), '\n') == parts,
    decreases parts.len(),
{
    reveal_strlit("\n");
    if parts.len() == 1 {
        assert(unbroken(parts[0]));
        pieces_of_unbroken(parts[0]);
        assert(seq![parts[0]] =~= parts);
    } else {
        let head = parts.drop_last();
        assert forall|i: int| 0 <= i < head.len() implies unbroken(#[trigger] head[i]) by {
            assert(unbroken(parts[i]));
        }
        joined_lines_are_parted(head);
        assert(unbroken(parts[parts.len() - 1]));
        let a = joined(head, "\n"@) + "\n"@;
        pieces_after_ended(a, parts.last());
        pieces_of_unbroken(parts.last());
        assert(a.drop_last() =~= joined(head, "\n"@));
        assert(pieces(a, '\n') =~= head.push(Seq::empty()));
        assert(pieces(joined(parts, "\n"@), '\n') =~= parts);
    }
}

/// Each part stands in what parts are joined to.
pub proof fn joined_parts_are_held(parts: Seq<Seq<char>>, sep: Seq<char>, i: int)
    requires
        0 <= i < parts.len(),
    ensures
        has_part(joined(parts, sep), parts[i]),
    decreases parts.len(),
{
    let none = Seq::<char>::empty();
    if parts.len() == 1 {
        parts_are_held(none, parts[0], none);
        assert(none + parts[0] + none =~= parts[0]);
    } else if i == parts.len() - 1 {
        let a = joined(parts.drop_last(), sep) + sep;
        parts_are_held(a, parts[i], none);
        assert(a + parts[i] + none =~= joined(parts, sep));
    } else {
        joined_parts_are_held(parts.drop_last(), sep, i);
        let s = joined(parts.drop_last(), sep);
        parts_of_parts(none, s, sep + parts.last(), parts[i]);
        assert(none + s + (sep + parts.last()) =~= joined(parts, sep));
    }
}

proof fn sorted_with(r: Seq<Seq<char>>, x: Seq<char>) -> (q: Seq<Seq<char>>)
    requires
        increasing(r),
        !r.contains(x),
    ensures
        increasing(q),
        forall|y: Seq<char>| #[trigger] q.contains(y) <==> r.contains(y) || y == x,
    decreases r.len(),
{
    if r.len() == 0 || text_lt(r.last(), x) {
        let q = r.push(x);
        assert forall|i: int, j: int| 0 <= i < j < q.len() implies text_lt(
            #[trigger] q[i],
            #[trigger] q[j],
        ) by {
            if j == r.len() && i < r.len() - 1 {
                assert(text_lt(r[i], r[r.len() - 1]));
                text_lt_transitive(r[i], r.last(), x);
            }
        }
        assert(q[r.len() as int] == x);
        assert forall|y: Seq<char>| #[trigger] q.contains(y) <==> r.contains(y) || y == x by {
            if r.contains(y) {
                assert(q[r.index_of(y)] == y);
            }
            if q.contains(y) && y != x {
                assert(r[q.index_of(y)] == y);
            }
        }
        q
    } else {
        let head = r.drop_last();
        let last = r.last();
        assert(r[r.len() - 1] == last);
        text_lt_total(last, x);
        assert forall|i: int, j: int| 0 <= i < j < head.len() implies text_lt(
            #[trigger] head[i],
            #[trigger] head[j],
        ) by {
            assert(text_lt(r[i], r[j]));
        }
        if head.contains(x) {
            assert(r[head.index_of(x)] == x);
        }
        let h = sorted_with(head, x);
        let q = h.push(last);
        assert forall|i: int| 0 <= i < h.len() implies text_lt(#[trigger] h[i], last) by {
            assert(h.contains(h[i]));
            if h[i] != x {
                let k = head.index_of(h[i]);
                assert(text_lt(r[k], r[r.len() - 1]));
            }
        }
        assert(q[h.len() as int] == last);
        assert forall|y: Seq<char>| #[trigger] q.contains(y) <==> r.contains(y) || y == x by {
            if q.contains(y) {
                let k = q.index_of(y);
                if k < h.len() {
                    assert(h[k] == y);
                    assert(h.contains(y));
                    if y != x {
                        assert(r[head.index_of(y)] == y);
                    }
                } else {
                    assert(r[r.len() - 1] == y);
                }
            }
            if r.contains(y) || y == x {
                if y == x || head.contains(y) {
                    assert(h.contains(y));
                    assert(q[h.index_of(y)] == y);
                } else {
                    let k = r.index_of(y);
                    if k < r.len() - 1 {
                        assert(head[k] == y);
                    }
                    assert(q[h.len() as int] == y);
                }
            }
        }
        q
    }
}

proof fn sorted_sets_are_there(s: Seq<Seq<char>>) -> (r: Seq<Seq<char>>)
    ensures
        is_sorted_set(r, s),
    decreases s.len(),
{
    if s.len() == 0 {
        let r = Seq::<Seq<char>>::empty();
        assert forall|x: Seq<char>| #[trigger] r.contains(x) <==> s.contains(x) by {}
        r
    } else {
        let head = s.drop_last();
        let h = sorted_sets_are_there(head);
        let r = if h.contains(s.last()) {
            h
        } else {
            sorted_with(h, s.last())
        };
        assert forall|x: Seq<char>| #[trigger] r.contains(x) <==> s.contains(x) by {
            assert(h.contains(x) <==> head.contains(x));
            if head.contains(x) {
                assert(s[head.index_of(x)] == x);
            }
            if s.contains(x) && x != s.last() {
                assert(head[s.index_of(x)] == x);
            }
            assert(s[s.len() - 1] == s.last());
        }
        r
    }
}

/// The texts in order are the texts that were given, each once, and no other.
pub proof fn sorting_keeps_the_texts(s: Seq<Seq<char>>)
    ensures
        forall|x: Seq<char>| #[trigger] sorted_distinct(s).contains(x) <==> s.contains(x),
        forall|i: int, j: int|
            0 <= i < j < sorted_distinct(s).len() ==> text_lt(
                #[trigger] sorted_distinct(s)[i],
                #[trigger] sorted_distinct(s)[j],
            ),
{
    let r = sorted_sets_are_there(s);
    assert(is_sorted_set(sorted_distinct(s), s));
}

/// What is left of texts that are trimmed are those that hold something, and no other.
pub proof fn trimmed_texts_are_those_that_hold_something(s: Seq<Seq<char>>, x: Seq<char>)
    ensures
        trimmed_nonempty(s).contains(x) <==> x.len() > 0 && exists|i: int|
            0 <= i < s.len() && trimmed(#[trigger] s[i]) == x,
    decreases s.len(),
{
    if s.len() > 0 {
        let head = s.drop_last();
        let h = trimmed_nonempty(head);
        let r = trimmed_nonempty(s);
        trimmed_texts_are_those_that_hold_something(head, x);
        if r.contains(x) {
            let k = r.index_of(x);
            if k < h.len() {
                assert(h[k] == x);
                let i = choose|i: int| 0 <= i < head.len() && trimmed(#[trigger] head[i]) == x;
                assert(trimmed(s[i]) == x);
            } else {
                assert(trimmed(s[s.len() - 1]) == x);
            }
        }
        if x.len() > 0 && exists|i: int| 0 <= i < s.len() && trimmed(#[trigger] s[i]) == x {
            let i = choose|i: int| 0 <= i < s.len() && trimmed(#[trigger] s[i]) == x;
            if i < head.len() {
                assert(trimmed(head[i]) == x);
                assert(r[h.index_of(x)] == x);
            } else {
                assert(r[h.len() as int] == x);
            }
        }
    }
}

proof fn last_piece_ends_alike(s: Seq<char>)
    requires
        s.len() > 0,
        s.last() != '\n',
    ensures
        pieces(s, '\n').len() > 0,
        pieces(s, '\n').last().len() > 0,
        pieces(s, '\n').last().last() == s.last(),
{
    pieces_nonempty(s.drop_last(), '\n');
}

/// A blank line behind a text is one more line, which is empty; and two behind a text that ends
/// with a line feed are two.
pub proof fn blank_lines_are_lines(s: Seq<char>)
    requires
        s.len() > 0,
    ensures
        s.last() != '\n' && s.last() != '\r' ==> lines_of(s + "\n\n"@) == lines_of(s).push(
            Seq::empty(),
        ),
        s.last() == '\n' ==> lines_of(s + "\n\n"@) == lines_of(s).push(Seq::empty()).push(
            Seq::empty(),
        ),
{
    reveal_strlit("\n\n");
    let nl = seq!['\n'];
    let none = Seq::<char>::empty();
    assert("\n\n"@ =~= nl + nl);
    lines_after_break(none, none);
    lines_of_unbroken(none);
    assert(none + nl + none =~= nl);
    assert(lines_of(nl) =~= seq![none]);
    let one = s + nl;
    lines_are_appended(one, nl);
    assert(one + nl =~= s + "\n\n"@);
    if s.last() == '\n' {
        lines_are_appended(s, nl);
        assert(lines_of(s + "\n\n"@) =~= lines_of(s).push(none).push(none));
    } else if s.last() != '\r' {
        last_piece_ends_alike(s);
        let p = pieces(s, '\n');
        assert(one.drop_last() =~= s);
        assert(pieces(one, '\n') == p.push(none));
        assert(p.push(none).drop_last() =~= p);
        assert(without_return(p.last()) == p.last());
        assert(lines_of(one) =~= lines_of(s));
        assert(lines_of(s + "\n\n"@) =~= lines_of(s).push(none));
    }
}

/// Folding makes capital ASCII letters small and leaves everything else, so that texts which
/// differ in that alone are folded alike, and folding twice is folding once.
pub proof fn folding_makes_letters_small(s: Seq<char>, i: int)
    requires
        0 <= i < s.len(),
    ensures
        ascii_folded(s).len() == s.len(),
        'A' <= s[i] <= 'Z' ==> 'a' <= ascii_folded(s)[i] <= 'z' && ascii_folded(s)[i] as u32
            - 'a' as u32 == s[i] as u32 - 'A' as u32,
        !('A' <= s[i] <= 'Z') ==> ascii_folded(s)[i] == s[i],
        ascii_folded(ascii_folded(s)) == ascii_folded(s),
{
    assert(ascii_folded(ascii_folded(s)) =~= ascii_folded(s));
}

} // verus!
