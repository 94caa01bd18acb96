//! Paths as text: the last component of a path, and the path that is worked in.
use vstd::prelude::*;
use vstd::string::*;

use crate::text;
use crate::text::{pieces, pieces_nonempty};
use crate::views::{opt_view, views, views_index};

verus! {

/// Whether a piece between two separators names something: it is neither empty nor `.`.
pub open spec fn names_something(piece: Seq<char>) -> bool {
    piece.len() > 0 && piece != "."@
}

/// The last of the pieces that names something.
pub open spec fn last_name(parts: Seq<Seq<char>>) -> Option<Seq<char>>
    decreases parts.len(),
{
    if parts.len() == 0 {
        None
    } else if names_something(parts.last()) {
        Some(parts.last())
    } else {
        last_name(parts.drop_last())
    }
}

/// The last component of a path, if it is a name: there is none in an empty path, in the
/// root, nor in a path that ends in `..`.
pub open spec fn base_name(path: Seq<char>) -> Option<Seq<char>> {
    match last_name(pieces(path, '/')) {
        Some(name) => if name == ".."@ {
            None
        } else {
            Some(name)
        },
        None => None,
    }
}

/// See [`base_name`].
pub fn file_name(path: &str) -> (r: Option<String>)
    ensures
        opt_view(r) == base_name(path@),
{
    let parts = text::split(path, '/');
    let ghost all = views(parts@);
    let mut i: usize = parts.len();
    assert(all.take(i as int) =~= all);
    while i > 0
        invariant
            all == views(parts@),
            all == pieces(path@, '/'),
            i <= parts.len(),
            last_name(all) == last_name(all.take(i as int)),
        decreases i,
    {
        proof {
            views_index(parts@, i - 1);
            assert(all.take(i as int).last() == all[i - 1]);
            assert(all.take(i as int).drop_last() =~= all.take(i - 1));
        }
        let part = parts[i - 1].as_str();
        if !part.is_empty() && !text::same(part, ".") {
            if text::same(part, "..") {
                return None;
            }
            return Some(part.to_owned());
        }
        i = i - 1;
    }
    None
}

/// The path `name` below the directory `dir`; an absolute name stands for itself.
pub open spec fn below(dir: Seq<char>, name: Seq<char>) -> Seq<char> {
    if dir.len() == 0 || (name.len() > 0 && name[0] == '/') {
        name
    } else if dir.last() == '/' {
        dir + name
    } else {
        dir + "/"@ + name
    }
}

/// See [`below`].
pub fn join(dir: &str, name: &str) -> (r: String)
    ensures
        r@ == below(dir@, name@),
{
    let d = text::chars(dir);
    let n = text::chars(name);
    if d.len() == 0 || (n.len() > 0 && n[0] == '/') {
        name.to_owned()
    } else if d[d.len() - 1] == '/' {
        text::concat(dir, name)
    } else {
        text::concat3(dir, "/", name)
    }
}

/// The path that is worked in: the one that a path resolves to, or the path itself where it
/// could not be resolved.
pub open spec fn worked_in(path: Seq<char>, resolved: Result<Seq<char>, Seq<char>>) -> Seq<char> {
    match resolved {
        Ok(found) => found,
        Err(_) => path,
    }
}

/// See [`worked_in`]. What works in a repository or a workspace is given such a path.
pub fn canonical_or_original(path: &str, resolved: Result<String, String>) -> (r: String)
    ensures
        r@ == worked_in(
            path@,
            match resolved {
                Ok(found) => Ok(found@),
                Err(error) => Err(error@),
            },
        ),
{
    match resolved {
        Ok(found) => found,
        Err(_) => path.to_owned(),
    }
}

/// The path of something in a directory ends in its name: that is what the last component of it
/// is, with or without a separator behind it, and the directory stands before it.
pub proof fn names_stand_at_the_end(dir: Seq<char>, name: Seq<char>)
    requires
        name.len() > 0,
        !name.contains('/'),
        name != "."@,
        name != ".."@,
    ensures
        base_name(name) == Some(name),
        base_name(dir + seq!['/'] + name) == Some(name),
        base_name(dir + seq!['/'] + name + seq!['/']) == Some(name),
        base_name(below(dir, name)) == Some(name),
        dir.is_prefix_of(below(dir, name)),
        dir.len() > 0 ==> below(dir, name)[below(dir, name).len() - name.len() - 1] == '/',
        dir.len() > 0 ==> below(dir, name).len() <= dir.len() + 1 + name.len(),
{
    let s = dir + seq!['/'] + name;
    let none = Seq::<char>::empty();
    last_piece_is_the_name(none, name);
    assert(none + name =~= name);
    last_piece_is_the_name(dir + seq!['/'], name);
    let t = s + seq!['/'];
    assert(t.drop_last() =~= s);
    assert(pieces(t, '/') == pieces(s, '/').push(Seq::<char>::empty()));
    assert(pieces(t, '/').drop_last() =~= pieces(s, '/'));
    reveal_with_fuel(last_name, 2);
    reveal_strlit("/");
    assert("/"@ =~= seq!['/']);
    assert(name[0] != '/') by {
        assert(name.contains(name[0]));
    }
    if dir.len() == 0 {
        assert(below(dir, name) == name);
    } else if dir.last() == '/' {
        last_piece_is_the_name(dir, name);
    }
}

proof fn last_piece_is_the_name(before: Seq<char>, name: Seq<char>)
    requires
        before.len() == 0 || before.last() == '/',
        !name.contains('/'),
    ensures
        pieces(before + name, '/').len() > 0,
        pieces(before + name, '/').last() == name,
    decreases name.len(),
{
    let s = before + name;
    pieces_nonempty(s, '/');
    if name.len() == 0 {
        assert(s =~= before);
        assert(pieces(before, '/').last() =~= name);
    } else {
        let shorter = name.drop_last();
        assert(!shorter.contains('/')) by {
            assert forall|k: int| 0 <= k < shorter.len() implies shorter[k] != '/' by {
                assert(name.contains(name[k]));
            }
        }
        last_piece_is_the_name(before, shorter);
        assert(s.drop_last() =~= before + shorter);
        assert(name.contains(name.last()));
        assert(s.last() == name.last());
        assert(shorter.push(name.last()) =~= name);
    }
}

/// The root and a path that ends in `..` have no name.
pub proof fn some_paths_have_no_name(dir: Seq<char>)
    ensures
        base_name(Seq::<char>::empty()) is None,
        base_name(seq!['/']) is None,
        base_name(dir + seq!['/', '.', '.']) is None,
{
    reveal_with_fuel(last_name, 3);
    reveal_with_fuel(pieces, 2);
    let none = Seq::<char>::empty();
    assert(seq!['/'].drop_last() =~= none);
    assert(pieces(none, '/') == seq![none]);
    assert(pieces(seq!['/'], '/') == seq![none, none]);
    assert(seq![none, none].drop_last() =~= seq![none]);
    assert(seq![none].drop_last() =~= Seq::<Seq<char>>::empty());
    reveal_strlit("..");
    reveal_strlit(".");
    assert(".."@ =~= seq!['.', '.']);
    assert(dir + seq!['/', '.', '.'] =~= dir + seq!['/'] + ".."@);
    assert(!".."@.contains('/'));
    last_piece_is_the_name(dir + seq!['/'], ".."@);
    assert(names_something(".."@));
}

} // verus!
