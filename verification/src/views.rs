//! Views of collections: the sequence of the views of a vector's items, and the view of
//! what an option holds.
use vstd::prelude::*;

verus! {

/// The views of the items of a sequence.
pub open spec fn views<T: View>(v: Seq<T>) -> Seq<T::V> {
    v.map_values(|t: T| t@)
}

/// The views of a sequence that grew by one item.
pub broadcast proof fn views_push<T: View>(v: Seq<T>, t: T)
    ensures
        #[trigger] views(v.push(t)) == views(v).push(t@),
{
    assert(views(v.push(t)) =~= views(v).push(t@));
}

/// The views of a sequence in which one item changed.
pub broadcast proof fn views_update<T: View>(v: Seq<T>, i: int, t: T)
    requires
        0 <= i < v.len(),
    ensures
        #[trigger] views(v.update(i, t)) == views(v).update(i, t@),
{
    assert(views(v.update(i, t)) =~= views(v).update(i, t@));
}

/// The view of an item.
pub broadcast proof fn views_index<T: View>(v: Seq<T>, i: int)
    requires
        0 <= i < v.len(),
    ensures
        #[trigger] views(v)[i] == v[i]@,
{
}

/// The view of what an option holds.
pub open spec fn opt_view<T: View>(o: Option<T>) -> Option<T::V> {
    match o {
        Some(t) => Some(t@),
        None => None,
    }
}

} // verus!
