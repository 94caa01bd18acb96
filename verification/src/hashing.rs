//! Hashes of paths and texts, by the hasher of the standard library in its first state.
use std::collections::hash_map::DefaultHasher;
use std::hash::{Hash, Hasher};

use vstd::prelude::*;
use vstd::std_specs::hash::DefaultHasherAdditionalSpecFns;

verus! {

/// What `<std::path::Path as Hash>::hash` writes to a hasher on one target, where a `usize` has
/// that many bits.
pub uninterp spec fn path_fed(path: Seq<char>, bits: u32) -> Seq<Seq<u8>>;

/// What `<str as Hash>::hash` writes to a hasher.
pub uninterp spec fn text_fed(text: Seq<char>) -> Seq<Seq<u8>>;

/// `<std::path::Path as Hash>::hash` writes to the hasher after what was written before. What it
/// writes is, on one target, a function of the path and of the width of a `usize`, and is not
/// said.
#[verifier::external_body]
fn feed_path(path: &str, hasher: &mut DefaultHasher)
    ensures
        final(hasher)@ == old(hasher)@ + path_fed(path@, usize::BITS),
{
    std::path::Path::new(path).hash(hasher)
}

/// `<str as Hash>::hash` writes to the hasher after what was written before. What it writes is a
/// function of the text, and is not said.
#[verifier::external_body]
fn feed_text(text: &str, hasher: &mut DefaultHasher)
    ensures
        final(hasher)@ == old(hasher)@ + text_fed(text@),
{
    text.hash(hasher)
}

/// The hash of a path.
pub open spec fn hash_of_path(path: Seq<char>) -> u64 {
    DefaultHasher::spec_finish(path_fed(path, usize::BITS))
}

/// The hash of a text.
pub open spec fn hash_of_text(text: Seq<char>) -> u64 {
    DefaultHasher::spec_finish(text_fed(text))
}

/// The hash of a path.
pub(crate) fn path_hash(path: &str) -> (r: u64)
    ensures
        r == hash_of_path(path@),
{
    let mut hasher = DefaultHasher::new();
    feed_path(path, &mut hasher);
    assert(hasher@ =~= path_fed(path@, usize::BITS));
    hasher.finish()
}

/// The hash of a text.
pub(crate) fn text_hash(text: &str) -> (r: u64)
    ensures
        r == hash_of_text(text@),
{
    let mut hasher = DefaultHasher::new();
    feed_text(text, &mut hasher);
    assert(hasher@ =~= text_fed(text@));
    hasher.finish()
}

} // verus!
