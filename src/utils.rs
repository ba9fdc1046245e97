//! Id allocation and the codec traits that a reducer's types implement.
use vstd::prelude::*;

pub mod types;

verus! {

/// A source of ids: each call of [`get_id`] hands out a fresh id, greater
/// than every id handed out before. The first id is 1.
pub struct IdSource {
    next: usize,
}

impl IdSource {
    /// The id that the next call of [`get_id`] hands out.
    pub closed spec fn upcoming(&self) -> nat {
        self.next as nat
    }

    /// A source whose first id is 1.
    pub fn new() -> (r: IdSource)
        ensures
            r.upcoming() == 1,
    {
        IdSource { next: 1 }
    }

    /// Whether another id can be handed out without overflow.
    pub fn has_next(&self) -> (r: bool)
        ensures
            r == (self.upcoming() < usize::MAX),
    {
        self.next < usize::MAX
    }
}

/// Hands out the next id of `ids`: one greater than the id handed out before.
pub fn get_id(ids: &mut IdSource) -> (r: usize)
    requires
        old(ids).upcoming() < usize::MAX,
    ensures
        r == old(ids).upcoming(),
        final(ids).upcoming() == r + 1,
{
    let r = ids.next;
    ids.next = ids.next + 1;
    r
}

} // verus!
