//! Occurrence counters keyed by field element, kept in a `hashbrown` map.

use crate::field::Scalar;
use vstd::prelude::*;

verus! {

/// How often each field element has been seen. The counters live in a
/// `hashbrown::HashMap` keyed by the limbs of the element. The map is held
/// as a whole and seen through [`counts_of`] alone: `hashbrown` keeps the
/// allocator trait of its map to itself, so the type cannot be named with
/// its own bounds.
#[verifier::external_body]
pub struct Counts {
    map: hashbrown::HashMap<(u64, u64, u64, u64), usize>,
}

/// The counters that a [`Counts`] holds, by element.
pub uninterp spec fn counts_of(counts: Counts) -> Map<Scalar, usize>;

impl Counts {
    /// The counters held, by element.
    pub open spec fn view(&self) -> Map<Scalar, usize> {
        counts_of(*self)
    }

    /// `hashbrown::HashMap::new`: a map without entries.
    #[verifier::external_body]
    pub(crate) fn new() -> (r: Counts)
        ensures
            counts_of(r) =~= Map::empty(),
    {
        Counts { map: hashbrown::HashMap::new() }
    }

    /// `hashbrown::HashMap::get`: the value stored under the key, if any.
    #[verifier::external_body]
    pub(crate) fn get(&self, key: &Scalar) -> (r: Option<usize>)
        ensures
            r == (if counts_of(*self).dom().contains(*key) {
                Some(counts_of(*self)[*key])
            } else {
                None
            }),
    {
        self.map.get(&(key.l0, key.l1, key.l2, key.l3)).copied()
    }

    /// `hashbrown::HashMap::insert`: stores the value under the key, in place
    /// of what was there, and leaves the other entries alone.
    #[verifier::external_body]
    pub(crate) fn insert(&mut self, key: Scalar, value: usize)
        ensures
            counts_of(*final(self)) == counts_of(*old(self)).insert(key, value),
    {
        self.map.insert((key.l0, key.l1, key.l2, key.l3), value);
    }
}

} // verus!
