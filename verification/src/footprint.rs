//! The footprint's storage: a hash set of paths.
//!
//! The set itself is `hashbrown::HashSet<String>`. Verus cannot look inside
//! it, so this module names what the set holds and states, method by method,
//! what hashbrown documents. Nothing here is proved; everything that uses the
//! set is proved against these statements.

use vstd::prelude::*;
use crate::paths::path_views;

verus! {

/// A set of paths, stored in a `hashbrown::HashSet<String>`.
///
/// hashbrown's own type cannot be declared to Verus (its allocator bound is
/// private to that crate), so the set sits in a field that Verus does not read.
#[verifier::external_body]
pub struct PathSet {
    paths: hashbrown::HashSet<String>,
}

/// The paths that `set` holds, each as its sequence of characters.
pub uninterp spec fn held_paths(set: PathSet) -> Set<Seq<char>>;

/// The largest capacity that [`PathSet::with_capacity`] is asked for. A table
/// of this many strings takes a few megabytes, far from the size at which
/// hashbrown gives up with "Hash table capacity overflow".
pub const MAX_INITIAL_CAPACITY: usize = 65536;

impl PathSet {
    /// `hashbrown::HashSet::with_capacity`: an empty set with room for
    /// `capacity` paths. hashbrown panics when the table for `capacity`
    /// entries would not fit the address space; the bound keeps clear of that.
    #[verifier::external_body]
    pub(crate) fn with_capacity(capacity: usize) -> (set: PathSet)
        requires
            capacity <= MAX_INITIAL_CAPACITY,
        ensures
            held_paths(set) == Set::<Seq<char>>::empty(),
    {
        PathSet { paths: hashbrown::HashSet::with_capacity(capacity) }
    }

    /// `hashbrown::HashSet::insert`: adds `path` to the set and returns
    /// whether the set did not hold it before. Strings are equal when their
    /// characters are, so the set holds a path once however often it comes.
    #[verifier::external_body]
    pub(crate) fn insert(&mut self, path: String) -> (fresh: bool)
        ensures
            held_paths(*final(self)) == held_paths(*old(self)).insert(path@),
            fresh == !held_paths(*old(self)).contains(path@),
    {
        self.paths.insert(path)
    }

    /// `hashbrown::HashSet::clear`: removes every path.
    #[verifier::external_body]
    pub(crate) fn clear(&mut self)
        ensures
            held_paths(*final(self)) == Set::<Seq<char>>::empty(),
    {
        self.paths.clear()
    }

    /// `hashbrown::HashSet::iter`, each item cloned into a vector: every path
    /// of the set exactly once. hashbrown visits the items "in arbitrary
    /// order", so nothing is said of the order.
    #[verifier::external_body]
    pub(crate) fn to_vec(&self) -> (items: Vec<String>)
        ensures
            path_views(items@).no_duplicates(),
            path_views(items@).to_set() == held_paths(*self),
    {
        self.paths.iter().cloned().collect()
    }
}

} // verus!
