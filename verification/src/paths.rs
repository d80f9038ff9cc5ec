//! Predicates on recorded paths: which of them count as user files.

use vstd::prelude::*;
use vstd::std_specs::iter::IteratorSpec;

verus! {

/// The character sequences of a row of strings, in the same order.
pub open spec fn path_views(strings: Seq<String>) -> Seq<Seq<char>> {
    strings.map_values(|s: String| s@)
}

/// A path names a synthetic compilation unit (code that was generated or typed
/// in, with no file behind it) when it opens with `<`.
pub open spec fn is_synthetic(path: Seq<char>) -> bool {
    path.len() > 0 && path[0] == '<'
}

/// Some exclusion prefix is a prefix of `path`.
pub open spec fn is_excluded(path: Seq<char>, prefixes: Seq<Seq<char>>) -> bool {
    exists|i: int| 0 <= i < prefixes.len() && (#[trigger] prefixes[i]).is_prefix_of(path)
}

/// A recorded path is a user file when it is not empty, not synthetic and
/// under none of the exclusion prefixes.
pub open spec fn is_user_path(path: Seq<char>, prefixes: Seq<Seq<char>>) -> bool {
    path.len() > 0 && !is_synthetic(path) && !is_excluded(path, prefixes)
}

/// Whether `path` begins with `prefix`, character by character.
pub fn starts_with(path: &str, prefix: &str) -> (r: bool)
    ensures
        r == prefix@.is_prefix_of(path@),
{
    let mut rest = path.chars();
    let mut want = prefix.chars();
    let ghost mut k: int = 0;
    loop
        invariant
            rest.obeys_prophetic_iter_laws(),
            want.obeys_prophetic_iter_laws(),
            0 <= k <= path@.len(),
            k <= prefix@.len(),
            rest.remaining() == path@.skip(k),
            want.remaining() == prefix@.skip(k),
            path@.take(k) == prefix@.take(k),
        decreases prefix@.len() - k,
    {
        match want.next() {
            None => {
                assert(prefix@ == path@.subrange(0, prefix@.len() as int));
                return true;
            },
            Some(c) => {
                match rest.next() {
                    None => {
                        return false;
                    },
                    Some(d) => {
                        if c != d {
                            assert(prefix@[k] != path@[k]);
                            return false;
                        }
                        proof {
                            assert(path@.take(k + 1) == path@.take(k).push(path@[k]));
                            assert(prefix@.take(k + 1) == prefix@.take(k).push(prefix@[k]));
                            k = k + 1;
                        }
                    },
                }
            },
        }
    }
}

/// Whether `path` is a user file: not empty, not synthetic, and under none of
/// `excluded`.
pub fn is_user_file(path: &str, excluded: &Vec<String>) -> (r: bool)
    ensures
        r == is_user_path(path@, path_views(excluded@)),
{
    let ghost prefixes = path_views(excluded@);
    let mut first = path.chars();
    match first.next() {
        None => {
            return false;
        },
        Some(c) => {
            if c == '<' {
                return false;
            }
        },
    }
    let mut i: usize = 0;
    while i < excluded.len()
        invariant
            0 <= i <= excluded.len(),
            prefixes == path_views(excluded@),
            forall|j: int| 0 <= j < i ==> !(#[trigger] prefixes[j]).is_prefix_of(path@),
        decreases excluded.len() - i,
    {
        if starts_with(path, excluded[i].as_str()) {
            assert(prefixes[i as int].is_prefix_of(path@));
            return false;
        }
        i += 1;
    }
    true
}

} // verus!
