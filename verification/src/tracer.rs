//! The execution tracer's bookkeeping: the footprint, the exclusion prefixes
//! and whether call interception is on.

use vstd::prelude::*;
use crate::footprint::{held_paths, PathSet};
use crate::paths::{is_user_file, is_user_path, path_views};

verus! {

/// What a [`Tracer`] stands for.
pub struct TracerView<H> {
    /// The paths recorded since the footprint was last cleared.
    pub footprint: Set<Seq<char>>,
    /// The prefixes under which a path is no user file, in the order given at
    /// construction.
    pub exclusions: Seq<Seq<char>>,
    /// The dispatch function that was in place before tracing was ever on.
    pub original: H,
    /// Whether call interception is on.
    pub tracing: bool,
}

impl<H> TracerView<H> {
    /// Interception switched on. Switching it on twice is switching it on once.
    pub open spec fn started(self) -> Self {
        TracerView { tracing: true, ..self }
    }

    /// Interception switched off.
    pub open spec fn stopped(self) -> Self {
        TracerView { tracing: false, ..self }
    }

    /// One intercepted call whose code comes from `path`.
    pub open spec fn recorded(self, path: Seq<char>) -> Self {
        TracerView { footprint: self.footprint.insert(path), ..self }
    }

    /// The footprint emptied.
    pub open spec fn cleared(self) -> Self {
        TracerView { footprint: Set::empty(), ..self }
    }

    /// A row of intercepted calls, recorded one after the other.
    pub open spec fn recorded_all(self, calls: Seq<Seq<char>>) -> Self
        decreases calls.len(),
    {
        if calls.len() == 0 {
            self
        } else {
            self.recorded_all(calls.drop_last()).recorded(calls.last())
        }
    }

    /// The user files of the footprint.
    pub open spec fn user_paths(self) -> Set<Seq<char>> {
        self.footprint.filter(|path: Seq<char>| is_user_path(path, self.exclusions))
    }
}

/// Records which source files ran while call interception was on.
///
/// `H` is the handle of a dispatch function. The tracer keeps the one that was
/// in place before it and hands it back whenever interception ends.
pub struct Tracer<H> {
    files: PathSet,
    excluded_paths: Vec<String>,
    default_eval_frame_func: H,
    tracing: bool,
}

impl<H> View for Tracer<H> {
    type V = TracerView<H>;

    closed spec fn view(&self) -> TracerView<H> {
        TracerView {
            footprint: held_paths(self.files),
            exclusions: path_views(self.excluded_paths@),
            original: self.default_eval_frame_func,
            tracing: self.tracing,
        }
    }
}

/// The names under which the runtime's installation scheme lists the roots
/// of its own libraries: the standard library and the site packages, in their
/// plain and their platform-specific places.
pub open spec fn library_root_names() -> Seq<&'static str> {
    seq!["stdlib", "purelib", "platstdlib", "platlib"]
}

/// The paths among the answers to a row of lookups, in the order of the
/// lookups; a lookup that found nothing leaves no trace.
pub open spec fn present_paths(found: Seq<Option<String>>) -> Seq<Seq<char>> {
    found.filter(|answer: Option<String>| answer is Some).map_values(
        |answer: Option<String>| answer->0@,
    )
}

/// The room that a new footprint has before it grows.
pub const INITIAL_CAPACITY: usize = 200;

impl<H> Tracer<H> {
    /// An idle tracer with an empty footprint that excludes the paths found
    /// by a row of lookups.
    pub fn from_lookups(original: H, found: Vec<Option<String>>) -> (tracer: Tracer<H>)
        ensures
            tracer@ == (TracerView {
                footprint: Set::empty(),
                exclusions: present_paths(found@),
                original,
                tracing: false,
            }),
    {
        let mut excluded_paths: Vec<String> = Vec::new();
        let mut i: usize = 0;
        while i < found.len()
            invariant
                0 <= i <= found.len(),
                path_views(excluded_paths@) == present_paths(found@.take(i as int)),
            decreases found.len() - i,
        {
            let ghost before = excluded_paths@;
            if let Some(path) = &found[i] {
                excluded_paths.push(path.clone());
            }
            proof {
                let present = |answer: Option<String>| answer is Some;
                let path_of = |answer: Option<String>| answer->0@;
                let seen = found@.take(i as int);
                let next = found@.take(i + 1);
                assert(next.drop_last() == seen);
                assert(next.last() == found@[i as int]);
                assert(next.filter(present) == if found@[i as int] is Some {
                    seen.filter(present).push(found@[i as int])
                } else {
                    seen.filter(present)
                }) by {
                    reveal(Seq::filter);
                }
                if found@[i as int] is Some {
                    assert(seen.filter(present).push(found@[i as int]).map_values(path_of)
                        == seen.filter(present).map_values(path_of).push(found@[i as int]->0@));
                    assert(path_views(before.push(found@[i as int]->0)) == path_views(before).push(
                        found@[i as int]->0@,
                    ));
                }
            }
            i += 1;
        }
        assert(found@.take(found.len() as int) == found@);
        Tracer {
            files: PathSet::with_capacity(INITIAL_CAPACITY),
            excluded_paths,
            default_eval_frame_func: original,
            tracing: false,
        }
    }

    /// An idle tracer with an empty footprint. It asks `get_path` for each of
    /// the runtime's library roots, in the order of [`library_root_names`],
    /// and excludes those that `get_path` finds.
    pub fn new<F: Fn(&str) -> Option<String>>(original: H, get_path: F) -> (tracer: Tracer<H>)
        requires
            forall|i: int|
                0 <= i < library_root_names().len() ==> call_requires(
                    get_path,
                    (#[trigger] library_root_names()[i],),
                ),
        ensures
            exists|found: Seq<Option<String>>|
                {
                    &&& found.len() == library_root_names().len()
                    &&& forall|i: int|
                        0 <= i < found.len() ==> call_ensures(
                            get_path,
                            (library_root_names()[i],),
                            #[trigger] found[i],
                        )
                    &&& tracer@ == (TracerView {
                        footprint: Set::empty(),
                        exclusions: present_paths(found),
                        original,
                        tracing: false,
                    })
                },
    {
        let names = ["stdlib", "purelib", "platstdlib", "platlib"];
        assert(names@ == library_root_names());
        let mut found: Vec<Option<String>> = Vec::new();
        let mut i: usize = 0;
        while i < names.len()
            invariant
                0 <= i <= names.len(),
                names@ == library_root_names(),
                found.len() == i,
                forall|j: int|
                    0 <= j < library_root_names().len() ==> call_requires(
                        get_path,
                        (#[trigger] library_root_names()[j],),
                    ),
                forall|j: int|
                    0 <= j < i ==> call_ensures(
                        get_path,
                        (library_root_names()[j],),
                        #[trigger] found[j],
                    ),
            decreases names.len() - i,
        {
            let answer = get_path(names[i]);
            found.push(answer);
            i += 1;
        }
        Tracer::from_lookups(original, found)
    }

    /// Records one intercepted call whose code comes from `filepath`.
    /// Returns whether the footprint did not hold the path before.
    pub fn add_filepath(&mut self, filepath: String) -> (fresh: bool)
        ensures
            final(self)@ == old(self)@.recorded(filepath@),
            fresh == !old(self)@.footprint.contains(filepath@),
    {
        self.files.insert(filepath)
    }

    /// Switches interception on. The caller installs its intercepting
    /// dispatch function; the handle kept for [`Tracer::stop`] stays the one
    /// given at construction, also when interception was on already.
    pub fn start(&mut self)
        ensures
            final(self)@ == old(self)@.started(),
    {
        self.tracing = true;
    }

    /// Empties the footprint. Exclusions and interception stay as they are.
    pub fn clear_files(&mut self)
        ensures
            final(self)@ == old(self)@.cleared(),
    {
        self.files.clear();
    }

    /// The user files of the footprint: the recorded paths that are not
    /// empty, not synthetic and under none of the exclusion prefixes. Each
    /// comes once; the order is the set's own and means nothing.
    pub fn user_files(&self) -> (files: Vec<String>)
        ensures
            path_views(files@).no_duplicates(),
            path_views(files@).to_set() == self@.user_paths(),
    {
        let recorded = self.files.to_vec();
        let ghost all = path_views(recorded@);
        let ghost exclusions = path_views(self.excluded_paths@);
        let mut files: Vec<String> = Vec::new();
        // from[j] is the place in `recorded` that files[j] was taken from
        let ghost mut from: Seq<int> = Seq::empty();
        let mut i: usize = 0;
        while i < recorded.len()
            invariant
                0 <= i <= recorded.len(),
                all == path_views(recorded@),
                all.no_duplicates(),
                exclusions == path_views(self.excluded_paths@),
                from.len() == files.len(),
                forall|j: int| 0 <= j < from.len() ==> 0 <= #[trigger] from[j] < i,
                forall|j: int, k: int| 0 <= j < k < from.len() ==> from[j] < from[k],
                forall|j: int| 0 <= j < from.len() ==> (#[trigger] files[j])@ == all[from[j]],
                forall|j: int|
                    0 <= j < from.len() ==> is_user_path(all[#[trigger] from[j]], exclusions),
                forall|k: int|
                    0 <= k < i && is_user_path(#[trigger] all[k], exclusions) ==> from.contains(k),
            decreases recorded.len() - i,
        {
            if is_user_file(recorded[i].as_str(), &self.excluded_paths) {
                files.push(recorded[i].clone());
                proof {
                    let ghost earlier = from;
                    from = from.push(i as int);
                    assert forall|k: int|
                        0 <= k < i + 1 && is_user_path(
                            #[trigger] all[k],
                            exclusions,
                        ) implies from.contains(k) by {
                        if k < i {
                            let j = earlier.index_of(k);
                            assert(from[j] == k);
                        } else {
                            assert(from[from.len() - 1] == k);
                        }
                    }
                }
            }
            i += 1;
        }
        proof {
            let kept = path_views(files@);
            assert forall|j: int, k: int| 0 <= j < kept.len() && 0 <= k < kept.len() && j != k
                implies kept[j] != kept[k] by {
                assert(kept[j] == files[j]@ && kept[k] == files[k]@);
                assert(from[j] != from[k]);
            }
            assert forall|path: Seq<char>| kept.to_set().contains(path)
                <==> self@.user_paths().contains(path) by {
                if kept.to_set().contains(path) {
                    let j = kept.index_of(path);
                    assert(kept[j] == files[j]@);
                    assert(all.contains(all[from[j]]));
                }
                if self@.user_paths().contains(path) {
                    assert(all.to_set().contains(path));
                    let k = all.index_of(path);
                    let j = from.index_of(k);
                    assert(kept[j] == files[j]@);
                }
            }
            assert(kept.to_set() =~= self@.user_paths());
        }
        files
    }

    /// Every recorded path, user file or not. Each comes once; the order is
    /// the set's own and means nothing.
    pub fn recorded_files(&self) -> (files: Vec<String>)
        ensures
            path_views(files@).no_duplicates(),
            path_views(files@).to_set() == self@.footprint,
    {
        self.files.to_vec()
    }

    /// The exclusion prefixes, in the order given at construction.
    pub fn excluded_paths(&self) -> (prefixes: &Vec<String>)
        ensures
            path_views(prefixes@) == self@.exclusions,
    {
        &self.excluded_paths
    }

    /// Whether interception is on.
    pub fn is_tracing(&self) -> (on: bool)
        ensures
            on == self@.tracing,
    {
        self.tracing
    }
}

impl<H: Copy> Tracer<H> {
    /// Switches interception off and returns the dispatch function to put
    /// back: the one given at construction.
    pub fn stop(&mut self) -> (restore: H)
        ensures
            final(self)@ == old(self)@.stopped(),
            restore == old(self)@.original,
    {
        self.tracing = false;
        self.default_eval_frame_func
    }
}

/// The paths that some thread reported: the union of the threads' reports.
pub open spec fn reported_paths(reports: Seq<Seq<Seq<char>>>) -> Set<Seq<char>> {
    Set::new(
        |path: Seq<char>|
            exists|thread: int| 0 <= thread < reports.len() && (#[trigger] reports[thread]).contains(path),
    )
}

/// Recording a row of calls adds exactly the paths of the row to the
/// footprint, and changes nothing else. The order of the calls, and how often
/// a path comes, make no difference.
pub proof fn lemma_recorded_all<H>(before: TracerView<H>, calls: Seq<Seq<char>>)
    ensures
        before.recorded_all(calls) == (TracerView {
            footprint: before.footprint.union(calls.to_set()),
            ..before
        }),
    decreases calls.len(),
{
    if calls.len() == 0 {
        assert(before.footprint.union(calls.to_set()) =~= before.footprint);
    } else {
        let earlier = calls.drop_last();
        lemma_recorded_all(before, earlier);
        assert forall|path: Seq<char>|
            calls.to_set().contains(path) <==> earlier.to_set().insert(calls.last()).contains(
                path,
            ) by {
            if calls.to_set().contains(path) {
                let i = calls.index_of(path);
                if i < earlier.len() {
                    assert(earlier[i] == path);
                }
            }
            if earlier.to_set().contains(path) {
                let i = earlier.index_of(path);
                assert(calls[i] == path);
            }
            if path == calls.last() {
                assert(calls[calls.len() - 1] == path);
            }
        }
        assert(before.footprint.union(earlier.to_set()).insert(calls.last())
            =~= before.footprint.union(calls.to_set()));
    }
}

/// Tracing one run: interception on, the calls `calls` intercepted,
/// interception off. Afterwards the user files are exactly the paths of
/// `calls` that are not empty, not synthetic and under no exclusion prefix,
/// provided the footprint held no other user file when the run began (a new
/// or a cleared footprint holds none).
pub proof fn lemma_traced_run_user_paths<H>(before: TracerView<H>, calls: Seq<Seq<char>>)
    requires
        before.user_paths().subset_of(calls.to_set()),
    ensures
        before.started().recorded_all(calls).stopped().user_paths() == calls.to_set().filter(
            |path: Seq<char>| is_user_path(path, before.exclusions),
        ),
{
    lemma_recorded_all(before.started(), calls);
    assert(before.started().recorded_all(calls).stopped().user_paths() =~= calls.to_set().filter(
        |path: Seq<char>| is_user_path(path, before.exclusions),
    ));
}

/// Whatever the footprint held before, a traced run adds the user files among
/// its calls to the user files, and leaves the tracer idle with the exclusions
/// and the original dispatch function it had.
pub proof fn lemma_traced_run<H>(before: TracerView<H>, calls: Seq<Seq<char>>)
    ensures
        before.started().recorded_all(calls).stopped() == (TracerView {
            footprint: before.footprint.union(calls.to_set()),
            tracing: false,
            ..before
        }),
        before.started().recorded_all(calls).stopped().user_paths() == before.user_paths().union(
            calls.to_set().filter(|path: Seq<char>| is_user_path(path, before.exclusions)),
        ),
{
    lemma_recorded_all(before.started(), calls);
    assert(before.started().recorded_all(calls).stopped().user_paths() =~= before.user_paths().union(
        calls.to_set().filter(|path: Seq<char>| is_user_path(path, before.exclusions)),
    ));
}

/// Clearing empties the footprint whether interception is on or off, and
/// leaves the exclusions, the original dispatch function and the state of
/// interception alone.
pub proof fn lemma_cleared<H>(before: TracerView<H>)
    ensures
        before.cleared().footprint == Set::<Seq<char>>::empty(),
        before.cleared().user_paths() == Set::<Seq<char>>::empty(),
        before.cleared().exclusions == before.exclusions,
        before.cleared().original == before.original,
        before.cleared().tracing == before.tracing,
{
    assert(before.cleared().user_paths() =~= Set::<Seq<char>>::empty());
}

/// Calls that several threads report, taken in any order in which a lock may
/// let them through, leave the footprint that holds what it held before and
/// every path that some thread reported: no insertion is lost. `schedule` is
/// such an order when it holds the calls of all reports, each as often as the
/// reports do.
pub proof fn lemma_interleaved_reports<H>(
    before: TracerView<H>,
    reports: Seq<Seq<Seq<char>>>,
    schedule: Seq<Seq<char>>,
)
    requires
        schedule.to_multiset() == reports.flatten().to_multiset(),
    ensures
        before.recorded_all(schedule).footprint == before.footprint.union(reported_paths(reports)),
{
    lemma_recorded_all(before, schedule);
    let all = reports.flatten();
    schedule.to_multiset_ensures();
    all.to_multiset_ensures();
    assert forall|path: Seq<char>| schedule.to_set().contains(path) <==> reported_paths(
        reports,
    ).contains(path) by {
        lemma_flatten_contains(reports, path);
        assert(schedule.contains(path) <==> schedule.to_multiset().count(path) > 0);
        assert(all.contains(path) <==> all.to_multiset().count(path) > 0);
    }
    assert(schedule.to_set() =~= reported_paths(reports));
}

/// A path is among the calls of all threads exactly when some thread reported it.
proof fn lemma_flatten_contains(reports: Seq<Seq<Seq<char>>>, path: Seq<char>)
    ensures
        reports.flatten().contains(path) <==> reported_paths(reports).contains(path),
    decreases reports.len(),
{
    if reports.len() == 0 {
    } else {
        let rest = reports.drop_first();
        lemma_flatten_contains(rest, path);
        assert(reports.flatten() == reports.first() + rest.flatten());
        if reports.flatten().contains(path) {
            let i = reports.flatten().index_of(path);
            if i < reports.first().len() {
                assert(reports.first()[i] == path);
                assert(reports[0].contains(path));
            } else {
                assert(rest.flatten()[i - reports.first().len()] == path);
                let thread = choose|thread: int|
                    0 <= thread < rest.len() && (#[trigger] rest[thread]).contains(path);
                assert(reports[thread + 1] == rest[thread]);
            }
        }
        if reported_paths(reports).contains(path) {
            let thread = choose|thread: int|
                0 <= thread < reports.len() && (#[trigger] reports[thread]).contains(path);
            if thread == 0 {
                let i = reports.first().index_of(path);
                assert(reports.flatten()[i] == path);
            } else {
                assert(rest[thread - 1] == reports[thread]);
                assert(reported_paths(rest).contains(path));
                let i = rest.flatten().index_of(path);
                assert(reports.flatten()[reports.first().len() + i] == path);
            }
        }
    }
}

} // verus!
