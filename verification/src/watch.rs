//! Watched paths and what the watch backend may answer.

use vstd::prelude::*;

verus! {

/// Whether a watch covers what lies below the path.
#[derive(Clone, Copy, Debug, PartialEq, Eq, Structural)]
pub enum WatchMode {
    Recursive,
    NonRecursive,
}

/// What the caller found at a path when it looked.
#[derive(Clone, Copy, Debug, PartialEq, Eq, Structural)]
pub enum PathStatus {
    /// Nothing is there.
    Missing,
    /// Something may be there, but the caller was not allowed to look.
    Inaccessible,
    File,
    Directory,
    /// Something is there that is neither a file nor a directory.
    Other,
}

/// Why the watch backend refused, as the backend tells it.
#[derive(Clone, Copy, Debug, PartialEq, Eq, Structural)]
pub enum BackendFailure {
    /// The backend found nothing at the path.
    PathNotFound,
    /// An I/O error saying that the path does not exist.
    IoNotFound,
    /// An I/O error saying that access to the path was denied.
    IoPermissionDenied,
    /// Any other I/O error.
    IoOther,
    /// The backend holds no watch on the path.
    WatchNotFound,
    /// The backend rejected its configuration.
    InvalidConfig,
    /// The operating system has no watch left to give.
    MaxFilesWatch,
    /// A failure the backend does not describe further.
    Generic,
}

/// The two ways a registration can fail.
#[derive(Clone, Copy, Debug, PartialEq, Eq, Structural)]
pub enum WatchError {
    /// The path does not exist or cannot be reached. The path is skipped.
    PathUnavailable,
    /// The backend itself cannot go on. Fatal to the monitor.
    BackendInit,
}

/// The failures that concern one path only; all others concern the backend.
pub open spec fn path_unavailable(failure: BackendFailure) -> bool {
    failure == BackendFailure::PathNotFound || failure == BackendFailure::IoNotFound || failure
        == BackendFailure::IoPermissionDenied
}

/// The registration error that a backend failure amounts to.
pub open spec fn watch_error_of(failure: BackendFailure) -> WatchError {
    if path_unavailable(failure) {
        WatchError::PathUnavailable
    } else {
        WatchError::BackendInit
    }
}

/// The mode in which a path of the given status is watched: a directory
/// recursively, a file by itself, anything else not at all.
pub open spec fn watch_mode_of(status: PathStatus) -> Option<WatchMode> {
    match status {
        PathStatus::Directory => Some(WatchMode::Recursive),
        PathStatus::File => Some(WatchMode::NonRecursive),
        PathStatus::Missing => None,
        PathStatus::Inaccessible => None,
        PathStatus::Other => None,
    }
}

impl WatchError {
    /// Computes [`watch_error_of`].
    pub fn from_failure(failure: BackendFailure) -> (error: WatchError)
        ensures
            error == watch_error_of(failure),
    {
        match failure {
            BackendFailure::PathNotFound => WatchError::PathUnavailable,
            BackendFailure::IoNotFound => WatchError::PathUnavailable,
            BackendFailure::IoPermissionDenied => WatchError::PathUnavailable,
            BackendFailure::IoOther => WatchError::BackendInit,
            BackendFailure::WatchNotFound => WatchError::BackendInit,
            BackendFailure::InvalidConfig => WatchError::BackendInit,
            BackendFailure::MaxFilesWatch => WatchError::BackendInit,
            BackendFailure::Generic => WatchError::BackendInit,
        }
    }
}

impl WatchMode {
    /// Computes [`watch_mode_of`].
    pub fn for_status(status: PathStatus) -> (mode: Option<WatchMode>)
        ensures
            mode == watch_mode_of(status),
    {
        match status {
            PathStatus::Directory => Some(WatchMode::Recursive),
            PathStatus::File => Some(WatchMode::NonRecursive),
            PathStatus::Missing => None,
            PathStatus::Inaccessible => None,
            PathStatus::Other => None,
        }
    }
}

/// One entry of the watched set.
#[derive(Clone, Debug, PartialEq, Eq)]
pub struct WatchedPath {
    pub path: String,
    pub mode: WatchMode,
}

/// Mathematical model of a [`WatchedPath`].
pub struct WatchedPathView {
    pub path: Seq<char>,
    pub mode: WatchMode,
}

impl DeepView for WatchedPath {
    type V = WatchedPathView;

    open spec fn deep_view(&self) -> WatchedPathView {
        WatchedPathView { path: self.path@, mode: self.mode }
    }
}

impl View for WatchedPath {
    type V = WatchedPathView;

    open spec fn view(&self) -> WatchedPathView {
        self.deep_view()
    }
}

/// The paths of `paths` without repetitions, each at the place of its first
/// occurrence.
pub open spec fn distinct_paths(paths: Seq<Seq<char>>) -> Seq<Seq<char>>
    decreases paths.len(),
{
    if paths.len() == 0 {
        Seq::empty()
    } else {
        let earlier = distinct_paths(paths.drop_last());
        if earlier.contains(paths.last()) {
            earlier
        } else {
            earlier.push(paths.last())
        }
    }
}

/// The watched set that a list of configured paths gives: its distinct paths,
/// each watched recursively until it is known to be a single file.
pub open spec fn watched_set_of(paths: Seq<Seq<char>>) -> Seq<WatchedPathView> {
    distinct_paths(paths).map_values(
        |p: Seq<char>| WatchedPathView { path: p, mode: WatchMode::Recursive },
    )
}

/// The paths of a watched set, in its order.
pub open spec fn paths_of(watched: Seq<WatchedPathView>) -> Seq<Seq<char>> {
    watched.map_values(|w: WatchedPathView| w.path)
}

/// `distinct_paths` repeats nothing, loses nothing and adds nothing.
pub proof fn lemma_distinct_paths(paths: Seq<Seq<char>>)
    ensures
        distinct_paths(paths).no_duplicates(),
        forall|p: Seq<char>| distinct_paths(paths).contains(p) <==> paths.contains(p),
        distinct_paths(paths).len() <= paths.len(),
    decreases paths.len(),
{
    if paths.len() > 0 {
        let front = paths.drop_last();
        let earlier = distinct_paths(front);
        lemma_distinct_paths(front);
        let all = distinct_paths(paths);
        assert forall|p: Seq<char>| all.contains(p) <==> paths.contains(p) by {
            if paths.contains(p) {
                let j = choose|j: int| 0 <= j < paths.len() && paths[j] == p;
                if j < front.len() {
                    assert(front[j] == p);
                    assert(front.contains(p));
                    let k = choose|k: int| 0 <= k < earlier.len() && earlier[k] == p;
                    assert(all[k] == p);
                } else if !earlier.contains(p) {
                    assert(all[all.len() - 1] == p);
                }
            }
            if all.contains(p) {
                let k = choose|k: int| 0 <= k < all.len() && all[k] == p;
                if k < earlier.len() {
                    assert(front.contains(p));
                }
            }
        }
    }
}

/// Builds the watched set of a list of configured paths.
pub fn watched_set(paths: Vec<String>) -> (watched: Vec<WatchedPath>)
    ensures
        watched.deep_view() == watched_set_of(paths.deep_view()),
        paths_of(watched.deep_view()).no_duplicates(),
{
    let ghost all = paths.deep_view();
    let ghost items = paths@;
    let mut watched: Vec<WatchedPath> = Vec::new();
    for path in it: paths.into_iter()
        invariant
            it.seq() == items,
            all == Seq::new(items.len(), |i: int| items[i].deep_view()),
            watched.deep_view() == watched_set_of(all.take(it.index() as int)),
    {
        let ghost done = all.take(it.index() as int);
        let ghost next = all.take(it.index() + 1);
        let ghost before = watched.deep_view();
        assert(next.drop_last() =~= done);
        let mut known = false;
        let mut k: usize = 0;
        while k < watched.len()
            invariant
                0 <= k <= watched.len(),
                before == watched.deep_view(),
                before == watched_set_of(done),
                before.len() == distinct_paths(done).len(),
                known <==> exists|j: int| 0 <= j < k && distinct_paths(done)[j] == path@,
            decreases watched.len() - k,
        {
            assert(before[k as int].path == distinct_paths(done)[k as int]);
            if watched[k].path == path {
                known = true;
            }
            k += 1;
        }
        if !known {
            watched.push(WatchedPath { path, mode: WatchMode::Recursive });
            assert(watched.deep_view() =~= before.push(
                WatchedPathView { path: path@, mode: WatchMode::Recursive },
            ));
        }
    }
    proof {
        assert(all.take(all.len() as int) =~= all);
        lemma_distinct_paths(all);
    }
    watched
}

} // verus!
