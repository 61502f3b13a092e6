//! The play queue saved at exit and restored at start.
use vstd::prelude::*;

use crate::path_map::{pkey, same_place};

verus! {

/// The queue as saved: its tracks, the selected row and the track playing.
#[derive(Debug, Clone, PartialEq, Eq, Default)]
pub struct SessionSnapshot {
    pub queue: Vec<String>,
    pub selected_queue_index: Option<usize>,
    pub current_queue_index: Option<usize>,
    pub current_path: Option<String>,
}

pub open spec fn paths_view(q: Seq<String>) -> Seq<Seq<char>> {
    q.map_values(|p: String| p@)
}

/// Each path as the place it names (its components: `PathBuf` equality).
pub open spec fn places_view(q: Seq<String>) -> Seq<Seq<Seq<char>>> {
    q.map_values(|p: String| pkey(p@))
}

pub open spec fn opt_place(p: Option<String>) -> Option<Seq<Seq<char>>> {
    match p {
        Some(s) => Some(pkey(s@)),
        None => None,
    }
}

/// The first position of `p` in `q`, or `None`.
pub open spec fn position_of(q: Seq<Seq<Seq<char>>>, p: Seq<Seq<char>>) -> Option<int> {
    if exists|i: int| 0 <= i < q.len() && q[i] == p {
        Some(choose|i: int| 0 <= i < q.len() && q[i] == p && forall|j: int| 0 <= j < i ==> q[j] != p)
    } else {
        None
    }
}

/// Where playback resumes: the saved index when it is inside the queue,
/// else the first position of the saved track (the first entry naming the
/// same place), if any.
pub open spec fn resolve_spec(q: Seq<Seq<Seq<char>>>, index: Option<usize>, path: Option<Seq<Seq<char>>>) -> Option<int> {
    match index {
        Some(i) if i < q.len() => Some(i as int),
        _ => match path {
            Some(p) => position_of(q, p),
            None => None,
        },
    }
}

fn find_position(queue: &Vec<String>, path: &String) -> (r: Option<usize>)
    ensures
        match r {
            Some(i) => i < queue@.len() && pkey(queue@[i as int]@) == pkey(path@) && forall|j: int|
                0 <= j < i ==> pkey(#[trigger] queue@[j]@) != pkey(path@),
            None => forall|j: int| 0 <= j < queue@.len() ==> pkey(#[trigger] queue@[j]@) != pkey(path@),
        },
{
    let mut i: usize = 0;
    while i < queue.len()
        invariant
            i <= queue@.len(),
            forall|j: int| 0 <= j < i ==> pkey(#[trigger] queue@[j]@) != pkey(path@),
        decreases queue@.len() - i,
    {
        if same_place(queue[i].as_str(), path.as_str()) {
            return Some(i);
        }
        i += 1;
    }
    None
}

pub open spec fn opt_path(p: Option<&String>) -> Option<Seq<Seq<char>>> {
    match p {
        Some(s) => Some(pkey(s@)),
        None => None,
    }
}

pub fn resolve_session_current_index(
    queue: &Vec<String>,
    current_queue_index: Option<usize>,
    current_path: Option<&String>,
) -> (r: Option<usize>)
    ensures
        match resolve_spec(places_view(queue@), current_queue_index, opt_path(current_path)) {
            Some(i) => r == Some(i as usize),
            None => r is None,
        },
        r matches Some(i) ==> i < queue@.len(),
        resolve_spec(places_view(queue@), current_queue_index, opt_path(current_path)) matches Some(
            i,
        ) ==> 0 <= i < queue@.len(),
{
    let ghost q = places_view(queue@);
    if let Some(idx) = current_queue_index {
        if idx < queue.len() {
            return Some(idx);
        }
    }
    match current_path {
        Some(path) => {
            let found = find_position(queue, path);
            let ghost k = pkey(path@);
            proof {
                match found {
                    Some(i) => {
                        assert(q[i as int] == k);
                        assert(exists|m: int| 0 <= m < q.len() && q[m] == k);
                        let c = choose|m: int|
                            0 <= m < q.len() && q[m] == k && forall|j: int|
                                0 <= j < m ==> q[j] != k;
                        assert(forall|j: int| 0 <= j < i ==> q[j] != k) by {
                            assert forall|j: int| 0 <= j < i implies q[j] != k by {
                                assert(pkey(queue@[j]@) != k);
                            }
                        }
                        if c < i {
                            assert(pkey(queue@[c]@) != k);
                        } else if c > i {
                            assert(q[i as int] != k);
                        }
                    },
                    None => {
                        assert forall|m: int| 0 <= m < q.len() implies q[m] != k by {
                            assert(pkey(queue@[m]@) != k);
                        }
                    },
                }
            }
            found
        },
        None => None,
    }
}

/// What restoring a session does: the queue it loads, the row it selects,
/// and where playback resumes.
#[derive(Debug, Clone)]
pub struct SessionRestore {
    pub queue: Vec<String>,
    pub selected_queue_index: Option<usize>,
    pub current_queue_index: Option<usize>,
    pub current_path: Option<String>,
}

pub fn copy_paths(q: &Vec<String>) -> (r: Vec<String>)
    ensures
        paths_view(r@) == paths_view(q@),
{
    let mut out: Vec<String> = Vec::new();
    let mut i: usize = 0;
    while i < q.len()
        invariant
            i <= q@.len(),
            paths_view(out@) == paths_view(q@.take(i as int)),
        decreases q@.len() - i,
    {
        let p = q[i].clone();
        let ghost prev = out@;
        out.push(p);
        assert(out@ == prev.push(q@[i as int]));
        assert(q@.take(i + 1) =~= q@.take(i as int).push(q@[i as int]));
        assert(paths_view(out@) =~= paths_view(prev).push(q@[i as int]@));
        assert(paths_view(q@.take(i + 1)) =~= paths_view(q@.take(i as int)).push(q@[i as int]@));
        i += 1;
    }
    assert(q@.take(q@.len() as int) =~= q@);
    out
}

fn path_at(queue: &Vec<String>, idx: Option<usize>) -> (r: Option<String>)
    requires
        idx matches Some(i) ==> i < queue@.len(),
    ensures
        match idx {
            Some(i) => crate::scrobbling::opt_string(r) == Some(queue@[i as int]@),
            None => r is None,
        },
{
    match idx {
        Some(i) => Some(queue[i].clone()),
        None => None,
    }
}

/// Restores a saved session: the queue comes back as saved; the selection
/// stays if it is inside the queue, else it follows the resumed track;
/// playback resumes at the resolved index (see `resolve_spec`). The caller
/// loads the queue into the player when it is not empty and starts the
/// resumed track.
pub fn apply_session_restore(session: &SessionSnapshot) -> (r: SessionRestore)
    ensures
        paths_view(r.queue@) == paths_view(session.queue@),
        ({
            let cur = resolve_spec(
                places_view(session.queue@),
                session.current_queue_index,
                opt_place(session.current_path),
            );
            &&& (match cur {
                Some(i) => r.current_queue_index == Some(i as usize) && crate::scrobbling::opt_string(
                    r.current_path,
                ) == Some(paths_view(session.queue@)[i]),
                None => r.current_queue_index is None && r.current_path is None,
            })
            &&& r.selected_queue_index == match session.selected_queue_index {
                Some(s) if s < session.queue@.len() => Some(s),
                _ => r.current_queue_index,
            }
        }),
{
    let queue = copy_paths(&session.queue);
    let cp: Option<&String> = match &session.current_path {
        Some(p) => Some(p),
        None => None,
    };
    let current = resolve_session_current_index(&queue, session.current_queue_index, cp);
    assert(opt_path(cp) == opt_place(session.current_path));
    assert(queue@.len() == session.queue@.len()) by {
        assert(paths_view(queue@).len() == paths_view(session.queue@).len());
    }
    let selected = match session.selected_queue_index {
        Some(s) if s < queue.len() => Some(s),
        _ => current,
    };
    let current_path = path_at(&queue, current);
    let qlen = queue.len();
    proof {
        let cur = resolve_spec(
            places_view(session.queue@),
            session.current_queue_index,
            opt_place(session.current_path),
        );
        assert(paths_view(queue@) == paths_view(session.queue@));
        assert forall|k: int| 0 <= k < queue@.len() implies #[trigger] places_view(queue@)[k] == places_view(session.queue@)[k] by {
            assert(paths_view(queue@)[k] == paths_view(session.queue@)[k]);
        }
        assert(places_view(queue@) =~= places_view(session.queue@));
        match cur {
            Some(i) => {
                assert(0 <= i < queue@.len());
                assert(i < qlen);
                assert((i as usize) as int == i);
                assert(current == Some(i as usize));
                assert(current_path is Some);
                assert(paths_view(session.queue@)[i] == paths_view(queue@)[i]);
                assert(crate::scrobbling::opt_string(current_path) == Some(queue@[i]@));
            },
            None => {},
        }
    }
    SessionRestore { queue, selected_queue_index: selected, current_queue_index: current, current_path }
}

/// Whether the details of queued files are checked right after start: when
/// the restored queue holds tracks and the library is already loaded.
pub fn should_sync_queue_details_on_initial_restore(queue: &Vec<String>, library_track_count: usize) -> (r: bool)
    ensures
        r == (queue@.len() > 0 && library_track_count > 0),
{
    queue.len() > 0 && library_track_count > 0
}

} // verus!
