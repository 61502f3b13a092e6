//! What the bridge does once new album art was applied to files, and which
//! track number the playing track has.
use vstd::prelude::*;

use crate::bridge_loop::SnapshotUrgency;
use crate::library::{LibrarySnapshot, LibraryTrack};
use crate::library_updates::{update_library_cover_paths, with_cover};
use crate::path_map::{pkey, PathMap};
use crate::queue_details::{covers_upto, IndexedTrack, QueueDetailState, TrackFileFingerprint};

verus! {

/// What the caller does after new album art: report an error, ask the
/// metadata service for a track again, and how urgent a snapshot is.
#[derive(Debug, Clone)]
pub struct AlbumArtOutcome {
    pub report_error: Option<String>,
    pub request_metadata: Option<String>,
    pub urgency: SnapshotUrgency,
}

/// The cover the playing track shows after new album art: that of its
/// fresh details (none if blank), when it has fresh details.
pub open spec fn shown_cover(
    current: Option<String>,
    cover_art_path: Option<String>,
    idx: Map<Seq<Seq<char>>, IndexedTrack>,
) -> Option<Seq<char>> {
    match current {
        Some(c) => if idx.dom().contains(pkey(c@)) {
            let cover = idx[pkey(c@)].cover_path@;
            if cover.len() == 0 {
                None
            } else {
                Some(cover)
            }
        } else {
            match cover_art_path {
                Some(p) => Some(p@),
                None => None,
            }
        },
        None => match cover_art_path {
            Some(p) => Some(p@),
            None => None,
        },
    }
}

pub open spec fn opt_view(o: Option<String>) -> Option<Seq<char>> {
    match o {
        Some(s) => Some(s@),
        None => None,
    }
}

/// Album art was applied (`indexed_by_path`: fresh details of the files it
/// touched; `error`: what went wrong, if anything). An error is reported;
/// if no file was touched, nothing else happens. Otherwise library tracks
/// and queue entries take their files' new covers (see
/// `update_library_cover_paths`, `update_queue_cover_paths`), the playing
/// track shows its new cover, the metadata of `track_path` is asked for
/// again, and a snapshot is owed at once.
pub fn process_apply_album_art_event(
    track_path: String,
    indexed_by_path: &PathMap<IndexedTrack>,
    error: Option<String>,
    probes: &Vec<Option<TrackFileFingerprint>>,
    library: &mut LibrarySnapshot,
    details: &mut QueueDetailState,
    current: &Option<String>,
    cover_art_path: &mut Option<String>,
) -> (r: AlbumArtOutcome)
    requires
        indexed_by_path.wf(),
        old(details).wf(),
        probes@.len() == indexed_by_path.entries@.len(),
    ensures
        final(details).wf(),
        r.report_error == error,
        (error is Some && indexed_by_path.entries@.len() == 0) ==> {
            &&& r.request_metadata is None
            &&& r.urgency == SnapshotUrgency::Idle
            &&& *final(library) == *old(library)
            &&& final(details).sync_view(false, Seq::empty()) == old(details).sync_view(false, Seq::empty())
            &&& *final(cover_art_path) == *old(cover_art_path)
        },
        !(error is Some && indexed_by_path.entries@.len() == 0) ==> {
            &&& r.request_metadata == Some(track_path)
            &&& r.urgency == SnapshotUrgency::Immediate
            &&& final(library).tracks@ == old(library).tracks@.map_values(
                |t: LibraryTrack| with_cover(t, indexed_by_path.map()),
            )
            &&& final(library).roots == old(library).roots
            &&& final(details).sync_view(false, Seq::empty()) == covers_upto(
                old(details).sync_view(false, Seq::empty()),
                indexed_by_path.entries@,
                probes@,
                probes@.len() as int,
            )
            &&& opt_view(*final(cover_art_path)) == shown_cover(*current, *old(cover_art_path), indexed_by_path.map())
        },
{
    if error.is_some() && indexed_by_path.entries.len() == 0 {
        return AlbumArtOutcome { report_error: error, request_metadata: None, urgency: SnapshotUrgency::Idle };
    }
    update_library_cover_paths(library, indexed_by_path);
    details.update_queue_cover_paths(indexed_by_path, probes);
    match current {
        Some(c) => match indexed_by_path.get(c.as_str()) {
            Some(t) => {
                let next: Option<String> = if crate::text::chars_of(t.cover_path.as_str()).len() == 0 {
                    None
                } else {
                    Some(t.cover_path.clone())
                };
                *cover_art_path = next;
            },
            None => {},
        },
        None => {},
    }
    AlbumArtOutcome { report_error: error, request_metadata: Some(track_path), urgency: SnapshotUrgency::Immediate }
}

/// The first library track at the place `k`, if any.
pub open spec fn first_track_at(tracks: Seq<LibraryTrack>, k: Seq<Seq<char>>, n: int) -> Option<int>
    decreases n,
{
    if n <= 0 {
        None
    } else {
        match first_track_at(tracks, k, n - 1) {
            Some(i) => Some(i),
            None => if pkey(tracks[n - 1].path@) == k {
                Some(n - 1)
            } else {
                None
            },
        }
    }
}

/// The playing track's number: from its file's details if they have one,
/// else from the first library track at its place.
pub open spec fn track_number_of(
    current: Option<String>,
    idx: Map<Seq<Seq<char>>, IndexedTrack>,
    tracks: Seq<LibraryTrack>,
) -> Option<u32> {
    match current {
        None => None,
        Some(c) => {
            let k = pkey(c@);
            let from_details = if idx.dom().contains(k) {
                idx[k].track_no
            } else {
                None
            };
            match from_details {
                Some(n) => Some(n),
                None => match first_track_at(tracks, k, tracks.len() as int) {
                    Some(i) => tracks[i].track_no,
                    None => None,
                },
            }
        },
    }
}

proof fn lemma_first_track_in_range(tracks: Seq<LibraryTrack>, k: Seq<Seq<char>>, n: int)
    ensures
        match first_track_at(tracks, k, n) {
            Some(i) => 0 <= i < n && pkey(tracks[i].path@) == k,
            None => forall|j: int| 0 <= j < n ==> pkey(#[trigger] tracks[j].path@) != k,
        },
    decreases n,
{
    if n > 0 {
        lemma_first_track_in_range(tracks, k, n - 1);
    }
}

/// The playing track's number (see `track_number_of`).
pub fn current_track_number(
    current: &Option<String>,
    details: &PathMap<IndexedTrack>,
    library: &LibrarySnapshot,
) -> (r: Option<u32>)
    requires
        details.wf(),
    ensures
        r == track_number_of(*current, details.map(), library.tracks@),
{
    let path = match current {
        Some(p) => p,
        None => return None,
    };
    let from_details: Option<u32> = match details.get(path.as_str()) {
        Some(t) => t.track_no,
        None => None,
    };
    if let Some(n) = from_details {
        return Some(n);
    }
    let ghost k = pkey(path@);
    proof {
        lemma_first_track_in_range(library.tracks@, k, library.tracks@.len() as int);
    }
    let mut i: usize = 0;
    while i < library.tracks.len()
        invariant
            i <= library.tracks@.len(),
            k == pkey(path@),
            *current == Some(*path),
            (if details.map().dom().contains(k) {
                details.map()[k].track_no
            } else {
                None
            }) is None,
            first_track_at(library.tracks@, k, i as int) is None,
        decreases library.tracks@.len() - i,
    {
        if crate::path_map::same_place(library.tracks[i].path.as_str(), path.as_str()) {
            assert(first_track_at(library.tracks@, k, i + 1) == Some(i as int));
            proof {
                lemma_first_after(library.tracks@, k, i + 1, library.tracks@.len() as int);
            }
            return library.tracks[i].track_no;
        }
        i += 1;
    }
    None
}

proof fn lemma_first_after(tracks: Seq<LibraryTrack>, k: Seq<Seq<char>>, m: int, n: int)
    requires
        0 <= m <= n,
        first_track_at(tracks, k, m) is Some,
    ensures
        first_track_at(tracks, k, n) == first_track_at(tracks, k, m),
    decreases n - m,
{
    if n > m {
        lemma_first_after(tracks, k, m, n - 1);
    }
}

} // verus!
