//! Bringing the library's tracks in line with files that were edited or
//! renamed: fresh details replace what differs, renamed paths take their
//! new names, and the search index is told when anything changed.
use vstd::prelude::*;

use crate::library::{LibrarySnapshot, LibraryTrack};
use crate::path_map::{pkey, PathMap};
use crate::queue_details::{copy_indexed, f32_bits_eq, opt_f32_eq, IndexedTrack};
use crate::text::{chars_eq, chars_of};

verus! {

/// A track with the fresh details taken where they differ.
pub open spec fn with_details(t: LibraryTrack, i: IndexedTrack) -> LibraryTrack {
    LibraryTrack {
        title: if t.title@ != i.title@ {
            i.title
        } else {
            t.title
        },
        artist: if t.artist@ != i.artist@ {
            i.artist
        } else {
            t.artist
        },
        album: if t.album@ != i.album@ {
            i.album
        } else {
            t.album
        },
        cover_path: if t.cover_path@ != i.cover_path@ {
            i.cover_path
        } else {
            t.cover_path
        },
        genre: if t.genre@ != i.genre@ {
            i.genre
        } else {
            t.genre
        },
        year: i.year,
        track_no: i.track_no,
        duration_bits: if !opt_f32_eq(t.duration_bits, i.duration_bits) {
            i.duration_bits
        } else {
            t.duration_bits
        },
        ..t
    }
}

/// Some field of the track differs from the fresh details.
pub open spec fn details_differ(t: LibraryTrack, i: IndexedTrack) -> bool {
    t.title@ != i.title@ || t.artist@ != i.artist@ || t.album@ != i.album@ || t.cover_path@ != i.cover_path@
        || t.genre@ != i.genre@ || t.year != i.year || t.track_no != i.track_no || !opt_f32_eq(
        t.duration_bits,
        i.duration_bits,
    )
}

/// A track after an edit: fresh details for its path, if any, taken.
pub open spec fn edited_track(t: LibraryTrack, idx: Map<Seq<Seq<char>>, IndexedTrack>) -> LibraryTrack {
    if idx.dom().contains(pkey(t.path@)) {
        with_details(t, idx[pkey(t.path@)])
    } else {
        t
    }
}

pub open spec fn edit_changes(t: LibraryTrack, idx: Map<Seq<Seq<char>>, IndexedTrack>) -> bool {
    idx.dom().contains(pkey(t.path@)) && details_differ(t, idx[pkey(t.path@)])
}

/// A track after a rename: its new path when the rename names another
/// place, then fresh details for the new path, if any.
pub open spec fn renamed_track(
    t: LibraryTrack,
    renames: Map<Seq<Seq<char>>, String>,
    idx: Map<Seq<Seq<char>>, IndexedTrack>,
) -> LibraryTrack {
    if !renames.dom().contains(pkey(t.path@)) {
        t
    } else {
        let np = renames[pkey(t.path@)];
        let moved = if pkey(t.path@) != pkey(np@) {
            LibraryTrack { path: np, ..t }
        } else {
            t
        };
        if idx.dom().contains(pkey(np@)) {
            with_details(moved, idx[pkey(np@)])
        } else {
            moved
        }
    }
}

pub open spec fn rename_changes(
    t: LibraryTrack,
    renames: Map<Seq<Seq<char>>, String>,
    idx: Map<Seq<Seq<char>>, IndexedTrack>,
) -> bool {
    renames.dom().contains(pkey(t.path@)) && {
        let np = renames[pkey(t.path@)];
        pkey(t.path@) != pkey(np@) || (idx.dom().contains(pkey(np@)) && details_differ(t, idx[pkey(np@)]))
    }
}

fn copy_opt_string_eq(a: &String, b: &String) -> (r: bool)
    ensures
        r == (a@ == b@),
{
    chars_eq(&chars_of(a.as_str()), &chars_of(b.as_str()))
}

fn opt_f32_equal(a: Option<u32>, b: Option<u32>) -> (r: bool)
    ensures
        r == opt_f32_eq(a, b),
{
    match (a, b) {
        (None, None) => true,
        (Some(x), Some(y)) => {
            let x_nan = (x / 0x80_0000) % 0x100 == 0xFF && x % 0x80_0000 != 0;
            let y_nan = (y / 0x80_0000) % 0x100 == 0xFF && y % 0x80_0000 != 0;
            let r = !x_nan && !y_nan && (x == y || (x % 0x8000_0000 == 0 && y % 0x8000_0000 == 0));
            assert(r == f32_bits_eq(x, y));
            r
        },
        _ => false,
    }
}

/// Takes the fresh details where they differ; says whether any did.
fn take_details(t: &mut LibraryTrack, i: &IndexedTrack) -> (r: bool)
    ensures
        *final(t) == with_details(*old(t), *i),
        r == details_differ(*old(t), *i),
{
    let mut changed = false;
    if !copy_opt_string_eq(&t.title, &i.title) {
        t.title = i.title.clone();
        changed = true;
    }
    if !copy_opt_string_eq(&t.artist, &i.artist) {
        t.artist = i.artist.clone();
        changed = true;
    }
    if !copy_opt_string_eq(&t.album, &i.album) {
        t.album = i.album.clone();
        changed = true;
    }
    if !copy_opt_string_eq(&t.cover_path, &i.cover_path) {
        t.cover_path = i.cover_path.clone();
        changed = true;
    }
    if !copy_opt_string_eq(&t.genre, &i.genre) {
        t.genre = i.genre.clone();
        changed = true;
    }
    if t.year != i.year {
        t.year = i.year;
        changed = true;
    }
    if t.track_no != i.track_no {
        t.track_no = i.track_no;
        changed = true;
    }
    if !opt_f32_equal(t.duration_bits, i.duration_bits) {
        t.duration_bits = i.duration_bits;
        changed = true;
    }
    changed
}

/// Brings every track whose path has fresh details in line with them;
/// when anything changed, the search revision moves on (saturating).
pub fn update_library_track_details(library: &mut LibrarySnapshot, indexed_by_path: &PathMap<IndexedTrack>) -> (r: bool)
    requires
        indexed_by_path.wf(),
    ensures
        final(library).tracks@ == old(library).tracks@.map_values(
            |t: LibraryTrack| edited_track(t, indexed_by_path.map()),
        ),
        r == exists|k: int| 0 <= k < old(library).tracks@.len() && edit_changes(#[trigger] old(library).tracks@[k], indexed_by_path.map()),
        final(library).search_revision == if r && old(library).search_revision < u64::MAX {
            (old(library).search_revision + 1) as u64
        } else {
            old(library).search_revision
        },
        final(library).roots == old(library).roots,
        final(library).scan_in_progress == old(library).scan_in_progress,
        final(library).scan_progress == old(library).scan_progress,
        final(library).last_error == old(library).last_error,
{
    let ghost orig = library.tracks@;
    let ghost idx = indexed_by_path.map();
    let mut tracks: Vec<LibraryTrack> = Vec::new();
    std::mem::swap(&mut tracks, &mut library.tracks);
    let mut out: Vec<LibraryTrack> = Vec::new();
    let mut changed = false;
    let mut i: usize = 0;
    let total = tracks.len();
    assert(tracks@.skip(0) =~= orig);
    while tracks.len() > 0
        invariant
            i + tracks@.len() == orig.len(),
            orig.len() == total,
            tracks@ == orig.skip(i as int),
            idx == indexed_by_path.map(),
            indexed_by_path.wf(),
            out@ == orig.take(i as int).map_values(|t: LibraryTrack| edited_track(t, idx)),
            changed == exists|k: int| 0 <= k < i && edit_changes(#[trigger] orig[k], idx),
        decreases tracks@.len(),
    {
        let mut t = tracks.remove(0);
        assert(t == orig[i as int]);
        assert(tracks@ =~= orig.skip(i + 1));
        let ghost t0 = t;
        match indexed_by_path.get(t.path.as_str()) {
            Some(d) => {
                if take_details(&mut t, d) {
                    changed = true;
                }
            },
            None => {},
        }
        assert(t == edited_track(t0, idx));
        assert(edit_changes(t0, idx) ==> changed);
        out.push(t);
        proof {
            assert(orig.take(i + 1) =~= orig.take(i as int).push(orig[i as int]));
            assert(out@ =~= orig.take(i + 1).map_values(|t: LibraryTrack| edited_track(t, idx)));
        }
        i += 1;
    }
    assert(orig.take(orig.len() as int) =~= orig);
    library.tracks = out;
    if changed {
        library.search_revision = if library.search_revision < u64::MAX {
            library.search_revision + 1
        } else {
            library.search_revision
        };
    }
    changed
}

/// A track with the cover of its path's fresh details, where that differs.
pub open spec fn with_cover(t: LibraryTrack, idx: Map<Seq<Seq<char>>, IndexedTrack>) -> LibraryTrack {
    if cover_changes(t, idx) {
        LibraryTrack { cover_path: idx[pkey(t.path@)].cover_path, ..t }
    } else {
        t
    }
}

pub open spec fn cover_changes(t: LibraryTrack, idx: Map<Seq<Seq<char>>, IndexedTrack>) -> bool {
    idx.dom().contains(pkey(t.path@)) && t.cover_path@ != idx[pkey(t.path@)].cover_path@
}

/// Gives every track whose path has fresh details their cover; when any
/// cover changed, the search revision moves on (saturating).
pub fn update_library_cover_paths(library: &mut LibrarySnapshot, indexed_by_path: &PathMap<IndexedTrack>) -> (r: bool)
    requires
        indexed_by_path.wf(),
    ensures
        final(library).tracks@ == old(library).tracks@.map_values(|t: LibraryTrack| with_cover(t, indexed_by_path.map())),
        r == exists|k: int| 0 <= k < old(library).tracks@.len() && cover_changes(#[trigger] old(library).tracks@[k], indexed_by_path.map()),
        final(library).search_revision == if r && old(library).search_revision < u64::MAX {
            (old(library).search_revision + 1) as u64
        } else {
            old(library).search_revision
        },
        final(library).roots == old(library).roots,
        final(library).scan_in_progress == old(library).scan_in_progress,
        final(library).scan_progress == old(library).scan_progress,
        final(library).last_error == old(library).last_error,
{
    let ghost orig = library.tracks@;
    let ghost idx = indexed_by_path.map();
    let mut tracks: Vec<LibraryTrack> = Vec::new();
    std::mem::swap(&mut tracks, &mut library.tracks);
    let mut out: Vec<LibraryTrack> = Vec::new();
    let mut changed = false;
    let mut i: usize = 0;
    let total = tracks.len();
    assert(tracks@.skip(0) =~= orig);
    while tracks.len() > 0
        invariant
            i + tracks@.len() == orig.len(),
            orig.len() == total,
            tracks@ == orig.skip(i as int),
            idx == indexed_by_path.map(),
            indexed_by_path.wf(),
            out@ == orig.take(i as int).map_values(|t: LibraryTrack| with_cover(t, idx)),
            changed == exists|k: int| 0 <= k < i && cover_changes(#[trigger] orig[k], idx),
        decreases tracks@.len(),
    {
        let mut t = tracks.remove(0);
        assert(t == orig[i as int]);
        assert(tracks@ =~= orig.skip(i + 1));
        let ghost t0 = t;
        match indexed_by_path.get(t.path.as_str()) {
            Some(d) => {
                if !copy_opt_string_eq(&t.cover_path, &d.cover_path) {
                    t.cover_path = d.cover_path.clone();
                    changed = true;
                }
            },
            None => {},
        }
        assert(t == with_cover(t0, idx));
        assert(cover_changes(t0, idx) ==> changed);
        out.push(t);
        proof {
            assert(orig.take(i + 1) =~= orig.take(i as int).push(orig[i as int]));
            assert(out@ =~= orig.take(i + 1).map_values(|t: LibraryTrack| with_cover(t, idx)));
        }
        i += 1;
    }
    assert(orig.take(orig.len() as int) =~= orig);
    library.tracks = out;
    if changed {
        library.search_revision = if library.search_revision < u64::MAX {
            library.search_revision + 1
        } else {
            library.search_revision
        };
    }
    changed
}

/// Gives renamed tracks their new paths and the fresh details of those
/// paths (`renames` maps old paths to new ones); when anything changed, the
/// search revision moves on (saturating).
pub fn apply_renamed_library_paths(
    library: &mut LibrarySnapshot,
    renames: &PathMap<String>,
    indexed_by_path: &PathMap<IndexedTrack>,
) -> (r: bool)
    requires
        renames.wf(),
        indexed_by_path.wf(),
    ensures
        final(library).tracks@ == old(library).tracks@.map_values(
            |t: LibraryTrack| renamed_track(t, renames.map(), indexed_by_path.map()),
        ),
        r == exists|k: int|
            0 <= k < old(library).tracks@.len() && rename_changes(
                #[trigger] old(library).tracks@[k],
                renames.map(),
                indexed_by_path.map(),
            ),
        final(library).search_revision == if r && old(library).search_revision < u64::MAX {
            (old(library).search_revision + 1) as u64
        } else {
            old(library).search_revision
        },
        final(library).roots == old(library).roots,
        final(library).scan_in_progress == old(library).scan_in_progress,
        final(library).scan_progress == old(library).scan_progress,
        final(library).last_error == old(library).last_error,
{
    let ghost orig = library.tracks@;
    let ghost rn = renames.map();
    let ghost idx = indexed_by_path.map();
    let mut tracks: Vec<LibraryTrack> = Vec::new();
    std::mem::swap(&mut tracks, &mut library.tracks);
    let mut out: Vec<LibraryTrack> = Vec::new();
    let mut changed = false;
    let mut i: usize = 0;
    let total = tracks.len();
    assert(tracks@.skip(0) =~= orig);
    while tracks.len() > 0
        invariant
            i + tracks@.len() == orig.len(),
            orig.len() == total,
            tracks@ == orig.skip(i as int),
            rn == renames.map(),
            idx == indexed_by_path.map(),
            renames.wf(),
            indexed_by_path.wf(),
            out@ == orig.take(i as int).map_values(|t: LibraryTrack| renamed_track(t, rn, idx)),
            changed == exists|k: int| 0 <= k < i && rename_changes(#[trigger] orig[k], rn, idx),
        decreases tracks@.len(),
    {
        let mut t = tracks.remove(0);
        assert(t == orig[i as int]);
        assert(tracks@ =~= orig.skip(i + 1));
        let ghost t0 = t;
        match renames.get(t.path.as_str()) {
            Some(np) => {
                let same = crate::path_map::same_place(t.path.as_str(), np.as_str());
                if !same {
                    t.path = np.clone();
                    changed = true;
                }
                let ghost moved = t;
                match indexed_by_path.get(np.as_str()) {
                    Some(d) => {
                        assert(details_differ(moved, *d) == details_differ(t0, *d));
                        if take_details(&mut t, d) {
                            changed = true;
                        }
                    },
                    None => {},
                }
            },
            None => {},
        }
        assert(t == renamed_track(t0, rn, idx));
        assert(rename_changes(t0, rn, idx) ==> changed);
        out.push(t);
        proof {
            assert(orig.take(i + 1) =~= orig.take(i as int).push(orig[i as int]));
            assert(out@ =~= orig.take(i + 1).map_values(|t: LibraryTrack| renamed_track(t, rn, idx)));
        }
        i += 1;
    }
    assert(orig.take(orig.len() as int) =~= orig);
    library.tracks = out;
    if changed {
        library.search_revision = if library.search_revision < u64::MAX {
            library.search_revision + 1
        } else {
            library.search_revision
        };
    }
    changed
}

/// Taking the same fresh details twice changes nothing the second time,
/// unless their duration is not a number (NaN never compares equal).
pub proof fn law_details_taken_once(t: LibraryTrack, i: IndexedTrack)
    requires
        match i.duration_bits {
            Some(b) => !crate::queue_details::f32_bits_nan(b),
            None => true,
        },
    ensures
        !details_differ(with_details(t, i), i),
        with_details(with_details(t, i), i) == with_details(t, i),
{
}

} // verus!
