//! Which library tracks an album selection from the tree queues: the
//! album's main listing, chosen by key or by artist and album name.
use vstd::prelude::*;

use crate::library::{LibraryRoot, LibrarySnapshot, LibraryTrack};
use crate::search_context::{context_spec, derive_tree_path_context, pick_root, TreePathContextView};
use crate::text::{chars_eq, chars_of, has_prefix, starts_with, trim, trim_str};

verus! {

/// Where a track sits in the tree, under the root that holds its path.
pub open spec fn tree_context(roots: Seq<LibraryRoot>, t: LibraryTrack) -> Option<TreePathContextView> {
    match pick_root(roots, t.path@) {
        None => None,
        Some(j) => context_spec(t.path@, roots[j].path@, roots[j].path@, roots[j].search_label_spec(), t.artist@),
    }
}

/// A track's artist tag, or "Unknown Artist" when it is blank.
pub open spec fn tag_artist(t: LibraryTrack) -> Seq<char> {
    if trim(t.artist@).len() == 0 {
        "Unknown Artist"@
    } else {
        t.artist@
    }
}

/// A track's album tag, or "Unknown Album" when it is blank.
pub open spec fn tag_album(t: LibraryTrack) -> Seq<char> {
    if trim(t.album@).len() == 0 {
        "Unknown Album"@
    } else {
        t.album@
    }
}

/// The track plays in the album's main listing.
pub open spec fn in_main_listing(c: TreePathContextView) -> bool {
    c.is_main_level_album_track || c.is_disc_section_album_track
}

/// Whether the (trimmed) selectors choose the track: an album key chooses
/// the main listing of that album; otherwise the artist (by key or name)
/// and the album folder name must match, and the track must be in the
/// main listing; a track outside every root is matched by its tags.
pub open spec fn album_selected(roots: Seq<LibraryRoot>, t: LibraryTrack, artist: Seq<char>, album: Seq<char>) -> bool {
    let ctx = tree_context(roots, t);
    if has_prefix(album, "album|"@) {
        match ctx {
            None => false,
            Some(c) => c.album_key == Some(album) && in_main_listing(c),
        }
    } else {
        let artist_matches = if has_prefix(artist, "artist|"@) {
            match ctx {
                Some(c) => c.artist_key == artist,
                None => false,
            }
        } else {
            match ctx {
                Some(c) => c.artist_name == artist,
                None => tag_artist(t) == artist,
            }
        };
        artist_matches && match ctx {
            Some(c) => (match c.album_folder {
                Some(f) => f,
                None => "Unknown Album"@,
            }) == album && in_main_listing(c),
            None => tag_album(t) == album,
        }
    }
}

/// The paths of the chosen tracks among the first `n`, in library order.
pub open spec fn album_paths_upto(
    roots: Seq<LibraryRoot>,
    tracks: Seq<LibraryTrack>,
    artist: Seq<char>,
    album: Seq<char>,
    n: int,
) -> Seq<Seq<char>>
    decreases n,
{
    if n <= 0 {
        Seq::empty()
    } else {
        let prev = album_paths_upto(roots, tracks, artist, album, n - 1);
        if album_selected(roots, tracks[n - 1], artist, album) {
            prev.push(tracks[n - 1].path@)
        } else {
            prev
        }
    }
}

fn selected(
    roots: &Vec<LibraryRoot>,
    t: &LibraryTrack,
    artist: &Vec<char>,
    album: &Vec<char>,
    artist_is_key: bool,
    album_is_key: bool,
) -> (r: bool)
    requires
        artist_is_key == has_prefix(artist@, "artist|"@),
        album_is_key == has_prefix(album@, "album|"@),
    ensures
        r == album_selected(roots@, *t, artist@, album@),
{
    proof {
        crate::search_context::lemma_pick_root_range(roots@, t.path@, roots@.len() as int);
    }
    let ctx = derive_tree_path_context(t.path.as_str(), roots, t.artist.as_str());
    assert(match ctx {
        Some(c) => tree_context(roots@, *t) == Some(c@),
        None => tree_context(roots@, *t) is None,
    });
    if album_is_key {
        return match &ctx {
            None => false,
            Some(c) => match &c.album_key {
                Some(k) => chars_eq(&chars_of(k.as_str()), album) && (c.is_main_level_album_track
                    || c.is_disc_section_album_track),
                None => false,
            },
        };
    }
    let artist_matches = if artist_is_key {
        match &ctx {
            Some(c) => chars_eq(&chars_of(c.artist_key.as_str()), artist),
            None => false,
        }
    } else {
        match &ctx {
            Some(c) => chars_eq(&chars_of(c.artist_name.as_str()), artist),
            None => {
                let tag = if trim_str(t.artist.as_str()).len() == 0 {
                    chars_of("Unknown Artist")
                } else {
                    chars_of(t.artist.as_str())
                };
                chars_eq(&tag, artist)
            },
        }
    };
    if !artist_matches {
        return false;
    }
    match &ctx {
        Some(c) => {
            let folder = match &c.album_folder {
                Some(f) => chars_of(f.as_str()),
                None => chars_of("Unknown Album"),
            };
            chars_eq(&folder, album) && (c.is_main_level_album_track || c.is_disc_section_album_track)
        },
        None => {
            let tag = if trim_str(t.album.as_str()).len() == 0 {
                chars_of("Unknown Album")
            } else {
                chars_of(t.album.as_str())
            };
            chars_eq(&tag, album)
        },
    }
}

/// The paths, in library order, of the tracks that an album selection
/// queues (see `album_selected`); nothing for a blank album selector.
pub fn collect_album_paths_for_queue(library: &LibrarySnapshot, artist: &str, album: &str) -> (r: Vec<String>)
    ensures
        trim(album@).len() == 0 ==> r@.len() == 0,
        trim(album@).len() > 0 ==> r@.map_values(|s: String| s@) == album_paths_upto(
            library.roots@,
            library.tracks@,
            trim(artist@),
            trim(album@),
            library.tracks@.len() as int,
        ),
{
    let artist_sel = trim_str(artist);
    let album_sel = trim_str(album);
    if album_sel.len() == 0 {
        return Vec::new();
    }
    let artist_is_key = starts_with(&artist_sel, &chars_of("artist|"));
    let album_is_key = starts_with(&album_sel, &chars_of("album|"));
    let mut out: Vec<String> = Vec::new();
    let mut i: usize = 0;
    while i < library.tracks.len()
        invariant
            i <= library.tracks@.len(),
            artist_sel@ == trim(artist@),
            album_sel@ == trim(album@),
            artist_is_key == has_prefix(artist_sel@, "artist|"@),
            album_is_key == has_prefix(album_sel@, "album|"@),
            out@.map_values(|s: String| s@) == album_paths_upto(
                library.roots@,
                library.tracks@,
                artist_sel@,
                album_sel@,
                i as int,
            ),
        decreases library.tracks@.len() - i,
    {
        let t = &library.tracks[i];
        if selected(&library.roots, t, &artist_sel, &album_sel, artist_is_key, album_is_key) {
            let ghost before = out@.map_values(|s: String| s@);
            out.push(t.path.clone());
            assert(out@.map_values(|s: String| s@) =~= before.push(t.path@));
        }
        i += 1;
    }
    out
}

} // verus!
