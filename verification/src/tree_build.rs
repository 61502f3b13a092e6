//! Building the library tree from the tracks: each track is filed under
//! its root, artist, album and section folder, and each root's artists then
//! become the flat rows of the tree.
use vstd::prelude::*;

use crate::library::{components, file_name, LibraryRoot, LibrarySnapshot, LibraryTrack};
use crate::library_tree::{
    album_block, album_blocks, album_child_rows, artist_block_ok, artist_refs, artists_rows_ok,
    build_artist_rows_flat, encode_flat_rows, flat_rows_bytes, join_path, join_path_string, keys_view,
    rows_view, section_rows, sections_rows, track_rows, AlbumNodeBuilder, AlbumRowsSpec, ArtistNodeBuilder,
    ArtistRef, FlatTreeRow, ResolvedAlbum, ResolvedSection, RootNodeBuilder, RowView, TrackLeaf,
    ROW_TYPE_ROOT, ROW_TYPE_ALBUM, ROW_TYPE_ARTIST, artist_key,
};
use crate::search_context::{comps_view, context_artist, names_below, path_starts_with};
use crate::search_finalize::text_lt;
use crate::sorting::sort_seq;
use crate::text::{append_chars, chars_eq, chars_of, string_from_chars, trim, trim_str};
use crate::tree_keys::track_root;

verus! {

// ---------------------------------------------------------------------------
// Leaves
// ---------------------------------------------------------------------------

/// `Path::file_stem`: the file name without its last extension; a name
/// that starts with its only dot keeps it.
pub open spec fn file_stem(p: Seq<char>) -> Option<Seq<char>> {
    match file_name(p) {
        None => None,
        Some(name) => Some(stem_of(name, name.len() as int)),
    }
}

/// The part of `name` before its last dot among the first `i` characters
/// (the whole name when there is none, or when that dot is the first
/// character).
pub open spec fn stem_of(name: Seq<char>, i: int) -> Seq<char>
    decreases i,
{
    if i <= 0 {
        name
    } else if name[i - 1] == '.' {
        if i - 1 == 0 {
            name
        } else {
            name.take(i - 1)
        }
    } else {
        stem_of(name, i - 1)
    }
}

pub struct LeafView {
    pub path: Seq<char>,
    pub title: Seq<char>,
    pub file_stem: Seq<char>,
    pub album_tag: Seq<char>,
    pub cover_path: Seq<char>,
    pub year: Option<i32>,
    pub track_no: Option<u32>,
}

pub open spec fn leaf_view(l: TrackLeaf) -> LeafView {
    LeafView {
        path: l.path@,
        title: l.title@,
        file_stem: l.file_stem@,
        album_tag: l.album_tag@,
        cover_path: l.cover_path@,
        year: l.year,
        track_no: l.track_no,
    }
}

pub open spec fn leaf_views(v: Seq<TrackLeaf>) -> Seq<LeafView> {
    v.map_values(|l: TrackLeaf| leaf_view(l))
}

/// A track's title in the tree: its trimmed title, else its file stem, else
/// its path.
pub open spec fn tree_title(t: LibraryTrack) -> Seq<char> {
    if trim(t.title@).len() > 0 {
        trim(t.title@)
    } else {
        match file_stem(t.path@) {
            Some(s) => s,
            None => t.path@,
        }
    }
}

/// The leaf a track becomes.
pub open spec fn leaf_of(t: LibraryTrack) -> LeafView {
    LeafView {
        path: t.path@,
        title: tree_title(t),
        file_stem: match file_stem(t.path@) {
            Some(s) => s,
            None => Seq::empty(),
        },
        album_tag: trim(t.album@),
        cover_path: t.cover_path@,
        year: t.year,
        track_no: t.track_no,
    }
}

fn stem_exec(name: &Vec<char>) -> (r: Vec<char>)
    ensures
        r@ == stem_of(name@, name@.len() as int),
{
    let mut i: usize = name.len();
    while i > 0
        invariant
            i <= name@.len(),
            stem_of(name@, i as int) == stem_of(name@, name@.len() as int),
        decreases i,
    {
        if name[i - 1] == '.' {
            if i - 1 == 0 {
                let mut out: Vec<char> = Vec::new();
                append_chars(&mut out, name);
                return out;
            }
            let mut out: Vec<char> = Vec::new();
            let mut k: usize = 0;
            while k < i - 1
                invariant
                    i <= name@.len(),
                    k <= i - 1,
                    out@ == name@.take(k as int),
                decreases i - 1 - k,
            {
                out.push(name[k]);
                k += 1;
                assert(out@ =~= name@.take(k as int));
            }
            return out;
        }
        i -= 1;
    }
    let mut out: Vec<char> = Vec::new();
    append_chars(&mut out, name);
    out
}

pub(crate) fn file_stem_exec(path: &str) -> (r: Option<Vec<char>>)
    ensures
        match r {
            Some(s) => file_stem(path@) == Some(s@),
            None => file_stem(path@) is None,
        },
{
    match crate::library::file_name_of(path) {
        Some(name) => Some(stem_exec(&name)),
        None => None,
    }
}

/// The leaf a track becomes in the tree.
pub fn track_leaf(t: &LibraryTrack) -> (r: TrackLeaf)
    ensures
        leaf_view(r) == leaf_of(*t),
{
    let stem = file_stem_exec(t.path.as_str());
    let tt = trim_str(t.title.as_str());
    let title = if tt.len() > 0 {
        string_from_chars(&tt)
    } else {
        match &stem {
            Some(s) => string_from_chars(s),
            None => t.path.clone(),
        }
    };
    let file_stem_s = match &stem {
        Some(s) => string_from_chars(s),
        None => string_from_chars(&Vec::new()),
    };
    TrackLeaf {
        path: t.path.clone(),
        title,
        file_stem: file_stem_s,
        album_tag: string_from_chars(&trim_str(t.album.as_str())),
        cover_path: t.cover_path.clone(),
        year: t.year,
        track_no: t.track_no,
    }
}

// ---------------------------------------------------------------------------
// Builders as values
// ---------------------------------------------------------------------------

pub struct AlbumBuilderView {
    pub folder_name: Seq<char>,
    pub folder_path: Seq<char>,
    pub root_tracks: Seq<LeafView>,
    pub sections: Seq<(Seq<char>, Seq<LeafView>)>,
}

pub struct ArtistBuilderView {
    pub artist_name: Seq<char>,
    pub artist_path: Seq<char>,
    pub loose_tracks: Seq<LeafView>,
    pub albums: Seq<(Seq<char>, AlbumBuilderView)>,
}

pub struct RootBuilderView {
    pub root_path: Seq<char>,
    pub root_name: Seq<char>,
    pub artists: Seq<(Seq<char>, ArtistBuilderView)>,
}

pub open spec fn album_bview(a: AlbumNodeBuilder) -> AlbumBuilderView {
    AlbumBuilderView {
        folder_name: a.folder_name@,
        folder_path: a.folder_path@,
        root_tracks: leaf_views(a.root_tracks@),
        sections: a.sections@.map_values(|s: (String, Vec<TrackLeaf>)| (s.0@, leaf_views(s.1@))),
    }
}

pub open spec fn artist_bview(a: ArtistNodeBuilder) -> ArtistBuilderView {
    ArtistBuilderView {
        artist_name: a.artist_name@,
        artist_path: a.artist_path@,
        loose_tracks: leaf_views(a.loose_tracks@),
        albums: a.albums@.map_values(|p: (String, AlbumNodeBuilder)| (p.0@, album_bview(p.1))),
    }
}

pub open spec fn root_bview(r: RootNodeBuilder) -> RootBuilderView {
    RootBuilderView {
        root_path: r.root_path@,
        root_name: r.root_name@,
        artists: r.artists@.map_values(|p: (String, ArtistNodeBuilder)| (p.0@, artist_bview(p.1))),
    }
}

pub open spec fn keys_of<V>(m: Seq<(Seq<char>, V)>) -> Seq<Seq<char>> {
    m.map_values(|p: (Seq<char>, V)| p.0)
}

/// Where key `k` goes among `keys` from position `i` on: before the first
/// key that is not smaller.
pub open spec fn slot(keys: Seq<Seq<char>>, k: Seq<char>, i: int) -> int
    decreases keys.len() - i,
{
    if i < 0 || i >= keys.len() {
        keys.len() as int
    } else if !text_lt(keys[i], k) {
        i
    } else {
        slot(keys, k, i + 1)
    }
}

/// Puts `x` at position `i`: in place of the entry there when it has the
/// key, else inserted before it.
pub open spec fn place<V>(m: Seq<(Seq<char>, V)>, i: int, x: (Seq<char>, V)) -> Seq<(Seq<char>, V)> {
    if i < m.len() && m[i].0 == x.0 {
        m.update(i, x)
    } else {
        m.insert(i, x)
    }
}

pub open spec fn found_at<V>(m: Seq<(Seq<char>, V)>, i: int, k: Seq<char>) -> bool {
    i < m.len() && m[i].0 == k
}

proof fn lemma_slot_range(keys: Seq<Seq<char>>, k: Seq<char>, i: int)
    requires
        0 <= i <= keys.len(),
    ensures
        i <= slot(keys, k, i) <= keys.len(),
    decreases keys.len() - i,
{
    if i < keys.len() && text_lt(keys[i], k) {
        lemma_slot_range(keys, k, i + 1);
    }
}

// ---------------------------------------------------------------------------
// Filing one track
// ---------------------------------------------------------------------------

/// An album after a track is filed in it: in its section folder, when the
/// track lies one level deeper, else among its own tracks.
pub open spec fn album_with(b: AlbumBuilderView, names: Seq<Seq<char>>, leaf: LeafView) -> AlbumBuilderView {
    if names.len() >= 4 {
        let i = slot(keys_of(b.sections), names[2], 0);
        let s0 = if found_at(b.sections, i, names[2]) {
            b.sections[i].1
        } else {
            Seq::empty()
        };
        AlbumBuilderView { sections: place(b.sections, i, (names[2], s0.push(leaf))), ..b }
    } else {
        AlbumBuilderView { root_tracks: b.root_tracks.push(leaf), ..b }
    }
}

/// An artist after a track is filed under it: loose when the track lies
/// directly below the artist (or the root), else in its album folder.
pub open spec fn artist_with(
    a: ArtistBuilderView,
    root: Seq<char>,
    artist: Seq<char>,
    names: Seq<Seq<char>>,
    leaf: LeafView,
) -> ArtistBuilderView {
    if names.len() <= 2 {
        ArtistBuilderView { loose_tracks: a.loose_tracks.push(leaf), ..a }
    } else {
        let folder = names[1];
        let i = slot(keys_of(a.albums), folder, 0);
        let b0 = if found_at(a.albums, i, folder) {
            a.albums[i].1
        } else {
            AlbumBuilderView {
                folder_name: folder,
                folder_path: join_path(join_path(root, artist), folder),
                root_tracks: Seq::empty(),
                sections: Seq::empty(),
            }
        };
        ArtistBuilderView { albums: place(a.albums, i, (folder, album_with(b0, names, leaf))), ..a }
    }
}

/// A root's builder after a track of it is filed (nothing changes for a
/// track that does not lie below the root).
pub open spec fn insert_leaf_spec(rb: RootBuilderView, root: LibraryRoot, t: LibraryTrack) -> RootBuilderView {
    let names = names_below(t.path@, root.path@);
    if !path_starts_with(t.path@, root.path@) || names.len() == 0 {
        rb
    } else {
        let artist = context_artist(names, t.artist@);
        let artist_path = if names.len() >= 2 {
            join_path(root.path@, names[0])
        } else {
            root.path@
        };
        let i = slot(keys_of(rb.artists), artist, 0);
        let a0 = if found_at(rb.artists, i, artist) {
            rb.artists[i].1
        } else {
            ArtistBuilderView {
                artist_name: artist,
                artist_path,
                loose_tracks: Seq::empty(),
                albums: Seq::empty(),
            }
        };
        RootBuilderView {
            artists: place(rb.artists, i, (artist, artist_with(a0, root.path@, artist, names, leaf_of(t)))),
            ..rb
        }
    }
}

fn find_slot_sections(m: &Vec<(String, Vec<TrackLeaf>)>, k: &Vec<char>) -> (r: (usize, bool))
    ensures
        r.0 as int == slot(m@.map_values(|s: (String, Vec<TrackLeaf>)| s.0@), k@, 0),
        r.0 <= m@.len(),
        r.1 == (r.0 < m@.len() && m@[r.0 as int].0@ == k@),
{
    let ghost ks = m@.map_values(|s: (String, Vec<TrackLeaf>)| s.0@);
    let mut i: usize = 0;
    while i < m.len()
        invariant
            i <= m@.len(),
            ks == m@.map_values(|s: (String, Vec<TrackLeaf>)| s.0@),
            slot(ks, k@, i as int) == slot(ks, k@, 0),
        decreases m@.len() - i,
    {
        let key = chars_of(m[i].0.as_str());
        assert(ks[i as int] == key@);
        let lt = crate::lastfm::text_le_exec(&key, k) && !chars_eq(&key, k);
        if !lt {
            return (i, chars_eq(&key, k));
        }
        i += 1;
    }
    (i, false)
}

fn find_slot_albums(m: &Vec<(String, AlbumNodeBuilder)>, k: &Vec<char>) -> (r: (usize, bool))
    ensures
        r.0 as int == slot(m@.map_values(|s: (String, AlbumNodeBuilder)| s.0@), k@, 0),
        r.0 <= m@.len(),
        r.1 == (r.0 < m@.len() && m@[r.0 as int].0@ == k@),
{
    let ghost ks = m@.map_values(|s: (String, AlbumNodeBuilder)| s.0@);
    let mut i: usize = 0;
    while i < m.len()
        invariant
            i <= m@.len(),
            ks == m@.map_values(|s: (String, AlbumNodeBuilder)| s.0@),
            slot(ks, k@, i as int) == slot(ks, k@, 0),
        decreases m@.len() - i,
    {
        let key = chars_of(m[i].0.as_str());
        assert(ks[i as int] == key@);
        let lt = crate::lastfm::text_le_exec(&key, k) && !chars_eq(&key, k);
        if !lt {
            return (i, chars_eq(&key, k));
        }
        i += 1;
    }
    (i, false)
}

fn find_slot_artists(m: &Vec<(String, ArtistNodeBuilder)>, k: &Vec<char>) -> (r: (usize, bool))
    ensures
        r.0 as int == slot(m@.map_values(|s: (String, ArtistNodeBuilder)| s.0@), k@, 0),
        r.0 <= m@.len(),
        r.1 == (r.0 < m@.len() && m@[r.0 as int].0@ == k@),
{
    let ghost ks = m@.map_values(|s: (String, ArtistNodeBuilder)| s.0@);
    let mut i: usize = 0;
    while i < m.len()
        invariant
            i <= m@.len(),
            ks == m@.map_values(|s: (String, ArtistNodeBuilder)| s.0@),
            slot(ks, k@, i as int) == slot(ks, k@, 0),
        decreases m@.len() - i,
    {
        let key = chars_of(m[i].0.as_str());
        assert(ks[i as int] == key@);
        let lt = crate::lastfm::text_le_exec(&key, k) && !chars_eq(&key, k);
        if !lt {
            return (i, chars_eq(&key, k));
        }
        i += 1;
    }
    (i, false)
}

fn album_add(b: &mut AlbumNodeBuilder, names: &Vec<Vec<char>>, leaf: TrackLeaf)
    requires
        names@.len() >= 3,
    ensures
        album_bview(*final(b)) == album_with(album_bview(*old(b)), comps_view(names@), leaf_view(leaf)),
{
    let ghost bv = album_bview(*b);
    let ghost lv = leaf_view(leaf);
    if names.len() >= 4 {
        let sec = &names[2];
        assert(comps_view(names@)[2] == sec@);
        let ghost sv = bv.sections;
        assert(b.sections@.map_values(|s: (String, Vec<TrackLeaf>)| s.0@) =~= keys_of(sv));
        let (i, found) = find_slot_sections(&b.sections, sec);
        if found {
            let (key, mut tracks) = b.sections.remove(i);
            let ghost before = leaf_views(tracks@);
            tracks.push(leaf);
            assert(leaf_views(tracks@) =~= before.push(lv));
            let ghost item = (key@, leaf_views(tracks@));
            b.sections.insert(i, (key, tracks));
            assert(album_bview(*b).sections =~= sv.update(i as int, item));
        } else {
            let mut tracks: Vec<TrackLeaf> = Vec::new();
            tracks.push(leaf);
            assert(leaf_views(tracks@) =~= Seq::<LeafView>::empty().push(lv));
            let ghost item = (sec@, leaf_views(tracks@));
            b.sections.insert(i, (string_from_chars(sec), tracks));
            assert(album_bview(*b).sections =~= sv.insert(i as int, item));
        }
        assert(album_bview(*b) == album_with(bv, comps_view(names@), lv));
    } else {
        let ghost before = leaf_views(b.root_tracks@);
        b.root_tracks.push(leaf);
        assert(leaf_views(b.root_tracks@) =~= before.push(lv));
        assert(album_bview(*b) == album_with(bv, comps_view(names@), lv));
    }
}

fn artist_add(a: &mut ArtistNodeBuilder, root: &str, artist: &Vec<char>, names: &Vec<Vec<char>>, leaf: TrackLeaf)
    requires
        names@.len() >= 1,
    ensures
        artist_bview(*final(a)) == artist_with(artist_bview(*old(a)), root@, artist@, comps_view(names@), leaf_view(leaf)),
{
    let ghost av = artist_bview(*a);
    let ghost lv = leaf_view(leaf);
    if names.len() <= 2 {
        let ghost before = leaf_views(a.loose_tracks@);
        a.loose_tracks.push(leaf);
        assert(leaf_views(a.loose_tracks@) =~= before.push(lv));
        assert(artist_bview(*a) == artist_with(av, root@, artist@, comps_view(names@), lv));
        return;
    }
    let folder = &names[1];
    assert(comps_view(names@)[1] == folder@);
    let ghost albums = av.albums;
    assert(a.albums@.map_values(|s: (String, AlbumNodeBuilder)| s.0@) =~= keys_of(albums));
    let (i, found) = find_slot_albums(&a.albums, folder);
    if found {
        let (key, mut b) = a.albums.remove(i);
        album_add(&mut b, names, leaf);
        let ghost item = (key@, album_bview(b));
        a.albums.insert(i, (key, b));
        assert(artist_bview(*a).albums =~= albums.update(i as int, item));
    } else {
        let artist_s = string_from_chars(artist);
        let folder_s = string_from_chars(folder);
        let base = join_path_string(root, artist_s.as_str());
        let mut b = AlbumNodeBuilder {
            folder_name: string_from_chars(folder),
            folder_path: join_path_string(base.as_str(), folder_s.as_str()),
            root_tracks: Vec::new(),
            sections: Vec::new(),
        };
        assert(album_bview(b).root_tracks =~= Seq::<LeafView>::empty());
        assert(album_bview(b).sections =~= Seq::<(Seq<char>, Seq<LeafView>)>::empty());
        album_add(&mut b, names, leaf);
        let ghost item = (folder@, album_bview(b));
        a.albums.insert(i, (folder_s, b));
        assert(artist_bview(*a).albums =~= albums.insert(i as int, item));
    }
    assert(artist_bview(*a) == artist_with(av, root@, artist@, comps_view(names@), lv));
}

/// Files one track under its root's builder (see `insert_leaf_spec`).
pub fn insert_track_leaf(root_builder: &mut RootNodeBuilder, root: &LibraryRoot, track: &LibraryTrack)
    ensures
        root_bview(*final(root_builder)) == insert_leaf_spec(root_bview(*old(root_builder)), *root, *track),
{
    if !crate::search_context::path_starts_with_str(track.path.as_str(), root.path.as_str()) {
        return;
    }
    let names = crate::tree_keys::names_below_of(track.path.as_str(), root.path.as_str());
    let ghost nv = comps_view(names@);
    if names.len() == 0 {
        return;
    }
    let leaf = track_leaf(track);
    let artist: Vec<char> = if names.len() >= 2 {
        assert(nv[0] == names@[0]@);
        let mut a: Vec<char> = Vec::new();
        append_chars(&mut a, &names[0]);
        a
    } else {
        let t = trim_str(track.artist.as_str());
        if t.len() == 0 {
            chars_of("Unknown Artist")
        } else {
            t
        }
    };
    assert(artist@ == context_artist(nv, track.artist@));
    let artist_path = if names.len() >= 2 {
        let n0 = string_from_chars(&names[0]);
        join_path_string(root.path.as_str(), n0.as_str())
    } else {
        root.path.clone()
    };
    let ghost rv = root_bview(*root_builder);
    assert(root_builder.artists@.map_values(|s: (String, ArtistNodeBuilder)| s.0@) =~= keys_of(rv.artists));
    let (i, found) = find_slot_artists(&root_builder.artists, &artist);
    if found {
        let (key, mut a) = root_builder.artists.remove(i);
        artist_add(&mut a, root.path.as_str(), &artist, &names, leaf);
        let ghost item = (key@, artist_bview(a));
        root_builder.artists.insert(i, (key, a));
        assert(root_bview(*root_builder).artists =~= rv.artists.update(i as int, item));
    } else {
        let mut a = ArtistNodeBuilder {
            artist_name: string_from_chars(&artist),
            artist_path,
            loose_tracks: Vec::new(),
            albums: Vec::new(),
        };
        assert(artist_bview(a).loose_tracks =~= Seq::<LeafView>::empty());
        assert(artist_bview(a).albums =~= Seq::<(Seq<char>, AlbumBuilderView)>::empty());
        artist_add(&mut a, root.path.as_str(), &artist, &names, leaf);
        let ghost item = (artist@, artist_bview(a));
        root_builder.artists.insert(i, (string_from_chars(&artist), a));
        assert(root_bview(*root_builder).artists =~= rv.artists.insert(i as int, item));
    }
    assert(root_bview(*root_builder) == insert_leaf_spec(rv, *root, *track));
}

// ---------------------------------------------------------------------------
// All roots
// ---------------------------------------------------------------------------

/// A fresh builder for a root.
pub open spec fn fresh_root(root: LibraryRoot) -> RootBuilderView {
    RootBuilderView { root_path: root.path@, root_name: root.display_name_spec(), artists: Seq::empty() }
}

/// The builders of the first `n` roots, by path text in ascending order
/// (a later root with the same path text takes the place of an earlier).
pub open spec fn initial_builders(roots: Seq<LibraryRoot>, n: int) -> Seq<(Seq<char>, RootBuilderView)>
    decreases n,
{
    if n <= 0 {
        Seq::empty()
    } else {
        let prev = initial_builders(roots, n - 1);
        let k = roots[n - 1].path@;
        place(prev, slot(keys_of(prev), k, 0), (k, fresh_root(roots[n - 1])))
    }
}

/// The builders after the first `n` tracks are filed, each under the
/// builder of the root it belongs to.
pub open spec fn builders_after(roots: Seq<LibraryRoot>, tracks: Seq<LibraryTrack>, n: int) -> Seq<(Seq<char>, RootBuilderView)>
    decreases n,
{
    if n <= 0 {
        initial_builders(roots, roots.len() as int)
    } else {
        let prev = builders_after(roots, tracks, n - 1);
        let t = tracks[n - 1];
        match track_root(roots, t) {
            None => prev,
            Some(j) => {
                let k = roots[j].path@;
                let i = slot(keys_of(prev), k, 0);
                if found_at(prev, i, k) {
                    prev.update(i, (k, insert_leaf_spec(prev[i].1, roots[j], t)))
                } else {
                    prev
                }
            },
        }
    }
}

pub open spec fn builders_view(b: Seq<(String, RootNodeBuilder)>) -> Seq<(Seq<char>, RootBuilderView)> {
    b.map_values(|p: (String, RootNodeBuilder)| (p.0@, root_bview(p.1)))
}

fn find_slot_roots(m: &Vec<(String, RootNodeBuilder)>, k: &Vec<char>) -> (r: (usize, bool))
    ensures
        r.0 as int == slot(m@.map_values(|s: (String, RootNodeBuilder)| s.0@), k@, 0),
        r.0 <= m@.len(),
        r.1 == (r.0 < m@.len() && m@[r.0 as int].0@ == k@),
{
    let ghost ks = m@.map_values(|s: (String, RootNodeBuilder)| s.0@);
    let mut i: usize = 0;
    while i < m.len()
        invariant
            i <= m@.len(),
            ks == m@.map_values(|s: (String, RootNodeBuilder)| s.0@),
            slot(ks, k@, i as int) == slot(ks, k@, 0),
        decreases m@.len() - i,
    {
        let key = chars_of(m[i].0.as_str());
        assert(ks[i as int] == key@);
        let lt = crate::lastfm::text_le_exec(&key, k) && !chars_eq(&key, k);
        if !lt {
            return (i, chars_eq(&key, k));
        }
        i += 1;
    }
    (i, false)
}

/// One builder per root, with every track filed under its root.
pub fn build_root_builders(roots: &Vec<LibraryRoot>, tracks: &Vec<LibraryTrack>) -> (r: Vec<(String, RootNodeBuilder)>)
    ensures
        builders_view(r@) == builders_after(roots@, tracks@, tracks@.len() as int),
{
    let mut b: Vec<(String, RootNodeBuilder)> = Vec::new();
    let mut n: usize = 0;
    assert(builders_view(b@) =~= initial_builders(roots@, 0));
    while n < roots.len()
        invariant
            n <= roots@.len(),
            builders_view(b@) == initial_builders(roots@, n as int),
        decreases roots@.len() - n,
    {
        let root = &roots[n];
        let k = chars_of(root.path.as_str());
        let ghost bv = builders_view(b@);
        assert(b@.map_values(|s: (String, RootNodeBuilder)| s.0@) =~= keys_of(bv));
        let (i, found) = find_slot_roots(&b, &k);
        let fresh = RootNodeBuilder { root_path: root.path.clone(), root_name: root.display_name(), artists: Vec::new() };
        assert(root_bview(fresh).artists =~= Seq::<(Seq<char>, ArtistBuilderView)>::empty());
        let ghost item = (k@, root_bview(fresh));
        if found {
            b.set(i, (string_from_chars(&k), fresh));
            assert(builders_view(b@) =~= bv.update(i as int, item));
        } else {
            b.insert(i, (string_from_chars(&k), fresh));
            assert(builders_view(b@) =~= bv.insert(i as int, item));
        }
        n += 1;
    }
    let mut t: usize = 0;
    while t < tracks.len()
        invariant
            t <= tracks@.len(),
            builders_view(b@) == builders_after(roots@, tracks@, t as int),
        decreases tracks@.len() - t,
    {
        let track = &tracks[t];
        match crate::tree_keys::pick_root_for_track(roots, track) {
            None => {},
            Some(j) => {
                let root = &roots[j];
                let k = chars_of(root.path.as_str());
                let ghost bv = builders_view(b@);
                assert(b@.map_values(|s: (String, RootNodeBuilder)| s.0@) =~= keys_of(bv));
                let (i, found) = find_slot_roots(&b, &k);
                if found {
                    let (key, mut rb) = b.remove(i);
                    insert_track_leaf(&mut rb, root, track);
                    let ghost item = (key@, root_bview(rb));
                    b.insert(i, (key, rb));
                    assert(builders_view(b@) =~= bv.update(i as int, item));
                }
            },
        }
        t += 1;
    }
    b
}

/// The rows of one root: its own row first when the tree shows roots (at
/// depth 0, counting its artists), then its artists' rows.
pub open spec fn root_block_ok(
    b: RootNodeBuilder,
    multi: bool,
    mode: crate::modes::LibrarySortMode,
    keys: Option<Seq<String>>,
    images: Seq<(String, String)>,
    rows: Seq<RowView>,
) -> bool {
    if multi {
        rows.len() >= 1 && rows[0] == FlatTreeRow::root_view(0, b.root_path@, b.root_name@, b.artists@.len())
            && artists_rows_ok(
            sort_seq(artist_refs(b.artists@)),
            b.artists@,
            b.root_path@,
            mode,
            1,
            keys,
            images,
            rows.skip(1),
        )
    } else {
        artists_rows_ok(sort_seq(artist_refs(b.artists@)), b.artists@, b.root_path@, mode, 0, keys, images, rows)
    }
}

/// The rows of all roots, one block per root in order.
pub open spec fn tree_rows_ok(
    bs: Seq<(String, RootNodeBuilder)>,
    multi: bool,
    mode: crate::modes::LibrarySortMode,
    keys: Option<Seq<String>>,
    images: Seq<(String, String)>,
    rows: Seq<RowView>,
) -> bool
    decreases bs.len(),
{
    if bs.len() == 0 {
        rows.len() == 0
    } else {
        exists|n: int|
            0 <= n <= rows.len() && tree_rows_ok(bs.drop_last(), multi, mode, keys, images, rows.take(n))
                && root_block_ok(bs.last().1, multi, mode, keys, images, rows.skip(n))
    }
}

/// The flat rows of the library tree: none without roots; otherwise, for
/// the builders of its roots (see `build_root_builders`), each root's block
/// of rows, with root rows only when there are several roots.
pub fn build_library_tree_flat_rows(
    library: &LibrarySnapshot,
    sort_mode: crate::modes::LibrarySortMode,
    expanded_keys: Option<&Vec<String>>,
    images: &Vec<(String, String)>,
) -> (r: Vec<FlatTreeRow>)
    ensures
        library.roots@.len() == 0 ==> r@.len() == 0,
        library.roots@.len() > 0 ==> exists|bs: Seq<(String, RootNodeBuilder)>|
            #[trigger] builders_view(bs) == builders_after(library.roots@, library.tracks@, library.tracks@.len() as int)
                && tree_rows_ok(bs, library.roots@.len() >= 2, sort_mode, keys_view(expanded_keys), images@, rows_view(r@)),
{
    if library.roots.len() == 0 {
        return Vec::new();
    }
    let builders = build_root_builders(&library.roots, &library.tracks);
    let multi = library.roots.len() >= 2;
    let artist_depth: u16 = if multi { 1 } else { 0 };
    let ghost bs = builders@;
    let mut rows: Vec<FlatTreeRow> = Vec::new();
    let mut i: usize = 0;
    assert(bs.take(0) =~= Seq::<(String, RootNodeBuilder)>::empty());
    while i < builders.len()
        invariant
            i <= bs.len(),
            bs == builders@,
            artist_depth == (if multi { 1u16 } else { 0u16 }),
            tree_rows_ok(bs.take(i as int), multi, sort_mode, keys_view(expanded_keys), images@, rows_view(rows@)),
        decreases bs.len() - i,
    {
        let b = &builders[i].1;
        let ghost start = rows_view(rows@);
        let mut block = build_artist_rows_flat(b, b.root_path.as_str(), sort_mode, artist_depth, expanded_keys, images);
        let ghost artist_part = rows_view(block@);
        if multi {
            let root_row = FlatTreeRow::root(0, b.root_path.as_str(), b.root_name.as_str(), b.artists.len());
            rows.push(root_row);
        }
        rows.append(&mut block);
        proof {
            let n = start.len() as int;
            let now = rows_view(rows@);
            assert(now.take(n) =~= start);
            assert(bs.take(i + 1).drop_last() =~= bs.take(i as int));
            assert(bs.take(i + 1).last() == bs[i as int]);
            if multi {
                assert(now.skip(n).skip(1) =~= artist_part);
            } else {
                assert(now.skip(n) =~= artist_part);
            }
            assert(root_block_ok(bs[i as int].1, multi, sort_mode, keys_view(expanded_keys), images@, now.skip(n)));
            assert(tree_rows_ok(bs.take(i + 1), multi, sort_mode, keys_view(expanded_keys), images@, now));
        }
        i += 1;
    }
    assert(bs.take(bs.len() as int) =~= bs);
    rows
}

/// The library tree as bytes: its flat rows, encoded.
pub fn build_library_tree_flat_binary(
    library: &LibrarySnapshot,
    sort_mode: crate::modes::LibrarySortMode,
    expanded_keys: Option<&Vec<String>>,
    images: &Vec<(String, String)>,
) -> (r: Vec<u8>)
    ensures
        library.roots@.len() == 0 ==> r@ == flat_rows_bytes(Seq::empty()),
        library.roots@.len() > 0 ==> exists|rows: Seq<RowView>, bs: Seq<(String, RootNodeBuilder)>|
            #![trigger flat_rows_bytes(rows), builders_view(bs)]
            r@ == flat_rows_bytes(rows) && builders_view(bs) == builders_after(
                library.roots@,
                library.tracks@,
                library.tracks@.len() as int,
            ) && tree_rows_ok(bs, library.roots@.len() >= 2, sort_mode, keys_view(expanded_keys), images@, rows),
{
    let rows = build_library_tree_flat_rows(library, sort_mode, expanded_keys, images);
    let out = encode_flat_rows(&rows);
    proof {
        if library.roots@.len() == 0 {
            assert(rows_view(rows@) =~= Seq::<RowView>::empty());
        }
    }
    out
}


// ---------------------------------------------------------------------------
// Where root rows appear
// ---------------------------------------------------------------------------

/// The root rows among `rows`, in order.
pub open spec fn root_rows(rows: Seq<RowView>) -> Seq<RowView>
    decreases rows.len(),
{
    if rows.len() == 0 {
        seq![]
    } else if rows.last().row_type == ROW_TYPE_ROOT {
        root_rows(rows.drop_last()).push(rows.last())
    } else {
        root_rows(rows.drop_last())
    }
}

/// The root row of each builder, in order.
pub open spec fn roots_rows(bs: Seq<(String, RootNodeBuilder)>) -> Seq<RowView>
    decreases bs.len(),
{
    if bs.len() == 0 {
        seq![]
    } else {
        roots_rows(bs.drop_last()).push(
            FlatTreeRow::root_view(0, bs.last().1.root_path@, bs.last().1.root_name@, bs.last().1.artists@.len()),
        )
    }
}

proof fn lemma_root_rows_add(a: Seq<RowView>, b: Seq<RowView>)
    ensures
        root_rows(a + b) == root_rows(a) + root_rows(b),
    decreases b.len(),
{
    if b.len() == 0 {
        assert(a + b =~= a);
        assert(root_rows(a) + root_rows(b) =~= root_rows(a));
    } else {
        lemma_root_rows_add(a, b.drop_last());
        assert((a + b).drop_last() =~= a + b.drop_last());
        assert((a + b).last() == b.last());
        if b.last().row_type == ROW_TYPE_ROOT {
            assert(root_rows(a) + root_rows(b) =~= (root_rows(a) + root_rows(b.drop_last())).push(b.last()));
        }
    }
}

proof fn lemma_root_rows_single(r: RowView)
    ensures
        root_rows(seq![r]) == (if r.row_type == ROW_TYPE_ROOT {
            seq![r]
        } else {
            Seq::<RowView>::empty()
        }),
{
    let e = Seq::<RowView>::empty();
    assert(root_rows(e) == e);
    assert(seq![r].drop_last() =~= e);
    assert(seq![r].last() == r);
    assert(e.push(r) =~= seq![r]);
    assert(root_rows(seq![r]) == if r.row_type == ROW_TYPE_ROOT {
        root_rows(e).push(r)
    } else {
        root_rows(e)
    });
}

proof fn lemma_root_rows_split(rows: Seq<RowView>, n: int)
    requires
        0 <= n <= rows.len(),
    ensures
        root_rows(rows) == root_rows(rows.take(n)) + root_rows(rows.skip(n)),
{
    assert(rows =~= rows.take(n) + rows.skip(n));
    lemma_root_rows_add(rows.take(n), rows.skip(n));
}

proof fn lemma_no_root_rows_track(depth: u16, artist: Seq<char>, tracks: Seq<crate::library_tree::OrderedTrack>)
    ensures
        root_rows(track_rows(depth, artist, tracks)) == Seq::<RowView>::empty(),
    decreases tracks.len(),
{
    let rows = track_rows(depth, artist, tracks);
    if tracks.len() > 0 {
        lemma_no_root_rows_track(depth, artist, tracks.drop_last());
        assert(rows.drop_last() =~= track_rows(depth, artist, tracks.drop_last()));
    } else {
        assert(rows =~= Seq::<RowView>::empty());
    }
}

proof fn lemma_no_root_rows_sections(
    artist: Seq<char>,
    album: ResolvedAlbum,
    root: Seq<char>,
    sd: u16,
    td: u16,
    secs: Seq<ResolvedSection>,
)
    ensures
        root_rows(sections_rows(artist, album, root, sd, td, secs)) == Seq::<RowView>::empty(),
    decreases secs.len(),
{
    if secs.len() > 0 {
        lemma_no_root_rows_sections(artist, album, root, sd, td, secs.drop_last());
        let one = section_rows(artist, album, root, sd, td, secs.last());
        let tail = track_rows(td, artist, secs.last().tracks@);
        lemma_no_root_rows_track(td, artist, secs.last().tracks@);
        lemma_root_rows_add(seq![one[0]], tail);
        assert(one =~= seq![one[0]] + tail);
        assert(one[0].row_type == crate::library_tree::ROW_TYPE_SECTION);
        lemma_root_rows_single(one[0]);
        lemma_root_rows_add(sections_rows(artist, album, root, sd, td, secs.drop_last()), one);
    }
}

proof fn lemma_no_root_rows_albums(c: AlbumRowsSpec, albums: Seq<ResolvedAlbum>)
    ensures
        root_rows(album_blocks(c, albums)) == Seq::<RowView>::empty(),
    decreases albums.len(),
{
    if albums.len() > 0 {
        lemma_no_root_rows_albums(c, albums.drop_last());
        let a = albums.last();
        let block = album_block(c, a);
        let head = seq![block[0]];
        assert(block[0].row_type == crate::library_tree::ROW_TYPE_ALBUM);
        lemma_root_rows_single(block[0]);
        let kids = album_child_rows(c.artist, a, c.root, c.section_depth, c.track_depth);
        lemma_no_root_rows_track(c.section_depth, c.artist, a.root_tracks@);
        lemma_no_root_rows_sections(c.artist, a, c.root, c.section_depth, c.track_depth, a.sections@);
        lemma_root_rows_add(
            track_rows(c.section_depth, c.artist, a.root_tracks@),
            sections_rows(c.artist, a, c.root, c.section_depth, c.track_depth, a.sections@),
        );
        lemma_root_rows_add(head, kids);
        assert(block =~= head || block =~= head + kids);
        lemma_root_rows_add(album_blocks(c, albums.drop_last()), block);
    }
}

proof fn lemma_no_root_rows_artists(
    order: Seq<ArtistRef>,
    artists: Seq<(String, ArtistNodeBuilder)>,
    root: Seq<char>,
    mode: crate::modes::LibrarySortMode,
    depth: u16,
    keys: Option<Seq<String>>,
    images: Seq<(String, String)>,
    out: Seq<RowView>,
)
    requires
        artists_rows_ok(order, artists, root, mode, depth, keys, images, out),
    ensures
        root_rows(out) == Seq::<RowView>::empty(),
    decreases order.len(),
{
    if order.len() == 0 {
        assert(out =~= Seq::<RowView>::empty());
    } else {
        let n = choose|n: int|
            0 <= n <= out.len() && artists_rows_ok(order.drop_last(), artists, root, mode, depth, keys, images, out.take(n))
                && artist_block_ok(artists[order.last().index as int].1, root, mode, depth, keys, images, out.skip(n));
        lemma_no_root_rows_artists(order.drop_last(), artists, root, mode, depth, keys, images, out.take(n));
        let block = out.skip(n);
        let head = seq![block[0]];
        let a = artists[order.last().index as int].1;
        assert(block[0].row_type == crate::library_tree::ROW_TYPE_ARTIST);
        lemma_root_rows_single(block[0]);
        if block.len() == 1 {
            assert(block =~= head);
        } else {
            let (loose, resolved) = choose|loose: Seq<crate::library_tree::OrderedTrack>, resolved: Seq<ResolvedAlbum>|
                crate::library_tree::ordered_matches(loose, a.loose_tracks@)
                    && crate::library_tree::albums_ok(resolved, a.albums@, mode, images)
                    && block.skip(1) == track_rows(crate::library_tree::sat16(depth + 1), a.artist_name@, loose)
                    + album_blocks(crate::library_tree::artist_albums_spec(a.artist_name@, root, keys, depth), resolved);
            let c = crate::library_tree::artist_albums_spec(a.artist_name@, root, keys, depth);
            lemma_no_root_rows_track(crate::library_tree::sat16(depth + 1), a.artist_name@, loose);
            lemma_no_root_rows_albums(c, resolved);
            lemma_root_rows_add(
                track_rows(crate::library_tree::sat16(depth + 1), a.artist_name@, loose),
                album_blocks(c, resolved),
            );
            lemma_root_rows_split(block, 1);
            assert(block.take(1) =~= head);
        }
        lemma_root_rows_split(out, n);
    }
}

/// Root rows appear only when the tree shows several roots: then they are
/// exactly one row per root, in order, each opening that root's block
/// (before its artists), keyed `root|` and the root's path; with a single
/// root no row is a root row. Every artist row opens its artist's block and
/// is keyed `artist|`, the root's path, `|` and the artist name (see
/// `artist_block_ok`), so one artist under two roots has two keys.
pub proof fn law_root_rows_only_with_several_roots(
    bs: Seq<(String, RootNodeBuilder)>,
    multi: bool,
    mode: crate::modes::LibrarySortMode,
    keys: Option<Seq<String>>,
    images: Seq<(String, String)>,
    rows: Seq<RowView>,
)
    requires
        tree_rows_ok(bs, multi, mode, keys, images, rows),
    ensures
        root_rows(rows) == if multi {
            roots_rows(bs)
        } else {
            Seq::<RowView>::empty()
        },
    decreases bs.len(),
{
    if bs.len() == 0 {
        assert(rows =~= Seq::<RowView>::empty());
    } else {
        let n = choose|n: int|
            0 <= n <= rows.len() && tree_rows_ok(bs.drop_last(), multi, mode, keys, images, rows.take(n))
                && root_block_ok(bs.last().1, multi, mode, keys, images, rows.skip(n));
        law_root_rows_only_with_several_roots(bs.drop_last(), multi, mode, keys, images, rows.take(n));
        let block = rows.skip(n);
        let b = bs.last().1;
        if multi {
            lemma_no_root_rows_artists(
                sort_seq(artist_refs(b.artists@)),
                b.artists@,
                b.root_path@,
                mode,
                1,
                keys,
                images,
                block.skip(1),
            );
            lemma_root_rows_split(block, 1);
            assert(block.take(1) =~= seq![block[0]]);
            assert(block[0].row_type == ROW_TYPE_ROOT);
            lemma_root_rows_single(block[0]);
            assert(root_rows(block) =~= seq![block[0]]);
        } else {
            lemma_no_root_rows_artists(
                sort_seq(artist_refs(b.artists@)),
                b.artists@,
                b.root_path@,
                mode,
                0,
                keys,
                images,
                block,
            );
        }
        lemma_root_rows_split(rows, n);
    }
}


// ---------------------------------------------------------------------------
// How artist rows are keyed
// ---------------------------------------------------------------------------

/// Rows below artists: album, section and track rows only.
pub open spec fn below_artist_rows(rows: Seq<RowView>) -> bool {
    forall|i: int| 0 <= i < rows.len() ==> #[trigger] rows[i].row_type >= ROW_TYPE_ALBUM
}

/// Every artist row among `rows` sits at `depth` and is keyed by `root`
/// and its artist.
pub open spec fn artist_rows_keyed(rows: Seq<RowView>, root: Seq<char>, depth: u16) -> bool {
    forall|i: int|
        #![trigger rows[i]]
        0 <= i < rows.len() && rows[i].row_type == ROW_TYPE_ARTIST ==> rows[i].depth == depth && rows[i].key
            == artist_key(root, rows[i].artist)
}

/// Every artist row of a tree sits at `depth` and is keyed by the path of
/// one of the roots and its artist.
pub open spec fn tree_artist_rows_keyed(bs: Seq<(String, RootNodeBuilder)>, rows: Seq<RowView>, depth: u16) -> bool {
    forall|i: int|
        #![trigger rows[i]]
        0 <= i < rows.len() && rows[i].row_type == ROW_TYPE_ARTIST ==> rows[i].depth == depth && exists|j: int|
            0 <= j < bs.len() && rows[i].key == artist_key(#[trigger] bs[j].1.root_path@, rows[i].artist)
}

proof fn lemma_below_add(a: Seq<RowView>, b: Seq<RowView>)
    requires
        below_artist_rows(a),
        below_artist_rows(b),
    ensures
        below_artist_rows(a + b),
{
    assert forall|i: int| 0 <= i < (a + b).len() implies #[trigger] (a + b)[i].row_type >= ROW_TYPE_ALBUM by {
        if i < a.len() {
            assert((a + b)[i] == a[i]);
        } else {
            assert((a + b)[i] == b[i - a.len()]);
        }
    }
}

proof fn lemma_below_tracks(depth: u16, artist: Seq<char>, tracks: Seq<crate::library_tree::OrderedTrack>)
    ensures
        below_artist_rows(track_rows(depth, artist, tracks)),
{
    let rows = track_rows(depth, artist, tracks);
    assert forall|i: int| 0 <= i < rows.len() implies #[trigger] rows[i].row_type >= ROW_TYPE_ALBUM by {
        assert(rows[i].row_type == crate::library_tree::ROW_TYPE_TRACK);
    }
}

proof fn lemma_below_sections(
    artist: Seq<char>,
    album: ResolvedAlbum,
    root: Seq<char>,
    sd: u16,
    td: u16,
    secs: Seq<ResolvedSection>,
)
    ensures
        below_artist_rows(sections_rows(artist, album, root, sd, td, secs)),
    decreases secs.len(),
{
    if secs.len() > 0 {
        lemma_below_sections(artist, album, root, sd, td, secs.drop_last());
        let one = section_rows(artist, album, root, sd, td, secs.last());
        lemma_below_tracks(td, artist, secs.last().tracks@);
        assert(one[0].row_type == crate::library_tree::ROW_TYPE_SECTION);
        assert(below_artist_rows(seq![one[0]]));
        lemma_below_add(seq![one[0]], track_rows(td, artist, secs.last().tracks@));
        assert(one =~= seq![one[0]] + track_rows(td, artist, secs.last().tracks@));
        lemma_below_add(sections_rows(artist, album, root, sd, td, secs.drop_last()), one);
    } else {
        assert(sections_rows(artist, album, root, sd, td, secs) =~= Seq::<RowView>::empty());
    }
}

proof fn lemma_below_albums(c: AlbumRowsSpec, albums: Seq<ResolvedAlbum>)
    ensures
        below_artist_rows(album_blocks(c, albums)),
    decreases albums.len(),
{
    if albums.len() > 0 {
        lemma_below_albums(c, albums.drop_last());
        let a = albums.last();
        let block = album_block(c, a);
        let head = seq![block[0]];
        assert(block[0].row_type == ROW_TYPE_ALBUM);
        assert(below_artist_rows(head));
        let kids = album_child_rows(c.artist, a, c.root, c.section_depth, c.track_depth);
        lemma_below_tracks(c.section_depth, c.artist, a.root_tracks@);
        lemma_below_sections(c.artist, a, c.root, c.section_depth, c.track_depth, a.sections@);
        lemma_below_add(
            track_rows(c.section_depth, c.artist, a.root_tracks@),
            sections_rows(c.artist, a, c.root, c.section_depth, c.track_depth, a.sections@),
        );
        lemma_below_add(head, kids);
        assert(block =~= head || block =~= head + kids);
        lemma_below_add(album_blocks(c, albums.drop_last()), block);
    } else {
        assert(album_blocks(c, albums) =~= Seq::<RowView>::empty());
    }
}

proof fn lemma_keyed_add(a: Seq<RowView>, b: Seq<RowView>, root: Seq<char>, depth: u16)
    requires
        artist_rows_keyed(a, root, depth),
        artist_rows_keyed(b, root, depth),
    ensures
        artist_rows_keyed(a + b, root, depth),
{
    assert forall|i: int|
        #![trigger (a + b)[i]]
        0 <= i < (a + b).len() && (a + b)[i].row_type == ROW_TYPE_ARTIST implies (a + b)[i].depth == depth
            && (a + b)[i].key == artist_key(root, (a + b)[i].artist) by {
        if i < a.len() {
            assert((a + b)[i] == a[i]);
        } else {
            assert((a + b)[i] == b[i - a.len()]);
        }
    }
}

proof fn lemma_keyed_artists(
    order: Seq<ArtistRef>,
    artists: Seq<(String, ArtistNodeBuilder)>,
    root: Seq<char>,
    mode: crate::modes::LibrarySortMode,
    depth: u16,
    keys: Option<Seq<String>>,
    images: Seq<(String, String)>,
    out: Seq<RowView>,
)
    requires
        artists_rows_ok(order, artists, root, mode, depth, keys, images, out),
    ensures
        artist_rows_keyed(out, root, depth),
    decreases order.len(),
{
    if order.len() == 0 {
        assert(out.len() == 0);
    } else {
        let n = choose|n: int|
            0 <= n <= out.len() && artists_rows_ok(order.drop_last(), artists, root, mode, depth, keys, images, out.take(n))
                && artist_block_ok(artists[order.last().index as int].1, root, mode, depth, keys, images, out.skip(n));
        lemma_keyed_artists(order.drop_last(), artists, root, mode, depth, keys, images, out.take(n));
        let block = out.skip(n);
        let head = seq![block[0]];
        assert(artist_rows_keyed(head, root, depth)) by {
            assert(head[0] == block[0]);
        }
        let a = artists[order.last().index as int].1;
        if block.len() == 1 {
            assert(block =~= head);
        } else {
            let (loose, resolved) = choose|loose: Seq<crate::library_tree::OrderedTrack>, resolved: Seq<ResolvedAlbum>|
                crate::library_tree::ordered_matches(loose, a.loose_tracks@)
                    && crate::library_tree::albums_ok(resolved, a.albums@, mode, images)
                    && block.skip(1) == track_rows(crate::library_tree::sat16(depth + 1), a.artist_name@, loose)
                    + album_blocks(crate::library_tree::artist_albums_spec(a.artist_name@, root, keys, depth), resolved);
            let c = crate::library_tree::artist_albums_spec(a.artist_name@, root, keys, depth);
            let tr = track_rows(crate::library_tree::sat16(depth + 1), a.artist_name@, loose);
            lemma_below_tracks(crate::library_tree::sat16(depth + 1), a.artist_name@, loose);
            lemma_below_albums(c, resolved);
            lemma_below_add(tr, album_blocks(c, resolved));
            let rest = block.skip(1);
            assert(artist_rows_keyed(rest, root, depth)) by {
                assert forall|i: int| #![trigger rest[i]] 0 <= i < rest.len() implies rest[i].row_type
                    >= ROW_TYPE_ALBUM by {
                    assert(rest == tr + album_blocks(c, resolved));
                }
            }
            lemma_keyed_add(head, rest, root, depth);
            assert(block =~= head + rest);
        }
        lemma_keyed_add(out.take(n), block, root, depth);
        assert(out =~= out.take(n) + block);
    }
}

/// Every artist row of the tree sits just below the root rows when there
/// are several roots (at depth 1), at the top otherwise (depth 0), and is
/// keyed `artist|`, the path of one of the roots, `|` and the artist name;
/// within each root's block it is that root's path (see `artist_block_ok`).
/// So one artist under two roots has two distinct keys.
pub proof fn law_artist_rows_keyed_by_root(
    bs: Seq<(String, RootNodeBuilder)>,
    multi: bool,
    mode: crate::modes::LibrarySortMode,
    keys: Option<Seq<String>>,
    images: Seq<(String, String)>,
    rows: Seq<RowView>,
)
    requires
        tree_rows_ok(bs, multi, mode, keys, images, rows),
    ensures
        tree_artist_rows_keyed(bs, rows, if multi { 1u16 } else { 0u16 }),
    decreases bs.len(),
{
    let depth: u16 = if multi { 1u16 } else { 0u16 };
    if bs.len() == 0 {
        assert(rows.len() == 0);
    } else {
        let n = choose|n: int|
            0 <= n <= rows.len() && tree_rows_ok(bs.drop_last(), multi, mode, keys, images, rows.take(n))
                && root_block_ok(bs.last().1, multi, mode, keys, images, rows.skip(n));
        law_artist_rows_keyed_by_root(bs.drop_last(), multi, mode, keys, images, rows.take(n));
        let block = rows.skip(n);
        let b = bs.last().1;
        let root = b.root_path@;
        if multi {
            lemma_keyed_artists(sort_seq(artist_refs(b.artists@)), b.artists@, root, mode, 1, keys, images, block.skip(1));
            assert(block[0].row_type == ROW_TYPE_ROOT);
            assert(artist_rows_keyed(block, root, depth)) by {
                assert forall|i: int| #![trigger block[i]] 0 <= i < block.len() && block[i].row_type == ROW_TYPE_ARTIST
                    implies block[i].depth == depth && block[i].key == artist_key(root, block[i].artist) by {
                    assert(i > 0);
                    assert(block[i] == block.skip(1)[i - 1]);
                }
            }
        } else {
            lemma_keyed_artists(sort_seq(artist_refs(b.artists@)), b.artists@, root, mode, 0, keys, images, block);
        }
        let prev = rows.take(n);
        assert forall|i: int|
            #![trigger rows[i]]
            0 <= i < rows.len() && rows[i].row_type == ROW_TYPE_ARTIST implies rows[i].depth == depth && exists|j: int|
                0 <= j < bs.len() && rows[i].key == artist_key(#[trigger] bs[j].1.root_path@, rows[i].artist) by {
            if i < n {
                assert(rows[i] == prev[i]);
                let j = choose|j: int|
                    0 <= j < bs.drop_last().len() && prev[i].key == artist_key(
                        #[trigger] bs.drop_last()[j].1.root_path@,
                        prev[i].artist,
                    );
                assert(bs.drop_last()[j] == bs[j]);
            } else {
                assert(rows[i] == block[i - n]);
                assert(bs[bs.len() - 1].1.root_path@ == root);
            }
        }
    }
}

} // verus!
