//! The artist and album nodes that the library tree has, by key: how many
//! there are, and which expanded keys still name one.
use vstd::prelude::*;

use crate::library::{LibraryRoot, LibrarySnapshot, LibraryTrack};
use crate::library_tree::{album_key, album_row_key, artist_key, artist_row_key};
use crate::search_context::{
    comps_view, context_artist, names_below, path_components, path_components_of, path_starts_with,
    pick_root, pick_root_for_path,
};
use crate::text::{chars_eq, chars_of, string_from_chars, trim_str};

verus! {

/// The first root whose path equals `p` (paths are equal when their
/// components are).
pub open spec fn equal_root_from(roots: Seq<LibraryRoot>, p: Seq<char>, i: int) -> Option<int>
    decreases roots.len() - i,
{
    if i < 0 || i >= roots.len() {
        None
    } else if path_components(roots[i].path@) == path_components(p) {
        Some(i)
    } else {
        equal_root_from(roots, p, i + 1)
    }
}

/// The root a track belongs to: the root its root path names, if it has
/// one, else the root that holds its path.
pub open spec fn track_root(roots: Seq<LibraryRoot>, t: LibraryTrack) -> Option<int> {
    if t.root_path@.len() > 0 && equal_root_from(roots, t.root_path@, 0) is Some {
        equal_root_from(roots, t.root_path@, 0)
    } else {
        pick_root(roots, t.path@)
    }
}

/// The keys of the artist node and (for a track in an album folder) the
/// album node that a track falls under; none when it is not below its root.
pub open spec fn track_node_keys(roots: Seq<LibraryRoot>, t: LibraryTrack) -> Option<(Seq<char>, Option<Seq<char>>)> {
    match track_root(roots, t) {
        None => None,
        Some(j) => {
            let base = roots[j].path@;
            let names = names_below(t.path@, base);
            if !path_starts_with(t.path@, base) || names.len() == 0 {
                None
            } else {
                let artist = context_artist(names, t.artist@);
                Some(
                    (
                        artist_key(base, artist),
                        if names.len() > 2 {
                            Some(album_key(base, artist, names[1]))
                        } else {
                            None
                        },
                    ),
                )
            }
        },
    }
}

/// The artist keys of the first `n` tracks, in order, repeats and all.
pub open spec fn artist_keys_upto(roots: Seq<LibraryRoot>, tracks: Seq<LibraryTrack>, n: int) -> Seq<Seq<char>>
    decreases n,
{
    if n <= 0 {
        Seq::empty()
    } else {
        let prev = artist_keys_upto(roots, tracks, n - 1);
        match track_node_keys(roots, tracks[n - 1]) {
            Some((a, _)) => prev.push(a),
            None => prev,
        }
    }
}

/// The album keys of the first `n` tracks, in order, repeats and all.
pub open spec fn album_keys_upto(roots: Seq<LibraryRoot>, tracks: Seq<LibraryTrack>, n: int) -> Seq<Seq<char>>
    decreases n,
{
    if n <= 0 {
        Seq::empty()
    } else {
        let prev = album_keys_upto(roots, tracks, n - 1);
        match track_node_keys(roots, tracks[n - 1]) {
            Some((_, Some(b))) => prev.push(b),
            _ => prev,
        }
    }
}

/// The keys of all artist nodes of a library.
pub open spec fn artist_node_keys(library: LibrarySnapshot) -> Set<Seq<char>> {
    artist_keys_upto(library.roots@, library.tracks@, library.tracks@.len() as int).to_set()
}

/// The keys of all album nodes of a library.
pub open spec fn album_node_keys(library: LibrarySnapshot) -> Set<Seq<char>> {
    album_keys_upto(library.roots@, library.tracks@, library.tracks@.len() as int).to_set()
}

fn equal_root(roots: &Vec<LibraryRoot>, p: &str) -> (r: Option<usize>)
    ensures
        match r {
            Some(i) => i < roots@.len() && equal_root_from(roots@, p@, 0) == Some(i as int),
            None => equal_root_from(roots@, p@, 0) is None,
        },
{
    let target = path_components_of(p);
    let mut i: usize = 0;
    while i < roots.len()
        invariant
            i <= roots@.len(),
            comps_view(target@) == path_components(p@),
            equal_root_from(roots@, p@, i as int) == equal_root_from(roots@, p@, 0),
        decreases roots@.len() - i,
    {
        let c = path_components_of(roots[i].path.as_str());
        if comps_equal(&c, &target) {
            return Some(i);
        }
        i += 1;
    }
    None
}

fn comps_equal(a: &Vec<Vec<char>>, b: &Vec<Vec<char>>) -> (r: bool)
    ensures
        r == (comps_view(a@) == comps_view(b@)),
{
    let ghost av = comps_view(a@);
    let ghost bv = comps_view(b@);
    if a.len() != b.len() {
        assert(av.len() != bv.len());
        return false;
    }
    let mut i: usize = 0;
    while i < a.len()
        invariant
            a@.len() == b@.len(),
            i <= a@.len(),
            av == comps_view(a@),
            bv == comps_view(b@),
            forall|k: int| 0 <= k < i ==> av[k] == bv[k],
        decreases a@.len() - i,
    {
        if !chars_eq(&a[i], &b[i]) {
            assert(av[i as int] != bv[i as int]);
            return false;
        }
        i += 1;
    }
    assert(av =~= bv);
    true
}

proof fn lemma_pick_root_in_range(roots: Seq<LibraryRoot>, path: Seq<char>)
    ensures
        match pick_root(roots, path) {
            Some(j) => 0 <= j < roots.len(),
            None => true,
        },
{
    crate::search_context::lemma_pick_root_range(roots, path, roots.len() as int);
}

/// The root a track belongs to (see `track_root`).
pub fn pick_root_for_track(roots: &Vec<LibraryRoot>, t: &LibraryTrack) -> (r: Option<usize>)
    ensures
        match r {
            Some(j) => j < roots@.len() && track_root(roots@, *t) == Some(j as int),
            None => track_root(roots@, *t) is None,
        },
{
    proof {
        lemma_pick_root_in_range(roots@, t.path@);
    }
    if chars_of(t.root_path.as_str()).len() > 0 {
        match equal_root(roots, t.root_path.as_str()) {
            Some(j) => return Some(j),
            None => {},
        }
    }
    pick_root_for_path(roots, t.path.as_str())
}

/// The node keys of one track (see `track_node_keys`).
fn node_keys(roots: &Vec<LibraryRoot>, t: &LibraryTrack) -> (r: Option<(String, Option<String>)>)
    ensures
        match r {
            None => track_node_keys(roots@, *t) is None,
            Some((a, b)) => track_node_keys(roots@, *t) == Some(
                (
                    a@,
                    match b {
                        Some(s) => Some(s@),
                        None => None,
                    },
                ),
            ),
        },
{
    proof {
        lemma_pick_root_in_range(roots@, t.path@);
    }
    let has_root_path = chars_of(t.root_path.as_str()).len() > 0;
    let by_path = if has_root_path {
        equal_root(roots, t.root_path.as_str())
    } else {
        None
    };
    let j = match by_path {
        Some(j) => j,
        None => match pick_root_for_path(roots, t.path.as_str()) {
            Some(j) => j,
            None => return None,
        },
    };
    let base = roots[j].path.as_str();
    if !crate::search_context::path_starts_with_str(t.path.as_str(), base) {
        return None;
    }
    let names = names_below_of(t.path.as_str(), base);
    let ghost nv = comps_view(names@);
    if names.len() == 0 {
        return None;
    }
    let artist: Vec<char> = if names.len() >= 2 {
        assert(nv[0] == names@[0]@);
        let mut a: Vec<char> = Vec::new();
        crate::text::append_chars(&mut a, &names[0]);
        a
    } else {
        let tr = trim_str(t.artist.as_str());
        if tr.len() == 0 {
            chars_of("Unknown Artist")
        } else {
            tr
        }
    };
    assert(artist@ == context_artist(nv, t.artist@));
    let artist_s = string_from_chars(&artist);
    let a = artist_row_key(base, artist_s.as_str());
    let b = if names.len() > 2 {
        assert(nv[1] == names@[1]@);
        let folder = string_from_chars(&names[1]);
        Some(album_row_key(base, artist_s.as_str(), folder.as_str()))
    } else {
        None
    };
    Some((a, b))
}

/// The plain names of `path` below `base` (which must hold it).
pub fn names_below_of(path: &str, base: &str) -> (r: Vec<Vec<char>>)
    requires
        path_starts_with(path@, base@),
    ensures
        comps_view(r@) == names_below(path@, base@),
{
    let pc = path_components_of(path);
    let bc = path_components_of(base);
    let ghost pv = comps_view(pc@);
    let ghost rest = pv.skip(bc@.len() as int);
    let ghost pred = |c: Seq<char>| crate::search_context::is_normal(c);
    let mut out: Vec<Vec<char>> = Vec::new();
    let mut i: usize = bc.len();
    assert(rest.take(0) =~= Seq::<Seq<char>>::empty());
    while i < pc.len()
        invariant
            bc@.len() <= i <= pc@.len(),
            pv == comps_view(pc@),
            rest == pv.skip(bc@.len() as int),
            pred == (|c: Seq<char>| crate::search_context::is_normal(c)),
            comps_view(out@) == rest.take(i - bc@.len()).filter(pred),
        decreases pc@.len() - i,
    {
        let ghost k = i - bc@.len();
        proof {
            assert(rest.take(k + 1) =~= rest.take(k).push(rest[k]));
            rest.take(k).lemma_filter_push(rest[k], pred);
            assert(rest[k] == pc@[i as int]@);
        }
        let c = &pc[i];
        let normal = !(c.len() == 1 && (c[0] == '/' || c[0] == '.')) && !(c.len() == 2 && c[0] == '.' && c[1] == '.');
        proof {
            if c@.len() == 1 {
                assert(c@ =~= seq![c@[0]]);
            }
            if c@.len() == 2 {
                assert(c@ =~= seq![c@[0], c@[1]]);
            }
        }
        assert(normal == crate::search_context::is_normal(rest[k]));
        if normal {
            let ghost before = comps_view(out@);
            let mut copy: Vec<char> = Vec::new();
            crate::text::append_chars(&mut copy, c);
            out.push(copy);
            assert(comps_view(out@) =~= before.push(rest[k]));
        }
        i += 1;
    }
    assert(rest.take(pc@.len() - bc@.len()) =~= rest);
    out
}

fn contains_key(v: &Vec<String>, k: &String) -> (r: bool)
    ensures
        r == v@.map_values(|s: String| s@).contains(k@),
{
    let ghost vv = v@.map_values(|s: String| s@);
    let kc = chars_of(k.as_str());
    let mut i: usize = 0;
    while i < v.len()
        invariant
            i <= v@.len(),
            kc@ == k@,
            vv == v@.map_values(|s: String| s@),
            forall|j: int| 0 <= j < i ==> vv[j] != k@,
        decreases v@.len() - i,
    {
        if chars_eq(&chars_of(v[i].as_str()), &kc) {
            assert(vv[i as int] == k@);
            return true;
        }
        i += 1;
    }
    false
}

/// Adds `k` to a list of distinct keys unless it is there.
fn add_key(v: &mut Vec<String>, k: String, all: Ghost<Seq<Seq<char>>>)
    requires
        old(v)@.map_values(|s: String| s@).no_duplicates(),
        old(v)@.map_values(|s: String| s@).to_set() == all@.to_set(),
    ensures
        final(v)@.map_values(|s: String| s@).no_duplicates(),
        final(v)@.map_values(|s: String| s@).to_set() == all@.push(k@).to_set(),
{
    let ghost before = v@.map_values(|s: String| s@);
    let ghost kv = k@;
    proof {
        assert(all@.push(kv).to_set() =~= all@.to_set().insert(kv)) by {
            assert forall|x: Seq<char>| all@.push(kv).to_set().contains(x) <==> all@.to_set().insert(kv).contains(x) by {
                if all@.push(kv).contains(x) {
                    let i = choose|i: int| 0 <= i < all@.push(kv).len() && all@.push(kv)[i] == x;
                    if i < all@.len() {
                        assert(all@.contains(x));
                    }
                }
                if all@.contains(x) {
                    let i = choose|i: int| 0 <= i < all@.len() && all@[i] == x;
                    assert(all@.push(kv)[i] == x);
                }
                if x == kv {
                    assert(all@.push(kv)[all@.len() as int] == kv);
                }
            }
        }
    }
    if contains_key(v, &k) {
        assert(before.to_set().contains(kv));
        assert(all@.to_set().insert(kv) =~= all@.to_set());
        return;
    }
    v.push(k);
    proof {
        let after = v@.map_values(|s: String| s@);
        assert(after =~= before.push(kv));
        assert(after.no_duplicates()) by {
            assert forall|i: int, j: int| 0 <= i < after.len() && 0 <= j < after.len() && i != j implies after[i] != after[j] by {
                if i < before.len() && j < before.len() {
                } else if i == before.len() as int {
                    assert(before[j] == after[j]);
                    assert(before.contains(after[j]));
                } else {
                    assert(before[i] == after[i]);
                    assert(before.contains(after[i]));
                }
            }
        }
        assert forall|x: Seq<char>| after.to_set().contains(x) <==> before.to_set().insert(kv).contains(x) by {
            if after.contains(x) {
                let i = choose|i: int| 0 <= i < after.len() && after[i] == x;
                if i < before.len() {
                    assert(before.contains(x));
                }
            }
            if before.contains(x) {
                let i = choose|i: int| 0 <= i < before.len() && before[i] == x;
                assert(after[i] == x);
            }
            if x == kv {
                assert(after[before.len() as int] == kv);
            }
        }
        assert(after.to_set() =~= before.to_set().insert(kv));
    }
}

/// How many artist and album nodes the library tree has: the distinct
/// artist keys and album keys of its tracks (none without roots).
pub fn compute_artist_album_counts(library: &LibrarySnapshot) -> (r: (usize, usize))
    ensures
        library.roots@.len() == 0 ==> r == (0usize, 0usize),
        library.roots@.len() > 0 ==> r.0 == artist_node_keys(*library).len() && r.1 == album_node_keys(
            *library,
        ).len(),
{
    if library.roots.len() == 0 {
        return (0, 0);
    }
    let ghost roots = library.roots@;
    let ghost tracks = library.tracks@;
    let mut artists: Vec<String> = Vec::new();
    let mut albums: Vec<String> = Vec::new();
    let mut i: usize = 0;
    proof {
        assert(artists@.map_values(|s: String| s@) =~= Seq::<Seq<char>>::empty());
        assert(albums@.map_values(|s: String| s@) =~= Seq::<Seq<char>>::empty());
    }
    while i < library.tracks.len()
        invariant
            i <= tracks.len(),
            roots == library.roots@,
            tracks == library.tracks@,
            artists@.map_values(|s: String| s@).no_duplicates(),
            albums@.map_values(|s: String| s@).no_duplicates(),
            artists@.map_values(|s: String| s@).to_set() == artist_keys_upto(roots, tracks, i as int).to_set(),
            albums@.map_values(|s: String| s@).to_set() == album_keys_upto(roots, tracks, i as int).to_set(),
        decreases tracks.len() - i,
    {
        match node_keys(&library.roots, &library.tracks[i]) {
            Some((a, b)) => {
                add_key(&mut artists, a, Ghost(artist_keys_upto(roots, tracks, i as int)));
                match b {
                    Some(k) => add_key(&mut albums, k, Ghost(album_keys_upto(roots, tracks, i as int))),
                    None => {},
                }
            },
            None => {},
        }
        i += 1;
    }
    proof {
        artists@.map_values(|s: String| s@).unique_seq_to_set();
        albums@.map_values(|s: String| s@).unique_seq_to_set();
    }
    (artists.len(), albums.len())
}

/// Keeps the expanded keys that still name an artist or album node of the
/// library; with no roots, none stays; with none expanded, nothing changes.
pub fn retain_valid_expanded_keys(library: &LibrarySnapshot, expanded_keys: &mut Vec<String>)
    ensures
        old(expanded_keys)@.len() == 0 ==> final(expanded_keys)@ == old(expanded_keys)@,
        old(expanded_keys)@.len() > 0 && library.roots@.len() == 0 ==> final(expanded_keys)@.len() == 0,
        old(expanded_keys)@.len() > 0 && library.roots@.len() > 0 ==> final(expanded_keys)@ == old(
            expanded_keys,
        )@.filter(
            |k: String|
                artist_node_keys(*library).contains(k@) || album_node_keys(*library).contains(k@),
        ),
{
    if expanded_keys.len() == 0 {
        return;
    }
    if library.roots.len() == 0 {
        expanded_keys.clear();
        return;
    }
    let ghost roots = library.roots@;
    let ghost tracks = library.tracks@;
    let mut valid: Vec<String> = Vec::new();
    let mut i: usize = 0;
    let ghost mut seen: Seq<Seq<char>> = Seq::empty();
    proof {
        assert(valid@.map_values(|s: String| s@) =~= Seq::<Seq<char>>::empty());
    }
    while i < library.tracks.len()
        invariant
            i <= tracks.len(),
            roots == library.roots@,
            tracks == library.tracks@,
            valid@.map_values(|s: String| s@).no_duplicates(),
            seen == artist_keys_upto(roots, tracks, i as int) + album_keys_upto(roots, tracks, i as int),
            valid@.map_values(|s: String| s@).to_set() == seen.to_set(),
        decreases tracks.len() - i,
    {
        let ghost s0 = seen;
        match node_keys(&library.roots, &library.tracks[i]) {
            Some((a, b)) => {
                add_key(&mut valid, a, Ghost(seen));
                proof {
                    seen = seen.push(a@);
                }
                match b {
                    Some(k) => {
                        add_key(&mut valid, k, Ghost(seen));
                        proof {
                            seen = seen.push(k@);
                        }
                    },
                    None => {},
                }
            },
            None => {},
        }
        proof {
            lemma_seen_step(roots, tracks, i as int, s0, seen);
        }
        let ghost s1 = seen;
        proof {
            seen = artist_keys_upto(roots, tracks, i + 1) + album_keys_upto(roots, tracks, i + 1);
            assert(s1.to_set() =~= seen.to_set());
        }
        i += 1;
    }
    let ghost all = artist_keys_upto(roots, tracks, tracks.len() as int) + album_keys_upto(roots, tracks, tracks.len() as int);
    proof {
        assert forall|x: Seq<char>| all.to_set().contains(x) <==> (artist_node_keys(*library).contains(x)
            || album_node_keys(*library).contains(x)) by {
            let a = artist_keys_upto(roots, tracks, tracks.len() as int);
            let b = album_keys_upto(roots, tracks, tracks.len() as int);
            if all.contains(x) {
                let i = choose|i: int| 0 <= i < all.len() && all[i] == x;
                if i < a.len() {
                    assert(a[i] == x);
                    assert(a.contains(x));
                } else {
                    assert(b[i - a.len()] == x);
                    assert(b.contains(x));
                }
            }
            if a.contains(x) {
                let i = choose|i: int| 0 <= i < a.len() && a[i] == x;
                assert(all[i] == x);
            }
            if b.contains(x) {
                let i = choose|i: int| 0 <= i < b.len() && b[i] == x;
                assert(all[a.len() + i] == x);
            }
        }
    }
    let ghost pred = |k: String| artist_node_keys(*library).contains(k@) || album_node_keys(*library).contains(k@);
    let ghost orig = expanded_keys@;
    let mut kept: Vec<String> = Vec::new();
    let mut j: usize = 0;
    while j < expanded_keys.len()
        invariant
            j <= orig.len(),
            expanded_keys@ == orig,
            valid@.map_values(|s: String| s@).to_set() == all.to_set(),
            forall|x: Seq<char>| all.to_set().contains(x) <==> (artist_node_keys(*library).contains(x)
                || album_node_keys(*library).contains(x)),
            pred == (|k: String| artist_node_keys(*library).contains(k@) || album_node_keys(*library).contains(k@)),
            kept@ == orig.take(j as int).filter(pred),
        decreases orig.len() - j,
    {
        let k = &expanded_keys[j];
        proof {
            assert(orig.take(j + 1) =~= orig.take(j as int).push(orig[j as int]));
            orig.take(j as int).lemma_filter_push(orig[j as int], pred);
        }
        let keep = contains_key(&valid, k);
        assert(keep == pred(*k));
        if keep {
            kept.push(k.clone());
        }
        j += 1;
    }
    assert(orig.take(orig.len() as int) =~= orig);
    *expanded_keys = kept;
}

proof fn lemma_seen_step(roots: Seq<LibraryRoot>, tracks: Seq<LibraryTrack>, i: int, s0: Seq<Seq<char>>, s1: Seq<Seq<char>>)
    requires
        0 <= i < tracks.len(),
        s0 == artist_keys_upto(roots, tracks, i) + album_keys_upto(roots, tracks, i),
        match track_node_keys(roots, tracks[i]) {
            None => s1 == s0,
            Some((a, None)) => s1 == s0.push(a),
            Some((a, Some(b))) => s1 == s0.push(a).push(b),
        },
    ensures
        s1.to_set() == (artist_keys_upto(roots, tracks, i + 1) + album_keys_upto(roots, tracks, i + 1)).to_set(),
{
    let a0 = artist_keys_upto(roots, tracks, i);
    let b0 = album_keys_upto(roots, tracks, i);
    let t = artist_keys_upto(roots, tracks, i + 1) + album_keys_upto(roots, tracks, i + 1);
    assert forall|x: Seq<char>| s1.contains(x) <==> t.contains(x) by {
        let a1 = artist_keys_upto(roots, tracks, i + 1);
        let b1 = album_keys_upto(roots, tracks, i + 1);
        if s1.contains(x) {
            let k = choose|k: int| 0 <= k < s1.len() && s1[k] == x;
            if k < a0.len() {
                assert(a1[k] == x);
                assert(t[k] == x);
            } else if k < s0.len() {
                assert(b0[k - a0.len()] == x);
                assert(b1[k - a0.len()] == x);
                assert(t[a1.len() + k - a0.len()] == x);
            } else if k == s0.len() {
                assert(a1[a0.len() as int] == x);
                assert(t[a0.len() as int] == x);
            } else {
                assert(b1[b0.len() as int] == x);
                assert(t[(a1.len() + b0.len()) as int] == x);
            }
        }
        if t.contains(x) {
            let k = choose|k: int| 0 <= k < t.len() && t[k] == x;
            if k < a1.len() {
                if k < a0.len() {
                    assert(s0[k] == x);
                    assert(s1[k] == x);
                } else {
                    assert(s1[s0.len() as int] == x);
                }
            } else {
                let m = k - a1.len();
                if m < b0.len() {
                    assert(s0[a0.len() + m] == x);
                    assert(s1[a0.len() + m] == x);
                } else {
                    assert(s1.len() == s0.len() + 2);
                    assert(s1[(s0.len() + 1) as int] == x);
                }
            }
        }
    }
    assert(s1.to_set() =~= t.to_set());
}

} // verus!
