//! Where a track sits in the library tree, read from its path below a
//! library root: `root/artist/album/[section/]file`.
use vstd::prelude::*;

use crate::library::{components, LibraryRoot};
use crate::search::{disc_section_name, is_main_album_disc_section};
use crate::text::{append_chars, chars_eq, chars_of, has_prefix, push_str, string_from_chars, trim, trim_str};

verus! {

/// How `Path::components` begins: the root `/` of an absolute path, or `.`
/// for a relative path that starts with it.
pub open spec fn lead_components(p: Seq<char>) -> Seq<Seq<char>> {
    if p.len() > 0 && p[0] == '/' {
        seq![seq!['/']]
    } else if p == seq!['.'] || has_prefix(p, seq!['.', '/']) {
        seq![seq!['.']]
    } else {
        Seq::empty()
    }
}

/// All components of a path as `Path::components` yields them, the root
/// written `/` and a leading current directory written `.`.
pub open spec fn path_components(p: Seq<char>) -> Seq<Seq<char>> {
    lead_components(p) + components(p)
}

/// `Path::starts_with`: the components of `base` begin those of `p`.
pub open spec fn path_starts_with(p: Seq<char>, base: Seq<char>) -> bool {
    let pc = path_components(p);
    let bc = path_components(base);
    bc.len() <= pc.len() && pc.take(bc.len() as int) == bc
}

/// A plain name, not the root, `.` or `..`.
pub open spec fn is_normal(c: Seq<char>) -> bool {
    c != seq!['/'] && c != seq!['.'] && c != seq!['.', '.']
}

/// The plain names of `p` below `base` (`strip_prefix`, then the
/// `Normal` components).
pub open spec fn names_below(p: Seq<char>, base: Seq<char>) -> Seq<Seq<char>> {
    path_components(p).skip(path_components(base).len() as int).filter(|c: Seq<char>| is_normal(c))
}

/// A library root as search sees it: its path, the key that tree rows use
/// for it, and the label shown for it.
#[derive(Debug, Clone)]
pub struct PreparedSearchRoot {
    pub path: String,
    pub root_key: String,
    pub root_label: String,
}

/// Where a track sits in the tree: its artist and album (with their keys),
/// the section folder inside the album if any, and whether the album's
/// main listing plays it.
#[derive(Debug, Clone)]
pub struct TreePathContext {
    pub artist_name: String,
    pub artist_key: String,
    pub root_label: String,
    pub album_folder: Option<String>,
    pub album_key: Option<String>,
    pub section_key: Option<String>,
    pub track_key: String,
    pub is_main_level_album_track: bool,
    pub is_disc_section_album_track: bool,
}

pub struct TreePathContextView {
    pub artist_name: Seq<char>,
    pub artist_key: Seq<char>,
    pub root_label: Seq<char>,
    pub album_folder: Option<Seq<char>>,
    pub album_key: Option<Seq<char>>,
    pub section_key: Option<Seq<char>>,
    pub track_key: Seq<char>,
    pub is_main_level_album_track: bool,
    pub is_disc_section_album_track: bool,
}

pub open spec fn opt_view(o: Option<String>) -> Option<Seq<char>> {
    match o {
        Some(s) => Some(s@),
        None => None,
    }
}

impl View for TreePathContext {
    type V = TreePathContextView;

    open spec fn view(&self) -> TreePathContextView {
        TreePathContextView {
            artist_name: self.artist_name@,
            artist_key: self.artist_key@,
            root_label: self.root_label@,
            album_folder: opt_view(self.album_folder),
            album_key: opt_view(self.album_key),
            section_key: opt_view(self.section_key),
            track_key: self.track_key@,
            is_main_level_album_track: self.is_main_level_album_track,
            is_disc_section_album_track: self.is_disc_section_album_track,
        }
    }
}

/// The artist of a track: the first folder below the root when the track
/// lies at least two levels down, else its own (trimmed) artist tag, else
/// "Unknown Artist".
pub open spec fn context_artist(names: Seq<Seq<char>>, fallback: Seq<char>) -> Seq<char> {
    if names.len() >= 2 {
        names[0]
    } else if trim(fallback).len() == 0 {
        "Unknown Artist"@
    } else {
        trim(fallback)
    }
}

/// The context of the track at `path` below the root `root_path` (keyed
/// `root_key`, labelled `root_label`): none when the path is not below the
/// root or names nothing there.
pub open spec fn context_spec(
    path: Seq<char>,
    root_path: Seq<char>,
    root_key: Seq<char>,
    root_label: Seq<char>,
    fallback: Seq<char>,
) -> Option<TreePathContextView> {
    let names = names_below(path, root_path);
    if !path_starts_with(path, root_path) || names.len() == 0 {
        None
    } else {
        let artist = context_artist(names, fallback);
        let artist_key = "artist|"@ + root_key + "|"@ + artist;
        let track_key = "track|"@ + path;
        if names.len() <= 2 {
            Some(
                TreePathContextView {
                    artist_name: artist,
                    artist_key,
                    root_label,
                    album_folder: None,
                    album_key: None,
                    section_key: None,
                    track_key,
                    is_main_level_album_track: false,
                    is_disc_section_album_track: false,
                },
            )
        } else {
            let folder = names[1];
            let album_key = "album|"@ + root_key + "|"@ + artist + "|"@ + folder;
            Some(
                TreePathContextView {
                    artist_name: artist,
                    artist_key,
                    root_label,
                    album_folder: Some(folder),
                    album_key: Some(album_key),
                    section_key: if names.len() >= 4 {
                        Some("section|"@ + root_key + "|"@ + artist + "|"@ + folder + "|"@ + names[2])
                    } else {
                        None
                    },
                    track_key,
                    is_main_level_album_track: names.len() == 3,
                    is_disc_section_album_track: names.len() == 4 && disc_section_name(names[2]),
                },
            )
        }
    }
}

pub open spec fn comps_view(v: Seq<Vec<char>>) -> Seq<Seq<char>> {
    v.map_values(|c: Vec<char>| c@)
}

/// Pushes a finished component unless it is empty or `.`.
fn keep(out: &mut Vec<Vec<char>>, cur: Vec<char>)
    ensures
        comps_view(final(out)@) == crate::library::keep_component(comps_view(old(out)@), cur@),
{
    let ghost before = comps_view(out@);
    if cur.len() == 0 || (cur.len() == 1 && cur[0] == '.') {
        if cur.len() == 1 {
            assert(cur@ =~= seq!['.']);
        }
        return;
    }
    assert(cur@ != seq!['.']) by {
        if cur@.len() == 1 {
            assert(cur@[0] != '.');
        }
    }
    let ghost cv = cur@;
    out.push(cur);
    assert(comps_view(out@) =~= before.push(cv));
}

/// The components of a path, as `path_components` names them.
pub fn path_components_of(path: &str) -> (r: Vec<Vec<char>>)
    ensures
        comps_view(r@) == path_components(path@),
{
    let p = chars_of(path);
    let mut out: Vec<Vec<char>> = Vec::new();
    if p.len() > 0 && p[0] == '/' {
        let mut c: Vec<char> = Vec::new();
        c.push('/');
        assert(c@ =~= seq!['/']);
        out.push(c);
    } else if (p.len() == 1 && p[0] == '.') || (p.len() >= 2 && p[0] == '.' && p[1] == '/') {
        let mut c: Vec<char> = Vec::new();
        c.push('.');
        assert(c@ =~= seq!['.']);
        out.push(c);
    }
    proof {
        if p@.len() > 0 && p@[0] == '/' {
            assert(comps_view(out@) =~= lead_components(p@));
        } else if p@.len() == 1 && p@[0] == '.' {
            assert(p@ =~= seq!['.']);
            assert(comps_view(out@) =~= lead_components(p@));
        } else if p@.len() >= 2 && p@[0] == '.' && p@[1] == '/' {
            assert(p@.take(2) =~= seq!['.', '/']);
            assert(comps_view(out@) =~= lead_components(p@));
        } else {
            assert(p@ != seq!['.']);
            assert(!has_prefix(p@, seq!['.', '/'])) by {
                if p@.len() >= 2 {
                    assert(p@.take(2)[0] == p@[0]);
                    assert(p@.take(2)[1] == p@[1]);
                }
            }
            assert(comps_view(out@) =~= lead_components(p@));
        }
    }
    let ghost lead = comps_view(out@);
    let ghost mut acc: Seq<Seq<char>> = Seq::empty();
    let mut cur: Vec<char> = Vec::new();
    let mut i: usize = 0;
    while i < p.len()
        invariant
            i <= p@.len(),
            p@ == path@,
            lead == lead_components(path@),
            comps_view(out@) == lead + acc,
            crate::library::components_from(p@, i as int, cur@, acc) == components(path@),
        decreases p@.len() - i,
    {
        if p[i] == '/' {
            let ghost a0 = acc;
            let mut piece: Vec<char> = Vec::new();
            std::mem::swap(&mut piece, &mut cur);
            proof {
                acc = crate::library::keep_component(acc, piece@);
            }
            keep(&mut out, piece);
            assert(comps_view(out@) =~= lead + acc) by {
                if piece@.len() == 0 || piece@ == seq!['.'] {
                } else {
                    assert(lead + a0.push(piece@) =~= (lead + a0).push(piece@));
                }
            }
            assert(cur@ =~= Seq::<char>::empty());
        } else {
            cur.push(p[i]);
        }
        i += 1;
    }
    let ghost a0 = acc;
    let ghost last = cur@;
    keep(&mut out, cur);
    proof {
        let a1 = crate::library::keep_component(a0, last);
        if last.len() == 0 || last == seq!['.'] {
        } else {
            assert(lead + a0.push(last) =~= (lead + a0).push(last));
        }
        assert(comps_view(out@) =~= lead + a1);
    }
    out
}

fn comps_prefix(base: &Vec<Vec<char>>, path: &Vec<Vec<char>>) -> (r: bool)
    ensures
        r == (comps_view(base@).len() <= comps_view(path@).len() && comps_view(path@).take(
            comps_view(base@).len() as int,
        ) == comps_view(base@)),
{
    let ghost bv = comps_view(base@);
    let ghost pv = comps_view(path@);
    if base.len() > path.len() {
        return false;
    }
    let mut i: usize = 0;
    while i < base.len()
        invariant
            base@.len() <= path@.len(),
            i <= base@.len(),
            bv == comps_view(base@),
            pv == comps_view(path@),
            forall|k: int| 0 <= k < i ==> pv[k] == bv[k],
        decreases base@.len() - i,
    {
        if !chars_eq(&path[i], &base[i]) {
            assert(pv.take(bv.len() as int)[i as int] != bv[i as int]);
            return false;
        }
        i += 1;
    }
    assert(pv.take(bv.len() as int) =~= bv);
    true
}

/// `Path::starts_with` on two paths.
pub fn path_starts_with_str(path: &str, base: &str) -> (r: bool)
    ensures
        r == path_starts_with(path@, base@),
{
    let pc = path_components_of(path);
    let bc = path_components_of(base);
    comps_prefix(&bc, &pc)
}

fn is_normal_exec(c: &Vec<char>) -> (r: bool)
    ensures
        r == is_normal(c@),
{
    if c.len() == 1 && (c[0] == '/' || c[0] == '.') {
        assert(c@ =~= seq![c@[0]]);
        return false;
    }
    if c.len() == 2 && c[0] == '.' && c[1] == '.' {
        assert(c@ =~= seq!['.', '.']);
        return false;
    }
    assert(c@ != seq!['/']);
    assert(c@ != seq!['.']);
    assert(c@ != seq!['.', '.']) by {
        if c@.len() == 2 {
            assert(c@[0] != '.' || c@[1] != '.');
        }
    }
    true
}

/// The plain names of `path` below `base`, or none when `path` is not
/// below `base`.
fn names_below_exec(path: &str, base: &str) -> (r: Option<Vec<Vec<char>>>)
    ensures
        match r {
            Some(v) => path_starts_with(path@, base@) && comps_view(v@) == names_below(path@, base@),
            None => !path_starts_with(path@, base@),
        },
{
    let pc = path_components_of(path);
    let bc = path_components_of(base);
    if !comps_prefix(&bc, &pc) {
        return None;
    }
    let ghost pv = comps_view(pc@);
    let ghost rest = pv.skip(bc@.len() as int);
    let ghost pred = |c: Seq<char>| is_normal(c);
    let mut out: Vec<Vec<char>> = Vec::new();
    let mut i: usize = bc.len();
    assert(rest.take(0) =~= Seq::<Seq<char>>::empty());
    while i < pc.len()
        invariant
            bc@.len() <= i <= pc@.len(),
            pv == comps_view(pc@),
            rest == pv.skip(bc@.len() as int),
            pred == (|c: Seq<char>| is_normal(c)),
            comps_view(out@) == rest.take(i - bc@.len()).filter(pred),
        decreases pc@.len() - i,
    {
        let ghost k = i - bc@.len();
        proof {
            assert(rest.take(k + 1) =~= rest.take(k).push(rest[k]));
            rest.take(k).lemma_filter_push(rest[k], pred);
            assert(rest[k] == pc@[i as int]@);
        }
        if is_normal_exec(&pc[i]) {
            let ghost before = comps_view(out@);
            let c = pc[i].clone();
            out.push(c);
            assert(comps_view(out@) =~= before.push(rest[k]));
        }
        i += 1;
    }
    assert(rest.take(pc@.len() - bc@.len()) =~= rest);
    Some(out)
}

fn clone_chars(v: &Vec<char>) -> (r: Vec<char>)
    ensures
        r@ == v@,
{
    let mut out: Vec<char> = Vec::new();
    append_chars(&mut out, v);
    out
}

/// Where the track at `path` sits below `root`, with `fallback_artist` as
/// its artist when it lies directly in an artist-less place.
pub fn derive_tree_path_context_for_root(
    path: &str,
    root: &PreparedSearchRoot,
    fallback_artist: &str,
) -> (r: Option<TreePathContext>)
    ensures
        match r {
            Some(c) => context_spec(path@, root.path@, root.root_key@, root.root_label@, fallback_artist@)
                == Some(c@),
            None => context_spec(path@, root.path@, root.root_key@, root.root_label@, fallback_artist@)
                is None,
        },
{
    let names = match names_below_exec(path, root.path.as_str()) {
        Some(n) => n,
        None => return None,
    };
    let ghost nv = comps_view(names@);
    if names.len() == 0 {
        return None;
    }
    let artist: Vec<char> = if names.len() >= 2 {
        assert(nv[0] == names@[0]@);
        clone_chars(&names[0])
    } else {
        let t = trim_str(fallback_artist);
        if t.len() == 0 {
            chars_of("Unknown Artist")
        } else {
            t
        }
    };
    assert(artist@ == context_artist(nv, fallback_artist@));
    let mut artist_key: Vec<char> = Vec::new();
    push_str(&mut artist_key, "artist|");
    push_str(&mut artist_key, root.root_key.as_str());
    push_str(&mut artist_key, "|");
    append_chars(&mut artist_key, &artist);
    let mut track_key: Vec<char> = Vec::new();
    push_str(&mut track_key, "track|");
    push_str(&mut track_key, path);
    let root_label = root.root_label.clone();
    if names.len() <= 2 {
        let c = TreePathContext {
            artist_name: string_from_chars(&artist),
            artist_key: string_from_chars(&artist_key),
            root_label,
            album_folder: None,
            album_key: None,
            section_key: None,
            track_key: string_from_chars(&track_key),
            is_main_level_album_track: false,
            is_disc_section_album_track: false,
        };
        assert(c@ == context_spec(path@, root.path@, root.root_key@, root.root_label@, fallback_artist@).unwrap());
        return Some(c);
    }
    assert(nv[1] == names@[1]@);
    let folder = clone_chars(&names[1]);
    let mut album_key: Vec<char> = Vec::new();
    push_str(&mut album_key, "album|");
    push_str(&mut album_key, root.root_key.as_str());
    push_str(&mut album_key, "|");
    append_chars(&mut album_key, &artist);
    push_str(&mut album_key, "|");
    append_chars(&mut album_key, &folder);
    let section_key: Option<String> = if names.len() >= 4 {
        assert(nv[2] == names@[2]@);
        let mut s: Vec<char> = Vec::new();
        push_str(&mut s, "section|");
        push_str(&mut s, root.root_key.as_str());
        push_str(&mut s, "|");
        append_chars(&mut s, &artist);
        push_str(&mut s, "|");
        append_chars(&mut s, &folder);
        push_str(&mut s, "|");
        append_chars(&mut s, &names[2]);
        Some(string_from_chars(&s))
    } else {
        None
    };
    let is_disc = if names.len() == 4 {
        assert(nv[2] == names@[2]@);
        let sec = string_from_chars(&names[2]);
        is_main_album_disc_section(sec.as_str())
    } else {
        false
    };
    let c = TreePathContext {
        artist_name: string_from_chars(&artist),
        artist_key: string_from_chars(&artist_key),
        root_label,
        album_folder: Some(string_from_chars(&folder)),
        album_key: Some(string_from_chars(&album_key)),
        section_key,
        track_key: string_from_chars(&track_key),
        is_main_level_album_track: names.len() == 3,
        is_disc_section_album_track: is_disc,
    };
    assert(c@ == context_spec(path@, root.path@, root.root_key@, root.root_label@, fallback_artist@).unwrap());
    Some(c)
}

/// The root that `Path::starts_with` puts `path` under, among the first
/// `n` roots: the one with the most components, the later one on a tie (as
/// `max_by_key` picks).
pub open spec fn pick_root_from(roots: Seq<LibraryRoot>, path: Seq<char>, n: int) -> Option<int>
    decreases n,
{
    if n <= 0 {
        None
    } else {
        let prev = pick_root_from(roots, path, n - 1);
        if !path_starts_with(path, roots[n - 1].path@) {
            prev
        } else {
            match prev {
                None => Some(n - 1),
                Some(j) => if path_components(roots[n - 1].path@).len() >= path_components(
                    roots[j].path@,
                ).len() {
                    Some(n - 1)
                } else {
                    Some(j)
                },
            }
        }
    }
}

pub open spec fn pick_root(roots: Seq<LibraryRoot>, path: Seq<char>) -> Option<int> {
    pick_root_from(roots, path, roots.len() as int)
}

pub proof fn lemma_pick_root_range(roots: Seq<LibraryRoot>, path: Seq<char>, n: int)
    requires
        0 <= n <= roots.len(),
    ensures
        match pick_root_from(roots, path, n) {
            Some(j) => 0 <= j < n,
            None => true,
        },
    decreases n,
{
    if n > 0 {
        lemma_pick_root_range(roots, path, n - 1);
    }
}

/// The root that holds `path`, as search picks it.
pub fn pick_root_for_path(roots: &Vec<LibraryRoot>, path: &str) -> (r: Option<usize>)
    ensures
        match r {
            Some(j) => pick_root(roots@, path@) == Some(j as int),
            None => pick_root(roots@, path@) is None,
        },
{
    let pc = path_components_of(path);
    let mut best: Option<usize> = None;
    let mut best_len: usize = 0;
    let mut i: usize = 0;
    while i < roots.len()
        invariant
            i <= roots@.len(),
            comps_view(pc@) == path_components(path@),
            match best {
                Some(j) => pick_root_from(roots@, path@, i as int) == Some(j as int) && j < i
                    && best_len == path_components(roots@[j as int].path@).len(),
                None => pick_root_from(roots@, path@, i as int) is None,
            },
        decreases roots@.len() - i,
    {
        let rc = path_components_of(roots[i].path.as_str());
        if comps_prefix(&rc, &pc) {
            match best {
                None => {
                    best = Some(i);
                    best_len = rc.len();
                },
                Some(j) => {
                    if rc.len() >= best_len {
                        best = Some(i);
                        best_len = rc.len();
                    }
                },
            }
        }
        i += 1;
    }
    best
}

/// The context of `path` under the root that holds it (see
/// `pick_root_for_path`), keyed by the root's path and labelled with its
/// search label.
pub fn derive_tree_path_context(
    path: &str,
    roots: &Vec<LibraryRoot>,
    fallback_artist: &str,
) -> (r: Option<TreePathContext>)
    ensures
        match pick_root(roots@, path@) {
            None => r is None,
            Some(j) => match r {
                Some(c) => context_spec(
                    path@,
                    roots@[j].path@,
                    roots@[j].path@,
                    roots@[j].search_label_spec(),
                    fallback_artist@,
                ) == Some(c@),
                None => context_spec(
                    path@,
                    roots@[j].path@,
                    roots@[j].path@,
                    roots@[j].search_label_spec(),
                    fallback_artist@,
                ) is None,
            },
        },
{
    proof {
        lemma_pick_root_range(roots@, path@, roots@.len() as int);
    }
    let j = match pick_root_for_path(roots, path) {
        Some(j) => j,
        None => return None,
    };
    let root = &roots[j];
    let prepared = PreparedSearchRoot {
        path: root.path.clone(),
        root_key: root.path.clone(),
        root_label: root.search_label(),
    };
    derive_tree_path_context_for_root(path, &prepared, fallback_artist)
}

} // verus!
