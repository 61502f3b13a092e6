//! The search index built once per library revision: every track with its
//! searchable fields normalized, and, per album, how many tracks its main
//! listing plays and which durations they add up to.
use vstd::prelude::*;

use crate::bridge::f32_bits_finite;
use crate::library::{LibraryRoot, LibrarySnapshot, LibraryTrack};
use crate::match_detail::join_with;
use crate::search::{normalize_for_search, normalized};
use crate::search_context::{
    comps_view, context_spec, derive_tree_path_context_for_root, path_components,
    path_components_of, PreparedSearchRoot, TreePathContextView,
};
use crate::text::{
    append_chars, chars_eq, chars_of, decimal, decimal_int, push_decimal, push_decimal_i64,
    string_from_chars, trim, trim_str,
};

verus! {

// ---------------------------------------------------------------------------
// Roots by path
// ---------------------------------------------------------------------------

/// The root whose path names the same place as `root_path` (paths are
/// equal when their components are): the last such root among the first
/// `n`, as a map filled from the roots in order keeps it.
pub open spec fn root_index_from(roots: Seq<LibraryRoot>, root_path: Seq<char>, n: int) -> Option<int>
    decreases n,
{
    if n <= 0 {
        None
    } else if path_components(roots[n - 1].path@) == path_components(root_path) {
        Some(n - 1)
    } else {
        root_index_from(roots, root_path, n - 1)
    }
}

pub open spec fn root_index(roots: Seq<LibraryRoot>, root_path: Seq<char>) -> Option<int> {
    root_index_from(roots, root_path, roots.len() as int)
}

pub proof fn lemma_root_index_range(roots: Seq<LibraryRoot>, root_path: Seq<char>, n: int)
    requires
        0 <= n <= roots.len(),
    ensures
        match root_index_from(roots, root_path, n) {
            Some(j) => 0 <= j < n,
            None => true,
        },
    decreases n,
{
    if n > 0 {
        lemma_root_index_range(roots, root_path, n - 1);
    }
}

fn comps_equal(a: &Vec<Vec<char>>, b: &Vec<Vec<char>>) -> (r: bool)
    ensures
        r == (comps_view(a@) == comps_view(b@)),
{
    let ghost av = comps_view(a@);
    let ghost bv = comps_view(b@);
    if a.len() != b.len() {
        assert(av.len() != bv.len());
        return false;
    }
    let mut i: usize = 0;
    while i < a.len()
        invariant
            a@.len() == b@.len(),
            i <= a@.len(),
            av == comps_view(a@),
            bv == comps_view(b@),
            forall|k: int| 0 <= k < i ==> av[k] == bv[k],
        decreases a@.len() - i,
    {
        if !chars_eq(&a[i], &b[i]) {
            assert(av[i as int] != bv[i as int]);
            return false;
        }
        i += 1;
    }
    assert(av =~= bv);
    true
}

/// The root that the track's root path names, as `root_index` picks it.
pub fn find_root(roots: &Vec<LibraryRoot>, root_path: &str) -> (r: Option<usize>)
    ensures
        match r {
            Some(j) => root_index(roots@, root_path@) == Some(j as int),
            None => root_index(roots@, root_path@) is None,
        },
{
    let target = path_components_of(root_path);
    let mut n: usize = roots.len();
    while n > 0
        invariant
            n <= roots@.len(),
            comps_view(target@) == path_components(root_path@),
            root_index(roots@, root_path@) == root_index_from(roots@, root_path@, n as int),
        decreases n,
    {
        let c = path_components_of(roots[n - 1].path.as_str());
        if comps_equal(&c, &target) {
            return Some(n - 1);
        }
        n -= 1;
    }
    None
}

/// A root as search sees it: keyed by its path and labelled by its search
/// label.
pub fn prepared_root(root: &LibraryRoot) -> (r: PreparedSearchRoot)
    ensures
        r.path@ == root.path@,
        r.root_key@ == root.path@,
        r.root_label@ == root.search_label_spec(),
{
    PreparedSearchRoot { path: root.path.clone(), root_key: root.path.clone(), root_label: root.search_label() }
}

/// Where the track at `path` sits below the root that `root_path` names.
pub open spec fn track_context(
    roots: Seq<LibraryRoot>,
    path: Seq<char>,
    root_path: Seq<char>,
    fallback: Seq<char>,
) -> Option<TreePathContextView> {
    match root_index(roots, root_path) {
        None => None,
        Some(j) => context_spec(path, roots[j].path@, roots[j].path@, roots[j].search_label_spec(), fallback),
    }
}

// ---------------------------------------------------------------------------
// Searchable fields
// ---------------------------------------------------------------------------

pub open spec fn string_views(v: Seq<String>) -> Seq<Seq<char>> {
    v.map_values(|s: String| s@)
}

pub open spec fn field_views(f: Seq<(String, String)>) -> Seq<(Seq<char>, Seq<char>)> {
    f.map_values(|p: (String, String)| (p.0@, p.1@))
}

/// The first field named `k`.
pub open spec fn key_pos(f: Seq<(Seq<char>, Seq<char>)>, k: Seq<char>) -> Option<int>
    decreases f.len(),
{
    if f.len() == 0 {
        None
    } else if f.last().0 == k {
        match key_pos(f.drop_last(), k) {
            Some(i) => Some(i),
            None => Some(f.len() - 1),
        }
    } else {
        key_pos(f.drop_last(), k)
    }
}

/// Appends a space and `v` to the field `k` (an absent field starts empty).
pub open spec fn append_field(f: Seq<(Seq<char>, Seq<char>)>, k: Seq<char>, v: Seq<char>) -> Seq<(Seq<char>, Seq<char>)> {
    match key_pos(f, k) {
        Some(i) => f.update(i, (k, f[i].1 + seq![' '] + v)),
        None => f.push((k, seq![' '] + v)),
    }
}

/// Sets the field `k` to `v`.
pub open spec fn set_field(f: Seq<(Seq<char>, Seq<char>)>, k: Seq<char>, v: Seq<char>) -> Seq<(Seq<char>, Seq<char>)> {
    match key_pos(f, k) {
        Some(i) => f.update(i, (k, v)),
        None => f.push((k, v)),
    }
}

/// Each extra tag: its values joined by spaces, normalized.
pub open spec fn tag_fields(tags: Seq<(String, Vec<String>)>) -> Seq<(Seq<char>, Seq<char>)> {
    tags.map_values(|t: (String, Vec<String>)| (t.0@, normalized(join_with(string_views(t.1@), seq![' ']))))
}

/// The searchable fields of a track: its extra tags, with the normalized
/// title, artist, album, genre and path appended to their fields, the year
/// and track number in decimal, and the normalized label of its root.
pub open spec fn track_fields(t: LibraryTrack, roots: Seq<LibraryRoot>) -> Seq<(Seq<char>, Seq<char>)> {
    let f1 = append_field(tag_fields(t.search_tags@), "title"@, normalized(trim(t.title@)));
    let f2 = append_field(f1, "artist"@, normalized(trim(t.artist@)));
    let f3 = append_field(f2, "album"@, normalized(trim(t.album@)));
    let f4 = append_field(f3, "genre"@, normalized(trim(t.genre@)));
    let f5 = append_field(f4, "path"@, normalized(t.path@));
    let f6 = match t.year {
        Some(y) => set_field(f5, "year"@, decimal_int(y as int)),
        None => f5,
    };
    let f7 = match t.track_no {
        Some(n) => set_field(f6, "track"@, decimal(n as nat)),
        None => f6,
    };
    match root_index(roots, t.root_path@) {
        Some(j) => set_field(f7, "root"@, normalized(roots[j].search_label_spec())),
        None => f7,
    }
}

fn key_pos_exec(f: &Vec<(String, String)>, k: &str) -> (r: Option<usize>)
    ensures
        match r {
            Some(i) => i < f@.len() && key_pos(field_views(f@), k@) == Some(i as int),
            None => key_pos(field_views(f@), k@) is None,
        },
{
    let kc = chars_of(k);
    let ghost fv = field_views(f@);
    let mut i: usize = 0;
    while i < f.len()
        invariant
            i <= f@.len(),
            kc@ == k@,
            fv == field_views(f@),
            key_pos(fv.take(i as int), k@) is None,
        decreases f@.len() - i,
    {
        let name = chars_of(f[i].0.as_str());
        proof {
            assert(fv.take(i + 1).drop_last() =~= fv.take(i as int));
            assert(fv.take(i + 1).last() == fv[i as int]);
        }
        if chars_eq(&name, &kc) {
            proof {
                lemma_key_pos_prefix(fv, k@, i + 1);
            }
            return Some(i);
        }
        i += 1;
    }
    assert(fv.take(f@.len() as int) =~= fv);
    None
}

/// The first position of a key is found in any prefix that holds it.
proof fn lemma_key_pos_prefix(f: Seq<(Seq<char>, Seq<char>)>, k: Seq<char>, n: int)
    requires
        0 <= n <= f.len(),
        key_pos(f.take(n), k) is Some,
    ensures
        key_pos(f, k) == key_pos(f.take(n), k),
    decreases f.len() - n,
{
    if n < f.len() {
        assert(f.take(n + 1).drop_last() =~= f.take(n));
        lemma_key_pos_prefix(f, k, n + 1);
    } else {
        assert(f.take(n) =~= f);
    }
}

proof fn lemma_key_pos_range(f: Seq<(Seq<char>, Seq<char>)>, k: Seq<char>)
    ensures
        match key_pos(f, k) {
            Some(i) => 0 <= i < f.len() && f[i].0 == k,
            None => true,
        },
    decreases f.len(),
{
    if f.len() > 0 {
        lemma_key_pos_range(f.drop_last(), k);
    }
}

fn append_field_exec(f: &mut Vec<(String, String)>, k: &str, v: &Vec<char>)
    ensures
        field_views(final(f)@) == append_field(field_views(old(f)@), k@, v@),
{
    let ghost fv = field_views(f@);
    proof {
        lemma_key_pos_range(fv, k@);
    }
    match key_pos_exec(f, k) {
        Some(i) => {
            let mut text = chars_of(f[i].1.as_str());
            text.push(' ');
            append_chars(&mut text, v);
            let key = f[i].0.clone();
            assert(key@ == k@);
            assert(text@ == fv[i as int].1 + seq![' '] + v@);
            let ghost item = (key@, text@);
            f.set(i, (key, string_from_chars(&text)));
            assert(field_views(f@) =~= fv.update(i as int, item));
            assert(field_views(f@) =~= append_field(fv, k@, v@));
        },
        None => {
            let mut text: Vec<char> = Vec::new();
            text.push(' ');
            append_chars(&mut text, v);
            f.push((string_from_chars(&chars_of(k)), string_from_chars(&text)));
            assert(field_views(f@) =~= append_field(fv, k@, v@));
        },
    }
}

fn set_field_exec(f: &mut Vec<(String, String)>, k: &str, v: &Vec<char>)
    ensures
        field_views(final(f)@) == set_field(field_views(old(f)@), k@, v@),
{
    let ghost fv = field_views(f@);
    proof {
        lemma_key_pos_range(fv, k@);
    }
    match key_pos_exec(f, k) {
        Some(i) => {
            let key = f[i].0.clone();
            assert(key@ == k@);
            f.set(i, (key, string_from_chars(v)));
            assert(field_views(f@) =~= set_field(fv, k@, v@));
        },
        None => {
            f.push((string_from_chars(&chars_of(k)), string_from_chars(v)));
            assert(field_views(f@) =~= set_field(fv, k@, v@));
        },
    }
}

fn join_values(values: &Vec<String>) -> (r: String)
    ensures
        r@ == join_with(string_views(values@), seq![' ']),
{
    let ghost vv = string_views(values@);
    let mut out: Vec<char> = Vec::new();
    let mut i: usize = 0;
    assert(vv.take(0) =~= Seq::<Seq<char>>::empty());
    while i < values.len()
        invariant
            i <= values@.len(),
            vv == string_views(values@),
            out@ == join_with(vv.take(i as int), seq![' ']),
        decreases values@.len() - i,
    {
        if i > 0 {
            out.push(' ');
        }
        append_chars(&mut out, &chars_of(values[i].as_str()));
        proof {
            let s = vv.take(i + 1);
            assert(s.drop_last() =~= vv.take(i as int));
            assert(s.last() == values@[i as int]@);
            if i == 0 {
                assert(s =~= seq![values@[0]@]);
            }
        }
        assert(out@ =~= join_with(vv.take(i + 1), seq![' ']));
        i += 1;
    }
    assert(vv.take(values@.len() as int) =~= vv);
    string_from_chars(&out)
}

/// The searchable fields of a track.
pub fn track_fields_exec(t: &LibraryTrack, roots: &Vec<LibraryRoot>) -> (r: Vec<(String, String)>)
    ensures
        field_views(r@) == track_fields(*t, roots@),
{
    let mut f: Vec<(String, String)> = Vec::new();
    let mut i: usize = 0;
    while i < t.search_tags.len()
        invariant
            i <= t.search_tags@.len(),
            field_views(f@) == tag_fields(t.search_tags@.take(i as int)),
        decreases t.search_tags@.len() - i,
    {
        let joined = join_values(&t.search_tags[i].1);
        let value = normalize_for_search(joined.as_str());
        let key = t.search_tags[i].0.clone();
        let ghost before = field_views(f@);
        let ghost tag = t.search_tags@[i as int];
        assert(key@ == tag.0@);
        assert(value@ == normalized(join_with(string_views(tag.1@), seq![' '])));
        f.push((key, value));
        assert(t.search_tags@.take(i + 1) =~= t.search_tags@.take(i as int).push(tag));
        assert(tag_fields(t.search_tags@.take(i + 1)) =~= tag_fields(t.search_tags@.take(i as int)).push(
            (tag.0@, normalized(join_with(string_views(tag.1@), seq![' ']))),
        ));
        assert(field_views(f@) =~= tag_fields(t.search_tags@.take(i + 1)));
        i += 1;
    }
    assert(t.search_tags@.take(t.search_tags@.len() as int) =~= t.search_tags@);
    let title = chars_of(normalize_for_search(string_from_chars(&trim_str(t.title.as_str())).as_str()).as_str());
    append_field_exec(&mut f, "title", &title);
    let artist = chars_of(normalize_for_search(string_from_chars(&trim_str(t.artist.as_str())).as_str()).as_str());
    append_field_exec(&mut f, "artist", &artist);
    let album = chars_of(normalize_for_search(string_from_chars(&trim_str(t.album.as_str())).as_str()).as_str());
    append_field_exec(&mut f, "album", &album);
    let genre = chars_of(normalize_for_search(string_from_chars(&trim_str(t.genre.as_str())).as_str()).as_str());
    append_field_exec(&mut f, "genre", &genre);
    let path = chars_of(normalize_for_search(t.path.as_str()).as_str());
    append_field_exec(&mut f, "path", &path);
    match t.year {
        Some(y) => {
            let mut d: Vec<char> = Vec::new();
            push_decimal_i64(&mut d, y as i64);
            assert(d@ =~= decimal_int(y as int));
            set_field_exec(&mut f, "year", &d);
        },
        None => {},
    }
    match t.track_no {
        Some(n) => {
            let mut d: Vec<char> = Vec::new();
            push_decimal(&mut d, n as u64);
            assert(d@ =~= decimal(n as nat));
            set_field_exec(&mut f, "track", &d);
        },
        None => {},
    }
    match find_root(roots, t.root_path.as_str()) {
        Some(j) => {
            proof {
                lemma_root_index_range(roots@, t.root_path@, roots@.len() as int);
            }
            let label = roots[j].search_label();
            let n = chars_of(normalize_for_search(label.as_str()).as_str());
            set_field_exec(&mut f, "root", &n);
        },
        None => {},
    }
    f
}

// ---------------------------------------------------------------------------
// Prepared tracks and album inventory
// ---------------------------------------------------------------------------

/// A track ready to be searched: its trimmed texts, their normalized forms,
/// and its searchable fields.
#[derive(Debug, Clone)]
pub struct PreparedSearchTrack {
    pub path: String,
    pub root_path: String,
    pub title: String,
    pub artist: String,
    pub album: String,
    pub cover_path: String,
    pub genre: String,
    pub year: Option<i32>,
    pub track_no: Option<u32>,
    pub duration_bits: Option<u32>,
    pub title_l: String,
    pub artist_l: String,
    pub album_l: String,
    pub fields: Vec<(String, String)>,
}

/// What the main listing of an album holds: how many tracks, and the
/// durations (as `f32` bits) that add up to its length: those of its
/// tracks that are finite and not negative, in library order.
#[derive(Debug, Clone)]
pub struct AlbumInventory {
    pub album_key: String,
    pub main_track_count: u32,
    pub main_durations: Vec<u32>,
}

pub struct InventoryView {
    pub album_key: Seq<char>,
    pub main_track_count: u32,
    pub main_durations: Seq<u32>,
}

impl View for AlbumInventory {
    type V = InventoryView;

    open spec fn view(&self) -> InventoryView {
        InventoryView {
            album_key: self.album_key@,
            main_track_count: self.main_track_count,
            main_durations: self.main_durations@,
        }
    }
}

pub open spec fn inventory_views(v: Seq<AlbumInventory>) -> Seq<InventoryView> {
    v.map_values(|a: AlbumInventory| a@)
}

/// The index built for one library revision.
#[derive(Debug, Clone, Default)]
pub struct PreparedSearchLibrary {
    pub tracks: Vec<PreparedSearchTrack>,
    pub album_inventory: Vec<AlbumInventory>,
}

/// The prepared form of a library track.
pub open spec fn prepared_track_spec(p: PreparedSearchTrack, t: LibraryTrack, roots: Seq<LibraryRoot>) -> bool {
    &&& p.path@ == t.path@
    &&& p.root_path@ == t.root_path@
    &&& p.title@ == trim(t.title@)
    &&& p.artist@ == trim(t.artist@)
    &&& p.album@ == trim(t.album@)
    &&& p.cover_path@ == t.cover_path@
    &&& p.genre@ == trim(t.genre@)
    &&& p.year == t.year
    &&& p.track_no == t.track_no
    &&& p.duration_bits == t.duration_bits
    &&& p.title_l@ == normalized(trim(t.title@))
    &&& p.artist_l@ == normalized(trim(t.artist@))
    &&& p.album_l@ == normalized(trim(t.album@))
    &&& field_views(p.fields@) == track_fields(t, roots)
}

/// An `f32` with these bits is `>= 0.0`: its sign is clear, or it is `-0.0`.
pub open spec fn f32_bits_not_negative(bits: u32) -> bool {
    bits < 0x8000_0000 || bits == 0x8000_0000
}

/// A duration that counts toward an album's length.
pub open spec fn counted_duration(d: Option<u32>) -> bool {
    match d {
        Some(b) => f32_bits_finite(b) && f32_bits_not_negative(b),
        None => false,
    }
}

/// The entry for album `k`.
pub open spec fn inventory_pos(inv: Seq<InventoryView>, k: Seq<char>) -> Option<int>
    decreases inv.len(),
{
    if inv.len() == 0 {
        None
    } else if inv.last().album_key == k {
        match inventory_pos(inv.drop_last(), k) {
            Some(i) => Some(i),
            None => Some(inv.len() - 1),
        }
    } else {
        inventory_pos(inv.drop_last(), k)
    }
}

/// One track's effect on the inventory: a track in an album folder gives
/// the album an entry; a track of its main listing also counts (saturating)
/// and adds its duration when that is finite and not negative.
pub open spec fn inventory_step(inv: Seq<InventoryView>, t: LibraryTrack, roots: Seq<LibraryRoot>) -> Seq<InventoryView> {
    match track_context(roots, t.path@, t.root_path@, trim(t.artist@)) {
        None => inv,
        Some(c) => match c.album_key {
            None => inv,
            Some(k) => {
                let base = match inventory_pos(inv, k) {
                    Some(i) => inv[i],
                    None => InventoryView { album_key: k, main_track_count: 0, main_durations: Seq::empty() },
                };
                let next = if c.is_main_level_album_track || c.is_disc_section_album_track {
                    InventoryView {
                        album_key: k,
                        main_track_count: if base.main_track_count < u32::MAX {
                            (base.main_track_count + 1) as u32
                        } else {
                            base.main_track_count
                        },
                        main_durations: if counted_duration(t.duration_bits) {
                            base.main_durations.push(t.duration_bits.unwrap())
                        } else {
                            base.main_durations
                        },
                    }
                } else {
                    base
                };
                match inventory_pos(inv, k) {
                    Some(i) => inv.update(i, next),
                    None => inv.push(next),
                }
            },
        },
    }
}

/// The inventory after the first `n` tracks.
pub open spec fn inventory_upto(tracks: Seq<LibraryTrack>, roots: Seq<LibraryRoot>, n: int) -> Seq<InventoryView>
    decreases n,
{
    if n <= 0 {
        Seq::empty()
    } else {
        inventory_step(inventory_upto(tracks, roots, n - 1), tracks[n - 1], roots)
    }
}

proof fn lemma_inventory_pos_range(inv: Seq<InventoryView>, k: Seq<char>)
    ensures
        match inventory_pos(inv, k) {
            Some(i) => 0 <= i < inv.len() && inv[i].album_key == k,
            None => true,
        },
    decreases inv.len(),
{
    if inv.len() > 0 {
        lemma_inventory_pos_range(inv.drop_last(), k);
    }
}

proof fn lemma_inventory_pos_prefix(inv: Seq<InventoryView>, k: Seq<char>, n: int)
    requires
        0 <= n <= inv.len(),
        inventory_pos(inv.take(n), k) is Some,
    ensures
        inventory_pos(inv, k) == inventory_pos(inv.take(n), k),
    decreases inv.len() - n,
{
    if n < inv.len() {
        assert(inv.take(n + 1).drop_last() =~= inv.take(n));
        lemma_inventory_pos_prefix(inv, k, n + 1);
    } else {
        assert(inv.take(n) =~= inv);
    }
}

fn inventory_pos_exec(inv: &Vec<AlbumInventory>, k: &Vec<char>) -> (r: Option<usize>)
    ensures
        match r {
            Some(i) => i < inv@.len() && inventory_pos(inventory_views(inv@), k@) == Some(i as int),
            None => inventory_pos(inventory_views(inv@), k@) is None,
        },
{
    let ghost iv = inventory_views(inv@);
    let mut i: usize = 0;
    while i < inv.len()
        invariant
            i <= inv@.len(),
            iv == inventory_views(inv@),
            inventory_pos(iv.take(i as int), k@) is None,
        decreases inv@.len() - i,
    {
        proof {
            assert(iv.take(i + 1).drop_last() =~= iv.take(i as int));
            assert(iv.take(i + 1).last() == iv[i as int]);
        }
        if chars_eq(&chars_of(inv[i].album_key.as_str()), k) {
            proof {
                lemma_inventory_pos_prefix(iv, k@, i + 1);
            }
            return Some(i);
        }
        i += 1;
    }
    assert(iv.take(inv@.len() as int) =~= iv);
    None
}

fn counted_duration_exec(d: Option<u32>) -> (r: bool)
    ensures
        r == counted_duration(d),
{
    match d {
        Some(b) => (b / 0x80_0000) % 0x100 != 0xFF && (b < 0x8000_0000 || b == 0x8000_0000),
        None => false,
    }
}

fn copy_u32s(v: &Vec<u32>) -> (r: Vec<u32>)
    ensures
        r@ == v@,
{
    let mut out: Vec<u32> = Vec::new();
    let mut i: usize = 0;
    while i < v.len()
        invariant
            i <= v@.len(),
            out@ == v@.take(i as int),
        decreases v@.len() - i,
    {
        out.push(v[i]);
        i += 1;
        assert(out@ =~= v@.take(i as int));
    }
    assert(v@.take(v@.len() as int) =~= v@);
    out
}

/// Applies one track to the album inventory.
fn inventory_update(inv: &mut Vec<AlbumInventory>, t: &LibraryTrack, roots: &Vec<LibraryRoot>)
    ensures
        inventory_views(final(inv)@) == inventory_step(inventory_views(old(inv)@), *t, roots@),
{
    let ghost iv = inventory_views(inv@);
    let j = match find_root(roots, t.root_path.as_str()) {
        Some(j) => j,
        None => return,
    };
    proof {
        lemma_root_index_range(roots@, t.root_path@, roots@.len() as int);
    }
    let root = prepared_root(&roots[j]);
    let artist = string_from_chars(&trim_str(t.artist.as_str()));
    let c = match derive_tree_path_context_for_root(t.path.as_str(), &root, artist.as_str()) {
        Some(c) => c,
        None => return,
    };
    let key = match &c.album_key {
        Some(k) => chars_of(k.as_str()),
        None => return,
    };
    proof {
        lemma_inventory_pos_range(iv, key@);
    }
    let in_main_listing = c.is_main_level_album_track || c.is_disc_section_album_track;
    let pos = inventory_pos_exec(inv, &key);
    let (count, durations): (u32, Vec<u32>) = match pos {
        Some(i) => (inv[i].main_track_count, copy_u32s(&inv[i].main_durations)),
        None => (0, Vec::new()),
    };
    let next = if in_main_listing {
        let mut d = durations;
        if counted_duration_exec(t.duration_bits) {
            match t.duration_bits {
                Some(b) => d.push(b),
                None => {},
            }
        }
        AlbumInventory {
            album_key: string_from_chars(&key),
            main_track_count: if count < u32::MAX { count + 1 } else { count },
            main_durations: d,
        }
    } else {
        AlbumInventory { album_key: string_from_chars(&key), main_track_count: count, main_durations: durations }
    };
    let ghost nv = next@;
    match pos {
        Some(i) => {
            inv.set(i, next);
            assert(inventory_views(inv@) =~= iv.update(i as int, nv));
        },
        None => {
            inv.push(next);
            assert(inventory_views(inv@) =~= iv.push(nv));
        },
    }
}

/// No tag name occurs twice among a track's extra tags (they come from a
/// map keyed by name).
pub open spec fn tag_names_distinct(tags: Seq<(String, Vec<String>)>) -> bool {
    forall|i: int, j: int| 0 <= i < j < tags.len() ==> #[trigger] tags[i].0@ != #[trigger] tags[j].0@
}

/// The prepared form of one track.
pub fn prepare_track(t: &LibraryTrack, roots: &Vec<LibraryRoot>) -> (r: PreparedSearchTrack)
    requires
        tag_names_distinct(t.search_tags@),
    ensures
        prepared_track_spec(r, *t, roots@),
{
    let title = string_from_chars(&trim_str(t.title.as_str()));
    let artist = string_from_chars(&trim_str(t.artist.as_str()));
    let album = string_from_chars(&trim_str(t.album.as_str()));
    let genre = string_from_chars(&trim_str(t.genre.as_str()));
    let title_l = normalize_for_search(title.as_str());
    let artist_l = normalize_for_search(artist.as_str());
    let album_l = normalize_for_search(album.as_str());
    PreparedSearchTrack {
        path: t.path.clone(),
        root_path: t.root_path.clone(),
        title,
        artist,
        album,
        cover_path: t.cover_path.clone(),
        genre,
        year: t.year,
        track_no: t.track_no,
        duration_bits: t.duration_bits,
        title_l,
        artist_l,
        album_l,
        fields: track_fields_exec(t, roots),
    }
}

/// Builds the search index of a library: nothing when it has no roots;
/// otherwise every track prepared, and the inventory of every album.
pub fn prepare_search_library(library: &LibrarySnapshot) -> (r: PreparedSearchLibrary)
    requires
        forall|i: int| 0 <= i < library.tracks@.len() ==> tag_names_distinct(#[trigger] library.tracks@[i].search_tags@),
    ensures
        library.roots@.len() == 0 ==> r.tracks@.len() == 0 && r.album_inventory@.len() == 0,
        library.roots@.len() > 0 ==> {
            &&& r.tracks@.len() == library.tracks@.len()
            &&& forall|i: int|
                0 <= i < r.tracks@.len() ==> prepared_track_spec(
                    #[trigger] r.tracks@[i],
                    library.tracks@[i],
                    library.roots@,
                )
            &&& inventory_views(r.album_inventory@) == inventory_upto(
                library.tracks@,
                library.roots@,
                library.tracks@.len() as int,
            )
        },
{
    if library.roots.len() == 0 {
        return PreparedSearchLibrary { tracks: Vec::new(), album_inventory: Vec::new() };
    }
    let mut tracks: Vec<PreparedSearchTrack> = Vec::new();
    let mut inv: Vec<AlbumInventory> = Vec::new();
    let mut i: usize = 0;
    while i < library.tracks.len()
        invariant
            i <= library.tracks@.len(),
            tracks@.len() == i,
            forall|k: int|
                0 <= k < i ==> prepared_track_spec(#[trigger] tracks@[k], library.tracks@[k], library.roots@),
            inventory_views(inv@) == inventory_upto(library.tracks@, library.roots@, i as int),
            forall|k: int| 0 <= k < library.tracks@.len() ==> tag_names_distinct(#[trigger] library.tracks@[k].search_tags@),
        decreases library.tracks@.len() - i,
    {
        let t = &library.tracks[i];
        let p = prepare_track(t, &library.roots);
        tracks.push(p);
        inventory_update(&mut inv, t, &library.roots);
        i += 1;
    }
    PreparedSearchLibrary { tracks, album_inventory: inv }
}

} // verus!
