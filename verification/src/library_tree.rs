//! The library tree: how an album folder's tracks and sections are resolved
//! into a title, year, cover and ordered tracks, and how tree rows are keyed,
//! labelled and encoded.
use vstd::prelude::*;

use crate::codec::{clamp16, clamp_u16, le16, le32, push_i32, push_u16, push_u16_string, push_u32, push_u8, u16_string_bytes};
use crate::natural::{leading_number, leading_track_number, natural_le, natural_order_str, lemma_natural_order_antisymmetric};
use crate::search::{disc_section_name, is_main_album_disc_section};
use crate::sorting::{TotalPreorder, adjacent_sorted, sort_seq, sort_stable};
use crate::text::{append_chars, chars_of, decimal, lemma_decimal_nonempty, push_decimal, push_decimal_i64, decimal_int, push_str, string_from_chars, trim, trim_str};

verus! {

pub const ROW_TYPE_ROOT: u8 = 0;

pub const ROW_TYPE_ARTIST: u8 = 1;

pub const ROW_TYPE_ALBUM: u8 = 2;

pub const ROW_TYPE_SECTION: u8 = 3;

pub const ROW_TYPE_TRACK: u8 = 4;

/// A track as it sits in the tree before ordering.
#[derive(Debug, Clone)]
pub struct TrackLeaf {
    pub path: String,
    pub title: String,
    pub file_stem: String,
    pub album_tag: String,
    pub cover_path: String,
    pub year: Option<i32>,
    pub track_no: Option<u32>,
}

/// An album folder: tracks directly in it, and named sub-folders (sections),
/// in ascending name order as a `BTreeMap` keeps them.
#[derive(Debug, Clone)]
pub struct AlbumNodeBuilder {
    pub folder_name: String,
    pub folder_path: String,
    pub root_tracks: Vec<TrackLeaf>,
    pub sections: Vec<(String, Vec<TrackLeaf>)>,
}

/// A track placed in display order, with its label.
#[derive(Debug, Clone)]
pub struct OrderedTrack {
    pub label: String,
    pub path: String,
    pub number: u16,
}

#[derive(Debug, Clone)]
pub struct ResolvedSection {
    pub name: String,
    pub path: String,
    pub cover_path: Option<String>,
    pub year: Option<i32>,
    pub tracks: Vec<OrderedTrack>,
}

#[derive(Debug, Clone)]
pub struct ResolvedAlbum {
    pub title: String,
    pub year: Option<i32>,
    pub folder_name: String,
    pub folder_path: String,
    pub cover_path: Option<String>,
    pub root_tracks: Vec<OrderedTrack>,
    pub sections: Vec<ResolvedSection>,
}

// ---------------------------------------------------------------------------
// Year, cover and title of a group of tracks
// ---------------------------------------------------------------------------

/// The year shared by every track, when all have one and they agree.
pub open spec fn uniform_year(ys: Seq<Option<i32>>) -> Option<i32> {
    if ys.len() > 0 && ys[0] is Some && (forall|k: int| 0 <= k < ys.len() ==> #[trigger] ys[k] == ys[0]) {
        ys[0]
    } else {
        None
    }
}

pub open spec fn track_years(tracks: Seq<TrackLeaf>) -> Seq<Option<i32>> {
    tracks.map_values(|t: TrackLeaf| t.year)
}

/// `Some(year)` when every year is `Some` and they are all equal; otherwise `None`.
pub fn resolve_uniform_year(years: &Vec<Option<i32>>) -> (r: Option<i32>)
    ensures
        r == uniform_year(years@),
{
    let mut resolved: Option<i32> = None;
    let mut i: usize = 0;
    while i < years.len()
        invariant
            i <= years@.len(),
            i == 0 ==> resolved is None,
            i > 0 ==> resolved == years@[0] && resolved is Some,
            forall|k: int| 0 <= k < i ==> #[trigger] years@[k] == years@[0],
        decreases years@.len() - i,
    {
        match years[i] {
            None => {
                return None;
            },
            Some(y) => match resolved {
                Some(existing) => {
                    if existing != y {
                        return None;
                    }
                },
                None => {
                    resolved = Some(y);
                },
            },
        }
        i += 1;
    }
    resolved
}

pub fn resolve_album_year(all_tracks: &Vec<TrackLeaf>) -> (r: Option<i32>)
    ensures
        r == uniform_year(track_years(all_tracks@)),
{
    let mut years: Vec<Option<i32>> = Vec::new();
    let mut i: usize = 0;
    while i < all_tracks.len()
        invariant
            i <= all_tracks@.len(),
            years@ == track_years(all_tracks@.take(i as int)),
        decreases all_tracks@.len() - i,
    {
        years.push(all_tracks[i].year);
        i += 1;
        assert(years@ =~= track_years(all_tracks@.take(i as int)));
    }
    assert(all_tracks@.take(all_tracks@.len() as int) =~= all_tracks@);
    resolve_uniform_year(&years)
}

/// The first non-blank cover path, trimmed.
pub open spec fn first_cover(tracks: Seq<TrackLeaf>) -> Option<Seq<char>>
    decreases tracks.len(),
{
    if tracks.len() == 0 {
        None
    } else if trim(tracks[0].cover_path@).len() > 0 {
        Some(trim(tracks[0].cover_path@))
    } else {
        first_cover(tracks.drop_first())
    }
}

pub open spec fn opt_view(o: Option<String>) -> Option<Seq<char>> {
    match o {
        Some(s) => Some(s@),
        None => None,
    }
}

pub fn resolve_album_cover(all_tracks: &Vec<TrackLeaf>) -> (r: Option<String>)
    ensures
        opt_view(r) == first_cover(all_tracks@),
{
    let mut i: usize = 0;
    assert(all_tracks@.skip(0) =~= all_tracks@);
    while i < all_tracks.len()
        invariant
            i <= all_tracks@.len(),
            first_cover(all_tracks@.skip(i as int)) == first_cover(all_tracks@),
        decreases all_tracks@.len() - i,
    {
        let t = trim_str(all_tracks[i].cover_path.as_str());
        assert(all_tracks@.skip(i as int)[0] == all_tracks@[i as int]);
        if t.len() > 0 {
            return Some(string_from_chars(&t));
        }
        assert(all_tracks@.skip(i as int).drop_first() =~= all_tracks@.skip(i + 1));
        i += 1;
    }
    None
}

/// The album tag when every track carries the same non-blank tag; otherwise the folder name.
pub open spec fn album_title(tracks: Seq<TrackLeaf>, folder: Seq<char>) -> Seq<char> {
    if tracks.len() > 0 && (forall|k: int|
        0 <= k < tracks.len() ==> trim(#[trigger] tracks[k].album_tag@).len() > 0) && (forall|k: int|
        0 <= k < tracks.len() ==> trim(#[trigger] tracks[k].album_tag@) == trim(tracks[0].album_tag@)) {
        trim(tracks[0].album_tag@)
    } else {
        folder
    }
}

pub fn resolve_album_title(all_tracks: &Vec<TrackLeaf>, folder_name: &str) -> (r: String)
    ensures
        r@ == album_title(all_tracks@, folder_name@),
{
    if all_tracks.len() == 0 {
        return crate::text::owned(folder_name);
    }
    let first = trim_str(all_tracks[0].album_tag.as_str());
    let mut i: usize = 0;
    while i < all_tracks.len()
        invariant
            i <= all_tracks@.len(),
            all_tracks@.len() > 0,
            first@ == trim(all_tracks@[0].album_tag@),
            forall|k: int| 0 <= k < i ==> trim(#[trigger] all_tracks@[k].album_tag@).len() > 0,
            forall|k: int| 0 <= k < i ==> trim(#[trigger] all_tracks@[k].album_tag@) == first@,
        decreases all_tracks@.len() - i,
    {
        let t = trim_str(all_tracks[i].album_tag.as_str());
        if t.len() == 0 || !crate::text::chars_eq(&t, &first) {
            return crate::text::owned(folder_name);
        }
        i += 1;
    }
    string_from_chars(&first)
}

// ---------------------------------------------------------------------------
// Track order
// ---------------------------------------------------------------------------

/// A path, ordered naturally.
#[derive(Debug, Clone)]
pub struct PathKey(pub String);

impl TotalPreorder for PathKey {
    open spec fn before(a: Self, b: Self) -> bool {
        natural_order_str(a.0@, b.0@) <= 0
    }

    proof fn lemma_total(a: Self, b: Self) {
        lemma_natural_order_antisymmetric(
            vstd::utf8::encode_utf8(a.0@),
            vstd::utf8::encode_utf8(b.0@),
        );
    }

    fn exec_before(a: &Self, b: &Self) -> (r: bool) {
        natural_le(a.0.as_str(), b.0.as_str())
    }
}

/// A track with the key it is ordered by.
#[derive(Debug, Clone)]
pub struct TrackOrderCandidate {
    pub path: String,
    pub title: String,
    pub rank: u8,
    pub number: u32,
}

impl TotalPreorder for TrackOrderCandidate {
    /// By rank, then number, then path in natural order.
    open spec fn before(a: Self, b: Self) -> bool {
        a.rank < b.rank || (a.rank == b.rank && (a.number < b.number || (a.number == b.number
            && natural_order_str(a.path@, b.path@) <= 0)))
    }

    proof fn lemma_total(a: Self, b: Self) {
        lemma_natural_order_antisymmetric(
            vstd::utf8::encode_utf8(a.path@),
            vstd::utf8::encode_utf8(b.path@),
        );
    }

    fn exec_before(a: &Self, b: &Self) -> (r: bool) {
        a.rank < b.rank || (a.rank == b.rank && (a.number < b.number || (a.number == b.number
            && natural_le(a.path.as_str(), b.path.as_str()))))
    }
}

pub open spec fn path_keys(tracks: Seq<TrackLeaf>) -> Seq<PathKey> {
    tracks.map_values(|t: TrackLeaf| PathKey(t.path))
}

/// The last position of a path in a listing, or -1.
pub open spec fn last_position(listing: Seq<PathKey>, p: Seq<char>) -> int
    decreases listing.len(),
{
    if listing.len() == 0 {
        -1
    } else if listing.last().0@ == p {
        listing.len() - 1
    } else {
        last_position(listing.drop_last(), p)
    }
}

/// The 1-based position of a track in the naturally sorted listing of the
/// group's paths; 1 if that does not fit in a `u32`.
pub open spec fn positional_number(tracks: Seq<TrackLeaf>, p: Seq<char>) -> u32 {
    let pos = last_position(sort_seq(path_keys(tracks)), p) + 1;
    if 0 <= pos <= u32::MAX {
        pos as u32
    } else {
        1
    }
}

/// Ordering key of a track: a tag number first, then a number at the start
/// of the file name, then the position among the group's paths.
pub open spec fn candidate_of(t: TrackLeaf, tracks: Seq<TrackLeaf>) -> TrackOrderCandidate {
    let from_name = leading_number(t.file_stem@);
    TrackOrderCandidate {
        path: t.path,
        title: t.title,
        rank: if t.track_no is Some {
            0
        } else if from_name is Some {
            1
        } else {
            2
        },
        number: match t.track_no {
            Some(n) => n,
            None => match from_name {
                Some(n) => n,
                None => positional_number(tracks, t.path@),
            },
        },
    }
}

pub open spec fn candidates_of(tracks: Seq<TrackLeaf>) -> Seq<TrackOrderCandidate> {
    tracks.map_values(|t: TrackLeaf| candidate_of(t, tracks))
}

pub open spec fn max_number(c: Seq<TrackOrderCandidate>) -> nat
    decreases c.len(),
{
    if c.len() == 0 {
        0
    } else {
        let m = max_number(c.drop_last());
        if c.last().number > m {
            c.last().number as nat
        } else {
            m
        }
    }
}

/// Width of the number column: the digits of the largest number, at least two.
pub open spec fn label_width(c: Seq<TrackOrderCandidate>) -> nat {
    let d = decimal(max_number(c)).len();
    if d > 2 {
        d
    } else {
        2
    }
}

/// `format!("{:0width$}", n)`.
pub open spec fn zero_padded(n: nat, width: nat) -> Seq<char> {
    let d = decimal(n);
    if d.len() < width {
        Seq::new((width - d.len()) as nat, |i: int| '0') + d
    } else {
        d
    }
}

/// The label of an ordered track: "NN - Title".
pub open spec fn track_label(c: TrackOrderCandidate, width: nat) -> Seq<char> {
    zero_padded(c.number as nat, width) + " - "@ + c.title@
}

/// Each ordered track comes from the sorted candidate at the same position.
pub open spec fn ordered_matches(out: Seq<OrderedTrack>, tracks: Seq<TrackLeaf>) -> bool {
    let sorted = sort_seq(candidates_of(tracks));
    let width = label_width(candidates_of(tracks));
    &&& out.len() == tracks.len()
    &&& forall|k: int|
        0 <= k < out.len() ==> {
            &&& (#[trigger] out[k]).path@ == sorted[k].path@
            &&& out[k].label@ == track_label(sorted[k], width)
            &&& out[k].number as int == clamp16(sorted[k].number as int)
        }
}

fn positional_lookup(sorted: &Vec<PathKey>, p: &String) -> (idx: Option<usize>)
    ensures
        match idx {
            Some(i) => i as int == last_position(sorted@, p@),
            None => last_position(sorted@, p@) == -1,
        },
{
    let mut j = sorted.len();
    assert(sorted@.take(j as int) =~= sorted@);
    while j > 0
        invariant
            j <= sorted@.len(),
            last_position(sorted@, p@) == last_position(sorted@.take(j as int), p@),
        decreases j,
    {
        let ghost pre = sorted@.take(j as int);
        assert(pre.drop_last() =~= sorted@.take(j - 1));
        if crate::text::str_eq(sorted[j - 1].0.as_str(), p.as_str()) {
            return Some(j - 1);
        }
        j -= 1;
    }
    None
}

fn zero_padded_chars(out: &mut Vec<char>, n: u32, width: usize)
    ensures
        final(out)@ == old(out)@ + zero_padded(n as nat, width as nat),
{
    let mut digits: Vec<char> = Vec::new();
    push_decimal(&mut digits, n as u64);
    assert(digits@ =~= decimal(n as nat));
    if digits.len() < width {
        let pad = width - digits.len();
        let mut k: usize = 0;
        while k < pad
            invariant
                k <= pad,
                out@ == old(out)@ + Seq::new(k as nat, |i: int| '0'),
            decreases pad - k,
        {
            out.push('0');
            k += 1;
            assert(out@ =~= old(out)@ + Seq::new(k as nat, |i: int| '0'));
        }
    }
    append_chars(out, &digits);
    assert(out@ =~= old(out)@ + zero_padded(n as nat, width as nat));
}

fn decimal_len(n: u32) -> (l: usize)
    ensures
        l == decimal(n as nat).len(),
{
    let mut digits: Vec<char> = Vec::new();
    push_decimal(&mut digits, n as u64);
    assert(digits@ =~= decimal(n as nat));
    digits.len()
}

/// Orders tracks: tag numbers first, then numbered file names, then the rest,
/// each by number and then by path; labels are zero-padded to a common width.
pub fn order_tracks(tracks: &Vec<TrackLeaf>) -> (out: Vec<OrderedTrack>)
    ensures
        ordered_matches(out@, tracks@),
{
    if tracks.len() == 0 {
        return Vec::new();
    }
    let mut keys: Vec<PathKey> = Vec::new();
    let mut i: usize = 0;
    while i < tracks.len()
        invariant
            i <= tracks@.len(),
            keys@ == path_keys(tracks@.take(i as int)),
        decreases tracks@.len() - i,
    {
        keys.push(PathKey(tracks[i].path.clone()));
        i += 1;
        assert(keys@ =~= path_keys(tracks@.take(i as int)));
    }
    assert(tracks@.take(tracks@.len() as int) =~= tracks@);
    let positional = sort_stable(keys);

    let mut candidates: Vec<TrackOrderCandidate> = Vec::new();
    let mut max_n: u32 = 0;
    let mut j: usize = 0;
    while j < tracks.len()
        invariant
            j <= tracks@.len(),
            positional@ == sort_seq(path_keys(tracks@)),
            candidates@ == candidates_of(tracks@).take(j as int),
            max_n as nat == max_number(candidates_of(tracks@).take(j as int)),
        decreases tracks@.len() - j,
    {
        let t = &tracks[j];
        let from_name = leading_track_number(t.file_stem.as_str());
        let number = match t.track_no {
            Some(n) => n,
            None => match from_name {
                Some(n) => n,
                None => match positional_lookup(&positional, &t.path) {
                    Some(idx) => if idx < 4294967295usize {
                        (idx + 1) as u32
                    } else {
                        1
                    },
                    None => 1,
                },
            },
        };
        let rank: u8 = if t.track_no.is_some() {
            0
        } else if from_name.is_some() {
            1
        } else {
            2
        };
        proof {
            if t.track_no is None && from_name is None {
                let pos = last_position(sort_seq(path_keys(tracks@)), t.path@);
                assert(path_keys(tracks@)[j as int].0@ == t.path@);
                lemma_listed_has_position(path_keys(tracks@), j as int);
            }
        }
        let c = TrackOrderCandidate { path: t.path.clone(), title: t.title.clone(), rank, number };
        assert(c == candidate_of(tracks@[j as int], tracks@));
        candidates.push(c);
        if number > max_n {
            max_n = number;
        }
        proof {
            let cs = candidates_of(tracks@).take(j + 1);
            assert(cs.drop_last() =~= candidates_of(tracks@).take(j as int));
        }
        j += 1;
        assert(candidates@ =~= candidates_of(tracks@).take(j as int));
    }
    assert(candidates_of(tracks@).take(tracks@.len() as int) =~= candidates_of(tracks@));
    let dl = decimal_len(max_n);
    let width: usize = if dl > 2 {
        dl
    } else {
        2
    };
    let sorted = sort_stable(candidates);
    let ghost sorted_spec = sorted@;
    let mut out: Vec<OrderedTrack> = Vec::new();
    let mut k: usize = 0;
    while k < sorted.len()
        invariant
            k <= sorted@.len(),
            sorted@ == sorted_spec,
            sorted_spec == sort_seq(candidates_of(tracks@)),
            sorted_spec.len() == tracks@.len(),
            width as nat == label_width(candidates_of(tracks@)),
            out@.len() == k,
            forall|m: int|
                0 <= m < k ==> {
                    &&& (#[trigger] out@[m]).path@ == sorted_spec[m].path@
                    &&& out@[m].label@ == track_label(sorted_spec[m], width as nat)
                    &&& out@[m].number as int == clamp16(sorted_spec[m].number as int)
                },
        decreases sorted@.len() - k,
    {
        let c = &sorted[k];
        let mut label: Vec<char> = Vec::new();
        zero_padded_chars(&mut label, c.number, width);
        push_str(&mut label, " - ");
        push_str(&mut label, c.title.as_str());
        proof {
            reveal_strlit(" - ");
        }
        assert(label@ =~= track_label(sorted_spec[k as int], width as nat));
        let number: u16 = if c.number > 65535 {
            65535
        } else {
            c.number as u16
        };
        out.push(OrderedTrack { label: string_from_chars(&label), path: c.path.clone(), number });
        k += 1;
    }
    out
}

/// A path listed in a group has a position in the sorted listing.
proof fn lemma_listed_has_position(keys: Seq<PathKey>, j: int)
    requires
        0 <= j < keys.len(),
    ensures
        0 <= last_position(sort_seq(keys), keys[j].0@) < keys.len(),
{
    vstd::seq_lib::lemma_multiset_commutative(keys, keys);
    let s = sort_seq(keys);
    lemma_sort_seq_multiset(keys);
    assert(keys.to_multiset().count(keys[j]) > 0) by {
        keys.to_multiset_ensures();
        assert(keys.contains(keys[j]));
    }
    s.to_multiset_ensures();
    assert(s.contains(keys[j]));
    let i = choose|i: int| 0 <= i < s.len() && s[i] == keys[j];
    lemma_last_position_found(s, keys[j].0@, i);
}

proof fn lemma_last_position_found(s: Seq<PathKey>, p: Seq<char>, i: int)
    requires
        0 <= i < s.len(),
        s[i].0@ == p,
    ensures
        i <= last_position(s, p) < s.len(),
    decreases s.len(),
{
    if s.last().0@ != p {
        assert(i < s.len() - 1);
        lemma_last_position_found(s.drop_last(), p, i);
    }
}

pub proof fn lemma_sort_seq_multiset<T: TotalPreorder>(s: Seq<T>)
    ensures
        sort_seq(s).to_multiset() == s.to_multiset(),
        sort_seq(s).len() == s.len(),
    decreases s.len(),
{
    if s.len() > 0 {
        lemma_sort_seq_multiset(s.drop_last());
        let r = sort_seq(s.drop_last());
        crate::sorting::lemma_scan_pos_range(r, s.last(), r.len() as int);
        vstd::seq_lib::to_multiset_insert(r, crate::sorting::scan_pos(r, s.last(), r.len() as int), s.last());
        vstd::seq_lib::to_multiset_build(s.drop_last(), s.last());
        assert(s.drop_last().push(s.last()) =~= s);
    }
}

// ---------------------------------------------------------------------------
// Paths and folder images
// ---------------------------------------------------------------------------

/// `Path::join` for a relative name under a folder (an absolute name
/// replaces the folder).
pub open spec fn join_path(base: Seq<char>, name: Seq<char>) -> Seq<char> {
    if name.len() > 0 && name[0] == '/' {
        name
    } else if base.len() == 0 {
        name
    } else if base.last() == '/' {
        base + name
    } else {
        base + "/"@ + name
    }
}

pub fn join_path_string(base: &str, name: &str) -> (r: String)
    ensures
        r@ == join_path(base@, name@),
{
    let b = chars_of(base);
    let n = chars_of(name);
    if n.len() > 0 && n[0] == '/' {
        return string_from_chars(&n);
    }
    if b.len() == 0 {
        return string_from_chars(&n);
    }
    let mut out = b;
    if out[out.len() - 1] != '/' {
        out.push('/');
        proof {
            reveal_strlit("/");
        }
    }
    append_chars(&mut out, &n);
    assert(out@ =~= join_path(base@, name@));
    string_from_chars(&out)
}

/// The first image file found in a folder, as listed by the caller: pairs of
/// folder path and image path, first match wins.
pub open spec fn image_in(images: Seq<(String, String)>, dir: Seq<char>) -> Option<Seq<char>>
    decreases images.len(),
{
    if images.len() == 0 {
        None
    } else if images[0].0@ == dir {
        Some(images[0].1@)
    } else {
        image_in(images.drop_first(), dir)
    }
}

pub fn find_image_in_dir(images: &Vec<(String, String)>, dir: &str) -> (r: Option<String>)
    ensures
        opt_view(r) == image_in(images@, dir@),
{
    let mut i: usize = 0;
    assert(images@.skip(0) =~= images@);
    while i < images.len()
        invariant
            i <= images@.len(),
            image_in(images@.skip(i as int), dir@) == image_in(images@, dir@),
        decreases images@.len() - i,
    {
        assert(images@.skip(i as int)[0] == images@[i as int]);
        assert(images@.skip(i as int).drop_first() =~= images@.skip(i + 1));
        if crate::text::str_eq(images[i].0.as_str(), dir) {
            return Some(images[i].1.clone());
        }
        i += 1;
    }
    None
}

pub open spec fn or_else(a: Option<Seq<char>>, b: Option<Seq<char>>) -> Option<Seq<char>> {
    if a is Some {
        a
    } else {
        b
    }
}

// ---------------------------------------------------------------------------
// Album resolution
// ---------------------------------------------------------------------------

/// Tracks of the disc sections, in section order.
pub open spec fn disc_tracks(sections: Seq<(String, Vec<TrackLeaf>)>) -> Seq<TrackLeaf>
    decreases sections.len(),
{
    if sections.len() == 0 {
        seq![]
    } else {
        let rest = disc_tracks(sections.drop_last());
        if disc_section_name(sections.last().0@) {
            rest + sections.last().1@
        } else {
            rest
        }
    }
}

/// The tracks whose tags decide the album's title, year and cover: those in
/// the album folder and those of its disc sections.
pub open spec fn album_tracks(album: AlbumNodeBuilder) -> Seq<TrackLeaf> {
    album.root_tracks@ + disc_tracks(album.sections@)
}

/// A resolved section for the input section `name` with `tracks`: disc
/// sections carry no cover or year of their own; other sections take the
/// first track cover or else an image in their folder, and their uniform year.
pub open spec fn section_resolved_from(
    sec: ResolvedSection,
    folder_path: Seq<char>,
    name: String,
    tracks: Seq<TrackLeaf>,
    images: Seq<(String, String)>,
) -> bool {
    let path = join_path(folder_path, name@);
    let disc = disc_section_name(name@);
    &&& sec.name@ == name@
    &&& sec.path@ == path
    &&& opt_view(sec.cover_path) == (if disc {
        None
    } else {
        or_else(first_cover(tracks), image_in(images, path))
    })
    &&& sec.year == (if disc {
        None
    } else {
        uniform_year(track_years(tracks))
    })
    &&& ordered_matches(sec.tracks@, tracks)
}

/// The section was resolved from one of the input sections.
pub open spec fn has_source(
    sec: ResolvedSection,
    folder_path: Seq<char>,
    input: Seq<(String, Vec<TrackLeaf>)>,
    images: Seq<(String, String)>,
) -> bool {
    exists|j: int|
        0 <= j < input.len() && section_resolved_from(
            sec,
            folder_path,
            #[trigger] input[j].0,
            input[j].1@,
            images,
        )
}

/// The first disc section, in display order, whose folder holds an image.
pub open spec fn first_disc_image(secs: Seq<ResolvedSection>, images: Seq<(String, String)>) -> Option<Seq<char>>
    decreases secs.len(),
{
    if secs.len() == 0 {
        None
    } else if disc_section_name(secs[0].name@) && image_in(images, secs[0].path@) is Some {
        image_in(images, secs[0].path@)
    } else {
        first_disc_image(secs.drop_first(), images)
    }
}

/// A section, ordered by name.
pub struct SectionByName(pub ResolvedSection);

impl TotalPreorder for SectionByName {
    open spec fn before(a: Self, b: Self) -> bool {
        natural_order_str(a.0.name@, b.0.name@) <= 0
    }

    proof fn lemma_total(a: Self, b: Self) {
        lemma_natural_order_antisymmetric(
            vstd::utf8::encode_utf8(a.0.name@),
            vstd::utf8::encode_utf8(b.0.name@),
        );
    }

    fn exec_before(a: &Self, b: &Self) -> (r: bool) {
        natural_le(a.0.name.as_str(), b.0.name.as_str())
    }
}

pub fn copy_leaf(t: &TrackLeaf) -> (r: TrackLeaf)
    ensures
        r == *t,
{
    TrackLeaf {
        path: t.path.clone(),
        title: t.title.clone(),
        file_stem: t.file_stem.clone(),
        album_tag: t.album_tag.clone(),
        cover_path: t.cover_path.clone(),
        year: t.year,
        track_no: t.track_no,
    }
}

fn append_leaves(out: &mut Vec<TrackLeaf>, src: &Vec<TrackLeaf>)
    ensures
        final(out)@ == old(out)@ + src@,
{
    let mut i: usize = 0;
    while i < src.len()
        invariant
            i <= src@.len(),
            out@ == old(out)@ + src@.take(i as int),
        decreases src@.len() - i,
    {
        out.push(copy_leaf(&src[i]));
        i += 1;
        assert(out@ =~= old(out)@ + src@.take(i as int));
    }
    assert(src@.take(src@.len() as int) =~= src@);
}

fn first_disc_section_image(secs: &Vec<ResolvedSection>, images: &Vec<(String, String)>) -> (r: Option<String>)
    ensures
        opt_view(r) == first_disc_image(secs@, images@),
{
    let mut i: usize = 0;
    assert(secs@.skip(0) =~= secs@);
    while i < secs.len()
        invariant
            i <= secs@.len(),
            first_disc_image(secs@.skip(i as int), images@) == first_disc_image(secs@, images@),
        decreases secs@.len() - i,
    {
        assert(secs@.skip(i as int)[0] == secs@[i as int]);
        assert(secs@.skip(i as int).drop_first() =~= secs@.skip(i + 1));
        if is_main_album_disc_section(secs[i].name.as_str()) {
            let found = find_image_in_dir(images, secs[i].path.as_str());
            if found.is_some() {
                return found;
            }
        }
        i += 1;
    }
    None
}

proof fn lemma_section_source(
    sorted: Seq<SectionByName>,
    before_sort: Seq<SectionByName>,
    sections: Seq<ResolvedSection>,
    folder_path: Seq<char>,
    input: Seq<(String, Vec<TrackLeaf>)>,
    images: Seq<(String, String)>,
    k: int,
) -> (j: int)
    requires
        0 <= k < sections.len(),
        sorted.to_multiset() == before_sort.to_multiset(),
        sorted.len() == sections.len(),
        before_sort.len() == input.len(),
        forall|m: int| 0 <= m < sections.len() ==> #[trigger] sections[m] == sorted[m].0,
        forall|m: int|
            0 <= m < before_sort.len() ==> section_resolved_from(
                (#[trigger] before_sort[m]).0,
                folder_path,
                input[m].0,
                input[m].1@,
                images,
            ),
    ensures
        0 <= j < input.len(),
        section_resolved_from(sections[k], folder_path, input[j].0, input[j].1@, images),
        has_source(sections[k], folder_path, input, images),
{
    sorted.to_multiset_ensures();
    before_sort.to_multiset_ensures();
    assert(sorted.contains(sorted[k]));
    assert(sorted.to_multiset().count(sorted[k]) > 0);
    assert(before_sort.to_multiset().count(sorted[k]) > 0);
    assert(before_sort.contains(sorted[k]));
    let j = choose|j: int| 0 <= j < before_sort.len() && before_sort[j] == sorted[k];
    assert(section_resolved_from(before_sort[j].0, folder_path, input[j].0, input[j].1@, images));
    j
}

proof fn lemma_sections_from_input(
    sorted: Seq<SectionByName>,
    before_sort: Seq<SectionByName>,
    sections: Seq<ResolvedSection>,
    folder_path: Seq<char>,
    input: Seq<(String, Vec<TrackLeaf>)>,
    images: Seq<(String, String)>,
)
    requires
        sorted.to_multiset() == before_sort.to_multiset(),
        sorted.len() == sections.len(),
        before_sort.len() == input.len(),
        adjacent_sorted(sorted),
        forall|m: int| 0 <= m < sections.len() ==> #[trigger] sections[m] == sorted[m].0,
        forall|m: int|
            0 <= m < before_sort.len() ==> section_resolved_from(
                (#[trigger] before_sort[m]).0,
                folder_path,
                input[m].0,
                input[m].1@,
                images,
            ),
    ensures
        forall|k: int|
            0 <= k < sections.len() ==> has_source(#[trigger] sections[k], folder_path, input, images),
        forall|k: int|
            0 <= k < sections.len() - 1 ==> natural_order_str(
                #[trigger] sections[k].name@,
                sections[k + 1].name@,
            ) <= 0,
{
    assert forall|k: int| 0 <= k < sections.len() implies has_source(
        #[trigger] sections[k],
        folder_path,
        input,
        images,
    ) by {
        let j = lemma_section_source(sorted, before_sort, sections, folder_path, input, images, k);
    }
    assert forall|k: int| 0 <= k < sections.len() - 1 implies natural_order_str(
        #[trigger] sections[k].name@,
        sections[k + 1].name@,
    ) <= 0 by {
        assert(SectionByName::before(sorted[k], sorted[k + 1]));
    }
}

/// The sections are the input sections, each resolved, in some order:
/// each input section gives exactly one of them.
pub open spec fn sections_permuted(
    sections: Seq<ResolvedSection>,
    folder_path: Seq<char>,
    input: Seq<(String, Vec<TrackLeaf>)>,
    images: Seq<(String, String)>,
) -> bool {
    exists|src: Seq<ResolvedSection>|
        #![trigger src.to_multiset()]
        src.len() == input.len() && (forall|m: int|
            0 <= m < input.len() ==> section_resolved_from(
                #[trigger] src[m],
                folder_path,
                input[m].0,
                input[m].1@,
                images,
            )) && sections.to_multiset() == src.to_multiset()
}

pub open spec fn by_name(src: Seq<ResolvedSection>) -> Seq<SectionByName> {
    src.map_values(|s: ResolvedSection| SectionByName(s))
}

/// The sections are the input sections, each resolved, in the order a
/// stable sort by name (`sort_seq`, natural order) gives: sections whose
/// names tie keep the order of the input, which the tree builder keeps by
/// name, character by character.
pub open spec fn sections_stably_sorted(
    sections: Seq<ResolvedSection>,
    folder_path: Seq<char>,
    input: Seq<(String, Vec<TrackLeaf>)>,
    images: Seq<(String, String)>,
) -> bool {
    exists|src: Seq<ResolvedSection>|
        #![trigger by_name(src)]
        src.len() == input.len() && (forall|m: int|
            0 <= m < input.len() ==> section_resolved_from(
                #[trigger] src[m],
                folder_path,
                input[m].0,
                input[m].1@,
                images,
            )) && sections == sort_seq(by_name(src)).map_values(
            |w: SectionByName| w.0,
        )
}

proof fn lemma_sections_stably_sorted(
    sorted: Seq<SectionByName>,
    before_sort: Seq<SectionByName>,
    sections: Seq<ResolvedSection>,
    folder_path: Seq<char>,
    input: Seq<(String, Vec<TrackLeaf>)>,
    images: Seq<(String, String)>,
)
    requires
        sorted == sort_seq(before_sort),
        sorted.len() == sections.len(),
        before_sort.len() == input.len(),
        forall|m: int| 0 <= m < sections.len() ==> #[trigger] sections[m] == sorted[m].0,
        forall|m: int|
            0 <= m < before_sort.len() ==> section_resolved_from(
                (#[trigger] before_sort[m]).0,
                folder_path,
                input[m].0,
                input[m].1@,
                images,
            ),
    ensures
        sections_stably_sorted(sections, folder_path, input, images),
{
    let src = before_sort.map_values(|w: SectionByName| w.0);
    assert(by_name(src) =~= before_sort);
    assert(sections =~= sorted.map_values(|w: SectionByName| w.0));
    assert forall|m: int| 0 <= m < input.len() implies section_resolved_from(
        #[trigger] src[m],
        folder_path,
        input[m].0,
        input[m].1@,
        images,
    ) by {
        assert(src[m] == before_sort[m].0);
    }
}

proof fn lemma_unwrap_counts(a: Seq<SectionByName>, x: ResolvedSection)
    ensures
        a.map_values(|w: SectionByName| w.0).to_multiset().count(x) == a.to_multiset().count(SectionByName(x)),
    decreases a.len(),
{
    broadcast use vstd::seq_lib::group_to_multiset_ensures;

    if a.len() > 0 {
        let b = a.drop_last();
        lemma_unwrap_counts(b, x);
        assert(a.map_values(|w: SectionByName| w.0) =~= b.map_values(|w: SectionByName| w.0).push(a.last().0));
        assert(a =~= b.push(a.last()));
        assert((a.last().0 == x) == (a.last() == SectionByName(x)));
    } else {
        assert(a.map_values(|w: SectionByName| w.0) =~= Seq::<ResolvedSection>::empty());
    }
}

proof fn lemma_sections_permuted(
    sorted: Seq<SectionByName>,
    before_sort: Seq<SectionByName>,
    sections: Seq<ResolvedSection>,
    folder_path: Seq<char>,
    input: Seq<(String, Vec<TrackLeaf>)>,
    images: Seq<(String, String)>,
)
    requires
        sorted.to_multiset() == before_sort.to_multiset(),
        sorted.len() == sections.len(),
        before_sort.len() == input.len(),
        forall|m: int| 0 <= m < sections.len() ==> #[trigger] sections[m] == sorted[m].0,
        forall|m: int|
            0 <= m < before_sort.len() ==> section_resolved_from(
                (#[trigger] before_sort[m]).0,
                folder_path,
                input[m].0,
                input[m].1@,
                images,
            ),
    ensures
        sections_permuted(sections, folder_path, input, images),
{
    let src = before_sort.map_values(|w: SectionByName| w.0);
    assert(sections =~= sorted.map_values(|w: SectionByName| w.0));
    assert forall|x: ResolvedSection| #[trigger] sections.to_multiset().count(x) == src.to_multiset().count(x) by {
        lemma_unwrap_counts(sorted, x);
        lemma_unwrap_counts(before_sort, x);
    }
    assert(sections.to_multiset() =~= src.to_multiset());
    assert forall|m: int| 0 <= m < input.len() implies section_resolved_from(
        #[trigger] src[m],
        folder_path,
        input[m].0,
        input[m].1@,
        images,
    ) by {
        assert(src[m] == before_sort[m].0);
    }
}

/// Everything `resolve_album` states of its result.
pub open spec fn resolved_from(r: ResolvedAlbum, album: AlbumNodeBuilder, images: Seq<(String, String)>) -> bool {
    &&& r.title@ == album_title(album_tracks(album), album.folder_name@)
    &&& r.year == uniform_year(track_years(album_tracks(album)))
    &&& r.folder_name@ == album.folder_name@
    &&& r.folder_path@ == album.folder_path@
    &&& ordered_matches(r.root_tracks@, album.root_tracks@)
    &&& r.sections@.len() == album.sections@.len()
    &&& forall|k: int|
        0 <= k < r.sections@.len() ==> has_source(
            #[trigger] r.sections@[k],
            album.folder_path@,
            album.sections@,
            images,
        )
    &&& forall|k: int|
        0 <= k < r.sections@.len() - 1 ==> natural_order_str(
            #[trigger] r.sections@[k].name@,
            r.sections@[k + 1].name@,
        ) <= 0
    &&& sections_permuted(r.sections@, album.folder_path@, album.sections@, images)
    &&& sections_stably_sorted(r.sections@, album.folder_path@, album.sections@, images)
    &&& opt_view(r.cover_path) == or_else(
        first_cover(album_tracks(album)),
        or_else(image_in(images, album.folder_path@), first_disc_image(r.sections@, images)),
    )
}

/// Resolves an album folder: its title, year and cover from the tracks in the
/// folder and in its disc sections, each section's own metadata, and the
/// display order of tracks and sections (sections by name, naturally).
/// `images` lists, for folders that hold one, the first image in the folder.
pub fn resolve_album(album: &AlbumNodeBuilder, images: &Vec<(String, String)>) -> (r: ResolvedAlbum)
    ensures
        resolved_from(r, *album, images@),
{
    let mut all: Vec<TrackLeaf> = Vec::new();
    append_leaves(&mut all, &album.root_tracks);
    let mut unsorted: Vec<SectionByName> = Vec::new();
    let mut i: usize = 0;
    while i < album.sections.len()
        invariant
            i <= album.sections@.len(),
            all@ == album.root_tracks@ + disc_tracks(album.sections@.take(i as int)),
            unsorted@.len() == i,
            forall|m: int|
                0 <= m < i ==> section_resolved_from(
                    (#[trigger] unsorted@[m]).0,
                    album.folder_path@,
                    album.sections@[m].0,
                    album.sections@[m].1@,
                    images@,
                ),
        decreases album.sections@.len() - i,
    {
        let name = &album.sections[i].0;
        let tracks = &album.sections[i].1;
        let is_disc = is_main_album_disc_section(name.as_str());
        proof {
            assert(album.sections@.take(i + 1).drop_last() =~= album.sections@.take(i as int));
        }
        if is_disc {
            append_leaves(&mut all, tracks);
        }
        let path = join_path_string(album.folder_path.as_str(), name.as_str());
        let cover_path = if is_disc {
            None
        } else {
            match resolve_album_cover(tracks) {
                Some(c) => Some(c),
                None => find_image_in_dir(images, path.as_str()),
            }
        };
        let year = if is_disc {
            None
        } else {
            resolve_album_year(tracks)
        };
        let ordered = order_tracks(tracks);
        unsorted.push(SectionByName(ResolvedSection {
            name: name.clone(),
            path,
            cover_path,
            year,
            tracks: ordered,
        }));
        i += 1;
        assert(all@ =~= album.root_tracks@ + disc_tracks(album.sections@.take(i as int)));
    }
    assert(album.sections@.take(album.sections@.len() as int) =~= album.sections@);
    let ghost before_sort = unsorted@;
    let mut rest = sort_stable(unsorted);
    let ghost sorted = rest@;
    let mut sections: Vec<ResolvedSection> = Vec::new();
    while rest.len() > 0
        invariant
            sorted.len() == before_sort.len(),
            sections@.len() + rest@.len() == sorted.len(),
            rest@ == sorted.skip(sections@.len() as int),
            forall|m: int| 0 <= m < sections@.len() ==> #[trigger] sections@[m] == sorted[m].0,
        decreases rest@.len(),
    {
        let ghost n = sections@.len();
        let SectionByName(sec) = rest.remove(0);
        assert(sec == sorted[n as int].0);
        sections.push(sec);
        assert(rest@ =~= sorted.skip(sections@.len() as int));
    }
    proof {
        lemma_sections_from_input(sorted, before_sort, sections@, album.folder_path@, album.sections@, images@);
        lemma_sections_permuted(sorted, before_sort, sections@, album.folder_path@, album.sections@, images@);
        lemma_sections_stably_sorted(sorted, before_sort, sections@, album.folder_path@, album.sections@, images@);
    }
    let title = resolve_album_title(&all, album.folder_name.as_str());
    let year = resolve_album_year(&all);
    let root_tracks = order_tracks(&album.root_tracks);
    let cover_path = match resolve_album_cover(&all) {
        Some(c) => Some(c),
        None => match find_image_in_dir(images, album.folder_path.as_str()) {
            Some(c) => Some(c),
            None => first_disc_section_image(&sections, images),
        },
    };
    proof {
        assert(all@ =~= album_tracks(*album));
    }
    ResolvedAlbum {
        title,
        year,
        folder_name: album.folder_name.clone(),
        folder_path: album.folder_path.clone(),
        cover_path,
        root_tracks,
        sections,
    }
}

// ---------------------------------------------------------------------------
// Album order
// ---------------------------------------------------------------------------

/// Albums with a year first, by year, then by title (natural order).
pub struct AlbumByYear(pub ResolvedAlbum);

/// Albums by title (natural order), then those with a year first, by year.
pub struct AlbumByTitle(pub ResolvedAlbum);

pub open spec fn year_key_before(a: Option<i32>, b: Option<i32>) -> bool {
    match (a, b) {
        (Some(x), Some(y)) => x <= y,
        (Some(_), None) => true,
        (None, Some(_)) => false,
        (None, None) => true,
    }
}

pub open spec fn year_key_equal(a: Option<i32>, b: Option<i32>) -> bool {
    match (a, b) {
        (Some(x), Some(y)) => x == y,
        (None, None) => true,
        _ => false,
    }
}

fn exec_year_before(a: Option<i32>, b: Option<i32>) -> (r: bool)
    ensures
        r == year_key_before(a, b),
{
    match (a, b) {
        (Some(x), Some(y)) => x <= y,
        (Some(_), None) => true,
        (None, Some(_)) => false,
        (None, None) => true,
    }
}

fn exec_year_equal(a: Option<i32>, b: Option<i32>) -> (r: bool)
    ensures
        r == year_key_equal(a, b),
{
    match (a, b) {
        (Some(x), Some(y)) => x == y,
        (None, None) => true,
        _ => false,
    }
}

impl TotalPreorder for AlbumByYear {
    open spec fn before(a: Self, b: Self) -> bool {
        if year_key_equal(a.0.year, b.0.year) {
            natural_order_str(a.0.title@, b.0.title@) <= 0
        } else {
            year_key_before(a.0.year, b.0.year)
        }
    }

    proof fn lemma_total(a: Self, b: Self) {
        lemma_natural_order_antisymmetric(
            vstd::utf8::encode_utf8(a.0.title@),
            vstd::utf8::encode_utf8(b.0.title@),
        );
    }

    fn exec_before(a: &Self, b: &Self) -> (r: bool) {
        if exec_year_equal(a.0.year, b.0.year) {
            natural_le(a.0.title.as_str(), b.0.title.as_str())
        } else {
            exec_year_before(a.0.year, b.0.year)
        }
    }
}

impl TotalPreorder for AlbumByTitle {
    open spec fn before(a: Self, b: Self) -> bool {
        let t = natural_order_str(a.0.title@, b.0.title@);
        if t == 0 {
            year_key_before(a.0.year, b.0.year)
        } else {
            t < 0
        }
    }

    proof fn lemma_total(a: Self, b: Self) {
        lemma_natural_order_antisymmetric(
            vstd::utf8::encode_utf8(a.0.title@),
            vstd::utf8::encode_utf8(b.0.title@),
        );
    }

    fn exec_before(a: &Self, b: &Self) -> (r: bool) {
        let le = natural_le(a.0.title.as_str(), b.0.title.as_str());
        let ge = natural_le(b.0.title.as_str(), a.0.title.as_str());
        proof {
            lemma_natural_order_antisymmetric(
                vstd::utf8::encode_utf8(a.0.title@),
                vstd::utf8::encode_utf8(b.0.title@),
            );
        }
        if le && ge {
            exec_year_before(a.0.year, b.0.year)
        } else {
            le
        }
    }
}

pub open spec fn by_year(s: Seq<ResolvedAlbum>) -> Seq<AlbumByYear> {
    s.map_values(|a: ResolvedAlbum| AlbumByYear(a))
}

pub open spec fn by_title(s: Seq<ResolvedAlbum>) -> Seq<AlbumByTitle> {
    s.map_values(|a: ResolvedAlbum| AlbumByTitle(a))
}

/// The albums in the order of the sort mode (a stable sort).
pub open spec fn sorted_albums(s: Seq<ResolvedAlbum>, mode: crate::modes::LibrarySortMode) -> Seq<ResolvedAlbum> {
    match mode {
        crate::modes::LibrarySortMode::Year => sort_seq(by_year(s)).map_values(|w: AlbumByYear| w.0),
        crate::modes::LibrarySortMode::Title => sort_seq(by_title(s)).map_values(|w: AlbumByTitle| w.0),
    }
}

pub fn sort_resolved_albums(albums: &mut Vec<ResolvedAlbum>, sort_mode: crate::modes::LibrarySortMode)
    ensures
        final(albums)@ == sorted_albums(old(albums)@, sort_mode),
{
    let mut taken: Vec<ResolvedAlbum> = Vec::new();
    std::mem::swap(&mut taken, albums);
    let ghost orig = taken@;
    match sort_mode {
        crate::modes::LibrarySortMode::Year => {
            let mut wrapped: Vec<AlbumByYear> = Vec::new();
            while taken.len() > 0
                invariant
                    wrapped@.len() + taken@.len() == orig.len(),
                    taken@ == orig.skip(wrapped@.len() as int),
                    wrapped@ == by_year(orig.take(wrapped@.len() as int)),
                decreases taken@.len(),
            {
                let a = taken.remove(0);
                wrapped.push(AlbumByYear(a));
                assert(wrapped@ =~= by_year(orig.take(wrapped@.len() as int)));
                assert(taken@ =~= orig.skip(wrapped@.len() as int));
            }
            assert(orig.take(orig.len() as int) =~= orig);
            let mut sorted = sort_stable(wrapped);
            let ghost ss = sorted@;
            let mut out: Vec<ResolvedAlbum> = Vec::new();
            while sorted.len() > 0
                invariant
                    out@.len() + sorted@.len() == ss.len(),
                    sorted@ == ss.skip(out@.len() as int),
                    out@ == ss.take(out@.len() as int).map_values(|w: AlbumByYear| w.0),
                decreases sorted@.len(),
            {
                let AlbumByYear(a) = sorted.remove(0);
                out.push(a);
                assert(out@ =~= ss.take(out@.len() as int).map_values(|w: AlbumByYear| w.0));
                assert(sorted@ =~= ss.skip(out@.len() as int));
            }
            assert(ss.take(ss.len() as int) =~= ss);
            *albums = out;
        },
        crate::modes::LibrarySortMode::Title => {
            let mut wrapped: Vec<AlbumByTitle> = Vec::new();
            while taken.len() > 0
                invariant
                    wrapped@.len() + taken@.len() == orig.len(),
                    taken@ == orig.skip(wrapped@.len() as int),
                    wrapped@ == by_title(orig.take(wrapped@.len() as int)),
                decreases taken@.len(),
            {
                let a = taken.remove(0);
                wrapped.push(AlbumByTitle(a));
                assert(wrapped@ =~= by_title(orig.take(wrapped@.len() as int)));
                assert(taken@ =~= orig.skip(wrapped@.len() as int));
            }
            assert(orig.take(orig.len() as int) =~= orig);
            let mut sorted = sort_stable(wrapped);
            let ghost ss = sorted@;
            let mut out: Vec<ResolvedAlbum> = Vec::new();
            while sorted.len() > 0
                invariant
                    out@.len() + sorted@.len() == ss.len(),
                    sorted@ == ss.skip(out@.len() as int),
                    out@ == ss.take(out@.len() as int).map_values(|w: AlbumByTitle| w.0),
                decreases sorted@.len(),
            {
                let AlbumByTitle(a) = sorted.remove(0);
                out.push(a);
                assert(out@ =~= ss.take(out@.len() as int).map_values(|w: AlbumByTitle| w.0));
                assert(sorted@ =~= ss.skip(out@.len() as int));
            }
            assert(ss.take(ss.len() as int) =~= ss);
            *albums = out;
        },
    }
}

// ---------------------------------------------------------------------------
// Tree rows
// ---------------------------------------------------------------------------

/// One row of the flattened library tree as the UI receives it.
#[derive(Debug, Clone)]
pub struct FlatTreeRow {
    pub row_type: u8,
    pub depth: u16,
    pub source_index: i32,
    pub track_number: u16,
    pub child_count: u16,
    pub title: String,
    pub key: String,
    pub artist: String,
    pub path: String,
    pub cover_path: String,
    pub track_path: String,
    pub play_paths: Vec<String>,
}

/// The content of a row.
pub struct RowView {
    pub row_type: u8,
    pub depth: u16,
    pub source_index: i32,
    pub track_number: u16,
    pub child_count: u16,
    pub title: Seq<char>,
    pub key: Seq<char>,
    pub artist: Seq<char>,
    pub path: Seq<char>,
    pub cover_path: Seq<char>,
    pub track_path: Seq<char>,
    pub play_paths: Seq<Seq<char>>,
}

pub open spec fn string_views(v: Seq<String>) -> Seq<Seq<char>> {
    v.map_values(|s: String| s@)
}

impl View for FlatTreeRow {
    type V = RowView;

    open spec fn view(&self) -> RowView {
        RowView {
            row_type: self.row_type,
            depth: self.depth,
            source_index: self.source_index,
            track_number: self.track_number,
            child_count: self.child_count,
            title: self.title@,
            key: self.key@,
            artist: self.artist@,
            path: self.path@,
            cover_path: self.cover_path@,
            track_path: self.track_path@,
            play_paths: string_views(self.play_paths@),
        }
    }
}

pub open spec fn rows_view(rows: Seq<FlatTreeRow>) -> Seq<RowView> {
    rows.map_values(|r: FlatTreeRow| r@)
}

pub open spec fn root_key(root: Seq<char>) -> Seq<char> {
    "root|"@ + root
}

pub open spec fn artist_key(root: Seq<char>, artist: Seq<char>) -> Seq<char> {
    "artist|"@ + root + "|"@ + artist
}

pub open spec fn album_key(root: Seq<char>, artist: Seq<char>, folder: Seq<char>) -> Seq<char> {
    "album|"@ + root + "|"@ + artist + "|"@ + folder
}

pub open spec fn section_key(root: Seq<char>, artist: Seq<char>, folder: Seq<char>, section: Seq<char>) -> Seq<char> {
    "section|"@ + root + "|"@ + artist + "|"@ + folder + "|"@ + section
}

pub open spec fn track_key(path: Seq<char>) -> Seq<char> {
    "track|"@ + path
}

pub fn root_row_key(root_path: &str) -> (k: String)
    ensures
        k@ == root_key(root_path@),
{
    let mut v: Vec<char> = Vec::new();
    push_str(&mut v, "root|");
    push_str(&mut v, root_path);
    string_from_chars(&v)
}

pub fn artist_row_key(root_path: &str, artist_name: &str) -> (k: String)
    ensures
        k@ == artist_key(root_path@, artist_name@),
{
    let mut v: Vec<char> = Vec::new();
    push_str(&mut v, "artist|");
    push_str(&mut v, root_path);
    push_str(&mut v, "|");
    push_str(&mut v, artist_name);
    assert(v@ =~= artist_key(root_path@, artist_name@));
    string_from_chars(&v)
}

pub fn album_row_key(root_path: &str, artist_name: &str, folder_name: &str) -> (k: String)
    ensures
        k@ == album_key(root_path@, artist_name@, folder_name@),
{
    let mut v: Vec<char> = Vec::new();
    push_str(&mut v, "album|");
    push_str(&mut v, root_path);
    push_str(&mut v, "|");
    push_str(&mut v, artist_name);
    push_str(&mut v, "|");
    push_str(&mut v, folder_name);
    assert(v@ =~= album_key(root_path@, artist_name@, folder_name@));
    string_from_chars(&v)
}

pub fn section_row_key(root_path: &str, artist_name: &str, folder_name: &str, section_name: &str) -> (k: String)
    ensures
        k@ == section_key(root_path@, artist_name@, folder_name@, section_name@),
{
    let mut v: Vec<char> = Vec::new();
    push_str(&mut v, "section|");
    push_str(&mut v, root_path);
    push_str(&mut v, "|");
    push_str(&mut v, artist_name);
    push_str(&mut v, "|");
    push_str(&mut v, folder_name);
    push_str(&mut v, "|");
    push_str(&mut v, section_name);
    assert(v@ =~= section_key(root_path@, artist_name@, folder_name@, section_name@));
    string_from_chars(&v)
}

fn track_row_key(path: &str) -> (k: String)
    ensures
        k@ == track_key(path@),
{
    let mut v: Vec<char> = Vec::new();
    push_str(&mut v, "track|");
    push_str(&mut v, path);
    string_from_chars(&v)
}

/// `format!("{name} ({count})")`.
pub open spec fn counted_title(name: Seq<char>, count: nat) -> Seq<char> {
    name + " ("@ + decimal(count) + ")"@
}

/// `format!("{title} ({year})")` when there is a year, else the title.
pub open spec fn title_with_year(title: Seq<char>, year: Option<i32>) -> Seq<char> {
    match year {
        Some(y) => title + " ("@ + crate::text::decimal_int(y as int) + ")"@,
        None => title,
    }
}

fn title_with_year_string(title: &str, year: Option<i32>) -> (r: String)
    ensures
        r@ == title_with_year(title@, year),
{
    match year {
        Some(y) => {
            let mut v: Vec<char> = Vec::new();
            push_str(&mut v, title);
            push_str(&mut v, " (");
            push_decimal_i64(&mut v, y as i64);
            push_str(&mut v, ")");
            assert(v@ =~= title_with_year(title@, year));
            string_from_chars(&v)
        },
        None => crate::text::owned(title),
    }
}

pub open spec fn empty_text() -> Seq<char> {
    Seq::empty()
}

fn empty_string() -> (s: String)
    ensures
        s@ == empty_text(),
{
    String::new()
}

impl FlatTreeRow {
    pub open spec fn root_view(depth: u16, path: Seq<char>, title: Seq<char>, child_count: nat) -> RowView {
        RowView {
            row_type: ROW_TYPE_ROOT,
            depth,
            source_index: -1i32,
            track_number: 0,
            child_count: clamp16(child_count as int) as u16,
            title,
            key: root_key(path),
            artist: empty_text(),
            path,
            cover_path: empty_text(),
            track_path: empty_text(),
            play_paths: seq![],
        }
    }

    pub open spec fn artist_view(depth: u16, key: Seq<char>, name: Seq<char>, path: Seq<char>, child_count: nat, album_count: nat) -> RowView {
        RowView {
            row_type: ROW_TYPE_ARTIST,
            depth,
            source_index: -1i32,
            track_number: 0,
            child_count: clamp16(child_count as int) as u16,
            title: counted_title(name, album_count),
            key,
            artist: name,
            path,
            cover_path: empty_text(),
            track_path: empty_text(),
            play_paths: seq![],
        }
    }

    pub open spec fn album_view(depth: u16, key: Seq<char>, artist: Seq<char>, title: Seq<char>, path: Seq<char>, album: ResolvedAlbum, play_paths: Seq<Seq<char>>) -> RowView {
        RowView {
            row_type: ROW_TYPE_ALBUM,
            depth,
            source_index: -1i32,
            track_number: 0,
            child_count: clamp16((album.root_tracks@.len() + album.sections@.len()) as int) as u16,
            title,
            key,
            artist,
            path,
            cover_path: match album.cover_path {
                Some(c) => c@,
                None => empty_text(),
            },
            track_path: empty_text(),
            play_paths,
        }
    }

    pub open spec fn section_view(depth: u16, key: Seq<char>, title: Seq<char>, path: Seq<char>, cover: Seq<char>, play_paths: Seq<Seq<char>>, child_count: nat) -> RowView {
        RowView {
            row_type: ROW_TYPE_SECTION,
            depth,
            source_index: -1i32,
            track_number: 0,
            child_count: clamp16(child_count as int) as u16,
            title,
            key,
            artist: empty_text(),
            path,
            cover_path: cover,
            track_path: empty_text(),
            play_paths,
        }
    }

    pub open spec fn track_view(depth: u16, artist: Seq<char>, title: Seq<char>, path: Seq<char>, number: u16) -> RowView {
        RowView {
            row_type: ROW_TYPE_TRACK,
            depth,
            source_index: -1i32,
            track_number: number,
            child_count: 0,
            title,
            key: track_key(path),
            artist,
            path,
            cover_path: empty_text(),
            track_path: path,
            play_paths: seq![path],
        }
    }

    pub fn root(depth: u16, path: &str, title: &str, child_count: usize) -> (r: Self)
        ensures
            r@ == Self::root_view(depth, path@, title@, child_count as nat),
    {
        let r = FlatTreeRow {
            row_type: ROW_TYPE_ROOT,
            depth,
            source_index: -1,
            track_number: 0,
            child_count: clamp_u16(child_count),
            title: crate::text::owned(title),
            key: root_row_key(path),
            artist: empty_string(),
            path: crate::text::owned(path),
            cover_path: empty_string(),
            track_path: empty_string(),
            play_paths: Vec::new(),
        };
        assert(string_views(r.play_paths@) =~= seq![]);
        r
    }

    pub fn artist(depth: u16, key: String, artist_name: &str, path: &str, child_count: usize, album_count: usize) -> (r: Self)
        ensures
            r@ == Self::artist_view(depth, key@, artist_name@, path@, child_count as nat, album_count as nat),
    {
        let mut title: Vec<char> = Vec::new();
        push_str(&mut title, artist_name);
        push_str(&mut title, " (");
        push_decimal(&mut title, album_count as u64);
        push_str(&mut title, ")");
        assert(title@ =~= counted_title(artist_name@, album_count as nat));
        let r = FlatTreeRow {
            row_type: ROW_TYPE_ARTIST,
            depth,
            source_index: -1,
            track_number: 0,
            child_count: clamp_u16(child_count),
            title: string_from_chars(&title),
            key,
            artist: crate::text::owned(artist_name),
            path: crate::text::owned(path),
            cover_path: empty_string(),
            track_path: empty_string(),
            play_paths: Vec::new(),
        };
        assert(string_views(r.play_paths@) =~= seq![]);
        r
    }

    pub fn album(depth: u16, key: String, artist_name: &str, album_title: &str, album_path: &str, album: &ResolvedAlbum, play_paths: Vec<String>) -> (r: Self)
        ensures
            r@ == Self::album_view(depth, key@, artist_name@, album_title@, album_path@, *album, string_views(play_paths@)),
    {
        let cover = match &album.cover_path {
            Some(c) => c.clone(),
            None => empty_string(),
        };
        FlatTreeRow {
            row_type: ROW_TYPE_ALBUM,
            depth,
            source_index: -1,
            track_number: 0,
            child_count: clamp_u16(album.root_tracks.len().saturating_add(album.sections.len())),
            title: crate::text::owned(album_title),
            key,
            artist: crate::text::owned(artist_name),
            path: crate::text::owned(album_path),
            cover_path: cover,
            track_path: empty_string(),
            play_paths,
        }
    }

    pub fn section(depth: u16, key: String, title: &str, path: &str, cover_path: &str, play_paths: Vec<String>, child_count: usize) -> (r: Self)
        ensures
            r@ == Self::section_view(depth, key@, title@, path@, cover_path@, string_views(play_paths@), child_count as nat),
    {
        FlatTreeRow {
            row_type: ROW_TYPE_SECTION,
            depth,
            source_index: -1,
            track_number: 0,
            child_count: clamp_u16(child_count),
            title: crate::text::owned(title),
            key,
            artist: empty_string(),
            path: crate::text::owned(path),
            cover_path: crate::text::owned(cover_path),
            track_path: empty_string(),
            play_paths,
        }
    }

    pub fn track(depth: u16, artist_name: &str, title: &str, path: &str, track_number: u16) -> (r: Self)
        ensures
            r@ == Self::track_view(depth, artist_name@, title@, path@, track_number),
    {
        let mut play_paths: Vec<String> = Vec::new();
        play_paths.push(crate::text::owned(path));
        let r = FlatTreeRow {
            row_type: ROW_TYPE_TRACK,
            depth,
            source_index: -1,
            track_number,
            child_count: 0,
            title: crate::text::owned(title),
            key: track_row_key(path),
            artist: crate::text::owned(artist_name),
            path: crate::text::owned(path),
            cover_path: empty_string(),
            track_path: crate::text::owned(path),
            play_paths,
        };
        assert(string_views(r.play_paths@) =~= seq![path@]);
        r
    }
}

// ---------------------------------------------------------------------------
// Album rows
// ---------------------------------------------------------------------------

pub open spec fn track_paths(tracks: Seq<OrderedTrack>) -> Seq<Seq<char>> {
    tracks.map_values(|t: OrderedTrack| t.path@)
}

/// Paths of the disc sections' tracks, in section order.
pub open spec fn disc_play_paths(sections: Seq<ResolvedSection>) -> Seq<Seq<char>>
    decreases sections.len(),
{
    if sections.len() == 0 {
        seq![]
    } else {
        disc_play_paths(sections.drop_last()) + if disc_section_name(sections.last().name@) {
            track_paths(sections.last().tracks@)
        } else {
            seq![]
        }
    }
}

/// What double-clicking an album queues: its own tracks and those of its
/// disc sections (bonus and other sub-folders are left out).
pub open spec fn album_play_list(album: ResolvedAlbum) -> Seq<Seq<char>> {
    track_paths(album.root_tracks@) + disc_play_paths(album.sections@)
}

fn push_track_paths(out: &mut Vec<String>, tracks: &Vec<OrderedTrack>)
    ensures
        string_views(final(out)@) == string_views(old(out)@) + track_paths(tracks@),
{
    let mut i: usize = 0;
    while i < tracks.len()
        invariant
            i <= tracks@.len(),
            string_views(out@) == string_views(old(out)@) + track_paths(tracks@.take(i as int)),
        decreases tracks@.len() - i,
    {
        let ghost prev = out@;
        let p = tracks[i].path.clone();
        out.push(p);
        assert(out@ == prev.push(p));
        assert(string_views(out@) =~= string_views(prev).push(tracks@[i as int].path@));
        assert(tracks@.take(i + 1) =~= tracks@.take(i as int).push(tracks@[i as int]));
        assert(track_paths(tracks@.take(i + 1)) =~= track_paths(tracks@.take(i as int)).push(tracks@[i as int].path@));
        i += 1;
        assert(string_views(out@) =~= string_views(old(out)@) + track_paths(tracks@.take(i as int)));
    }
    assert(tracks@.take(tracks@.len() as int) =~= tracks@);
}

pub fn album_play_paths(album: &ResolvedAlbum) -> (out: Vec<String>)
    ensures
        string_views(out@) == album_play_list(*album),
{
    let mut out: Vec<String> = Vec::new();
    assert(string_views(out@) =~= seq![]);
    push_track_paths(&mut out, &album.root_tracks);
    let mut i: usize = 0;
    while i < album.sections.len()
        invariant
            i <= album.sections@.len(),
            string_views(out@) == track_paths(album.root_tracks@) + disc_play_paths(album.sections@.take(i as int)),
        decreases album.sections@.len() - i,
    {
        let ghost before = string_views(out@);
        if is_main_album_disc_section(album.sections[i].name.as_str()) {
            push_track_paths(&mut out, &album.sections[i].tracks);
        }
        proof {
            assert(album.sections@.take(i + 1).drop_last() =~= album.sections@.take(i as int));
        }
        i += 1;
        assert(string_views(out@) =~= track_paths(album.root_tracks@) + disc_play_paths(album.sections@.take(i as int)));
    }
    assert(album.sections@.take(album.sections@.len() as int) =~= album.sections@);
    out
}

pub open spec fn track_rows(depth: u16, artist: Seq<char>, tracks: Seq<OrderedTrack>) -> Seq<RowView> {
    tracks.map_values(|t: OrderedTrack| FlatTreeRow::track_view(depth, artist, t.label@, t.path@, t.number))
}

pub open spec fn cover_text(c: Option<String>) -> Seq<char> {
    match c {
        Some(s) => s@,
        None => empty_text(),
    }
}

/// A section row followed by the rows of its tracks.
pub open spec fn section_rows(
    artist: Seq<char>,
    album: ResolvedAlbum,
    root: Seq<char>,
    section_depth: u16,
    track_depth: u16,
    sec: ResolvedSection,
) -> Seq<RowView> {
    seq![FlatTreeRow::section_view(
        section_depth,
        section_key(root, artist, album.folder_name@, sec.name@),
        title_with_year(sec.name@, sec.year),
        sec.path@,
        cover_text(sec.cover_path),
        track_paths(sec.tracks@),
        sec.tracks@.len(),
    )] + track_rows(track_depth, artist, sec.tracks@)
}

pub open spec fn sections_rows(
    artist: Seq<char>,
    album: ResolvedAlbum,
    root: Seq<char>,
    section_depth: u16,
    track_depth: u16,
    secs: Seq<ResolvedSection>,
) -> Seq<RowView>
    decreases secs.len(),
{
    if secs.len() == 0 {
        seq![]
    } else {
        sections_rows(artist, album, root, section_depth, track_depth, secs.drop_last())
            + section_rows(artist, album, root, section_depth, track_depth, secs.last())
    }
}

/// The rows under an album: its own tracks, then each section with its tracks.
pub open spec fn album_child_rows(
    artist: Seq<char>,
    album: ResolvedAlbum,
    root: Seq<char>,
    section_depth: u16,
    track_depth: u16,
) -> Seq<RowView> {
    track_rows(section_depth, artist, album.root_tracks@) + sections_rows(
        artist,
        album,
        root,
        section_depth,
        track_depth,
        album.sections@,
    )
}

fn push_track_rows(out: &mut Vec<FlatTreeRow>, depth: u16, artist_name: &str, tracks: &Vec<OrderedTrack>)
    ensures
        rows_view(final(out)@) == rows_view(old(out)@) + track_rows(depth, artist_name@, tracks@),
{
    let mut i: usize = 0;
    while i < tracks.len()
        invariant
            i <= tracks@.len(),
            rows_view(out@) == rows_view(old(out)@) + track_rows(depth, artist_name@, tracks@.take(i as int)),
        decreases tracks@.len() - i,
    {
        let t = &tracks[i];
        let ghost prev = out@;
        let row = FlatTreeRow::track(depth, artist_name, t.label.as_str(), t.path.as_str(), t.number);
        out.push(row);
        assert(out@ == prev.push(row));
        assert(rows_view(out@) =~= rows_view(prev).push(row@));
        assert(tracks@.take(i + 1) =~= tracks@.take(i as int).push(tracks@[i as int]));
        assert(track_rows(depth, artist_name@, tracks@.take(i + 1)) =~= track_rows(depth, artist_name@, tracks@.take(i as int)).push(row@));
        i += 1;
        assert(rows_view(out@) =~= rows_view(old(out)@) + track_rows(depth, artist_name@, tracks@.take(i as int)));
    }
    assert(tracks@.take(tracks@.len() as int) =~= tracks@);
}

pub fn append_album_tracks(
    out: &mut Vec<FlatTreeRow>,
    artist_name: &str,
    album: &ResolvedAlbum,
    root_path: &str,
    section_depth: u16,
    section_track_depth: u16,
)
    ensures
        rows_view(final(out)@) == rows_view(old(out)@) + album_child_rows(
            artist_name@,
            *album,
            root_path@,
            section_depth,
            section_track_depth,
        ),
{
    push_track_rows(out, section_depth, artist_name, &album.root_tracks);
    let ghost base = rows_view(out@);
    let mut i: usize = 0;
    while i < album.sections.len()
        invariant
            i <= album.sections@.len(),
            base == rows_view(old(out)@) + track_rows(section_depth, artist_name@, album.root_tracks@),
            rows_view(out@) == base + sections_rows(
                artist_name@,
                *album,
                root_path@,
                section_depth,
                section_track_depth,
                album.sections@.take(i as int),
            ),
        decreases album.sections@.len() - i,
    {
        let section = &album.sections[i];
        let mut section_play_paths: Vec<String> = Vec::new();
        assert(string_views(section_play_paths@) =~= seq![]);
        push_track_paths(&mut section_play_paths, &section.tracks);
        let section_title = title_with_year_string(section.name.as_str(), section.year);
        let cover = match &section.cover_path {
            Some(c) => c.clone(),
            None => empty_string(),
        };
        let key = section_row_key(root_path, artist_name, album.folder_name.as_str(), section.name.as_str());
        let ghost before_rows = rows_view(out@);
        out.push(FlatTreeRow::section(
            section_depth,
            key,
            section_title.as_str(),
            section.path.as_str(),
            cover.as_str(),
            section_play_paths,
            section.tracks.len(),
        ));
        let ghost mid_rows = rows_view(out@);
        assert(mid_rows =~= before_rows + seq![FlatTreeRow::section_view(
            section_depth,
            section_key(root_path@, artist_name@, album.folder_name@, section.name@),
            title_with_year(section.name@, section.year),
            section.path@,
            cover_text(section.cover_path),
            track_paths(section.tracks@),
            section.tracks@.len(),
        )]);
        push_track_rows(out, section_track_depth, artist_name, &section.tracks);
        proof {
            assert(album.sections@.take(i + 1).drop_last() =~= album.sections@.take(i as int));
            assert(album.sections@.take(i + 1).last() == album.sections@[i as int]);
            assert(rows_view(out@) =~= before_rows + section_rows(
                artist_name@,
                *album,
                root_path@,
                section_depth,
                section_track_depth,
                album.sections@[i as int],
            ));
        }
        i += 1;
        assert(rows_view(out@) =~= base + sections_rows(
            artist_name@,
            *album,
            root_path@,
            section_depth,
            section_track_depth,
            album.sections@.take(i as int),
        ));
    }
    assert(album.sections@.take(album.sections@.len() as int) =~= album.sections@);
}

// ---------------------------------------------------------------------------
// Row encoding
// ---------------------------------------------------------------------------

pub open spec fn strings_bytes(v: Seq<Seq<char>>) -> Seq<u8>
    decreases v.len(),
{
    if v.len() == 0 {
        seq![]
    } else {
        strings_bytes(v.drop_last()) + u16_string_bytes(v.last())
    }
}

/// The bytes of one row.
pub open spec fn row_bytes(r: RowView) -> Seq<u8> {
    seq![r.row_type] + le16(r.depth as int) + le32(r.source_index as int) + le16(r.track_number as int)
        + le16(r.child_count as int) + u16_string_bytes(r.title) + u16_string_bytes(r.key)
        + u16_string_bytes(r.artist) + u16_string_bytes(r.path) + u16_string_bytes(r.cover_path)
        + u16_string_bytes(r.track_path) + le16(clamp16(r.play_paths.len() as int))
        + strings_bytes(r.play_paths)
}

pub open spec fn rows_bytes(rows: Seq<RowView>) -> Seq<u8>
    decreases rows.len(),
{
    if rows.len() == 0 {
        seq![]
    } else {
        rows_bytes(rows.drop_last()) + row_bytes(rows.last())
    }
}

/// The tree frame: the row count (`u32`, saturating) and each row.
pub open spec fn flat_rows_bytes(rows: Seq<RowView>) -> Seq<u8> {
    le32(if rows.len() > u32::MAX {
        u32::MAX as int
    } else {
        rows.len() as int
    }) + rows_bytes(rows)
}

fn push_strings(out: &mut Vec<u8>, v: &Vec<String>)
    ensures
        final(out)@ == old(out)@ + strings_bytes(string_views(v@)),
{
    let mut i: usize = 0;
    while i < v.len()
        invariant
            i <= v@.len(),
            out@ == old(out)@ + strings_bytes(string_views(v@.take(i as int))),
        decreases v@.len() - i,
    {
        push_u16_string(out, v[i].as_str());
        proof {
            assert(string_views(v@.take(i + 1)).drop_last() =~= string_views(v@.take(i as int)));
        }
        i += 1;
        assert(out@ =~= old(out)@ + strings_bytes(string_views(v@.take(i as int))));
    }
    assert(v@.take(v@.len() as int) =~= v@);
}

#[verifier::rlimit(60)]
#[verifier::spinoff_prover]
fn encode_row(out: &mut Vec<u8>, row: &FlatTreeRow)
    ensures
        final(out)@ == old(out)@ + row_bytes(row@),
{
    push_u8(out, row.row_type);
    push_u16(out, row.depth);
    push_i32(out, row.source_index);
    push_u16(out, row.track_number);
    push_u16(out, row.child_count);
    push_u16_string(out, row.title.as_str());
    push_u16_string(out, row.key.as_str());
    push_u16_string(out, row.artist.as_str());
    push_u16_string(out, row.path.as_str());
    push_u16_string(out, row.cover_path.as_str());
    push_u16_string(out, row.track_path.as_str());
    push_u16(out, clamp_u16(row.play_paths.len()));
    push_strings(out, &row.play_paths);
    assert(string_views(row.play_paths@).len() == row.play_paths@.len());
    assert(out@ =~= old(out)@ + row_bytes(row@));
}

pub fn encode_flat_rows(rows: &Vec<FlatTreeRow>) -> (out: Vec<u8>)
    ensures
        out@ == flat_rows_bytes(rows_view(rows@)),
{
    let mut out: Vec<u8> = Vec::new();
    let count: u32 = if rows.len() > 4294967295usize {
        4294967295u32
    } else {
        rows.len() as u32
    };
    push_u32(&mut out, count);
    let ghost head = out@;
    let mut i: usize = 0;
    while i < rows.len()
        invariant
            i <= rows@.len(),
            out@ == head + rows_bytes(rows_view(rows@.take(i as int))),
        decreases rows@.len() - i,
    {
        encode_row(&mut out, &rows[i]);
        proof {
            assert(rows_view(rows@.take(i + 1)).drop_last() =~= rows_view(rows@.take(i as int)));
        }
        i += 1;
        assert(out@ =~= head + rows_bytes(rows_view(rows@.take(i as int))));
    }
    assert(rows@.take(rows@.len() as int) =~= rows@);
    out
}

// ---------------------------------------------------------------------------
// Album and artist rows
// ---------------------------------------------------------------------------

/// Whether a node is shown expanded: with no set of expanded keys every node is.
pub open spec fn is_expanded(keys: Option<Seq<String>>, key: Seq<char>) -> bool {
    match keys {
        None => true,
        Some(ks) => has_key(ks, key),
    }
}

pub open spec fn has_key(ks: Seq<String>, key: Seq<char>) -> bool {
    exists|i: int| 0 <= i < ks.len() && (#[trigger] ks[i])@ == key
}

pub open spec fn keys_view(keys: Option<&Vec<String>>) -> Option<Seq<String>> {
    match keys {
        None => None,
        Some(k) => Some(k@),
    }
}

pub fn key_is_expanded(keys: Option<&Vec<String>>, key: &str) -> (r: bool)
    ensures
        r == is_expanded(keys_view(keys), key@),
{
    match keys {
        None => true,
        Some(ks) => {
            let mut i: usize = 0;
            while i < ks.len()
                invariant
                    i <= ks@.len(),
                    keys_view(keys) == Some(ks@),
                    forall|j: int| 0 <= j < i ==> (#[trigger] ks@[j])@ != key@,
                decreases ks@.len() - i,
            {
                if crate::text::str_eq(ks[i].as_str(), key) {
                    assert((ks@[i as int])@ == key@);
                    assert(keys_view(keys) == Some(ks@));
                    assert(has_key(ks@, key@));
                    return true;
                }
                i += 1;
            }
            false
        },
    }
}

/// Where album rows go and which of them are expanded.
pub struct AlbumRowConfig<'a> {
    pub artist_name: &'a str,
    pub root_path: &'a str,
    pub lazy_hydration: bool,
    pub expanded_keys: Option<&'a Vec<String>>,
    pub album_depth: u16,
    pub section_depth: u16,
    pub section_track_depth: u16,
}

/// Where album rows go and which of them are expanded, by value.
pub struct AlbumRowsSpec {
    pub artist: Seq<char>,
    pub root: Seq<char>,
    pub lazy: bool,
    pub keys: Option<Seq<String>>,
    pub album_depth: u16,
    pub section_depth: u16,
    pub track_depth: u16,
}

pub open spec fn config_spec(c: AlbumRowConfig) -> AlbumRowsSpec {
    AlbumRowsSpec {
        artist: c.artist_name@,
        root: c.root_path@,
        lazy: c.lazy_hydration,
        keys: keys_view(c.expanded_keys),
        album_depth: c.album_depth,
        section_depth: c.section_depth,
        track_depth: c.section_track_depth,
    }
}

/// An album row, then, unless it is collapsed under lazy hydration, its children.
pub open spec fn album_block(c: AlbumRowsSpec, album: ResolvedAlbum) -> Seq<RowView> {
    let key = album_key(c.root, c.artist, album.folder_name@);
    let head = seq![FlatTreeRow::album_view(
        c.album_depth,
        key,
        c.artist,
        title_with_year(album.title@, album.year),
        album.folder_path@,
        album,
        album_play_list(album),
    )];
    if c.lazy && !is_expanded(c.keys, key) {
        head
    } else {
        head + album_child_rows(c.artist, album, c.root, c.section_depth, c.track_depth)
    }
}

pub open spec fn album_blocks(c: AlbumRowsSpec, albums: Seq<ResolvedAlbum>) -> Seq<RowView>
    decreases albums.len(),
{
    if albums.len() == 0 {
        seq![]
    } else {
        album_blocks(c, albums.drop_last()) + album_block(c, albums.last())
    }
}

pub fn append_album_rows(out: &mut Vec<FlatTreeRow>, resolved_albums: Vec<ResolvedAlbum>, config: &AlbumRowConfig)
    ensures
        rows_view(final(out)@) == rows_view(old(out)@) + album_blocks(config_spec(*config), resolved_albums@),
{
    let mut i: usize = 0;
    while i < resolved_albums.len()
        invariant
            i <= resolved_albums@.len(),
            rows_view(out@) == rows_view(old(out)@) + album_blocks(config_spec(*config), resolved_albums@.take(i as int)),
        decreases resolved_albums@.len() - i,
    {
        let album = &resolved_albums[i];
        let ghost before = rows_view(out@);
        let album_title = title_with_year_string(album.title.as_str(), album.year);
        let key = album_row_key(config.root_path, config.artist_name, album.folder_name.as_str());
        let play = album_play_paths(album);
        let expanded = key_is_expanded(config.expanded_keys, key.as_str());
        let row = FlatTreeRow::album(
            config.album_depth,
            key,
            config.artist_name,
            album_title.as_str(),
            album.folder_path.as_str(),
            album,
            play,
        );
        out.push(row);
        assert(rows_view(out@) =~= before.push(row@));
        if !(config.lazy_hydration && !expanded) {
            append_album_tracks(
                out,
                config.artist_name,
                album,
                config.root_path,
                config.section_depth,
                config.section_track_depth,
            );
        }
        proof {
            assert(resolved_albums@.take(i + 1).drop_last() =~= resolved_albums@.take(i as int));
            assert(resolved_albums@.take(i + 1).last() == resolved_albums@[i as int]);
        }
        i += 1;
        assert(rows_view(out@) =~= rows_view(old(out)@) + album_blocks(config_spec(*config), resolved_albums@.take(i as int)));
    }
    assert(resolved_albums@.take(resolved_albums@.len() as int) =~= resolved_albums@);
}

pub struct ArtistNodeBuilder {
    pub artist_name: String,
    pub artist_path: String,
    pub loose_tracks: Vec<TrackLeaf>,
    pub albums: Vec<(String, AlbumNodeBuilder)>,
}

pub struct RootNodeBuilder {
    pub root_path: String,
    pub root_name: String,
    pub artists: Vec<(String, ArtistNodeBuilder)>,
}

/// An artist of a root, by name, ordered naturally.
pub struct ArtistRef {
    pub name: String,
    pub index: usize,
}

impl TotalPreorder for ArtistRef {
    open spec fn before(a: Self, b: Self) -> bool {
        natural_order_str(a.name@, b.name@) <= 0
    }

    proof fn lemma_total(a: Self, b: Self) {
        lemma_natural_order_antisymmetric(
            vstd::utf8::encode_utf8(a.name@),
            vstd::utf8::encode_utf8(b.name@),
        );
    }

    fn exec_before(a: &Self, b: &Self) -> (r: bool) {
        natural_le(a.name.as_str(), b.name.as_str())
    }
}

pub open spec fn artist_refs(artists: Seq<(String, ArtistNodeBuilder)>) -> Seq<ArtistRef> {
    Seq::new(artists.len(), |i: int| ArtistRef { name: artists[i].1.artist_name, index: i as usize })
}

pub open spec fn sat16(x: int) -> u16 {
    if x > 65535 {
        65535
    } else {
        x as u16
    }
}

/// The albums of an artist, each resolved and then put in the sort mode's order.
pub open spec fn albums_ok(
    resolved: Seq<ResolvedAlbum>,
    inputs: Seq<(String, AlbumNodeBuilder)>,
    mode: crate::modes::LibrarySortMode,
    images: Seq<(String, String)>,
) -> bool {
    exists|rs: Seq<ResolvedAlbum>|
        rs.len() == inputs.len() && (forall|j: int|
            0 <= j < rs.len() ==> resolved_from(#[trigger] rs[j], inputs[j].1, images)) && resolved
            == sorted_albums(rs, mode)
}

pub open spec fn artist_albums_spec(name: Seq<char>, root: Seq<char>, keys: Option<Seq<String>>, depth: u16) -> AlbumRowsSpec {
    AlbumRowsSpec {
        artist: name,
        root,
        lazy: keys is Some,
        keys,
        album_depth: sat16(depth + 1),
        section_depth: sat16(depth + 2),
        track_depth: sat16(depth + 3),
    }
}

/// The rows of one artist: its row, then (unless collapsed under lazy
/// hydration) its loose tracks in order and its albums in the sort order.
pub open spec fn artist_block_ok(
    a: ArtistNodeBuilder,
    root: Seq<char>,
    mode: crate::modes::LibrarySortMode,
    depth: u16,
    keys: Option<Seq<String>>,
    images: Seq<(String, String)>,
    block: Seq<RowView>,
) -> bool {
    let key = artist_key(root, a.artist_name@);
    let collapsed = keys is Some && !is_expanded(keys, key);
    let head = FlatTreeRow::artist_view(
        depth,
        key,
        a.artist_name@,
        a.artist_path@,
        (a.loose_tracks@.len() + a.albums@.len()) as nat,
        a.albums@.len(),
    );
    &&& block.len() >= 1
    &&& block[0] == head
    &&& collapsed ==> block.len() == 1
    &&& !collapsed ==> exists|loose: Seq<OrderedTrack>, resolved: Seq<ResolvedAlbum>|
        ordered_matches(loose, a.loose_tracks@) && albums_ok(resolved, a.albums@, mode, images)
            && block.skip(1) == track_rows(sat16(depth + 1), a.artist_name@, loose) + album_blocks(
            artist_albums_spec(a.artist_name@, root, keys, depth),
            resolved,
        )
}

/// `out` is the artists' blocks, in the given order.
pub open spec fn artists_rows_ok(
    order: Seq<ArtistRef>,
    artists: Seq<(String, ArtistNodeBuilder)>,
    root: Seq<char>,
    mode: crate::modes::LibrarySortMode,
    depth: u16,
    keys: Option<Seq<String>>,
    images: Seq<(String, String)>,
    out: Seq<RowView>,
) -> bool
    decreases order.len(),
{
    if order.len() == 0 {
        out.len() == 0
    } else {
        exists|n: int|
            0 <= n <= out.len() && artists_rows_ok(order.drop_last(), artists, root, mode, depth, keys, images, out.take(n))
                && artist_block_ok(artists[order.last().index as int].1, root, mode, depth, keys, images, out.skip(n))
    }
}

fn sat_add16(d: u16, k: u16) -> (r: u16)
    ensures
        r == sat16(d + k),
{
    if (d as u32) + (k as u32) > 65535 {
        65535
    } else {
        d + k
    }
}

fn push_artist_block(
    out: &mut Vec<FlatTreeRow>,
    artist: &ArtistNodeBuilder,
    root_path: &str,
    sort_mode: crate::modes::LibrarySortMode,
    artist_depth: u16,
    expanded_keys: Option<&Vec<String>>,
    images: &Vec<(String, String)>,
)
    ensures
        rows_view(final(out)@).len() >= rows_view(old(out)@).len(),
        rows_view(final(out)@).take(rows_view(old(out)@).len() as int) == rows_view(old(out)@),
        artist_block_ok(
            *artist,
            root_path@,
            sort_mode,
            artist_depth,
            keys_view(expanded_keys),
            images@,
            rows_view(final(out)@).skip(rows_view(old(out)@).len() as int),
        ),
{
    let ghost start = rows_view(out@);
    let lazy_hydration = expanded_keys.is_some();
    let album_count = artist.albums.len();
    let artist_key_s = artist_row_key(root_path, artist.artist_name.as_str());
    let artist_expanded = key_is_expanded(expanded_keys, artist_key_s.as_str());
    let child_count = artist.loose_tracks.len().saturating_add(artist.albums.len());
    let head = FlatTreeRow::artist(
        artist_depth,
        artist_key_s,
        artist.artist_name.as_str(),
        artist.artist_path.as_str(),
        child_count,
        album_count,
    );
    out.push(head);
    assert(rows_view(out@) =~= start.push(head@));
    if lazy_hydration && !artist_expanded {
        assert(rows_view(out@).skip(start.len() as int) =~= seq![head@]);
        assert(rows_view(out@).take(start.len() as int) =~= start);
        return;
    }
    let loose = order_tracks(&artist.loose_tracks);
    let mut resolved: Vec<ResolvedAlbum> = Vec::new();
    let mut i: usize = 0;
    while i < artist.albums.len()
        invariant
            i <= artist.albums@.len(),
            resolved@.len() == i,
            forall|j: int| 0 <= j < i ==> resolved_from(#[trigger] resolved@[j], artist.albums@[j].1, images@),
        decreases artist.albums@.len() - i,
    {
        resolved.push(resolve_album(&artist.albums[i].1, images));
        i += 1;
    }
    let ghost unsorted = resolved@;
    sort_resolved_albums(&mut resolved, sort_mode);
    let ghost after_head = rows_view(out@);
    let track_depth = sat_add16(artist_depth, 1);
    push_track_rows(out, track_depth, artist.artist_name.as_str(), &loose);
    let config = AlbumRowConfig {
        artist_name: artist.artist_name.as_str(),
        root_path,
        lazy_hydration,
        expanded_keys,
        album_depth: sat_add16(artist_depth, 1),
        section_depth: sat_add16(artist_depth, 2),
        section_track_depth: sat_add16(artist_depth, 3),
    };
    let ghost resolved_v = resolved@;
    append_album_rows(out, resolved, &config);
    proof {
        assert(config_spec(config) == artist_albums_spec(artist.artist_name@, root_path@, keys_view(expanded_keys), artist_depth));
        let block = rows_view(out@).skip(start.len() as int);
        assert(block.skip(1) =~= track_rows(sat16(artist_depth + 1), artist.artist_name@, loose@) + album_blocks(
            artist_albums_spec(artist.artist_name@, root_path@, keys_view(expanded_keys), artist_depth),
            resolved_v,
        ));
        assert(albums_ok(resolved_v, artist.albums@, sort_mode, images@));
        assert(rows_view(out@).take(start.len() as int) =~= start);
    }
}

/// The rows of one library root: each artist (in natural name order) with
/// what lies under it.
pub fn build_artist_rows_flat(
    root: &RootNodeBuilder,
    root_path: &str,
    sort_mode: crate::modes::LibrarySortMode,
    artist_depth: u16,
    expanded_keys: Option<&Vec<String>>,
    images: &Vec<(String, String)>,
) -> (out: Vec<FlatTreeRow>)
    ensures
        artists_rows_ok(
            sort_seq(artist_refs(root.artists@)),
            root.artists@,
            root_path@,
            sort_mode,
            artist_depth,
            keys_view(expanded_keys),
            images@,
            rows_view(out@),
        ),
{
    let mut refs: Vec<ArtistRef> = Vec::new();
    let mut i: usize = 0;
    while i < root.artists.len()
        invariant
            i <= root.artists@.len(),
            refs@ == artist_refs(root.artists@).take(i as int),
        decreases root.artists@.len() - i,
    {
        refs.push(ArtistRef { name: root.artists[i].1.artist_name.clone(), index: i });
        i += 1;
        assert(refs@ =~= artist_refs(root.artists@).take(i as int));
    }
    assert(artist_refs(root.artists@).take(root.artists@.len() as int) =~= artist_refs(root.artists@));
    let order = sort_stable(refs);
    let ghost ord = order@;
    proof {
        lemma_sort_seq_multiset(artist_refs(root.artists@));
        assert forall|k: int| 0 <= k < ord.len() implies (#[trigger] ord[k]).index < root.artists@.len() by {
            ord.to_multiset_ensures();
            artist_refs(root.artists@).to_multiset_ensures();
            assert(ord.contains(ord[k]));
            assert(ord.to_multiset().count(ord[k]) > 0);
            assert(artist_refs(root.artists@).to_multiset().count(ord[k]) > 0);
            assert(artist_refs(root.artists@).contains(ord[k]));
            let j = choose|j: int| 0 <= j < artist_refs(root.artists@).len() && artist_refs(root.artists@)[j] == ord[k];
            assert(artist_refs(root.artists@)[j].index == j as usize);
        }
    }
    let mut out: Vec<FlatTreeRow> = Vec::new();
    let mut k: usize = 0;
    while k < order.len()
        invariant
            k <= order@.len(),
            order@ == ord,
            forall|m: int| 0 <= m < ord.len() ==> (#[trigger] ord[m]).index < root.artists@.len(),
            artists_rows_ok(
                ord.take(k as int),
                root.artists@,
                root_path@,
                sort_mode,
                artist_depth,
                keys_view(expanded_keys),
                images@,
                rows_view(out@),
            ),
        decreases order@.len() - k,
    {
        let idx = order[k].index;
        let ghost before = rows_view(out@);
        push_artist_block(&mut out, &root.artists[idx].1, root_path, sort_mode, artist_depth, expanded_keys, images);
        proof {
            let n = before.len() as int;
            assert(ord.take(k + 1).drop_last() =~= ord.take(k as int));
            assert(ord.take(k + 1).last() == ord[k as int]);
            assert(rows_view(out@).take(n) == before);
        }
        k += 1;
    }
    assert(ord.take(ord.len() as int) =~= ord);
    out
}

} // verus!
