//! Search result rows, and what a search gathers while it walks the
//! prepared tracks: the matching tracks, the best score of every artist and
//! album they belong to, and per album what its hits say of it.
use vstd::prelude::*;

use crate::bridge::BridgeSearchResultRowType;
use crate::library::{file_name, file_name_of, LibrarySearchTrack};
use crate::search_context::{TreePathContext, TreePathContextView};
use crate::text::{chars_eq, chars_of, string_from_chars, trim, trim_str};

verus! {

/// One row of search results. The score is in half points (see
/// `ranking`); the length is given by `f32` bits to be added up: a track's
/// own duration, or the durations of an album's main listing (none when
/// unknown).
#[derive(Debug, Clone)]
pub struct BridgeSearchResultRow {
    pub match_detail: String,
    pub row_type: BridgeSearchResultRowType,
    pub score: u8,
    pub year: Option<i32>,
    pub track_number: Option<u32>,
    pub count: u32,
    pub length_parts: Vec<u32>,
    pub label: String,
    pub artist: String,
    pub album: String,
    pub root_label: String,
    pub genre: String,
    pub cover_path: String,
    pub artist_key: String,
    pub album_key: String,
    pub section_key: String,
    pub track_key: String,
    pub track_path: String,
}

pub struct SearchRowView {
    pub match_detail: Seq<char>,
    pub row_type: BridgeSearchResultRowType,
    pub score: u8,
    pub year: Option<i32>,
    pub track_number: Option<u32>,
    pub count: u32,
    pub length_parts: Seq<u32>,
    pub label: Seq<char>,
    pub artist: Seq<char>,
    pub album: Seq<char>,
    pub root_label: Seq<char>,
    pub genre: Seq<char>,
    pub cover_path: Seq<char>,
    pub artist_key: Seq<char>,
    pub album_key: Seq<char>,
    pub section_key: Seq<char>,
    pub track_key: Seq<char>,
    pub track_path: Seq<char>,
}

impl View for BridgeSearchResultRow {
    type V = SearchRowView;

    open spec fn view(&self) -> SearchRowView {
        SearchRowView {
            match_detail: self.match_detail@,
            row_type: self.row_type,
            score: self.score,
            year: self.year,
            track_number: self.track_number,
            count: self.count,
            length_parts: self.length_parts@,
            label: self.label@,
            artist: self.artist@,
            album: self.album@,
            root_label: self.root_label@,
            genre: self.genre@,
            cover_path: self.cover_path@,
            artist_key: self.artist_key@,
            album_key: self.album_key@,
            section_key: self.section_key@,
            track_key: self.track_key@,
            track_path: self.track_path@,
        }
    }
}

pub open spec fn row_views(rows: Seq<BridgeSearchResultRow>) -> Seq<SearchRowView> {
    rows.map_values(|r: BridgeSearchResultRow| r@)
}

pub open spec fn opt_or_empty(o: Option<Seq<char>>) -> Seq<char> {
    match o {
        Some(s) => s,
        None => Seq::empty(),
    }
}

/// A track's row label: its trimmed title, else its file name.
pub open spec fn track_label(hit: LibrarySearchTrack) -> Seq<char> {
    if trim(hit.title@).len() == 0 {
        opt_or_empty(file_name(hit.path@))
    } else {
        trim(hit.title@)
    }
}

pub open spec fn duration_parts(d: Option<u32>) -> Seq<u32> {
    match d {
        Some(b) => seq![b],
        None => Seq::empty(),
    }
}

/// The row of a matched track.
pub open spec fn track_row_spec(
    hit: LibrarySearchTrack,
    c: TreePathContextView,
    hit_artist: Seq<char>,
    hit_album: Seq<char>,
    cover_path: Seq<char>,
) -> SearchRowView {
    SearchRowView {
        match_detail: Seq::empty(),
        row_type: BridgeSearchResultRowType::Track,
        score: hit.score,
        year: hit.year,
        track_number: hit.track_no,
        count: 0,
        length_parts: duration_parts(hit.duration_bits),
        label: track_label(hit),
        artist: hit_artist,
        album: hit_album,
        root_label: c.root_label,
        genre: trim(hit.genre@),
        cover_path,
        artist_key: c.artist_key,
        album_key: opt_or_empty(c.album_key),
        section_key: opt_or_empty(c.section_key),
        track_key: c.track_key,
        track_path: hit.path@,
    }
}

fn string_or_empty(o: &Option<String>) -> (r: String)
    ensures
        r@ == opt_or_empty(crate::search_context::opt_view(*o)),
{
    match o {
        Some(s) => s.clone(),
        None => string_from_chars(&Vec::new()),
    }
}

/// The row of a matched track, in the context of its place in the tree.
pub fn build_track_search_result_row(
    hit: &LibrarySearchTrack,
    context: &TreePathContext,
    hit_artist: &str,
    hit_album: &str,
    cover_path: &str,
) -> (r: BridgeSearchResultRow)
    ensures
        r@ == track_row_spec(*hit, context@, hit_artist@, hit_album@, cover_path@),
{
    let title = trim_str(hit.title.as_str());
    let label = if title.len() == 0 {
        match file_name_of(hit.path.as_str()) {
            Some(f) => string_from_chars(&f),
            None => string_from_chars(&Vec::new()),
        }
    } else {
        string_from_chars(&title)
    };
    let mut parts: Vec<u32> = Vec::new();
    match hit.duration_bits {
        Some(b) => parts.push(b),
        None => {},
    }
    assert(parts@ =~= duration_parts(hit.duration_bits));
    let r = BridgeSearchResultRow {
        match_detail: string_from_chars(&Vec::new()),
        row_type: BridgeSearchResultRowType::Track,
        score: hit.score,
        year: hit.year,
        track_number: hit.track_no,
        count: 0,
        length_parts: parts,
        label,
        artist: string_from_chars(&chars_of(hit_artist)),
        album: string_from_chars(&chars_of(hit_album)),
        root_label: context.root_label.clone(),
        genre: string_from_chars(&trim_str(hit.genre.as_str())),
        cover_path: string_from_chars(&chars_of(cover_path)),
        artist_key: context.artist_key.clone(),
        album_key: string_or_empty(&context.album_key),
        section_key: string_or_empty(&context.section_key),
        track_key: context.track_key.clone(),
        track_path: hit.path.clone(),
    };
    assert(r@.match_detail =~= Seq::<char>::empty());
    r
}

// ---------------------------------------------------------------------------
// Groups: the best score of each artist and album
// ---------------------------------------------------------------------------

/// An artist or album with the best score of its hits, and the name and
/// root label that came with that score.
#[derive(Debug, Clone)]
pub struct SearchGroup {
    pub key: String,
    pub score: u8,
    pub name: String,
    pub root_label: String,
}

pub struct GroupView {
    pub key: Seq<char>,
    pub score: u8,
    pub name: Seq<char>,
    pub root_label: Seq<char>,
}

impl View for SearchGroup {
    type V = GroupView;

    open spec fn view(&self) -> GroupView {
        GroupView { key: self.key@, score: self.score, name: self.name@, root_label: self.root_label@ }
    }
}

pub open spec fn group_views(gs: Seq<SearchGroup>) -> Seq<GroupView> {
    gs.map_values(|g: SearchGroup| g@)
}

/// The group keyed `k`.
pub open spec fn group_pos(gs: Seq<GroupView>, k: Seq<char>) -> Option<int>
    decreases gs.len(),
{
    if gs.len() == 0 {
        None
    } else if gs.last().key == k {
        match group_pos(gs.drop_last(), k) {
            Some(i) => Some(i),
            None => Some(gs.len() - 1),
        }
    } else {
        group_pos(gs.drop_last(), k)
    }
}

/// A hit offers its score to its group: a new group takes it; an existing
/// one takes it, with the hit's name and label, only when it is better.
pub open spec fn offer_group(
    gs: Seq<GroupView>,
    k: Seq<char>,
    score: u8,
    name: Seq<char>,
    label: Seq<char>,
) -> Seq<GroupView> {
    match group_pos(gs, k) {
        None => gs.push(GroupView { key: k, score, name, root_label: label }),
        Some(i) => if score < gs[i].score {
            gs.update(i, GroupView { key: k, score, name, root_label: label })
        } else {
            gs
        },
    }
}

proof fn lemma_group_pos_range(gs: Seq<GroupView>, k: Seq<char>)
    ensures
        match group_pos(gs, k) {
            Some(i) => 0 <= i < gs.len() && gs[i].key == k,
            None => true,
        },
    decreases gs.len(),
{
    if gs.len() > 0 {
        lemma_group_pos_range(gs.drop_last(), k);
    }
}

proof fn lemma_group_pos_prefix(gs: Seq<GroupView>, k: Seq<char>, n: int)
    requires
        0 <= n <= gs.len(),
        group_pos(gs.take(n), k) is Some,
    ensures
        group_pos(gs, k) == group_pos(gs.take(n), k),
    decreases gs.len() - n,
{
    if n < gs.len() {
        assert(gs.take(n + 1).drop_last() =~= gs.take(n));
        lemma_group_pos_prefix(gs, k, n + 1);
    } else {
        assert(gs.take(n) =~= gs);
    }
}

fn group_pos_exec(gs: &Vec<SearchGroup>, k: &str) -> (r: Option<usize>)
    ensures
        match r {
            Some(i) => i < gs@.len() && group_pos(group_views(gs@), k@) == Some(i as int),
            None => group_pos(group_views(gs@), k@) is None,
        },
{
    let kc = chars_of(k);
    let ghost gv = group_views(gs@);
    let mut i: usize = 0;
    while i < gs.len()
        invariant
            i <= gs@.len(),
            kc@ == k@,
            gv == group_views(gs@),
            group_pos(gv.take(i as int), k@) is None,
        decreases gs@.len() - i,
    {
        proof {
            assert(gv.take(i + 1).drop_last() =~= gv.take(i as int));
            assert(gv.take(i + 1).last() == gv[i as int]);
        }
        if chars_eq(&chars_of(gs[i].key.as_str()), &kc) {
            proof {
                lemma_group_pos_prefix(gv, k@, i + 1);
            }
            return Some(i);
        }
        i += 1;
    }
    assert(gv.take(gs@.len() as int) =~= gv);
    None
}

/// Offers a hit's score to the group keyed `key`.
pub fn offer_group_exec(gs: &mut Vec<SearchGroup>, key: &str, score: u8, name: &str, label: &str)
    ensures
        group_views(final(gs)@) == offer_group(group_views(old(gs)@), key@, score, name@, label@),
{
    let ghost gv = group_views(gs@);
    proof {
        lemma_group_pos_range(gv, key@);
    }
    let g = SearchGroup {
        key: string_from_chars(&chars_of(key)),
        score,
        name: string_from_chars(&chars_of(name)),
        root_label: string_from_chars(&chars_of(label)),
    };
    let ghost nv = g@;
    match group_pos_exec(gs, key) {
        None => {
            gs.push(g);
            assert(group_views(gs@) =~= gv.push(nv));
        },
        Some(i) => {
            if score < gs[i].score {
                gs.set(i, g);
                assert(group_views(gs@) =~= gv.update(i as int, nv));
            }
        },
    }
}

// ---------------------------------------------------------------------------
// What the hits of an album say of it
// ---------------------------------------------------------------------------

/// What the hits of one album say of it: the first non-empty artist, key,
/// root label and title they gave, how many gave each year and genre, and
/// the match detail of the latest hit.
#[derive(Debug, Clone, Default)]
pub struct HitAlbumAcc {
    pub match_detail: String,
    pub artist_name: String,
    pub album_title: String,
    pub artist_key: String,
    pub root_label: String,
    pub year_counts: Vec<(i32, usize)>,
    pub genre_counts: Vec<(String, usize)>,
}

pub struct HitAlbumView {
    pub match_detail: Seq<char>,
    pub artist_name: Seq<char>,
    pub album_title: Seq<char>,
    pub artist_key: Seq<char>,
    pub root_label: Seq<char>,
    pub year_counts: Seq<(i32, usize)>,
    pub genre_counts: Seq<(Seq<char>, usize)>,
}

impl View for HitAlbumAcc {
    type V = HitAlbumView;

    open spec fn view(&self) -> HitAlbumView {
        HitAlbumView {
            match_detail: self.match_detail@,
            artist_name: self.artist_name@,
            album_title: self.album_title@,
            artist_key: self.artist_key@,
            root_label: self.root_label@,
            year_counts: self.year_counts@,
            genre_counts: self.genre_counts@.map_values(|p: (String, usize)| (p.0@, p.1)),
        }
    }
}

pub open spec fn stats_views(v: Seq<(String, HitAlbumAcc)>) -> Seq<(Seq<char>, HitAlbumView)> {
    v.map_values(|p: (String, HitAlbumAcc)| (p.0@, p.1@))
}

pub open spec fn empty_stats() -> HitAlbumView {
    HitAlbumView {
        match_detail: Seq::empty(),
        artist_name: Seq::empty(),
        album_title: Seq::empty(),
        artist_key: Seq::empty(),
        root_label: Seq::empty(),
        year_counts: Seq::empty(),
        genre_counts: Seq::empty(),
    }
}

/// The entry for album `k`.
pub open spec fn stats_pos(v: Seq<(Seq<char>, HitAlbumView)>, k: Seq<char>) -> Option<int>
    decreases v.len(),
{
    if v.len() == 0 {
        None
    } else if v.last().0 == k {
        match stats_pos(v.drop_last(), k) {
            Some(i) => Some(i),
            None => Some(v.len() - 1),
        }
    } else {
        stats_pos(v.drop_last(), k)
    }
}

/// The position of `y` among the counted years.
pub open spec fn year_pos(c: Seq<(i32, usize)>, y: i32) -> Option<int>
    decreases c.len(),
{
    if c.len() == 0 {
        None
    } else if c.last().0 == y {
        match year_pos(c.drop_last(), y) {
            Some(i) => Some(i),
            None => Some(c.len() - 1),
        }
    } else {
        year_pos(c.drop_last(), y)
    }
}

/// The position of `g` among the counted genres.
pub open spec fn genre_pos(c: Seq<(Seq<char>, usize)>, g: Seq<char>) -> Option<int>
    decreases c.len(),
{
    if c.len() == 0 {
        None
    } else if c.last().0 == g {
        match genre_pos(c.drop_last(), g) {
            Some(i) => Some(i),
            None => Some(c.len() - 1),
        }
    } else {
        genre_pos(c.drop_last(), g)
    }
}

/// Counts one more hit of year `y`.
pub open spec fn count_year(c: Seq<(i32, usize)>, y: i32) -> Seq<(i32, usize)> {
    match year_pos(c, y) {
        Some(i) => c.update(i, (y, (c[i].1 + 1) as usize)),
        None => c.push((y, 1)),
    }
}

/// Counts one more hit of genre `g`.
pub open spec fn count_genre(c: Seq<(Seq<char>, usize)>, g: Seq<char>) -> Seq<(Seq<char>, usize)> {
    match genre_pos(c, g) {
        Some(i) => c.update(i, (g, (c[i].1 + 1) as usize)),
        None => c.push((g, 1)),
    }
}

pub open spec fn or_if_empty(current: Seq<char>, offered: Seq<char>) -> Seq<char> {
    if current.len() == 0 {
        offered
    } else {
        current
    }
}

/// One hit's effect on its album's entry.
pub open spec fn album_stats_step(
    a: HitAlbumView,
    c: TreePathContextView,
    hit_album: Seq<char>,
    year: Option<i32>,
    genre: Seq<char>,
) -> HitAlbumView {
    HitAlbumView {
        match_detail: a.match_detail,
        artist_name: or_if_empty(a.artist_name, c.artist_name),
        album_title: or_if_empty(a.album_title, hit_album),
        artist_key: or_if_empty(a.artist_key, c.artist_key),
        root_label: or_if_empty(a.root_label, c.root_label),
        year_counts: match year {
            Some(y) => count_year(a.year_counts, y),
            None => a.year_counts,
        },
        genre_counts: if genre.len() > 0 {
            count_genre(a.genre_counts, genre)
        } else {
            a.genre_counts
        },
    }
}

/// The stats after one hit of album `k`.
pub open spec fn update_stats(
    v: Seq<(Seq<char>, HitAlbumView)>,
    k: Seq<char>,
    c: TreePathContextView,
    hit_album: Seq<char>,
    year: Option<i32>,
    genre: Seq<char>,
) -> Seq<(Seq<char>, HitAlbumView)> {
    match stats_pos(v, k) {
        Some(i) => v.update(i, (k, album_stats_step(v[i].1, c, hit_album, year, genre))),
        None => v.push((k, album_stats_step(empty_stats(), c, hit_album, year, genre))),
    }
}

/// No count has reached `b`.
pub open spec fn counts_below(v: Seq<(Seq<char>, HitAlbumView)>, b: int) -> bool {
    forall|i: int| 0 <= i < v.len() ==> entry_counts_below(#[trigger] v[i].1, b)
}

pub open spec fn entry_counts_below(a: HitAlbumView, b: int) -> bool {
    &&& forall|j: int| 0 <= j < a.year_counts.len() ==> #[trigger] a.year_counts[j].1 <= b
    &&& forall|j: int| 0 <= j < a.genre_counts.len() ==> #[trigger] a.genre_counts[j].1 <= b
}

pub proof fn lemma_stats_pos_range_pub(v: Seq<(Seq<char>, HitAlbumView)>, k: Seq<char>)
    ensures
        match stats_pos(v, k) {
            Some(i) => 0 <= i < v.len() && v[i].0 == k,
            None => true,
        },
{
    lemma_stats_pos_range(v, k);
}

/// Counts below a bound are below any larger one.
pub proof fn lemma_counts_below_weaken(v: Seq<(Seq<char>, HitAlbumView)>, b: int)
    requires
        counts_below(v, b),
    ensures
        counts_below(v, b + 1),
{
    assert forall|i: int| 0 <= i < v.len() implies entry_counts_below(#[trigger] v[i].1, b + 1) by {
        assert(entry_counts_below(v[i].1, b));
    }
}

proof fn lemma_stats_pos_range(v: Seq<(Seq<char>, HitAlbumView)>, k: Seq<char>)
    ensures
        match stats_pos(v, k) {
            Some(i) => 0 <= i < v.len() && v[i].0 == k,
            None => true,
        },
    decreases v.len(),
{
    if v.len() > 0 {
        lemma_stats_pos_range(v.drop_last(), k);
    }
}

proof fn lemma_stats_pos_prefix(v: Seq<(Seq<char>, HitAlbumView)>, k: Seq<char>, n: int)
    requires
        0 <= n <= v.len(),
        stats_pos(v.take(n), k) is Some,
    ensures
        stats_pos(v, k) == stats_pos(v.take(n), k),
    decreases v.len() - n,
{
    if n < v.len() {
        assert(v.take(n + 1).drop_last() =~= v.take(n));
        lemma_stats_pos_prefix(v, k, n + 1);
    } else {
        assert(v.take(n) =~= v);
    }
}

proof fn lemma_year_pos_range(c: Seq<(i32, usize)>, y: i32)
    ensures
        match year_pos(c, y) {
            Some(i) => 0 <= i < c.len() && c[i].0 == y,
            None => true,
        },
    decreases c.len(),
{
    if c.len() > 0 {
        lemma_year_pos_range(c.drop_last(), y);
    }
}

proof fn lemma_year_pos_prefix(c: Seq<(i32, usize)>, y: i32, n: int)
    requires
        0 <= n <= c.len(),
        year_pos(c.take(n), y) is Some,
    ensures
        year_pos(c, y) == year_pos(c.take(n), y),
    decreases c.len() - n,
{
    if n < c.len() {
        assert(c.take(n + 1).drop_last() =~= c.take(n));
        lemma_year_pos_prefix(c, y, n + 1);
    } else {
        assert(c.take(n) =~= c);
    }
}

proof fn lemma_genre_pos_range(c: Seq<(Seq<char>, usize)>, g: Seq<char>)
    ensures
        match genre_pos(c, g) {
            Some(i) => 0 <= i < c.len() && c[i].0 == g,
            None => true,
        },
    decreases c.len(),
{
    if c.len() > 0 {
        lemma_genre_pos_range(c.drop_last(), g);
    }
}

proof fn lemma_genre_pos_prefix(c: Seq<(Seq<char>, usize)>, g: Seq<char>, n: int)
    requires
        0 <= n <= c.len(),
        genre_pos(c.take(n), g) is Some,
    ensures
        genre_pos(c, g) == genre_pos(c.take(n), g),
    decreases c.len() - n,
{
    if n < c.len() {
        assert(c.take(n + 1).drop_last() =~= c.take(n));
        lemma_genre_pos_prefix(c, g, n + 1);
    } else {
        assert(c.take(n) =~= c);
    }
}

fn stats_pos_exec(v: &Vec<(String, HitAlbumAcc)>, k: &str) -> (r: Option<usize>)
    ensures
        match r {
            Some(i) => i < v@.len() && stats_pos(stats_views(v@), k@) == Some(i as int),
            None => stats_pos(stats_views(v@), k@) is None,
        },
{
    let kc = chars_of(k);
    let ghost sv = stats_views(v@);
    let mut i: usize = 0;
    while i < v.len()
        invariant
            i <= v@.len(),
            kc@ == k@,
            sv == stats_views(v@),
            stats_pos(sv.take(i as int), k@) is None,
        decreases v@.len() - i,
    {
        proof {
            assert(sv.take(i + 1).drop_last() =~= sv.take(i as int));
            assert(sv.take(i + 1).last() == sv[i as int]);
        }
        if chars_eq(&chars_of(v[i].0.as_str()), &kc) {
            proof {
                lemma_stats_pos_prefix(sv, k@, i + 1);
            }
            return Some(i);
        }
        i += 1;
    }
    assert(sv.take(v@.len() as int) =~= sv);
    None
}

fn count_year_exec(c: &mut Vec<(i32, usize)>, y: i32, b: Ghost<int>)
    requires
        forall|j: int| 0 <= j < old(c)@.len() ==> #[trigger] old(c)@[j].1 <= b@,
        0 <= b@ < usize::MAX,
    ensures
        final(c)@ == count_year(old(c)@, y),
        forall|j: int| 0 <= j < final(c)@.len() ==> #[trigger] final(c)@[j].1 <= b@ + 1,
{
    let ghost cv = c@;
    let mut i: usize = 0;
    while i < c.len()
        invariant
            i <= c@.len(),
            c@ == cv,
            cv == old(c)@,
            forall|j: int| 0 <= j < old(c)@.len() ==> #[trigger] old(c)@[j].1 <= b@,
            b@ < usize::MAX,
            year_pos(cv.take(i as int), y) is None,
        decreases c@.len() - i,
    {
        proof {
            assert(cv.take(i + 1).drop_last() =~= cv.take(i as int));
            assert(cv.take(i + 1).last() == cv[i as int]);
        }
        if c[i].0 == y {
            proof {
                lemma_year_pos_prefix(cv, y, i + 1);
            }
            let n = c[i].1;
            assert(n <= b@);
            c.set(i, (y, n + 1));
            assert forall|j: int| 0 <= j < c@.len() implies #[trigger] c@[j].1 <= b@ + 1 by {
                if j != i {
                    assert(c@[j] == cv[j]);
                }
            }
            return;
        }
        i += 1;
    }
    assert(cv.take(cv.len() as int) =~= cv);
    c.push((y, 1));
    assert forall|j: int| 0 <= j < c@.len() implies #[trigger] c@[j].1 <= b@ + 1 by {
        if j < cv.len() {
            assert(c@[j] == cv[j]);
        }
    }
}

fn count_genre_exec(c: &mut Vec<(String, usize)>, g: &str, b: Ghost<int>)
    requires
        forall|j: int| 0 <= j < old(c)@.len() ==> #[trigger] old(c)@[j].1 <= b@,
        0 <= b@ < usize::MAX,
    ensures
        final(c)@.map_values(|p: (String, usize)| (p.0@, p.1)) == count_genre(
            old(c)@.map_values(|p: (String, usize)| (p.0@, p.1)),
            g@,
        ),
        forall|j: int| 0 <= j < final(c)@.len() ==> #[trigger] final(c)@[j].1 <= b@ + 1,
{
    let ghost cv = c@.map_values(|p: (String, usize)| (p.0@, p.1));
    let gc = chars_of(g);
    let mut i: usize = 0;
    while i < c.len()
        invariant
            i <= c@.len(),
            gc@ == g@,
            cv == c@.map_values(|p: (String, usize)| (p.0@, p.1)),
            c@ == old(c)@,
            forall|j: int| 0 <= j < old(c)@.len() ==> #[trigger] old(c)@[j].1 <= b@,
            b@ < usize::MAX,
            genre_pos(cv.take(i as int), g@) is None,
        decreases c@.len() - i,
    {
        proof {
            assert(cv.take(i + 1).drop_last() =~= cv.take(i as int));
            assert(cv.take(i + 1).last() == cv[i as int]);
        }
        if chars_eq(&chars_of(c[i].0.as_str()), &gc) {
            proof {
                lemma_genre_pos_prefix(cv, g@, i + 1);
            }
            let n = c[i].1;
            assert(n <= b@);
            let key = c[i].0.clone();
            let ghost c0 = c@;
            c.set(i, (key, n + 1));
            assert(c@.map_values(|p: (String, usize)| (p.0@, p.1)) =~= cv.update(i as int, (g@, (n + 1) as usize)));
            assert forall|j: int| 0 <= j < c@.len() implies #[trigger] c@[j].1 <= b@ + 1 by {
                if j != i {
                    assert(c@[j] == c0[j]);
                }
            }
            return;
        }
        i += 1;
    }
    assert(cv.take(cv.len() as int) =~= cv);
    let ghost c0 = c@;
    c.push((string_from_chars(&gc), 1));
    assert(c@.map_values(|p: (String, usize)| (p.0@, p.1)) =~= cv.push((g@, 1usize)));
    assert forall|j: int| 0 <= j < c@.len() implies #[trigger] c@[j].1 <= b@ + 1 by {
        if j < c0.len() {
            assert(c@[j] == c0[j]);
        }
    }
}

fn copy_year_counts(v: &Vec<(i32, usize)>) -> (r: Vec<(i32, usize)>)
    ensures
        r@ == v@,
{
    let mut out: Vec<(i32, usize)> = Vec::new();
    let mut i: usize = 0;
    while i < v.len()
        invariant
            i <= v@.len(),
            out@ == v@.take(i as int),
        decreases v@.len() - i,
    {
        out.push(v[i]);
        i += 1;
        assert(out@ =~= v@.take(i as int));
    }
    assert(v@.take(v@.len() as int) =~= v@);
    out
}

fn copy_genre_counts(v: &Vec<(String, usize)>) -> (r: Vec<(String, usize)>)
    ensures
        r@.map_values(|p: (String, usize)| (p.0@, p.1)) == v@.map_values(|p: (String, usize)| (p.0@, p.1)),
        r@.len() == v@.len(),
        forall|j: int| 0 <= j < r@.len() ==> #[trigger] r@[j].1 == v@[j].1,
{
    let mut out: Vec<(String, usize)> = Vec::new();
    let mut i: usize = 0;
    while i < v.len()
        invariant
            i <= v@.len(),
            out@.len() == i,
            forall|j: int| #![trigger out@[j]] 0 <= j < i ==> out@[j].0@ == v@[j].0@ && out@[j].1 == v@[j].1,
        decreases v@.len() - i,
    {
        let k = v[i].0.clone();
        out.push((k, v[i].1));
        i += 1;
    }
    assert(out@.map_values(|p: (String, usize)| (p.0@, p.1)) =~= v@.map_values(|p: (String, usize)| (p.0@, p.1)));
    out
}

fn copy_string(s: &String) -> (r: String)
    ensures
        r@ == s@,
{
    s.clone()
}

/// Counts one more hit of album `album_key`: its first non-empty artist,
/// artist key, root label and title stay; the year and the (non-empty)
/// genre of the hit are counted.
pub fn update_album_hit_stats(
    album_hit_stats: &mut Vec<(String, HitAlbumAcc)>,
    album_key: &str,
    context: &TreePathContext,
    hit_album: &str,
    year: Option<i32>,
    genre: &str,
    bound: Ghost<int>,
)
    requires
        counts_below(stats_views(old(album_hit_stats)@), bound@),
        0 <= bound@ < usize::MAX,
    ensures
        stats_views(final(album_hit_stats)@) == update_stats(
            stats_views(old(album_hit_stats)@),
            album_key@,
            context@,
            hit_album@,
            year,
            genre@,
        ),
        counts_below(stats_views(final(album_hit_stats)@), bound@ + 1),
{
    let ghost sv = stats_views(album_hit_stats@);
    proof {
        lemma_stats_pos_range(sv, album_key@);
    }
    let pos = stats_pos_exec(album_hit_stats, album_key);
    let mut acc: HitAlbumAcc = match pos {
        Some(i) => {
            let a = &album_hit_stats[i].1;
            HitAlbumAcc {
                match_detail: copy_string(&a.match_detail),
                artist_name: copy_string(&a.artist_name),
                album_title: copy_string(&a.album_title),
                artist_key: copy_string(&a.artist_key),
                root_label: copy_string(&a.root_label),
                year_counts: copy_year_counts(&a.year_counts),
                genre_counts: copy_genre_counts(&a.genre_counts),
            }
        },
        None => HitAlbumAcc {
            match_detail: string_from_chars(&Vec::new()),
            artist_name: string_from_chars(&Vec::new()),
            album_title: string_from_chars(&Vec::new()),
            artist_key: string_from_chars(&Vec::new()),
            root_label: string_from_chars(&Vec::new()),
            year_counts: Vec::new(),
            genre_counts: Vec::new(),
        },
    };
    let ghost base = match pos {
        Some(i) => sv[i as int].1,
        None => empty_stats(),
    };
    assert(acc.year_counts@ =~= base.year_counts);
    assert(acc.genre_counts@.map_values(|p: (String, usize)| (p.0@, p.1)) =~= base.genre_counts);
    assert(acc@ == base);
    proof {
        match pos {
            Some(i) => {
                assert forall|j: int| 0 <= j < acc.year_counts@.len() implies #[trigger] acc.year_counts@[j].1 <= bound@ by {
                    assert(acc.year_counts@[j].1 == sv[i as int].1.year_counts[j].1);
                }
                assert forall|j: int| 0 <= j < acc.genre_counts@.len() implies #[trigger] acc.genre_counts@[j].1 <= bound@ by {
                    assert(acc.genre_counts@[j].1 == sv[i as int].1.genre_counts[j].1);
                }
            },
            None => {},
        }
    }
    if chars_of(acc.artist_name.as_str()).len() == 0 {
        acc.artist_name = context.artist_name.clone();
    }
    if chars_of(acc.artist_key.as_str()).len() == 0 {
        acc.artist_key = context.artist_key.clone();
    }
    if chars_of(acc.root_label.as_str()).len() == 0 {
        acc.root_label = context.root_label.clone();
    }
    if chars_of(acc.album_title.as_str()).len() == 0 {
        acc.album_title = string_from_chars(&chars_of(hit_album));
    }
    match year {
        Some(y) => count_year_exec(&mut acc.year_counts, y, bound),
        None => {},
    }
    if chars_of(genre).len() > 0 {
        count_genre_exec(&mut acc.genre_counts, genre, bound);
    }
    assert(acc@ == album_stats_step(base, context@, hit_album@, year, genre@));
    let ghost av = acc@;
    let key = string_from_chars(&chars_of(album_key));
    match pos {
        Some(i) => {
            album_hit_stats.set(i, (key, acc));
            assert(stats_views(album_hit_stats@) =~= sv.update(i as int, (album_key@, av)));
        },
        None => {
            album_hit_stats.push((key, acc));
            assert(stats_views(album_hit_stats@) =~= sv.push((album_key@, av)));
        },
    }
}

} // verus!
