//! Turning what a search gathered into the rows it shows: artists, then
//! albums, then tracks, each group ordered by relevance and cut to its
//! limit.
use vstd::prelude::*;

use crate::bridge::BridgeSearchResultRowType;
use crate::lastfm::{lemma_text_le_total, text_le, text_le_exec};
use crate::search::{lowercase, str_to_lowercase};
use crate::search_prepare::{field_views, inventory_pos, inventory_views, key_pos, AlbumInventory, InventoryView};
use crate::search_rows::{
    group_views, row_views, stats_pos, stats_views, BridgeSearchResultRow, GroupView, HitAlbumAcc,
    HitAlbumView, SearchGroup, SearchRowView,
};
use crate::sorting::{insert_sorted, scan_pos, sort_seq, sort_stable, TotalPreorder};
use crate::codec::clamp_u32;
use crate::library::{LibraryRoot, LibrarySnapshot};
use crate::numbers::{parse_unsigned, parse_usize};
use crate::search::{search_terms, split_search_terms};
use crate::search_prepare::PreparedSearchLibrary;
use crate::search_query::{parse_token, query_tokens, SearchQuery};
use crate::search_walk::{search_tracks_prepared, walk_upto, SearchRowAccumulator};
use crate::text::{chars_eq, chars_of, string_from_chars, trim, trim_str};

verus! {

// ---------------------------------------------------------------------------
// Most common year and genre
// ---------------------------------------------------------------------------

/// The most counted year among the first `n` entries, with its count; on a
/// tie, the earlier year.
pub open spec fn best_year_upto(c: Seq<(i32, usize)>, n: int) -> Option<(i32, usize)>
    decreases n,
{
    if n <= 0 {
        None
    } else {
        let (y, k) = c[n - 1];
        match best_year_upto(c, n - 1) {
            None => Some((y, k)),
            Some((by, bk)) => if k > bk || (k == bk && y < by) {
                Some((y, k))
            } else {
                Some((by, bk))
            },
        }
    }
}

pub open spec fn most_common_year(c: Seq<(i32, usize)>) -> Option<i32> {
    match best_year_upto(c, c.len() as int) {
        Some((y, _)) => Some(y),
        None => None,
    }
}

/// The year that most hits gave (the earliest on a tie), if any gave one.
pub fn choose_most_common_year(counts: &Vec<(i32, usize)>) -> (r: Option<i32>)
    ensures
        r == most_common_year(counts@),
{
    let mut best: Option<(i32, usize)> = None;
    let mut i: usize = 0;
    while i < counts.len()
        invariant
            i <= counts@.len(),
            best == best_year_upto(counts@, i as int),
        decreases counts@.len() - i,
    {
        let (y, k) = counts[i];
        best = match best {
            None => Some((y, k)),
            Some((by, bk)) => if k > bk || (k == bk && y < by) {
                Some((y, k))
            } else {
                Some((by, bk))
            },
        };
        i += 1;
    }
    match best {
        Some((y, _)) => Some(y),
        None => None,
    }
}

/// `a` comes strictly before `b` in code-point order.
pub open spec fn text_lt(a: Seq<char>, b: Seq<char>) -> bool {
    text_le(a, b) && a != b
}

/// The most counted genre among the first `n` entries, with its count; on
/// a tie, the one first in code-point order.
pub open spec fn best_genre_upto(c: Seq<(Seq<char>, usize)>, n: int) -> Option<(Seq<char>, usize)>
    decreases n,
{
    if n <= 0 {
        None
    } else {
        let (g, k) = c[n - 1];
        match best_genre_upto(c, n - 1) {
            None => Some((g, k)),
            Some((bg, bk)) => if k > bk || (k == bk && text_lt(g, bg)) {
                Some((g, k))
            } else {
                Some((bg, bk))
            },
        }
    }
}

pub open spec fn most_common_genre(c: Seq<(Seq<char>, usize)>) -> Seq<char> {
    match best_genre_upto(c, c.len() as int) {
        Some((g, _)) => g,
        None => Seq::empty(),
    }
}

pub open spec fn genre_views(c: Seq<(String, usize)>) -> Seq<(Seq<char>, usize)> {
    c.map_values(|p: (String, usize)| (p.0@, p.1))
}

/// The genre that most hits gave (the first in code-point order on a tie),
/// or nothing.
pub fn choose_most_common_genre(counts: &Vec<(String, usize)>) -> (r: String)
    ensures
        r@ == most_common_genre(genre_views(counts@)),
{
    let ghost cv = genre_views(counts@);
    let mut best: Option<(Vec<char>, usize)> = None;
    let mut i: usize = 0;
    while i < counts.len()
        invariant
            i <= counts@.len(),
            cv == genre_views(counts@),
            match best {
                None => best_genre_upto(cv, i as int) is None,
                Some((g, k)) => best_genre_upto(cv, i as int) == Some((g@, k)),
            },
        decreases counts@.len() - i,
    {
        let g = chars_of(counts[i].0.as_str());
        let k = counts[i].1;
        assert(cv[i as int] == (g@, k));
        best = match best {
            None => Some((g, k)),
            Some((bg, bk)) => {
                let lt = text_le_exec(&g, &bg) && !chars_eq(&g, &bg);
                if k > bk || (k == bk && lt) {
                    Some((g, k))
                } else {
                    Some((bg, bk))
                }
            },
        };
        i += 1;
    }
    match best {
        Some((g, _)) => string_from_chars(&g),
        None => string_from_chars(&Vec::new()),
    }
}

// ---------------------------------------------------------------------------
// The order of rows
// ---------------------------------------------------------------------------

/// `x` before `y`, or, when they are equal, whatever `rest` says.
pub open spec fn lex(x: Seq<char>, y: Seq<char>, rest: bool) -> bool {
    if x == y {
        rest
    } else {
        text_le(x, y)
    }
}

/// Rows are ordered by score, then case-insensitively by label and artist,
/// then by artist key and album key, then case-insensitively by path.
pub open spec fn row_view_le(a: SearchRowView, b: SearchRowView) -> bool {
    if a.score != b.score {
        a.score < b.score
    } else {
        lex(
            lowercase(a.label),
            lowercase(b.label),
            lex(
                lowercase(a.artist),
                lowercase(b.artist),
                lex(
                    a.artist_key,
                    b.artist_key,
                    lex(a.album_key, b.album_key, lex(lowercase(a.track_path), lowercase(b.track_path), true)),
                ),
            ),
        )
    }
}

proof fn lemma_lex_total(x: Seq<char>, y: Seq<char>, r1: bool, r2: bool)
    requires
        x == y ==> r1 || r2,
    ensures
        lex(x, y, r1) || lex(y, x, r2),
{
    if x != y {
        lemma_text_le_total(x, y);
    }
}

pub proof fn lemma_row_view_le_total(a: SearchRowView, b: SearchRowView)
    ensures
        row_view_le(a, b) || row_view_le(b, a),
{
    if a.score == b.score {
        let (pa, pb) = (lowercase(a.track_path), lowercase(b.track_path));
        lemma_lex_total(pa, pb, true, true);
        lemma_lex_total(a.album_key, b.album_key, lex(pa, pb, true), lex(pb, pa, true));
        lemma_lex_total(
            a.artist_key,
            b.artist_key,
            lex(a.album_key, b.album_key, lex(pa, pb, true)),
            lex(b.album_key, a.album_key, lex(pb, pa, true)),
        );
        let ra = lex(a.artist_key, b.artist_key, lex(a.album_key, b.album_key, lex(pa, pb, true)));
        let rb = lex(b.artist_key, a.artist_key, lex(b.album_key, a.album_key, lex(pb, pa, true)));
        lemma_lex_total(lowercase(a.artist), lowercase(b.artist), ra, rb);
        lemma_lex_total(
            lowercase(a.label),
            lowercase(b.label),
            lex(lowercase(a.artist), lowercase(b.artist), ra),
            lex(lowercase(b.artist), lowercase(a.artist), rb),
        );
    }
}

fn lex_exec(x: &Vec<char>, y: &Vec<char>) -> (r: Option<bool>)
    ensures
        match r {
            None => x@ == y@,
            Some(b) => x@ != y@ && b == text_le(x@, y@),
        },
{
    if chars_eq(x, y) {
        None
    } else {
        Some(text_le_exec(x, y))
    }
}

fn lower_chars(s: &String) -> (r: Vec<char>)
    ensures
        r@ == lowercase(s@),
{
    chars_of(str_to_lowercase(s.as_str()).as_str())
}

impl TotalPreorder for BridgeSearchResultRow {
    open spec fn before(a: Self, b: Self) -> bool {
        row_view_le(a@, b@)
    }

    proof fn lemma_total(a: Self, b: Self) {
        lemma_row_view_le_total(a@, b@);
    }

    fn exec_before(a: &Self, b: &Self) -> (r: bool) {
        if a.score != b.score {
            return a.score < b.score;
        }
        match lex_exec(&lower_chars(&a.label), &lower_chars(&b.label)) {
            Some(r) => return r,
            None => {},
        }
        match lex_exec(&lower_chars(&a.artist), &lower_chars(&b.artist)) {
            Some(r) => return r,
            None => {},
        }
        match lex_exec(&chars_of(a.artist_key.as_str()), &chars_of(b.artist_key.as_str())) {
            Some(r) => return r,
            None => {},
        }
        match lex_exec(&chars_of(a.album_key.as_str()), &chars_of(b.album_key.as_str())) {
            Some(r) => return r,
            None => {},
        }
        match lex_exec(&lower_chars(&a.track_path), &lower_chars(&b.track_path)) {
            Some(r) => r,
            None => true,
        }
    }
}

/// Where `x` goes when inserted into `s[..j]` (see `sorting::scan_pos`),
/// over row contents.
pub open spec fn view_scan_pos(s: Seq<SearchRowView>, x: SearchRowView, j: int) -> int
    decreases j,
{
    if j > 0 && !row_view_le(s[j - 1], x) {
        view_scan_pos(s, x, j - 1)
    } else {
        j
    }
}

/// The stable insertion sort of row contents by `row_view_le`.
pub open spec fn view_sort(s: Seq<SearchRowView>) -> Seq<SearchRowView>
    decreases s.len(),
{
    if s.len() == 0 {
        s
    } else {
        let t = view_sort(s.drop_last());
        t.insert(view_scan_pos(t, s.last(), t.len() as int), s.last())
    }
}

proof fn lemma_scan_pos_views(s: Seq<BridgeSearchResultRow>, x: BridgeSearchResultRow, j: int)
    requires
        0 <= j <= s.len(),
    ensures
        scan_pos(s, x, j) == view_scan_pos(row_views(s), x@, j),
    decreases j,
{
    if j > 0 {
        assert(row_views(s)[j - 1] == s[j - 1]@);
        lemma_scan_pos_views(s, x, j - 1);
    }
}

proof fn lemma_sort_views(s: Seq<BridgeSearchResultRow>)
    ensures
        row_views(sort_seq(s)) == view_sort(row_views(s)),
        sort_seq(s).len() == s.len(),
    decreases s.len(),
{
    if s.len() > 0 {
        lemma_sort_views(s.drop_last());
        let t = sort_seq(s.drop_last());
        assert(row_views(s.drop_last()) =~= row_views(s).drop_last());
        assert(row_views(s).last() == s.last()@);
        lemma_scan_pos_views(t, s.last(), t.len() as int);
        crate::sorting::lemma_scan_pos_range(t, s.last(), t.len() as int);
        let p = scan_pos(t, s.last(), t.len() as int);
        assert(row_views(t.insert(p, s.last())) =~= row_views(t).insert(p, s.last()@));
    }
}

/// Sorts rows by relevance, keeping rows of equal rank in their order.
pub fn sort_rows(rows: Vec<BridgeSearchResultRow>) -> (r: Vec<BridgeSearchResultRow>)
    ensures
        row_views(r@) == view_sort(row_views(rows@)),
{
    let ghost orig = rows@;
    let out = sort_stable(rows);
    proof {
        lemma_sort_views(orig);
    }
    out
}

// ---------------------------------------------------------------------------
// Final rows
// ---------------------------------------------------------------------------

/// How many rows of each kind a search shows.
#[derive(Debug, Clone, Copy)]
pub struct SearchResultLimits {
    pub artist: usize,
    pub album: usize,
    pub track: usize,
}

/// The row of an artist group.
pub open spec fn artist_row_view(g: GroupView) -> SearchRowView {
    SearchRowView {
        match_detail: Seq::empty(),
        row_type: BridgeSearchResultRowType::Artist,
        score: g.score,
        year: None,
        track_number: None,
        count: 0,
        length_parts: Seq::empty(),
        label: g.name,
        artist: g.name,
        album: Seq::empty(),
        root_label: g.root_label,
        genre: Seq::empty(),
        cover_path: Seq::empty(),
        artist_key: g.key,
        album_key: Seq::empty(),
        section_key: Seq::empty(),
        track_key: Seq::empty(),
        track_path: Seq::empty(),
    }
}

/// The row of an album group, from what its hits said of it and from its
/// inventory: its most common year and genre, its track count and the
/// durations of its main listing, and its cover.
pub open spec fn album_row_view(
    g: GroupView,
    st: HitAlbumView,
    inv: Option<InventoryView>,
    covers: Seq<(Seq<char>, Seq<char>)>,
) -> SearchRowView {
    SearchRowView {
        match_detail: st.match_detail,
        row_type: BridgeSearchResultRowType::Album,
        score: g.score,
        year: most_common_year(st.year_counts),
        track_number: None,
        count: match inv {
            Some(v) => v.main_track_count,
            None => 0,
        },
        length_parts: match inv {
            Some(v) => v.main_durations,
            None => Seq::empty(),
        },
        label: if st.album_title.len() == 0 {
            g.name
        } else {
            st.album_title
        },
        artist: st.artist_name,
        album: st.album_title,
        root_label: if st.root_label.len() == 0 {
            g.root_label
        } else {
            st.root_label
        },
        genre: most_common_genre(st.genre_counts),
        cover_path: match key_pos(covers, g.key) {
            Some(i) => covers[i].1,
            None => Seq::empty(),
        },
        artist_key: st.artist_key,
        album_key: g.key,
        section_key: Seq::empty(),
        track_key: Seq::empty(),
        track_path: Seq::empty(),
    }
}

/// The rows of the first `n` album groups; a group without stats has no
/// row.
pub open spec fn album_rows_upto(
    groups: Seq<GroupView>,
    stats: Seq<(Seq<char>, HitAlbumView)>,
    inv: Seq<InventoryView>,
    covers: Seq<(Seq<char>, Seq<char>)>,
    n: int,
) -> Seq<SearchRowView>
    decreases n,
{
    if n <= 0 {
        Seq::empty()
    } else {
        let prev = album_rows_upto(groups, stats, inv, covers, n - 1);
        let g = groups[n - 1];
        match stats_pos(stats, g.key) {
            None => prev,
            Some(i) => prev.push(
                album_row_view(
                    g,
                    stats[i].1,
                    match inventory_pos(inv, g.key) {
                        Some(j) => Some(inv[j]),
                        None => None,
                    },
                    covers,
                ),
            ),
        }
    }
}

/// At most the first `n`.
pub open spec fn take_upto<A>(s: Seq<A>, n: int) -> Seq<A> {
    if n < s.len() {
        s.take(n)
    } else {
        s
    }
}

/// The rows shown: the best artists, then the best albums, then the best
/// tracks, each by relevance and within its limit.
pub open spec fn final_rows(
    inv: Seq<InventoryView>,
    limits: SearchResultLimits,
    covers: Seq<(Seq<char>, Seq<char>)>,
    artists: Seq<GroupView>,
    albums: Seq<GroupView>,
    stats: Seq<(Seq<char>, HitAlbumView)>,
    tracks: Seq<SearchRowView>,
) -> Seq<SearchRowView> {
    take_upto(view_sort(artists.map_values(|g: GroupView| artist_row_view(g))), limits.artist as int)
        + take_upto(view_sort(album_rows_upto(albums, stats, inv, covers, albums.len() as int)), limits.album as int)
        + take_upto(view_sort(tracks), limits.track as int)
}

fn empty_string() -> (r: String)
    ensures
        r@ == Seq::<char>::empty(),
{
    string_from_chars(&Vec::new())
}

fn copy_u32s(v: &Vec<u32>) -> (r: Vec<u32>)
    ensures
        r@ == v@,
{
    let mut out: Vec<u32> = Vec::new();
    let mut i: usize = 0;
    while i < v.len()
        invariant
            i <= v@.len(),
            out@ == v@.take(i as int),
        decreases v@.len() - i,
    {
        out.push(v[i]);
        i += 1;
        assert(out@ =~= v@.take(i as int));
    }
    assert(v@.take(v@.len() as int) =~= v@);
    out
}

fn artist_rows(groups: &Vec<SearchGroup>) -> (r: Vec<BridgeSearchResultRow>)
    ensures
        row_views(r@) == group_views(groups@).map_values(|g: GroupView| artist_row_view(g)),
{
    let ghost want = group_views(groups@).map_values(|g: GroupView| artist_row_view(g));
    let mut out: Vec<BridgeSearchResultRow> = Vec::new();
    let mut i: usize = 0;
    while i < groups.len()
        invariant
            i <= groups@.len(),
            want == group_views(groups@).map_values(|g: GroupView| artist_row_view(g)),
            row_views(out@) == want.take(i as int),
        decreases groups@.len() - i,
    {
        let g = &groups[i];
        let row = BridgeSearchResultRow {
            match_detail: empty_string(),
            row_type: BridgeSearchResultRowType::Artist,
            score: g.score,
            year: None,
            track_number: None,
            count: 0,
            length_parts: Vec::new(),
            label: g.name.clone(),
            artist: g.name.clone(),
            album: empty_string(),
            root_label: g.root_label.clone(),
            genre: empty_string(),
            cover_path: empty_string(),
            artist_key: g.key.clone(),
            album_key: empty_string(),
            section_key: empty_string(),
            track_key: empty_string(),
            track_path: empty_string(),
        };
        assert(row@ == want[i as int]) by {
            assert(row@.length_parts =~= Seq::<u32>::empty());
        }
        let ghost before = row_views(out@);
        out.push(row);
        assert(row_views(out@) =~= before.push(want[i as int]));
        assert(want.take(i + 1) =~= want.take(i as int).push(want[i as int]));
        i += 1;
    }
    assert(want.take(groups@.len() as int) =~= want);
    out
}

fn stats_pos_exec(v: &Vec<(String, HitAlbumAcc)>, k: &str) -> (r: Option<usize>)
    ensures
        match r {
            Some(i) => i < v@.len() && stats_pos(stats_views(v@), k@) == Some(i as int),
            None => stats_pos(stats_views(v@), k@) is None,
        },
{
    let kc = chars_of(k);
    let ghost sv = stats_views(v@);
    let mut i: usize = 0;
    while i < v.len()
        invariant
            i <= v@.len(),
            kc@ == k@,
            sv == stats_views(v@),
            stats_pos(sv.take(i as int), k@) is None,
        decreases v@.len() - i,
    {
        proof {
            assert(sv.take(i + 1).drop_last() =~= sv.take(i as int));
            assert(sv.take(i + 1).last() == sv[i as int]);
        }
        if chars_eq(&chars_of(v[i].0.as_str()), &kc) {
            proof {
                lemma_pos_prefix_stats(sv, k@, i + 1);
            }
            return Some(i);
        }
        i += 1;
    }
    assert(sv.take(v@.len() as int) =~= sv);
    None
}

proof fn lemma_pos_prefix_stats(v: Seq<(Seq<char>, HitAlbumView)>, k: Seq<char>, n: int)
    requires
        0 <= n <= v.len(),
        stats_pos(v.take(n), k) is Some,
    ensures
        stats_pos(v, k) == stats_pos(v.take(n), k),
    decreases v.len() - n,
{
    if n < v.len() {
        assert(v.take(n + 1).drop_last() =~= v.take(n));
        lemma_pos_prefix_stats(v, k, n + 1);
    } else {
        assert(v.take(n) =~= v);
    }
}

fn inventory_pos_exec(inv: &Vec<AlbumInventory>, k: &str) -> (r: Option<usize>)
    ensures
        match r {
            Some(i) => i < inv@.len() && inventory_pos(inventory_views(inv@), k@) == Some(i as int),
            None => inventory_pos(inventory_views(inv@), k@) is None,
        },
{
    let kc = chars_of(k);
    let ghost iv = inventory_views(inv@);
    let mut i: usize = 0;
    while i < inv.len()
        invariant
            i <= inv@.len(),
            kc@ == k@,
            iv == inventory_views(inv@),
            inventory_pos(iv.take(i as int), k@) is None,
        decreases inv@.len() - i,
    {
        proof {
            assert(iv.take(i + 1).drop_last() =~= iv.take(i as int));
            assert(iv.take(i + 1).last() == iv[i as int]);
        }
        if chars_eq(&chars_of(inv[i].album_key.as_str()), &kc) {
            proof {
                lemma_pos_prefix_inventory(iv, k@, i + 1);
            }
            return Some(i);
        }
        i += 1;
    }
    assert(iv.take(inv@.len() as int) =~= iv);
    None
}

proof fn lemma_pos_prefix_inventory(v: Seq<InventoryView>, k: Seq<char>, n: int)
    requires
        0 <= n <= v.len(),
        inventory_pos(v.take(n), k) is Some,
    ensures
        inventory_pos(v, k) == inventory_pos(v.take(n), k),
    decreases v.len() - n,
{
    if n < v.len() {
        assert(v.take(n + 1).drop_last() =~= v.take(n));
        lemma_pos_prefix_inventory(v, k, n + 1);
    } else {
        assert(v.take(n) =~= v);
    }
}

fn cover_pos_exec(covers: &Vec<(String, String)>, k: &str) -> (r: Option<usize>)
    ensures
        match r {
            Some(i) => i < covers@.len() && key_pos(field_views(covers@), k@) == Some(i as int),
            None => key_pos(field_views(covers@), k@) is None,
        },
{
    let kc = chars_of(k);
    let ghost fv = field_views(covers@);
    let mut i: usize = 0;
    while i < covers.len()
        invariant
            i <= covers@.len(),
            kc@ == k@,
            fv == field_views(covers@),
            key_pos(fv.take(i as int), k@) is None,
        decreases covers@.len() - i,
    {
        proof {
            assert(fv.take(i + 1).drop_last() =~= fv.take(i as int));
            assert(fv.take(i + 1).last() == fv[i as int]);
        }
        if chars_eq(&chars_of(covers[i].0.as_str()), &kc) {
            proof {
                lemma_pos_prefix_covers(fv, k@, i + 1);
            }
            return Some(i);
        }
        i += 1;
    }
    assert(fv.take(covers@.len() as int) =~= fv);
    None
}

proof fn lemma_pos_prefix_covers(f: Seq<(Seq<char>, Seq<char>)>, k: Seq<char>, n: int)
    requires
        0 <= n <= f.len(),
        key_pos(f.take(n), k) is Some,
    ensures
        key_pos(f, k) == key_pos(f.take(n), k),
    decreases f.len() - n,
{
    if n < f.len() {
        assert(f.take(n + 1).drop_last() =~= f.take(n));
        lemma_pos_prefix_covers(f, k, n + 1);
    } else {
        assert(f.take(n) =~= f);
    }
}

fn album_row(
    g: &SearchGroup,
    st: &HitAlbumAcc,
    inv: Option<&AlbumInventory>,
    covers: &Vec<(String, String)>,
) -> (r: BridgeSearchResultRow)
    ensures
        r@ == album_row_view(
            g@,
            st@,
            match inv {
                Some(v) => Some(v@),
                None => None,
            },
            field_views(covers@),
        ),
{
    let title_empty = chars_of(st.album_title.as_str()).len() == 0;
    let label_empty = chars_of(st.root_label.as_str()).len() == 0;
    let cover = match cover_pos_exec(covers, g.key.as_str()) {
        Some(i) => covers[i].1.clone(),
        None => empty_string(),
    };
    let (count, parts): (u32, Vec<u32>) = match inv {
        Some(v) => (v.main_track_count, copy_u32s(&v.main_durations)),
        None => (0, Vec::new()),
    };
    let r = BridgeSearchResultRow {
        match_detail: st.match_detail.clone(),
        row_type: BridgeSearchResultRowType::Album,
        score: g.score,
        year: choose_most_common_year(&st.year_counts),
        track_number: None,
        count,
        length_parts: parts,
        label: if title_empty { g.name.clone() } else { st.album_title.clone() },
        artist: st.artist_name.clone(),
        album: st.album_title.clone(),
        root_label: if label_empty { g.root_label.clone() } else { st.root_label.clone() },
        genre: choose_most_common_genre(&st.genre_counts),
        cover_path: cover,
        artist_key: st.artist_key.clone(),
        album_key: g.key.clone(),
        section_key: empty_string(),
        track_key: empty_string(),
        track_path: empty_string(),
    };
    assert(r@.length_parts =~= match inv {
        Some(v) => v@.main_durations,
        None => Seq::<u32>::empty(),
    });
    r
}

fn album_rows(
    groups: &Vec<SearchGroup>,
    stats: &Vec<(String, HitAlbumAcc)>,
    inv: &Vec<AlbumInventory>,
    covers: &Vec<(String, String)>,
) -> (r: Vec<BridgeSearchResultRow>)
    ensures
        row_views(r@) == album_rows_upto(
            group_views(groups@),
            stats_views(stats@),
            inventory_views(inv@),
            field_views(covers@),
            groups@.len() as int,
        ),
{
    let ghost gv = group_views(groups@);
    let mut out: Vec<BridgeSearchResultRow> = Vec::new();
    let mut i: usize = 0;
    while i < groups.len()
        invariant
            i <= groups@.len(),
            gv == group_views(groups@),
            row_views(out@) == album_rows_upto(gv, stats_views(stats@), inventory_views(inv@), field_views(covers@), i as int),
        decreases groups@.len() - i,
    {
        let g = &groups[i];
        assert(gv[i as int] == g@);
        match stats_pos_exec(stats, g.key.as_str()) {
            Some(si) => {
                let iv = match inventory_pos_exec(inv, g.key.as_str()) {
                    Some(j) => Some(&inv[j]),
                    None => None,
                };
                let row = album_row(g, &stats[si].1, iv, covers);
                let ghost before = row_views(out@);
                let ghost rv = row@;
                out.push(row);
                assert(row_views(out@) =~= before.push(rv));
            },
            None => {},
        }
        i += 1;
    }
    out
}

fn take_rows(rows: &mut Vec<BridgeSearchResultRow>, n: usize)
    ensures
        row_views(final(rows)@) == take_upto(row_views(old(rows)@), n as int),
{
    let ghost before = row_views(rows@);
    rows.truncate(n);
    proof {
        if n < before.len() {
            assert(row_views(rows@) =~= before.take(n as int));
        } else {
            assert(row_views(rows@) =~= before);
        }
    }
}

/// The rows a search shows: its artist groups as rows, its album groups
/// with stats as rows, and its track rows, each ordered by relevance and
/// cut to its limit, in that order.
pub fn finalize_search_rows(
    album_inventory: &Vec<AlbumInventory>,
    limits: &SearchResultLimits,
    album_cover_paths: &Vec<(String, String)>,
    artist_groups: Vec<SearchGroup>,
    album_groups: Vec<SearchGroup>,
    album_hit_stats: &Vec<(String, HitAlbumAcc)>,
    track_rows: Vec<BridgeSearchResultRow>,
) -> (r: Vec<BridgeSearchResultRow>)
    ensures
        row_views(r@) == final_rows(
            inventory_views(album_inventory@),
            *limits,
            field_views(album_cover_paths@),
            group_views(artist_groups@),
            group_views(album_groups@),
            stats_views(album_hit_stats@),
            row_views(track_rows@),
        ),
{
    let mut artists = sort_rows(artist_rows(&artist_groups));
    let mut albums = sort_rows(album_rows(&album_groups, album_hit_stats, album_inventory, album_cover_paths));
    let mut tracks = sort_rows(track_rows);
    take_rows(&mut artists, limits.artist);
    take_rows(&mut albums, limits.album);
    take_rows(&mut tracks, limits.track);
    let ghost (a, b, c) = (row_views(artists@), row_views(albums@), row_views(tracks@));
    let mut rows: Vec<BridgeSearchResultRow> = Vec::new();
    rows.append(&mut artists);
    rows.append(&mut albums);
    rows.append(&mut tracks);
    assert(row_views(rows@) =~= a + b + c);
    rows
}

// ---------------------------------------------------------------------------
// Limits and the results frame
// ---------------------------------------------------------------------------

/// The settings behind the row limits: up to how many characters a query
/// counts as short, and the limits for short and other queries.
#[derive(Debug, Clone, Copy)]
pub struct SearchLimitSettings {
    pub short_query_chars: usize,
    pub artist: usize,
    pub artist_short: usize,
    pub album: usize,
    pub album_short: usize,
    pub track: usize,
    pub track_short: usize,
}

impl SearchLimitSettings {
    /// The limits when nothing is configured.
    pub fn defaults() -> (r: Self)
        ensures
            r.short_query_chars == 1,
            r.artist == 5 && r.artist_short == 5,
            r.album == 10 && r.album_short == 10,
            r.track == 20 && r.track_short == 20,
    {
        SearchLimitSettings {
            short_query_chars: 1,
            artist: 5,
            artist_short: 5,
            album: 10,
            album_short: 10,
            track: 20,
            track_short: 20,
        }
    }
}

pub open spec fn clamp_spec(v: int, lo: int, hi: int) -> int {
    if v < lo {
        lo
    } else if v > hi {
        hi
    } else {
        v
    }
}

/// A configured limit: the trimmed text as a `usize`, clamped to
/// `lo..=hi`; `default` when there is no text or it is no number.
pub open spec fn limit_setting_spec(raw: Option<Seq<char>>, default: usize, lo: usize, hi: usize) -> int {
    match raw {
        Some(s) => match parse_unsigned(trim(s), usize::MAX as nat) {
            Some(v) => clamp_spec(v as int, lo as int, hi as int),
            None => default as int,
        },
        None => default as int,
    }
}

/// Reads one configured limit (see `limit_setting_spec`).
pub fn limit_setting(raw: Option<&str>, default: usize, lo: usize, hi: usize) -> (r: usize)
    requires
        lo <= hi,
    ensures
        r == limit_setting_spec(
            match raw {
                Some(s) => Some(s@),
                None => None,
            },
            default,
            lo,
            hi,
        ),
{
    match raw {
        Some(s) => match parse_usize(&trim_str(s)) {
            Some(v) => if v < lo {
                lo
            } else if v > hi {
                hi
            } else {
                v
            },
            None => default,
        },
        None => default,
    }
}

/// The limits for a query: the short ones for a query of at most
/// `short_query_chars` characters.
pub open spec fn limits_spec(query: Seq<char>, s: SearchLimitSettings) -> SearchResultLimits {
    if query.len() <= s.short_query_chars {
        SearchResultLimits { artist: s.artist_short, album: s.album_short, track: s.track_short }
    } else {
        SearchResultLimits { artist: s.artist, album: s.album, track: s.track }
    }
}

pub fn search_result_limits(query_text: &str, settings: &SearchLimitSettings) -> (r: SearchResultLimits)
    ensures
        r == limits_spec(query_text@, *settings),
{
    if chars_of(query_text).len() <= settings.short_query_chars {
        SearchResultLimits { artist: settings.artist_short, album: settings.album_short, track: settings.track_short }
    } else {
        SearchResultLimits { artist: settings.artist, album: settings.album, track: settings.track }
    }
}

/// The limits that apply: a requested limit (when not 0), clamped to
/// `20..=2000`, for every kind; else those of the query.
pub open spec fn effective_limits(query: Seq<char>, limit: u32, s: SearchLimitSettings) -> SearchResultLimits {
    if limit > 0 {
        let l = clamp_spec(limit as int, 20, 2000) as usize;
        SearchResultLimits { artist: l, album: l, track: l }
    } else {
        limits_spec(query, s)
    }
}

/// One answer to a search: its sequence number, its rows, and how many
/// artists, albums and tracks matched in all.
#[derive(Debug, Clone)]
pub struct BridgeSearchResultsFrame {
    pub seq: u32,
    pub rows: Vec<BridgeSearchResultRow>,
    pub totals: [u32; 3],
}

pub open spec fn clamp_u32_spec(n: int) -> u32 {
    if n > u32::MAX {
        u32::MAX
    } else {
        n as u32
    }
}

/// The answer owes nothing: no query text, no search term, or no roots.
pub open spec fn nothing_to_search(query: Seq<char>, roots: Seq<LibraryRoot>) -> bool {
    trim(query).len() == 0 || search_terms(trim(query)).len() == 0 || roots.len() == 0
}

/// The answer to a search for `query` in the library: when there is
/// something to search, the rows and totals that the walk over the
/// prepared tracks gives with the query parsed from the trimmed text.
pub fn build_search_results_frame(
    seq: u32,
    query: &str,
    limit: u32,
    library: &LibrarySnapshot,
    prepared: &PreparedSearchLibrary,
    settings: &SearchLimitSettings,
) -> (r: BridgeSearchResultsFrame)
    ensures
        r.seq == seq,
        nothing_to_search(query@, library.roots@) ==> r.rows@.len() == 0 && r.totals@ == seq![0u32, 0u32, 0u32],
        !nothing_to_search(query@, library.roots@) ==> exists|q: SearchQuery|
            #[trigger] q.view_terms() == query_tokens(trim(query@)).map_values(|t: Seq<char>| parse_token(t)) && {
                let w = walk_upto(library.roots@, q, prepared.tracks@, prepared.tracks@.len() as int);
                &&& row_views(r.rows@) == final_rows(
                    inventory_views(prepared.album_inventory@),
                    effective_limits(trim(query@), limit, *settings),
                    w.covers,
                    w.artists,
                    w.albums,
                    w.stats,
                    w.rows,
                )
                &&& r.totals@ == seq![clamp_u32_spec(w.artists.len() as int), clamp_u32_spec(w.albums.len() as int), w.track_count]
            },
{
    let text = string_from_chars(&trim_str(query));
    let empty = BridgeSearchResultsFrame { seq, rows: Vec::new(), totals: [0, 0, 0] };
    if chars_of(text.as_str()).len() == 0 {
        assert(empty.totals@ =~= seq![0u32, 0u32, 0u32]);
        return empty;
    }
    let terms = split_search_terms(text.as_str());
    if terms.len() == 0 {
        assert(search_terms(trim(query@)).len() == 0);
        assert(empty.totals@ =~= seq![0u32, 0u32, 0u32]);
        return empty;
    }
    assert(search_terms(trim(query@)).len() > 0);
    let mut limits = search_result_limits(text.as_str(), settings);
    if limit > 0 {
        let l: usize = if limit < 20 {
            20
        } else if limit > 2000 {
            2000
        } else {
            limit as usize
        };
        limits = SearchResultLimits { artist: l, album: l, track: l };
    }
    if library.roots.len() == 0 {
        assert(empty.totals@ =~= seq![0u32, 0u32, 0u32]);
        return empty;
    }
    let q = SearchQuery::parse(text.as_str());
    let acc = search_tracks_prepared(&q, &prepared.tracks, &library.roots);
    let SearchRowAccumulator { track_count, roots: _, album_cover_paths, artist_groups, album_groups, album_hit_stats, track_rows } = acc;
    let totals = [clamp_u32(artist_groups.len()), clamp_u32(album_groups.len()), track_count];
    let rows = finalize_search_rows(
        &prepared.album_inventory,
        &limits,
        &album_cover_paths,
        artist_groups,
        album_groups,
        &album_hit_stats,
        track_rows,
    );
    let r = BridgeSearchResultsFrame { seq, rows, totals };
    assert(r.totals@ =~= seq![totals[0], totals[1], totals[2]]);
    assert(q.view_terms() == query_tokens(trim(query@)).map_values(|t: Seq<char>| parse_token(t)));
    r
}

/// Row contents sorted by relevance: each row may come before the next.
pub open spec fn views_sorted(s: Seq<SearchRowView>) -> bool {
    forall|k: int| 0 <= k < s.len() - 1 ==> row_view_le(#[trigger] s[k], s[k + 1])
}

proof fn lemma_view_scan_pos(s: Seq<SearchRowView>, x: SearchRowView, j: int)
    requires
        0 <= j <= s.len(),
    ensures
        0 <= view_scan_pos(s, x, j) <= j,
        view_scan_pos(s, x, j) > 0 ==> row_view_le(s[view_scan_pos(s, x, j) - 1], x),
        forall|k: int| view_scan_pos(s, x, j) <= k < j ==> !row_view_le(#[trigger] s[k], x),
    decreases j,
{
    if j > 0 && !row_view_le(s[j - 1], x) {
        lemma_view_scan_pos(s, x, j - 1);
    }
}

/// The relevance sort keeps every row and puts them in order.
pub proof fn law_view_sort_sorted(s: Seq<SearchRowView>)
    ensures
        view_sort(s).len() == s.len(),
        views_sorted(view_sort(s)),
    decreases s.len(),
{
    if s.len() > 0 {
        law_view_sort_sorted(s.drop_last());
        let t = view_sort(s.drop_last());
        let x = s.last();
        let p = view_scan_pos(t, x, t.len() as int);
        lemma_view_scan_pos(t, x, t.len() as int);
        let u = t.insert(p, x);
        if p < t.len() {
            lemma_row_view_le_total(t[p], x);
        }
        assert forall|k: int| 0 <= k < u.len() - 1 implies row_view_le(#[trigger] u[k], u[k + 1]) by {
            if k < p - 1 {
                assert(u[k] == t[k] && u[k + 1] == t[k + 1]);
            } else if k == p - 1 {
                assert(u[k] == t[k] && u[k + 1] == x);
            } else if k == p {
                assert(u[k] == x && u[k + 1] == t[p]);
            } else {
                assert(u[k] == t[k - 1] && u[k + 1] == t[k]);
            }
        }
    }
}

/// The rows shown never exceed the limits: at most `limits.artist` artist
/// rows, `limits.album` album rows and `limits.track` track rows, each
/// group ordered by relevance.
pub proof fn law_rows_within_limits(
    inv: Seq<InventoryView>,
    limits: SearchResultLimits,
    covers: Seq<(Seq<char>, Seq<char>)>,
    artists: Seq<GroupView>,
    albums: Seq<GroupView>,
    stats: Seq<(Seq<char>, HitAlbumView)>,
    tracks: Seq<SearchRowView>,
)
    ensures
        ({
            let a = take_upto(view_sort(artists.map_values(|g: GroupView| artist_row_view(g))), limits.artist as int);
            let b = take_upto(view_sort(album_rows_upto(albums, stats, inv, covers, albums.len() as int)), limits.album as int);
            let c = take_upto(view_sort(tracks), limits.track as int);
            &&& final_rows(inv, limits, covers, artists, albums, stats, tracks) == a + b + c
            &&& a.len() <= limits.artist && b.len() <= limits.album && c.len() <= limits.track
            &&& views_sorted(a) && views_sorted(b) && views_sorted(c)
        }),
{
    let sa = view_sort(artists.map_values(|g: GroupView| artist_row_view(g)));
    let sb = view_sort(album_rows_upto(albums, stats, inv, covers, albums.len() as int));
    let sc = view_sort(tracks);
    law_view_sort_sorted(artists.map_values(|g: GroupView| artist_row_view(g)));
    law_view_sort_sorted(album_rows_upto(albums, stats, inv, covers, albums.len() as int));
    law_view_sort_sorted(tracks);
    lemma_take_sorted(sa, limits.artist as int);
    lemma_take_sorted(sb, limits.album as int);
    lemma_take_sorted(sc, limits.track as int);
}

proof fn lemma_take_sorted(s: Seq<SearchRowView>, n: int)
    requires
        views_sorted(s),
        n >= 0,
    ensures
        views_sorted(take_upto(s, n)),
        take_upto(s, n).len() <= n,
{
    let t = take_upto(s, n);
    assert forall|k: int| 0 <= k < t.len() - 1 implies row_view_le(#[trigger] t[k], t[k + 1]) by {
        assert(t[k] == s[k] && t[k + 1] == s[k + 1]);
    }
    if n >= s.len() {
        assert(t.len() <= n);
    }
}

} // verus!
