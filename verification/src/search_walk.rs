//! One search over the prepared tracks: every track that the query matches
//! becomes a row, and offers its score to its artist and album.
use vstd::prelude::*;

use crate::library::{LibraryRoot, LibrarySearchTrack};
use crate::match_detail::{detail_spec, hidden_match_detail};
use crate::ranking::{entity_rank, entity_score, metadata_rank, metadata_score, string_views, str_views};
use crate::search::{normalize_for_search, normalized};
use crate::search_context::{
    context_spec, derive_tree_path_context, derive_tree_path_context_for_root, pick_root,
    TreePathContext, TreePathContextView,
};
use crate::search_prepare::{
    field_views, find_root, key_pos, lemma_root_index_range, prepared_root, track_context,
    PreparedSearchTrack,
};
use crate::search_query::{extra_hit, field_hit, query_matches, term_matches_spec, SearchQuery, SearchTerm};
use crate::search_rows::{
    build_track_search_result_row, counts_below, group_views, offer_group, offer_group_exec,
    row_views, stats_pos, stats_views, track_row_spec, update_album_hit_stats, update_stats,
    BridgeSearchResultRow, GroupView, HitAlbumAcc, HitAlbumView, SearchGroup, SearchRowView,
};
use crate::text::{chars_eq, chars_of, decimal_int, push_decimal_i64, string_from_chars, trim, trim_str};

verus! {

/// What a search has gathered so far.
pub struct SearchRowAccumulator {
    pub track_count: u32,
    pub roots: Vec<LibraryRoot>,
    pub album_cover_paths: Vec<(String, String)>,
    pub artist_groups: Vec<SearchGroup>,
    pub album_groups: Vec<SearchGroup>,
    pub album_hit_stats: Vec<(String, HitAlbumAcc)>,
    pub track_rows: Vec<BridgeSearchResultRow>,
}

pub struct AccView {
    pub track_count: u32,
    pub covers: Seq<(Seq<char>, Seq<char>)>,
    pub artists: Seq<GroupView>,
    pub albums: Seq<GroupView>,
    pub stats: Seq<(Seq<char>, HitAlbumView)>,
    pub rows: Seq<SearchRowView>,
}

impl View for SearchRowAccumulator {
    type V = AccView;

    open spec fn view(&self) -> AccView {
        AccView {
            track_count: self.track_count,
            covers: field_views(self.album_cover_paths@),
            artists: group_views(self.artist_groups@),
            albums: group_views(self.album_groups@),
            stats: stats_views(self.album_hit_stats@),
            rows: row_views(self.track_rows@),
        }
    }
}

pub open spec fn empty_acc() -> AccView {
    AccView {
        track_count: 0,
        covers: Seq::empty(),
        artists: Seq::empty(),
        albums: Seq::empty(),
        stats: Seq::empty(),
        rows: Seq::empty(),
    }
}

/// The values of the terms that may name `field`.
pub open spec fn name_terms_spec(q: SearchQuery, field: Seq<char>) -> Seq<Seq<char>> {
    q.terms@.filter(|t: SearchTerm| t.key() is None || t.key() == Some(field)).map_values(
        |t: SearchTerm| t.value@,
    )
}

/// Where a hit sits: under the root its root path names, else under the
/// root that holds its path.
pub open spec fn hit_context(roots: Seq<LibraryRoot>, hit: LibrarySearchTrack) -> Option<TreePathContextView> {
    match track_context(roots, hit.path@, hit.root_path@, hit.artist@) {
        Some(c) => Some(c),
        None => match pick_root(roots, hit.path@) {
            None => None,
            Some(j) => context_spec(hit.path@, roots[j].path@, roots[j].path@, roots[j].search_label_spec(), hit.artist@),
        },
    }
}

/// The artist a row shows: the hit's own, else the tree's.
pub open spec fn hit_artist(hit: LibrarySearchTrack, c: TreePathContextView) -> Seq<char> {
    if trim(hit.artist@).len() == 0 {
        c.artist_name
    } else {
        trim(hit.artist@)
    }
}

/// The album a row shows: the hit's own, else the album folder, else
/// "Unknown Album".
pub open spec fn hit_album(hit: LibrarySearchTrack, c: TreePathContextView) -> Seq<char> {
    if trim(hit.album@).len() == 0 {
        match c.album_folder {
            Some(f) => f,
            None => "Unknown Album"@,
        }
    } else {
        trim(hit.album@)
    }
}

/// Every term matches the one field `name` holding `text`.
pub open spec fn one_field_matches(terms: Seq<SearchTerm>, name: Seq<char>, text: Seq<char>) -> bool {
    terms.len() > 0 && forall|k: int|
        0 <= k < terms.len() ==> #[trigger] terms[k].value@.len() > 0 && term_matches_spec(
            terms[k].key(),
            terms[k].value@,
            name,
            text,
        )
}

/// The fields that cannot make an album match.
pub open spec fn album_excluded() -> Seq<&'static str> {
    seq!["title", "path", "track", "disc"]
}

/// The query matches an album through a track: every term hits one of the
/// track's album-level fields, or the album's artist or name.
pub open spec fn album_query_matches(
    terms: Seq<SearchTerm>,
    fields: Seq<(String, String)>,
    artist: Seq<char>,
    album: Seq<char>,
) -> bool {
    terms.len() > 0 && forall|k: int|
        0 <= k < terms.len() ==> #[trigger] terms[k].value@.len() > 0 && (field_hit(
            terms[k],
            fields,
            album_excluded(),
        ) || term_matches_spec(terms[k].key(), terms[k].value@, "artist"@, artist) || term_matches_spec(
            terms[k].key(),
            terms[k].value@,
            "album"@,
            album,
        ))
}

/// A year as text; empty when unknown.
pub open spec fn year_text(y: Option<i32>) -> Seq<char> {
    match y {
        Some(v) => decimal_int(v as int),
        None => Seq::empty(),
    }
}

/// Sets the match detail of album `k`'s entry.
pub open spec fn set_detail(v: Seq<(Seq<char>, HitAlbumView)>, k: Seq<char>, d: Seq<char>) -> Seq<(Seq<char>, HitAlbumView)> {
    match stats_pos(v, k) {
        Some(i) => v.update(i, (v[i].0, HitAlbumView { match_detail: d, ..v[i].1 })),
        None => v,
    }
}

/// What a hit shows of itself on its album's row.
pub open spec fn album_visible(hit: LibrarySearchTrack, artist: Seq<char>, album: Seq<char>) -> Seq<(Seq<char>, Seq<char>)> {
    seq![("artist"@, artist), ("album"@, album), ("genre"@, hit.genre@), ("year"@, year_text(hit.year))]
}

/// A hit's effect on its album: only a track of the album's main listing
/// counts; when the query matches the album through it, the album gets the
/// hit's score (if better), its stats, and its match detail.
pub open spec fn album_step(
    a: AccView,
    hit: LibrarySearchTrack,
    c: TreePathContextView,
    artist: Seq<char>,
    album: Seq<char>,
    q: SearchQuery,
    fields: Seq<(String, String)>,
) -> AccView {
    if !(c.is_main_level_album_track || c.is_disc_section_album_track) {
        a
    } else {
        match c.album_key {
            None => a,
            Some(k) => if album_query_matches(q.terms@, fields, normalized(c.artist_name), normalized(album)) {
                let score = metadata_rank(
                    q,
                    fields,
                    entity_rank(
                        name_terms_spec(q, "album"@),
                        normalized(album),
                        seq![normalized(artist), normalized(c.artist_name)],
                    ),
                    false,
                );
                AccView {
                    albums: offer_group(a.albums, k, score, album, c.root_label),
                    stats: set_detail(
                        update_stats(a.stats, k, c, album, hit.year, trim(hit.genre@)),
                        k,
                        detail_spec(q, fields, album_visible(hit, artist, album)),
                    ),
                    ..a
                }
            } else {
                a
            },
        }
    }
}

/// A hit's effect on the artist groups.
pub open spec fn artist_step(a: Seq<GroupView>, c: TreePathContextView, q: SearchQuery) -> Seq<GroupView> {
    if one_field_matches(q.terms@, "artist"@, normalized(c.artist_name)) {
        offer_group(
            a,
            c.artist_key,
            entity_rank(name_terms_spec(q, "artist"@), normalized(c.artist_name), Seq::empty()),
            c.artist_name,
            c.root_label,
        )
    } else {
        a
    }
}

/// A hit's effect on the album covers: the first non-empty cover of an
/// album stays.
pub open spec fn cover_step(
    covers: Seq<(Seq<char>, Seq<char>)>,
    c: TreePathContextView,
    hit: LibrarySearchTrack,
) -> Seq<(Seq<char>, Seq<char>)> {
    match c.album_key {
        Some(k) => if hit.cover_path@.len() > 0 && key_pos(covers, k) is None {
            covers.push((k, hit.cover_path@))
        } else {
            covers
        },
        None => covers,
    }
}

/// The cover a hit's row shows: its album's, else its own.
pub open spec fn row_cover(covers: Seq<(Seq<char>, Seq<char>)>, c: TreePathContextView, hit: LibrarySearchTrack) -> Seq<char> {
    match c.album_key {
        Some(k) => match key_pos(covers, k) {
            Some(i) => covers[i].1,
            None => hit.cover_path@,
        },
        None => hit.cover_path@,
    }
}

/// A hit's effect on all that is gathered, and its row; a hit that lies
/// under no root changes nothing and has no row.
pub open spec fn hit_step(
    a: AccView,
    roots: Seq<LibraryRoot>,
    hit: LibrarySearchTrack,
    q: SearchQuery,
    fields: Seq<(String, String)>,
) -> (AccView, Option<SearchRowView>) {
    match hit_context(roots, hit) {
        None => (a, None),
        Some(c) => {
            let artist = hit_artist(hit, c);
            let album = hit_album(hit, c);
            let a1 = AccView {
                track_count: if a.track_count < u32::MAX {
                    (a.track_count + 1) as u32
                } else {
                    a.track_count
                },
                artists: artist_step(a.artists, c, q),
                ..a
            };
            let a2 = album_step(a1, hit, c, artist, album, q, fields);
            let covers = cover_step(a2.covers, c, hit);
            (AccView { covers, ..a2 }, Some(track_row_spec(hit, c, artist, album, row_cover(covers, c, hit))))
        },
    }
}

proof fn lemma_one_field(q: SearchQuery, fields: Seq<(String, String)>, name: Seq<char>, text: Seq<char>)
    requires
        fields.len() == 1,
        fields[0].0@ == name,
        fields[0].1@ == text,
    ensures
        query_matches(q.terms@, fields, Seq::empty(), Seq::empty()) == one_field_matches(q.terms@, name, text),
{
    let terms = q.terms@;
    if query_matches(terms, fields, Seq::empty(), Seq::empty()) {
        assert forall|k: int| 0 <= k < terms.len() implies #[trigger] terms[k].value@.len() > 0
            && term_matches_spec(terms[k].key(), terms[k].value@, name, text) by {
            assert(terms[k].value@.len() > 0 && (field_hit(terms[k], fields, Seq::empty()) || extra_hit(
                terms[k],
                Seq::empty(),
            )));
            if field_hit(terms[k], fields, Seq::empty()) {
                let i = choose|i: int|
                    0 <= i < fields.len() && !crate::search_query::is_excluded(Seq::empty(), fields[i].0@)
                        && #[trigger] term_matches_spec(terms[k].key(), terms[k].value@, fields[i].0@, fields[i].1@);
                assert(i == 0);
            }
        }
    }
    if one_field_matches(terms, name, text) {
        assert forall|k: int| 0 <= k < terms.len() implies #[trigger] terms[k].value@.len() > 0 && (field_hit(
            terms[k],
            fields,
            Seq::empty(),
        ) || extra_hit(terms[k], Seq::empty())) by {
            assert(terms[k].value@.len() > 0);
            assert(term_matches_spec(terms[k].key(), terms[k].value@, fields[0].0@, fields[0].1@));
            assert(!crate::search_query::is_excluded(Seq::empty(), fields[0].0@));
        }
    }
}

proof fn lemma_album_query(
    q: SearchQuery,
    fields: Seq<(String, String)>,
    excluded: Seq<&str>,
    extra: Seq<(&str, &str)>,
    artist: Seq<char>,
    album: Seq<char>,
)
    requires
        excluded == album_excluded(),
        extra.len() == 2,
        extra[0].0@ == "artist"@,
        extra[0].1@ == artist,
        extra[1].0@ == "album"@,
        extra[1].1@ == album,
    ensures
        query_matches(q.terms@, fields, excluded, extra) == album_query_matches(q.terms@, fields, artist, album),
{
    let terms = q.terms@;
    assert forall|k: int| 0 <= k < terms.len() implies extra_hit(#[trigger] terms[k], extra) == (term_matches_spec(
        terms[k].key(),
        terms[k].value@,
        "artist"@,
        artist,
    ) || term_matches_spec(terms[k].key(), terms[k].value@, "album"@, album)) by {
        let t = terms[k];
        if extra_hit(t, extra) {
            let i = choose|i: int|
                0 <= i < extra.len() && #[trigger] term_matches_spec(t.key(), t.value@, extra[i].0@, extra[i].1@);
            assert(i == 0 || i == 1);
        }
        if term_matches_spec(t.key(), t.value@, "artist"@, artist) {
            assert(term_matches_spec(t.key(), t.value@, extra[0].0@, extra[0].1@));
        }
        if term_matches_spec(t.key(), t.value@, "album"@, album) {
            assert(term_matches_spec(t.key(), t.value@, extra[1].0@, extra[1].1@));
        }
    }
}

// ---------------------------------------------------------------------------
// Executable steps
// ---------------------------------------------------------------------------

fn derive_hit_context(hit: &LibrarySearchTrack, roots: &Vec<LibraryRoot>) -> (r: Option<TreePathContext>)
    ensures
        match r {
            Some(c) => hit_context(roots@, *hit) == Some(c@),
            None => hit_context(roots@, *hit) is None,
        },
{
    proof {
        lemma_root_index_range(roots@, hit.root_path@, roots@.len() as int);
    }
    let via_root = match find_root(roots, hit.root_path.as_str()) {
        Some(j) => {
            let root = prepared_root(&roots[j]);
            derive_tree_path_context_for_root(hit.path.as_str(), &root, hit.artist.as_str())
        },
        None => None,
    };
    match via_root {
        Some(c) => Some(c),
        None => derive_tree_path_context(hit.path.as_str(), roots, hit.artist.as_str()),
    }
}

fn year_text_exec(y: Option<i32>) -> (r: String)
    ensures
        r@ == year_text(y),
{
    let mut d: Vec<char> = Vec::new();
    match y {
        Some(v) => {
            push_decimal_i64(&mut d, v as i64);
            assert(d@ =~= decimal_int(v as int));
        },
        None => {
            assert(d@ =~= Seq::<char>::empty());
        },
    }
    string_from_chars(&d)
}

fn set_detail_exec(v: &mut Vec<(String, HitAlbumAcc)>, k: &str, d: String)
    ensures
        stats_views(final(v)@) == set_detail(stats_views(old(v)@), k@, d@),
{
    let ghost sv = stats_views(v@);
    let kc = chars_of(k);
    let mut i: usize = 0;
    while i < v.len()
        invariant
            i <= v@.len(),
            kc@ == k@,
            v@ == old(v)@,
            sv == stats_views(v@),
            stats_pos(sv.take(i as int), k@) is None,
        decreases v@.len() - i,
    {
        proof {
            assert(sv.take(i + 1).drop_last() =~= sv.take(i as int));
            assert(sv.take(i + 1).last() == sv[i as int]);
        }
        if chars_eq(&chars_of(v[i].0.as_str()), &kc) {
            proof {
                lemma_stats_pos_prefix_walk(sv, k@, i + 1);
            }
            let (key, mut acc) = v.remove(i);
            acc.match_detail = d;
            let ghost item = (key@, acc@);
            v.insert(i, (key, acc));
            assert(stats_views(v@) =~= sv.update(i as int, item));
            return;
        }
        i += 1;
    }
    assert(sv.take(v@.len() as int) =~= sv);
}

proof fn lemma_stats_pos_prefix_walk(v: Seq<(Seq<char>, HitAlbumView)>, k: Seq<char>, n: int)
    requires
        0 <= n <= v.len(),
        stats_pos(v.take(n), k) is Some,
    ensures
        stats_pos(v, k) == stats_pos(v.take(n), k),
    decreases v.len() - n,
{
    if n < v.len() {
        assert(v.take(n + 1).drop_last() =~= v.take(n));
        lemma_stats_pos_prefix_walk(v, k, n + 1);
    } else {
        assert(v.take(n) =~= v);
    }
}

proof fn lemma_set_detail_keeps_counts(v: Seq<(Seq<char>, HitAlbumView)>, k: Seq<char>, d: Seq<char>, b: int)
    requires
        counts_below(v, b),
    ensures
        counts_below(set_detail(v, k, d), b),
{
    crate::search_rows::lemma_stats_pos_range_pub(v, k);
    let w = set_detail(v, k, d);
    assert forall|i: int| 0 <= i < w.len() implies crate::search_rows::entry_counts_below(#[trigger] w[i].1, b) by {
        assert(crate::search_rows::entry_counts_below(v[i].1, b));
    }
}

impl SearchRowAccumulator {
    /// Nothing gathered yet, for a search below `roots`.
    pub fn new(roots: Vec<LibraryRoot>) -> (r: Self)
        ensures
            r@ == empty_acc(),
            r.roots@ == roots@,
    {
        let r = SearchRowAccumulator {
            track_count: 0,
            roots,
            album_cover_paths: Vec::new(),
            artist_groups: Vec::new(),
            album_groups: Vec::new(),
            album_hit_stats: Vec::new(),
            track_rows: Vec::new(),
        };
        assert(r@.covers =~= Seq::<(Seq<char>, Seq<char>)>::empty());
        assert(r@.artists =~= Seq::<GroupView>::empty());
        assert(r@.albums =~= Seq::<GroupView>::empty());
        assert(r@.stats =~= Seq::<(Seq<char>, HitAlbumView)>::empty());
        assert(r@.rows =~= Seq::<SearchRowView>::empty());
        r
    }

    /// A hit's effect on its album (see `album_step`).
    pub fn push_album(
        &mut self,
        hit: &LibrarySearchTrack,
        context: &TreePathContext,
        hit_artist: &str,
        hit_album: &str,
        query: &SearchQuery,
        fields: &Vec<(String, String)>,
        bound: Ghost<int>,
    )
        requires
            counts_below(old(self)@.stats, bound@),
            0 <= bound@ < usize::MAX,
        ensures
            final(self)@ == album_step(old(self)@, *hit, context@, hit_artist@, hit_album@, *query, fields@),
            final(self).roots@ == old(self).roots@,
            counts_below(final(self)@.stats, bound@ + 1),
    {
        proof {
            crate::search_rows::lemma_counts_below_weaken(self@.stats, bound@);
        }
        if !context.is_main_level_album_track && !context.is_disc_section_album_track {
            return;
        }
        let key = match &context.album_key {
            Some(k) => k,
            None => return,
        };
        let context_artist = normalize_for_search(context.artist_name.as_str());
        let album_name = normalize_for_search(hit_album);
        let mut excluded: Vec<&str> = Vec::new();
        excluded.push("title");
        excluded.push("path");
        excluded.push("track");
        excluded.push("disc");
        assert(excluded@ =~= album_excluded());
        let mut extra: Vec<(&str, &str)> = Vec::new();
        extra.push(("artist", context_artist.as_str()));
        extra.push(("album", album_name.as_str()));
        proof {
            lemma_album_query(*query, fields@, excluded@, extra@, normalized(context.artist_name@), normalized(hit_album@));
        }
        if !query.matches_with(fields, &excluded, &extra) {
            return;
        }
        let terms = query.name_terms("album");
        let mut secondary: Vec<&str> = Vec::new();
        let na = normalize_for_search(hit_artist);
        secondary.push(na.as_str());
        secondary.push(context_artist.as_str());
        assert(str_views(secondary@) =~= seq![normalized(hit_artist@), normalized(context.artist_name@)]);
        let base = entity_score(&terms, album_name.as_str(), &secondary);
        let score = metadata_score(query, fields, base, false);
        offer_group_exec(&mut self.album_groups, key.as_str(), score, hit_album, context.root_label.as_str());
        let genre = string_from_chars(&trim_str(hit.genre.as_str()));
        update_album_hit_stats(&mut self.album_hit_stats, key.as_str(), context, hit_album, hit.year, genre.as_str(), bound);
        let year = year_text_exec(hit.year);
        let mut visible: Vec<(&str, &str)> = Vec::new();
        visible.push(("artist", hit_artist));
        visible.push(("album", hit_album));
        visible.push(("genre", hit.genre.as_str()));
        visible.push(("year", year.as_str()));
        assert(crate::match_detail::pair_views(visible@) =~= album_visible(*hit, hit_artist@, hit_album@));
        let detail = hidden_match_detail(query, fields, &visible);
        let ghost before = stats_views(self.album_hit_stats@);
        set_detail_exec(&mut self.album_hit_stats, key.as_str(), detail);
        proof {
            lemma_set_detail_keeps_counts(before, key@, detail_spec(*query, fields@, album_visible(*hit, hit_artist@, hit_album@)), bound@ + 1);
        }
    }
}

fn cover_pos_exec(covers: &Vec<(String, String)>, k: &str) -> (r: Option<usize>)
    ensures
        match r {
            Some(i) => i < covers@.len() && key_pos(field_views(covers@), k@) == Some(i as int),
            None => key_pos(field_views(covers@), k@) is None,
        },
{
    let kc = chars_of(k);
    let ghost fv = field_views(covers@);
    let mut i: usize = 0;
    while i < covers.len()
        invariant
            i <= covers@.len(),
            kc@ == k@,
            fv == field_views(covers@),
            key_pos(fv.take(i as int), k@) is None,
        decreases covers@.len() - i,
    {
        proof {
            assert(fv.take(i + 1).drop_last() =~= fv.take(i as int));
            assert(fv.take(i + 1).last() == fv[i as int]);
        }
        if chars_eq(&chars_of(covers[i].0.as_str()), &kc) {
            proof {
                lemma_key_pos_prefix_walk(fv, k@, i + 1);
            }
            return Some(i);
        }
        i += 1;
    }
    assert(fv.take(covers@.len() as int) =~= fv);
    None
}

proof fn lemma_key_pos_prefix_walk(f: Seq<(Seq<char>, Seq<char>)>, k: Seq<char>, n: int)
    requires
        0 <= n <= f.len(),
        key_pos(f.take(n), k) is Some,
    ensures
        key_pos(f, k) == key_pos(f.take(n), k),
    decreases f.len() - n,
{
    if n < f.len() {
        assert(f.take(n + 1).drop_last() =~= f.take(n));
        lemma_key_pos_prefix_walk(f, k, n + 1);
    } else {
        assert(f.take(n) =~= f);
    }
}

proof fn lemma_key_pos_range_walk(f: Seq<(Seq<char>, Seq<char>)>, k: Seq<char>)
    ensures
        match key_pos(f, k) {
            Some(i) => 0 <= i < f.len() && f[i].0 == k,
            None => true,
        },
    decreases f.len(),
{
    if f.len() > 0 {
        lemma_key_pos_range_walk(f.drop_last(), k);
    }
}

impl SearchRowAccumulator {
    /// A hit's effect on all that is gathered, and its row (see `hit_step`).
    pub fn push_hit(
        &mut self,
        hit: &LibrarySearchTrack,
        query: &SearchQuery,
        fields: &Vec<(String, String)>,
        bound: Ghost<int>,
    ) -> (r: Option<BridgeSearchResultRow>)
        requires
            counts_below(old(self)@.stats, bound@),
            0 <= bound@ < usize::MAX,
        ensures
            (final(self)@, match r {
                Some(row) => Some(row@),
                None => None,
            }) == hit_step(old(self)@, old(self).roots@, *hit, *query, fields@),
            final(self).roots@ == old(self).roots@,
            counts_below(final(self)@.stats, bound@ + 1),
    {
        proof {
            crate::search_rows::lemma_counts_below_weaken(self@.stats, bound@);
        }
        let context = match derive_hit_context(hit, &self.roots) {
            Some(c) => c,
            None => return None,
        };
        let ghost a0 = self@;
        self.track_count = if self.track_count < u32::MAX { self.track_count + 1 } else { self.track_count };
        let t_artist = trim_str(hit.artist.as_str());
        let artist = if t_artist.len() == 0 { context.artist_name.clone() } else { string_from_chars(&t_artist) };
        let t_album = trim_str(hit.album.as_str());
        let album = if t_album.len() == 0 {
            match &context.album_folder {
                Some(f) => f.clone(),
                None => string_from_chars(&chars_of("Unknown Album")),
            }
        } else {
            string_from_chars(&t_album)
        };
        assert(artist@ == hit_artist(*hit, context@));
        assert(album@ == hit_album(*hit, context@));
        let artist_text = normalize_for_search(context.artist_name.as_str());
        let mut artist_fields: Vec<(String, String)> = Vec::new();
        artist_fields.push((string_from_chars(&chars_of("artist")), string_from_chars(&chars_of(artist_text.as_str()))));
        proof {
            lemma_one_field(*query, artist_fields@, "artist"@, normalized(context.artist_name@));
        }
        if query.matches(&artist_fields) {
            let terms = query.name_terms("artist");
            let none: Vec<&str> = Vec::new();
            assert(str_views(none@) =~= Seq::<Seq<char>>::empty());
            let score = entity_score(&terms, artist_text.as_str(), &none);
            offer_group_exec(
                &mut self.artist_groups,
                context.artist_key.as_str(),
                score,
                context.artist_name.as_str(),
                context.root_label.as_str(),
            );
        }
        assert(self@ == AccView {
            track_count: if a0.track_count < u32::MAX { (a0.track_count + 1) as u32 } else { a0.track_count },
            artists: artist_step(a0.artists, context@, *query),
            ..a0
        });
        self.push_album(hit, &context, artist.as_str(), album.as_str(), query, fields, bound);
        let ghost a2 = self@;
        let cover: String = match &context.album_key {
            Some(k) => {
                proof {
                    lemma_key_pos_range_walk(a2.covers, k@);
                }
                let pos = cover_pos_exec(&self.album_cover_paths, k.as_str());
                if chars_of(hit.cover_path.as_str()).len() > 0 && pos.is_none() {
                    let ghost c0 = field_views(self.album_cover_paths@);
                    self.album_cover_paths.push((k.clone(), hit.cover_path.clone()));
                    assert(field_views(self.album_cover_paths@) =~= c0.push((k@, hit.cover_path@)));
                }
                assert(field_views(self.album_cover_paths@) == cover_step(a2.covers, context@, *hit));
                proof {
                    lemma_key_pos_range_walk(field_views(self.album_cover_paths@), k@);
                }
                match cover_pos_exec(&self.album_cover_paths, k.as_str()) {
                    Some(i) => self.album_cover_paths[i].1.clone(),
                    None => hit.cover_path.clone(),
                }
            },
            None => hit.cover_path.clone(),
        };
        assert(cover@ == row_cover(cover_step(a2.covers, context@, *hit), context@, *hit));
        let row = build_track_search_result_row(hit, &context, artist.as_str(), album.as_str(), cover.as_str());
        Some(row)
    }
}

/// The track that a prepared track gives to the walk, with its score.
pub open spec fn hit_of(t: PreparedSearchTrack, score: u8) -> LibrarySearchTrack {
    LibrarySearchTrack {
        path: t.path,
        root_path: t.root_path,
        title: t.title,
        artist: t.artist,
        album: t.album,
        cover_path: t.cover_path,
        genre: t.genre,
        year: t.year,
        track_no: t.track_no,
        duration_bits: t.duration_bits,
        score,
    }
}

/// A prepared track's score: by its title, with its artist and album in
/// support, else by its metadata.
pub open spec fn track_score(q: SearchQuery, t: PreparedSearchTrack) -> u8 {
    metadata_rank(
        q,
        t.fields@,
        entity_rank(name_terms_spec(q, "title"@), t.title_l@, seq![t.artist_l@, t.album_l@]),
        true,
    )
}

/// What a track row shows of itself.
pub open spec fn track_visible(hit: LibrarySearchTrack) -> Seq<(Seq<char>, Seq<char>)> {
    seq![
        ("title"@, hit.title@),
        ("artist"@, hit.artist@),
        ("album"@, hit.album@),
        ("genre"@, hit.genre@),
        ("year"@, year_text(hit.year)),
    ]
}

/// One prepared track's effect on the walk: a track the query does not
/// match changes nothing; a matching one is pushed, and its row (with its
/// match detail) is kept.
pub open spec fn walk_step(a: AccView, roots: Seq<LibraryRoot>, q: SearchQuery, t: PreparedSearchTrack) -> AccView {
    if !query_matches(q.terms@, t.fields@, Seq::empty(), Seq::empty()) {
        a
    } else {
        let hit = hit_of(t, track_score(q, t));
        let (a1, row) = hit_step(a, roots, hit, q, t.fields@);
        match row {
            None => a1,
            Some(r) => AccView {
                rows: a1.rows.push(SearchRowView { match_detail: detail_spec(q, t.fields@, track_visible(hit)), ..r }),
                ..a1
            },
        }
    }
}

/// The walk over the first `n` tracks.
pub open spec fn walk_upto(roots: Seq<LibraryRoot>, q: SearchQuery, tracks: Seq<PreparedSearchTrack>, n: int) -> AccView
    decreases n,
{
    if n <= 0 {
        empty_acc()
    } else {
        walk_step(walk_upto(roots, q, tracks, n - 1), roots, q, tracks[n - 1])
    }
}

/// A copy of the roots.
pub fn copy_roots(roots: &Vec<LibraryRoot>) -> (r: Vec<LibraryRoot>)
    ensures
        r@ == roots@,
{
    let mut out: Vec<LibraryRoot> = Vec::new();
    let mut i: usize = 0;
    while i < roots.len()
        invariant
            i <= roots@.len(),
            out@ == roots@.take(i as int),
        decreases roots@.len() - i,
    {
        out.push(LibraryRoot { path: roots[i].path.clone(), name: roots[i].name.clone() });
        i += 1;
        assert(out@ =~= roots@.take(i as int));
    }
    assert(roots@.take(roots@.len() as int) =~= roots@);
    out
}

fn hit_from(t: &PreparedSearchTrack, score: u8) -> (r: LibrarySearchTrack)
    ensures
        r == hit_of(*t, score),
{
    LibrarySearchTrack {
        path: t.path.clone(),
        root_path: t.root_path.clone(),
        title: t.title.clone(),
        artist: t.artist.clone(),
        album: t.album.clone(),
        cover_path: t.cover_path.clone(),
        genre: t.genre.clone(),
        year: t.year,
        track_no: t.track_no,
        duration_bits: t.duration_bits,
        score,
    }
}

/// A search that has walked no track yet, below `roots`.
pub fn start_search(roots: &Vec<LibraryRoot>) -> (acc: SearchRowAccumulator)
    ensures
        acc@ == empty_acc(),
        acc.roots@ == roots@,
        counts_below(acc@.stats, 0),
{
    SearchRowAccumulator::new(copy_roots(roots))
}

/// Walks on from track `from` up to track `to` (so that a caller can look
/// for a newer query between stretches, and give up the search for it).
pub fn continue_search(
    acc: &mut SearchRowAccumulator,
    query: &SearchQuery,
    tracks: &Vec<PreparedSearchTrack>,
    from: usize,
    to: usize,
)
    requires
        from <= to <= tracks@.len(),
        old(acc)@ == walk_upto(old(acc).roots@, *query, tracks@, from as int),
        counts_below(old(acc)@.stats, from as int),
    ensures
        final(acc)@ == walk_upto(old(acc).roots@, *query, tracks@, to as int),
        final(acc).roots@ == old(acc).roots@,
        counts_below(final(acc)@.stats, to as int),
{
    let ghost roots = acc.roots@;
    let terms = query.name_terms("title");
    let mut i: usize = from;
    while i < to
        invariant
            from <= i <= to,
            to <= tracks@.len(),
            acc.roots@ == roots,
            acc@ == walk_upto(roots, *query, tracks@, i as int),
            counts_below(acc@.stats, i as int),
            string_views(terms@) == name_terms_spec(*query, "title"@),
        decreases to - i,
    {
        let t = &tracks[i];
        if query.matches(&t.fields) {
            let mut secondary: Vec<&str> = Vec::new();
            secondary.push(t.artist_l.as_str());
            secondary.push(t.album_l.as_str());
            assert(str_views(secondary@) =~= seq![t.artist_l@, t.album_l@]);
            let base = entity_score(&terms, t.title_l.as_str(), &secondary);
            let score = metadata_score(query, &t.fields, base, true);
            let hit = hit_from(t, score);
            let pushed = acc.push_hit(&hit, query, &t.fields, Ghost(i as int));
            match pushed {
                Some(mut row) => {
                    let year = year_text_exec(hit.year);
                    let mut visible: Vec<(&str, &str)> = Vec::new();
                    visible.push(("title", hit.title.as_str()));
                    visible.push(("artist", hit.artist.as_str()));
                    visible.push(("album", hit.album.as_str()));
                    visible.push(("genre", hit.genre.as_str()));
                    visible.push(("year", year.as_str()));
                    assert(crate::match_detail::pair_views(visible@) =~= track_visible(hit));
                    row.match_detail = hidden_match_detail(query, &t.fields, &visible);
                    let ghost before = row_views(acc.track_rows@);
                    let ghost rv = row@;
                    acc.track_rows.push(row);
                    assert(row_views(acc.track_rows@) =~= before.push(rv));
                },
                None => {},
            }
        } else {
            proof {
                crate::search_rows::lemma_counts_below_weaken(acc@.stats, i as int);
            }
        }
        i += 1;
    }
}

/// Walks every prepared track for `query` below `roots`: the rows of all
/// matching tracks (with their match details), the best score of each
/// artist and album, and what the hits say of each album.
pub fn search_tracks_prepared(
    query: &SearchQuery,
    tracks: &Vec<PreparedSearchTrack>,
    roots: &Vec<LibraryRoot>,
) -> (r: SearchRowAccumulator)
    ensures
        r@ == walk_upto(roots@, *query, tracks@, tracks@.len() as int),
        r.roots@ == roots@,
{
    let mut acc = start_search(roots);
    continue_search(&mut acc, query, tracks, 0, tracks.len());
    acc
}

} // verus!
