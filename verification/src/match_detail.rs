//! The "why did this match" line of a search result: for each query term
//! that no visible column explains, the first metadata field it hit.
use vstd::prelude::*;

use crate::search::{normalize_for_search, normalized};
use crate::search_query::{term_matches_spec, SearchQuery, SearchTerm};
use crate::text::{append_chars, chars_eq, chars_of, push_str, string_from_chars};

verus! {

/// The number of fields looked at, in order of priority.
pub const PRIORITY_FIELDS: usize = 17;

/// The field names in the order they are looked at.
pub open spec fn priority_spec(i: int) -> Seq<char> {
    if i == 0 {
        "title"@
    } else if i == 1 {
        "artist"@
    } else if i == 2 {
        "album"@
    } else if i == 3 {
        "albumartist"@
    } else if i == 4 {
        "genre"@
    } else if i == 5 {
        "year"@
    } else if i == 6 {
        "date"@
    } else if i == 7 {
        "composer"@
    } else if i == 8 {
        "conductor"@
    } else if i == 9 {
        "performer"@
    } else if i == 10 {
        "label"@
    } else if i == 11 {
        "comment"@
    } else if i == 12 {
        "lyrics"@
    } else if i == 13 {
        "track"@
    } else if i == 14 {
        "disc"@
    } else if i == 15 {
        "path"@
    } else {
        "root"@
    }
}

/// How the `i`-th field is named in the detail line.
pub open spec fn label_spec(i: int) -> Seq<char> {
    if i == 0 {
        "Title"@
    } else if i == 1 {
        "Artist"@
    } else if i == 3 {
        "Album artist"@
    } else if i == 6 {
        "Date"@
    } else if i == 7 {
        "Composer"@
    } else if i == 8 {
        "Conductor"@
    } else if i == 9 {
        "Performer"@
    } else if i == 10 {
        "Label"@
    } else if i == 11 {
        "Comment"@
    } else if i == 12 {
        "Lyrics"@
    } else if i == 13 {
        "Track number"@
    } else if i == 14 {
        "Disc"@
    } else if i == 15 {
        "Path"@
    } else if i == 16 {
        "Library"@
    } else {
        priority_spec(i)
    }
}

fn priority_field(i: usize) -> (r: &'static str)
    requires
        i < PRIORITY_FIELDS,
    ensures
        r@ == priority_spec(i as int),
{
    if i == 0 {
        "title"
    } else if i == 1 {
        "artist"
    } else if i == 2 {
        "album"
    } else if i == 3 {
        "albumartist"
    } else if i == 4 {
        "genre"
    } else if i == 5 {
        "year"
    } else if i == 6 {
        "date"
    } else if i == 7 {
        "composer"
    } else if i == 8 {
        "conductor"
    } else if i == 9 {
        "performer"
    } else if i == 10 {
        "label"
    } else if i == 11 {
        "comment"
    } else if i == 12 {
        "lyrics"
    } else if i == 13 {
        "track"
    } else if i == 14 {
        "disc"
    } else if i == 15 {
        "path"
    } else {
        "root"
    }
}

fn field_label(i: usize) -> (r: &'static str)
    requires
        i < PRIORITY_FIELDS,
    ensures
        r@ == label_spec(i as int),
{
    if i == 0 {
        "Title"
    } else if i == 1 {
        "Artist"
    } else if i == 3 {
        "Album artist"
    } else if i == 6 {
        "Date"
    } else if i == 7 {
        "Composer"
    } else if i == 8 {
        "Conductor"
    } else if i == 9 {
        "Performer"
    } else if i == 10 {
        "Label"
    } else if i == 11 {
        "Comment"
    } else if i == 12 {
        "Lyrics"
    } else if i == 13 {
        "Track number"
    } else if i == 14 {
        "Disc"
    } else if i == 15 {
        "Path"
    } else if i == 16 {
        "Library"
    } else {
        priority_field(i)
    }
}

/// The value stored under `key`: the first entry with that name.
pub open spec fn lookup(fields: Seq<(String, String)>, key: Seq<char>) -> Option<Seq<char>>
    decreases fields.len(),
{
    if fields.len() == 0 {
        None
    } else if fields[0].0@ == key {
        Some(fields[0].1@)
    } else {
        lookup(fields.drop_first(), key)
    }
}

/// The term matches the `k`-th priority field of the track.
pub open spec fn hits_field(t: SearchTerm, fields: Seq<(String, String)>, k: int) -> bool {
    match lookup(fields, priority_spec(k)) {
        Some(v) => term_matches_spec(t.key(), t.value@, priority_spec(k), v),
        None => false,
    }
}

/// The first priority field, from the `i`-th on, that the term matches.
pub open spec fn first_hit_from(t: SearchTerm, fields: Seq<(String, String)>, i: int) -> Option<int>
    decreases PRIORITY_FIELDS - i,
{
    if i < 0 || i >= PRIORITY_FIELDS {
        None
    } else if hits_field(t, fields, i) {
        Some(i)
    } else {
        first_hit_from(t, fields, i + 1)
    }
}

/// At most the first 80 characters.
pub open spec fn first_80(s: Seq<char>) -> Seq<char> {
    if s.len() <= 80 {
        s
    } else {
        s.take(80)
    }
}

/// One reason: the field's label, a colon, and the term's text.
pub open spec fn reason_spec(k: int, t: SearchTerm) -> Seq<char> {
    label_spec(k) + ": "@ + first_80(t.value@)
}

/// A visible column already shows why the term matched.
pub open spec fn visible_hit(t: SearchTerm, visible: Seq<(Seq<char>, Seq<char>)>) -> bool {
    exists|i: int|
        0 <= i < visible.len() && #[trigger] term_matches_spec(
            t.key(),
            t.value@,
            visible[i].0,
            normalized(visible[i].1),
        )
}

pub open spec fn pair_views(v: Seq<(&str, &str)>) -> Seq<(Seq<char>, Seq<char>)> {
    v.map_values(|p: (&str, &str)| (p.0@, p.1@))
}

/// The reasons gathered from the first `n` terms: a term that a visible
/// column explains, or that hits no field, adds nothing; a reason already
/// given is not repeated; after three reasons the rest is not looked at.
pub open spec fn reasons_upto(
    terms: Seq<SearchTerm>,
    fields: Seq<(String, String)>,
    visible: Seq<(Seq<char>, Seq<char>)>,
    n: int,
) -> Seq<Seq<char>>
    decreases n,
{
    if n <= 0 {
        Seq::empty()
    } else {
        let prev = reasons_upto(terms, fields, visible, n - 1);
        let t = terms[n - 1];
        if prev.len() >= 3 || visible_hit(t, visible) {
            prev
        } else {
            match first_hit_from(t, fields, 0) {
                None => prev,
                Some(k) => if prev.contains(reason_spec(k, t)) {
                    prev
                } else {
                    prev.push(reason_spec(k, t))
                },
            }
        }
    }
}

/// Texts joined by `sep`.
pub open spec fn join_with(parts: Seq<Seq<char>>, sep: Seq<char>) -> Seq<char>
    decreases parts.len(),
{
    if parts.len() == 0 {
        Seq::empty()
    } else if parts.len() == 1 {
        parts[0]
    } else {
        join_with(parts.drop_last(), sep) + sep + parts.last()
    }
}

/// The detail line: the reasons joined by " · ".
pub open spec fn detail_spec(
    query: SearchQuery,
    fields: Seq<(String, String)>,
    visible: Seq<(Seq<char>, Seq<char>)>,
) -> Seq<char> {
    join_with(reasons_upto(query.terms@, fields, visible, query.terms@.len() as int), " · "@)
}

fn lookup_exec(fields: &Vec<(String, String)>, key: &str) -> (r: Option<usize>)
    ensures
        match r {
            Some(i) => i < fields@.len() && lookup(fields@, key@) == Some(fields@[i as int].1@),
            None => lookup(fields@, key@) is None,
        },
{
    let k = chars_of(key);
    let mut i: usize = 0;
    assert(fields@.skip(0) =~= fields@);
    while i < fields.len()
        invariant
            i <= fields@.len(),
            k@ == key@,
            lookup(fields@.skip(i as int), key@) == lookup(fields@, key@),
        decreases fields@.len() - i,
    {
        let name = chars_of(fields[i].0.as_str());
        assert(fields@.skip(i as int)[0] == fields@[i as int]);
        assert(fields@.skip(i as int).drop_first() =~= fields@.skip(i + 1));
        if chars_eq(&name, &k) {
            return Some(i);
        }
        i += 1;
    }
    assert(fields@.skip(i as int).len() == 0);
    None
}

fn first_hit(t: &SearchTerm, fields: &Vec<(String, String)>) -> (r: Option<usize>)
    ensures
        match r {
            Some(k) => k < PRIORITY_FIELDS && first_hit_from(*t, fields@, 0) == Some(k as int),
            None => first_hit_from(*t, fields@, 0) is None,
        },
{
    let mut i: usize = 0;
    while i < PRIORITY_FIELDS
        invariant
            i <= PRIORITY_FIELDS,
            first_hit_from(*t, fields@, i as int) == first_hit_from(*t, fields@, 0),
        decreases PRIORITY_FIELDS - i,
    {
        let f = priority_field(i);
        let hit = match lookup_exec(fields, f) {
            Some(j) => t.matches(f, fields[j].1.as_str()),
            None => false,
        };
        assert(hit == hits_field(*t, fields@, i as int));
        if hit {
            return Some(i);
        }
        i += 1;
    }
    None
}

fn visible_hit_exec(t: &SearchTerm, visible: &Vec<(&str, &str)>) -> (r: bool)
    ensures
        r == visible_hit(*t, pair_views(visible@)),
{
    let ghost pv = pair_views(visible@);
    let mut i: usize = 0;
    while i < visible.len()
        invariant
            i <= visible@.len(),
            pv == pair_views(visible@),
            forall|j: int|
                0 <= j < i ==> !#[trigger] term_matches_spec(
                    t.key(),
                    t.value@,
                    pv[j].0,
                    normalized(pv[j].1),
                ),
        decreases visible@.len() - i,
    {
        let (key, value) = visible[i];
        let n = normalize_for_search(value);
        if t.matches(key, n.as_str()) {
            assert(term_matches_spec(t.key(), t.value@, pv[i as int].0, normalized(pv[i as int].1)));
            return true;
        }
        i += 1;
    }
    false
}

fn reason_exec(k: usize, t: &SearchTerm) -> (r: Vec<char>)
    requires
        k < PRIORITY_FIELDS,
    ensures
        r@ == reason_spec(k as int, *t),
{
    let mut out: Vec<char> = Vec::new();
    push_str(&mut out, field_label(k));
    push_str(&mut out, ": ");
    let v = chars_of(t.value.as_str());
    let mut i: usize = 0;
    while i < v.len() && i < 80
        invariant
            i <= v@.len(),
            i <= 80,
            out@ == label_spec(k as int) + ": "@ + v@.take(i as int),
        decreases v@.len() - i,
    {
        out.push(v[i]);
        i += 1;
        assert(out@ =~= label_spec(k as int) + ": "@ + v@.take(i as int));
    }
    assert(v@.take(i as int) =~= first_80(t.value@));
    out
}

fn contains_text(parts: &Vec<Vec<char>>, x: &Vec<char>) -> (r: bool)
    ensures
        r == parts@.map_values(|p: Vec<char>| p@).contains(x@),
{
    let ghost pv = parts@.map_values(|p: Vec<char>| p@);
    let mut i: usize = 0;
    while i < parts.len()
        invariant
            i <= parts@.len(),
            pv == parts@.map_values(|p: Vec<char>| p@),
            forall|j: int| 0 <= j < i ==> pv[j] != x@,
        decreases parts@.len() - i,
    {
        if chars_eq(&parts[i], x) {
            assert(pv[i as int] == x@);
            return true;
        }
        i += 1;
    }
    false
}

/// Explains, for the terms that the visible columns do not, which field of
/// the track they matched: at most three distinct reasons, joined by " · ".
pub fn hidden_match_detail(
    query: &SearchQuery,
    fields: &Vec<(String, String)>,
    visible: &Vec<(&str, &str)>,
) -> (r: String)
    ensures
        r@ == detail_spec(*query, fields@, pair_views(visible@)),
{
    let ghost terms = query.terms@;
    let mut reasons: Vec<Vec<char>> = Vec::new();
    let mut n: usize = 0;
    while n < query.terms.len() && reasons.len() < 3
        invariant
            n <= terms.len(),
            terms == query.terms@,
            reasons@.map_values(|p: Vec<char>| p@) == reasons_upto(terms, fields@, pair_views(visible@), n as int),
            reasons@.len() <= 3,
        decreases terms.len() - n,
    {
        let t = &query.terms[n];
        let ghost prev = reasons@.map_values(|p: Vec<char>| p@);
        if !visible_hit_exec(t, visible) {
            match first_hit(t, fields) {
                Some(k) => {
                    let reason = reason_exec(k, t);
                    if !contains_text(&reasons, &reason) {
                        let ghost rv = reason@;
                        reasons.push(reason);
                        assert(reasons@.map_values(|p: Vec<char>| p@) =~= prev.push(rv));
                    }
                },
                None => {},
            }
        }
        assert(reasons@.map_values(|p: Vec<char>| p@) == reasons_upto(terms, fields@, pair_views(visible@), n + 1));
        n += 1;
    }
    proof {
        lemma_reasons_stay(terms, fields@, pair_views(visible@), n as int);
    }
    let mut out: Vec<char> = Vec::new();
    let ghost rv = reasons@.map_values(|p: Vec<char>| p@);
    let mut i: usize = 0;
    assert(rv.take(0) =~= Seq::<Seq<char>>::empty());
    while i < reasons.len()
        invariant
            i <= reasons@.len(),
            rv == reasons@.map_values(|p: Vec<char>| p@),
            out@ == join_with(rv.take(i as int), " · "@),
        decreases reasons@.len() - i,
    {
        if i > 0 {
            push_str(&mut out, " · ");
        }
        append_chars(&mut out, &reasons[i]);
        proof {
            let s = rv.take(i + 1);
            assert(s.drop_last() =~= rv.take(i as int));
            assert(s.last() == rv[i as int]);
            if i == 0 {
                assert(s =~= seq![rv[0]]);
            }
        }
        assert(out@ =~= join_with(rv.take(i + 1), " · "@));
        i += 1;
    }
    assert(rv.take(reasons@.len() as int) =~= rv);
    string_from_chars(&out)
}

/// Once three reasons are gathered, or all terms are seen, the later terms
/// change nothing.
proof fn lemma_reasons_stay(
    terms: Seq<SearchTerm>,
    fields: Seq<(String, String)>,
    visible: Seq<(Seq<char>, Seq<char>)>,
    n: int,
)
    requires
        0 <= n <= terms.len(),
        n == terms.len() || reasons_upto(terms, fields, visible, n).len() >= 3,
    ensures
        reasons_upto(terms, fields, visible, terms.len() as int) == reasons_upto(terms, fields, visible, n),
    decreases terms.len() - n,
{
    if n < terms.len() {
        lemma_reasons_stay(terms, fields, visible, n + 1);
    }
}

} // verus!
