//! How search ranks a matched artist, album or track: first by how its own
//! name meets the query, then by which of its metadata fields matched.
//!
//! Scores are counted in half points (the smaller, the better): 0 for an
//! exact name, 2 for a name that starts with the query, 4 for a word of the
//! name that starts with it, 6 for the query inside the name, 7 when every
//! term is in the name, 8 when every term is in the name or a secondary
//! field, 10 otherwise; metadata matches then give 10, 12 or 14.
use vstd::prelude::*;

use crate::fuzzy::join_words;
use crate::search_query::{query_matches, SearchQuery};
use crate::text::{chars_eq, chars_of, contains_chars, contains_seq, has_prefix, matches_at, starts_with};

verus! {

/// What `char::is_alphanumeric` says of a character (Unicode Alphabetic or
/// Numeric).
pub uninterp spec fn alphanumeric(c: char) -> bool;

/// `char::is_alphanumeric`; the contract only names its result.
#[verifier::external_body]
fn is_alphanumeric(c: char) -> (r: bool)
    ensures
        r == alphanumeric(c),
{
    c.is_alphanumeric()
}

/// `phrase` stands in `name` at position `k`.
pub open spec fn occurs_at(name: Seq<char>, phrase: Seq<char>, k: int) -> bool {
    0 <= k && k + phrase.len() <= name.len() && name.subrange(k, k + phrase.len()) == phrase
}

/// Looking through the non-overlapping occurrences of a non-empty `phrase`
/// in `name` from position `i`, left to right (as `str::match_indices`
/// yields them), one starts a word: it is at the start of `name` or follows
/// a character that is not alphanumeric.
pub open spec fn word_match_from(name: Seq<char>, phrase: Seq<char>, i: int) -> bool
    decreases name.len() - i,
{
    if i < 0 || phrase.len() == 0 || i + phrase.len() > name.len() {
        false
    } else if occurs_at(name, phrase, i) {
        if i == 0 || !alphanumeric(name[i - 1]) {
            true
        } else {
            word_match_from(name, phrase, i + phrase.len())
        }
    } else {
        word_match_from(name, phrase, i + 1)
    }
}

/// Every term is somewhere in `name`.
pub open spec fn all_terms_in(terms: Seq<Seq<char>>, name: Seq<char>) -> bool {
    forall|i: int| 0 <= i < terms.len() ==> contains_seq(name, #[trigger] terms[i])
}

/// `term` is in one of the secondary fields.
pub open spec fn in_secondary(secondary: Seq<Seq<char>>, term: Seq<char>) -> bool {
    exists|j: int| 0 <= j < secondary.len() && contains_seq(#[trigger] secondary[j], term)
}

/// Every term is in `name` or in a secondary field.
pub open spec fn all_terms_in_any(terms: Seq<Seq<char>>, name: Seq<char>, secondary: Seq<Seq<char>>) -> bool {
    forall|i: int|
        0 <= i < terms.len() ==> contains_seq(name, #[trigger] terms[i]) || in_secondary(
            secondary,
            terms[i],
        )
}

/// The score, in half points, of an entity named `name` for the query
/// terms, with its supporting fields in `secondary`.
pub open spec fn entity_rank(terms: Seq<Seq<char>>, name: Seq<char>, secondary: Seq<Seq<char>>) -> u8 {
    let phrase = join_words(terms);
    if terms.len() == 0 {
        10
    } else if name == phrase {
        0
    } else if has_prefix(name, phrase) {
        2
    } else if word_match_from(name, phrase, 0) {
        4
    } else if contains_seq(name, phrase) {
        6
    } else if all_terms_in(terms, name) {
        7
    } else if all_terms_in_any(terms, name, secondary) {
        8
    } else {
        10
    }
}

pub open spec fn string_views(v: Seq<String>) -> Seq<Seq<char>> {
    v.map_values(|s: String| s@)
}

pub open spec fn str_views(v: Seq<&str>) -> Seq<Seq<char>> {
    v.map_values(|s: &str| s@)
}

fn join_terms(terms: &Vec<String>) -> (r: Vec<char>)
    ensures
        r@ == join_words(string_views(terms@)),
{
    let ghost tv = string_views(terms@);
    let mut out: Vec<char> = Vec::new();
    let mut i: usize = 0;
    assert(tv.take(0) =~= Seq::<Seq<char>>::empty());
    while i < terms.len()
        invariant
            i <= terms@.len(),
            tv == string_views(terms@),
            out@ == join_words(tv.take(i as int)),
        decreases terms@.len() - i,
    {
        if i > 0 {
            out.push(' ');
        }
        let t = chars_of(terms[i].as_str());
        crate::text::append_chars(&mut out, &t);
        proof {
            let s = tv.take(i + 1);
            assert(s.drop_last() =~= tv.take(i as int));
            assert(s.last() == terms@[i as int]@);
            if i == 0 {
                assert(s =~= seq![terms@[0]@]);
            }
        }
        assert(out@ =~= join_words(tv.take(i + 1)));
        i += 1;
    }
    assert(tv.take(terms@.len() as int) =~= tv);
    out
}

fn word_match(name: &Vec<char>, phrase: &Vec<char>) -> (r: bool)
    ensures
        r == word_match_from(name@, phrase@, 0),
{
    if phrase.len() == 0 {
        return false;
    }
    let mut i: usize = 0;
    while phrase.len() <= name.len() - i
        invariant
            phrase@.len() > 0,
            i <= name@.len(),
            word_match_from(name@, phrase@, i as int) == word_match_from(name@, phrase@, 0),
        decreases name@.len() - i,
    {
        if matches_at(name, phrase, i) {
            if i == 0 || !is_alphanumeric(name[i - 1]) {
                return true;
            }
            i = i + phrase.len();
        } else {
            i = i + 1;
        }
    }
    false
}

fn all_in(terms: &Vec<String>, name: &Vec<char>) -> (r: bool)
    ensures
        r == all_terms_in(string_views(terms@), name@),
{
    let ghost tv = string_views(terms@);
    let mut i: usize = 0;
    while i < terms.len()
        invariant
            i <= terms@.len(),
            tv == string_views(terms@),
            forall|k: int| 0 <= k < i ==> contains_seq(name@, #[trigger] tv[k]),
        decreases terms@.len() - i,
    {
        let t = chars_of(terms[i].as_str());
        if !contains_chars(name, &t) {
            assert(!contains_seq(name@, tv[i as int]));
            return false;
        }
        i += 1;
    }
    true
}

fn any_secondary(secondary: &Vec<&str>, term: &Vec<char>) -> (r: bool)
    ensures
        r == in_secondary(str_views(secondary@), term@),
{
    let ghost sv = str_views(secondary@);
    let mut j: usize = 0;
    while j < secondary.len()
        invariant
            j <= secondary@.len(),
            sv == str_views(secondary@),
            forall|k: int| 0 <= k < j ==> !contains_seq(#[trigger] sv[k], term@),
        decreases secondary@.len() - j,
    {
        let f = chars_of(secondary[j]);
        if contains_chars(&f, term) {
            assert(contains_seq(sv[j as int], term@));
            return true;
        }
        j += 1;
    }
    false
}

fn all_in_any(terms: &Vec<String>, name: &Vec<char>, secondary: &Vec<&str>) -> (r: bool)
    ensures
        r == all_terms_in_any(string_views(terms@), name@, str_views(secondary@)),
{
    let ghost tv = string_views(terms@);
    let mut i: usize = 0;
    while i < terms.len()
        invariant
            i <= terms@.len(),
            tv == string_views(terms@),
            forall|k: int|
                0 <= k < i ==> contains_seq(name@, #[trigger] tv[k]) || in_secondary(
                    str_views(secondary@),
                    tv[k],
                ),
        decreases terms@.len() - i,
    {
        let t = chars_of(terms[i].as_str());
        if !contains_chars(name, &t) && !any_secondary(secondary, &t) {
            assert(!(contains_seq(name@, tv[i as int]) || in_secondary(str_views(secondary@), tv[i as int])));
            return false;
        }
        i += 1;
    }
    true
}

/// Ranks an entity by its own name before its supporting metadata; the
/// score does not depend on the size of the library, on repeated tags or on
/// the length of paths. The result is in half points (see the module).
pub fn entity_score(terms: &Vec<String>, name: &str, secondary: &Vec<&str>) -> (r: u8)
    ensures
        r == entity_rank(string_views(terms@), name@, str_views(secondary@)),
{
    if terms.len() == 0 {
        return 10;
    }
    let phrase = join_terms(terms);
    let n = chars_of(name);
    if chars_eq(&n, &phrase) {
        0
    } else if starts_with(&n, &phrase) {
        2
    } else if word_match(&n, &phrase) {
        4
    } else if contains_chars(&n, &phrase) {
        6
    } else if all_in(terms, &n) {
        7
    } else if all_in_any(terms, &n, secondary) {
        8
    } else {
        10
    }
}

/// The fields that never make a strong metadata match: free text, the
/// path, the library root, and the title where it is not asked for.
pub open spec fn strong_excluded(include_title: bool) -> Seq<&'static str> {
    if include_title {
        seq!["comment", "lyrics", "path", "root"]
    } else {
        seq!["title", "comment", "lyrics", "path", "root"]
    }
}

/// The fields that never make any metadata match.
pub open spec fn weak_excluded(include_title: bool) -> Seq<&'static str> {
    if include_title {
        seq!["path", "root"]
    } else {
        seq!["title", "path", "root"]
    }
}

/// A name score below 10 stands; otherwise 10 when the query matches the
/// descriptive metadata, 12 when it needs comments or lyrics, 14 when only
/// the path or root matched.
pub open spec fn metadata_rank(
    query: SearchQuery,
    fields: Seq<(String, String)>,
    score: u8,
    include_title: bool,
) -> u8 {
    if score < 10 {
        score
    } else if query_matches(query.terms@, fields, strong_excluded(include_title), Seq::empty()) {
        10
    } else if query_matches(query.terms@, fields, weak_excluded(include_title), Seq::empty()) {
        12
    } else {
        14
    }
}

/// Falls back from the name score to how the query meets the metadata.
pub fn metadata_score(
    query: &SearchQuery,
    fields: &Vec<(String, String)>,
    score: u8,
    include_title: bool,
) -> (r: u8)
    ensures
        r == metadata_rank(*query, fields@, score, include_title),
{
    if score < 10 {
        return score;
    }
    let extra: Vec<(&str, &str)> = Vec::new();
    let mut strong: Vec<&'static str> = Vec::new();
    let mut weak: Vec<&'static str> = Vec::new();
    if !include_title {
        strong.push("title");
        weak.push("title");
    }
    strong.push("comment");
    strong.push("lyrics");
    strong.push("path");
    strong.push("root");
    weak.push("path");
    weak.push("root");
    assert(strong@ =~= strong_excluded(include_title));
    assert(weak@ =~= weak_excluded(include_title));
    assert(extra@ =~= Seq::<(&str, &str)>::empty());
    if query.matches_with(fields, &strong, &extra) {
        10
    } else if query.matches_with(fields, &weak, &extra) {
        12
    } else {
        14
    }
}

/// An entity named exactly by the query ranks first: its score is 0, and
/// any other name scores more.
pub proof fn law_exact_name_ranks_first(
    terms: Seq<Seq<char>>,
    other: Seq<char>,
    secondary: Seq<Seq<char>>,
)
    requires
        terms.len() > 0,
        other != join_words(terms),
    ensures
        entity_rank(terms, join_words(terms), secondary) == 0,
        entity_rank(terms, other, secondary) > 0,
{
}

/// A name that starts with the query, or has it at the start of a word,
/// ranks before one that holds it only inside a word.
pub proof fn law_word_start_before_infix(
    terms: Seq<Seq<char>>,
    a: Seq<char>,
    b: Seq<char>,
    secondary: Seq<Seq<char>>,
)
    requires
        terms.len() > 0,
        has_prefix(a, join_words(terms)) || word_match_from(a, join_words(terms), 0),
        b != join_words(terms),
        !has_prefix(b, join_words(terms)),
        !word_match_from(b, join_words(terms), 0),
    ensures
        entity_rank(terms, a, secondary) < entity_rank(terms, b, secondary),
{
}

/// Metadata never outranks a name: a score won by the name (below 10)
/// stays below every score that metadata alone gives (10 or more).
pub proof fn law_name_match_outranks_metadata(
    query: SearchQuery,
    fields_a: Seq<(String, String)>,
    fields_b: Seq<(String, String)>,
    name_score: u8,
    include_title: bool,
)
    requires
        name_score < 10,
    ensures
        metadata_rank(query, fields_a, name_score, include_title) < metadata_rank(query, fields_b, 10, include_title),
{
}

/// The rank of an entity takes one of seven values (in half points: 0, 1,
/// 2, 3, 3.5, 4 and 5); with a query it is 0 exactly for the name the query
/// spells, and at most 1 for a name that starts with it.
pub proof fn law_entity_rank_values(terms: Seq<Seq<char>>, name: Seq<char>, secondary: Seq<Seq<char>>)
    ensures
        ({
            let r = entity_rank(terms, name, secondary);
            r == 0 || r == 2 || r == 4 || r == 6 || r == 7 || r == 8 || r == 10
        }),
        terms.len() > 0 ==> ((entity_rank(terms, name, secondary) == 0) <==> (name == join_words(terms))),
        terms.len() > 0 && has_prefix(name, join_words(terms)) ==> entity_rank(terms, name, secondary) <= 2,
{
}

/// Only which values the secondary fields hold counts, not their order or
/// how often one repeats: `[a, a, b]` ranks as `[a, b]` does.
pub proof fn law_entity_rank_reads_secondary_as_a_set(
    terms: Seq<Seq<char>>,
    name: Seq<char>,
    s1: Seq<Seq<char>>,
    s2: Seq<Seq<char>>,
)
    requires
        s1.to_set() == s2.to_set(),
    ensures
        entity_rank(terms, name, s1) == entity_rank(terms, name, s2),
{
    assert forall|t: Seq<char>| in_secondary(s1, t) == in_secondary(s2, t) by {
        if in_secondary(s1, t) {
            let j = choose|j: int| 0 <= j < s1.len() && contains_seq(#[trigger] s1[j], t);
            assert(s1.to_set().contains(s1[j]));
            assert(s2.contains(s1[j]));
            let k = choose|k: int| 0 <= k < s2.len() && s2[k] == s1[j];
            assert(contains_seq(s2[k], t));
        }
        if in_secondary(s2, t) {
            let j = choose|j: int| 0 <= j < s2.len() && contains_seq(#[trigger] s2[j], t);
            assert(s2.to_set().contains(s2[j]));
            assert(s1.contains(s2[j]));
            let k = choose|k: int| 0 <= k < s1.len() && s1[k] == s2[j];
            assert(contains_seq(s1[k], t));
        }
    }
    assert(all_terms_in_any(terms, name, s1) == all_terms_in_any(terms, name, s2));
}

} // verus!
