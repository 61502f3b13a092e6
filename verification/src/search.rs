//! Search helpers: accent-insensitive normalization, query terms, and the
//! recognition of disc sub-folders ("CD1", "Disc 2") that belong to an album.
use vstd::prelude::*;
use unicode_normalization::UnicodeNormalization;

use crate::modes::eq_lit;
use crate::text::{
    chars_of, has_prefix, is_alpha_ascii, is_digit_char, lower_seq, starts_with, to_ascii_lower,
    trim, trim_str,
};

verus! {

// ---------------------------------------------------------------------------
// Disc sections
// ---------------------------------------------------------------------------

pub open spec fn is_separator(c: char) -> bool {
    c == ' ' || c == '-' || c == '_' || c == '.'
}

pub open spec fn is_bracket(c: char) -> bool {
    c == '(' || c == ')' || c == '[' || c == ']'
}

/// What may follow "cd"/"disc"/"disk"/"dvd": separators, then at least one
/// digit, after which separators, brackets and letters may follow.
pub open spec fn disc_suffix_ok(rest: Seq<char>, saw_digit: bool) -> bool
    decreases rest.len(),
{
    if rest.len() == 0 {
        saw_digit
    } else {
        let c = rest[0];
        if is_digit_char(c) {
            disc_suffix_ok(rest.drop_first(), true)
        } else if !saw_digit && is_separator(c) {
            disc_suffix_ok(rest.drop_first(), false)
        } else if saw_digit && (is_separator(c) || is_bracket(c) || is_alpha_ascii(c)) {
            disc_suffix_ok(rest.drop_first(), true)
        } else {
            false
        }
    }
}

pub open spec fn disc_prefix_match(s: Seq<char>, p: Seq<char>) -> bool {
    has_prefix(s, p) && disc_suffix_ok(s.skip(p.len() as int), false)
}

/// Whether a section folder is a disc of the album (its tracks then count as
/// the album's own).
pub open spec fn disc_section_name(name: Seq<char>) -> bool {
    let s = lower_seq(trim(name));
    s.len() > 0 && (disc_prefix_match(s, "cd"@) || disc_prefix_match(s, "disc"@)
        || disc_prefix_match(s, "disk"@) || disc_prefix_match(s, "dvd"@))
}

fn suffix_ok(s: &Vec<char>, start: usize) -> (r: bool)
    requires
        start <= s@.len(),
    ensures
        r == disc_suffix_ok(s@.skip(start as int), false),
{
    let mut saw_digit = false;
    let mut i = start;
    while i < s.len()
        invariant
            start <= i <= s@.len(),
            disc_suffix_ok(s@.skip(i as int), saw_digit) == disc_suffix_ok(
                s@.skip(start as int),
                false,
            ),
        decreases s@.len() - i,
    {
        let c = s[i];
        assert(s@.skip(i as int)[0] == c);
        assert(s@.skip(i as int).drop_first() =~= s@.skip(i + 1));
        if '0' <= c && c <= '9' {
            saw_digit = true;
        } else if !saw_digit && (c == ' ' || c == '-' || c == '_' || c == '.') {
        } else if saw_digit && (c == ' ' || c == '-' || c == '_' || c == '.' || c == '(' || c
            == ')' || c == '[' || c == ']' || ('a' <= c && c <= 'z') || ('A' <= c && c <= 'Z')) {
        } else {
            return false;
        }
        i += 1;
    }
    assert(s@.skip(i as int).len() == 0);
    saw_digit
}

fn prefix_match(s: &Vec<char>, p: &str) -> (r: bool)
    ensures
        r == disc_prefix_match(s@, p@),
{
    let pc = chars_of(p);
    if !starts_with(s, &pc) {
        return false;
    }
    suffix_ok(s, pc.len())
}

pub fn is_main_album_disc_section(section_name: &str) -> (r: bool)
    ensures
        r == disc_section_name(section_name@),
{
    let t = trim_str(section_name);
    let s = to_ascii_lower(&t);
    if s.len() == 0 {
        return false;
    }
    prefix_match(&s, "cd") || prefix_match(&s, "disc") || prefix_match(&s, "disk")
        || prefix_match(&s, "dvd")
}

// ---------------------------------------------------------------------------
// Accent-insensitive normalization
// ---------------------------------------------------------------------------

/// The Unicode compatibility decomposition (NFKD) of a text, as computed by
/// `unicode_normalization`.
pub uninterp spec fn nfkd(s: Seq<char>) -> Seq<char>;

/// Unicode `General_Category=Mark`, as `unicode_normalization` classifies it.
pub uninterp spec fn combining_mark(c: char) -> bool;

/// `str::to_lowercase` (full Unicode lowercase mapping).
pub uninterp spec fn lowercase(s: Seq<char>) -> Seq<char>;

/// `UnicodeNormalization::nfkd` of `unicode_normalization`, collected.
/// Its result is named `nfkd`: the decomposition tables are not restated.
#[verifier::external_body]
fn nfkd_chars(text: &str) -> (r: Vec<char>)
    ensures
        r@ == nfkd(text@),
{
    text.nfkd().collect()
}

/// `unicode_normalization::char::is_combining_mark`; its result is named
/// `combining_mark`.
#[verifier::external_body]
fn is_combining_mark(c: char) -> (r: bool)
    ensures
        r == combining_mark(c),
{
    unicode_normalization::char::is_combining_mark(c)
}

/// `str::to_lowercase`; its result is named `lowercase`.
#[verifier::external_body]
pub(crate) fn str_to_lowercase(s: &str) -> (r: String)
    ensures
        r@ == lowercase(s@),
{
    s.to_lowercase()
}

/// The text that search compares: decomposed (NFKD), stripped of every
/// mark (`General_Category=Mark`, the class `unicode_normalization` offers:
/// spacing and enclosing marks go too, not only the nonspacing ones),
/// lowercased; "Jónsi" becomes "jonsi".
pub open spec fn normalized(s: Seq<char>) -> Seq<char> {
    lowercase(nfkd(s).filter(|c: char| !combining_mark(c)))
}

pub fn normalize_for_search(text: &str) -> (r: String)
    ensures
        r@ == normalized(text@),
{
    let decomposed = nfkd_chars(text);
    let mut kept: Vec<char> = Vec::new();
    let mut i: usize = 0;
    while i < decomposed.len()
        invariant
            i <= decomposed@.len(),
            kept@ == decomposed@.take(i as int).filter(|c: char| !combining_mark(c)),
        decreases decomposed@.len() - i,
    {
        let c = decomposed[i];
        let keep = !is_combining_mark(c);
        proof {
            let t = decomposed@.take(i + 1);
            assert(t.drop_last() =~= decomposed@.take(i as int));
            assert(t.last() == c);
            decomposed@.take(i as int).lemma_filter_push(c, |c: char| !combining_mark(c));
            assert(t =~= decomposed@.take(i as int).push(c));
        }
        if keep {
            kept.push(c);
        }
        i += 1;
    }
    assert(decomposed@.take(decomposed@.len() as int) =~= decomposed@);
    let joined = crate::text::string_from_chars(&kept);
    str_to_lowercase(joined.as_str())
}

/// The normalized, non-empty words of a query.
pub open spec fn search_terms(query: Seq<char>) -> Seq<Seq<char>> {
    crate::text::words(query).map_values(|w: Seq<char>| normalized(trim(w))).filter(
        |t: Seq<char>| t.len() > 0,
    )
}

pub fn split_search_terms(query: &str) -> (terms: Vec<String>)
    ensures
        terms@.map_values(|t: String| t@) == search_terms(query@),
{
    let chars = chars_of(query);
    let ws = crate::text::split_whitespace(&chars);
    let ghost mapped = crate::text::words(query@).map_values(|w: Seq<char>| normalized(trim(w)));
    let mut terms: Vec<String> = Vec::new();
    let mut i: usize = 0;
    while i < ws.len()
        invariant
            i <= ws@.len(),
            ws@.map_values(|w: Vec<char>| w@) == crate::text::words(query@),
            mapped == crate::text::words(query@).map_values(|w: Seq<char>| normalized(trim(w))),
            terms@.map_values(|t: String| t@) == mapped.take(i as int).filter(|t: Seq<char>| t.len() > 0),
        decreases ws@.len() - i,
    {
        let word = crate::text::trim_chars(&ws[i]);
        let text = crate::text::string_from_chars(&word);
        let n = normalize_for_search(text.as_str());
        proof {
            assert(ws@.map_values(|w: Vec<char>| w@)[i as int] == ws@[i as int]@);
            assert(mapped[i as int] == n@);
            let t = mapped.take(i + 1);
            assert(t =~= mapped.take(i as int).push(n@));
            mapped.take(i as int).lemma_filter_push(n@, |t: Seq<char>| t.len() > 0);
        }
        let ghost before = terms@;
        if n.as_str().unicode_len() > 0 {
            terms.push(n);
        }
        assert(terms@.map_values(|t: String| t@) =~= mapped.take(i + 1).filter(|t: Seq<char>| t.len() > 0));
        i += 1;
    }
    assert(mapped.take(ws@.len() as int) =~= mapped);
    terms
}

/// Every term occurs in the normalized text (and there is at least one term).
pub open spec fn terms_match(terms: Seq<String>, text: Seq<char>) -> bool {
    terms.len() > 0 && forall|k: int| 0 <= k < terms.len() ==> crate::text::contains_seq(normalized(text), #[trigger] terms[k]@)
}

pub fn query_terms_match_text(terms: &Vec<String>, text: &str) -> (r: bool)
    ensures
        r == terms_match(terms@, text@),
{
    if terms.len() == 0 {
        return false;
    }
    let n = normalize_for_search(text);
    let hay = chars_of(n.as_str());
    let mut i: usize = 0;
    while i < terms.len()
        invariant
            i <= terms@.len(),
            hay@ == normalized(text@),
            forall|k: int| 0 <= k < i ==> crate::text::contains_seq(normalized(text@), #[trigger] terms@[k]@),
        decreases terms@.len() - i,
    {
        let needle = chars_of(terms[i].as_str());
        if !crate::text::contains_chars(&hay, &needle) {
            return false;
        }
        i += 1;
    }
    true
}

} // verus!
