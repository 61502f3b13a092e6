//! The text and weighting behind artwork search relevance. The similarity
//! scores themselves are floating-point and computed by the caller.
use vstd::prelude::*;

use crate::case_fold::{fold_chars, fold_lowercase};
use crate::search::{lowercase, str_to_lowercase};
use crate::text::{chars_of, push_str, split_whitespace, string_from_chars, trim, trim_str, words};

verus! {

/// Words joined by single spaces.
pub open spec fn join_words(ws: Seq<Seq<char>>) -> Seq<char>
    decreases ws.len(),
{
    if ws.len() == 0 {
        Seq::empty()
    } else if ws.len() == 1 {
        ws[0]
    } else {
        join_words(ws.drop_last()) + seq![' '] + ws.last()
    }
}

/// A text as compared for relevance: trimmed, case-folded, with each run
/// of whitespace made a single space. Case folding is `str::to_lowercase`
/// followed by `fold_lowercase`, which gives Unicode simple case folding
/// ("ſ" and "ς" become "s" and "σ"), with the full lowercase mappings of
/// `str::to_lowercase` where it has them ("İ" becomes "i" and a combining
/// dot). "ß" stays "ß": the simple folding keeps it.
pub open spec fn relevance_text(s: Seq<char>) -> Seq<char> {
    join_words(words(fold_lowercase(lowercase(trim(s)))))
}

pub fn normalize(s: &str) -> (r: String)
    ensures
        r@ == relevance_text(s@),
{
    let trimmed = string_from_chars(&trim_str(s));
    let lower = str_to_lowercase(trimmed.as_str());
    let folded = fold_chars(&chars_of(lower.as_str()));
    let ws = split_whitespace(&folded);
    let ghost wv = ws@.map_values(|w: Vec<char>| w@);
    let mut out: Vec<char> = Vec::new();
    let mut i: usize = 0;
    assert(wv.take(0) =~= Seq::<Seq<char>>::empty());
    while i < ws.len()
        invariant
            i <= ws@.len(),
            wv == ws@.map_values(|w: Vec<char>| w@),
            out@ == join_words(wv.take(i as int)),
        decreases ws@.len() - i,
    {
        if i > 0 {
            out.push(' ');
        }
        crate::text::append_chars(&mut out, &ws[i]);
        proof {
            let t = wv.take(i + 1);
            assert(t.drop_last() =~= wv.take(i as int));
            assert(t.last() == ws@[i as int]@);
            if i == 0 {
                assert(t =~= seq![ws@[0]@]);
            }
        }
        assert(out@ =~= join_words(wv.take(i + 1)));
        i += 1;
    }
    assert(wv.take(ws@.len() as int) =~= wv);
    string_from_chars(&out)
}

/// Which similarities make up the relevance score.
#[derive(Debug, Clone, Copy, PartialEq, Eq, Structural)]
pub enum RelevanceWeighting {
    /// Half album similarity, half artist similarity.
    AlbumAndArtist,
    AlbumOnly,
    ArtistOnly,
    /// Nothing was asked for: the score is 0.
    Nothing,
}

/// Both wanted fields count equally; an empty one leaves the whole weight
/// to the other.
pub fn relevance_weighting(wanted_album: &str, wanted_artist: &str) -> (r: RelevanceWeighting)
    ensures
        r == (if wanted_album@.len() > 0 && wanted_artist@.len() > 0 {
            RelevanceWeighting::AlbumAndArtist
        } else if wanted_album@.len() > 0 {
            RelevanceWeighting::AlbumOnly
        } else if wanted_artist@.len() > 0 {
            RelevanceWeighting::ArtistOnly
        } else {
            RelevanceWeighting::Nothing
        }),
{
    let a = chars_of(wanted_album).len() > 0;
    let b = chars_of(wanted_artist).len() > 0;
    if a && b {
        RelevanceWeighting::AlbumAndArtist
    } else if a {
        RelevanceWeighting::AlbumOnly
    } else if b {
        RelevanceWeighting::ArtistOnly
    } else {
        RelevanceWeighting::Nothing
    }
}

} // verus!
