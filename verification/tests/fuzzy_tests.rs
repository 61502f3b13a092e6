use ferrous::case_fold::fold_char;
use ferrous::fuzzy::{normalize, relevance_weighting, RelevanceWeighting};

#[test]
fn normalize_trims_folds_and_collapses_whitespace() {
    assert_eq!(normalize("  peace  AND  love  "), "peace and love");
    assert_eq!(normalize("\tDub\n\nSyndicate "), "dub syndicate");
    assert_eq!(normalize(""), "");
    assert_eq!(normalize("   "), "");
}

#[test]
fn normalize_folds_case_beyond_lowercasing() {
    assert_eq!(normalize("Maſter"), "master");
    assert_eq!(normalize("ΟΔΟΣ"), "οδοσ");
    assert_eq!(normalize("οδος"), "οδοσ");
    assert_eq!(normalize("µ-Ziq"), "μ-ziq");
    assert_eq!(normalize("ϐϑϕϖϰϱϵ"), "βθφπκρε");
    assert_eq!(normalize("\u{AB70}\u{13A0}"), "\u{13A0}\u{13A0}");
    assert_eq!(normalize("\u{13F8}"), "\u{13F0}");
    assert_eq!(normalize("Straße"), "straße");
    assert_eq!(normalize(&normalize("  ΣΊΣΥΦΟΣ  Maſter ")), normalize("  ΣΊΣΥΦΟΣ  Maſter "));
}

#[test]
fn fold_char_leaves_plain_letters() {
    assert_eq!(fold_char('a'), 'a');
    assert_eq!(fold_char('ß'), 'ß');
    assert_eq!(fold_char('\u{1C88}'), '\u{A64B}');
    assert_eq!(fold_char('\u{1E9B}'), '\u{1E61}');
    assert_eq!(fold_char('\u{ABBF}'), '\u{13EF}');
}

#[test]
fn weighting_follows_the_wanted_fields() {
    assert_eq!(relevance_weighting("a", "b"), RelevanceWeighting::AlbumAndArtist);
    assert_eq!(relevance_weighting("a", ""), RelevanceWeighting::AlbumOnly);
    assert_eq!(relevance_weighting("", "b"), RelevanceWeighting::ArtistOnly);
    assert_eq!(relevance_weighting("", ""), RelevanceWeighting::Nothing);
}
