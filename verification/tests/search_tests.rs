use ferrous::search::{
    is_main_album_disc_section, normalize_for_search, query_terms_match_text, split_search_terms,
};
use ferrous::search_query::{field_key, SearchQuery};

fn fields(pairs: &[(&str, &str)]) -> Vec<(String, String)> {
    let mut v: Vec<(String, String)> = pairs
        .iter()
        .map(|(k, v)| (k.to_string(), v.to_string()))
        .collect();
    v.sort();
    v
}

#[test]
fn disc_section_detection_accepts_common_main_disc_names() {
    assert!(is_main_album_disc_section("CD1"));
    assert!(is_main_album_disc_section("CD 2"));
    assert!(is_main_album_disc_section("disc-03"));
    assert!(is_main_album_disc_section("Disk 4 (bonus)"));
    assert!(is_main_album_disc_section("DVD1"));
    assert!(is_main_album_disc_section("DVD 2"));
    assert!(!is_main_album_disc_section("Live"));
    assert!(!is_main_album_disc_section("discography"));
}

#[test]
fn normalize_for_search_strips_diacritics() {
    assert_eq!(normalize_for_search("Jónsi"), "jonsi");
    assert_eq!(normalize_for_search("Björk"), "bjork");
    assert_eq!(normalize_for_search("Sigur Rós"), "sigur ros");
    assert_eq!(normalize_for_search("Ásgeir"), "asgeir");
    assert_eq!(normalize_for_search("café"), "cafe");
    assert_eq!(normalize_for_search("naïve"), "naive");
    // Plain ASCII unchanged
    assert_eq!(normalize_for_search("Pink Floyd"), "pink floyd");
}

#[test]
fn query_terms_match_text_accent_insensitive() {
    let terms = split_search_terms("jonsi");
    assert!(query_terms_match_text(&terms, "Jónsi"));
    assert!(query_terms_match_text(&terms, "Jónsi & Alex"));

    let terms2 = split_search_terms("jónsi");
    assert!(query_terms_match_text(&terms2, "Jónsi"));
    assert!(query_terms_match_text(&terms2, "Jonsi"));

    let terms3 = split_search_terms("sigur ros");
    assert!(query_terms_match_text(&terms3, "Sigur Rós"));
}

#[test]
fn parses_fields_and_quoted_phrases_without_interpreting_unknown_prefixes() {
    let fields = fields(&[
        ("albumartist", "sigur ros"),
        ("year", "1997"),
        ("comment", "anniversary remaster"),
        ("path", "/music/live:oslo.flac"),
    ]);
    assert!(
        SearchQuery::parse("album_artist:\"Sigur Rós\" year:1997 comment:remaster")
            .matches(&fields)
    );
    assert!(SearchQuery::parse("live:oslo").matches(&fields));
    assert!(!SearchQuery::parse("year:199").matches(&fields));
    assert!(!SearchQuery::parse("artist:remaster").matches(&fields));
    assert!(!SearchQuery::parse("comment:").matches(&fields));
    assert!(!SearchQuery::parse("\"ros sigur\"").matches(&fields));
    assert!(!SearchQuery::parse("\"\"").matches(&fields));
}

#[test]
fn field_key_accepts_aliases_in_any_case() {
    assert_eq!(field_key("ALBUM-ARTIST"), Some("albumartist"));
    assert_eq!(field_key("Publisher"), Some("label"));
    assert_eq!(field_key("filename"), Some("path"));
    assert_eq!(field_key("live"), None);
}

#[test]
fn name_terms_keeps_unrestricted_and_matching_terms() {
    let query = SearchQuery::parse("artist:Björk homogenic title:joga");
    assert_eq!(query.name_terms("artist"), vec!["bjork".to_string(), "homogenic".to_string()]);
    assert_eq!(query.name_terms("title"), vec!["homogenic".to_string(), "joga".to_string()]);
}

#[test]
fn matches_with_skips_excluded_fields_and_uses_extra_pairs() {
    let fields = fields(&[("title", "hunter"), ("path", "/music/bjork/hunter.flac")]);
    let query = SearchQuery::parse("bjork");
    assert!(query.matches(&fields));
    assert!(!query.matches_with(&fields, &vec!["path"], &Vec::new()));
    assert!(query.matches_with(&fields, &vec!["path"], &vec![("artist", "bjork")]));
}

#[test]
fn restricted_year_terms_match_whole_words_only() {
    let query = SearchQuery::parse("year:97");
    let t = &query.terms[0];
    assert!(!t.matches("year", "1997"));
    assert!(t.matches("year", "97 1997"));
    let free = SearchQuery::parse("97");
    assert!(free.terms[0].matches("year", "1997"));
}

#[test]
fn empty_query_never_matches() {
    let fields = fields(&[("title", "anything")]);
    assert!(!SearchQuery::parse("   ").matches(&fields));
    assert!(split_search_terms("   ").is_empty());
    assert!(!query_terms_match_text(&Vec::new(), "anything"));
}
