use ferrous::fts_query::{build_fts_query, fts_row_limit};

#[test]
fn fts_query_quotes_each_word_as_a_prefix_term() {
    assert_eq!(build_fts_query("  "), None);
    assert_eq!(build_fts_query(""), None);
    assert_eq!(build_fts_query("dub"), Some("\"dub\"*".to_string()));
    assert_eq!(build_fts_query("  King  Tubby\t"), Some("\"King\"* AND \"Tubby\"*".to_string()));
    assert_eq!(build_fts_query("say \"hi\""), Some("\"say\"* AND \"\"\"hi\"\"\"*".to_string()));
}

#[test]
fn fts_row_limit_is_kept_in_range() {
    assert_eq!(fts_row_limit(0), 1);
    assert_eq!(fts_row_limit(40), 40);
    assert_eq!(fts_row_limit(9000), 5000);
}
