use ferrous::bridge::BridgeSearchResultRowType;
use ferrous::library::{LibraryRoot, LibrarySnapshot, LibraryTrack};
use ferrous::match_detail::hidden_match_detail;
use ferrous::ranking::{entity_score, metadata_score};
use ferrous::search_context::{
    derive_tree_path_context, derive_tree_path_context_for_root, path_starts_with_str,
    PreparedSearchRoot,
};
use ferrous::search_finalize::{
    build_search_results_frame, choose_most_common_genre, choose_most_common_year,
    finalize_search_rows, limit_setting, search_result_limits, SearchLimitSettings,
    SearchResultLimits,
};
use ferrous::search_prepare::prepare_search_library;
use ferrous::search_query::SearchQuery;
use ferrous::search_rows::BridgeSearchResultRow;
use ferrous::search_walk::search_tracks_prepared;

fn root(path: &str) -> LibraryRoot {
    LibraryRoot { path: path.to_string(), name: String::new() }
}

fn fixture_track(title: &str, artist: &str, album: &str, file: &str) -> LibraryTrack {
    LibraryTrack {
        path: format!("/music/{artist}/{album}/{file}.flac"),
        root_path: "/music".to_string(),
        title: title.into(),
        artist: artist.into(),
        album: album.into(),
        ..LibraryTrack::default()
    }
}

fn fixture_search(query: &str, tracks: Vec<LibraryTrack>, limit: usize) -> Vec<BridgeSearchResultRow> {
    let library = LibrarySnapshot { roots: vec![root("/music")], tracks, ..LibrarySnapshot::default() };
    let prepared = prepare_search_library(&library);
    let q = SearchQuery::parse(query);
    let acc = search_tracks_prepared(&q, &prepared.tracks, &library.roots);
    finalize_search_rows(
        &prepared.album_inventory,
        &SearchResultLimits { artist: limit, album: limit, track: limit },
        &acc.album_cover_paths,
        acc.artist_groups,
        acc.album_groups,
        &acc.album_hit_stats,
        acc.track_rows,
    )
}

fn track_titles(rows: &[BridgeSearchResultRow]) -> Vec<&str> {
    rows.iter()
        .filter(|row| row.row_type == BridgeSearchResultRowType::Track)
        .map(|row| row.label.as_str())
        .collect()
}

fn tags(entries: &[(&str, &[&str])]) -> Vec<(String, Vec<String>)> {
    entries
        .iter()
        .map(|(k, vs)| (k.to_string(), vs.iter().map(|v| v.to_string()).collect()))
        .collect()
}

#[test]
fn prepare_search_library_counts_main_album_tracks_with_cd_sections() {
    let mk = |path: &str, title: &str, no: u32, secs: f32| LibraryTrack {
        path: path.to_string(),
        root_path: "/music".to_string(),
        title: title.to_string(),
        artist: "Artist".to_string(),
        album: "Album".to_string(),
        year: Some(2020),
        track_no: Some(no),
        duration_bits: Some(secs.to_bits()),
        ..LibraryTrack::default()
    };
    let snapshot = LibrarySnapshot {
        roots: vec![root("/music")],
        tracks: vec![
            mk("/music/Artist/Album/01 - Intro.flac", "Intro", 1, 100.0),
            mk("/music/Artist/Album/CD1/02 - Song.flac", "Song", 2, 120.0),
            mk("/music/Artist/Album/Bonus/03 - Extra.flac", "Extra", 3, 80.0),
        ],
        ..LibrarySnapshot::default()
    };
    let prepared = prepare_search_library(&snapshot);
    let inv = prepared
        .album_inventory
        .iter()
        .find(|a| a.album_key == "album|/music|Artist|Album")
        .expect("album inventory present");
    assert_eq!(inv.main_track_count, 2);
    assert!(!inv.main_durations.is_empty());
    let total: f32 = inv.main_durations.iter().map(|b| f32::from_bits(*b)).sum();
    assert!((total - 220.0).abs() < 0.01);
}

#[test]
fn album_search_rows_include_album_cover_path() {
    let root_path = "/tmp/ferrous-search-album-cover";
    let cover = format!("{root_path}/Artist/Album/cover.jpg");
    let library = LibrarySnapshot {
        roots: vec![root(root_path)],
        tracks: vec![LibraryTrack {
            path: format!("{root_path}/Artist/Album/01 - Song.flac"),
            root_path: root_path.to_string(),
            title: "Song".to_string(),
            artist: "Artist".to_string(),
            album: "Album".to_string(),
            cover_path: cover.clone(),
            genre: "Rock".to_string(),
            year: Some(2020),
            track_no: Some(1),
            duration_bits: Some(60.0f32.to_bits()),
            ..LibraryTrack::default()
        }],
        search_revision: 1,
        ..LibrarySnapshot::default()
    };
    let prepared = prepare_search_library(&library);
    let frame =
        build_search_results_frame(1, "album", 0, &library, &prepared, &SearchLimitSettings::defaults());
    let album_row = frame
        .rows
        .iter()
        .find(|row| row.row_type == BridgeSearchResultRowType::Album)
        .expect("album row present");
    assert_eq!(album_row.cover_path, cover);
}

#[test]
fn exact_title_beats_repeated_metadata_and_prefix_matches() {
    let rows = fixture_search(
        "blue",
        vec![
            fixture_track("Intro", "Blue", "Blue", "01"),
            fixture_track("Blue Skies", "Example", "Songs", "02"),
            fixture_track("Blue", "The Example Ensemble", "Collected Songs of the Northern Landscape", "03"),
        ],
        20,
    );
    assert_eq!(track_titles(&rows), ["Blue", "Blue Skies", "Intro"]);
}

#[test]
fn substring_and_path_matches_survive_other_prefix_matches() {
    let rows = fixture_search(
        "light",
        vec![
            fixture_track("Moonlight", "Example", "Night", "01"),
            fixture_track("Light Years", "Another", "Day", "02"),
            fixture_track("Instrumental", "Third", "Songs", "light-recording"),
        ],
        20,
    );
    assert_eq!(track_titles(&rows), ["Light Years", "Moonlight", "Instrumental"]);
}

#[test]
fn all_terms_can_match_across_accented_metadata() {
    let mut track = fixture_track("Svefn", "Sigur Rós", "Ágætis byrjun", "01");
    track.genre = "Post-rock".into();
    let rows = fixture_search("SIGUR agætis rock", vec![track.clone()], 20);
    assert_eq!(rows.iter().filter(|row| row.row_type == BridgeSearchResultRowType::Track).count(), 1);
    assert!(fixture_search("sigur missing", vec![track], 20).is_empty());
}

#[test]
fn groups_are_ranked_by_name_before_track_truncation() {
    let mut tracks: Vec<_> = (0..300)
        .map(|i| fixture_track("Blue", "Blue Orchestra", "Blue Collection", &format!("{i:03}")))
        .collect();
    tracks.push(fixture_track("Intro", "Blue", "Blue", "01"));
    let rows = fixture_search("blue", tracks, 1);
    assert_eq!(rows.len(), 3);
    assert_eq!(rows[0].row_type, BridgeSearchResultRowType::Artist);
    assert_eq!(rows[0].label, "Blue");
    assert_eq!(rows[1].row_type, BridgeSearchResultRowType::Album);
    assert_eq!(rows[1].label, "Blue");
    assert_eq!(rows[1].count, 1);
}

#[test]
fn equal_relevance_uses_title_before_path() {
    let rows = fixture_search(
        "artist",
        vec![fixture_track("Zulu", "Artist", "Album", "01"), fixture_track("Alpha", "Artist", "Album", "99")],
        1,
    );
    assert_eq!(rows.last().expect("track result").label, "Alpha");
}

#[test]
fn totals_count_all_matches_and_expansion_retrieves_more_rows() {
    let library = LibrarySnapshot {
        roots: vec![root("/music")],
        tracks: (0..65)
            .map(|i| fixture_track(&format!("Song {i:03}"), "Artist", "Album", &format!("{i:03}")))
            .collect(),
        ..LibrarySnapshot::default()
    };
    let prepared = prepare_search_library(&library);
    for (limit, expected) in [(0u32, 20usize), (40, 40), (80, 65)] {
        let frame = build_search_results_frame(1, "song", limit, &library, &prepared, &SearchLimitSettings::defaults());
        assert_eq!(frame.totals, [0, 0, 65]);
        assert_eq!(frame.rows.len(), expected);
    }
}

#[test]
fn searches_extended_tags_filters_and_phrases_with_match_details() {
    let mut track = fixture_track("Blue Skies", "Soloist", "Concert", "01");
    track.year = Some(1997);
    track.track_no = Some(1);
    track.search_tags = tags(&[
        ("albumartist", &["London Symphony Orchestra"]),
        ("artist", &["Guest Singer", "Second Singer"]),
        ("comment", &["Anniversary remaster"]),
        ("composer", &["Jean Sibelius"]),
        ("conductor", &["Esa-Pekka Salonen"]),
        ("date", &["1997-05-12"]),
        ("disc", &["2"]),
        ("genre", &["Classical", "Choral"]),
        ("label", &["Example Records"]),
        ("lyrics", &["The silver moon is rising"]),
        ("performer", &["Helsinki Choir"]),
    ]);
    for query in [
        r#"albumartist:"london symphony" year:1997"#,
        "second singer",
        "genre:choral",
        "composer:sibelius",
        "conductor:salonen",
        "performer:helsinki",
        "label:records",
        "comment:remaster",
        r#"lyrics:"silver moon""#,
        "date:1997-05",
        "track:1 disc:2",
        r#""blue skies""#,
        "root:music",
    ] {
        let rows = fixture_search(query, vec![track.clone()], 20);
        assert!(rows.iter().any(|row| row.row_type == BridgeSearchResultRowType::Track), "missing {query}");
    }
    for query in ["year:199", "track:10", "disc:1", "artist:sibelius", r#""skies blue""#] {
        assert!(fixture_search(query, vec![track.clone()], 20).is_empty(), "unexpected {query}");
    }
    let rows = fixture_search("comment:remaster", vec![track], 20);
    assert!(rows.iter().any(|row| row.row_type == BridgeSearchResultRowType::Album));
    assert!(rows.iter().all(|row| row.match_detail.contains("Comment: remaster")));
}

#[test]
fn album_metadata_matches_only_tracks_in_the_main_album_queue() {
    for (section, expect_album) in [("Bonus", false), ("CD1", true)] {
        let main = fixture_track("Intro", "Artist", "Album", "01");
        let mut extra = fixture_track("Extra", "Artist", "Album", "02");
        extra.path = format!("/music/Artist/Album/{section}/02.flac");
        extra.search_tags = tags(&[("comment", &["Anniversary remaster"])]);
        let rows = fixture_search("comment:remaster", vec![main, extra], 20);
        assert!(rows
            .iter()
            .any(|row| row.row_type == BridgeSearchResultRowType::Track && row.label == "Extra"));
        assert_eq!(
            rows.iter().any(|row| row.row_type == BridgeSearchResultRowType::Album),
            expect_album,
            "unexpected album match from {section}"
        );
    }
}

#[test]
fn long_comments_and_lyrics_cannot_outrank_title_matches() {
    let mut comment = fixture_track("Intro", "A", "A", "01");
    let long = "blue ".repeat(1000);
    comment.search_tags = tags(&[("comment", &[long.as_str()])]);
    let mut lyrics = fixture_track("Another Song", "B", "B", "01");
    lyrics.search_tags = tags(&[("lyrics", &[long.as_str()])]);
    let rows = fixture_search("blue", vec![comment, lyrics, fixture_track("Blue", "C", "C", "01")], 20);
    let first_track = rows
        .iter()
        .find(|row| row.row_type == BridgeSearchResultRowType::Track)
        .expect("track");
    assert_eq!(first_track.label, "Blue");
}

#[test]
fn word_prefixes_rank_before_infix_substrings() {
    let rows = fixture_search(
        "light",
        vec![fixture_track("Moonlight", "Artist", "Album", "01"), fixture_track("Years of Light", "Artist", "Album", "02")],
        20,
    );
    assert_eq!(track_titles(&rows), ["Years of Light", "Moonlight"]);
}

// Further checks of the ranking and context rules.

#[test]
fn entity_score_levels_in_half_points() {
    let terms = |ws: &[&str]| ws.iter().map(|w| w.to_string()).collect::<Vec<_>>();
    let none: Vec<&str> = Vec::new();
    assert_eq!(entity_score(&terms(&["blue"]), "blue", &none), 0);
    assert_eq!(entity_score(&terms(&["blue"]), "blue skies", &none), 2);
    assert_eq!(entity_score(&terms(&["light"]), "years of light", &none), 4);
    assert_eq!(entity_score(&terms(&["light"]), "moonlight", &none), 6);
    assert_eq!(entity_score(&terms(&["skies", "blue"]), "blue skies", &none), 7);
    assert_eq!(entity_score(&terms(&["blue", "example"]), "blue skies", &vec!["example"]), 8);
    assert_eq!(entity_score(&terms(&["blue", "zzz"]), "blue skies", &vec!["example"]), 10);
    assert_eq!(entity_score(&Vec::new(), "blue", &none), 10);
    // Only non-overlapping occurrences are looked at: "a a" inside "ba a a"
    // is found at 1 (after a letter) and the overlapping one at 3 is skipped.
    assert_eq!(entity_score(&terms(&["a", "a"]), "ba a a", &none), 6);
}

#[test]
fn metadata_score_falls_back_by_field() {
    let q = SearchQuery::parse("remaster");
    let fields = vec![("comment".to_string(), "remaster".to_string())];
    assert_eq!(metadata_score(&q, &fields, 4, true), 4);
    assert_eq!(metadata_score(&q, &fields, 10, true), 12);
    let fields = vec![("composer".to_string(), "remaster".to_string())];
    assert_eq!(metadata_score(&q, &fields, 10, true), 10);
    let fields = vec![("path".to_string(), "/remaster".to_string())];
    assert_eq!(metadata_score(&q, &fields, 10, true), 14);
    let fields = vec![("title".to_string(), "remaster".to_string())];
    assert_eq!(metadata_score(&q, &fields, 10, true), 10);
    assert_eq!(metadata_score(&q, &fields, 10, false), 14);
}

#[test]
fn match_detail_names_hidden_fields_once_and_at_most_three() {
    let q = SearchQuery::parse("sibelius salonen helsinki records");
    let fields = vec![
        ("composer".to_string(), "jean sibelius".to_string()),
        ("conductor".to_string(), "esa-pekka salonen".to_string()),
        ("performer".to_string(), "helsinki choir".to_string()),
        ("label".to_string(), "example records".to_string()),
    ];
    let visible: Vec<(&str, &str)> = vec![("title", "Song")];
    assert_eq!(
        hidden_match_detail(&q, &fields, &visible),
        "Composer: sibelius · Conductor: salonen · Performer: helsinki"
    );
    let visible: Vec<(&str, &str)> = vec![("title", "Sibelius Salonen Helsinki Records")];
    assert_eq!(hidden_match_detail(&q, &fields, &visible), "");
}

#[test]
fn tree_context_reads_artist_album_and_section() {
    let r = PreparedSearchRoot {
        path: "/music".to_string(),
        root_key: "/music".to_string(),
        root_label: "music".to_string(),
    };
    let c = derive_tree_path_context_for_root("/music/Artist/Album/CD2/01.flac", &r, "x").expect("context");
    assert_eq!(c.artist_name, "Artist");
    assert_eq!(c.artist_key, "artist|/music|Artist");
    assert_eq!(c.album_key.as_deref(), Some("album|/music|Artist|Album"));
    assert_eq!(c.section_key.as_deref(), Some("section|/music|Artist|Album|CD2"));
    assert_eq!(c.track_key, "track|/music/Artist/Album/CD2/01.flac");
    assert!(!c.is_main_level_album_track);
    assert!(c.is_disc_section_album_track);

    let c = derive_tree_path_context_for_root("/music/loose.flac", &r, "  Someone ").expect("context");
    assert_eq!(c.artist_name, "Someone");
    assert!(c.album_key.is_none());
    let c = derive_tree_path_context_for_root("/music/loose.flac", &r, " ").expect("context");
    assert_eq!(c.artist_name, "Unknown Artist");
    assert!(derive_tree_path_context_for_root("/other/a/b.flac", &r, "").is_none());
    assert!(derive_tree_path_context_for_root("/music", &r, "").is_none());
}

#[test]
fn deepest_root_holds_a_path() {
    let roots = vec![root("/music"), root("/music/Classical")];
    let c = derive_tree_path_context("/music/Classical/Bach/Mass/01.flac", &roots, "").expect("context");
    assert_eq!(c.artist_name, "Bach");
    assert_eq!(c.root_label, "Classical");
    assert!(path_starts_with_str("/music/a/b", "/music/"));
    assert!(!path_starts_with_str("/musical/a", "/music"));
}

#[test]
fn most_common_year_and_genre_break_ties_by_order() {
    assert_eq!(choose_most_common_year(&vec![(2001, 2), (1999, 2), (2005, 1)]), Some(1999));
    assert_eq!(choose_most_common_year(&vec![]), None);
    let g = vec![("Rock".to_string(), 1), ("Jazz".to_string(), 1)];
    assert_eq!(choose_most_common_genre(&g), "Jazz");
    assert_eq!(choose_most_common_genre(&vec![]), "");
}

#[test]
fn limits_follow_settings_and_query_length() {
    let s = SearchLimitSettings::defaults();
    let l = search_result_limits("a", &s);
    assert_eq!((l.artist, l.album, l.track), (5, 10, 20));
    assert_eq!(limit_setting(Some(" 900 "), 10, 1, 800), 800);
    assert_eq!(limit_setting(Some("0"), 10, 1, 800), 1);
    assert_eq!(limit_setting(Some("x"), 10, 1, 800), 10);
    assert_eq!(limit_setting(None, 10, 1, 800), 10);
}

#[test]
fn nothing_to_search_gives_an_empty_frame() {
    let library = LibrarySnapshot {
        roots: vec![root("/music")],
        tracks: vec![fixture_track("Blue", "A", "B", "01")],
        ..LibrarySnapshot::default()
    };
    let prepared = prepare_search_library(&library);
    let f = build_search_results_frame(7, "   ", 0, &library, &prepared, &SearchLimitSettings::defaults());
    assert_eq!(f.seq, 7);
    assert!(f.rows.is_empty());
    assert_eq!(f.totals, [0, 0, 0]);
}
