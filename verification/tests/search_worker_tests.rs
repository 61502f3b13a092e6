use ferrous::library::{LibraryRoot, LibrarySnapshot, LibraryTrack};
use ferrous::search_finalize::{build_search_results_frame, SearchLimitSettings};
use ferrous::search_prepare::prepare_search_library;
use ferrous::search_query::SearchQuery;
use ferrous::search_walk::{continue_search, search_tracks_prepared, start_search};
use ferrous::search_worker::{
    is_cache_warmup, latest_interactive_query, next_query, search_cancel_poll_rows, PreparedCacheState,
    SearchRequest,
};

fn root(path: &str) -> LibraryRoot {
    LibraryRoot { path: path.to_string(), name: String::new() }
}

fn fixture_track(title: &str, artist: &str, album: &str, file: &str) -> LibraryTrack {
    LibraryTrack {
        path: format!("/music/{artist}/{album}/{file}.flac"),
        root_path: "/music".to_string(),
        title: title.into(),
        artist: artist.into(),
        album: album.into(),
        ..LibraryTrack::default()
    }
}

fn request(seq: u32, query: &str) -> SearchRequest {
    SearchRequest { seq, query: query.to_string() }
}

#[test]
fn cache_warmup_does_not_replace_a_queued_query() {
    let library = LibrarySnapshot {
        roots: vec![root("/music")],
        tracks: vec![fixture_track("Blue", "Artist", "Album", "01")],
        ..LibrarySnapshot::default()
    };
    // the worker took the interactive request first; a warm-up waits behind it
    let current = request(42, "blue");
    let waiting = vec![request(0, "")];
    assert_eq!(next_query(&current, &waiting), None);
    let prepared = prepare_search_library(&library);
    let frame = build_search_results_frame(current.seq, &current.query, 0, &library, &prepared, &SearchLimitSettings::defaults());
    assert_eq!(frame.seq, 42);
    assert_eq!(frame.totals[2], 1);
}

#[test]
fn cache_warmup_does_not_cancel_in_progress_search() {
    let library = LibrarySnapshot {
        roots: vec![root("/music")],
        tracks: vec![fixture_track("Blue", "Artist", "Album", "01")],
        ..LibrarySnapshot::default()
    };
    let prepared = prepare_search_library(&library);
    let waiting = vec![request(0, "")];
    assert_eq!(latest_interactive_query(&waiting), None);
    let acc = search_tracks_prepared(&SearchQuery::parse("blue"), &prepared.tracks, &library.roots);
    assert_eq!(acc.track_count, 1);
}

#[test]
fn prepared_search_cancels_when_newer_query_arrives() {
    let waiting = vec![request(99, "new")];
    let next = latest_interactive_query(&waiting).expect("cancellation");
    assert_eq!(waiting[next].seq, 99);
}

#[test]
fn prepared_cache_reuses_same_search_revision_across_snapshot_arcs() {
    let mut cache = PreparedCacheState::new();
    assert!(!cache.reusable(7, false));
    cache.prepared(7);
    assert!(cache.reusable(7, false));
}

#[test]
fn prepared_cache_rebuilds_when_search_revision_changes() {
    let mut cache = PreparedCacheState::new();
    cache.prepared(7);
    assert!(!cache.reusable(8, false));
    cache.prepared(0);
    assert!(!cache.reusable(0, false));
    assert!(cache.reusable(0, true));
}

#[test]
fn waiting_requests_coalesce_to_the_newest_that_counts() {
    let idle = request(0, "");
    assert!(is_cache_warmup(&idle));
    assert!(!is_cache_warmup(&request(0, "x")));
    let waiting = vec![request(3, "a"), request(4, "ab"), request(0, "")];
    assert_eq!(next_query(&idle, &waiting), Some(1));
    assert_eq!(next_query(&idle, &vec![request(0, "")]), Some(0));
    assert_eq!(next_query(&request(5, ""), &vec![]), None);
    assert_eq!(latest_interactive_query(&waiting), Some(1));
}

#[test]
fn a_search_walked_in_stretches_matches_one_walk() {
    let tracks: Vec<LibraryTrack> = (0..40)
        .map(|i| fixture_track(&format!("Blue {i}"), if i % 2 == 0 { "Alpha" } else { "Beta" }, "Album", &format!("{i:02}")))
        .collect();
    let library = LibrarySnapshot { roots: vec![root("/music")], tracks, ..LibrarySnapshot::default() };
    let prepared = prepare_search_library(&library);
    let query = SearchQuery::parse("blue");
    let whole = search_tracks_prepared(&query, &prepared.tracks, &library.roots);
    let step = search_cancel_poll_rows(Some("16"));
    assert_eq!(step, 16);
    assert_eq!(search_cancel_poll_rows(None), 64);
    assert_eq!(search_cancel_poll_rows(Some(" 5 ")), 16);
    let mut acc = start_search(&library.roots);
    let mut from = 0;
    while from < prepared.tracks.len() {
        let to = usize::min(from + step, prepared.tracks.len());
        continue_search(&mut acc, &query, &prepared.tracks, from, to);
        from = to;
    }
    assert_eq!(acc.track_count, whole.track_count);
    assert_eq!(acc.track_rows.len(), 40);
    let labels: Vec<&str> = acc.track_rows.iter().map(|r| r.label.as_str()).collect();
    let whole_labels: Vec<&str> = whole.track_rows.iter().map(|r| r.label.as_str()).collect();
    assert_eq!(labels, whole_labels);
    assert_eq!(acc.artist_groups.len(), whole.artist_groups.len());
}
