use ferrous::album_art::{current_track_number, process_apply_album_art_event};
use ferrous::bridge_loop::SnapshotUrgency;
use ferrous::library::{LibrarySnapshot, LibraryTrack};
use ferrous::path_map::PathMap;
use ferrous::queue_details::{IndexedTrack, QueueDetailState, TrackFileFingerprint};

fn s(v: &str) -> String {
    v.to_string()
}

fn with_cover(cover: &str, track_no: Option<u32>) -> IndexedTrack {
    IndexedTrack {
        title: s("T"),
        artist: String::new(),
        album: String::new(),
        cover_path: s(cover),
        genre: String::new(),
        year: None,
        track_no,
        duration_bits: None,
    }
}

fn fp(m: i64) -> TrackFileFingerprint {
    TrackFileFingerprint { mtime_ns: m, size_bytes: 1 }
}

#[test]
fn new_album_art_reaches_library_queue_and_playing_track() {
    let mut library = LibrarySnapshot {
        tracks: vec![
            LibraryTrack { path: s("/m/a.flac"), cover_path: s("/m/old.jpg"), ..LibraryTrack::default() },
            LibraryTrack { path: s("/m/b.flac"), cover_path: s("/m/old.jpg"), ..LibraryTrack::default() },
        ],
        search_revision: 3,
        ..LibrarySnapshot::default()
    };
    let mut details = QueueDetailState::new();
    details.details.insert(s("/x/c.flac"), with_cover("", None));
    let mut fresh: PathMap<IndexedTrack> = PathMap::new();
    fresh.insert(s("/m/a.flac"), with_cover("/m/new.jpg", None));
    fresh.insert(s("/x/c.flac"), with_cover("/x/cover.png", None));
    let probes = vec![Some(fp(1)), Some(fp(2))];
    let mut shown = Some(s("/m/old.jpg"));
    let out = process_apply_album_art_event(
        s("/m/a.flac"),
        &fresh,
        None,
        &probes,
        &mut library,
        &mut details,
        &Some(s("/m/a.flac")),
        &mut shown,
    );
    assert_eq!(out.urgency, SnapshotUrgency::Immediate);
    assert_eq!(out.request_metadata.as_deref(), Some("/m/a.flac"));
    assert!(out.report_error.is_none());
    assert_eq!(library.tracks[0].cover_path, "/m/new.jpg");
    assert_eq!(library.tracks[1].cover_path, "/m/old.jpg");
    assert_eq!(library.search_revision, 4);
    assert_eq!(details.details.get("/x/c.flac").map(|d| d.cover_path.clone()), Some(s("/x/cover.png")));
    assert_eq!(details.fingerprints.get("/x/c.flac"), Some(&fp(2)));
    assert!(!details.fingerprints.contains("/m/a.flac"));
    assert_eq!(shown.as_deref(), Some("/m/new.jpg"));
}

#[test]
fn failed_album_art_without_files_only_reports() {
    let mut library = LibrarySnapshot::default();
    let mut details = QueueDetailState::new();
    let fresh: PathMap<IndexedTrack> = PathMap::new();
    let mut shown = Some(s("/c.jpg"));
    let out = process_apply_album_art_event(
        s("/m/a.flac"),
        &fresh,
        Some(s("failed to apply album art: denied")),
        &vec![],
        &mut library,
        &mut details,
        &None,
        &mut shown,
    );
    assert_eq!(out.urgency, SnapshotUrgency::Idle);
    assert!(out.request_metadata.is_none());
    assert_eq!(out.report_error.as_deref(), Some("failed to apply album art: denied"));
    assert_eq!(shown.as_deref(), Some("/c.jpg"));
}

#[test]
fn blank_new_cover_clears_the_shown_one() {
    let mut library = LibrarySnapshot::default();
    let mut details = QueueDetailState::new();
    let mut fresh: PathMap<IndexedTrack> = PathMap::new();
    fresh.insert(s("/m/a.flac"), with_cover("", None));
    let mut shown = Some(s("/c.jpg"));
    let _ = process_apply_album_art_event(
        s("/m/a.flac"),
        &fresh,
        Some(s("failed to refresh cover paths: x")),
        &vec![None],
        &mut library,
        &mut details,
        &Some(s("/m//a.flac")),
        &mut shown,
    );
    assert_eq!(shown, None);
}

#[test]
fn playing_track_number_prefers_file_details_then_first_library_track() {
    let library = LibrarySnapshot {
        tracks: vec![
            LibraryTrack { path: s("/m/a.flac"), track_no: Some(4), ..LibraryTrack::default() },
            LibraryTrack { path: s("/m/a.flac"), track_no: Some(9), ..LibraryTrack::default() },
        ],
        ..LibrarySnapshot::default()
    };
    let mut details: PathMap<IndexedTrack> = PathMap::new();
    assert_eq!(current_track_number(&None, &details, &library), None);
    assert_eq!(current_track_number(&Some(s("/m/a.flac")), &details, &library), Some(4));
    details.insert(s("/m/a.flac"), with_cover("", None));
    assert_eq!(current_track_number(&Some(s("/m/a.flac")), &details, &library), Some(4));
    details.insert(s("/m/a.flac"), with_cover("", Some(2)));
    assert_eq!(current_track_number(&Some(s("/m/a.flac")), &details, &library), Some(2));
    assert_eq!(current_track_number(&Some(s("/other.flac")), &details, &library), None);
}
