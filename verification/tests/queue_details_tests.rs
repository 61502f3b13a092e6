use ferrous::library::{LibrarySnapshot, LibraryTrack};
use ferrous::library_updates::{apply_renamed_library_paths, update_library_track_details};
use ferrous::path_map::PathMap;
use ferrous::queue_details::{apply_renamed_queue_paths, IndexedTrack, QueueDetailState, TrackFileFingerprint};

fn fp(m: i64) -> TrackFileFingerprint {
    TrackFileFingerprint { mtime_ns: m, size_bytes: 10 }
}

fn details(title: &str) -> IndexedTrack {
    IndexedTrack {
        title: title.to_string(),
        artist: "A".to_string(),
        album: "B".to_string(),
        cover_path: String::new(),
        genre: String::new(),
        year: None,
        track_no: None,
        duration_bits: Some(1.5f32.to_bits()),
    }
}

fn s(v: &str) -> String {
    v.to_string()
}

#[test]
fn sync_requests_external_tracks_and_prunes_removed_entries() {
    let mut st = QueueDetailState::new();
    st.details.insert(s("/old/gone.flac"), details("Gone"));
    st.fingerprints.insert(s("/old/gone.flac"), fp(1));
    let queue = vec![s("/ext/a.flac"), s("/music/lib.flac"), s("/ext/missing.flac")];
    let library = vec![s("/music/lib.flac")];
    let probes = vec![Some(fp(5)), Some(fp(6)), None];
    let (changed, requests) = st.begin_sync(&queue, &library, &probes);
    assert!(changed);
    assert!(!st.details.contains("/old/gone.flac"));
    assert!(!st.fingerprints.contains("/old/gone.flac"));
    assert_eq!(requests.len(), 1);
    assert_eq!(requests[0].0, "/ext/a.flac");
    assert_eq!(requests[0].1, fp(5));

    let (changed, to_send) = st.finish_sync(&requests, &vec![None]);
    assert!(!changed);
    assert_eq!(to_send.len(), 1);
    assert!(st.pending.contains("/ext/a.flac"));

    // A second sync does not ask again while the read is pending.
    let (_, requests) = st.begin_sync(&queue, &library, &probes);
    assert!(requests.is_empty());

    // The worker's answer arrives; the cache held it this time.
    let (changed, requests) = {
        let mut fresh = QueueDetailState::new();
        let r = fresh.begin_sync(&queue, &library, &probes);
        let (c, sent) = fresh.finish_sync(&r.1, &vec![Some(details("A song"))]);
        assert!(sent.is_empty());
        assert!(fresh.details.contains("/ext/a.flac"));
        assert_eq!(fresh.fingerprints.get("/ext/a.flac"), Some(&fp(5)));
        (c, r.1)
    };
    assert!(changed);
    assert_eq!(requests.len(), 1);
}

#[test]
fn sync_invalidates_stale_details_when_file_changes() {
    let mut st = QueueDetailState::new();
    st.details.insert(s("/ext/a.flac"), details("Old"));
    st.fingerprints.insert(s("/ext/a.flac"), fp(1));
    let queue = vec![s("/ext/a.flac")];
    let (changed, requests) = st.begin_sync(&queue, &vec![], &vec![Some(fp(1))]);
    assert!(!changed);
    assert!(requests.is_empty());
    let (changed, requests) = st.begin_sync(&queue, &vec![], &vec![Some(fp(2))]);
    assert!(changed);
    assert!(!st.details.contains("/ext/a.flac"));
    assert_eq!(requests.len(), 1);
}

#[test]
fn paths_naming_the_same_place_share_an_entry() {
    let mut st = QueueDetailState::new();
    st.details.insert(s("/ext//a.flac"), details("One"));
    assert!(st.details.contains("/ext/a.flac"));
    st.details.insert(s("/ext/./a.flac"), details("Two"));
    assert_eq!(st.details.entries.len(), 1);
    assert_eq!(st.details.get("/ext/a.flac").map(|d| d.title.as_str()), Some("Two"));
}

#[test]
fn fresh_details_skip_library_files_and_clear_pending() {
    let mut st = QueueDetailState::new();
    st.pending.insert(s("/ext/a.flac"), fp(3));
    st.details.insert(s("/music/lib.flac"), details("Lib"));
    let indexed = vec![(s("/ext/a.flac"), details("A")), (s("/music/lib.flac"), details("L"))];
    let changed = st.update_queue_track_details(&vec![s("/music/lib.flac")], &indexed, &vec![Some(fp(3)), None]);
    assert!(changed);
    assert!(!st.pending.contains("/ext/a.flac"));
    assert_eq!(st.fingerprints.get("/ext/a.flac"), Some(&fp(3)));
    assert!(!st.details.contains("/music/lib.flac"));
    // The same details again change nothing.
    let changed = st.update_queue_track_details(&vec![], &vec![(s("/ext/a.flac"), details("A"))], &vec![None]);
    assert!(!changed);
    st.forget_pending("/ext/a.flac");
}

#[test]
fn renames_move_queue_entries_current_track_and_details() {
    let mut queue = vec![s("/ext/a.flac"), s("/ext/b.flac")];
    let mut current = Some(s("/ext/a.flac"));
    let mut st = QueueDetailState::new();
    st.details.insert(s("/ext/a.flac"), details("A"));
    st.fingerprints.insert(s("/ext/a.flac"), fp(1));
    let pairs = vec![(s("/ext/a.flac"), s("/ext/a2.flac"))];
    let mut renames: PathMap<String> = PathMap::new();
    renames.insert(s("/ext/a.flac"), s("/ext/a2.flac"));
    let idx: PathMap<IndexedTrack> = PathMap::new();
    let (changed, current_renamed) =
        apply_renamed_queue_paths(&mut queue, &mut current, &mut st, &pairs, &renames, &vec![], &idx);
    assert!(changed);
    assert!(current_renamed);
    assert_eq!(queue, vec![s("/ext/a2.flac"), s("/ext/b.flac")]);
    assert_eq!(current.as_deref(), Some("/ext/a2.flac"));
    assert!(st.details.contains("/ext/a2.flac"));
    assert!(!st.details.contains("/ext/a.flac"));
    assert_eq!(st.fingerprints.get("/ext/a2.flac"), Some(&fp(1)));
}

#[test]
fn library_tracks_take_fresh_details_and_new_paths() {
    let mut lib = LibrarySnapshot {
        tracks: vec![LibraryTrack { path: s("/m/a.flac"), title: s("Old"), ..LibraryTrack::default() }],
        search_revision: 4,
        ..LibrarySnapshot::default()
    };
    let mut idx: PathMap<IndexedTrack> = PathMap::new();
    idx.insert(s("/m/a.flac"), details("New"));
    assert!(update_library_track_details(&mut lib, &idx));
    assert_eq!(lib.tracks[0].title, "New");
    assert_eq!(lib.search_revision, 5);
    assert!(!update_library_track_details(&mut lib, &idx));
    assert_eq!(lib.search_revision, 5);

    let mut renames: PathMap<String> = PathMap::new();
    renames.insert(s("/m/a.flac"), s("/m/b.flac"));
    let none: PathMap<IndexedTrack> = PathMap::new();
    assert!(apply_renamed_library_paths(&mut lib, &renames, &none));
    assert_eq!(lib.tracks[0].path, "/m/b.flac");
    assert_eq!(lib.search_revision, 6);
}

#[test]
fn sync_queue_details_skips_library_tracks_in_queue() {
    let track = s("/library/song.flac");
    let mut st = QueueDetailState::new();
    let queue = vec![track.clone()];
    let library = vec![track.clone()];
    let (changed, requests) = st.begin_sync(&queue, &library, &vec![Some(fp(1))]);
    assert!(!changed);
    assert!(!st.details.contains(&track));
    assert!(requests.is_empty());
}

#[test]
fn sync_queue_details_invalidates_stale_external_metadata_when_file_changes() {
    let track = s("/outside/song.flac");
    let old_fingerprint = fp(1);
    let mut st = QueueDetailState::new();
    st.details.insert(track.clone(), details("Old"));
    st.fingerprints.insert(track.clone(), old_fingerprint);
    let (changed, requests) = st.begin_sync(&vec![track.clone()], &vec![], &vec![Some(fp(2))]);
    assert!(changed);
    assert!(!st.details.contains(&track));
    assert_eq!(requests.len(), 1);
    assert_ne!(requests[0].1, old_fingerprint);
    let (_, sent) = st.finish_sync(&requests, &vec![None]);
    assert_eq!(sent.len(), 1);
    assert_eq!(st.pending.get(&track), Some(&requests[0].1));
}

#[test]
fn external_queue_detail_event_is_ignored_when_track_is_in_library() {
    let track = s("/music/song.flac");
    let fingerprint = fp(3);
    let mut st = QueueDetailState::new();
    st.pending.insert(track.clone(), fingerprint);
    let changed = st.external_details_arrived(
        track.clone(),
        fingerprint,
        details("External Title"),
        &vec![track.clone()],
        &vec![track.clone()],
        Some(fingerprint),
    );
    assert!(!changed);
    assert!(!st.details.contains(&track));
    assert!(!st.pending.contains(&track));
}

#[test]
fn arriving_details_count_only_for_the_pending_read() {
    let track = s("/outside/a.flac");
    let mut st = QueueDetailState::new();
    st.pending.insert(track.clone(), fp(5));
    let queue = vec![track.clone()];
    // an answer to an older read changes nothing
    assert!(!st.external_details_arrived(track.clone(), fp(4), details("Old"), &queue, &vec![], Some(fp(5))));
    assert!(st.pending.contains(&track));
    // the pending one is taken
    assert!(st.external_details_arrived(track.clone(), fp(5), details("New"), &queue, &vec![], Some(fp(5))));
    assert!(!st.pending.contains(&track));
    assert_eq!(st.details.get(&track).map(|d| d.title.clone()), Some(s("New")));
    assert_eq!(st.fingerprints.get(&track), Some(&fp(5)));
    // the same details again change nothing
    st.pending.insert(track.clone(), fp(5));
    assert!(!st.external_details_arrived(track.clone(), fp(5), details("New"), &queue, &vec![], Some(fp(5))));
    // a file that changed again loses its details
    st.pending.insert(track.clone(), fp(5));
    assert!(st.external_details_arrived(track.clone(), fp(5), details("New"), &queue, &vec![], Some(fp(6))));
    assert!(!st.details.contains(&track));
}
