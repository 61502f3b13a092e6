use ferrous::library::LibrarySnapshot;
use ferrous::library::LibraryTrack;
use ferrous::modes::SpectrogramDisplayMode;
use ferrous::ranking::entity_score;
use ferrous::session::{resolve_session_current_index, should_sync_queue_details_on_initial_restore};
use ferrous::snapshot_packet::{merge_queue_snapshot, SnapshotQueuePart};

fn p(path: &str) -> String {
    path.to_string()
}

#[test]
fn initial_restore_skips_queue_detail_sync_until_library_is_loaded() {
    let queue = vec![p("/music/a.flac")];
    let mut library = LibrarySnapshot::default();
    assert!(!should_sync_queue_details_on_initial_restore(&queue, library.tracks.len()));
    library.tracks = vec![LibraryTrack { path: p("/music/a.flac"), ..LibraryTrack::default() }];
    assert!(should_sync_queue_details_on_initial_restore(&queue, library.tracks.len()));
}

#[test]
fn merge_queue_snapshot_preserves_latest_included_queue() {
    let queue_snapshot = SnapshotQueuePart {
        queue_included: true,
        queue: vec![p("/music/a.flac")],
        selected_queue_index: Some(0),
    };
    let latest_snapshot = SnapshotQueuePart { queue_included: false, queue: vec![], selected_queue_index: None };
    let merged = merge_queue_snapshot(latest_snapshot, Some(queue_snapshot.clone()));
    assert!(merged.queue_included);
    assert_eq!(merged.queue, queue_snapshot.queue);
    assert_eq!(merged.selected_queue_index, queue_snapshot.selected_queue_index);
    let own = SnapshotQueuePart { queue_included: true, queue: vec![p("/b")], selected_queue_index: None };
    let kept = merge_queue_snapshot(own, Some(queue_snapshot));
    assert_eq!(kept.queue, vec![p("/b")]);
}

#[test]
fn saved_track_is_found_by_place_not_spelling() {
    let queue = vec![p("/a/x.flac"), p("/a/b.flac")];
    assert_eq!(resolve_session_current_index(&queue, None, Some(&p("/a//b.flac"))), Some(1));
    assert_eq!(resolve_session_current_index(&queue, Some(9), Some(&p("/a/b.flac/"))), Some(1));
    assert_eq!(resolve_session_current_index(&queue, None, Some(&p("/a/c.flac"))), None);
}

#[test]
fn display_mode_names_read_back_in_any_case() {
    for m in [SpectrogramDisplayMode::Rolling, SpectrogramDisplayMode::Centered] {
        assert_eq!(SpectrogramDisplayMode::parse_settings_value(m.settings_value()), Some(m));
        let shouted = format!("  {}  ", m.settings_value().to_ascii_uppercase());
        assert_eq!(SpectrogramDisplayMode::parse_settings_value(&shouted), Some(m));
    }
}

#[test]
fn entity_score_ignores_repeated_secondary_values() {
    let terms = vec![p("blue"), p("sky")];
    let a = "blue";
    let b = "sky";
    let repeated = entity_score(&terms, "other", &vec![a, a, b]);
    let once = entity_score(&terms, "other", &vec![a, b]);
    assert_eq!(repeated, once);
    assert_eq!(once, 8);
    assert_eq!(entity_score(&terms, "blue sky", &vec![]), 0);
    assert_eq!(entity_score(&terms, "blue sky live", &vec![]), 2);
}
