use ferrous::bridge::{BridgeCommand, BridgeLibraryCommand, BridgeSettingsCommand, RepeatMode};
use ferrous::library::{LibraryRoot, LibrarySnapshot, LibraryTrack};
use ferrous::playback_events::{process_playback_event, PlaybackBridgeState, PlaybackInput, PlaybackStatus};
use ferrous::tree_build::build_library_tree_flat_binary;
use ferrous::bridge_loop::{
    command_effects, configured_count, configured_ms, DrainedUrgencies, LoopEventKind, LoopIntervals, LoopSchedule,
    SnapshotUrgency, IDLE_WAKE_MS,
};
use ferrous::modes::LibrarySortMode;
use ferrous::queue::PlaybackState;

fn defaults() -> LoopIntervals {
    LoopIntervals::configured(None, None, None, None, None, None, None)
}

fn quiet() -> DrainedUrgencies {
    DrainedUrgencies {
        playback: SnapshotUrgency::Idle,
        analysis: SnapshotUrgency::Idle,
        metadata: SnapshotUrgency::Idle,
        library: SnapshotUrgency::Idle,
        apply_album_art: SnapshotUrgency::Idle,
        external_queue_details: SnapshotUrgency::Idle,
        lastfm: SnapshotUrgency::Idle,
    }
}

#[test]
fn tuning_values_are_parsed_and_clamped() {
    assert_eq!(configured_ms(None, 40, 8, 500), 40);
    assert_eq!(configured_ms(Some("100"), 40, 8, 500), 100);
    assert_eq!(configured_ms(Some("+100"), 40, 8, 500), 100);
    assert_eq!(configured_ms(Some("3"), 40, 8, 500), 8);
    assert_eq!(configured_ms(Some("99999"), 40, 8, 500), 500);
    assert_eq!(configured_ms(Some(" 100"), 40, 8, 500), 40);
    assert_eq!(configured_ms(Some("-5"), 40, 8, 500), 40);
    assert_eq!(configured_count(Some("10"), 256, 16, 50_000), 16);
    assert_eq!(configured_count(Some("1000"), 256, 16, 50_000), 1000);
    let d = defaults();
    assert_eq!(
        (d.playing_poll_ms, d.paused_poll_ms, d.playing_snapshot_ms, d.analysis_snapshot_ms, d.paused_snapshot_ms),
        (40, 333, 40, 16, 333)
    );
    assert_eq!((d.tree_emit_ms, d.tree_emit_min_track_delta), (250, 256));
}

#[test]
fn first_poll_is_due_at_once_and_then_waits_an_interval() {
    let mut s = LoopSchedule::new(defaults(), 1000);
    assert_eq!(s.last_playing_poll, 960);
    assert_eq!(LoopSchedule::new(defaults(), 10).last_playing_poll, 10);
    assert_eq!(s.next_playback_poll_delay(1000, PlaybackState::Playing, true), Some(0));
    assert!(s.poll_playback_if_due(1000, PlaybackState::Playing, true));
    assert!(!s.poll_playback_if_due(1030, PlaybackState::Playing, true));
    assert_eq!(s.next_playback_poll_delay(1030, PlaybackState::Playing, true), Some(10));
    assert_eq!(s.next_playback_poll_delay(1030, PlaybackState::Paused, false), None);
    assert_eq!(s.next_playback_poll_delay(1030, PlaybackState::Stopped, true), None);
    assert!(!s.poll_playback_if_due(1030, PlaybackState::Stopped, true));
}

#[test]
fn wake_delay_is_the_least_that_applies() {
    let mut s = LoopSchedule::new(defaults(), 1000);
    assert_eq!(s.next_wake_delay(1000, PlaybackState::Stopped, false, false, false), IDLE_WAKE_MS);
    assert_eq!(s.next_wake_delay(1500, PlaybackState::Stopped, false, false, true), 1500);
    assert_eq!(s.next_wake_delay(1500, PlaybackState::Stopped, false, true, true), 8);
    s.note_snapshot_urgency(SnapshotUrgency::Heartbeat);
    // a heartbeat waits only while the player is active
    assert_eq!(s.next_wake_delay(1010, PlaybackState::Stopped, false, false, false), IDLE_WAKE_MS);
    assert_eq!(s.next_snapshot_emit_delay(1010, PlaybackState::Paused, true), Some(323));
    s.settings_dirty = true;
    assert_eq!(s.next_wake_delay(2500, PlaybackState::Stopped, false, false, false), 500);
    s.defer_tree_rebuild(2500, 150);
    assert_eq!(s.next_wake_delay(2500, PlaybackState::Stopped, false, false, false), 150);
}

#[test]
fn snapshots_go_out_when_due_and_clear_what_they_carried() {
    let mut s = LoopSchedule::new(defaults(), 0);
    assert!(!s.snapshot_due(100, PlaybackState::Playing, true));
    s.note_snapshot_urgency(SnapshotUrgency::Heartbeat);
    s.note_snapshot_urgency(SnapshotUrgency::Idle);
    assert_eq!(s.pending_snapshot, SnapshotUrgency::Heartbeat);
    assert!(!s.snapshot_due(30, PlaybackState::Playing, true));
    assert!(s.snapshot_due(40, PlaybackState::Playing, true));
    assert!(!s.snapshot_due(40_000, PlaybackState::Stopped, true));
    s.snapshot_sent(40, 7, false);
    assert_eq!(s.pending_snapshot, SnapshotUrgency::Idle);
    assert!(!s.include_tree_in_next_snapshot);
    assert!(s.include_queue_in_next_snapshot);
    assert_eq!(s.last_tree_emit_at, Some(40));
    assert_eq!(s.last_tree_emit_track_count, 7);
    s.snapshot_dropped();
    assert_eq!(s.pending_snapshot, SnapshotUrgency::Immediate);
    assert!(s.snapshot_due(41, PlaybackState::Stopped, false));
    s.snapshot_sent(41, 9, true);
    assert!(!s.include_queue_in_next_snapshot);
    // the tree was not carried this time, so its record stays
    assert_eq!(s.last_tree_emit_track_count, 7);
}

#[test]
fn tree_updates_during_a_scan_are_throttled() {
    let mut s = LoopSchedule::new(defaults(), 0);
    assert!(s.library_refreshed(SnapshotUrgency::Immediate, true, 10, 0));
    s.snapshot_sent(0, 10, true);
    assert!(!s.library_refreshed(SnapshotUrgency::Immediate, true, 500, 100));
    assert!(s.include_queue_in_next_snapshot);
    assert!(!s.library_refreshed(SnapshotUrgency::Immediate, true, 200, 300));
    assert!(s.library_refreshed(SnapshotUrgency::Immediate, true, 266, 300));
    assert!(s.include_tree_in_next_snapshot);
    assert_eq!(s.pending_snapshot, SnapshotUrgency::Immediate);
    s.snapshot_sent(300, 266, true);
    assert!(s.library_refreshed(SnapshotUrgency::Heartbeat, false, 267, 301));
    assert!(!s.library_refreshed(SnapshotUrgency::Idle, false, 267, 302));
}

#[test]
fn deferred_rebuild_waits_for_its_deadline() {
    let mut s = LoopSchedule::new(defaults(), 0);
    s.snapshot_sent(0, 0, true);
    assert!(!s.deferred_tree_rebuild_due(10));
    s.defer_tree_rebuild(10, 150);
    assert!(!s.deferred_tree_rebuild_due(159));
    assert!(s.deferred_tree_rebuild_due(160));
    assert!(s.include_tree_in_next_snapshot);
    assert_eq!(s.deferred_tree_rebuild_at, None);
    assert!(!s.deferred_tree_rebuild_due(170));
}

#[test]
fn command_effects_follow_the_command() {
    let same = BridgeCommand::Settings(BridgeSettingsCommand::SetLibrarySortMode(LibrarySortMode::Year));
    let other = BridgeCommand::Settings(BridgeSettingsCommand::SetLibrarySortMode(LibrarySortMode::Title));
    assert!(!command_effects(&same, LibrarySortMode::Year).rebuild_tree);
    assert!(command_effects(&other, LibrarySortMode::Year).rebuild_tree);
    let art = BridgeCommand::Library(BridgeLibraryCommand::ApplyAlbumArt {
        track_path: "/a.flac".to_string(),
        artwork_path: "/c.jpg".to_string(),
    });
    let e = command_effects(&art, LibrarySortMode::Year);
    assert_eq!(e.deferred_tree_rebuild_ms, Some(350));
    assert!(!e.rebuild_tree);
    let snap = command_effects(&BridgeCommand::RequestSnapshot, LibrarySortMode::Year);
    assert!(snap.force_snapshot);
    let mut s = LoopSchedule::new(defaults(), 0);
    s.snapshot_sent(0, 0, true);
    let f = s.command_handled(e, true, 100);
    assert_eq!(f.urgency, SnapshotUrgency::Immediate);
    assert!(!f.emit_snapshot_now);
    assert_eq!(s.deferred_tree_rebuild_at, Some(450));
    assert!(s.session_dirty);
    let f = s.command_handled(snap, false, 100);
    assert_eq!(f.urgency, SnapshotUrgency::Idle);
    assert!(f.emit_snapshot_now);
}

#[test]
fn drained_events_combine_and_gapless_leaves_queue_out() {
    let mut s = LoopSchedule::new(defaults(), 0);
    s.snapshot_sent(0, 0, true);
    let d = DrainedUrgencies {
        analysis: SnapshotUrgency::Analysis,
        external_queue_details: SnapshotUrgency::Immediate,
        ..quiet()
    };
    let mut gapless = true;
    let (u, rebuild) = s.events_drained(d, false, 0, &mut gapless, 10);
    assert!(!gapless);
    assert_eq!(u, SnapshotUrgency::Immediate);
    assert!(!rebuild);
    assert!(!s.include_queue_in_next_snapshot);
    assert!(s.session_dirty);
    let mut t = LoopSchedule::new(defaults(), 0);
    t.snapshot_sent(0, 0, true);
    let mut gapless = false;
    let (u, _) = t.events_drained(quiet(), false, 0, &mut gapless, 10);
    assert!(!t.include_queue_in_next_snapshot);
    assert!(!gapless);
    assert_eq!(u, SnapshotUrgency::Idle);
    assert!(!t.session_dirty);
    assert!(!t.event_handled(LoopEventKind::ApplyAlbumArt, SnapshotUrgency::Immediate, false, 0, 20));
    assert_eq!(t.deferred_tree_rebuild_at, Some(170));
    assert!(t.event_handled(LoopEventKind::Library, SnapshotUrgency::Immediate, false, 0, 20));
    assert_eq!(t.deferred_tree_rebuild_at, None);
}

#[test]
fn saves_wait_two_seconds_after_the_last() {
    let mut s = LoopSchedule::new(defaults(), 1000);
    assert!(!s.settings_save_due(5000));
    s.settings_dirty = true;
    s.session_dirty = true;
    assert!(!s.settings_save_due(2999));
    assert!(s.settings_save_due(3000));
    assert!(!s.settings_dirty);
    assert_eq!(s.last_settings_save, 3000);
    assert!(s.session_save_due(3000));
    assert!(!s.session_save_due(9000));
    assert!(!s.queue_detail_revalidation_due(2999));
    assert!(s.queue_detail_revalidation_due(3000));
    s.queue_details_revalidated(true, 3000);
    assert!(s.session_dirty);
    assert_eq!(s.pending_snapshot, SnapshotUrgency::Immediate);
    assert!(!s.queue_detail_revalidation_due(4999));
}

#[test]
fn playing_position_updates_wait_for_coarse_heartbeat() {
    let now = 10_000u64;
    let mut runtime = LoopSchedule::new(defaults(), now);
    runtime.snapshot_sent(now, 0, true);
    let track = "/tmp/ferrous_playing_heartbeat.flac".to_string();
    let mut state = PlaybackBridgeState {
        playback: PlaybackStatus {
            state: PlaybackState::Playing,
            current: Some(track.clone()),
            current_queue_index: None,
            volume_bits: 1.0f32.to_bits(),
            repeat_mode: RepeatMode::Off,
            shuffle_enabled: false,
            position_ns: 0,
            duration_ns: 0,
            current_bitrate_kbps: None,
        },
        pending_waveform_track: None,
        analysis_track_token: 0,
        skip_queue_for_gapless: false,
    };
    runtime.last_playing_poll = now;
    runtime.last_snapshot_emit = now;

    let mut playback_snapshot = state.playback.clone();
    playback_snapshot.position_ns = 1_000_000_000;
    let out = process_playback_event(
        PlaybackInput::Snapshot { status: playback_snapshot, volume_changed: false },
        &mut state,
        true,
    );
    runtime.event_handled(LoopEventKind::Playback, out.urgency, false, 0, now);
    runtime.note_snapshot_urgency(out.urgency);
    assert!(!runtime.poll_playback_if_due(now, PlaybackState::Playing, true));
    assert!(!runtime.snapshot_due(now, PlaybackState::Playing, true));
    assert_eq!(state.playback.state, PlaybackState::Playing);
    assert_eq!(state.playback.current.as_ref(), Some(&track));
    assert_eq!(state.playback.position_ns, 1_000_000_000);

    runtime.last_snapshot_emit = now - runtime.intervals.playing_snapshot_ms;
    assert!(runtime.snapshot_due(now, PlaybackState::Playing, true));
}

#[test]
fn library_event_rebuilds_tree_on_first_wake() {
    let mut runtime = LoopSchedule::new(defaults(), 0);
    runtime.snapshot_sent(0, 0, true);
    let snapshot = LibrarySnapshot {
        roots: vec![LibraryRoot { path: "/music".to_string(), name: String::new() }],
        tracks: vec![LibraryTrack {
            path: "/music/Artist/Album/01 - Song.flac".to_string(),
            root_path: "/music".to_string(),
            artist: "Artist".to_string(),
            album: "Album".to_string(),
            year: Some(2020),
            track_no: Some(1),
            ..LibraryTrack::default()
        }],
        ..LibrarySnapshot::default()
    };
    let rebuild = runtime.event_handled(LoopEventKind::Library, SnapshotUrgency::Immediate, false, snapshot.tracks.len(), 5);
    assert!(rebuild);
    assert!(runtime.snapshot_due(5, PlaybackState::Stopped, false));
    assert!(runtime.include_tree_in_next_snapshot);
    let tree = build_library_tree_flat_binary(&snapshot, LibrarySortMode::Year, None, &vec![]);
    assert_eq!(snapshot.tracks.len(), 1);
    assert!(!tree.is_empty());
}
