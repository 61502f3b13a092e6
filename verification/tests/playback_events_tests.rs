use ferrous::bridge::RepeatMode;
use ferrous::bridge_loop::SnapshotUrgency;
use ferrous::playback_events::{
    playback_snapshot_urgency, process_playback_event, AnalysisRequest, PlaybackBridgeState, PlaybackInput,
    PlaybackStatus, TrackChangeKind,
};
use ferrous::queue::PlaybackState;

fn p(path: &str) -> String {
    path.to_string()
}

fn stopped_status() -> PlaybackStatus {
    PlaybackStatus {
        state: PlaybackState::Stopped,
        current: None,
        current_queue_index: None,
        volume_bits: 1.0f32.to_bits(),
        repeat_mode: RepeatMode::Off,
        shuffle_enabled: false,
        position_ns: 0,
        duration_ns: 0,
        current_bitrate_kbps: None,
    }
}

fn bridge_state() -> PlaybackBridgeState {
    PlaybackBridgeState {
        playback: stopped_status(),
        pending_waveform_track: None,
        analysis_track_token: 0,
        skip_queue_for_gapless: false,
    }
}

#[test]
fn stopped_track_change_defers_waveform_load_until_playback_resumes() {
    let mut state = bridge_state();
    state.playback.state = PlaybackState::Stopped;
    let path = p("/music/deferred.flac");
    let out = process_playback_event(
        PlaybackInput::TrackChanged { path: path.clone(), queue_index: 0, kind: TrackChangeKind::Manual, track_token: 1 },
        &mut state,
        true,
    );
    assert_eq!(out.urgency, SnapshotUrgency::Immediate);
    assert!(state.pending_waveform_track.is_some());
    assert!(out.analysis.is_empty());

    let mut snapshot = state.playback.clone();
    snapshot.state = PlaybackState::Playing;
    snapshot.current = Some(path.clone());
    snapshot.current_queue_index = Some(0);
    let out = process_playback_event(PlaybackInput::Snapshot { status: snapshot, volume_changed: false }, &mut state, true);
    assert_eq!(out.urgency, SnapshotUrgency::Immediate);
    assert!(state.pending_waveform_track.is_none());
    assert_eq!(
        out.analysis,
        vec![
            AnalysisRequest::SetTrack { path, reset_spectrogram: true, track_token: 1, gapless: false },
            AnalysisRequest::PositionUpdate { position_ns: 0 },
        ]
    );
}

#[test]
fn stopped_replay_restarts_spectrogram_on_resume() {
    let path = p("/music/replay.flac");
    let mut state = bridge_state();
    state.playback.state = PlaybackState::Stopped;
    state.playback.current = Some(path.clone());
    state.playback.position_ns = 0;
    state.analysis_track_token = 7;

    let mut snapshot = state.playback.clone();
    snapshot.state = PlaybackState::Playing;
    snapshot.current = Some(path);
    snapshot.position_ns = 0;
    let out = process_playback_event(PlaybackInput::Snapshot { status: snapshot, volume_changed: false }, &mut state, true);
    assert_eq!(out.urgency, SnapshotUrgency::Immediate);
    assert!(state.pending_waveform_track.is_none());
    assert_eq!(out.analysis, vec![AnalysisRequest::RestartCurrentTrack { position_ns: 0 }]);
}

#[test]
fn seek_event_does_not_trigger_early_track_switch_side_effects() {
    let mut state = bridge_state();
    state.playback.current = Some(p("/music/a.flac"));
    state.analysis_track_token = 1;

    let out = process_playback_event(PlaybackInput::Seeked { position_ns: 42_000_000_000 }, &mut state, false);
    assert_eq!(out.urgency, SnapshotUrgency::Heartbeat);
    assert_eq!(state.playback.position_ns, 42_000_000_000);
    assert!(!out.clear_waveform);
    assert!(out.request_metadata.is_none());
    assert_eq!(out.analysis, vec![AnalysisRequest::SeekPosition { position_ns: 42_000_000_000 }]);

    let out = process_playback_event(
        PlaybackInput::TrackChanged { path: p("/music/b.flac"), queue_index: 1, kind: TrackChangeKind::Manual, track_token: 1 },
        &mut state,
        false,
    );
    assert!(out.clear_waveform);
    assert_eq!(out.request_metadata.as_deref(), Some("/music/b.flac"));
}

#[test]
fn stopped_snapshot_clears_waveform_peaks() {
    let mut state = bridge_state();
    let mut snapshot = state.playback.clone();
    snapshot.state = PlaybackState::Stopped;
    let out = process_playback_event(PlaybackInput::Snapshot { status: snapshot, volume_changed: false }, &mut state, false);
    assert!(out.clear_waveform);
    assert_eq!(out.urgency, SnapshotUrgency::Immediate);
    let again = process_playback_event(
        PlaybackInput::Snapshot { status: state.playback.clone(), volume_changed: false },
        &mut state,
        true,
    );
    assert!(!again.clear_waveform);
    assert_eq!(again.urgency, SnapshotUrgency::Idle);
}

#[test]
fn status_urgency_ranks_what_changed() {
    let a = stopped_status();
    let mut b = a.clone();
    b.position_ns = 5;
    assert_eq!(playback_snapshot_urgency(&a, &b, false), SnapshotUrgency::Heartbeat);
    assert_eq!(playback_snapshot_urgency(&a, &b, true), SnapshotUrgency::Immediate);
    let mut c = a.clone();
    c.current = Some(p("/x//y.flac"));
    let mut d = a.clone();
    d.current = Some(p("/x/y.flac"));
    assert_eq!(playback_snapshot_urgency(&c, &d, false), SnapshotUrgency::Idle);
    assert_eq!(playback_snapshot_urgency(&a, &d, false), SnapshotUrgency::Immediate);
}

#[test]
fn gapless_change_loads_at_once_and_leaves_queue_out() {
    let mut state = bridge_state();
    state.playback.state = PlaybackState::Playing;
    state.playback.current = Some(p("/a.flac"));
    state.pending_waveform_track = None;
    let out = process_playback_event(
        PlaybackInput::TrackChanged { path: p("/b.flac"), queue_index: 3, kind: TrackChangeKind::Gapless, track_token: 9 },
        &mut state,
        false,
    );
    assert!(state.skip_queue_for_gapless);
    assert_eq!(state.playback.current_queue_index, Some(3));
    assert_eq!(state.analysis_track_token, 9);
    assert_eq!(
        out.analysis,
        vec![AnalysisRequest::SetTrack { path: p("/b.flac"), reset_spectrogram: false, track_token: 9, gapless: true }]
    );
}
