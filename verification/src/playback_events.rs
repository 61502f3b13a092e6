//! What the bridge does with the player's events: how urgent a new status
//! is, when the waveform is dropped, and what the analysis engine is told
//! when the track changes, playback resumes or the position moves. The
//! waveform's samples, the engines and the clock stay with the caller,
//! which carries out the outcome.
use vstd::prelude::*;

use crate::bridge::RepeatMode;
use crate::bridge_loop::SnapshotUrgency;
use crate::path_map::{pkey, same_place};
use crate::queue::PlaybackState;

verus! {

/// The player's status as the bridge keeps it. Times are nanoseconds; the
/// volume is held as the bits of its `f32`.
#[derive(Debug, Clone)]
pub struct PlaybackStatus {
    pub state: PlaybackState,
    pub current: Option<String>,
    pub current_queue_index: Option<usize>,
    pub volume_bits: u32,
    pub repeat_mode: RepeatMode,
    pub shuffle_enabled: bool,
    pub position_ns: u128,
    pub duration_ns: u128,
    pub current_bitrate_kbps: Option<u32>,
}

/// Two optional paths that name the same place (or both nothing).
pub open spec fn same_track(a: Option<String>, b: Option<String>) -> bool {
    match (a, b) {
        (Some(x), Some(y)) => pkey(x@) == pkey(y@),
        (None, None) => true,
        _ => false,
    }
}

fn same_track_exec(a: &Option<String>, b: &Option<String>) -> (r: bool)
    ensures
        r == same_track(*a, *b),
{
    match (a, b) {
        (Some(x), Some(y)) => same_place(x.as_str(), y.as_str()),
        (None, None) => true,
        _ => false,
    }
}

/// How urgent a new status is: immediate when the state, track, queue
/// position, volume, repeat mode, shuffle or length changed; a heartbeat
/// when only the position or bitrate moved; else none. Whether the volume
/// changed (by more than `f32::EPSILON`) is floating point, and is the
/// caller's to say.
pub open spec fn status_urgency(prev: PlaybackStatus, next: PlaybackStatus, volume_changed: bool) -> SnapshotUrgency {
    if prev.state != next.state || !same_track(prev.current, next.current) || prev.current_queue_index
        != next.current_queue_index || volume_changed || prev.repeat_mode != next.repeat_mode
        || prev.shuffle_enabled != next.shuffle_enabled || prev.duration_ns != next.duration_ns {
        SnapshotUrgency::Immediate
    } else if prev.position_ns != next.position_ns || prev.current_bitrate_kbps != next.current_bitrate_kbps {
        SnapshotUrgency::Heartbeat
    } else {
        SnapshotUrgency::Idle
    }
}

/// The urgency of a new status (see `status_urgency`).
pub fn playback_snapshot_urgency(previous: &PlaybackStatus, next: &PlaybackStatus, volume_changed: bool) -> (r:
    SnapshotUrgency)
    ensures
        r == status_urgency(*previous, *next, volume_changed),
{
    if previous.state != next.state || !same_track_exec(&previous.current, &next.current)
        || previous.current_queue_index != next.current_queue_index || volume_changed || previous.repeat_mode
        != next.repeat_mode || previous.shuffle_enabled != next.shuffle_enabled || previous.duration_ns
        != next.duration_ns {
        SnapshotUrgency::Immediate
    } else if previous.position_ns != next.position_ns || previous.current_bitrate_kbps
        != next.current_bitrate_kbps {
        SnapshotUrgency::Heartbeat
    } else {
        SnapshotUrgency::Idle
    }
}

/// Two statuses the bridge treats as the same (the volume compared by its
/// bits, the track by the place it names).
pub open spec fn same_status(a: PlaybackStatus, b: PlaybackStatus) -> bool {
    a.state == b.state && same_track(a.current, b.current) && a.current_queue_index == b.current_queue_index
        && a.volume_bits == b.volume_bits && a.repeat_mode == b.repeat_mode && a.shuffle_enabled
        == b.shuffle_enabled && a.position_ns == b.position_ns && a.duration_ns == b.duration_ns
        && a.current_bitrate_kbps == b.current_bitrate_kbps
}

fn same_status_exec(a: &PlaybackStatus, b: &PlaybackStatus) -> (r: bool)
    ensures
        r == same_status(*a, *b),
{
    a.state == b.state && same_track_exec(&a.current, &b.current) && a.current_queue_index
        == b.current_queue_index && a.volume_bits == b.volume_bits && a.repeat_mode == b.repeat_mode
        && a.shuffle_enabled == b.shuffle_enabled && a.position_ns == b.position_ns && a.duration_ns
        == b.duration_ns && a.current_bitrate_kbps == b.current_bitrate_kbps
}

/// How the track changed.
#[derive(Debug, Clone, Copy, PartialEq, Eq, Structural)]
pub enum TrackChangeKind {
    Manual,
    Natural,
    Gapless,
}

/// An event from the player.
#[derive(Debug, Clone)]
pub enum PlaybackInput {
    /// A new status; `volume_changed` says whether its volume differs from
    /// the one held by more than `f32::EPSILON`.
    Snapshot { status: PlaybackStatus, volume_changed: bool },
    TrackChanged { path: String, queue_index: usize, kind: TrackChangeKind, track_token: u64 },
    Seeked { position_ns: u128 },
}

/// A track whose waveform is to be loaded once playback runs again.
#[derive(Debug, Clone)]
pub struct PendingWaveformTrack {
    pub path: String,
    pub reset_spectrogram: bool,
    pub track_token: u64,
}

/// What the bridge keeps about playback besides the waveform's samples.
#[derive(Debug, Clone)]
pub struct PlaybackBridgeState {
    pub playback: PlaybackStatus,
    pub pending_waveform_track: Option<PendingWaveformTrack>,
    pub analysis_track_token: u64,
    pub skip_queue_for_gapless: bool,
}

/// A request to the analysis engine (positions in nanoseconds).
#[derive(Debug, Clone, PartialEq, Eq)]
pub enum AnalysisRequest {
    SetTrack { path: String, reset_spectrogram: bool, track_token: u64, gapless: bool },
    RestartCurrentTrack { position_ns: u128 },
    PositionUpdate { position_ns: u128 },
    SeekPosition { position_ns: u128 },
}

/// What the caller is to do after an event: how urgent a snapshot is,
/// whether to drop the waveform (its samples, coverage and completeness),
/// which track's metadata to ask for, and what to tell the analysis
/// engine, in order.
#[derive(Debug, Clone)]
pub struct PlaybackOutcome {
    pub urgency: SnapshotUrgency,
    pub clear_waveform: bool,
    pub request_metadata: Option<String>,
    pub analysis: Vec<AnalysisRequest>,
}

/// Whether playback came back from a stop to the same track without a
/// pending track change firing: then the analysis restarts that track.
pub open spec fn replayed_from_stop(
    prev: PlaybackStatus,
    now: PlaybackStatus,
    fired: bool,
    token: u64,
) -> bool {
    prev.state == PlaybackState::Stopped && now.state == PlaybackState::Playing && prev.current is Some
        && same_track(prev.current, now.current) && !fired && token != 0
}

/// The state after a status arrives: the status replaces the one held
/// unless they are the same; unless playback stopped, a pending track
/// change is used up.
pub open spec fn state_after_status(st: PlaybackBridgeState, next: PlaybackStatus) -> PlaybackBridgeState {
    let playback = if same_status(st.playback, next) {
        st.playback
    } else {
        next
    };
    PlaybackBridgeState {
        playback,
        pending_waveform_track: if next.state == PlaybackState::Stopped {
            st.pending_waveform_track
        } else {
            None
        },
        ..st
    }
}

/// Whether a pending track change fires: playback runs on with the track
/// it was waiting for.
pub open spec fn pending_fires(st: PlaybackBridgeState, next: PlaybackStatus) -> bool {
    next.state != PlaybackState::Stopped && match st.pending_waveform_track {
        Some(p) => same_track(state_after_status(st, next).playback.current, Some(p.path)),
        None => false,
    }
}

/// What the analysis engine is told after a status arrives.
pub open spec fn status_requests(st: PlaybackBridgeState, next: PlaybackStatus) -> Seq<AnalysisRequest> {
    let after = state_after_status(st, next);
    let fired = pending_fires(st, next);
    let replay = replayed_from_stop(st.playback, after.playback, fired, st.analysis_track_token);
    if next.state == PlaybackState::Stopped {
        Seq::empty()
    } else {
        let first: Seq<AnalysisRequest> = if fired {
            let p = st.pending_waveform_track.unwrap();
            seq![
                AnalysisRequest::SetTrack {
                    path: p.path,
                    reset_spectrogram: p.reset_spectrogram,
                    track_token: p.track_token,
                    gapless: false,
                },
            ]
        } else {
            Seq::empty()
        };
        let second: Seq<AnalysisRequest> = if replay {
            seq![AnalysisRequest::RestartCurrentTrack { position_ns: after.playback.position_ns }]
        } else if next.state == PlaybackState::Playing && st.analysis_track_token != 0
            && after.playback.current is Some {
            seq![AnalysisRequest::PositionUpdate { position_ns: after.playback.position_ns }]
        } else {
            Seq::empty()
        };
        first + second
    }
}

/// The state after an event (see `process_playback_event`).
pub open spec fn state_after_event(st: PlaybackBridgeState, e: PlaybackInput) -> PlaybackBridgeState {
    match e {
        PlaybackInput::Snapshot { status, volume_changed } => state_after_status(st, status),
        PlaybackInput::TrackChanged { path, queue_index, kind, track_token } => PlaybackBridgeState {
            playback: PlaybackStatus { current_queue_index: Some(queue_index), ..st.playback },
            pending_waveform_track: if st.playback.state == PlaybackState::Stopped {
                Some(
                    PendingWaveformTrack {
                        path,
                        reset_spectrogram: kind == TrackChangeKind::Manual,
                        track_token,
                    },
                )
            } else {
                None
            },
            analysis_track_token: track_token,
            skip_queue_for_gapless: st.skip_queue_for_gapless || kind == TrackChangeKind::Gapless,
        },
        PlaybackInput::Seeked { position_ns } => if st.analysis_track_token != 0 && st.playback.current is Some {
            PlaybackBridgeState { playback: PlaybackStatus { position_ns, ..st.playback }, ..st }
        } else {
            st
        },
    }
}

/// What the caller is told after an event (see `process_playback_event`).
pub open spec fn outcome_matches(st: PlaybackBridgeState, e: PlaybackInput, waveform_empty: bool, o: PlaybackOutcome) -> bool {
    match e {
        PlaybackInput::Snapshot { status, volume_changed } => {
            let base = if same_status(st.playback, status) {
                SnapshotUrgency::Idle
            } else {
                status_urgency(st.playback, status, volume_changed)
            };
            let clear = status.state == PlaybackState::Stopped && !waveform_empty;
            &&& o.urgency == (if clear {
                SnapshotUrgency::Immediate
            } else {
                base
            })
            &&& o.clear_waveform == clear
            &&& o.request_metadata is None
            &&& o.analysis@ == status_requests(st, status)
        },
        PlaybackInput::TrackChanged { path, queue_index, kind, track_token } => {
            &&& o.urgency == SnapshotUrgency::Immediate
            &&& o.clear_waveform
            &&& o.request_metadata == Some(path)
            &&& o.analysis@ == (if st.playback.state == PlaybackState::Stopped {
                Seq::empty()
            } else {
                seq![
                    AnalysisRequest::SetTrack {
                        path,
                        reset_spectrogram: kind == TrackChangeKind::Manual,
                        track_token,
                        gapless: kind == TrackChangeKind::Gapless,
                    },
                ]
            })
        },
        PlaybackInput::Seeked { position_ns } => {
            &&& o.urgency == SnapshotUrgency::Heartbeat
            &&& !o.clear_waveform
            &&& o.request_metadata is None
            &&& o.analysis@ == (if st.analysis_track_token != 0 && st.playback.current is Some {
                seq![AnalysisRequest::SeekPosition { position_ns }]
            } else {
                Seq::empty()
            })
        },
    }
}

fn process_status(
    status: PlaybackStatus,
    volume_changed: bool,
    state: &mut PlaybackBridgeState,
    waveform_empty: bool,
) -> (o: PlaybackOutcome)
    ensures
        *final(state) == state_after_status(*old(state), status),
        outcome_matches(*old(state), PlaybackInput::Snapshot { status, volume_changed }, waveform_empty, o),
{
    let ghost st = *state;
    let next_state = status.state;
    let prev_state = state.playback.state;
    let prev_has_current = state.playback.current.is_some();
    let same_current = same_track_exec(&state.playback.current, &status.current);
    let mut urgency = SnapshotUrgency::Idle;
    if !same_status_exec(&state.playback, &status) {
        urgency = playback_snapshot_urgency(&state.playback, &status, volume_changed);
        state.playback = status;
    }
    if next_state == PlaybackState::Stopped {
        let clear = !waveform_empty;
        if clear {
            urgency = SnapshotUrgency::Immediate;
        }
        proof {
            assert(state_after_status(st, status).playback == state.playback);
        }
        return PlaybackOutcome { urgency, clear_waveform: clear, request_metadata: None, analysis: Vec::new() };
    }
    let mut analysis: Vec<AnalysisRequest> = Vec::new();
    let mut fired = false;
    let pending = state.pending_waveform_track.take();
    if let Some(p) = pending {
        let same = match &state.playback.current {
            Some(c) => same_place(c.as_str(), p.path.as_str()),
            None => false,
        };
        if same {
            fired = true;
            analysis.push(
                AnalysisRequest::SetTrack {
                    path: p.path,
                    reset_spectrogram: p.reset_spectrogram,
                    track_token: p.track_token,
                    gapless: false,
                },
            );
        }
    }
    assert(fired == pending_fires(st, status));
    let replay = prev_state == PlaybackState::Stopped && next_state == PlaybackState::Playing && prev_has_current
        && same_current && !fired && state.analysis_track_token != 0;
    assert(state.playback == state_after_status(st, status).playback);
    assert(replay == replayed_from_stop(st.playback, state.playback, fired, st.analysis_track_token));
    if replay {
        analysis.push(AnalysisRequest::RestartCurrentTrack { position_ns: state.playback.position_ns });
    }
    if next_state == PlaybackState::Playing && state.analysis_track_token != 0 && state.playback.current.is_some()
        && !replay {
        analysis.push(AnalysisRequest::PositionUpdate { position_ns: state.playback.position_ns });
    }
    assert(analysis@ =~= status_requests(st, status));
    PlaybackOutcome { urgency, clear_waveform: false, request_metadata: None, analysis }
}

/// Handles one event from the player (`waveform_empty` says whether the
/// waveform holds no samples). A new status is taken over unless it is the
/// same as the one held, with its urgency (see `status_urgency`); when
/// playback stopped, a waveform is dropped and a snapshot is owed at once;
/// otherwise a track change that waited for playback fires if playback runs
/// on with that track, a return from a stop to the same track restarts the
/// analysis, and while playing the analysis learns the position. A track
/// change moves the queue position, drops the waveform, asks for the new
/// track's metadata and loads it into the analysis, or, while stopped,
/// keeps it waiting; a gapless change leaves the queue out of the next
/// snapshot. A seek moves the position held and the analysis's, if a
/// track is loaded.
pub fn process_playback_event(event: PlaybackInput, state: &mut PlaybackBridgeState, waveform_empty: bool) -> (o:
    PlaybackOutcome)
    ensures
        *final(state) == state_after_event(*old(state), event),
        outcome_matches(*old(state), event, waveform_empty, o),
{
    match event {
        PlaybackInput::Snapshot { status, volume_changed } => process_status(status, volume_changed, state, waveform_empty),
        PlaybackInput::TrackChanged { path, queue_index, kind, track_token } => {
            state.playback.current_queue_index = Some(queue_index);
            state.analysis_track_token = track_token;
            let request = path.clone();
            let gapless = kind == TrackChangeKind::Gapless;
            let reset_spectrogram = kind == TrackChangeKind::Manual;
            let mut analysis: Vec<AnalysisRequest> = Vec::new();
            if state.playback.state == PlaybackState::Stopped {
                state.pending_waveform_track = Some(PendingWaveformTrack { path, reset_spectrogram, track_token });
            } else {
                state.pending_waveform_track = None;
                analysis.push(AnalysisRequest::SetTrack { path, reset_spectrogram, track_token, gapless });
            }
            if gapless {
                state.skip_queue_for_gapless = true;
            }
            PlaybackOutcome {
                urgency: SnapshotUrgency::Immediate,
                clear_waveform: true,
                request_metadata: Some(request),
                analysis,
            }
        },
        PlaybackInput::Seeked { position_ns } => {
            let mut analysis: Vec<AnalysisRequest> = Vec::new();
            if state.analysis_track_token != 0 && state.playback.current.is_some() {
                state.playback.position_ns = position_ns;
                analysis.push(AnalysisRequest::SeekPosition { position_ns });
            }
            PlaybackOutcome {
                urgency: SnapshotUrgency::Heartbeat,
                clear_waveform: false,
                request_metadata: None,
                analysis,
            }
        },
    }
}

/// A track change while playback is stopped waits: the analysis is told
/// nothing then, and as soon as a status shows playback running on with
/// that track, the analysis loads it, with the change's token and spectrogram
/// reset, as its first request.
pub proof fn law_stopped_track_change_fires_on_resume(
    st: PlaybackBridgeState,
    path: String,
    queue_index: usize,
    kind: TrackChangeKind,
    track_token: u64,
    next: PlaybackStatus,
)
    requires
        st.playback.state == PlaybackState::Stopped,
        next.state != PlaybackState::Stopped,
        same_track(
            state_after_status(
                state_after_event(st, PlaybackInput::TrackChanged { path, queue_index, kind, track_token }),
                next,
            ).playback.current,
            Some(path),
        ),
    ensures
        ({
            let st1 = state_after_event(st, PlaybackInput::TrackChanged { path, queue_index, kind, track_token });
            &&& st1.pending_waveform_track is Some
            &&& pending_fires(st1, next)
            &&& status_requests(st1, next).len() >= 1
            &&& status_requests(st1, next)[0] == AnalysisRequest::SetTrack {
                path,
                reset_spectrogram: kind == TrackChangeKind::Manual,
                track_token,
                gapless: false,
            }
            &&& state_after_status(st1, next).pending_waveform_track is None
        }),
{
}

} // verus!
