use ferrous::analysis_frame::{
    encode_analysis_frame, plan_analysis_delta, AnalysisDelta, AnalysisEmitState, AnalysisSample,
    EncodedSpectrogramChannel, SpectrogramChannelLabel, SpectrogramRows, ANALYSIS_FRAME_MAGIC,
};
use ferrous::bridge::{
    command_requires_queue_snapshot, parse_binary_command, BridgeCommand, BridgeLibraryCommand,
    BridgePlaybackCommand, BridgeSettingsCommand, RepeatMode,
};
use ferrous::codec::clamp_u16;
use ferrous::modes::{LibrarySortMode, SpectrogramViewMode, ViewerFullscreenMode};
use ferrous::queue::BridgeQueueCommand;

fn encode_command(cmd_id: u16, payload: &[u8]) -> Vec<u8> {
    let mut out = Vec::with_capacity(4 + payload.len());
    out.extend_from_slice(&cmd_id.to_le_bytes());
    out.extend_from_slice(&u16::try_from(payload.len()).unwrap_or(u16::MAX).to_le_bytes());
    out.extend_from_slice(payload);
    out
}

#[test]
fn parse_binary_command_supports_settings_updates() {
    let mut payload = Vec::new();
    payload.extend_from_slice(&88.0f32.to_le_bytes());
    let cmd = parse_binary_command(&encode_command(27, &payload))
        .expect("parse")
        .expect("command");
    match cmd {
        BridgeCommand::Settings(BridgeSettingsCommand::SetDbRange(v)) => {
            assert!((f32::from_bits(v) - 88.0).abs() < 0.001);
        }
        other => panic!("unexpected command: {other:?}"),
    }

    let cmd = parse_binary_command(&encode_command(28, &[1]))
        .expect("parse")
        .expect("command");
    match cmd {
        BridgeCommand::Settings(BridgeSettingsCommand::SetLogScale(v)) => {
            assert!(v);
        }
        other => panic!("unexpected command: {other:?}"),
    }

    let cmd = parse_binary_command(&encode_command(29, &[1]))
        .expect("parse")
        .expect("command");
    match cmd {
        BridgeCommand::Settings(BridgeSettingsCommand::SetShowFps(v)) => {
            assert!(v);
        }
        other => panic!("unexpected command: {other:?}"),
    }

    let mut payload = Vec::new();
    payload.extend_from_slice(&1i32.to_le_bytes());
    let cmd = parse_binary_command(&encode_command(30, &payload))
        .expect("parse")
        .expect("command");
    match cmd {
        BridgeCommand::Settings(BridgeSettingsCommand::SetLibrarySortMode(mode)) => {
            assert_eq!(mode, LibrarySortMode::Title);
        }
        other => panic!("unexpected command: {other:?}"),
    }

    let cmd = parse_binary_command(&encode_command(32, &[1]))
        .expect("parse")
        .expect("command");
    match cmd {
        BridgeCommand::Settings(BridgeSettingsCommand::SetSpectrogramViewMode(mode)) => {
            assert_eq!(mode, SpectrogramViewMode::PerChannel);
        }
        other => panic!("unexpected command: {other:?}"),
    }

    let cmd = parse_binary_command(&encode_command(39, &[0]))
        .expect("parse")
        .expect("command");
    match cmd {
        BridgeCommand::Settings(BridgeSettingsCommand::SetSystemMediaControlsEnabled(v)) => {
            assert!(!v);
        }
        other => panic!("unexpected command: {other:?}"),
    }

    let cmd = parse_binary_command(&encode_command(40, &[1]))
        .expect("parse")
        .expect("command");
    match cmd {
        BridgeCommand::Settings(BridgeSettingsCommand::SetLastFmScrobblingEnabled(v)) => {
            assert!(v);
        }
        other => panic!("unexpected command: {other:?}"),
    }

    let cmd = parse_binary_command(&encode_command(44, &[1]))
        .expect("parse")
        .expect("command");
    match cmd {
        BridgeCommand::Settings(BridgeSettingsCommand::SetViewerFullscreenMode(mode)) => {
            assert_eq!(mode, ViewerFullscreenMode::WholeScreen);
        }
        other => panic!("unexpected command: {other:?}"),
    }

    let cmd = parse_binary_command(&encode_command(41, &[]))
        .expect("parse")
        .expect("command");
    assert!(matches!(
        cmd,
        BridgeCommand::Settings(BridgeSettingsCommand::BeginLastFmAuth)
    ));

    let cmd = parse_binary_command(&encode_command(42, &[]))
        .expect("parse")
        .expect("command");
    assert!(matches!(
        cmd,
        BridgeCommand::Settings(BridgeSettingsCommand::CompleteLastFmAuth)
    ));

    let cmd = parse_binary_command(&encode_command(43, &[]))
        .expect("parse")
        .expect("command");
    assert!(matches!(
        cmd,
        BridgeCommand::Settings(BridgeSettingsCommand::DisconnectLastFm)
    ));
}

#[test]
fn parse_binary_command_supports_library_batch_commands() {
    let mut payload = Vec::new();
    let first = b"/music/a.flac";
    let second = b"/music/b.flac";
    payload.extend_from_slice(&2u16.to_le_bytes());
    payload.extend_from_slice(&clamp_u16(first.len()).to_le_bytes());
    payload.extend_from_slice(first);
    payload.extend_from_slice(&clamp_u16(second.len()).to_le_bytes());
    payload.extend_from_slice(second);

    let cmd = parse_binary_command(&encode_command(15, &payload))
        .expect("parse")
        .expect("command");
    match cmd {
        BridgeCommand::Library(BridgeLibraryCommand::ReplaceWithAlbum(paths)) => {
            assert_eq!(
                paths,
                vec![
                    String::from("/music/a.flac"),
                    String::from("/music/b.flac")
                ]
            );
        }
        other => panic!("unexpected command: {other:?}"),
    }
}

#[test]
fn parse_binary_command_supports_set_node_expanded() {
    let key = "artist|/music|Artist A";
    let mut payload = Vec::new();
    payload.extend_from_slice(&clamp_u16(key.len()).to_le_bytes());
    payload.extend_from_slice(key.as_bytes());
    payload.push(1);

    let cmd = parse_binary_command(&encode_command(35, &payload))
        .expect("parse")
        .expect("command");
    match cmd {
        BridgeCommand::Library(BridgeLibraryCommand::SetNodeExpanded {
            key: parsed,
            expanded,
        }) => {
            assert_eq!(parsed, key);
            assert!(expanded);
        }
        other => panic!("unexpected command: {other:?}"),
    }
}

#[test]
fn parse_binary_command_supports_set_search_query() {
    let query = "pink floyd";
    let mut payload = Vec::new();
    payload.extend_from_slice(&42u32.to_le_bytes());
    payload.extend_from_slice(&clamp_u16(query.len()).to_le_bytes());
    payload.extend_from_slice(query.as_bytes());

    let cmd = parse_binary_command(&encode_command(36, &payload))
        .expect("parse")
        .expect("command");
    match cmd {
        BridgeCommand::Library(BridgeLibraryCommand::SetSearchQuery { seq, query: q }) => {
            assert_eq!(seq, 42);
            assert_eq!(q, query);
        }
        other => panic!("unexpected command: {other:?}"),
    }
}

#[test]
fn parse_binary_command_supports_all_library_track_commands() {
    let cmd = parse_binary_command(&encode_command(37, &[]))
        .expect("parse")
        .expect("command");
    match cmd {
        BridgeCommand::Library(BridgeLibraryCommand::ReplaceAllTracks) => {}
        other => panic!("unexpected command: {other:?}"),
    }

    let cmd = parse_binary_command(&encode_command(38, &[]))
        .expect("parse")
        .expect("command");
    match cmd {
        BridgeCommand::Library(BridgeLibraryCommand::AppendAllTracks) => {}
        other => panic!("unexpected command: {other:?}"),
    }
}

#[test]
fn parse_binary_command_rejects_invalid_seek() {
    let mut payload = Vec::new();
    payload.extend_from_slice(&(-1.0f64).to_le_bytes());
    let err = parse_binary_command(&encode_command(7, &payload)).unwrap_err();
    assert!(err.contains("seek value must be finite and >= 0"));
}

#[test]
fn parse_binary_command_reads_transport_and_float_commands() {
    let cmd = parse_binary_command(&encode_command(7, &(-0.0f64).to_le_bytes())).unwrap().unwrap();
    assert!(matches!(cmd, BridgeCommand::Playback(BridgePlaybackCommand::Seek(b)) if f64::from_bits(b) == 0.0));
    let cmd = parse_binary_command(&encode_command(7, &12.5f64.to_le_bytes())).unwrap().unwrap();
    assert!(matches!(cmd, BridgeCommand::Playback(BridgePlaybackCommand::Seek(b)) if f64::from_bits(b) == 12.5));
    let err = parse_binary_command(&encode_command(7, &f64::NAN.to_le_bytes())).unwrap_err();
    assert_eq!(err, "seek value must be finite and >= 0");
    let cmd = parse_binary_command(&encode_command(6, &0.25f64.to_le_bytes())).unwrap().unwrap();
    assert!(matches!(cmd, BridgeCommand::Playback(BridgePlaybackCommand::SetVolume(b)) if f64::from_bits(b) == 0.25));
    let err = parse_binary_command(&encode_command(6, &f64::INFINITY.to_le_bytes())).unwrap_err();
    assert_eq!(err, "set_volume value must be finite");
    let err = parse_binary_command(&encode_command(6, &1e300f64.to_le_bytes())).unwrap_err();
    assert_eq!(err, "set_volume value is out of range");
    let cmd = parse_binary_command(&encode_command(6, &(f32::MAX as f64).to_le_bytes())).unwrap().unwrap();
    assert!(matches!(cmd, BridgeCommand::Playback(BridgePlaybackCommand::SetVolume(_))));
    let err = parse_binary_command(&encode_command(27, &f32::NAN.to_le_bytes())).unwrap_err();
    assert_eq!(err, "set_db_range value must be finite");
    let cmd = parse_binary_command(&encode_command(25, &[2])).unwrap().unwrap();
    assert!(matches!(cmd, BridgeCommand::Playback(BridgePlaybackCommand::SetRepeatMode(RepeatMode::All))));
    let cmd = parse_binary_command(&encode_command(25, &[7])).unwrap().unwrap();
    assert!(matches!(cmd, BridgeCommand::Playback(BridgePlaybackCommand::SetRepeatMode(RepeatMode::Off))));
    let cmd = parse_binary_command(&encode_command(1, &[])).unwrap().unwrap();
    assert!(matches!(cmd, BridgeCommand::Playback(BridgePlaybackCommand::Play)));
}

#[test]
fn parse_binary_command_reads_queue_commands() {
    let mut payload = Vec::new();
    payload.extend_from_slice(&3u32.to_le_bytes());
    payload.extend_from_slice(&1u32.to_le_bytes());
    let cmd = parse_binary_command(&encode_command(11, &payload)).unwrap().unwrap();
    assert!(matches!(cmd, BridgeCommand::Queue(BridgeQueueCommand::Move { from: 3, to: 1 })));
    let cmd = parse_binary_command(&encode_command(9, &(-1i32).to_le_bytes())).unwrap().unwrap();
    assert!(matches!(cmd, BridgeCommand::Queue(BridgeQueueCommand::Select(None))));
    let cmd = parse_binary_command(&encode_command(9, &4i32.to_le_bytes())).unwrap().unwrap();
    assert!(matches!(cmd, BridgeCommand::Queue(BridgeQueueCommand::Select(Some(4)))));
    let cmd = parse_binary_command(&encode_command(12, &[])).unwrap().unwrap();
    assert!(matches!(cmd, BridgeCommand::Queue(BridgeQueueCommand::Clear)));
    let cmd = parse_binary_command(&encode_command(34, &[])).unwrap().unwrap();
    assert!(matches!(cmd, BridgeCommand::Shutdown));
}

#[test]
fn parse_binary_command_reports_each_framing_error() {
    assert_eq!(parse_binary_command(&[1, 0]).unwrap_err(), "binary command payload too short");
    assert_eq!(
        parse_binary_command(&[1, 0, 3, 0, 9]).unwrap_err(),
        "binary command payload length mismatch: header=3, actual=1"
    );
    assert_eq!(parse_binary_command(&encode_command(99, &[])).unwrap_err(), "unknown binary command id 99");
    assert_eq!(
        parse_binary_command(&encode_command(1, &[0])).unwrap_err(),
        "binary command payload has trailing bytes"
    );
    assert_eq!(
        parse_binary_command(&encode_command(8, &[1, 0])).unwrap_err(),
        "binary command payload truncated"
    );
    assert_eq!(
        parse_binary_command(&encode_command(13, &[5, 0, b'a'])).unwrap_err(),
        "binary command string truncated"
    );
}

#[test]
fn selection_only_queue_commands_do_not_require_queue_snapshot() {
    assert!(!command_requires_queue_snapshot(&BridgeCommand::Queue(
        BridgeQueueCommand::Select(Some(0)),
    )));
    assert!(!command_requires_queue_snapshot(&BridgeCommand::Queue(
        BridgeQueueCommand::PlayAt(0),
    )));
    assert!(command_requires_queue_snapshot(&BridgeCommand::Queue(BridgeQueueCommand::Clear)));
    assert!(command_requires_queue_snapshot(&BridgeCommand::Library(
        BridgeLibraryCommand::AppendAllTracks
    )));
    assert!(!command_requires_queue_snapshot(&BridgeCommand::RequestSnapshot));
}

fn sample_channel(rows: usize, bins: usize) -> EncodedSpectrogramChannel {
    EncodedSpectrogramChannel {
        label: SpectrogramChannelLabel::Mono,
        rows_u8: (0..rows).map(|r| (0..bins).map(|b| (r * 10 + b) as u8).collect()).collect(),
    }
}

#[test]
fn analysis_delta_and_frame_include_changes() {
    let mut emit_state = AnalysisEmitState::default();
    let sample = AnalysisSample {
        waveform_changed: true,
        waveform_coverage_millis: 1_500,
        waveform_complete: true,
        spectrogram_seq: 2,
        channel_count: 1,
        frame_count: 2,
    };
    let plan = plan_analysis_delta(&mut emit_state, &sample);
    assert_eq!(plan.rows, SpectrogramRows::Tail { start: 0 });
    let delta = AnalysisDelta {
        sample_rate_hz: 48_000,
        frame_seq: plan.frame_seq,
        spectrogram_reset: plan.spectrogram_reset,
        waveform_changed: true,
        waveform_coverage_millis: 1_500,
        waveform_complete: true,
        waveform_peaks_u8: vec![0, 128, 255],
        spectrogram_channels_u8: vec![sample_channel(2, 4)],
    };
    assert!(!delta.spectrogram_channels_u8.is_empty());
    let frame = encode_analysis_frame(&delta);
    assert!(!frame.is_empty());
    assert_eq!(frame[4], ANALYSIS_FRAME_MAGIC);
    assert_eq!(u32::from_le_bytes([frame[0], frame[1], frame[2], frame[3]]) as usize, frame.len() - 4);
    assert_eq!(frame[9], 0x01 | 0x04 | 0x08);
    assert_eq!(&frame[25..28], &[0, 128, 255]);
    assert_eq!(frame[28], 0);
    assert_eq!(&frame[29..33], &[0, 1, 2, 3]);
    assert_eq!(&frame[33..37], &[10, 11, 12, 13]);
}

#[test]
fn analysis_delta_sends_full_rows_on_spectrogram_reset() {
    let mut emit_state = AnalysisEmitState {
        last_waveform_coverage_millis: 1_500,
        last_waveform_complete: true,
        last_spectrogram_seq: 9,
        analysis_frame_seq: 0,
    };
    let sample = AnalysisSample {
        waveform_changed: false,
        waveform_coverage_millis: 1_500,
        waveform_complete: true,
        spectrogram_seq: 3,
        channel_count: 1,
        frame_count: 2,
    };
    let plan = plan_analysis_delta(&mut emit_state, &sample);
    assert!(plan.spectrogram_reset);
    assert_eq!(plan.rows, SpectrogramRows::All);
    assert_eq!(emit_state.last_spectrogram_seq, 3);
    assert_eq!(plan.frame_seq, 1);
}

#[test]
fn analysis_delta_suppresses_empty_spectrogram_reset_frame() {
    let mut emit_state = AnalysisEmitState {
        last_waveform_coverage_millis: 1_500,
        last_waveform_complete: false,
        last_spectrogram_seq: 9,
        analysis_frame_seq: 5,
    };
    let sample = AnalysisSample {
        waveform_changed: false,
        waveform_coverage_millis: 1_500,
        waveform_complete: false,
        spectrogram_seq: 0,
        channel_count: 0,
        frame_count: 0,
    };
    let plan = plan_analysis_delta(&mut emit_state, &sample);
    assert!(!plan.spectrogram_reset);
    assert_eq!(plan.rows, SpectrogramRows::Nothing);
    let delta = AnalysisDelta {
        sample_rate_hz: 48_000,
        frame_seq: plan.frame_seq,
        spectrogram_reset: plan.spectrogram_reset,
        waveform_changed: false,
        waveform_coverage_millis: 1_500,
        waveform_complete: false,
        waveform_peaks_u8: Vec::new(),
        spectrogram_channels_u8: Vec::new(),
    };
    assert!(encode_analysis_frame(&delta).is_empty());
    assert_eq!(emit_state.last_spectrogram_seq, 9);
    assert_eq!(plan.frame_seq, 5);
}
