use ferrous::bridge::BridgeSettingsCommand;
use ferrous::lastfm::{AuthState, Command, RuntimeState};
use ferrous::library_commands::append_queue_paths;
use ferrous::natural::natural_cmp;
use ferrous::queue::QueuePlaybackOp;
use ferrous::settings::{clamped_db_range_bits, clamped_volume_bits, BridgeSettings};
use ferrous::settings_control::{handle_settings_command, settings_loaded, SettingsAction};
use std::cmp::Ordering;

fn runtime() -> RuntimeState {
    RuntimeState {
        enabled: false,
        build_configured: true,
        username: "tester".to_string(),
        auth_state: AuthState::Connected,
        pending_scrobble_count: 3,
        status_text: "Connected".to_string(),
        auth_url: "https://example.invalid/auth".to_string(),
    }
}

#[test]
fn settings_commands_change_settings_and_hand_work_on() {
    let mut settings = BridgeSettings::defaults(false);
    let mut lastfm = runtime();
    let mut dirty = false;
    let actions = handle_settings_command(BridgeSettingsCommand::SetFftSize(3000), &mut settings, &mut lastfm, &mut dirty);
    assert_eq!(settings.fft_size, 4096);
    assert!(dirty);
    assert!(matches!(actions.as_slice(), [SettingsAction::AnalysisSetFftSize(4096)]));

    let actions = handle_settings_command(BridgeSettingsCommand::SaveToDisk, &mut settings, &mut lastfm, &mut dirty);
    assert!(!dirty);
    assert!(matches!(actions.as_slice(), [SettingsAction::SaveToDisk]));

    let actions = handle_settings_command(
        BridgeSettingsCommand::SetLastFmScrobblingEnabled(true),
        &mut settings,
        &mut lastfm,
        &mut dirty,
    );
    assert!(settings.integrations.lastfm_scrobbling_enabled);
    assert!(lastfm.enabled);
    assert!(matches!(actions.as_slice(), [SettingsAction::LastFm(Command::SetEnabled(true))]));

    settings.integrations.lastfm_username = "tester".to_string();
    let actions = handle_settings_command(BridgeSettingsCommand::DisconnectLastFm, &mut settings, &mut lastfm, &mut dirty);
    assert_eq!(settings.integrations.lastfm_username, "");
    assert_eq!(lastfm.username, "");
    assert_eq!(lastfm.auth_url, "");
    assert_eq!(lastfm.auth_state, AuthState::Disconnected);
    assert_eq!(lastfm.pending_scrobble_count, 3);
    assert!(matches!(actions.as_slice(), [SettingsAction::LastFm(Command::Disconnect { clear_queue: true })]));

    dirty = false;
    let actions = handle_settings_command(BridgeSettingsCommand::SetShowFps(true), &mut settings, &mut lastfm, &mut dirty);
    assert!(settings.display.show_fps);
    assert!(dirty);
    assert!(actions.is_empty());
}

#[test]
fn volume_and_db_range_are_clamped_like_f32_clamp() {
    let mut settings = BridgeSettings::defaults(false);
    let mut lastfm = runtime();
    let mut dirty = false;
    let actions = handle_settings_command(BridgeSettingsCommand::SetDbRange(500.0f32.to_bits()), &mut settings, &mut lastfm, &mut dirty);
    assert_eq!(f32::from_bits(settings.db_range_bits), 150.0);
    assert!(actions.is_empty());
    handle_settings_command(BridgeSettingsCommand::SetDbRange(12.0f32.to_bits()), &mut settings, &mut lastfm, &mut dirty);
    assert_eq!(f32::from_bits(settings.db_range_bits), 50.0);
    handle_settings_command(BridgeSettingsCommand::SetDbRange(88.5f32.to_bits()), &mut settings, &mut lastfm, &mut dirty);
    assert_eq!(f32::from_bits(settings.db_range_bits), 88.5);

    let actions = handle_settings_command(BridgeSettingsCommand::SetVolume(1.5f32.to_bits()), &mut settings, &mut lastfm, &mut dirty);
    assert_eq!(f32::from_bits(settings.volume_bits), 1.0);
    assert!(matches!(actions.as_slice(), [SettingsAction::PlaybackSetVolume(b)] if *b == 1.0f32.to_bits()));
    handle_settings_command(BridgeSettingsCommand::SetVolume((-0.25f32).to_bits()), &mut settings, &mut lastfm, &mut dirty);
    assert_eq!(settings.volume_bits, 0.0f32.to_bits());

    for x in [-3.0f32, -0.0, 0.0, 0.3, 1.0, 7.0, f32::INFINITY, f32::NEG_INFINITY, f32::NAN, 49.9, 50.0, 150.0, 151.0] {
        assert_eq!(clamped_volume_bits(x.to_bits()), x.clamp(0.0, 1.0).to_bits());
        assert_eq!(clamped_db_range_bits(x.to_bits()), x.clamp(50.0, 150.0).to_bits());
    }
}

#[test]
fn loaded_settings_are_handed_to_every_engine() {
    let mut settings = BridgeSettings::defaults(false);
    settings.integrations.lastfm_scrobbling_enabled = true;
    settings.integrations.lastfm_username = "  ".to_string();
    let mut lastfm = runtime();
    let actions = settings_loaded(&settings, &mut lastfm);
    assert!(lastfm.enabled);
    assert_eq!(actions.len(), 5);
    settings.integrations.lastfm_username = "bob".to_string();
    let actions = settings_loaded(&settings, &mut lastfm);
    assert_eq!(actions.len(), 6);
    assert!(matches!(&actions[5], SettingsAction::LastFm(Command::LoadStoredSession { username }) if username == "bob"));
}

#[test]
fn natural_order_compares_numbers_by_value() {
    assert_eq!(natural_cmp("Track 2", "Track 10"), Ordering::Less);
    assert_eq!(natural_cmp("Track 10", "Track 2"), Ordering::Greater);
    assert_eq!(natural_cmp("abc", "abc"), Ordering::Equal);
}

#[test]
fn appending_library_tracks_loads_an_empty_queue_whole() {
    let mut queue: Vec<String> = Vec::new();
    let out = append_queue_paths(&mut queue, vec![]);
    assert!(!out.changed);
    let out = append_queue_paths(&mut queue, vec!["/a".to_string()]);
    assert!(out.changed);
    assert_eq!(out.playback_ops, vec![QueuePlaybackOp::LoadQueue(vec!["/a".to_string()])]);
    let out = append_queue_paths(&mut queue, vec!["/b".to_string()]);
    assert_eq!(out.playback_ops, vec![QueuePlaybackOp::AddToQueue(vec!["/b".to_string()])]);
    assert_eq!(queue, vec!["/a".to_string(), "/b".to_string()]);
}
