use ferrous::modes::{LibrarySortMode, SpectrogramDisplayMode, SpectrogramViewMode, ViewerFullscreenMode};
use ferrous::session::{apply_session_restore, resolve_session_current_index, SessionSnapshot};
use ferrous::settings::{
    clamped_db_range_bits, clamped_volume_bits, format_settings_text, parse_settings_text,
    BridgeDisplaySettings, BridgeIntegrationSettings, BridgeSettings, FloatSetting,
};

fn p(path: &str) -> String {
    path.to_string()
}

/// Reads the floating-point values the way the player does: parsed as
/// `f32` and clamped by the library, later lines winning.
fn read_floats(settings: &mut BridgeSettings, floats: &[(FloatSetting, String)]) {
    for (kind, text) in floats {
        if let Ok(x) = text.parse::<f32>() {
            match kind {
                FloatSetting::Volume => settings.volume_bits = clamped_volume_bits(x.to_bits()),
                FloatSetting::DbRange => settings.db_range_bits = clamped_db_range_bits(x.to_bits()),
            }
        }
    }
}

fn parse(settings: &mut BridgeSettings, text: &str) {
    let floats = parse_settings_text(settings, text);
    read_floats(settings, &floats);
}

fn format(settings: &BridgeSettings) -> String {
    format_settings_text(
        settings,
        &format!("{:.4}", f32::from_bits(settings.volume_bits)),
        &format!("{:.2}", f32::from_bits(settings.db_range_bits)),
    )
}

fn defaults() -> BridgeSettings {
    BridgeSettings::defaults(false)
}

#[test]
fn settings_roundtrip_text_format() {
    let settings = BridgeSettings {
        volume_bits: 0.42f32.to_bits(),
        fft_size: 2048,
        spectrogram_view_mode: SpectrogramViewMode::PerChannel,
        spectrogram_display_mode: SpectrogramDisplayMode::Rolling,
        viewer_fullscreen_mode: ViewerFullscreenMode::WholeScreen,
        db_range_bits: 77.5f32.to_bits(),
        display: BridgeDisplaySettings {
            log_scale: true,
            show_fps: true,
            show_spectrogram_crosshair: true,
            show_spectrogram_scale: true,
            channel_buttons_visibility: 1,
            spectrogram_zoom_enabled: true,
        },
        library_sort_mode: LibrarySortMode::Title,
        integrations: BridgeIntegrationSettings {
            system_media_controls_enabled: false,
            lastfm_scrobbling_enabled: true,
            lastfm_username: "tester".to_string(),
        },
    };
    let text = format(&settings);
    let mut parsed = defaults();
    parse(&mut parsed, &text);
    assert!((f32::from_bits(parsed.volume_bits) - 0.42).abs() < 0.0001);
    assert_eq!(parsed.fft_size, 2048);
    assert_eq!(parsed.spectrogram_view_mode, SpectrogramViewMode::PerChannel);
    assert_eq!(parsed.viewer_fullscreen_mode, ViewerFullscreenMode::WholeScreen);
    assert!((f32::from_bits(parsed.db_range_bits) - 77.5).abs() < 0.0001);
    assert!(parsed.display.log_scale);
    assert!(parsed.display.show_fps);
    assert!(parsed.display.show_spectrogram_crosshair);
    assert!(parsed.display.show_spectrogram_scale);
    assert!(parsed.display.spectrogram_zoom_enabled);
    assert!(!parsed.integrations.system_media_controls_enabled);
    assert_eq!(parsed.library_sort_mode, LibrarySortMode::Title);
    assert!(parsed.integrations.lastfm_scrobbling_enabled);
    assert_eq!(parsed.integrations.lastfm_username, "tester");
}

#[test]
fn settings_parse_clamps_invalid_ranges() {
    let mut settings = defaults();
    parse(
        &mut settings,
        "volume=2.5\nfft_size=111\nspectrogram_view_mode=bad\nviewer_fullscreen_mode=bad\ndb_range=500\nlog_scale=0\nshow_fps=1\nsystem_media_controls_enabled=0\nlibrary_sort_mode=0\n",
    );
    assert_eq!(f32::from_bits(settings.volume_bits), 1.0);
    assert_eq!(settings.fft_size, 512);
    assert_eq!(settings.spectrogram_view_mode, SpectrogramViewMode::Downmix);
    assert_eq!(settings.viewer_fullscreen_mode, ViewerFullscreenMode::WithinWindow);
    assert_eq!(f32::from_bits(settings.db_range_bits), 150.0);
    assert!(!settings.display.log_scale);
    assert!(settings.display.show_fps);
    assert!(!settings.integrations.system_media_controls_enabled);
    assert_eq!(settings.library_sort_mode, LibrarySortMode::Year);
    assert!(!settings.integrations.lastfm_scrobbling_enabled);
    assert!(settings.integrations.lastfm_username.is_empty());
}

#[test]
fn settings_default_system_media_controls_enabled_when_omitted() {
    let mut settings = defaults();
    parse(
        &mut settings,
        "volume=0.5\nfft_size=2048\nspectrogram_view_mode=per_channel\nviewer_fullscreen_mode=whole_screen\ndb_range=80\nlog_scale=1\nshow_fps=0\nlibrary_sort_mode=1\n",
    );
    assert!(settings.integrations.system_media_controls_enabled);
    assert_eq!(settings.spectrogram_view_mode, SpectrogramViewMode::PerChannel);
    assert_eq!(settings.viewer_fullscreen_mode, ViewerFullscreenMode::WholeScreen);
}

#[test]
fn settings_roundtrip_crosshair_and_scale() {
    let settings = BridgeSettings {
        display: BridgeDisplaySettings {
            log_scale: false,
            show_fps: false,
            show_spectrogram_crosshair: true,
            show_spectrogram_scale: true,
            channel_buttons_visibility: 1,
            spectrogram_zoom_enabled: true,
        },
        ..defaults()
    };
    let text = format(&settings);
    let mut parsed = defaults();
    parse(&mut parsed, &text);
    assert!(parsed.display.show_spectrogram_crosshair);
    assert!(parsed.display.show_spectrogram_scale);

    // Verify defaults when keys are absent.
    let mut empty_parsed = defaults();
    parse(&mut empty_parsed, "volume=1.0\n");
    assert!(!empty_parsed.display.show_spectrogram_crosshair);
    assert!(!empty_parsed.display.show_spectrogram_scale);
}

#[test]
fn channel_buttons_visibility_persists() {
    let mut settings = defaults();
    settings.display.channel_buttons_visibility = 2;
    let text = format(&settings);
    let mut restored = defaults();
    parse(&mut restored, &text);
    assert_eq!(restored.display.channel_buttons_visibility, 2);
}

#[test]
fn channel_buttons_visibility_clamps_out_of_range() {
    let mut settings = defaults();
    // Parse an out-of-range value — should clamp to 2.
    parse(&mut settings, "channel_buttons_visibility=99\n");
    assert_eq!(settings.display.channel_buttons_visibility, 2);
    // Parse a negative string — u8 parse fails, default stays.
    let mut settings2 = defaults();
    parse(&mut settings2, "channel_buttons_visibility=-1\n");
    assert_eq!(settings2.display.channel_buttons_visibility, 1); // default
}

#[test]
fn settings_roundtrip_zoom_enabled() {
    let mut settings = defaults();
    settings.display.spectrogram_zoom_enabled = false;
    let text = format(&settings);
    let mut parsed = defaults();
    parse(&mut parsed, &text);
    assert!(!parsed.display.spectrogram_zoom_enabled);

    // Default (key absent) should be true.
    let mut default_parsed = defaults();
    parse(&mut default_parsed, "volume=1.0\n");
    assert!(default_parsed.display.spectrogram_zoom_enabled);
}

#[test]
fn settings_text_has_one_line_per_setting_in_order() {
    let settings = defaults();
    let text = format_settings_text(&settings, "1.0000", "132.00");
    assert_eq!(
        text,
        "volume=1.0000\nfft_size=8192\nspectrogram_view_mode=downmix\nspectrogram_display_mode=rolling\nviewer_fullscreen_mode=within_window\ndb_range=132.00\nlog_scale=0\nshow_fps=0\nshow_spectrogram_crosshair=0\nshow_spectrogram_scale=0\nchannel_buttons_visibility=1\nspectrogram_zoom_enabled=1\nsystem_media_controls_enabled=1\nlibrary_sort_mode=0\nlastfm_scrobbling_enabled=0\nlastfm_username=\n"
    );
}

#[test]
fn settings_parse_reports_float_texts_in_order_and_ignores_junk() {
    let mut settings = defaults();
    let floats = parse_settings_text(
        &mut settings,
        "no equals here\nvolume = 0.3 \r\nunknown=5\nfft_size=+3000\ndb_range=  90\nvolume=abc\nlastfm_username=  someone  ",
    );
    assert_eq!(
        floats,
        vec![
            (FloatSetting::Volume, "0.3".to_string()),
            (FloatSetting::DbRange, "90".to_string()),
            (FloatSetting::Volume, "abc".to_string()),
        ]
    );
    assert_eq!(settings.fft_size, 4096);
    assert_eq!(settings.integrations.lastfm_username, "someone");
}

#[test]
fn resolve_session_current_index_prefers_valid_index() {
    let queue = vec![p("/a.flac"), p("/b.flac"), p("/c.flac")];
    let idx = resolve_session_current_index(&queue, Some(2), Some(&p("/a.flac")));
    assert_eq!(idx, Some(2));
}

#[test]
fn resolve_session_current_index_falls_back_to_path_when_index_missing() {
    let queue = vec![p("/a.flac"), p("/b.flac"), p("/c.flac")];
    let idx = resolve_session_current_index(&queue, None, Some(&p("/b.flac")));
    assert_eq!(idx, Some(1));
}

#[test]
fn resolve_session_current_index_falls_back_to_path_when_index_invalid() {
    let queue = vec![p("/a.flac"), p("/b.flac"), p("/c.flac")];
    let idx = resolve_session_current_index(&queue, Some(9), Some(&p("/c.flac")));
    assert_eq!(idx, Some(2));
}

#[test]
fn session_restore_keeps_queue_and_resumes_saved_track() {
    let session = SessionSnapshot {
        queue: vec![p("/a.flac"), p("/b.flac")],
        selected_queue_index: Some(7),
        current_queue_index: None,
        current_path: Some(p("/b.flac")),
    };
    let restored = apply_session_restore(&session);
    assert_eq!(restored.queue, session.queue);
    assert_eq!(restored.current_queue_index, Some(1));
    assert_eq!(restored.current_path, Some(p("/b.flac")));
    assert_eq!(restored.selected_queue_index, Some(1));

    let nothing = apply_session_restore(&SessionSnapshot {
        queue: vec![p("/a.flac")],
        selected_queue_index: Some(0),
        current_queue_index: None,
        current_path: Some(p("/gone.flac")),
    });
    assert_eq!(nothing.current_queue_index, None);
    assert_eq!(nothing.current_path, None);
    assert_eq!(nothing.selected_queue_index, Some(0));
}
