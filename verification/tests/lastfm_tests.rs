use ferrous::lastfm::{
    api_signature, app_credentials, is_invalid_session, is_transient, queue_path,
    request_error_message, scrobble_threshold_seconds, RequestError,
};
use ferrous::queue::PlaybackState;
use ferrous::scrobbling::{tick_lastfm_playback_at, LastFmAction, LastFmPlaybackTracker, PlaybackObservation};

#[test]
fn scrobble_threshold_matches_lastfm_rule() {
    assert_eq!(scrobble_threshold_seconds(30), None);
    assert_eq!(scrobble_threshold_seconds(31), Some(15));
    assert_eq!(scrobble_threshold_seconds(400), Some(200));
    assert_eq!(scrobble_threshold_seconds(1000), Some(240));
}

#[test]
fn api_signature_ignores_format_and_callback() {
    let params = vec![
        ("method".to_string(), "auth.getSession".to_string()),
        ("token".to_string(), "abc".to_string()),
        ("api_key".to_string(), "xyz".to_string()),
        ("format".to_string(), "json".to_string()),
        (
            "callback".to_string(),
            "https://example.invalid".to_string(),
        ),
    ];
    let left = api_signature(&params, "secret");
    let right = api_signature(
        &params
            .into_iter()
            .filter(|(key, _)| key != "format" && key != "callback")
            .collect::<Vec<_>>(),
        "secret",
    );
    assert_eq!(left, right);
}

#[test]
fn api_signature_is_md5_of_sorted_pairs_and_secret() {
    let params = vec![
        ("method".to_string(), "auth.getToken".to_string()),
        ("api_key".to_string(), "xyz".to_string()),
    ];
    let sig = api_signature(&params, "secret");
    let expected = format!("{:x}", md5::compute(b"api_keyxyzmethodauth.getTokensecret"));
    assert_eq!(sig, expected);
    assert_eq!(sig.len(), 32);
    assert_ne!(sig, api_signature(&params, "other"));
}

#[test]
fn app_credentials_require_both_non_blank_values() {
    let creds = app_credentials(Some(" key "), Some("secret\n")).expect("credentials");
    assert_eq!(creds.api_key, "key");
    assert_eq!(creds.shared_secret, "secret");
    assert!(app_credentials(Some("key"), Some("  ")).is_none());
    assert!(app_credentials(None, Some("secret")).is_none());
}

#[test]
fn queue_path_is_inside_config_folder() {
    assert_eq!(queue_path("/home/u/.config/ferrous"), "/home/u/.config/ferrous/lastfm_queue.json");
    assert_eq!(queue_path("/cfg/"), "/cfg/lastfm_queue.json");
}

#[test]
fn request_errors_are_classified_and_described() {
    let invalid = RequestError::Api { code: 9, message: "Invalid session key".to_string() };
    assert!(is_invalid_session(&invalid));
    assert!(!is_transient(&invalid));
    assert!(is_transient(&RequestError::Transport("timeout".to_string())));
    assert!(is_transient(&RequestError::Api { code: 11, message: String::new() }));
    assert!(is_transient(&RequestError::Api { code: 16, message: String::new() }));
    assert!(!is_transient(&RequestError::Keyring("locked".to_string())));
    assert_eq!(request_error_message(invalid), "Last.fm API error 9: Invalid session key");
    assert_eq!(
        request_error_message(RequestError::Api { code: -4, message: "x".to_string() }),
        "Last.fm API error -4: x"
    );
    assert_eq!(
        request_error_message(RequestError::InvalidResponse("bad".to_string())),
        "Last.fm response error: bad"
    );
    assert_eq!(
        request_error_message(RequestError::Transport("t".to_string())),
        "Last.fm transport error: t"
    );
    assert_eq!(
        request_error_message(RequestError::Keyring("k".to_string())),
        "Last.fm keyring error: k"
    );
}

fn playing(path: &str, duration_secs: u64, enabled: bool) -> PlaybackObservation {
    PlaybackObservation {
        current: Some(path.to_string()),
        state: PlaybackState::Playing,
        duration_secs,
        metadata_source: Some(path.to_string()),
        artist: "Artist".to_string(),
        title: "Track".to_string(),
        album: "Album".to_string(),
        current_track_number: None,
        lastfm_enabled: enabled,
    }
}

fn stopped(enabled: bool) -> PlaybackObservation {
    PlaybackObservation {
        current: None,
        state: PlaybackState::Stopped,
        duration_secs: 0,
        metadata_source: None,
        artist: String::new(),
        title: String::new(),
        album: String::new(),
        current_track_number: None,
        lastfm_enabled: enabled,
    }
}

fn scrobbles(actions: &[LastFmAction]) -> Vec<(String, String, i64)> {
    actions
        .iter()
        .filter_map(|a| match a {
            LastFmAction::QueueScrobble(e) => Some((e.artist.clone(), e.track.clone(), e.timestamp_utc)),
            _ => None,
        })
        .collect()
}

#[test]
fn lastfm_scrobble_requires_actual_listened_time_instead_of_seek_position() {
    let obs = playing("/music/seek-test.flac", 240, true);
    let mut tracker = LastFmPlaybackTracker::new();
    let start = 5_000u64;
    let a = tick_lastfm_playback_at(&mut tracker, &obs, start, 1_700_000_000);
    assert_eq!(tracker.listened_millis, 0);
    assert!(!tracker.scrobble_queued);
    assert!(scrobbles(&a).is_empty());

    let a = tick_lastfm_playback_at(&mut tracker, &obs, start + 1_000, 1_700_000_001);
    assert!(tracker.listened_millis < 2_000);
    assert!(!tracker.scrobble_queued);
    assert!(scrobbles(&a).is_empty());

    let a = tick_lastfm_playback_at(&mut tracker, &obs, start + 120_000, 1_700_000_120);
    assert!(tracker.listened_millis >= 120_000);
    assert!(!tracker.scrobble_queued);
    assert!(scrobbles(&a).is_empty());

    let a = tick_lastfm_playback_at(&mut tracker, &stopped(true), start + 121_000, 1_700_000_121);
    assert!(tracker.active_path.is_none());
    assert!(!tracker.scrobble_queued);
    let queued = scrobbles(&a);
    assert_eq!(queued.len(), 1);
    assert_eq!(queued[0].0, "Artist");
    assert_eq!(queued[0].1, "Track");
    assert_eq!(queued[0].2, 1_700_000_000);
}

#[test]
fn lastfm_scrobble_does_not_queue_when_disabled() {
    let obs = playing("/music/disabled-scrobble.flac", 200, false);
    let mut tracker = LastFmPlaybackTracker::new();
    let start = 0u64;
    let a1 = tick_lastfm_playback_at(&mut tracker, &obs, start, 1_700_000_000);
    let a2 = tick_lastfm_playback_at(&mut tracker, &obs, start + 101_000, 1_700_000_101);
    let a3 = tick_lastfm_playback_at(&mut tracker, &stopped(false), start + 102_000, 1_700_000_102);
    assert!(!tracker.scrobble_queued);
    assert!(scrobbles(&a1).is_empty() && scrobbles(&a2).is_empty() && scrobbles(&a3).is_empty());
    assert!(a1.is_empty() && a2.is_empty() && a3.is_empty());
}

#[test]
fn now_playing_is_announced_once_per_track() {
    let obs = playing("/music/a.flac", 300, true);
    let mut tracker = LastFmPlaybackTracker::new();
    let a1 = tick_lastfm_playback_at(&mut tracker, &obs, 0, 100);
    assert_eq!(a1.len(), 1);
    match &a1[0] {
        LastFmAction::SendNowPlaying(t) => {
            assert_eq!(t.artist, "Artist");
            assert_eq!(t.track, "Track");
            assert_eq!(t.duration_seconds, Some(300));
        }
        other => panic!("unexpected action {other:?}"),
    }
    let a2 = tick_lastfm_playback_at(&mut tracker, &obs, 1_000, 101);
    assert!(a2.is_empty());
}

#[test]
fn switching_tracks_scrobbles_the_previous_listen_once() {
    let first = playing("/music/a.flac", 60, true);
    let second = playing("/music/b.flac", 60, true);
    let mut tracker = LastFmPlaybackTracker::new();
    tick_lastfm_playback_at(&mut tracker, &first, 0, 10);
    tick_lastfm_playback_at(&mut tracker, &first, 31_000, 41);
    let a = tick_lastfm_playback_at(&mut tracker, &second, 32_000, 42);
    let queued = scrobbles(&a);
    assert_eq!(queued, vec![("Artist".to_string(), "Track".to_string(), 10)]);
    assert_eq!(tracker.active_path.as_deref(), Some("/music/b.flac"));
    assert_eq!(tracker.listened_millis, 0);
}

#[test]
fn short_tracks_are_never_scrobbled() {
    let obs = playing("/music/short.flac", 30, true);
    let mut tracker = LastFmPlaybackTracker::new();
    tick_lastfm_playback_at(&mut tracker, &obs, 0, 1);
    tick_lastfm_playback_at(&mut tracker, &obs, 30_000, 31);
    let a = tick_lastfm_playback_at(&mut tracker, &stopped(true), 30_500, 32);
    assert!(scrobbles(&a).is_empty());
}
