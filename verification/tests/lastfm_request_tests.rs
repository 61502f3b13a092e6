use ferrous::lastfm::{api_signature, NowPlayingTrack, RequestError, ScrobbleEntry};
use ferrous::lastfm_request::{
    now_playing_params, reply_error, reply_session, reply_token, scrobble_batch_params, signed_params,
};

fn pairs(ps: &[(&str, &str)]) -> Vec<(String, String)> {
    ps.iter().map(|(k, v)| (k.to_string(), v.to_string())).collect()
}

#[test]
fn now_playing_params_skip_blank_album_and_unknown_details() {
    let track = NowPlayingTrack {
        artist: "Dadawah".into(),
        track: "Run Come Rally".into(),
        album: "  ".into(),
        track_number: None,
        duration_seconds: Some(431),
    };
    assert_eq!(
        now_playing_params("KEY", &track),
        pairs(&[("artist", "Dadawah"), ("track", "Run Come Rally"), ("sk", "KEY"), ("duration", "431")])
    );
}

#[test]
fn scrobble_batch_params_number_each_entry() {
    let entry = |artist: &str, album: &str, n: Option<u32>, t: i64| ScrobbleEntry {
        artist: artist.into(),
        track: "T".into(),
        album: album.into(),
        track_number: n,
        duration_seconds: None,
        timestamp_utc: t,
    };
    let batch = vec![entry("A", "Album", Some(3), 1_700_000_000), entry("B", "", None, -5)];
    assert_eq!(
        scrobble_batch_params("KEY", &batch),
        pairs(&[
            ("sk", "KEY"),
            ("artist[0]", "A"),
            ("track[0]", "T"),
            ("timestamp[0]", "1700000000"),
            ("album[0]", "Album"),
            ("trackNumber[0]", "3"),
            ("artist[1]", "B"),
            ("track[1]", "T"),
            ("timestamp[1]", "-5"),
        ])
    );
    assert_eq!(scrobble_batch_params("K", &vec![]), pairs(&[("sk", "K")]));
}

#[test]
fn signed_params_append_method_key_signature_and_format() {
    let params = pairs(&[("token", "abc")]);
    let signed = signed_params(&params, "auth.getSession", "xyz", "secret");
    let expected_sig = api_signature(&pairs(&[("token", "abc"), ("method", "auth.getSession"), ("api_key", "xyz")]), "secret");
    assert_eq!(
        signed,
        vec![
            ("token".to_string(), "abc".to_string()),
            ("method".to_string(), "auth.getSession".to_string()),
            ("api_key".to_string(), "xyz".to_string()),
            ("api_sig".to_string(), expected_sig.clone()),
            ("format".to_string(), "json".to_string()),
        ]
    );
    assert_eq!(expected_sig.len(), 32);
}

#[test]
fn replies_are_checked_for_errors_and_fields() {
    assert!(reply_error(None, Some("x".into())).is_none());
    assert!(matches!(
        reply_error(Some(9), None),
        Some(RequestError::Api { code: 9, ref message }) if message == "Last.fm request failed"
    ));
    assert!(matches!(
        reply_error(Some(4), Some("Bad token".into())),
        Some(RequestError::Api { code: 4, ref message }) if message == "Bad token"
    ));
    assert_eq!(reply_token(Some("tok".into())).unwrap(), "tok");
    assert!(matches!(reply_token(Some("  ".into())), Err(RequestError::InvalidResponse(ref m)) if m == "Last.fm token missing from response"));
    assert!(matches!(reply_session(false, None, None), Err(RequestError::InvalidResponse(ref m)) if m == "Last.fm session missing from response"));
    assert!(matches!(reply_session(true, Some("".into()), Some("k".into())), Err(RequestError::InvalidResponse(ref m)) if m == "Last.fm session name missing"));
    assert!(matches!(reply_session(true, Some("me".into()), None), Err(RequestError::InvalidResponse(ref m)) if m == "Last.fm session key missing"));
    let s = reply_session(true, Some("me".into()), Some("k".into())).unwrap();
    assert_eq!((s.username.as_str(), s.session_key.as_str()), ("me", "k"));
}
