use ferrous::lastfm::{AppCredentials, AuthState, Command, RequestError, ScrobbleEntry, Session};
use ferrous::lastfm_service::{LastFmService, ServiceReply, ServiceRequest};

fn entry(i: i64) -> ScrobbleEntry {
    ScrobbleEntry {
        artist: format!("Artist {i}"),
        track: "Track".into(),
        album: String::new(),
        track_number: None,
        duration_seconds: Some(200),
        timestamp_utc: 1_700_000_000 + i,
    }
}

fn connected(queue: Vec<ScrobbleEntry>) -> LastFmService {
    let creds = AppCredentials { api_key: "key".into(), shared_secret: "secret".into() };
    let mut s = LastFmService::new(Some(creds), queue, true);
    s.session = Some(Session { username: "me".into(), session_key: "sk".into() });
    s
}

fn batch_len(step: &ferrous::lastfm_service::ServiceStep) -> Option<usize> {
    match step.requests.last() {
        Some(ServiceRequest::SendScrobbleBatch(b)) => Some(b.len()),
        _ => None,
    }
}

#[test]
fn flush_sends_batches_of_fifty_and_drops_acknowledged_ones() {
    let mut s = connected((0..120).map(entry).collect());
    let step = s.handle_command(Command::Flush);
    assert!(step.expects_reply);
    assert_eq!(batch_len(&step), Some(50));
    assert_eq!(s.in_flight, 50);

    let step = s.handle_reply(ServiceReply::BatchSent(Ok(())));
    assert_eq!(s.queue.len(), 70);
    assert_eq!(s.queue[0].timestamp_utc, 1_700_000_050);
    assert!(matches!(step.requests[0], ServiceRequest::SaveQueue));
    assert_eq!(batch_len(&step), Some(50));

    s.handle_reply(ServiceReply::BatchSent(Ok(())));
    let step = s.handle_reply(ServiceReply::BatchSent(Ok(())));
    assert!(s.queue.is_empty());
    assert!(!step.expects_reply);
    assert_eq!(s.state.pending_scrobble_count, 0);
    assert_eq!(s.state.status_text, "Last.fm scrobble queue flushed.");
}

#[test]
fn failed_batches_keep_or_drop_the_queue_by_error() {
    let mut s = connected((0..3).map(entry).collect());
    s.handle_command(Command::Flush);
    let step = s.handle_reply(ServiceReply::BatchSent(Err(RequestError::Transport("down".into()))));
    assert_eq!(s.queue.len(), 3);
    assert!(step.requests.is_empty());

    s.handle_command(Command::Flush);
    s.handle_reply(ServiceReply::BatchSent(Err(RequestError::Api { code: 9, message: "bad".into() })));
    assert_eq!(s.queue.len(), 3);
    assert_eq!(s.state.auth_state, AuthState::ReauthRequired);
    assert!(s.session.is_none());

    let mut s = connected((0..3).map(entry).collect());
    s.handle_command(Command::Flush);
    s.handle_reply(ServiceReply::BatchSent(Err(RequestError::Api { code: 6, message: "invalid".into() })));
    assert!(s.queue.is_empty());
}

#[test]
fn commands_ask_for_the_right_requests() {
    let mut s = connected(vec![]);
    s.state.enabled = false;
    let step = s.handle_command(Command::QueueScrobble(entry(1)));
    assert_eq!(step.requests.len(), 1);
    assert_eq!(s.state.pending_scrobble_count, 1);
    let step = s.handle_command(Command::SetEnabled(true));
    assert_eq!(batch_len(&step), Some(1));

    let mut n = LastFmService::new(None, vec![], true);
    let step = n.handle_command(Command::BeginDesktopAuth);
    assert!(step.requests.is_empty());
    assert_eq!(n.state.auth_state, AuthState::Error);
    assert_eq!(n.state.status_text, "Last.fm not configured in this build.");

    let step = s.handle_command(Command::LoadStoredSession { username: "  ".into() });
    assert!(step.requests.is_empty());
    let step = s.handle_command(Command::CompleteDesktopAuth);
    assert!(step.requests.is_empty());
    assert_eq!(s.state.status_text, "No Last.fm authorization is pending.");

    s.state.username = "me".into();
    let step = s.handle_command(Command::Disconnect { clear_queue: true });
    assert!(matches!(step.requests.as_slice(), [ServiceRequest::DeleteSessionKey { username }, ServiceRequest::SaveQueue] if username == "me"));
    assert_eq!(s.in_flight, 0);
    assert!(s.queue.is_empty());
}

#[test]
fn connecting_starts_a_flush() {
    let creds = AppCredentials { api_key: "key".into(), shared_secret: "secret".into() };
    let mut s = LastFmService::new(Some(creds), (0..2).map(entry).collect(), true);
    s.pending_username = Some("me".into());
    let step = s.handle_reply(ServiceReply::SessionKeyLoaded(Ok(Some("sk".into()))));
    assert_eq!(s.state.auth_state, AuthState::Connected);
    assert_eq!(batch_len(&step), Some(2));
}
