//! The scrobbling service as a state machine. Each step takes a command or
//! the reply to a request it made, updates the service and lists the
//! requests to perform (network calls, keyring and file access), in order.
//! At most one request of a step expects a reply: the last one, when
//! `expects_reply` says so; its reply is handed to `handle_reply`.
use vstd::prelude::*;

use crate::lastfm::{
    error_message_spec, invalid_session_error, transient_error, is_invalid_session, is_transient, request_error_message, AppCredentials,
    AuthState, Command, NowPlayingTrack, PendingAuth, RequestError, RuntimeState, ScrobbleEntry,
    Session,
};
use crate::text::{chars_of, push_str, string_from_chars, trim, trim_str};

verus! {

/// Scrobbles submitted in one request at most.
pub const MAX_SCROBBLES_PER_BATCH: usize = 50;

/// The scrobbling service.
#[derive(Debug)]
pub struct LastFmService {
    pub credentials: Option<AppCredentials>,
    pub queue: Vec<ScrobbleEntry>,
    pub session: Option<Session>,
    pub pending_auth: Option<PendingAuth>,
    pub state: RuntimeState,
    /// Entries of the queue in the batch being submitted.
    pub in_flight: usize,
    /// The session whose key is being stored.
    pub pending_session: Option<Session>,
    /// The user whose session key is being looked up.
    pub pending_username: Option<String>,
    /// The track being announced.
    pub pending_now_playing: Option<NowPlayingTrack>,
}

/// Outside work the service asks for.
#[derive(Debug, Clone)]
pub enum ServiceRequest {
    /// `auth.getToken`.
    RequestToken,
    /// `auth.getSession` for an approved token.
    RequestSession { token: String },
    /// Keep the session key in the keyring under the user name.
    StoreSessionKey { username: String, session_key: String },
    /// Look the session key of a user up in the keyring.
    LoadSessionKey { username: String },
    /// Forget the session key of a user; the outcome is not awaited.
    DeleteSessionKey { username: String },
    /// `track.updateNowPlaying`.
    SendNowPlaying(NowPlayingTrack),
    /// `track.scrobble` for these entries.
    SendScrobbleBatch(Vec<ScrobbleEntry>),
    /// Write the queue file (remove it when the queue is empty); the outcome
    /// is not awaited.
    SaveQueue,
}

/// The outcome of a request that expects one.
#[derive(Debug)]
pub enum ServiceReply {
    Token(Result<String, RequestError>),
    Session(Result<Session, RequestError>),
    SessionStored(Result<(), RequestError>),
    SessionKeyLoaded(Result<Option<String>, RequestError>),
    NowPlayingSent(Result<(), RequestError>),
    BatchSent(Result<(), RequestError>),
}

/// What a step asks for.
#[derive(Debug)]
pub struct ServiceStep {
    pub requests: Vec<ServiceRequest>,
    /// The last request expects a reply.
    pub expects_reply: bool,
    /// The service keeps running.
    pub keep_running: bool,
}

pub open spec fn expects_reply_for(r: ServiceRequest) -> bool {
    !(r is DeleteSessionKey || r is SaveQueue)
}

impl ServiceStep {
    /// Only the last request may expect a reply, and `expects_reply` says
    /// whether it does.
    pub open spec fn well_formed(&self) -> bool {
        &&& forall|i: int| 0 <= i < self.requests@.len() - 1 ==> !expects_reply_for(#[trigger] self.requests@[i])
        &&& self.expects_reply == (self.requests@.len() > 0 && expects_reply_for(self.requests@.last()))
    }
}

pub open spec fn not_configured_message() -> Seq<char> {
    "Last.fm not configured in this build."@
}

fn text(s: &str) -> (r: String)
    ensures
        r@ == s@,
{
    string_from_chars(&chars_of(s))
}

fn copy_entry(e: &ScrobbleEntry) -> (r: ScrobbleEntry)
    ensures
        r == *e,
{
    ScrobbleEntry {
        artist: e.artist.clone(),
        track: e.track.clone(),
        album: e.album.clone(),
        track_number: e.track_number,
        duration_seconds: e.duration_seconds,
        timestamp_utc: e.timestamp_utc,
    }
}

fn copy_track(t: &NowPlayingTrack) -> (r: NowPlayingTrack)
    ensures
        r == *t,
{
    NowPlayingTrack {
        artist: t.artist.clone(),
        track: t.track.clone(),
        album: t.album.clone(),
        track_number: t.track_number,
        duration_seconds: t.duration_seconds,
    }
}

/// The first `n` entries.
fn take_entries(q: &Vec<ScrobbleEntry>, n: usize) -> (r: Vec<ScrobbleEntry>)
    requires
        n <= q@.len(),
    ensures
        r@ == q@.take(n as int),
{
    let mut out: Vec<ScrobbleEntry> = Vec::new();
    let mut i: usize = 0;
    while i < n
        invariant
            n <= q@.len(),
            i <= n,
            out@ == q@.take(i as int),
        decreases n - i,
    {
        out.push(copy_entry(&q[i]));
        assert(out@ =~= q@.take(i + 1));
        i += 1;
    }
    out
}

/// All but the first `n` entries.
fn drop_entries(q: &Vec<ScrobbleEntry>, n: usize) -> (r: Vec<ScrobbleEntry>)
    requires
        n <= q@.len(),
    ensures
        r@ == q@.skip(n as int),
{
    let mut out: Vec<ScrobbleEntry> = Vec::new();
    let mut i: usize = n;
    while i < q.len()
        invariant
            n <= i <= q@.len(),
            out@ == q@.subrange(n as int, i as int),
        decreases q@.len() - i,
    {
        out.push(copy_entry(&q[i]));
        assert(out@ =~= q@.subrange(n as int, i + 1));
        i += 1;
    }
    assert(q@.subrange(n as int, q@.len() as int) =~= q@.skip(n as int));
    out
}

pub open spec fn batch_len(len: nat) -> nat {
    if len < MAX_SCROBBLES_PER_BATCH { len } else { MAX_SCROBBLES_PER_BATCH as nat }
}

/// Whether the queue can be submitted: scrobbling on, entries waiting,
/// credentials and a session present.
pub open spec fn can_flush(s: LastFmService) -> bool {
    s.state.enabled && s.queue@.len() > 0 && s.credentials is Some && s.session is Some
}

/// Whether the queue could be submitted were scrobbling on.
pub open spec fn flushable(s: LastFmService) -> bool {
    s.queue@.len() > 0 && s.credentials is Some && s.session is Some
}

/// Nothing to do and no reply awaited.
pub open spec fn no_requests(step: ServiceStep) -> bool {
    step.requests@.len() == 0 && !step.expects_reply
}

/// `reqs` is `base` followed by the request to send the first batch of
/// `queue` (its first 50 entries at most).
pub open spec fn sends_batch(queue: Seq<ScrobbleEntry>, base: Seq<ServiceRequest>, reqs: Seq<ServiceRequest>) -> bool {
    &&& reqs.len() == base.len() + 1
    &&& reqs.take(base.len() as int) == base
    &&& reqs.last() is SendScrobbleBatch
    &&& reqs.last()->SendScrobbleBatch_0@ == queue.take(batch_len(queue.len()) as int)
}

/// A flush of `queue`, after the requests `base`: when it `can` go, the
/// first batch is sent and its reply awaited; otherwise nothing more is
/// asked and the pending count becomes the queue's length.
pub open spec fn flushed(
    can: bool,
    queue: Seq<ScrobbleEntry>,
    base: Seq<ServiceRequest>,
    pending: usize,
    in_flight: usize,
    f: LastFmService,
    step: ServiceStep,
) -> bool {
    if can {
        &&& sends_batch(queue, base, step.requests@)
        &&& step.expects_reply
        &&& f.in_flight == batch_len(queue.len())
        &&& f.state.pending_scrobble_count == pending
    } else {
        &&& step.requests@ == base
        &&& !step.expects_reply
        &&& f.in_flight == in_flight
        &&& f.state.pending_scrobble_count == queue.len()
    }
}

/// `f` is `s` with only the batch in flight and the pending count changed.
pub open spec fn only_run_changed(s: LastFmService, f: LastFmService) -> bool {
    f == LastFmService {
        in_flight: f.in_flight,
        state: RuntimeState { pending_scrobble_count: f.state.pending_scrobble_count, ..s.state },
        ..s
    }
}

/// `f` is `s` with the account in error and the status `text`.
pub open spec fn errored(s: LastFmService, f: LastFmService, text: Seq<char>) -> bool {
    &&& f == LastFmService {
        state: RuntimeState { auth_state: AuthState::Error, status_text: f.state.status_text, ..s.state },
        ..s
    }
    &&& f.state.status_text@ == text
}

pub open spec fn no_pending_auth_message() -> Seq<char> {
    "No Last.fm authorization is pending."@
}

/// The requests of a disconnect: forgetting the stored key of a named
/// account, then saving the emptied queue when it is cleared.
pub open spec fn disconnect_requests(name: Seq<char>, clear: bool, reqs: Seq<ServiceRequest>) -> bool {
    let n: int = if trim(name).len() > 0 { 1 } else { 0 };
    &&& reqs.len() == n + if clear { 1int } else { 0int }
    &&& n == 1 ==> (reqs[0] matches ServiceRequest::DeleteSessionKey { username } && username@ == name)
    &&& clear ==> reqs[n] is SaveQueue
}

/// What a command does to the service and asks for.
pub open spec fn command_step(s: LastFmService, command: Command, f: LastFmService, step: ServiceStep) -> bool {
    &&& step.keep_running == !(command is Shutdown)
    &&& match command {
        Command::SetEnabled(e) => if e {
            &&& f == LastFmService {
                in_flight: f.in_flight,
                state: RuntimeState { enabled: true, pending_scrobble_count: f.state.pending_scrobble_count, ..s.state },
                ..s
            }
            &&& flushed(flushable(s), s.queue@, Seq::empty(), s.state.pending_scrobble_count, s.in_flight, f, step)
        } else {
            f == LastFmService { state: RuntimeState { enabled: false, ..s.state }, ..s } && no_requests(step)
        },
        Command::LoadStoredSession { username } => if trim(username@).len() > 0 {
            &&& f == LastFmService { pending_username: f.pending_username, ..s }
            &&& f.pending_username matches Some(n) && n@ == username@
            &&& step.requests@ == seq![ServiceRequest::LoadSessionKey { username }]
            &&& step.expects_reply
        } else {
            f == s && no_requests(step)
        },
        Command::BeginDesktopAuth => if s.credentials is None {
            errored(s, f, not_configured_message()) && no_requests(step)
        } else {
            f == s && step.requests@ == seq![ServiceRequest::RequestToken] && step.expects_reply
        },
        Command::CompleteDesktopAuth => if s.credentials is None {
            errored(s, f, not_configured_message()) && no_requests(step)
        } else {
            match s.pending_auth {
                None => errored(s, f, no_pending_auth_message()) && no_requests(step),
                Some(p) => {
                    &&& f == s
                    &&& step.requests@.len() == 1
                    &&& step.requests@[0] matches ServiceRequest::RequestSession { token } && token@ == p.token@
                    &&& step.expects_reply
                },
            }
        },
        Command::Disconnect { clear_queue } => {
            &&& f == LastFmService {
                session: None,
                pending_auth: None,
                queue: f.queue,
                in_flight: f.in_flight,
                state: RuntimeState {
                    username: f.state.username,
                    auth_state: AuthState::Disconnected,
                    auth_url: f.state.auth_url,
                    status_text: f.state.status_text,
                    pending_scrobble_count: f.state.pending_scrobble_count,
                    ..s.state
                },
                ..s
            }
            &&& f.state.username@.len() == 0 && f.state.auth_url@.len() == 0
            &&& f.state.status_text@ == "Last.fm disconnected."@
            &&& if clear_queue {
                f.queue@.len() == 0 && f.in_flight == 0
            } else {
                f.queue == s.queue && f.in_flight == s.in_flight
            }
            &&& f.state.pending_scrobble_count == f.queue@.len()
            &&& disconnect_requests(s.state.username@, clear_queue, step.requests@)
            &&& !step.expects_reply
        },
        Command::SendNowPlaying(track) => if s.state.enabled && s.credentials is Some && s.session is Some
            && trim(track.artist@).len() > 0 && trim(track.track@).len() > 0 {
            &&& f == LastFmService { pending_now_playing: Some(track), ..s }
            &&& step.requests@ == seq![ServiceRequest::SendNowPlaying(track)]
            &&& step.expects_reply
        } else {
            f == s && no_requests(step)
        },
        Command::QueueScrobble(entry) => {
            &&& f.queue@ == s.queue@.push(entry)
            &&& f == LastFmService {
                queue: f.queue,
                in_flight: f.in_flight,
                state: RuntimeState { pending_scrobble_count: f.state.pending_scrobble_count, ..s.state },
                ..s
            }
            &&& flushed(
                s.state.enabled && s.credentials is Some && s.session is Some,
                f.queue@,
                seq![ServiceRequest::SaveQueue],
                f.queue@.len() as usize,
                s.in_flight,
                f,
                step,
            )
        },
        Command::Flush => {
            &&& only_run_changed(s, f)
            &&& flushed(can_flush(s), s.queue@, Seq::empty(), s.state.pending_scrobble_count, s.in_flight, f, step)
        },
        Command::Shutdown => f == s && no_requests(step),
    }
}

pub open spec fn auth_url_spec(credentials: Option<AppCredentials>, token: Seq<char>) -> Seq<char> {
    "https://www.last.fm/api/auth/?api_key="@ + match credentials {
        Some(c) => c.api_key@,
        None => Seq::empty(),
    } + "&token="@ + token
}

/// The account and pending fields after a batch is refused for its
/// session: the session and any authorization forgotten, reconnecting
/// asked for with `text`.
pub open spec fn reauth(s: LastFmService, f: LastFmService, text: Seq<char>) -> bool {
    &&& f.session is None && f.pending_auth is None
    &&& f.state.auth_url@.len() == 0
    &&& f.state.auth_state == AuthState::ReauthRequired
    &&& f.state.status_text@ == text
}

/// The name a looked-up session key belongs to.
pub open spec fn looked_up_name(s: LastFmService) -> Seq<char> {
    match s.pending_username {
        Some(n) => n@,
        None => Seq::empty(),
    }
}

/// What the reply to the awaited request does to the service and asks for.
pub open spec fn reply_step(s: LastFmService, reply: ServiceReply, f: LastFmService, step: ServiceStep) -> bool {
    &&& step.keep_running
    &&& match reply {
        ServiceReply::Token(Ok(t)) => {
            &&& f == LastFmService {
                pending_auth: f.pending_auth,
                state: RuntimeState {
                    auth_state: AuthState::AwaitingBrowserApproval,
                    auth_url: f.state.auth_url,
                    status_text: f.state.status_text,
                    ..s.state
                },
                ..s
            }
            &&& f.pending_auth matches Some(p) && p.token == t && p.auth_url@ == auth_url_spec(s.credentials, t@)
            &&& f.state.auth_url@ == auth_url_spec(s.credentials, t@)
            &&& f.state.status_text@ == "Authorize Ferrous in your browser, then click Complete Connection."@
            &&& no_requests(step)
        },
        ServiceReply::Token(Err(e)) => errored(s, f, error_message_spec(e)) && no_requests(step),
        ServiceReply::Session(Ok(x)) => {
            &&& f == LastFmService { pending_session: Some(x), ..s }
            &&& step.requests@.len() == 1
            &&& step.requests@[0] matches ServiceRequest::StoreSessionKey { username, session_key }
                && username@ == x.username@ && session_key@ == x.session_key@
            &&& step.expects_reply
        },
        ServiceReply::Session(Err(e)) => errored(s, f, error_message_spec(e)) && no_requests(step),
        ServiceReply::SessionStored(Ok(())) => match s.pending_session {
            None => f == s && no_requests(step),
            Some(p) => {
                &&& f == LastFmService {
                    session: Some(p),
                    pending_auth: None,
                    pending_session: None,
                    in_flight: f.in_flight,
                    state: RuntimeState {
                        username: f.state.username,
                        auth_state: AuthState::Connected,
                        auth_url: f.state.auth_url,
                        status_text: f.state.status_text,
                        pending_scrobble_count: f.state.pending_scrobble_count,
                        ..s.state
                    },
                    ..s
                }
                &&& f.state.username@ == p.username@ && f.state.auth_url@.len() == 0
                &&& f.state.status_text@ == "Last.fm account connected."@
                &&& flushed(
                    s.state.enabled && s.queue@.len() > 0 && s.credentials is Some,
                    s.queue@,
                    Seq::empty(),
                    s.state.pending_scrobble_count,
                    s.in_flight,
                    f,
                    step,
                )
            },
        },
        ServiceReply::SessionStored(Err(e)) => {
            &&& f == LastFmService {
                pending_session: None,
                state: RuntimeState { auth_state: AuthState::Error, status_text: f.state.status_text, ..s.state },
                ..s
            }
            &&& f.state.status_text@ == error_message_spec(e)
            &&& no_requests(step)
        },
        ServiceReply::SessionKeyLoaded(Ok(Some(k))) => {
            &&& f == LastFmService {
                pending_username: None,
                session: f.session,
                in_flight: f.in_flight,
                state: RuntimeState {
                    username: f.state.username,
                    auth_state: AuthState::Connected,
                    status_text: f.state.status_text,
                    pending_scrobble_count: f.state.pending_scrobble_count,
                    ..s.state
                },
                ..s
            }
            &&& f.session matches Some(x) && x.username@ == looked_up_name(s) && x.session_key == k
            &&& f.state.username@ == looked_up_name(s) && f.state.status_text@.len() == 0
            &&& flushed(
                s.state.enabled && s.queue@.len() > 0 && s.credentials is Some,
                s.queue@,
                Seq::empty(),
                s.state.pending_scrobble_count,
                s.in_flight,
                f,
                step,
            )
        },
        ServiceReply::SessionKeyLoaded(Ok(None)) => {
            &&& f == LastFmService {
                pending_username: None,
                state: RuntimeState {
                    username: f.state.username,
                    auth_state: AuthState::Disconnected,
                    status_text: f.state.status_text,
                    ..s.state
                },
                ..s
            }
            &&& f.state.username@ == looked_up_name(s)
            &&& f.state.status_text@ == "Reconnect Last.fm to resume scrobbling."@
            &&& no_requests(step)
        },
        ServiceReply::SessionKeyLoaded(Err(e)) => {
            &&& f == LastFmService {
                pending_username: None,
                state: RuntimeState {
                    username: f.state.username,
                    auth_state: AuthState::Error,
                    status_text: f.state.status_text,
                    ..s.state
                },
                ..s
            }
            &&& f.state.username@ == looked_up_name(s)
            &&& f.state.status_text@ == error_message_spec(e)
            &&& no_requests(step)
        },
        ServiceReply::NowPlayingSent(Ok(())) => {
            &&& f == LastFmService {
                pending_now_playing: None,
                state: RuntimeState { status_text: f.state.status_text, ..s.state },
                ..s
            }
            &&& match s.pending_now_playing {
                Some(t) => f.state.status_text@ == "Now playing: "@ + t.artist@ + " - "@ + t.track@,
                None => f.state.status_text == s.state.status_text,
            }
            &&& no_requests(step)
        },
        ServiceReply::NowPlayingSent(Err(e)) => {
            &&& no_requests(step)
            &&& if invalid_session_error(e) {
                &&& f == LastFmService {
                    pending_now_playing: None,
                    session: None,
                    pending_auth: None,
                    state: RuntimeState {
                        auth_state: AuthState::ReauthRequired,
                        auth_url: f.state.auth_url,
                        status_text: f.state.status_text,
                        ..s.state
                    },
                    ..s
                }
                &&& reauth(s, f, "Last.fm session expired. Reconnect to resume scrobbling."@)
            } else {
                &&& f == LastFmService {
                    pending_now_playing: None,
                    state: RuntimeState { status_text: f.state.status_text, ..s.state },
                    ..s
                }
                &&& f.state.status_text@ == error_message_spec(e)
            }
        },
        ServiceReply::BatchSent(r) => batch_step(s, r, f, step),
    }
}

/// After the reply to a batch: a refused session keeps the queue and asks
/// to reconnect; a transient failure keeps the queue and stops; success, or
/// any other failure (which would fail again), drops the batch from the
/// queue, saves it, and sends the next batch, if any.
pub open spec fn batch_step(s: LastFmService, r: Result<(), RequestError>, f: LastFmService, step: ServiceStep) -> bool {
    match r {
        Err(e) if invalid_session_error(e) => {
            &&& f == LastFmService {
                in_flight: 0,
                session: None,
                pending_auth: None,
                state: RuntimeState {
                    auth_state: AuthState::ReauthRequired,
                    auth_url: f.state.auth_url,
                    status_text: f.state.status_text,
                    pending_scrobble_count: f.state.pending_scrobble_count,
                    ..s.state
                },
                ..s
            }
            &&& reauth(s, f, "Last.fm session expired. Reconnect to flush queued scrobbles."@)
            &&& f.state.pending_scrobble_count == s.queue@.len()
            &&& no_requests(step)
        },
        Err(e) if transient_error(e) => {
            &&& f == LastFmService {
                in_flight: 0,
                state: RuntimeState {
                    status_text: f.state.status_text,
                    pending_scrobble_count: f.state.pending_scrobble_count,
                    ..s.state
                },
                ..s
            }
            &&& f.state.status_text@ == error_message_spec(e)
            &&& f.state.pending_scrobble_count == s.queue@.len()
            &&& no_requests(step)
        },
        _ => {
            &&& f == LastFmService {
                queue: f.queue,
                in_flight: f.in_flight,
                state: RuntimeState {
                    status_text: f.state.status_text,
                    pending_scrobble_count: f.state.pending_scrobble_count,
                    ..s.state
                },
                ..s
            }
            &&& f.queue@ == s.queue@.skip(s.in_flight as int)
            &&& f.state.status_text@ == match r {
                Ok(()) => "Last.fm scrobble queue flushed."@,
                Err(e) => error_message_spec(e),
            }
            &&& if f.queue@.len() > 0 {
                &&& sends_batch(f.queue@, seq![ServiceRequest::SaveQueue], step.requests@)
                &&& step.expects_reply
                &&& f.in_flight == batch_len(f.queue@.len())
                &&& f.state.pending_scrobble_count == s.state.pending_scrobble_count
            } else {
                &&& step.requests@ == seq![ServiceRequest::SaveQueue]
                &&& !step.expects_reply
                &&& f.in_flight == 0
                &&& f.state.pending_scrobble_count == 0
            }
        },
    }
}

impl LastFmService {
    /// The batch being submitted is a prefix of the queue.
    pub open spec fn well_formed(&self) -> bool {
        self.in_flight <= self.queue@.len()
    }

    /// A service that starts with the queue read from disk and the build's
    /// credentials, if any.
    pub fn new(credentials: Option<AppCredentials>, queue: Vec<ScrobbleEntry>, enabled: bool) -> (s: Self)
        ensures
            s.well_formed(),
            s.credentials == credentials,
            s.queue == queue,
            s.session is None,
            s.pending_auth is None,
            s.in_flight == 0,
            s.state.enabled == enabled,
            s.state.build_configured == credentials is Some,
            s.state.pending_scrobble_count == queue@.len(),
            s.state.auth_state == AuthState::Disconnected,
            s.state.username@.len() == 0,
            s.state.auth_url@.len() == 0,
            s.state.status_text@ == if credentials is Some {
                Seq::<char>::empty()
            } else {
                not_configured_message()
            },
    {
        let configured = credentials.is_some();
        let status = if configured {
            String::new()
        } else {
            text("Last.fm not configured in this build.")
        };
        let count = queue.len();
        LastFmService {
            credentials,
            queue,
            session: None,
            pending_auth: None,
            state: RuntimeState {
                enabled,
                build_configured: configured,
                username: String::new(),
                auth_state: AuthState::Disconnected,
                pending_scrobble_count: count,
                status_text: status,
                auth_url: String::new(),
            },
            in_flight: 0,
            pending_session: None,
            pending_username: None,
            pending_now_playing: None,
        }
    }

    /// Starts submitting the queue when it can be (see `can_flush`): asks to
    /// send its first batch of at most 50 entries. Otherwise only updates
    /// the pending count.
    fn flush(&mut self, requests: &mut Vec<ServiceRequest>) -> (expects: bool)
        requires
            old(self).well_formed(),
        ensures
            final(self).well_formed(),
            only_run_changed(*old(self), *final(self)),
            expects == can_flush(*old(self)),
            can_flush(*old(self)) ==> final(self).in_flight == batch_len(old(self).queue@.len())
                && sends_batch(old(self).queue@, old(requests)@, final(requests)@)
                && final(requests)@ == old(requests)@.push(final(requests)@.last())
                && final(self).state.pending_scrobble_count == old(self).state.pending_scrobble_count,
            !can_flush(*old(self)) ==> final(requests)@ == old(requests)@
                && final(self).in_flight == old(self).in_flight
                && final(self).state.pending_scrobble_count == old(self).queue@.len(),
    {
        if !self.state.enabled || self.queue.len() == 0 || self.credentials.is_none()
            || self.session.is_none() {
            self.state.pending_scrobble_count = self.queue.len();
            return false;
        }
        let n = if self.queue.len() < MAX_SCROBBLES_PER_BATCH {
            self.queue.len()
        } else {
            MAX_SCROBBLES_PER_BATCH
        };
        let batch = take_entries(&self.queue, n);
        self.in_flight = n;
        let ghost before = requests@;
        requests.push(ServiceRequest::SendScrobbleBatch(batch));
        assert(requests@.take(before.len() as int) =~= before);
        true
    }

    /// Forgets the session after Last.fm refused it.
    fn transition_to_reauth(&mut self, message: &str)
        ensures
            *final(self) == (LastFmService {
                session: None,
                pending_auth: None,
                state: RuntimeState {
                    auth_url: final(self).state.auth_url,
                    auth_state: AuthState::ReauthRequired,
                    status_text: final(self).state.status_text,
                    ..old(self).state
                },
                ..*old(self)
            }),
            final(self).state.auth_url@.len() == 0,
            final(self).state.status_text@ == message@,
    {
        self.session = None;
        self.pending_auth = None;
        self.state.auth_url = String::new();
        self.state.auth_state = AuthState::ReauthRequired;
        self.state.status_text = text(message);
    }

    /// Handles a command (see `command_step`). `SetEnabled(true)`, `Flush`
    /// and a queued scrobble start a flush; `Shutdown` stops the service.
    pub fn handle_command(&mut self, command: Command) -> (step: ServiceStep)
        requires
            old(self).well_formed(),
        ensures
            final(self).well_formed(),
            step.well_formed(),
            command_step(*old(self), command, *final(self), step),
    {
        let mut requests: Vec<ServiceRequest> = Vec::new();
        let mut expects = false;
        let mut keep_running = true;
        match command {
            Command::SetEnabled(enabled) => {
                self.state.enabled = enabled;
                if enabled {
                    expects = self.flush(&mut requests);
                }
            },
            Command::LoadStoredSession { username } => {
                let name = trim_str(username.as_str());
                if name.len() > 0 {
                    self.pending_username = Some(username.clone());
                    requests.push(ServiceRequest::LoadSessionKey { username });
                    expects = true;
                }
            },
            Command::BeginDesktopAuth => {
                if self.credentials.is_none() {
                    self.state.auth_state = AuthState::Error;
                    self.state.status_text = text("Last.fm not configured in this build.");
                } else {
                    requests.push(ServiceRequest::RequestToken);
                    expects = true;
                }
            },
            Command::CompleteDesktopAuth => {
                if self.credentials.is_none() {
                    self.state.auth_state = AuthState::Error;
                    self.state.status_text = text("Last.fm not configured in this build.");
                } else {
                    match &self.pending_auth {
                        None => {
                            self.state.auth_state = AuthState::Error;
                            self.state.status_text = text("No Last.fm authorization is pending.");
                        },
                        Some(p) => {
                            requests.push(ServiceRequest::RequestSession { token: p.token.clone() });
                            expects = true;
                        },
                    }
                }
            },
            Command::Disconnect { clear_queue } => {
                let name = trim_str(self.state.username.as_str());
                if name.len() > 0 {
                    requests.push(
                        ServiceRequest::DeleteSessionKey { username: self.state.username.clone() },
                    );
                }
                self.session = None;
                self.pending_auth = None;
                self.state.username = String::new();
                self.state.auth_url = String::new();
                self.state.auth_state = AuthState::Disconnected;
                self.state.status_text = text("Last.fm disconnected.");
                if clear_queue {
                    self.queue = Vec::new();
                    self.in_flight = 0;
                    requests.push(ServiceRequest::SaveQueue);
                }
                self.state.pending_scrobble_count = self.queue.len();
            },
            Command::SendNowPlaying(track) => {
                if self.state.enabled && self.credentials.is_some() && self.session.is_some() {
                    let artist = trim_str(track.artist.as_str());
                    let title = trim_str(track.track.as_str());
                    if artist.len() > 0 && title.len() > 0 {
                        self.pending_now_playing = Some(copy_track(&track));
                        requests.push(ServiceRequest::SendNowPlaying(track));
                        expects = true;
                    }
                }
            },
            Command::QueueScrobble(entry) => {
                self.queue.push(entry);
                requests.push(ServiceRequest::SaveQueue);
                self.state.pending_scrobble_count = self.queue.len();
                expects = self.flush(&mut requests);
            },
            Command::Flush => {
                expects = self.flush(&mut requests);
            },
            Command::Shutdown => {
                keep_running = false;
            },
        }
        ServiceStep { requests, expects_reply: expects, keep_running }
    }

    /// Continues submitting after a batch (see `batch_step`).
    fn after_batch(&mut self, result: Result<(), RequestError>) -> (step: ServiceStep)
        requires
            old(self).well_formed(),
        ensures
            final(self).well_formed(),
            step.well_formed(),
            step.keep_running,
            batch_step(*old(self), result, *final(self), step),
    {
        let mut requests: Vec<ServiceRequest> = Vec::new();
        let n = self.in_flight;
        self.in_flight = 0;
        match result {
            Ok(()) => {
                self.queue = drop_entries(&self.queue, n);
                requests.push(ServiceRequest::SaveQueue);
                self.state.status_text = text("Last.fm scrobble queue flushed.");
            },
            Err(e) => {
                if is_invalid_session(&e) {
                    self.transition_to_reauth(
                        "Last.fm session expired. Reconnect to flush queued scrobbles.",
                    );
                    self.state.pending_scrobble_count = self.queue.len();
                    return ServiceStep { requests, expects_reply: false, keep_running: true };
                }
                let transient = is_transient(&e);
                self.state.status_text = request_error_message(e);
                if transient {
                    self.state.pending_scrobble_count = self.queue.len();
                    return ServiceStep { requests, expects_reply: false, keep_running: true };
                }
                self.queue = drop_entries(&self.queue, n);
                requests.push(ServiceRequest::SaveQueue);
            },
        }
        if self.queue.len() == 0 {
            self.state.pending_scrobble_count = 0;
            return ServiceStep { requests, expects_reply: false, keep_running: true };
        }
        let m = if self.queue.len() < MAX_SCROBBLES_PER_BATCH {
            self.queue.len()
        } else {
            MAX_SCROBBLES_PER_BATCH
        };
        let batch = take_entries(&self.queue, m);
        self.in_flight = m;
        requests.push(ServiceRequest::SendScrobbleBatch(batch));
        assert(requests@.take(1) =~= seq![ServiceRequest::SaveQueue]);
        ServiceStep { requests, expects_reply: true, keep_running: true }
    }

    /// Handles the reply to the request the previous step expected (see
    /// `reply_step`).
    pub fn handle_reply(&mut self, reply: ServiceReply) -> (step: ServiceStep)
        requires
            old(self).well_formed(),
        ensures
            final(self).well_formed(),
            step.well_formed(),
            reply_step(*old(self), reply, *final(self), step),
    {
        let mut requests: Vec<ServiceRequest> = Vec::new();
        let mut expects = false;
        match reply {
            ServiceReply::Token(result) => match result {
                Ok(token) => {
                    let mut url: Vec<char> = Vec::new();
                    push_str(&mut url, "https://www.last.fm/api/auth/?api_key=");
                    match &self.credentials {
                        Some(c) => push_str(&mut url, c.api_key.as_str()),
                        None => {},
                    }
                    push_str(&mut url, "&token=");
                    push_str(&mut url, token.as_str());
                    let auth_url = string_from_chars(&url);
                    self.pending_auth = Some(PendingAuth { token, auth_url: auth_url.clone() });
                    self.state.auth_state = AuthState::AwaitingBrowserApproval;
                    self.state.auth_url = auth_url;
                    self.state.status_text = text(
                        "Authorize Ferrous in your browser, then click Complete Connection.",
                    );
                },
                Err(e) => {
                    self.state.auth_state = AuthState::Error;
                    self.state.status_text = request_error_message(e);
                },
            },
            ServiceReply::Session(result) => match result {
                Ok(session) => {
                    requests.push(
                        ServiceRequest::StoreSessionKey {
                            username: session.username.clone(),
                            session_key: session.session_key.clone(),
                        },
                    );
                    self.pending_session = Some(session);
                    expects = true;
                },
                Err(e) => {
                    self.state.auth_state = AuthState::Error;
                    self.state.status_text = request_error_message(e);
                },
            },
            ServiceReply::SessionStored(result) => {
                let stored = self.pending_session.take();
                match result {
                    Ok(()) => match stored {
                        Some(session) => {
                            let name = session.username.clone();
                            self.session = Some(session);
                            self.pending_auth = None;
                            self.state.username = name;
                            self.state.auth_state = AuthState::Connected;
                            self.state.auth_url = String::new();
                            self.state.status_text = text("Last.fm account connected.");
                            expects = self.flush(&mut requests);
                        },
                        None => {},
                    },
                    Err(e) => {
                        self.state.auth_state = AuthState::Error;
                        self.state.status_text = request_error_message(e);
                    },
                }
            },
            ServiceReply::SessionKeyLoaded(result) => {
                let name = match self.pending_username.take() {
                    Some(n) => n,
                    None => String::new(),
                };
                match result {
                    Ok(Some(session_key)) => {
                        self.session = Some(Session { username: name.clone(), session_key });
                        self.state.username = name;
                        self.state.auth_state = AuthState::Connected;
                        self.state.status_text = String::new();
                        expects = self.flush(&mut requests);
                    },
                    Ok(None) => {
                        self.state.username = name;
                        self.state.auth_state = AuthState::Disconnected;
                        self.state.status_text = text("Reconnect Last.fm to resume scrobbling.");
                    },
                    Err(e) => {
                        self.state.username = name;
                        self.state.auth_state = AuthState::Error;
                        self.state.status_text = request_error_message(e);
                    },
                }
            },
            ServiceReply::NowPlayingSent(result) => {
                let announced = self.pending_now_playing.take();
                match result {
                    Ok(()) => match announced {
                        Some(t) => {
                            let mut line: Vec<char> = Vec::new();
                            push_str(&mut line, "Now playing: ");
                            push_str(&mut line, t.artist.as_str());
                            push_str(&mut line, " - ");
                            push_str(&mut line, t.track.as_str());
                            self.state.status_text = string_from_chars(&line);
                        },
                        None => {},
                    },
                    Err(e) => {
                        if is_invalid_session(&e) {
                            self.transition_to_reauth(
                                "Last.fm session expired. Reconnect to resume scrobbling.",
                            );
                        } else {
                            self.state.status_text = request_error_message(e);
                        }
                    },
                }
            },
            ServiceReply::BatchSent(result) => {
                return self.after_batch(result);
            },
        }
        ServiceStep { requests, expects_reply: expects, keep_running: true }
    }
}

} // verus!
