//! Last.fm scrobbling: the data exchanged with the service, the scrobble
//! threshold, request signing and the classification of request errors.
use vstd::prelude::*;

use crate::library_tree::{join_path, join_path_string};
use crate::sorting::{sort_seq, sort_stable, TotalPreorder};
use crate::text::{
    append_chars, chars_of, decimal_int, push_decimal_i64, push_str, string_from_chars, trim,
    trim_str,
};

verus! {

// ---------------------------------------------------------------------------
// Data
// ---------------------------------------------------------------------------

/// The API key and shared secret this build was configured with.
#[derive(Debug, Clone, PartialEq, Eq)]
pub struct AppCredentials {
    pub api_key: String,
    pub shared_secret: String,
}

/// Where the account connection stands.
#[derive(Debug, Clone, Copy, PartialEq, Eq, Structural, Default)]
pub enum AuthState {
    #[default]
    Disconnected,
    AwaitingBrowserApproval,
    Connected,
    ReauthRequired,
    Error,
}

/// What the service reports to the user interface.
#[derive(Debug, Clone, PartialEq, Eq, Default)]
pub struct RuntimeState {
    pub enabled: bool,
    pub build_configured: bool,
    pub username: String,
    pub auth_state: AuthState,
    pub pending_scrobble_count: usize,
    pub status_text: String,
    pub auth_url: String,
}

/// A desktop authorization waiting for the user's approval in the browser.
#[derive(Debug, Clone, PartialEq, Eq)]
pub struct PendingAuth {
    pub token: String,
    pub auth_url: String,
}

/// A connected account.
#[derive(Debug, Clone, PartialEq, Eq)]
pub struct Session {
    pub username: String,
    pub session_key: String,
}

/// The track announced as playing now.
#[derive(Debug, Clone, PartialEq, Eq)]
pub struct NowPlayingTrack {
    pub artist: String,
    pub track: String,
    pub album: String,
    pub track_number: Option<u32>,
    pub duration_seconds: Option<u32>,
}

/// A listen to submit, with the time it started.
#[derive(Debug, Clone, PartialEq, Eq)]
pub struct ScrobbleEntry {
    pub artist: String,
    pub track: String,
    pub album: String,
    pub track_number: Option<u32>,
    pub duration_seconds: Option<u32>,
    pub timestamp_utc: i64,
}

/// Requests to the scrobbling service.
#[derive(Debug, Clone)]
pub enum Command {
    SetEnabled(bool),
    LoadStoredSession { username: String },
    BeginDesktopAuth,
    CompleteDesktopAuth,
    Disconnect { clear_queue: bool },
    SendNowPlaying(NowPlayingTrack),
    QueueScrobble(ScrobbleEntry),
    Flush,
    Shutdown,
}

/// What the scrobbling service reports.
#[derive(Debug, Clone)]
pub enum Event {
    State(RuntimeState),
}

/// How the scrobbling service starts.
#[derive(Debug, Clone, Default)]
pub struct ServiceOptions {
    pub queue_path: Option<String>,
    pub initial_enabled: bool,
}

// ---------------------------------------------------------------------------
// Configuration
// ---------------------------------------------------------------------------

/// Credentials from the build configuration: both values present and
/// non-blank after trimming.
pub open spec fn credentials_spec(api_key: Option<Seq<char>>, shared_secret: Option<Seq<char>>) -> Option<(Seq<char>, Seq<char>)> {
    match (api_key, shared_secret) {
        (Some(k), Some(s)) => if trim(k).len() > 0 && trim(s).len() > 0 {
            Some((trim(k), trim(s)))
        } else {
            None
        },
        _ => None,
    }
}

pub open spec fn opt_str_view(o: Option<&str>) -> Option<Seq<char>> {
    match o {
        Some(s) => Some(s@),
        None => None,
    }
}

/// The credentials this build was configured with, from the two values it
/// was built with (either may be absent).
pub fn app_credentials(api_key: Option<&str>, shared_secret: Option<&str>) -> (r: Option<
    AppCredentials,
>)
    ensures
        match credentials_spec(opt_str_view(api_key), opt_str_view(shared_secret)) {
            Some((k, s)) => r is Some && r->0.api_key@ == k && r->0.shared_secret@ == s,
            None => r is None,
        },
{
    let key = match api_key {
        Some(k) => trim_str(k),
        None => return None,
    };
    let secret = match shared_secret {
        Some(s) => trim_str(s),
        None => return None,
    };
    if key.len() == 0 || secret.len() == 0 {
        return None;
    }
    Some(
        AppCredentials {
            api_key: string_from_chars(&key),
            shared_secret: string_from_chars(&secret),
        },
    )
}

/// Where queued scrobbles are kept, under the configuration folder.
pub fn queue_path(config_base: &str) -> (r: String)
    ensures
        r@ == join_path(config_base@, "lastfm_queue.json"@),
{
    join_path_string(config_base, "lastfm_queue.json")
}

/// Last.fm's rule: a track longer than 30 seconds is scrobbled once half of
/// it, or four minutes, has been listened to, whichever comes first.
pub open spec fn threshold_spec(duration_seconds: u32) -> Option<u32> {
    if duration_seconds <= 30 {
        None
    } else if duration_seconds / 2 <= 240 {
        Some((duration_seconds / 2) as u32)
    } else {
        Some(240)
    }
}

pub fn scrobble_threshold_seconds(duration_seconds: u32) -> (r: Option<u32>)
    ensures
        r == threshold_spec(duration_seconds),
{
    if duration_seconds <= 30 {
        return None;
    }
    let half = duration_seconds / 2;
    Some(if half < 240 { half } else { 240 })
}

// ---------------------------------------------------------------------------
// Request signing
// ---------------------------------------------------------------------------

/// Code-point order of two texts (the order of `String`'s `Ord`).
pub open spec fn text_le(a: Seq<char>, b: Seq<char>) -> bool
    decreases a.len(),
{
    if a.len() == 0 {
        true
    } else if b.len() == 0 {
        false
    } else if a[0] != b[0] {
        a[0] < b[0]
    } else {
        text_le(a.drop_first(), b.drop_first())
    }
}

pub proof fn lemma_text_le_total(a: Seq<char>, b: Seq<char>)
    ensures
        text_le(a, b) || text_le(b, a),
    decreases a.len(),
{
    if a.len() > 0 && b.len() > 0 {
        if a[0] == b[0] {
            lemma_text_le_total(a.drop_first(), b.drop_first());
        }
    }
}

pub fn text_le_exec(a: &Vec<char>, b: &Vec<char>) -> (r: bool)
    ensures
        r == text_le(a@, b@),
{
    let mut i: usize = 0;
    assert(a@.skip(0) =~= a@);
    assert(b@.skip(0) =~= b@);
    while i < a.len()
        invariant
            i <= a@.len(),
            i <= b@.len(),
            a@.take(i as int) == b@.take(i as int),
            text_le(a@.skip(i as int), b@.skip(i as int)) == text_le(a@, b@),
        decreases a@.len() - i,
    {
        assert(a@.skip(i as int)[0] == a@[i as int]);
        if i >= b.len() {
            return false;
        }
        assert(b@.skip(i as int)[0] == b@[i as int]);
        if a[i] != b[i] {
            return a[i] < b[i];
        }
        assert(a@.skip(i as int).drop_first() =~= a@.skip(i + 1));
        assert(b@.skip(i as int).drop_first() =~= b@.skip(i + 1));
        assert(a@.take(i + 1) =~= a@.take(i as int).push(a@[i as int]));
        assert(b@.take(i + 1) =~= b@.take(i as int).push(b@[i as int]));
        i += 1;
    }
    assert(a@.skip(i as int).len() == 0);
    true
}

/// A request parameter, ordered by name.
#[derive(Debug, Clone)]
pub struct SignedParam {
    pub name: String,
    pub value: String,
}

impl TotalPreorder for SignedParam {
    open spec fn before(a: Self, b: Self) -> bool {
        text_le(a.name@, b.name@)
    }

    proof fn lemma_total(a: Self, b: Self) {
        lemma_text_le_total(a.name@, b.name@);
    }

    fn exec_before(a: &Self, b: &Self) -> (r: bool) {
        text_le_exec(&chars_of(a.name.as_str()), &chars_of(b.name.as_str()))
    }
}

/// Parameters that take part in the signature: all but `format` and
/// `callback`.
pub open spec fn signed(p: (String, String)) -> bool {
    p.0@ != "format"@ && p.0@ != "callback"@
}

pub open spec fn as_signed(p: (String, String)) -> SignedParam {
    SignedParam { name: p.0, value: p.1 }
}

/// Names and values, concatenated in order.
pub open spec fn concat_params(ps: Seq<SignedParam>) -> Seq<char>
    decreases ps.len(),
{
    if ps.len() == 0 {
        Seq::empty()
    } else {
        concat_params(ps.drop_last()) + ps.last().name@ + ps.last().value@
    }
}

/// The text whose digest signs a request: the signed parameters sorted by
/// name (stably), each name followed by its value, then the shared secret.
pub open spec fn signature_text(params: Seq<(String, String)>, secret: Seq<char>) -> Seq<char> {
    concat_params(sort_seq(params.filter(|p: (String, String)| signed(p)).map_values(
        |p: (String, String)| as_signed(p),
    ))) + secret
}

/// The MD5 digest of some bytes, as `md5::compute` gives it.
pub uninterp spec fn md5_of(data: Seq<u8>) -> Seq<u8>;

/// `md5::compute`: the sixteen bytes of the digest.
#[verifier::external_body]
fn md5_digest(data: &[u8]) -> (r: Vec<u8>)
    ensures
        r@ == md5_of(data@),
        r@.len() == 16,
{
    md5::compute(data).0.to_vec()
}

pub open spec fn hex_digit(d: u8) -> char {
    if d < 10 {
        (('0' as u8) + d) as char
    } else {
        (('a' as u8) + d - 10) as char
    }
}

/// Lowercase hexadecimal, two digits per byte (the digest's `{:x}` form).
pub open spec fn lower_hex(bytes: Seq<u8>) -> Seq<char>
    decreases bytes.len(),
{
    if bytes.len() == 0 {
        Seq::empty()
    } else {
        lower_hex(bytes.drop_last()) + seq![
            hex_digit(bytes.last() / 16),
            hex_digit(bytes.last() % 16),
        ]
    }
}

fn hex_char(d: u8) -> (c: char)
    requires
        d < 16,
    ensures
        c == hex_digit(d),
{
    if d < 10 {
        ((48u8 + d) as char)
    } else {
        ((97u8 + d - 10) as char)
    }
}

fn to_lower_hex(bytes: &Vec<u8>) -> (out: Vec<char>)
    ensures
        out@ == lower_hex(bytes@),
{
    let mut out: Vec<char> = Vec::new();
    let mut i: usize = 0;
    while i < bytes.len()
        invariant
            i <= bytes@.len(),
            out@ == lower_hex(bytes@.take(i as int)),
        decreases bytes@.len() - i,
    {
        let b = bytes[i];
        out.push(hex_char(b / 16));
        out.push(hex_char(b % 16));
        assert(bytes@.take(i + 1).drop_last() =~= bytes@.take(i as int));
        i += 1;
    }
    assert(bytes@.take(bytes@.len() as int) =~= bytes@);
    out
}

fn concat_signed(ps: &Vec<SignedParam>) -> (out: Vec<char>)
    ensures
        out@ == concat_params(ps@),
{
    let mut out: Vec<char> = Vec::new();
    let mut i: usize = 0;
    while i < ps.len()
        invariant
            i <= ps@.len(),
            out@ == concat_params(ps@.take(i as int)),
        decreases ps@.len() - i,
    {
        push_str(&mut out, ps[i].name.as_str());
        push_str(&mut out, ps[i].value.as_str());
        assert(ps@.take(i + 1).drop_last() =~= ps@.take(i as int));
        i += 1;
    }
    assert(ps@.take(ps@.len() as int) =~= ps@);
    out
}

/// The `api_sig` of a request: the lowercase hex MD5 of `signature_text`.
pub fn api_signature(params: &Vec<(String, String)>, shared_secret: &str) -> (r: String)
    ensures
        r@ == lower_hex(md5_of(vstd::utf8::encode_utf8(signature_text(params@, shared_secret@)))),
{
    let ghost pred = |p: (String, String)| signed(p);
    let mut kept: Vec<SignedParam> = Vec::new();
    let mut i: usize = 0;
    while i < params.len()
        invariant
            i <= params@.len(),
            pred == (|p: (String, String)| signed(p)),
            kept@ == params@.take(i as int).filter(pred).map_values(
                |p: (String, String)| as_signed(p),
            ),
        decreases params@.len() - i,
    {
        let name = chars_of(params[i].0.as_str());
        let keep = !crate::modes::eq_lit(&name, "format") && !crate::modes::eq_lit(
            &name,
            "callback",
        );
        proof {
            assert(params@.take(i + 1) =~= params@.take(i as int).push(params@[i as int]));
            params@.take(i as int).lemma_filter_push(params@[i as int], pred);
            assert(pred(params@[i as int]) == keep);
        }
        let ghost prev = kept@;
        if keep {
            let n = params[i].0.clone();
            let v = params[i].1.clone();
            kept.push(SignedParam { name: n, value: v });
            assert(kept@ =~= prev.push(as_signed(params@[i as int])));
        }
        assert(kept@ =~= params@.take(i + 1).filter(pred).map_values(
            |p: (String, String)| as_signed(p),
        ));
        i += 1;
    }
    assert(params@.take(params@.len() as int) =~= params@);
    let sorted = sort_stable(kept);
    let mut data = concat_signed(&sorted);
    push_str(&mut data, shared_secret);
    let text = string_from_chars(&data);
    let digest = md5_digest(text.as_str().as_bytes());
    let hex = to_lower_hex(&digest);
    string_from_chars(&hex)
}

/// Filtering twice by the same predicate is filtering once.
pub proof fn lemma_filter_idempotent<A>(s: Seq<A>, p: spec_fn(A) -> bool)
    ensures
        s.filter(p).filter(p) == s.filter(p),
    decreases s.len(),
{
    broadcast use vstd::seq_lib::group_seq_properties;

    if s.len() == 0 {
        assert(s.filter(p) =~= s);
        assert(s.filter(p).filter(p) =~= s);
    } else {
        let t = s.drop_last();
        let x = s.last();
        lemma_filter_idempotent(t, p);
        assert(s =~= t.push(x));
        t.lemma_filter_push(x, p);
        if p(x) {
            t.filter(p).lemma_filter_push(x, p);
        }
    }
}

/// The signature does not depend on `format` or `callback` parameters:
/// signing the parameters without them gives the same signature.
pub proof fn law_signature_ignores_format_and_callback(
    params: Seq<(String, String)>,
    secret: Seq<char>,
)
    ensures
        signature_text(params.filter(|p: (String, String)| signed(p)), secret) == signature_text(
            params,
            secret,
        ),
{
    lemma_filter_idempotent(params, |p: (String, String)| signed(p));
}

// ---------------------------------------------------------------------------
// Request errors
// ---------------------------------------------------------------------------

/// Why a request to Last.fm failed.
#[derive(Debug, Clone)]
pub enum RequestError {
    Transport(String),
    Api { code: i64, message: String },
    InvalidResponse(String),
    Keyring(String),
}

/// Last.fm's error code for an invalid session key.
pub const LASTFM_ERROR_INVALID_SESSION: i64 = 9;

/// Last.fm's error code for a temporary failure.
pub const LASTFM_ERROR_TEMPORARY: i64 = 11;

/// Last.fm's error code for a service that is offline.
pub const LASTFM_ERROR_SERVICE_OFFLINE: i64 = 16;

/// The session key is no longer accepted: the account must reconnect.
pub open spec fn invalid_session_error(error: RequestError) -> bool {
    error matches RequestError::Api { code, .. } && code == LASTFM_ERROR_INVALID_SESSION
}

/// The failure may pass: keep the queue and try later.
pub open spec fn transient_error(error: RequestError) -> bool {
    error is Transport || (error matches RequestError::Api { code, .. } && (code
        == LASTFM_ERROR_TEMPORARY || code == LASTFM_ERROR_SERVICE_OFFLINE))
}

/// The session key is no longer accepted: the account must reconnect.
pub fn is_invalid_session(error: &RequestError) -> (r: bool)
    ensures
        r == invalid_session_error(*error),
{
    match error {
        RequestError::Api { code, .. } => *code == LASTFM_ERROR_INVALID_SESSION,
        _ => false,
    }
}

/// The failure may pass: keep the queue and try later.
pub fn is_transient(error: &RequestError) -> (r: bool)
    ensures
        r == transient_error(*error),
{
    match error {
        RequestError::Transport(_) => true,
        RequestError::Api { code, .. } => *code == LASTFM_ERROR_TEMPORARY || *code
            == LASTFM_ERROR_SERVICE_OFFLINE,
        _ => false,
    }
}

/// The status line shown for a failed request.
pub open spec fn error_message_spec(error: RequestError) -> Seq<char> {
    match error {
        RequestError::Transport(m) => "Last.fm transport error: "@ + m@,
        RequestError::Api { code, message } => "Last.fm API error "@ + decimal_int(code as int)
            + ": "@ + message@,
        RequestError::InvalidResponse(m) => "Last.fm response error: "@ + m@,
        RequestError::Keyring(m) => "Last.fm keyring error: "@ + m@,
    }
}

pub fn request_error_message(error: RequestError) -> (r: String)
    ensures
        r@ == error_message_spec(error),
{
    let mut out: Vec<char> = Vec::new();
    match &error {
        RequestError::Transport(m) => {
            push_str(&mut out, "Last.fm transport error: ");
            push_str(&mut out, m.as_str());
        },
        RequestError::Api { code, message } => {
            push_str(&mut out, "Last.fm API error ");
            push_decimal_i64(&mut out, *code);
            push_str(&mut out, ": ");
            push_str(&mut out, message.as_str());
        },
        RequestError::InvalidResponse(m) => {
            push_str(&mut out, "Last.fm response error: ");
            push_str(&mut out, m.as_str());
        },
        RequestError::Keyring(m) => {
            push_str(&mut out, "Last.fm keyring error: ");
            push_str(&mut out, m.as_str());
        },
    }
    assert(out@ =~= error_message_spec(error));
    string_from_chars(&out)
}

} // verus!
