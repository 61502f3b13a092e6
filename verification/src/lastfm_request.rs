//! The parameters of the requests sent to Last.fm, and what is read from
//! its replies. Sending and the JSON of the reply are left to the caller,
//! which hands over the fields it found.
use vstd::prelude::*;

use crate::lastfm::{
    api_signature, lower_hex, md5_of, signature_text, NowPlayingTrack, RequestError, ScrobbleEntry, Session,
};
use crate::text::{decimal, decimal_int, push_decimal, push_decimal_i64, push_str, string_from_chars, trim, trim_str};

verus! {

pub open spec fn params_view(ps: Seq<(String, String)>) -> Seq<(Seq<char>, Seq<char>)> {
    ps.map_values(|p: (String, String)| (p.0@, p.1@))
}

/// The optional details of a track, each under its name followed by
/// `suffix`: the album when it is not blank, the track number and the
/// duration in seconds when known.
pub open spec fn detail_params(
    album: Seq<char>,
    track_number: Option<u32>,
    duration: Option<u32>,
    suffix: Seq<char>,
) -> Seq<(Seq<char>, Seq<char>)> {
    (if trim(album).len() > 0 {
        seq![("album"@ + suffix, album)]
    } else {
        Seq::empty()
    }) + (match track_number {
        Some(n) => seq![("trackNumber"@ + suffix, decimal(n as nat))],
        None => Seq::empty(),
    }) + (match duration {
        Some(d) => seq![("duration"@ + suffix, decimal(d as nat))],
        None => Seq::empty(),
    })
}

/// `track.updateNowPlaying`: artist, track and session key, then the
/// track's details.
pub open spec fn now_playing_params_spec(session_key: Seq<char>, t: NowPlayingTrack) -> Seq<(Seq<char>, Seq<char>)> {
    seq![("artist"@, t.artist@), ("track"@, t.track@), ("sk"@, session_key)] + detail_params(
        t.album@,
        t.track_number,
        t.duration_seconds,
        Seq::empty(),
    )
}

/// `[i]`, the suffix of the parameters of the `i`th entry of a batch.
pub open spec fn index_suffix(i: nat) -> Seq<char> {
    seq!['['] + decimal(i) + seq![']']
}

/// The parameters of the `i`th entry of a batch: artist, track and start
/// time, then its details, all suffixed with `[i]`.
pub open spec fn entry_params(e: ScrobbleEntry, i: nat) -> Seq<(Seq<char>, Seq<char>)> {
    let s = index_suffix(i);
    seq![
        ("artist"@ + s, e.artist@),
        ("track"@ + s, e.track@),
        ("timestamp"@ + s, decimal_int(e.timestamp_utc as int)),
    ] + detail_params(e.album@, e.track_number, e.duration_seconds, s)
}

pub open spec fn entries_params(batch: Seq<ScrobbleEntry>, n: nat) -> Seq<(Seq<char>, Seq<char>)>
    decreases n,
{
    if n == 0 {
        Seq::empty()
    } else {
        entries_params(batch, (n - 1) as nat) + entry_params(batch[n - 1], (n - 1) as nat)
    }
}

/// `track.scrobble`: the session key, then each entry's parameters in order.
pub open spec fn scrobble_batch_params_spec(session_key: Seq<char>, batch: Seq<ScrobbleEntry>) -> Seq<
    (Seq<char>, Seq<char>),
> {
    seq![("sk"@, session_key)] + entries_params(batch, batch.len())
}

fn param(name: &str, value: &str) -> (r: (String, String))
    ensures
        r.0@ == name@,
        r.1@ == value@,
{
    (string_from_chars(&crate::text::chars_of(name)), string_from_chars(&crate::text::chars_of(value)))
}

fn push_param(ps: &mut Vec<(String, String)>, name: Vec<char>, value: String)
    ensures
        params_view(final(ps)@) == params_view(old(ps)@).push((name@, value@)),
{
    let ghost before = ps@;
    ps.push((string_from_chars(&name), value));
    assert(params_view(ps@) =~= params_view(before).push((name@, value@)));
}

fn name_with(name: &str, suffix: &Vec<char>) -> (r: Vec<char>)
    ensures
        r@ == name@ + suffix@,
{
    let mut out: Vec<char> = Vec::new();
    push_str(&mut out, name);
    let mut i: usize = 0;
    while i < suffix.len()
        invariant
            i <= suffix@.len(),
            out@ == name@ + suffix@.take(i as int),
        decreases suffix@.len() - i,
    {
        out.push(suffix[i]);
        assert(suffix@.take(i + 1) =~= suffix@.take(i as int).push(suffix@[i as int]));
        assert(out@ =~= name@ + suffix@.take(i + 1));
        i += 1;
    }
    assert(suffix@.take(suffix@.len() as int) =~= suffix@);
    out
}

fn decimal_text(n: u64) -> (r: String)
    ensures
        r@ == decimal(n as nat),
{
    let mut out: Vec<char> = Vec::new();
    push_decimal(&mut out, n);
    assert(out@ =~= decimal(n as nat));
    string_from_chars(&out)
}

fn push_details(
    ps: &mut Vec<(String, String)>,
    album: &String,
    track_number: Option<u32>,
    duration: Option<u32>,
    suffix: &Vec<char>,
)
    ensures
        params_view(final(ps)@) == params_view(old(ps)@) + detail_params(album@, track_number, duration, suffix@),
{
    let ghost start = params_view(ps@);
    if trim_str(album.as_str()).len() > 0 {
        push_param(ps, name_with("album", suffix), album.clone());
    }
    let ghost after_album = params_view(ps@);
    match track_number {
        Some(n) => push_param(ps, name_with("trackNumber", suffix), decimal_text(n as u64)),
        None => {},
    }
    let ghost after_number = params_view(ps@);
    match duration {
        Some(d) => push_param(ps, name_with("duration", suffix), decimal_text(d as u64)),
        None => {},
    }
    proof {
        let a: Seq<(Seq<char>, Seq<char>)> = if trim(album@).len() > 0 {
            seq![("album"@ + suffix@, album@)]
        } else {
            Seq::empty()
        };
        let b: Seq<(Seq<char>, Seq<char>)> = match track_number {
            Some(n) => seq![("trackNumber"@ + suffix@, decimal(n as nat))],
            None => Seq::empty(),
        };
        let c: Seq<(Seq<char>, Seq<char>)> = match duration {
            Some(d) => seq![("duration"@ + suffix@, decimal(d as nat))],
            None => Seq::empty(),
        };
        assert(after_album =~= start + a);
        assert(after_number =~= start + a + b);
        assert(params_view(ps@) =~= start + a + b + c);
        assert(start + (a + b + c) =~= start + a + b + c);
    }
}

/// The parameters of `track.updateNowPlaying` (see `now_playing_params_spec`).
pub fn now_playing_params(session_key: &str, track: &NowPlayingTrack) -> (r: Vec<(String, String)>)
    ensures
        params_view(r@) == now_playing_params_spec(session_key@, *track),
{
    let mut ps: Vec<(String, String)> = Vec::new();
    ps.push(param("artist", track.artist.as_str()));
    ps.push(param("track", track.track.as_str()));
    ps.push(param("sk", session_key));
    let ghost head = params_view(ps@);
    assert(head =~= seq![("artist"@, track.artist@), ("track"@, track.track@), ("sk"@, session_key@)]);
    let empty: Vec<char> = Vec::new();
    push_details(&mut ps, &track.album, track.track_number, track.duration_seconds, &empty);
    assert(empty@ =~= Seq::<char>::empty());
    ps
}

/// The parameters of `track.scrobble` for a batch (see
/// `scrobble_batch_params_spec`).
pub fn scrobble_batch_params(session_key: &str, batch: &Vec<ScrobbleEntry>) -> (r: Vec<(String, String)>)
    ensures
        params_view(r@) == scrobble_batch_params_spec(session_key@, batch@),
{
    let mut ps: Vec<(String, String)> = Vec::new();
    ps.push(param("sk", session_key));
    assert(params_view(ps@) =~= seq![("sk"@, session_key@)] + entries_params(batch@, 0));
    let mut i: usize = 0;
    while i < batch.len()
        invariant
            i <= batch@.len(),
            params_view(ps@) == seq![("sk"@, session_key@)] + entries_params(batch@, i as nat),
        decreases batch@.len() - i,
    {
        let e = &batch[i];
        let ghost before = params_view(ps@);
        let mut suffix: Vec<char> = Vec::new();
        suffix.push('[');
        push_decimal(&mut suffix, i as u64);
        suffix.push(']');
        assert(suffix@ =~= index_suffix(i as nat));
        push_param(&mut ps, name_with("artist", &suffix), e.artist.clone());
        push_param(&mut ps, name_with("track", &suffix), e.track.clone());
        let mut stamp: Vec<char> = Vec::new();
        push_decimal_i64(&mut stamp, e.timestamp_utc);
        assert(stamp@ =~= decimal_int(e.timestamp_utc as int));
        push_param(&mut ps, name_with("timestamp", &suffix), string_from_chars(&stamp));
        let ghost mid = params_view(ps@);
        push_details(&mut ps, &e.album, e.track_number, e.duration_seconds, &suffix);
        proof {
            let s = index_suffix(i as nat);
            let head = seq![
                ("artist"@ + s, e.artist@),
                ("track"@ + s, e.track@),
                ("timestamp"@ + s, decimal_int(e.timestamp_utc as int)),
            ];
            assert(mid =~= before + head);
            assert(entry_params(batch@[i as int], i as nat) == head + detail_params(
                e.album@,
                e.track_number,
                e.duration_seconds,
                s,
            ));
            assert(entries_params(batch@, (i + 1) as nat) == entries_params(batch@, i as nat)
                + entry_params(batch@[i as int], i as nat));
            assert(params_view(ps@) =~= seq![("sk"@, session_key@)] + entries_params(
                batch@,
                (i + 1) as nat,
            ));
        }
        i += 1;
    }
    ps
}

/// A request as sent: its parameters, then `method` and `api_key`, then
/// `api_sig` (the signature of everything before it, see `api_signature`),
/// then `format=json`.
pub fn signed_params(params: &Vec<(String, String)>, method: &str, api_key: &str, shared_secret: &str) -> (r: Vec<
    (String, String),
>)
    ensures
        r@.len() == params@.len() + 4,
        params_view(r@) == params_view(params@) + seq![
            ("method"@, method@),
            ("api_key"@, api_key@),
            ("api_sig"@, lower_hex(md5_of(vstd::utf8::encode_utf8(signature_text(r@.take(params@.len() + 2int), shared_secret@))))),
            ("format"@, "json"@),
        ],
{
    let mut ps: Vec<(String, String)> = Vec::new();
    let mut i: usize = 0;
    while i < params.len()
        invariant
            i <= params@.len(),
            params_view(ps@) == params_view(params@.take(i as int)),
            ps@.len() == i,
        decreases params@.len() - i,
    {
        let ghost before = ps@;
        ps.push((params[i].0.clone(), params[i].1.clone()));
        assert(params@.take(i + 1) =~= params@.take(i as int).push(params@[i as int]));
        assert(params_view(ps@) =~= params_view(before).push((params@[i as int].0@, params@[i as int].1@)));
        assert(params_view(params@.take(i + 1)) =~= params_view(params@.take(i as int)).push(
            (params@[i as int].0@, params@[i as int].1@),
        ));
        i += 1;
    }
    assert(params@.take(params@.len() as int) =~= params@);
    ps.push(param("method", method));
    ps.push(param("api_key", api_key));
    let ghost signed_part = ps@;
    let sig = api_signature(&ps, shared_secret);
    ps.push((string_from_chars(&crate::text::chars_of("api_sig")), sig));
    ps.push(param("format", "json"));
    assert(ps@.take(params@.len() + 2int) =~= signed_part);
    assert(params_view(ps@) =~= params_view(params@) + seq![
        ("method"@, method@),
        ("api_key"@, api_key@),
        ("api_sig"@, lower_hex(md5_of(vstd::utf8::encode_utf8(signature_text(signed_part, shared_secret@))))),
        ("format"@, "json"@),
    ]);
    ps
}

pub open spec fn failed_message() -> Seq<char> {
    "Last.fm request failed"@
}

/// The error a reply reports: one when it has an integer `error` field,
/// with its `message` text (or a fixed text when there is none).
pub fn reply_error(code: Option<i64>, message: Option<String>) -> (r: Option<RequestError>)
    ensures
        match code {
            None => r is None,
            Some(c) => r matches Some(RequestError::Api { code: rc, message: m }) && rc == c && m@
                == match message {
                Some(t) => t@,
                None => failed_message(),
            },
        },
{
    match code {
        None => None,
        Some(c) => {
            let m = match message {
                Some(t) => t,
                None => string_from_chars(&crate::text::chars_of("Last.fm request failed")),
            };
            Some(RequestError::Api { code: c, message: m })
        },
    }
}

/// A text field of a reply, kept when it is not blank.
pub open spec fn non_blank(v: Option<Seq<char>>) -> Option<Seq<char>> {
    match v {
        Some(t) if trim(t).len() > 0 => Some(t),
        _ => None,
    }
}

pub open spec fn opt_view(v: Option<String>) -> Option<Seq<char>> {
    match v {
        Some(t) => Some(t@),
        None => None,
    }
}

fn non_blank_exec(v: Option<String>) -> (r: Option<String>)
    ensures
        opt_view(r) == non_blank(opt_view(v)),
{
    match v {
        Some(t) => if trim_str(t.as_str()).len() > 0 {
            Some(t)
        } else {
            None
        },
        None => None,
    }
}

fn invalid_response(text: &str) -> (r: RequestError)
    ensures
        r matches RequestError::InvalidResponse(m) && m@ == text@,
{
    RequestError::InvalidResponse(string_from_chars(&crate::text::chars_of(text)))
}

/// The token of an `auth.getToken` reply: its `token` text, which must not
/// be blank.
pub fn reply_token(token: Option<String>) -> (r: Result<String, RequestError>)
    ensures
        match non_blank(opt_view(token)) {
            Some(t) => r matches Ok(x) && x@ == t,
            None => r matches Err(RequestError::InvalidResponse(m)) && m@ == "Last.fm token missing from response"@,
        },
{
    match non_blank_exec(token) {
        Some(t) => Ok(t),
        None => Err(invalid_response("Last.fm token missing from response")),
    }
}

/// The session of an `auth.getSession` reply: it must hold a `session`
/// object with a non-blank `name` and a non-blank `key`, checked in that
/// order.
pub fn reply_session(has_session: bool, name: Option<String>, key: Option<String>) -> (r: Result<
    Session,
    RequestError,
>)
    ensures
        !has_session ==> (r matches Err(RequestError::InvalidResponse(m)) && m@ == "Last.fm session missing from response"@),
        has_session && non_blank(opt_view(name)) is None ==> (r matches Err(RequestError::InvalidResponse(m)) && m@ == "Last.fm session name missing"@),
        has_session && non_blank(opt_view(name)) is Some && non_blank(opt_view(key)) is None ==> (r matches Err(RequestError::InvalidResponse(m)) && m@ == "Last.fm session key missing"@),
        has_session && non_blank(opt_view(name)) is Some && non_blank(opt_view(key)) is Some ==> (r matches Ok(s) && Some(s.username@) == non_blank(opt_view(name)) && Some(s.session_key@) == non_blank(opt_view(key))),
{
    if !has_session {
        return Err(invalid_response("Last.fm session missing from response"));
    }
    let username = match non_blank_exec(name) {
        Some(n) => n,
        None => {
            return Err(invalid_response("Last.fm session name missing"));
        },
    };
    let session_key = match non_blank_exec(key) {
        Some(k) => k,
        None => {
            return Err(invalid_response("Last.fm session key missing"));
        },
    };
    Ok(Session { username, session_key })
}

} // verus!
