//! Following playback to decide when a track is announced as playing now
//! and when a listen is queued as a scrobble.
//!
//! The caller samples playback periodically and hands each sample to
//! `tick_lastfm_playback_at` together with a monotonic clock reading (in
//! milliseconds) and the wall-clock time; the actions it returns are sent
//! to the scrobbling service.
use vstd::prelude::*;

use crate::lastfm::{threshold_spec, NowPlayingTrack, ScrobbleEntry, scrobble_threshold_seconds};
use crate::queue::PlaybackState;
use crate::text::{chars_of, string_from_chars, trim, trim_str};

verus! {

/// What is known of the track being followed.
#[derive(Debug, Clone)]
pub struct LastFmPlaybackTracker {
    pub active_path: Option<String>,
    pub artist: String,
    pub track: String,
    pub album: String,
    pub track_number: Option<u32>,
    pub duration_seconds: Option<u32>,
    pub started_at_utc: Option<i64>,
    /// Time spent playing, in milliseconds.
    pub listened_millis: u64,
    /// Monotonic clock reading of the previous sample while playing.
    pub last_listen_tick: Option<u64>,
    pub now_playing_sent: bool,
    pub scrobble_queued: bool,
}

pub struct TrackerView {
    pub active_path: Option<Seq<char>>,
    pub artist: Seq<char>,
    pub track: Seq<char>,
    pub album: Seq<char>,
    pub track_number: Option<u32>,
    pub duration_seconds: Option<u32>,
    pub started_at_utc: Option<i64>,
    pub listened_millis: u64,
    pub last_listen_tick: Option<u64>,
    pub now_playing_sent: bool,
    pub scrobble_queued: bool,
}

pub open spec fn opt_string(o: Option<String>) -> Option<Seq<char>> {
    match o {
        Some(s) => Some(s@),
        None => None,
    }
}

impl View for LastFmPlaybackTracker {
    type V = TrackerView;

    open spec fn view(&self) -> TrackerView {
        TrackerView {
            active_path: opt_string(self.active_path),
            artist: self.artist@,
            track: self.track@,
            album: self.album@,
            track_number: self.track_number,
            duration_seconds: self.duration_seconds,
            started_at_utc: self.started_at_utc,
            listened_millis: self.listened_millis,
            last_listen_tick: self.last_listen_tick,
            now_playing_sent: self.now_playing_sent,
            scrobble_queued: self.scrobble_queued,
        }
    }
}

/// One sample of the player's state.
#[derive(Debug, Clone)]
pub struct PlaybackObservation {
    /// The track loaded in the player.
    pub current: Option<String>,
    pub state: PlaybackState,
    /// Its length in whole seconds, 0 where unknown.
    pub duration_secs: u64,
    /// The track the displayed tags were read from.
    pub metadata_source: Option<String>,
    pub artist: String,
    pub title: String,
    pub album: String,
    /// The track number known for the current track from the queue or the
    /// library.
    pub current_track_number: Option<u32>,
    /// Whether scrobbling is switched on.
    pub lastfm_enabled: bool,
}

/// What to tell the scrobbling service.
#[derive(Debug, Clone)]
pub enum LastFmAction {
    SendNowPlaying(NowPlayingTrack),
    QueueScrobble(ScrobbleEntry),
}

pub enum ActionView {
    NowPlaying {
        artist: Seq<char>,
        track: Seq<char>,
        album: Seq<char>,
        track_number: Option<u32>,
        duration_seconds: Option<u32>,
    },
    Scrobble {
        artist: Seq<char>,
        track: Seq<char>,
        album: Seq<char>,
        track_number: Option<u32>,
        duration_seconds: Option<u32>,
        timestamp_utc: i64,
    },
}

pub open spec fn action_view(a: LastFmAction) -> ActionView {
    match a {
        LastFmAction::SendNowPlaying(t) => ActionView::NowPlaying {
            artist: t.artist@,
            track: t.track@,
            album: t.album@,
            track_number: t.track_number,
            duration_seconds: t.duration_seconds,
        },
        LastFmAction::QueueScrobble(e) => ActionView::Scrobble {
            artist: e.artist@,
            track: e.track@,
            album: e.album@,
            track_number: e.track_number,
            duration_seconds: e.duration_seconds,
            timestamp_utc: e.timestamp_utc,
        },
    }
}

pub open spec fn actions_view(v: Seq<LastFmAction>) -> Seq<ActionView> {
    v.map_values(|a: LastFmAction| action_view(a))
}

// ---------------------------------------------------------------------------
// The rules
// ---------------------------------------------------------------------------

/// A tracker that follows nothing.
pub open spec fn fresh_tracker() -> TrackerView {
    TrackerView {
        active_path: None,
        artist: Seq::empty(),
        track: Seq::empty(),
        album: Seq::empty(),
        track_number: None,
        duration_seconds: None,
        started_at_utc: None,
        listened_millis: 0,
        last_listen_tick: None,
        now_playing_sent: false,
        scrobble_queued: false,
    }
}

/// A length in seconds as reported to Last.fm: positive and within `u32`.
pub open spec fn duration_of(secs: u64) -> Option<u32> {
    if 0 < secs && secs <= u32::MAX {
        Some(secs as u32)
    } else {
        None
    }
}

pub open spec fn sat_add(a: u64, b: u64) -> u64 {
    if a + b <= u64::MAX {
        (a + b) as u64
    } else {
        u64::MAX
    }
}

/// Adds the time since the previous sample taken while playing.
pub open spec fn advanced(t: TrackerView, now: u64) -> TrackerView {
    match t.last_listen_tick {
        Some(p) => TrackerView {
            listened_millis: sat_add(t.listened_millis, if now >= p { (now - p) as u64 } else { 0 }),
            ..t
        },
        None => t,
    }
}

/// The scrobble that is due for the followed track, if any: scrobbling is on,
/// none was queued yet, the listen has a start time, the track is longer than
/// 30 seconds, its threshold has been listened to, and artist and title are
/// known.
pub open spec fn due_scrobble(t: TrackerView, enabled: bool) -> Option<ActionView> {
    if !enabled || t.scrobble_queued || t.started_at_utc is None || t.duration_seconds is None {
        None
    } else {
        match threshold_spec(t.duration_seconds->0) {
            None => None,
            Some(th) => if (t.listened_millis as int) < (th as int) * 1000 || t.artist.len() == 0
                || t.track.len() == 0 {
                None
            } else {
                Some(
                    ActionView::Scrobble {
                        artist: t.artist,
                        track: t.track,
                        album: t.album,
                        track_number: t.track_number,
                        duration_seconds: t.duration_seconds,
                        timestamp_utc: t.started_at_utc->0,
                    },
                )
            },
        }
    }
}

/// Closing the listen of the followed track: count the last stretch, then
/// queue its scrobble if it is due.
pub open spec fn finalized(t: TrackerView, enabled: bool, now: u64) -> (TrackerView, Seq<ActionView>) {
    let a = advanced(t, now);
    match due_scrobble(a, enabled) {
        Some(act) => (TrackerView { scrobble_queued: true, ..a }, seq![act]),
        None => (a, Seq::empty()),
    }
}

/// One sample of playback, as a step from tracker to tracker with the
/// actions to send.
pub open spec fn tick_spec(
    t: TrackerView,
    o: PlaybackObservation,
    now: u64,
    utc: i64,
) -> (TrackerView, Seq<ActionView>) {
    let current = opt_string(o.current);
    let switched = t.active_path != current;
    let acts0 = if switched {
        finalized(t, o.lastfm_enabled, now).1
    } else {
        Seq::empty()
    };
    let t1 = if switched {
        TrackerView {
            active_path: current,
            duration_seconds: duration_of(o.duration_secs),
            ..fresh_tracker()
        }
    } else {
        t
    };
    if o.state == PlaybackState::Stopped || t1.active_path is None {
        (fresh_tracker(), acts0 + finalized(t1, o.lastfm_enabled, now).1)
    } else {
        let t2 = if t1.duration_seconds is None {
            TrackerView { duration_seconds: duration_of(o.duration_secs), ..t1 }
        } else {
            t1
        };
        let t3 = if t2.track_number is None {
            TrackerView { track_number: o.current_track_number, ..t2 }
        } else {
            t2
        };
        let t4 = if o.metadata_source is Some && current is Some && opt_string(o.metadata_source)
            == current {
            TrackerView { artist: trim(o.artist@), track: trim(o.title@), album: trim(o.album@), ..t3 }
        } else {
            t3
        };
        let t5 = if o.state == PlaybackState::Playing {
            let s = if t4.started_at_utc is None {
                TrackerView { started_at_utc: Some(utc), ..t4 }
            } else {
                t4
            };
            TrackerView { last_listen_tick: Some(now), ..advanced(s, now) }
        } else {
            TrackerView { last_listen_tick: None, ..t4 }
        };
        if o.lastfm_enabled && !t5.now_playing_sent && o.state == PlaybackState::Playing
            && t5.started_at_utc is Some && t5.artist.len() > 0 && t5.track.len() > 0 {
            (
                TrackerView { now_playing_sent: true, ..t5 },
                acts0.push(
                    ActionView::NowPlaying {
                        artist: t5.artist,
                        track: t5.track,
                        album: t5.album,
                        track_number: t5.track_number,
                        duration_seconds: t5.duration_seconds,
                    },
                ),
            )
        } else {
            (t5, acts0)
        }
    }
}

// ---------------------------------------------------------------------------
// Execution
// ---------------------------------------------------------------------------

fn copy_str(s: &String) -> (r: String)
    ensures
        r@ == s@,
{
    string_from_chars(&chars_of(s.as_str()))
}

fn copy_opt(s: &Option<String>) -> (r: Option<String>)
    ensures
        opt_string(r) == opt_string(*s),
{
    match s {
        Some(v) => Some(copy_str(v)),
        None => None,
    }
}

fn opt_eq(a: &Option<String>, b: &Option<String>) -> (r: bool)
    ensures
        r == (opt_string(*a) == opt_string(*b)),
{
    match (a, b) {
        (Some(x), Some(y)) => crate::text::str_eq(x.as_str(), y.as_str()),
        (None, None) => true,
        _ => false,
    }
}

fn duration_from_secs(secs: u64) -> (r: Option<u32>)
    ensures
        r == duration_of(secs),
{
    if 0 < secs && secs <= 0xFFFF_FFFFu64 {
        Some(secs as u32)
    } else {
        None
    }
}

impl LastFmPlaybackTracker {
    /// A tracker that follows nothing.
    pub fn new() -> (t: Self)
        ensures
            t@ == fresh_tracker(),
    {
        LastFmPlaybackTracker {
            active_path: None,
            artist: String::new(),
            track: String::new(),
            album: String::new(),
            track_number: None,
            duration_seconds: None,
            started_at_utc: None,
            listened_millis: 0,
            last_listen_tick: None,
            now_playing_sent: false,
            scrobble_queued: false,
        }
    }

    fn advance(&mut self, now: u64)
        ensures
            final(self)@ == advanced(old(self)@, now),
    {
        if let Some(previous) = self.last_listen_tick {
            let delta = if now >= previous { now - previous } else { 0 };
            self.listened_millis = self.listened_millis.saturating_add(delta);
        }
    }

    /// Counts the last stretch and queues the scrobble if it is due.
    fn finalize(&mut self, enabled: bool, now: u64, actions: &mut Vec<LastFmAction>)
        ensures
            final(self)@ == finalized(old(self)@, enabled, now).0,
            actions_view(final(actions)@) == actions_view(old(actions)@) + finalized(
                old(self)@,
                enabled,
                now,
            ).1,
    {
        self.advance(now);
        let ghost a = self@;
        let ghost before = old(actions)@;
        if !enabled || self.scrobble_queued || self.started_at_utc.is_none() {
            assert(actions_view(actions@) =~= actions_view(before) + Seq::<ActionView>::empty());
            return;
        }
        let duration = match self.duration_seconds {
            Some(d) => d,
            None => {
                assert(actions_view(actions@) =~= actions_view(before) + Seq::<ActionView>::empty());
                return;
            },
        };
        let threshold = match scrobble_threshold_seconds(duration) {
            Some(t) => t,
            None => {
                assert(actions_view(actions@) =~= actions_view(before) + Seq::<ActionView>::empty());
                return;
            },
        };
        let artist = chars_of(self.artist.as_str());
        let track = chars_of(self.track.as_str());
        if (self.listened_millis as u128) < (threshold as u128) * 1000 || artist.len() == 0
            || track.len() == 0 {
            assert(actions_view(actions@) =~= actions_view(before) + Seq::<ActionView>::empty());
            return;
        }
        let entry = ScrobbleEntry {
            artist: copy_str(&self.artist),
            track: copy_str(&self.track),
            album: copy_str(&self.album),
            track_number: self.track_number,
            duration_seconds: self.duration_seconds,
            timestamp_utc: match self.started_at_utc {
                Some(s) => s,
                None => 0,
            },
        };
        actions.push(LastFmAction::QueueScrobble(entry));
        self.scrobble_queued = true;
        assert(actions_view(actions@) =~= actions_view(before) + finalized(old(self)@, enabled, now).1);
    }

    fn clear(&mut self)
        ensures
            final(self)@ == fresh_tracker(),
    {
        *self = LastFmPlaybackTracker::new();
    }
}

/// Follows one sample of playback: closes the listen of a track that is no
/// longer current (or of any track once playback stops), keeps the tags and
/// listened time of the current track, and announces it once it plays with
/// known artist and title.
pub fn tick_lastfm_playback_at(
    tracker: &mut LastFmPlaybackTracker,
    obs: &PlaybackObservation,
    now: u64,
    now_utc: i64,
) -> (actions: Vec<LastFmAction>)
    ensures
        final(tracker)@ == tick_spec(old(tracker)@, *obs, now, now_utc).0,
        actions_view(actions@) == tick_spec(old(tracker)@, *obs, now, now_utc).1,
{
    let ghost t0 = tracker@;
    let mut actions: Vec<LastFmAction> = Vec::new();
    assert(actions_view(actions@) =~= Seq::<ActionView>::empty());
    if !opt_eq(&tracker.active_path, &obs.current) {
        tracker.finalize(obs.lastfm_enabled, now, &mut actions);
        assert(actions_view(actions@) =~= finalized(t0, obs.lastfm_enabled, now).1);
        *tracker = LastFmPlaybackTracker::new();
        tracker.active_path = copy_opt(&obs.current);
        tracker.duration_seconds = duration_from_secs(obs.duration_secs);
    }
    let ghost acts0 = actions_view(actions@);
    let ghost t1 = tracker@;
    assert(t1 == tick_t1(t0, *obs));
    if obs.state == PlaybackState::Stopped || tracker.active_path.is_none() {
        tracker.finalize(obs.lastfm_enabled, now, &mut actions);
        tracker.clear();
        return actions;
    }
    if tracker.duration_seconds.is_none() {
        tracker.duration_seconds = duration_from_secs(obs.duration_secs);
    }
    if tracker.track_number.is_none() {
        tracker.track_number = obs.current_track_number;
    }
    let matches_current = match (&obs.metadata_source, &obs.current) {
        (Some(_), Some(_)) => opt_eq(&obs.metadata_source, &obs.current),
        _ => false,
    };
    if matches_current {
        tracker.artist = string_from_chars(&trim_str(obs.artist.as_str()));
        tracker.track = string_from_chars(&trim_str(obs.title.as_str()));
        tracker.album = string_from_chars(&trim_str(obs.album.as_str()));
    }
    if obs.state == PlaybackState::Playing {
        if tracker.started_at_utc.is_none() {
            tracker.started_at_utc = Some(now_utc);
        }
        tracker.advance(now);
        tracker.last_listen_tick = Some(now);
    } else {
        tracker.last_listen_tick = None;
    }
    let artist = chars_of(tracker.artist.as_str());
    let track = chars_of(tracker.track.as_str());
    if obs.lastfm_enabled && !tracker.now_playing_sent && obs.state == PlaybackState::Playing
        && tracker.started_at_utc.is_some() && artist.len() > 0 && track.len() > 0 {
        let announce = NowPlayingTrack {
            artist: copy_str(&tracker.artist),
            track: copy_str(&tracker.track),
            album: copy_str(&tracker.album),
            track_number: tracker.track_number,
            duration_seconds: tracker.duration_seconds,
        };
        let ghost before = actions@;
        actions.push(LastFmAction::SendNowPlaying(announce));
        assert(actions_view(actions@) =~= actions_view(before).push(action_view(actions@.last())));
        tracker.now_playing_sent = true;
    }
    actions
}

/// The tracker after a change of track is taken into account.
pub open spec fn tick_t1(t: TrackerView, o: PlaybackObservation) -> TrackerView {
    if t.active_path != opt_string(o.current) {
        TrackerView {
            active_path: opt_string(o.current),
            duration_seconds: duration_of(o.duration_secs),
            ..fresh_tracker()
        }
    } else {
        t
    }
}

// ---------------------------------------------------------------------------
// Laws
// ---------------------------------------------------------------------------

/// Once a listen is scrobbled, further samples of the same track queue no
/// second scrobble and keep it marked as scrobbled.
pub proof fn law_scrobble_at_most_once_per_listen(
    t: TrackerView,
    o: PlaybackObservation,
    now: u64,
    utc: i64,
)
    requires
        t.scrobble_queued,
        t.active_path is Some,
        t.active_path == opt_string(o.current),
        o.state != PlaybackState::Stopped,
    ensures
        tick_spec(t, o, now, utc).0.scrobble_queued,
        forall|k: int|
            0 <= k < tick_spec(t, o, now, utc).1.len() ==> !(#[trigger] tick_spec(
                t,
                o,
                now,
                utc,
            ).1[k] is Scrobble),
{
}

/// The track is announced as playing now at most once per listen.
pub proof fn law_now_playing_at_most_once_per_listen(
    t: TrackerView,
    o: PlaybackObservation,
    now: u64,
    utc: i64,
)
    requires
        t.now_playing_sent,
        t.active_path is Some,
        t.active_path == opt_string(o.current),
        o.state != PlaybackState::Stopped,
    ensures
        tick_spec(t, o, now, utc).0.now_playing_sent,
        tick_spec(t, o, now, utc).1.len() == 0,
{
}

/// Stopping playback forgets the followed track.
pub proof fn law_stop_resets_tracker(t: TrackerView, o: PlaybackObservation, now: u64, utc: i64)
    requires
        o.state == PlaybackState::Stopped,
    ensures
        tick_spec(t, o, now, utc).0 == fresh_tracker(),
{
}

/// A scrobble is only queued for the listen that was being followed, with
/// its start time, once the Last.fm threshold of a track longer than 30
/// seconds has been listened to.
pub proof fn law_scrobble_only_after_threshold(
    t: TrackerView,
    o: PlaybackObservation,
    now: u64,
    utc: i64,
    k: int,
)
    requires
        0 <= k < tick_spec(t, o, now, utc).1.len(),
        tick_spec(t, o, now, utc).1[k] is Scrobble,
    ensures
        t.started_at_utc == Some(tick_spec(t, o, now, utc).1[k]->Scrobble_timestamp_utc),
        t.duration_seconds is Some,
        t.duration_seconds->0 > 30,
        threshold_spec(t.duration_seconds->0) is Some,
        advanced(t, now).listened_millis >= threshold_spec(t.duration_seconds->0)->0 as int * 1000,
{
}


/// Only time spent playing is listened time: a sample that is not `Playing`
/// adds nothing to the listened time (which stays, or restarts at zero for
/// a new or stopped track) and ends the playing stretch, so the time until
/// the next sample is not counted either.
pub proof fn law_only_playing_time_is_listened(t: TrackerView, o: PlaybackObservation, now: u64, utc: i64)
    requires
        o.state != PlaybackState::Playing,
    ensures
        tick_spec(t, o, now, utc).0.last_listen_tick is None,
        tick_spec(t, o, now, utc).0.listened_millis == if t.active_path == opt_string(o.current)
            && t.active_path is Some && o.state != PlaybackState::Stopped {
            t.listened_millis
        } else {
            0
        },
{
}

/// Listened time grows at most by the clock time since the previous
/// sample, and only when that sample was taken while playing.
pub proof fn law_listened_time_grows_by_elapsed_playing_time(
    t: TrackerView,
    o: PlaybackObservation,
    now: u64,
    utc: i64,
)
    ensures
        tick_spec(t, o, now, utc).0.listened_millis <= t.listened_millis + match t.last_listen_tick {
            Some(p) => if now >= p {
                now - p
            } else {
                0
            },
            None => 0,
        },
{
}

} // verus!
