//! The bridge loop's timetable: when it wakes, polls the player, sends a
//! snapshot, rebuilds the library tree and saves settings and session.
//! Times are milliseconds on a monotonic clock that the caller reads; the
//! loop itself (channels, threads, the player) stays with the caller, which
//! asks these functions what to do and reports back what happened.
use vstd::prelude::*;

use crate::bridge::{command_requires_queue_snapshot, requires_queue_snapshot, BridgeCommand, BridgeLibraryCommand, BridgeSettingsCommand};
use crate::modes::LibrarySortMode;
use crate::numbers::{parse_unsigned, parse_unsigned_at_most};
use crate::queue::PlaybackState;
use crate::playback_events::{state_after_event, PlaybackBridgeState, PlaybackInput, TrackChangeKind};
use crate::text::chars_of;

verus! {

/// How soon the user interface should get a fresh snapshot, least urgent first.
#[derive(Debug, Clone, Copy, PartialEq, Eq, Structural)]
pub enum SnapshotUrgency {
    Idle,
    Heartbeat,
    Analysis,
    Immediate,
}

pub open spec fn urgency_rank(u: SnapshotUrgency) -> int {
    match u {
        SnapshotUrgency::Idle => 0,
        SnapshotUrgency::Heartbeat => 1,
        SnapshotUrgency::Analysis => 2,
        SnapshotUrgency::Immediate => 3,
    }
}

pub open spec fn more_urgent(a: SnapshotUrgency, b: SnapshotUrgency) -> SnapshotUrgency {
    if urgency_rank(a) >= urgency_rank(b) {
        a
    } else {
        b
    }
}

impl SnapshotUrgency {
    /// Whether a snapshot is wanted at all.
    pub fn is_pending(&self) -> (r: bool)
        ensures
            r == !(*self is Idle),
    {
        match self {
            SnapshotUrgency::Idle => false,
            _ => true,
        }
    }

    /// The more urgent of two.
    pub fn max_with(self, other: SnapshotUrgency) -> (r: SnapshotUrgency)
        ensures
            r == more_urgent(self, other),
    {
        if self.rank() >= other.rank() {
            self
        } else {
            other
        }
    }

    fn rank(&self) -> (r: u8)
        ensures
            r == urgency_rank(*self),
    {
        match self {
            SnapshotUrgency::Idle => 0,
            SnapshotUrgency::Heartbeat => 1,
            SnapshotUrgency::Analysis => 2,
            SnapshotUrgency::Immediate => 3,
        }
    }
}

/// How long the loop sleeps when nothing is due: a day.
pub const IDLE_WAKE_MS: u64 = 86_400_000;

/// How soon an urgent snapshot, or search results that could not be
/// handed on, are tried again.
pub const RETRY_MS: u64 = 8;

/// How often the details of queued files are checked again.
pub const QUEUE_DETAIL_REVALIDATE_MS: u64 = 2000;

/// How long changed settings or session wait before they are saved.
pub const SAVE_DELAY_MS: u64 = 2000;

/// How long after new album art the tree is rebuilt.
pub const ALBUM_ART_TREE_DELAY_MS: u64 = 150;

/// How long after an album-art command the tree is rebuilt.
pub const ALBUM_ART_COMMAND_TREE_DELAY_MS: u64 = 350;

pub open spec fn clamp_spec(v: nat, min: nat, max: nat) -> nat {
    if v < min {
        min
    } else if v > max {
        max
    } else {
        v
    }
}

/// A tuning value from the environment: the text read as a number (as
/// `str::parse` reads it) and held between `min` and `max`, else `default`.
pub open spec fn configured_value(raw: Option<Seq<char>>, limit: nat, default: nat, min: nat, max: nat) -> nat {
    match raw {
        Some(t) => match parse_unsigned(t, limit) {
            Some(v) => clamp_spec(v, min, max),
            None => default,
        },
        None => default,
    }
}

/// A duration in milliseconds from the environment (see `configured_value`).
pub fn configured_ms(raw: Option<&str>, default: u64, min: u64, max: u64) -> (r: u64)
    requires
        min <= max,
    ensures
        r as nat == configured_value(
            match raw {
                Some(t) => Some(t@),
                None => None,
            },
            u64::MAX as nat,
            default as nat,
            min as nat,
            max as nat,
        ),
{
    match raw {
        Some(t) => match parse_unsigned_at_most(&chars_of(t), u64::MAX) {
            Some(v) => if v < min {
                min
            } else if v > max {
                max
            } else {
                v
            },
            None => default,
        },
        None => default,
    }
}

/// A count from the environment (see `configured_value`).
pub fn configured_count(raw: Option<&str>, default: usize, min: usize, max: usize) -> (r: usize)
    requires
        min <= max,
    ensures
        r as nat == configured_value(
            match raw {
                Some(t) => Some(t@),
                None => None,
            },
            usize::MAX as nat,
            default as nat,
            min as nat,
            max as nat,
        ),
{
    match raw {
        Some(t) => match parse_unsigned_at_most(&chars_of(t), usize::MAX as u64) {
            Some(v) => if v < min as u64 {
                min
            } else if v > max as u64 {
                max
            } else {
                v as usize
            },
            None => default,
        },
        None => default,
    }
}

/// The loop's intervals, in milliseconds.
#[derive(Debug, Clone, Copy)]
pub struct LoopIntervals {
    pub playing_poll_ms: u64,
    pub paused_poll_ms: u64,
    pub playing_snapshot_ms: u64,
    pub analysis_snapshot_ms: u64,
    pub paused_snapshot_ms: u64,
    pub tree_emit_ms: u64,
    pub tree_emit_min_track_delta: usize,
}

impl LoopIntervals {
    /// The intervals from the environment's tuning texts, each with its
    /// default and bounds: player polls while playing (40 ms, 8 to 500) and
    /// while paused (333 ms, 125 to 1000); snapshots while playing (40 ms,
    /// 16 to 1000), for analysis (16 ms, 8 to 1000) and while paused
    /// (333 ms, 125 to 1000); tree updates during a scan (250 ms, 50 to
    /// 5000, and at least 256 new tracks, 16 to 50000).
    pub fn configured(
        playing_poll: Option<&str>,
        paused_poll: Option<&str>,
        playing_snapshot: Option<&str>,
        analysis_snapshot: Option<&str>,
        paused_snapshot: Option<&str>,
        tree_emit: Option<&str>,
        tree_emit_delta: Option<&str>,
    ) -> (r: LoopIntervals)
        ensures
            r.playing_poll_ms == configured_value(opt_view(playing_poll), u64::MAX as nat, 40, 8, 500),
            r.paused_poll_ms == configured_value(opt_view(paused_poll), u64::MAX as nat, 333, 125, 1000),
            r.playing_snapshot_ms == configured_value(opt_view(playing_snapshot), u64::MAX as nat, 40, 16, 1000),
            r.analysis_snapshot_ms == configured_value(opt_view(analysis_snapshot), u64::MAX as nat, 16, 8, 1000),
            r.paused_snapshot_ms == configured_value(opt_view(paused_snapshot), u64::MAX as nat, 333, 125, 1000),
            r.tree_emit_ms == configured_value(opt_view(tree_emit), u64::MAX as nat, 250, 50, 5000),
            r.tree_emit_min_track_delta == configured_value(opt_view(tree_emit_delta), usize::MAX as nat, 256, 16, 50000),
    {
        LoopIntervals {
            playing_poll_ms: configured_ms(playing_poll, 40, 8, 500),
            paused_poll_ms: configured_ms(paused_poll, 333, 125, 1000),
            playing_snapshot_ms: configured_ms(playing_snapshot, 40, 16, 1000),
            analysis_snapshot_ms: configured_ms(analysis_snapshot, 16, 8, 1000),
            paused_snapshot_ms: configured_ms(paused_snapshot, 333, 125, 1000),
            tree_emit_ms: configured_ms(tree_emit, 250, 50, 5000),
            tree_emit_min_track_delta: configured_count(tree_emit_delta, 256, 16, 50000),
        }
    }
}

pub open spec fn opt_view(raw: Option<&str>) -> Option<Seq<char>> {
    match raw {
        Some(t) => Some(t@),
        None => None,
    }
}

/// Time since `since`, never negative.
pub open spec fn elapsed(now: u64, since: u64) -> nat {
    if now >= since {
        (now - since) as nat
    } else {
        0
    }
}

/// What is left of `interval` after the time since `since`.
pub open spec fn remaining(interval: u64, now: u64, since: u64) -> nat {
    if interval >= elapsed(now, since) {
        (interval - elapsed(now, since)) as nat
    } else {
        0
    }
}

/// The time until `deadline`, never negative.
pub open spec fn until(deadline: u64, now: u64) -> nat {
    if deadline > now {
        (deadline - now) as nat
    } else {
        0
    }
}

/// A deadline `delay` after `now` (at the end of the clock's range).
pub open spec fn after(now: u64, delay: u64) -> u64 {
    if now + delay <= u64::MAX {
        (now + delay) as u64
    } else {
        u64::MAX
    }
}

fn elapsed_exec(now: u64, since: u64) -> (r: u64)
    ensures
        r == elapsed(now, since),
{
    if now >= since {
        now - since
    } else {
        0
    }
}

fn remaining_exec(interval: u64, now: u64, since: u64) -> (r: u64)
    ensures
        r == remaining(interval, now, since),
{
    let e = elapsed_exec(now, since);
    if interval >= e {
        interval - e
    } else {
        0
    }
}

fn after_exec(now: u64, delay: u64) -> (r: u64)
    ensures
        r == after(now, delay),
{
    if now <= u64::MAX - delay {
        now + delay
    } else {
        u64::MAX
    }
}

/// The loop's timetable and what it owes the user interface.
#[derive(Debug, Clone)]
pub struct LoopSchedule {
    pub intervals: LoopIntervals,
    pub running: bool,
    pub settings_dirty: bool,
    pub session_dirty: bool,
    pub pending_snapshot: SnapshotUrgency,
    pub include_tree_in_next_snapshot: bool,
    pub include_queue_in_next_snapshot: bool,
    pub last_settings_save: u64,
    pub last_session_save: u64,
    pub last_playing_poll: u64,
    pub last_paused_poll: u64,
    pub last_snapshot_emit: u64,
    pub last_queue_detail_revalidate: u64,
    pub last_tree_emit_at: Option<u64>,
    pub last_tree_emit_track_count: usize,
    pub deferred_tree_rebuild_at: Option<u64>,
}

/// A time one interval before `now`, so that the first poll is due at
/// once; `now` itself where the clock does not reach back that far.
pub open spec fn one_interval_ago(now: u64, interval: u64) -> u64 {
    if now >= interval {
        (now - interval) as u64
    } else {
        now
    }
}

/// The delays that the loop waits on, where each applies.
pub open spec fn wake_candidates(
    s: LoopSchedule,
    now: u64,
    state: PlaybackState,
    has_current: bool,
    search_results_pending: bool,
    queue_active: bool,
) -> Seq<Option<nat>> {
    seq![
        s.playback_poll_delay(now, state, has_current),
        s.snapshot_emit_delay(now, state, has_current),
        if search_results_pending { Some(RETRY_MS as nat) } else { None },
        if queue_active { Some(remaining(QUEUE_DETAIL_REVALIDATE_MS, now, s.last_queue_detail_revalidate)) } else { None },
        match s.deferred_tree_rebuild_at {
            Some(d) => Some(until(d, now)),
            None => None,
        },
        if s.settings_dirty { Some(remaining(SAVE_DELAY_MS, now, s.last_settings_save)) } else { None },
        if s.session_dirty { Some(remaining(SAVE_DELAY_MS, now, s.last_session_save)) } else { None },
    ]
}

/// The least of the first `n` delays that apply, and `start`.
pub open spec fn least_delay(c: Seq<Option<nat>>, n: int, start: nat) -> nat
    decreases n,
{
    if n <= 0 {
        start
    } else {
        let prev = least_delay(c, n - 1, start);
        match c[n - 1] {
            Some(d) => if d < prev {
                d
            } else {
                prev
            },
            None => prev,
        }
    }
}

impl LoopSchedule {
    /// The timetable when the loop starts: running, nothing dirty, nothing
    /// pending, the first snapshot to carry the tree and the queue, and the
    /// first poll due at once.
    pub fn new(intervals: LoopIntervals, now: u64) -> (r: LoopSchedule)
        ensures
            r.intervals == intervals,
            r.running,
            !r.settings_dirty,
            !r.session_dirty,
            r.pending_snapshot == SnapshotUrgency::Idle,
            r.include_tree_in_next_snapshot,
            r.include_queue_in_next_snapshot,
            r.last_settings_save == now,
            r.last_session_save == now,
            r.last_playing_poll == one_interval_ago(now, intervals.playing_poll_ms),
            r.last_paused_poll == one_interval_ago(now, intervals.paused_poll_ms),
            r.last_snapshot_emit == now,
            r.last_queue_detail_revalidate == now,
            r.last_tree_emit_at is None,
            r.last_tree_emit_track_count == 0,
            r.deferred_tree_rebuild_at is None,
    {
        LoopSchedule {
            intervals,
            running: true,
            settings_dirty: false,
            session_dirty: false,
            pending_snapshot: SnapshotUrgency::Idle,
            include_tree_in_next_snapshot: true,
            include_queue_in_next_snapshot: true,
            last_settings_save: now,
            last_session_save: now,
            last_playing_poll: if now >= intervals.playing_poll_ms {
                now - intervals.playing_poll_ms
            } else {
                now
            },
            last_paused_poll: if now >= intervals.paused_poll_ms {
                now - intervals.paused_poll_ms
            } else {
                now
            },
            last_snapshot_emit: now,
            last_queue_detail_revalidate: now,
            last_tree_emit_at: None,
            last_tree_emit_track_count: 0,
            deferred_tree_rebuild_at: None,
        }
    }

    pub open spec fn playback_poll_delay(self, now: u64, state: PlaybackState, has_current: bool) -> Option<nat> {
        if state == PlaybackState::Playing {
            Some(remaining(self.intervals.playing_poll_ms, now, self.last_playing_poll))
        } else if state == PlaybackState::Paused && has_current {
            Some(remaining(self.intervals.paused_poll_ms, now, self.last_paused_poll))
        } else {
            None
        }
    }

    pub open spec fn heartbeat_interval(self, state: PlaybackState, has_current: bool) -> Option<u64> {
        if state == PlaybackState::Playing {
            Some(self.intervals.playing_snapshot_ms)
        } else if state == PlaybackState::Paused && has_current {
            Some(self.intervals.paused_snapshot_ms)
        } else {
            None
        }
    }

    pub open spec fn snapshot_emit_delay(self, now: u64, state: PlaybackState, has_current: bool) -> Option<nat> {
        match self.pending_snapshot {
            SnapshotUrgency::Idle => None,
            SnapshotUrgency::Immediate => Some(RETRY_MS as nat),
            SnapshotUrgency::Analysis => Some(
                remaining(self.intervals.analysis_snapshot_ms, now, self.last_snapshot_emit),
            ),
            SnapshotUrgency::Heartbeat => match self.heartbeat_interval(state, has_current) {
                Some(i) => Some(remaining(i, now, self.last_snapshot_emit)),
                None => None,
            },
        }
    }

    /// How long until the player is next polled, if it is polled at all.
    pub fn next_playback_poll_delay(&self, now: u64, state: PlaybackState, has_current: bool) -> (r: Option<u64>)
        ensures
            match r {
                Some(d) => self.playback_poll_delay(now, state, has_current) == Some(d as nat),
                None => self.playback_poll_delay(now, state, has_current) is None,
            },
    {
        match state {
            PlaybackState::Playing => Some(remaining_exec(self.intervals.playing_poll_ms, now, self.last_playing_poll)),
            PlaybackState::Paused => if has_current {
                Some(remaining_exec(self.intervals.paused_poll_ms, now, self.last_paused_poll))
            } else {
                None
            },
            PlaybackState::Stopped => None,
        }
    }

    /// The heartbeat of snapshots, if the player is active.
    pub fn snapshot_heartbeat_interval(&self, state: PlaybackState, has_current: bool) -> (r: Option<u64>)
        ensures
            r == self.heartbeat_interval(state, has_current),
    {
        match state {
            PlaybackState::Playing => Some(self.intervals.playing_snapshot_ms),
            PlaybackState::Paused => if has_current {
                Some(self.intervals.paused_snapshot_ms)
            } else {
                None
            },
            PlaybackState::Stopped => None,
        }
    }

    /// How long until the pending snapshot is due, if one is pending.
    pub fn next_snapshot_emit_delay(&self, now: u64, state: PlaybackState, has_current: bool) -> (r: Option<u64>)
        ensures
            match r {
                Some(d) => self.snapshot_emit_delay(now, state, has_current) == Some(d as nat),
                None => self.snapshot_emit_delay(now, state, has_current) is None,
            },
    {
        match self.pending_snapshot {
            SnapshotUrgency::Idle => None,
            SnapshotUrgency::Immediate => Some(RETRY_MS),
            SnapshotUrgency::Analysis => Some(
                remaining_exec(self.intervals.analysis_snapshot_ms, now, self.last_snapshot_emit),
            ),
            SnapshotUrgency::Heartbeat => match self.snapshot_heartbeat_interval(state, has_current) {
                Some(i) => Some(remaining_exec(i, now, self.last_snapshot_emit)),
                None => None,
            },
        }
    }

    /// How long the loop may sleep before something is due: the least of
    /// the delays that apply (see `wake_candidates`), at most a day.
    /// `queue_active` says that the queue is not empty or file details are
    /// still awaited.
    pub fn next_wake_delay(
        &self,
        now: u64,
        state: PlaybackState,
        has_current: bool,
        search_results_pending: bool,
        queue_active: bool,
    ) -> (r: u64)
        ensures
            r as nat == least_delay(
                wake_candidates(*self, now, state, has_current, search_results_pending, queue_active),
                7,
                IDLE_WAKE_MS as nat,
            ),
    {
        let ghost c = wake_candidates(*self, now, state, has_current, search_results_pending, queue_active);
        assert(c[0] == self.playback_poll_delay(now, state, has_current));
        assert(c[1] == self.snapshot_emit_delay(now, state, has_current));
        assert(c[2] == (if search_results_pending { Some(RETRY_MS as nat) } else { None }));
        assert(least_delay(c, 0, IDLE_WAKE_MS as nat) == IDLE_WAKE_MS);
        let mut delay: u64 = IDLE_WAKE_MS;
        let poll = self.next_playback_poll_delay(now, state, has_current);
        if let Some(d) = poll {
            if d < delay {
                delay = d;
            }
        }
        assert(delay == least_delay(c, 1, IDLE_WAKE_MS as nat));
        let snap = self.next_snapshot_emit_delay(now, state, has_current);
        if let Some(d) = snap {
            if d < delay {
                delay = d;
            }
        }
        assert(delay == least_delay(c, 2, IDLE_WAKE_MS as nat));
        if search_results_pending && RETRY_MS < delay {
            delay = RETRY_MS;
        }
        assert(delay == least_delay(c, 3, IDLE_WAKE_MS as nat));
        if queue_active {
            let d = remaining_exec(QUEUE_DETAIL_REVALIDATE_MS, now, self.last_queue_detail_revalidate);
            if d < delay {
                delay = d;
            }
        }
        assert(delay == least_delay(c, 4, IDLE_WAKE_MS as nat));
        if let Some(deadline) = self.deferred_tree_rebuild_at {
            let d: u64 = if deadline > now {
                deadline - now
            } else {
                0
            };
            if d < delay {
                delay = d;
            }
        }
        assert(delay == least_delay(c, 5, IDLE_WAKE_MS as nat));
        if self.settings_dirty {
            let d = remaining_exec(SAVE_DELAY_MS, now, self.last_settings_save);
            if d < delay {
                delay = d;
            }
        }
        assert(delay == least_delay(c, 6, IDLE_WAKE_MS as nat));
        if self.session_dirty {
            let d = remaining_exec(SAVE_DELAY_MS, now, self.last_session_save);
            if d < delay {
                delay = d;
            }
        }
        delay
    }

    pub open spec fn poll_due(self, now: u64, state: PlaybackState, has_current: bool) -> bool {
        if state == PlaybackState::Playing {
            elapsed(now, self.last_playing_poll) >= self.intervals.playing_poll_ms
        } else {
            state == PlaybackState::Paused && has_current && elapsed(now, self.last_paused_poll)
                >= self.intervals.paused_poll_ms
        }
    }

    /// Whether the player is to be polled now; a poll that is due is noted
    /// as made at `now`.
    pub fn poll_playback_if_due(&mut self, now: u64, state: PlaybackState, has_current: bool) -> (poll: bool)
        ensures
            poll == old(self).poll_due(now, state, has_current),
            *final(self) == (if !poll {
                *old(self)
            } else if state == PlaybackState::Playing {
                LoopSchedule { last_playing_poll: now, ..*old(self) }
            } else {
                LoopSchedule { last_paused_poll: now, ..*old(self) }
            }),
    {
        match state {
            PlaybackState::Playing => {
                if elapsed_exec(now, self.last_playing_poll) >= self.intervals.playing_poll_ms {
                    self.last_playing_poll = now;
                    true
                } else {
                    false
                }
            },
            PlaybackState::Paused => {
                if has_current && elapsed_exec(now, self.last_paused_poll) >= self.intervals.paused_poll_ms {
                    self.last_paused_poll = now;
                    true
                } else {
                    false
                }
            },
            PlaybackState::Stopped => false,
        }
    }

    /// The pending snapshot becomes the more urgent of itself and `u`.
    pub fn note_snapshot_urgency(&mut self, u: SnapshotUrgency)
        ensures
            *final(self) == (LoopSchedule { pending_snapshot: more_urgent(old(self).pending_snapshot, u), ..*old(self) }),
    {
        self.pending_snapshot = self.pending_snapshot.max_with(u);
    }

    pub open spec fn snapshot_due_spec(self, now: u64, state: PlaybackState, has_current: bool) -> bool {
        match self.pending_snapshot {
            SnapshotUrgency::Idle => false,
            SnapshotUrgency::Immediate => true,
            SnapshotUrgency::Analysis => elapsed(now, self.last_snapshot_emit) >= self.intervals.analysis_snapshot_ms,
            SnapshotUrgency::Heartbeat => match self.heartbeat_interval(state, has_current) {
                Some(i) => elapsed(now, self.last_snapshot_emit) >= i,
                None => false,
            },
        }
    }

    /// Whether the pending snapshot is to be sent now: an immediate one
    /// always, one for analysis or a heartbeat once its interval has passed
    /// since the last snapshot. It carries the queue if
    /// `include_queue_in_next_snapshot` says so.
    pub fn snapshot_due(&self, now: u64, state: PlaybackState, has_current: bool) -> (r: bool)
        ensures
            r == self.snapshot_due_spec(now, state, has_current),
    {
        match self.pending_snapshot {
            SnapshotUrgency::Idle => false,
            SnapshotUrgency::Immediate => true,
            SnapshotUrgency::Analysis => elapsed_exec(now, self.last_snapshot_emit) >= self.intervals.analysis_snapshot_ms,
            SnapshotUrgency::Heartbeat => match self.snapshot_heartbeat_interval(state, has_current) {
                Some(i) => elapsed_exec(now, self.last_snapshot_emit) >= i,
                None => false,
            },
        }
    }

    /// A snapshot was handed on at `now`, with the library holding
    /// `track_count` tracks: nothing is pending any more, the tree is left
    /// out of the next one, and so is the queue if this one carried it.
    pub fn snapshot_sent(&mut self, now: u64, track_count: usize, included_queue: bool)
        ensures
            *final(self) == (LoopSchedule {
                pending_snapshot: SnapshotUrgency::Idle,
                last_snapshot_emit: now,
                include_tree_in_next_snapshot: false,
                include_queue_in_next_snapshot: old(self).include_queue_in_next_snapshot && !included_queue,
                last_tree_emit_at: if old(self).include_tree_in_next_snapshot {
                    Some(now)
                } else {
                    old(self).last_tree_emit_at
                },
                last_tree_emit_track_count: if old(self).include_tree_in_next_snapshot {
                    track_count
                } else {
                    old(self).last_tree_emit_track_count
                },
                ..*old(self)
            }),
    {
        if self.include_tree_in_next_snapshot {
            self.last_tree_emit_at = Some(now);
            self.last_tree_emit_track_count = track_count;
        }
        self.last_snapshot_emit = now;
        self.include_tree_in_next_snapshot = false;
        if included_queue {
            self.include_queue_in_next_snapshot = false;
        }
        self.pending_snapshot = SnapshotUrgency::Idle;
    }

    /// A snapshot could not be handed on: one is owed at once.
    pub fn snapshot_dropped(&mut self)
        ensures
            *final(self) == (LoopSchedule { pending_snapshot: SnapshotUrgency::Immediate, ..*old(self) }),
    {
        self.pending_snapshot = self.pending_snapshot.max_with(SnapshotUrgency::Immediate);
    }

    pub open spec fn tree_refresh_wanted(self, scan_in_progress: bool, track_count: usize, now: u64) -> bool {
        let delta = if track_count >= self.last_tree_emit_track_count {
            track_count - self.last_tree_emit_track_count
        } else {
            0
        };
        let scan_emit_due = match self.last_tree_emit_at {
            Some(last) => elapsed(now, last) >= self.intervals.tree_emit_ms,
            None => true,
        };
        !scan_in_progress || self.last_tree_emit_at is None || (scan_emit_due && delta
            >= self.intervals.tree_emit_min_track_delta)
    }

    pub open spec fn after_library_refresh(
        self,
        library_urgency: SnapshotUrgency,
        scan_in_progress: bool,
        track_count: usize,
        now: u64,
    ) -> LoopSchedule {
        if library_urgency is Idle {
            self
        } else if self.tree_refresh_wanted(scan_in_progress, track_count, now) {
            LoopSchedule {
                deferred_tree_rebuild_at: None,
                include_queue_in_next_snapshot: true,
                include_tree_in_next_snapshot: true,
                pending_snapshot: SnapshotUrgency::Immediate,
                ..self
            }
        } else {
            LoopSchedule { deferred_tree_rebuild_at: None, include_queue_in_next_snapshot: true, ..self }
        }
    }

    /// The library changed (`library_urgency` is pending): a deferred tree
    /// rebuild is dropped, the next snapshot carries the queue, and the tree
    /// is rebuilt now unless a scan is running and the last tree went out
    /// less than an interval ago or with too few new tracks since.
    /// Returns whether the tree is to be rebuilt and sent.
    pub fn library_refreshed(
        &mut self,
        library_urgency: SnapshotUrgency,
        scan_in_progress: bool,
        track_count: usize,
        now: u64,
    ) -> (rebuild_tree: bool)
        ensures
            rebuild_tree == (!(library_urgency is Idle) && old(self).tree_refresh_wanted(
                scan_in_progress,
                track_count,
                now,
            )),
            *final(self) == old(self).after_library_refresh(library_urgency, scan_in_progress, track_count, now),
    {
        if !library_urgency.is_pending() {
            return false;
        }
        self.deferred_tree_rebuild_at = None;
        self.include_queue_in_next_snapshot = true;
        let delta: usize = if track_count >= self.last_tree_emit_track_count {
            track_count - self.last_tree_emit_track_count
        } else {
            0
        };
        let scan_emit_due = match self.last_tree_emit_at {
            Some(last) => elapsed_exec(now, last) >= self.intervals.tree_emit_ms,
            None => true,
        };
        let rebuild = !scan_in_progress || self.last_tree_emit_at.is_none() || (scan_emit_due && delta
            >= self.intervals.tree_emit_min_track_delta);
        if rebuild {
            self.include_tree_in_next_snapshot = true;
            self.note_snapshot_urgency(SnapshotUrgency::Immediate);
        }
        rebuild
    }

    /// The tree is to be rebuilt `delay` from `now`.
    pub fn defer_tree_rebuild(&mut self, now: u64, delay: u64)
        ensures
            *final(self) == (LoopSchedule { deferred_tree_rebuild_at: Some(after(now, delay)), ..*old(self) }),
    {
        self.deferred_tree_rebuild_at = Some(after_exec(now, delay));
    }

    /// Whether a deferred tree rebuild has come due; if so it is no longer
    /// deferred, and the rebuilt tree is owed at once.
    pub fn deferred_tree_rebuild_due(&mut self, now: u64) -> (rebuild_tree: bool)
        ensures
            rebuild_tree == match old(self).deferred_tree_rebuild_at {
                Some(d) => now >= d,
                None => false,
            },
            *final(self) == (if rebuild_tree {
                LoopSchedule {
                    deferred_tree_rebuild_at: None,
                    include_tree_in_next_snapshot: true,
                    pending_snapshot: SnapshotUrgency::Immediate,
                    ..*old(self)
                }
            } else {
                *old(self)
            }),
    {
        match self.deferred_tree_rebuild_at {
            Some(deadline) => {
                if now < deadline {
                    false
                } else {
                    self.deferred_tree_rebuild_at = None;
                    self.include_tree_in_next_snapshot = true;
                    self.note_snapshot_urgency(SnapshotUrgency::Immediate);
                    true
                }
            },
            None => false,
        }
    }

    /// Whether the queue's file details are to be checked again now.
    pub fn queue_detail_revalidation_due(&self, now: u64) -> (r: bool)
        ensures
            r == (elapsed(now, self.last_queue_detail_revalidate) >= QUEUE_DETAIL_REVALIDATE_MS),
    {
        elapsed_exec(now, self.last_queue_detail_revalidate) >= QUEUE_DETAIL_REVALIDATE_MS
    }

    /// The queue's file details were checked at `now`; if that changed
    /// them, the next snapshot carries the queue, is owed at once, and the
    /// session is to be saved.
    pub fn queue_details_revalidated(&mut self, changed: bool, now: u64)
        ensures
            *final(self) == (if changed {
                LoopSchedule {
                    last_queue_detail_revalidate: now,
                    include_queue_in_next_snapshot: true,
                    pending_snapshot: SnapshotUrgency::Immediate,
                    session_dirty: true,
                    ..*old(self)
                }
            } else {
                LoopSchedule { last_queue_detail_revalidate: now, ..*old(self) }
            }),
    {
        if changed {
            self.include_queue_in_next_snapshot = true;
            self.note_snapshot_urgency(SnapshotUrgency::Immediate);
            self.session_dirty = true;
        }
        self.last_queue_detail_revalidate = now;
    }

    /// Whether the settings are to be saved now: they changed and the last
    /// save is two seconds past. A save that is due is noted as made.
    pub fn settings_save_due(&mut self, now: u64) -> (save: bool)
        ensures
            save == (old(self).settings_dirty && elapsed(now, old(self).last_settings_save) >= SAVE_DELAY_MS),
            *final(self) == (if save {
                LoopSchedule { settings_dirty: false, last_settings_save: now, ..*old(self) }
            } else {
                *old(self)
            }),
    {
        if self.settings_dirty && elapsed_exec(now, self.last_settings_save) >= SAVE_DELAY_MS {
            self.settings_dirty = false;
            self.last_settings_save = now;
            true
        } else {
            false
        }
    }

    /// Whether the session is to be saved now (if it differs from the one
    /// saved last): it changed and the last save is two seconds past. A
    /// save that is due is noted as made.
    pub fn session_save_due(&mut self, now: u64) -> (save: bool)
        ensures
            save == (old(self).session_dirty && elapsed(now, old(self).last_session_save) >= SAVE_DELAY_MS),
            *final(self) == (if save {
                LoopSchedule { session_dirty: false, last_session_save: now, ..*old(self) }
            } else {
                *old(self)
            }),
    {
        if self.session_dirty && elapsed_exec(now, self.last_session_save) >= SAVE_DELAY_MS {
            self.session_dirty = false;
            self.last_session_save = now;
            true
        } else {
            false
        }
    }

    pub open spec fn after_command(self, e: CommandEffects, changed: bool, now: u64) -> LoopSchedule {
        let s1 = if e.rebuild_tree {
            LoopSchedule { include_tree_in_next_snapshot: true, ..self }
        } else if changed && e.deferred_tree_rebuild_ms is Some {
            LoopSchedule { deferred_tree_rebuild_at: Some(after(now, e.deferred_tree_rebuild_ms.unwrap())), ..self }
        } else {
            self
        };
        if changed {
            LoopSchedule {
                session_dirty: true,
                include_queue_in_next_snapshot: s1.include_queue_in_next_snapshot || e.refresh_queue,
                ..s1
            }
        } else {
            s1
        }
    }

    /// A command was handled (`changed` says whether it changed the state),
    /// with the effects `command_effects` gave before it ran. The caller
    /// rebuilds the tree if `e.rebuild_tree`; if `emit_snapshot_now`, it
    /// sends a snapshot with the queue at once, and notes the outcome with
    /// `snapshot_sent` or `snapshot_dropped` (then the urgency is
    /// immediate). The urgency returned is immediate if the tree is rebuilt
    /// or the state changed.
    pub fn command_handled(&mut self, e: CommandEffects, changed: bool, now: u64) -> (r: CommandFollowUp)
        ensures
            *final(self) == old(self).after_command(e, changed, now),
            r.urgency == (if e.rebuild_tree || changed {
                SnapshotUrgency::Immediate
            } else {
                SnapshotUrgency::Idle
            }),
            r.emit_snapshot_now == (e.force_snapshot && old(self).running),
    {
        let mut urgency = SnapshotUrgency::Idle;
        if e.rebuild_tree {
            self.include_tree_in_next_snapshot = true;
            urgency = SnapshotUrgency::Immediate;
        } else if changed {
            if let Some(delay) = e.deferred_tree_rebuild_ms {
                self.deferred_tree_rebuild_at = Some(after_exec(now, delay));
            }
        }
        if changed {
            self.session_dirty = true;
            urgency = SnapshotUrgency::Immediate;
            if e.refresh_queue {
                self.include_queue_in_next_snapshot = true;
            }
        }
        CommandFollowUp { urgency, emit_snapshot_now: e.force_snapshot && self.running }
    }

    pub open spec fn after_event(
        self,
        kind: LoopEventKind,
        urgency: SnapshotUrgency,
        scan_in_progress: bool,
        track_count: usize,
        now: u64,
    ) -> LoopSchedule {
        if urgency is Idle {
            self
        } else {
            let s1 = LoopSchedule { session_dirty: true, ..self };
            match kind {
                LoopEventKind::Library => s1.after_library_refresh(urgency, scan_in_progress, track_count, now),
                LoopEventKind::ExternalQueueDetails => LoopSchedule { include_queue_in_next_snapshot: true, ..s1 },
                LoopEventKind::ApplyAlbumArt => LoopSchedule {
                    deferred_tree_rebuild_at: Some(after(now, ALBUM_ART_TREE_DELAY_MS)),
                    ..s1
                },
                _ => s1,
            }
        }
    }

    /// An event that woke the loop was handled, with `urgency` for the next
    /// snapshot. Any urgency marks the session to be saved; a library
    /// change is refreshed (see `library_refreshed`); new queue file details
    /// put the queue in the next snapshot; new album art rebuilds the tree
    /// shortly after. Returns whether the tree is to be rebuilt now.
    pub fn event_handled(
        &mut self,
        kind: LoopEventKind,
        urgency: SnapshotUrgency,
        scan_in_progress: bool,
        track_count: usize,
        now: u64,
    ) -> (rebuild_tree: bool)
        ensures
            *final(self) == old(self).after_event(kind, urgency, scan_in_progress, track_count, now),
            rebuild_tree == (kind == LoopEventKind::Library && !(urgency is Idle) && old(self).tree_refresh_wanted(
                scan_in_progress,
                track_count,
                now,
            )),
    {
        if !urgency.is_pending() {
            return false;
        }
        self.session_dirty = true;
        match kind {
            LoopEventKind::Library => self.library_refreshed(urgency, scan_in_progress, track_count, now),
            LoopEventKind::ExternalQueueDetails => {
                self.include_queue_in_next_snapshot = true;
                false
            },
            LoopEventKind::ApplyAlbumArt => {
                self.defer_tree_rebuild(now, ALBUM_ART_TREE_DELAY_MS);
                false
            },
            _ => false,
        }
    }

    pub open spec fn after_drain(
        self,
        d: DrainedUrgencies,
        scan_in_progress: bool,
        track_count: usize,
        skip_queue_for_gapless: bool,
        now: u64,
    ) -> LoopSchedule {
        let s1 = if d.apply_album_art is Idle {
            self
        } else {
            LoopSchedule { deferred_tree_rebuild_at: Some(after(now, ALBUM_ART_TREE_DELAY_MS)), ..self }
        };
        let s2 = s1.after_library_refresh(d.library, scan_in_progress, track_count, now);
        let s3 = if d.external_queue_details is Idle {
            s2
        } else {
            LoopSchedule { include_queue_in_next_snapshot: true, ..s2 }
        };
        let s4 = if skip_queue_for_gapless {
            LoopSchedule { include_queue_in_next_snapshot: false, ..s3 }
        } else {
            s3
        };
        if drained_urgency(d) is Idle {
            s4
        } else {
            LoopSchedule { session_dirty: true, ..s4 }
        }
    }

    /// The events waiting in every channel were drained, each source with
    /// the urgency it asked for. New album art rebuilds the tree shortly
    /// after; a library change is refreshed (see `library_refreshed`); new
    /// queue file details put the queue in the next snapshot, unless a
    /// gapless handoff moved to the next track (`skip_queue_for_gapless`,
    /// set by the playback events), which leaves the queue out of the next
    /// snapshot only: the mark is used up. Any urgency marks the session to
    /// be saved. Returns the most urgent of them and whether the tree is to
    /// be rebuilt now.
    pub fn events_drained(
        &mut self,
        d: DrainedUrgencies,
        scan_in_progress: bool,
        track_count: usize,
        skip_queue_for_gapless: &mut bool,
        now: u64,
    ) -> (r: (SnapshotUrgency, bool))
        ensures
            *final(self) == old(self).after_drain(d, scan_in_progress, track_count, *old(skip_queue_for_gapless), now),
            !*final(skip_queue_for_gapless),
            r.0 == drained_urgency(d),
            r.1 == (!(d.library is Idle) && (if d.apply_album_art is Idle {
                *old(self)
            } else {
                LoopSchedule {
                    deferred_tree_rebuild_at: Some(after(now, ALBUM_ART_TREE_DELAY_MS)),
                    ..*old(self)
                }
            }).tree_refresh_wanted(scan_in_progress, track_count, now)),
    {
        if d.apply_album_art.is_pending() {
            self.defer_tree_rebuild(now, ALBUM_ART_TREE_DELAY_MS);
        }
        let rebuild = self.library_refreshed(d.library, scan_in_progress, track_count, now);
        if d.external_queue_details.is_pending() {
            self.include_queue_in_next_snapshot = true;
        }
        let urgency = d.playback.max_with(d.analysis).max_with(d.metadata).max_with(d.library).max_with(
            d.apply_album_art,
        ).max_with(d.external_queue_details).max_with(d.lastfm);
        if *skip_queue_for_gapless {
            *skip_queue_for_gapless = false;
            self.include_queue_in_next_snapshot = false;
        }
        if urgency.is_pending() {
            self.session_dirty = true;
        }
        (urgency, rebuild)
    }
}

/// What handling a command asks of the loop, read off the command before it
/// runs.
#[derive(Debug, Clone, Copy, PartialEq, Eq, Structural)]
pub struct CommandEffects {
    pub rebuild_tree: bool,
    pub deferred_tree_rebuild_ms: Option<u64>,
    pub refresh_queue: bool,
    pub force_snapshot: bool,
}

/// What the loop does after a command.
#[derive(Debug, Clone, Copy, PartialEq, Eq, Structural)]
pub struct CommandFollowUp {
    pub urgency: SnapshotUrgency,
    pub emit_snapshot_now: bool,
}

/// The sources of events that wake the loop.
#[derive(Debug, Clone, Copy, PartialEq, Eq, Structural)]
pub enum LoopEventKind {
    Playback,
    Analysis,
    Metadata,
    Library,
    SearchResults,
    ExternalQueueDetails,
    ApplyAlbumArt,
    LastFm,
}

/// The urgency each source asked for while its channel was drained.
#[derive(Debug, Clone, Copy, PartialEq, Eq, Structural)]
pub struct DrainedUrgencies {
    pub playback: SnapshotUrgency,
    pub analysis: SnapshotUrgency,
    pub metadata: SnapshotUrgency,
    pub library: SnapshotUrgency,
    pub apply_album_art: SnapshotUrgency,
    pub external_queue_details: SnapshotUrgency,
    pub lastfm: SnapshotUrgency,
}

pub open spec fn drained_urgency(d: DrainedUrgencies) -> SnapshotUrgency {
    more_urgent(
        more_urgent(
            more_urgent(
                more_urgent(more_urgent(more_urgent(d.playback, d.analysis), d.metadata), d.library),
                d.apply_album_art,
            ),
            d.external_queue_details,
        ),
        d.lastfm,
    )
}

/// A command that changes how the tree looks: another sort order, settings
/// loaded from disk, a node opened or closed, or edited or renamed files.
pub open spec fn requires_tree_rebuild(cmd: BridgeCommand, current_sort_mode: LibrarySortMode) -> bool {
    match cmd {
        BridgeCommand::Settings(BridgeSettingsCommand::SetLibrarySortMode(mode)) => mode != current_sort_mode,
        BridgeCommand::Settings(BridgeSettingsCommand::LoadFromDisk) => true,
        BridgeCommand::Library(l) => l is SetNodeExpanded || l is RefreshEditedPaths || l is RefreshRenamedPaths,
        _ => false,
    }
}

/// Whether a command rebuilds the tree at once (see `requires_tree_rebuild`).
pub fn command_requires_tree_rebuild(cmd: &BridgeCommand, current_sort_mode: LibrarySortMode) -> (r: bool)
    ensures
        r == requires_tree_rebuild(*cmd, current_sort_mode),
{
    match cmd {
        BridgeCommand::Settings(BridgeSettingsCommand::SetLibrarySortMode(mode)) => *mode != current_sort_mode,
        BridgeCommand::Settings(BridgeSettingsCommand::LoadFromDisk) => true,
        BridgeCommand::Library(l) => match l {
            BridgeLibraryCommand::SetNodeExpanded { .. } => true,
            BridgeLibraryCommand::RefreshEditedPaths(_) => true,
            BridgeLibraryCommand::RefreshRenamedPaths(_) => true,
            _ => false,
        },
        _ => false,
    }
}

/// How long after a command the tree is rebuilt, if it changed the state:
/// after new album art, a little later.
pub fn command_tree_rebuild_delay(cmd: &BridgeCommand) -> (r: Option<u64>)
    ensures
        r == (if cmd is Library && cmd->Library_0 is ApplyAlbumArt {
            Some(ALBUM_ART_COMMAND_TREE_DELAY_MS)
        } else {
            None
        }),
{
    match cmd {
        BridgeCommand::Library(BridgeLibraryCommand::ApplyAlbumArt { .. }) => Some(ALBUM_ART_COMMAND_TREE_DELAY_MS),
        _ => None,
    }
}

/// What handling `cmd` will ask of the loop, with the sort order before it.
pub fn command_effects(cmd: &BridgeCommand, current_sort_mode: LibrarySortMode) -> (e: CommandEffects)
    ensures
        e.rebuild_tree == requires_tree_rebuild(*cmd, current_sort_mode),
        e.deferred_tree_rebuild_ms == (if cmd is Library && cmd->Library_0 is ApplyAlbumArt {
            Some(ALBUM_ART_COMMAND_TREE_DELAY_MS)
        } else {
            None
        }),
        e.refresh_queue == requires_queue_snapshot(*cmd),
        e.force_snapshot == (*cmd is RequestSnapshot),
{
    CommandEffects {
        rebuild_tree: command_requires_tree_rebuild(cmd, current_sort_mode),
        deferred_tree_rebuild_ms: command_tree_rebuild_delay(cmd),
        refresh_queue: command_requires_queue_snapshot(cmd),
        force_snapshot: match cmd {
            BridgeCommand::RequestSnapshot => true,
            _ => false,
        },
    }
}

proof fn lemma_least_delay(c: Seq<Option<nat>>, n: int, start: nat)
    requires
        0 <= n <= c.len(),
    ensures
        least_delay(c, n, start) <= start,
        forall|i: int| 0 <= i < n && (#[trigger] c[i]) is Some ==> least_delay(c, n, start) <= c[i].unwrap(),
        least_delay(c, n, start) == start || exists|i: int| 0 <= i < n && c[i] == Some(least_delay(c, n, start)),
    decreases n,
{
    if n > 0 {
        lemma_least_delay(c, n - 1, start);
        let prev = least_delay(c, n - 1, start);
        if prev != start {
            let j = choose|j: int| 0 <= j < n - 1 && c[j] == Some(prev);
            assert(0 <= j < n && c[j] == Some(prev));
        }
        match c[n - 1] {
            Some(d) => if d < prev {
                assert(c[n - 1] == Some(least_delay(c, n, start)));
            },
            None => {},
        }
    }
}

/// The loop sleeps no longer than a day and no longer than any delay that
/// applies, and wakes exactly when one of them (or the day) runs out.
pub proof fn law_wake_delay_is_least_due(
    s: LoopSchedule,
    now: u64,
    state: PlaybackState,
    has_current: bool,
    search_results_pending: bool,
    queue_active: bool,
)
    ensures
        ({
            let c = wake_candidates(s, now, state, has_current, search_results_pending, queue_active);
            let d = least_delay(c, 7, IDLE_WAKE_MS as nat);
            &&& d <= IDLE_WAKE_MS
            &&& forall|i: int| 0 <= i < 7 && (#[trigger] c[i]) is Some ==> d <= c[i].unwrap()
            &&& (d == IDLE_WAKE_MS || exists|i: int| 0 <= i < 7 && c[i] == Some(d))
        }),
{
    let c = wake_candidates(s, now, state, has_current, search_results_pending, queue_active);
    lemma_least_delay(c, 7, IDLE_WAKE_MS as nat);
}

/// Noting an urgency never lowers what is pending: the result is one of
/// the two and at least as urgent as each.
pub proof fn law_urgency_only_rises(a: SnapshotUrgency, b: SnapshotUrgency)
    ensures
        urgency_rank(more_urgent(a, b)) >= urgency_rank(a),
        urgency_rank(more_urgent(a, b)) >= urgency_rank(b),
        more_urgent(a, b) == a || more_urgent(a, b) == b,
{
}

/// An immediate snapshot is always due, whatever the player does and
/// whenever the last one went out; with nothing pending none is due.
pub proof fn law_immediate_snapshot_always_due(s: LoopSchedule, now: u64, state: PlaybackState, has_current: bool)
    ensures
        s.pending_snapshot == SnapshotUrgency::Immediate ==> s.snapshot_due_spec(now, state, has_current),
        s.pending_snapshot == SnapshotUrgency::Idle ==> !s.snapshot_due_spec(now, state, has_current),
{
}

/// When the library changes while no scan runs, the tree is always rebuilt
/// and owed at once, together with the queue.
pub proof fn law_library_change_outside_scan_rebuilds_tree(
    s: LoopSchedule,
    urgency: SnapshotUrgency,
    track_count: usize,
    now: u64,
)
    requires
        !(urgency is Idle),
    ensures
        s.tree_refresh_wanted(false, track_count, now),
        s.after_library_refresh(urgency, false, track_count, now).include_tree_in_next_snapshot,
        s.after_library_refresh(urgency, false, track_count, now).include_queue_in_next_snapshot,
        s.after_library_refresh(urgency, false, track_count, now).pending_snapshot == SnapshotUrgency::Immediate,
{
}

/// A gapless track change leaves the queue out of the next snapshot, and
/// of that one only: the drain after it uses the mark up.
pub proof fn law_gapless_handoff_skips_queue_once(
    st: PlaybackBridgeState,
    path: String,
    queue_index: usize,
    track_token: u64,
    s: LoopSchedule,
    d: DrainedUrgencies,
    scan_in_progress: bool,
    track_count: usize,
    now: u64,
)
    ensures
        ({
            let st1 = state_after_event(
                st,
                PlaybackInput::TrackChanged { path, queue_index, kind: TrackChangeKind::Gapless, track_token },
            );
            &&& st1.skip_queue_for_gapless
            &&& !s.after_drain(d, scan_in_progress, track_count, st1.skip_queue_for_gapless, now).include_queue_in_next_snapshot
        }),
{
}

} // verus!
