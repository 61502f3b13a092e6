//! The play queue: how each queue command changes the list of tracks, the
//! selected row, and which operations the playback engine is asked to run.
use vstd::prelude::*;

use crate::text::{decimal, push_decimal, push_str, string_from_chars};

verus! {

/// State of the playback engine, as far as queue decisions depend on it.
#[derive(Debug, Clone, Copy, PartialEq, Eq, Structural)]
pub enum PlaybackState {
    Stopped,
    Playing,
    Paused,
}

/// A request that edits the play queue.
#[derive(Debug, Clone)]
pub enum BridgeQueueCommand {
    Replace { tracks: Vec<String>, autoplay: bool },
    Append(Vec<String>),
    PlayAt(usize),
    Remove(usize),
    Move { from: usize, to: usize },
    Select(Option<usize>),
    Clear,
}

/// An operation handed on to the playback engine.
#[derive(Debug, Clone, PartialEq, Eq)]
pub enum QueuePlaybackOp {
    LoadQueue(Vec<String>),
    AddToQueue(Vec<String>),
    RemoveAt(usize),
    Move { from: usize, to: usize },
    ClearQueue,
    PlayAt(usize),
    Play,
}

/// The mathematical content of a [`QueuePlaybackOp`].
pub enum QueueOp {
    LoadQueue(Seq<String>),
    AddToQueue(Seq<String>),
    RemoveAt(nat),
    Move { from: nat, to: nat },
    ClearQueue,
    PlayAt(nat),
    Play,
}

impl View for QueuePlaybackOp {
    type V = QueueOp;

    open spec fn view(&self) -> QueueOp {
        match self {
            QueuePlaybackOp::LoadQueue(v) => QueueOp::LoadQueue(v@),
            QueuePlaybackOp::AddToQueue(v) => QueueOp::AddToQueue(v@),
            QueuePlaybackOp::RemoveAt(i) => QueueOp::RemoveAt(*i as nat),
            QueuePlaybackOp::Move { from, to } => QueueOp::Move { from: *from as nat, to: *to as nat },
            QueuePlaybackOp::ClearQueue => QueueOp::ClearQueue,
            QueuePlaybackOp::PlayAt(i) => QueueOp::PlayAt(*i as nat),
            QueuePlaybackOp::Play => QueueOp::Play,
        }
    }
}

/// What a queue command did: whether the queue state changed, the playback
/// operations to run, and an error message for the user.
#[derive(Debug, Clone, PartialEq, Eq)]
pub struct QueueCommandOutcome {
    pub changed: bool,
    pub playback_ops: Vec<QueuePlaybackOp>,
    pub error: Option<String>,
}

impl QueueCommandOutcome {
    /// The operations, by value.
    pub open spec fn ops(&self) -> Seq<QueueOp> {
        self.playback_ops@.map_values(|op: QueuePlaybackOp| op@)
    }

    /// An outcome that changes nothing.
    pub open spec fn is_noop(&self) -> bool {
        !self.changed && self.playback_ops@.len() == 0 && self.error is None
    }
}

/// No change, no operation, no error (`QueueCommandOutcome::default()`).
pub fn noop_outcome() -> (o: QueueCommandOutcome)
    ensures
        o.is_noop(),
{
    QueueCommandOutcome { changed: false, playback_ops: Vec::new(), error: None }
}

// ---------------------------------------------------------------------------
// Specification
// ---------------------------------------------------------------------------

/// A selection that points at a row of a queue of `len` rows, or at nothing.
pub open spec fn selection_valid(sel: Option<usize>, len: nat) -> bool {
    match sel {
        Some(i) => i < len,
        None => true,
    }
}

/// `Play` is only needed when the engine is not already playing.
pub open spec fn play_ops(state: PlaybackState) -> Seq<QueueOp> {
    if state == PlaybackState::Playing {
        seq![]
    } else {
        seq![QueueOp::Play]
    }
}

pub open spec fn replace_ops(tracks: Seq<String>, autoplay: bool, state: PlaybackState) -> Seq<
    QueueOp,
> {
    if tracks.len() == 0 {
        seq![QueueOp::ClearQueue]
    } else if autoplay {
        seq![QueueOp::LoadQueue(tracks), QueueOp::PlayAt(0)] + play_ops(state)
    } else {
        seq![QueueOp::LoadQueue(tracks)]
    }
}

/// The selection after removing row `idx` from a queue that still has
/// `new_len > 0` rows: rows after the removed one move up by one, and a
/// selected removed row stays at its index, clamped to the last row.
pub open spec fn selection_after_remove(sel: Option<usize>, idx: nat, new_len: nat) -> Option<usize> {
    match sel {
        None => None,
        Some(s) => if s == idx {
            Some(if s <= new_len - 1 { s } else { (new_len - 1) as usize })
        } else if s > idx {
            Some((s - 1) as usize)
        } else {
            Some(s)
        },
    }
}

/// The selection after moving row `from` to position `to`: it follows the
/// moved row, and the rows between shift by one.
pub open spec fn selection_after_move(sel: Option<usize>, from: nat, to: nat) -> Option<usize> {
    match sel {
        None => None,
        Some(s) => Some(
            if s == from {
                to as usize
            } else if from < s && to >= s {
                (s - 1) as usize
            } else if from > s && to <= s {
                (s + 1) as usize
            } else {
                s
            },
        ),
    }
}

/// The queue after moving the row at `from` to position `to`.
pub open spec fn moved(q: Seq<String>, from: int, to: int) -> Seq<String> {
    q.remove(from).insert(to, q[from])
}

/// The text of the error for a `PlayAt` past the end of the queue.
pub open spec fn out_of_bounds_message(idx: nat) -> Seq<char> {
    "queue index "@ + decimal(idx) + " out of bounds"@
}

/// The whole effect of one queue command: `q1`/`s1` are the queue and
/// selection after the command, `o` what it reports.
pub open spec fn command_effect(
    cmd: BridgeQueueCommand,
    q0: Seq<String>,
    s0: Option<usize>,
    state: PlaybackState,
    q1: Seq<String>,
    s1: Option<usize>,
    o: QueueCommandOutcome,
) -> bool {
    match cmd {
        BridgeQueueCommand::Replace { tracks, autoplay } => {
            &&& q1 == tracks@
            &&& s1 == (if tracks@.len() == 0 { None } else { Some(0usize) })
            &&& o.changed
            &&& o.error is None
            &&& o.ops() == replace_ops(tracks@, autoplay, state)
        },
        BridgeQueueCommand::Append(tracks) => if tracks@.len() == 0 {
            &&& q1 == q0
            &&& s1 == s0
            &&& o.is_noop()
        } else {
            &&& q1 == q0 + tracks@
            &&& s1 == s0
            &&& o.changed
            &&& o.error is None
            &&& o.ops() == (if q0.len() == 0 {
                seq![QueueOp::LoadQueue(q0 + tracks@)]
            } else {
                seq![QueueOp::AddToQueue(tracks@)]
            })
        },
        BridgeQueueCommand::PlayAt(idx) => {
            &&& q1 == q0
            &&& if idx >= q0.len() {
                &&& s1 == s0
                &&& !o.changed
                &&& o.playback_ops@.len() == 0
                &&& o.error matches Some(e) && e@ == out_of_bounds_message(idx as nat)
            } else {
                &&& s1 == Some(idx)
                &&& o.changed
                &&& o.error is None
                &&& o.ops() == seq![QueueOp::PlayAt(idx as nat)] + play_ops(state)
            }
        },
        BridgeQueueCommand::Remove(idx) => if idx >= q0.len() {
            &&& q1 == q0
            &&& s1 == s0
            &&& o.is_noop()
        } else {
            &&& q1 == q0.remove(idx as int)
            &&& o.changed
            &&& o.error is None
            &&& if q1.len() == 0 {
                &&& s1 is None
                &&& o.ops() == seq![QueueOp::ClearQueue]
            } else {
                &&& s1 == selection_after_remove(s0, idx as nat, q1.len())
                &&& o.ops() == seq![QueueOp::RemoveAt(idx as nat)]
            }
        },
        BridgeQueueCommand::Move { from, to } => if from >= q0.len() || to >= q0.len() || from
            == to {
            &&& q1 == q0
            &&& s1 == s0
            &&& o.is_noop()
        } else {
            &&& q1 == moved(q0, from as int, to as int)
            &&& s1 == selection_after_move(s0, from as nat, to as nat)
            &&& o.changed
            &&& o.error is None
            &&& o.ops() == seq![QueueOp::Move { from: from as nat, to: to as nat }]
        },
        BridgeQueueCommand::Select(sel) => {
            let normalized = match sel {
                Some(i) => if i < q0.len() {
                    Some(i)
                } else {
                    None
                },
                None => None,
            };
            &&& q1 == q0
            &&& s1 == normalized
            &&& o.changed == (s0 != normalized)
            &&& o.playback_ops@.len() == 0
            &&& o.error is None
        },
        BridgeQueueCommand::Clear => {
            &&& q1.len() == 0
            &&& s1 is None
            &&& o.changed
            &&& o.error is None
            &&& o.ops() == seq![QueueOp::ClearQueue]
        },
    }
}

// ---------------------------------------------------------------------------
// Implementation
// ---------------------------------------------------------------------------

fn clone_paths(v: &Vec<String>) -> (out: Vec<String>)
    ensures
        out@ == v@,
{
    let mut out: Vec<String> = Vec::new();
    let mut i: usize = 0;
    while i < v.len()
        invariant
            i <= v.len(),
            out@ == v@.take(i as int),
        decreases v.len() - i,
    {
        out.push(v[i].clone());
        i += 1;
        assert(out@ =~= v@.take(i as int));
    }
    assert(v@.take(v.len() as int) =~= v@);
    out
}

fn play_ops_vec(ops: &mut Vec<QueuePlaybackOp>, state: PlaybackState)
    ensures
        final(ops)@.map_values(|op: QueuePlaybackOp| op@) == old(ops)@.map_values(
            |op: QueuePlaybackOp| op@,
        ) + play_ops(state),
{
    if state != PlaybackState::Playing {
        ops.push(QueuePlaybackOp::Play);
    }
    assert(ops@.map_values(|op: QueuePlaybackOp| op@) =~= old(ops)@.map_values(
        |op: QueuePlaybackOp| op@,
    ) + play_ops(state));
}

pub fn replace_queue_command_outcome(
    queue: &mut Vec<String>,
    selected_queue_index: &mut Option<usize>,
    tracks: Vec<String>,
    autoplay: bool,
    playback_state: PlaybackState,
) -> (o: QueueCommandOutcome)
    ensures
        command_effect(
            BridgeQueueCommand::Replace { tracks, autoplay },
            old(queue)@,
            *old(selected_queue_index),
            playback_state,
            final(queue)@,
            *final(selected_queue_index),
            o,
        ),
{
    let ghost t = tracks@;
    *queue = tracks;
    *selected_queue_index = if queue.len() == 0 {
        None
    } else {
        Some(0)
    };
    let mut playback_ops: Vec<QueuePlaybackOp> = Vec::new();
    if queue.len() == 0 {
        playback_ops.push(QueuePlaybackOp::ClearQueue);
    } else {
        playback_ops.push(QueuePlaybackOp::LoadQueue(clone_paths(queue)));
        if autoplay {
            playback_ops.push(QueuePlaybackOp::PlayAt(0));
            play_ops_vec(&mut playback_ops, playback_state);
        }
    }
    let o = QueueCommandOutcome { changed: true, playback_ops, error: None };
    assert(o.ops() =~= replace_ops(t, autoplay, playback_state));
    o
}

pub fn append_queue_command_outcome(queue: &mut Vec<String>, tracks: Vec<String>) -> (o:
    QueueCommandOutcome)
    ensures
        command_effect(
            BridgeQueueCommand::Append(tracks),
            old(queue)@,
            None,
            PlaybackState::Stopped,
            final(queue)@,
            None,
            o,
        ),
{
    if tracks.len() == 0 {
        return noop_outcome();
    }
    let ghost t = tracks@;
    let mut playback_ops: Vec<QueuePlaybackOp> = Vec::new();
    let mut added = clone_paths(&tracks);
    let was_empty = queue.len() == 0;
    queue.append(&mut added);
    if was_empty {
        playback_ops.push(QueuePlaybackOp::LoadQueue(clone_paths(queue)));
    } else {
        playback_ops.push(QueuePlaybackOp::AddToQueue(tracks));
    }
    let o = QueueCommandOutcome { changed: true, playback_ops, error: None };
    assert(queue@ =~= old(queue)@ + t);
    assert(o.ops() =~= (if old(queue)@.len() == 0 {
        seq![QueueOp::LoadQueue(old(queue)@ + t)]
    } else {
        seq![QueueOp::AddToQueue(t)]
    }));
    o
}

fn out_of_bounds_error(idx: usize) -> (s: String)
    ensures
        s@ == out_of_bounds_message(idx as nat),
{
    let mut v: Vec<char> = Vec::new();
    push_str(&mut v, "queue index ");
    push_decimal(&mut v, idx as u64);
    push_str(&mut v, " out of bounds");
    proof {
        reveal_strlit("queue index ");
        reveal_strlit(" out of bounds");
    }
    assert(v@ =~= out_of_bounds_message(idx as nat));
    string_from_chars(&v)
}

pub fn play_at_queue_command_outcome(
    idx: usize,
    queue_len: usize,
    selected_queue_index: &mut Option<usize>,
    playback_state: PlaybackState,
) -> (o: QueueCommandOutcome)
    ensures
        idx >= queue_len ==> {
            &&& *final(selected_queue_index) == *old(selected_queue_index)
            &&& !o.changed
            &&& o.playback_ops@.len() == 0
            &&& o.error matches Some(e) && e@ == out_of_bounds_message(idx as nat)
        },
        idx < queue_len ==> {
            &&& *final(selected_queue_index) == Some(idx)
            &&& o.changed
            &&& o.error is None
            &&& o.ops() == seq![QueueOp::PlayAt(idx as nat)] + play_ops(playback_state)
        },
{
    if idx >= queue_len {
        return QueueCommandOutcome {
            changed: false,
            playback_ops: Vec::new(),
            error: Some(out_of_bounds_error(idx)),
        };
    }
    let mut playback_ops: Vec<QueuePlaybackOp> = Vec::new();
    playback_ops.push(QueuePlaybackOp::PlayAt(idx));
    play_ops_vec(&mut playback_ops, playback_state);
    *selected_queue_index = Some(idx);
    let o = QueueCommandOutcome { changed: true, playback_ops, error: None };
    assert(o.ops() =~= seq![QueueOp::PlayAt(idx as nat)] + play_ops(playback_state));
    o
}

pub fn remove_queue_command_outcome(
    idx: usize,
    queue: &mut Vec<String>,
    selected_queue_index: &mut Option<usize>,
) -> (o: QueueCommandOutcome)
    ensures
        command_effect(
            BridgeQueueCommand::Remove(idx),
            old(queue)@,
            *old(selected_queue_index),
            PlaybackState::Stopped,
            final(queue)@,
            *final(selected_queue_index),
            o,
        ),
{
    if idx >= queue.len() {
        return noop_outcome();
    }
    queue.remove(idx);
    let mut playback_ops: Vec<QueuePlaybackOp> = Vec::new();
    if queue.len() == 0 {
        *selected_queue_index = None;
        playback_ops.push(QueuePlaybackOp::ClearQueue);
    } else {
        let last = queue.len() - 1;
        *selected_queue_index = match *selected_queue_index {
            None => None,
            Some(sel) => if sel == idx {
                Some(if sel <= last {
                    sel
                } else {
                    last
                })
            } else if sel > idx {
                Some(sel - 1)
            } else {
                Some(sel)
            },
        };
        playback_ops.push(QueuePlaybackOp::RemoveAt(idx));
    }
    let o = QueueCommandOutcome { changed: true, playback_ops, error: None };
    assert(o.ops() =~= (if queue@.len() == 0 {
        seq![QueueOp::ClearQueue]
    } else {
        seq![QueueOp::RemoveAt(idx as nat)]
    }));
    o
}

pub fn move_queue_command_outcome(
    from: usize,
    to: usize,
    queue: &mut Vec<String>,
    selected_queue_index: &mut Option<usize>,
) -> (o: QueueCommandOutcome)
    ensures
        command_effect(
            BridgeQueueCommand::Move { from, to },
            old(queue)@,
            *old(selected_queue_index),
            PlaybackState::Stopped,
            final(queue)@,
            *final(selected_queue_index),
            o,
        ),
{
    if from >= queue.len() || to >= queue.len() || from == to {
        return noop_outcome();
    }
    let item = queue.remove(from);
    queue.insert(to, item);
    *selected_queue_index = match *selected_queue_index {
        None => None,
        Some(sel) => Some(
            if sel == from {
                to
            } else if from < sel && to >= sel {
                sel - 1
            } else if from > sel && to <= sel {
                sel + 1
            } else {
                sel
            },
        ),
    };
    let mut playback_ops: Vec<QueuePlaybackOp> = Vec::new();
    playback_ops.push(QueuePlaybackOp::Move { from, to });
    let o = QueueCommandOutcome { changed: true, playback_ops, error: None };
    assert(o.ops() =~= seq![QueueOp::Move { from: from as nat, to: to as nat }]);
    o
}

/// Applies one queue command to the queue and selection.
pub fn apply_queue_command_state(
    cmd: BridgeQueueCommand,
    queue: &mut Vec<String>,
    selected_queue_index: &mut Option<usize>,
    playback_state: PlaybackState,
) -> (o: QueueCommandOutcome)
    ensures
        command_effect(
            cmd,
            old(queue)@,
            *old(selected_queue_index),
            playback_state,
            final(queue)@,
            *final(selected_queue_index),
            o,
        ),
        selection_valid(*old(selected_queue_index), old(queue)@.len()) ==> selection_valid(
            *final(selected_queue_index),
            final(queue)@.len(),
        ),
{
    let ghost c = cmd;
    let o = match cmd {
        BridgeQueueCommand::Replace { tracks, autoplay } => replace_queue_command_outcome(
            queue,
            selected_queue_index,
            tracks,
            autoplay,
            playback_state,
        ),
        BridgeQueueCommand::Append(tracks) => append_queue_command_outcome(queue, tracks),
        BridgeQueueCommand::PlayAt(idx) => {
            let len = queue.len();
            play_at_queue_command_outcome(idx, len, selected_queue_index, playback_state)
        },
        BridgeQueueCommand::Remove(idx) => remove_queue_command_outcome(
            idx,
            queue,
            selected_queue_index,
        ),
        BridgeQueueCommand::Move { from, to } => move_queue_command_outcome(
            from,
            to,
            queue,
            selected_queue_index,
        ),
        BridgeQueueCommand::Select(sel) => {
            let normalized = match sel {
                Some(i) => if i < queue.len() {
                    Some(i)
                } else {
                    None
                },
                None => None,
            };
            let changed = *selected_queue_index != normalized;
            *selected_queue_index = normalized;
            QueueCommandOutcome { changed, playback_ops: Vec::new(), error: None }
        },
        BridgeQueueCommand::Clear => {
            queue.clear();
            *selected_queue_index = None;
            let mut playback_ops: Vec<QueuePlaybackOp> = Vec::new();
            playback_ops.push(QueuePlaybackOp::ClearQueue);
            let o = QueueCommandOutcome { changed: true, playback_ops, error: None };
            assert(o.ops() =~= seq![QueueOp::ClearQueue]);
            o
        },
    };
    o
}

// ---------------------------------------------------------------------------
// Laws
// ---------------------------------------------------------------------------

/// Every queue command leaves the selection pointing at a row of the queue,
/// or at nothing, when it did so before.
pub proof fn law_commands_keep_selection_valid(
    cmd: BridgeQueueCommand,
    q0: Seq<String>,
    s0: Option<usize>,
    state: PlaybackState,
    q1: Seq<String>,
    s1: Option<usize>,
    o: QueueCommandOutcome,
)
    requires
        selection_valid(s0, q0.len()),
        command_effect(cmd, q0, s0, state, q1, s1, o),
    ensures
        selection_valid(s1, q1.len()),
{
}

/// Moving a row keeps the selection on the same track.
pub proof fn law_move_keeps_selected_track(q: Seq<String>, sel: usize, from: usize, to: usize)
    requires
        sel < q.len(),
        from < q.len(),
        to < q.len(),
        from != to,
    ensures
        selection_after_move(Some(sel), from as nat, to as nat) matches Some(s) && s < q.len()
            && moved(q, from as int, to as int)[s as int] == q[sel as int],
{
    let r = q.remove(from as int);
    let m = moved(q, from as int, to as int);
    assert(m == r.insert(to as int, q[from as int]));
}

/// Removing another row keeps the selection on the same track.
pub proof fn law_remove_keeps_selected_track(q: Seq<String>, sel: usize, idx: usize)
    requires
        sel < q.len(),
        idx < q.len(),
        idx != sel,
    ensures
        selection_after_remove(Some(sel), idx as nat, (q.len() - 1) as nat) matches Some(s) && s
            < q.len() - 1 && q.remove(idx as int)[s as int] == q[sel as int],
{
}

/// Moving a row only reorders the queue: the same tracks, as many times each.
pub proof fn law_move_is_permutation(q: Seq<String>, from: int, to: int)
    requires
        0 <= from < q.len(),
        0 <= to < q.len(),
    ensures
        moved(q, from, to).len() == q.len(),
        moved(q, from, to).to_multiset() == q.to_multiset(),
{
    broadcast use vstd::seq_lib::group_to_multiset_ensures;

    broadcast use vstd::multiset::group_multiset_axioms;

    let r = q.remove(from);
    vstd::seq_lib::to_multiset_remove(q, from);
    vstd::seq_lib::to_multiset_insert(r, to, q[from]);
    assert(q.to_multiset().count(q[from]) > 0) by {
        vstd::seq_lib::to_multiset_contains(q, q[from]);
    }
    assert(r.to_multiset().insert(q[from]) =~= q.to_multiset());
}

/// Moving a row back where it came from restores the queue and the
/// selection.
pub proof fn law_move_back_restores(q: Seq<String>, sel: Option<usize>, from: usize, to: usize)
    requires
        from < q.len(),
        to < q.len(),
        from != to,
        selection_valid(sel, q.len()),
    ensures
        moved(moved(q, from as int, to as int), to as int, from as int) == q,
        selection_after_move(selection_after_move(sel, from as nat, to as nat), to as nat, from as nat)
            == sel,
{
    let m = moved(q, from as int, to as int);
    assert(m[to as int] == q[from as int]);
    assert(moved(m, to as int, from as int) =~= q);
}

} // verus!
