//! Checking queued files in the background: which check is in flight,
//! which results still count, and which details a check may publish. The
//! worker thread, its channel and the file reads stay with the caller.
use vstd::prelude::*;

use crate::queue_details::TrackFileFingerprint;

verus! {

/// The generation of queue details a check was asked for, as the worker
/// sees it, and the check still awaited, if any.
#[derive(Debug, Clone, Copy, PartialEq, Eq, Structural)]
pub struct ValidationTracker {
    pub active_generation: u64,
    pub in_flight: Option<u64>,
}

/// A request for a check of `generation` (see `ValidationTracker::request`):
/// the tracker after it, and whether a check is handed on.
pub open spec fn after_request(t: ValidationTracker, generation: u64) -> (ValidationTracker, bool) {
    if t.in_flight == Some(generation) {
        (t, false)
    } else {
        (ValidationTracker { active_generation: generation, in_flight: Some(generation) }, true)
    }
}

impl ValidationTracker {
    /// A check in flight is one of the active generation.
    pub open spec fn wf(&self) -> bool {
        match self.in_flight {
            Some(g) => g == self.active_generation,
            None => true,
        }
    }

    /// No check asked for yet.
    pub fn new() -> (r: ValidationTracker)
        ensures
            r.active_generation == 0,
            r.in_flight is None,
            r.wf(),
    {
        ValidationTracker { active_generation: 0, in_flight: None }
    }

    /// Whether to hand the worker a check of the queue at `generation`:
    /// not while a check of that very generation is in flight. A check that
    /// is handed on makes `generation` the active one (so that older checks
    /// stop) and is in flight.
    pub fn request(&mut self, generation: u64) -> (send: bool)
        ensures
            (*final(self), send) == after_request(*old(self), generation),
    {
        match self.in_flight {
            Some(g) => {
                if g == generation {
                    return false;
                }
            },
            None => {},
        }
        self.active_generation = generation;
        self.in_flight = Some(generation);
        true
    }

    /// The worker could not be reached: no check is in flight.
    pub fn send_failed(&mut self)
        ensures
            *final(self) == (ValidationTracker { in_flight: None, ..*old(self) }),
    {
        self.in_flight = None;
    }

    /// A check's result arrived for `result_generation` while the queue is
    /// at `state_generation`: it is no longer in flight (if it was the
    /// awaited one), and it is taken only if the queue has not changed
    /// since.
    pub fn apply(&mut self, result_generation: u64, state_generation: u64) -> (take: bool)
        ensures
            take == (result_generation == state_generation),
            final(self).active_generation == old(self).active_generation,
            final(self).in_flight == (if old(self).in_flight == Some(result_generation) {
                None
            } else {
                old(self).in_flight
            }),
    {
        match self.in_flight {
            Some(g) => {
                if g == result_generation {
                    self.in_flight = None;
                }
            },
            None => {},
        }
        result_generation == state_generation
    }

    /// Whether the worker goes on with a check of `generation`: only while
    /// it is the active one.
    pub fn still_current(&self, generation: u64) -> (r: bool)
        ensures
            r == (generation == self.active_generation),
    {
        self.active_generation == generation
    }
}

/// Details read for a file are published only if the file still has the
/// fingerprint it was read at (files may change while they are read).
pub fn read_still_valid(requested: TrackFileFingerprint, now: Option<TrackFileFingerprint>) -> (r: bool)
    ensures
        r == (now == Some(requested)),
{
    match now {
        Some(f) => f == requested,
        None => false,
    }
}

/// Asking twice for a check of the same generation hands on one check;
/// once a newer generation was asked for, the worker stops an older check.
pub proof fn law_one_check_per_generation(t: ValidationTracker, g: u64, newer: u64)
    requires
        t.wf(),
    ensures
        !after_request(after_request(t, g).0, g).1,
        after_request(t, g).0.active_generation == g,
        newer != g ==> after_request(after_request(t, g).0, newer).1 && after_request(
            after_request(t, g).0,
            newer,
        ).0.active_generation != g,
{
}

} // verus!
