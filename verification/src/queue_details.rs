//! The details shown for queue entries that are not in the library: which
//! are kept, which are dropped, and which must be read from their files.
//!
//! Keeping them in step with the queue takes two passes around the caller's
//! file-system and cache work: the first decides, from what the caller
//! found out about each queue entry's file, which details go and which
//! files need reading; the second takes what the cache held for those files
//! and says which must be read by the detail worker.
use vstd::prelude::*;

use crate::path_map::{in_paths, pkey, PathMap};
use crate::text::{chars_eq, chars_of};

verus! {

/// When and how big a file was when its details were read.
#[derive(Debug, Clone, Copy, PartialEq, Eq, Structural)]
pub struct TrackFileFingerprint {
    pub mtime_ns: i64,
    pub size_bytes: i64,
}

/// Details read from a file; the duration is held as `f32` bits.
#[derive(Debug)]
pub struct IndexedTrack {
    pub title: String,
    pub artist: String,
    pub album: String,
    pub cover_path: String,
    pub genre: String,
    pub year: Option<i32>,
    pub track_no: Option<u32>,
    pub duration_bits: Option<u32>,
}

/// An `f32` with these bits is not a number.
pub open spec fn f32_bits_nan(b: u32) -> bool {
    (b / 0x80_0000) % 0x100 == 0xFF && b % 0x80_0000 != 0
}

/// Two `f32`s compare equal: neither is NaN, and their bits agree or both
/// are zeros.
pub open spec fn f32_bits_eq(a: u32, b: u32) -> bool {
    !f32_bits_nan(a) && !f32_bits_nan(b) && (a == b || (a % 0x8000_0000 == 0 && b % 0x8000_0000 == 0))
}

pub open spec fn opt_f32_eq(a: Option<u32>, b: Option<u32>) -> bool {
    match (a, b) {
        (None, None) => true,
        (Some(x), Some(y)) => f32_bits_eq(x, y),
        _ => false,
    }
}

/// Two sets of details are equal field by field (durations as numbers).
pub open spec fn indexed_eq(a: IndexedTrack, b: IndexedTrack) -> bool {
    &&& a.title@ == b.title@
    &&& a.artist@ == b.artist@
    &&& a.album@ == b.album@
    &&& a.cover_path@ == b.cover_path@
    &&& a.genre@ == b.genre@
    &&& a.year == b.year
    &&& a.track_no == b.track_no
    &&& opt_f32_eq(a.duration_bits, b.duration_bits)
}

fn f32_equal(a: u32, b: u32) -> (r: bool)
    ensures
        r == f32_bits_eq(a, b),
{
    let a_nan = (a / 0x80_0000) % 0x100 == 0xFF && a % 0x80_0000 != 0;
    let b_nan = (b / 0x80_0000) % 0x100 == 0xFF && b % 0x80_0000 != 0;
    !a_nan && !b_nan && (a == b || (a % 0x8000_0000 == 0 && b % 0x8000_0000 == 0))
}

/// Whether two sets of details are equal (see `indexed_eq`).
pub fn indexed_equal(a: &IndexedTrack, b: &IndexedTrack) -> (r: bool)
    ensures
        r == indexed_eq(*a, *b),
{
    let d = match (a.duration_bits, b.duration_bits) {
        (None, None) => true,
        (Some(x), Some(y)) => f32_equal(x, y),
        _ => false,
    };
    chars_eq(&chars_of(a.title.as_str()), &chars_of(b.title.as_str())) && chars_eq(
        &chars_of(a.artist.as_str()),
        &chars_of(b.artist.as_str()),
    ) && chars_eq(&chars_of(a.album.as_str()), &chars_of(b.album.as_str())) && chars_eq(
        &chars_of(a.cover_path.as_str()),
        &chars_of(b.cover_path.as_str()),
    ) && chars_eq(&chars_of(a.genre.as_str()), &chars_of(b.genre.as_str())) && a.year == b.year && a.track_no
        == b.track_no && d
}

/// A copy of a set of details.
pub fn copy_indexed(t: &IndexedTrack) -> (r: IndexedTrack)
    ensures
        r == *t,
{
    IndexedTrack {
        title: t.title.clone(),
        artist: t.artist.clone(),
        album: t.album.clone(),
        cover_path: t.cover_path.clone(),
        genre: t.genre.clone(),
        year: t.year,
        track_no: t.track_no,
        duration_bits: t.duration_bits,
    }
}

/// The details of queue entries outside the library, the fingerprints they
/// were read at, and the fingerprints of reads still pending.
pub struct QueueDetailState {
    pub details: PathMap<IndexedTrack>,
    pub fingerprints: PathMap<TrackFileFingerprint>,
    pub pending: PathMap<TrackFileFingerprint>,
}

/// The three maps, and what a sync has found so far.
pub struct SyncView {
    pub details: Map<Seq<Seq<char>>, IndexedTrack>,
    pub fingerprints: Map<Seq<Seq<char>>, TrackFileFingerprint>,
    pub pending: Map<Seq<Seq<char>>, TrackFileFingerprint>,
    pub changed: bool,
    pub requests: Seq<(Seq<char>, TrackFileFingerprint)>,
}

impl QueueDetailState {
    pub open spec fn wf(&self) -> bool {
        self.details.wf() && self.fingerprints.wf() && self.pending.wf()
    }

    pub open spec fn sync_view(&self, changed: bool, requests: Seq<(Seq<char>, TrackFileFingerprint)>) -> SyncView {
        SyncView {
            details: self.details.map(),
            fingerprints: self.fingerprints.map(),
            pending: self.pending.map(),
            changed,
            requests,
        }
    }

    pub fn new() -> (r: Self)
        ensures
            r.wf(),
            r.details.map() == Map::<Seq<Seq<char>>, IndexedTrack>::empty(),
            r.fingerprints.map() == Map::<Seq<Seq<char>>, TrackFileFingerprint>::empty(),
            r.pending.map() == Map::<Seq<Seq<char>>, TrackFileFingerprint>::empty(),
    {
        QueueDetailState { details: PathMap::new(), fingerprints: PathMap::new(), pending: PathMap::new() }
    }
}

/// Forgetting everything about the place `k`; `changed` notes whether it
/// had details.
pub open spec fn drop_entry(s: SyncView, k: Seq<Seq<char>>) -> SyncView {
    SyncView {
        details: s.details.remove(k),
        fingerprints: s.fingerprints.remove(k),
        pending: s.pending.remove(k),
        changed: s.changed || s.details.dom().contains(k),
        ..s
    }
}

/// One queue entry's effect: an entry in the library, or whose file is not
/// a readable audio file, loses its details; one with details read at its
/// current fingerprint keeps them; otherwise stale details go, and a read
/// is requested unless one is pending for that fingerprint.
pub open spec fn sync_step(s: SyncView, q: Seq<char>, in_library: bool, probe: Option<TrackFileFingerprint>) -> SyncView {
    let k = pkey(q);
    if in_library || probe is None {
        drop_entry(s, k)
    } else {
        let fp = probe.unwrap();
        let cached = if s.fingerprints.dom().contains(k) {
            Some(s.fingerprints[k])
        } else {
            None
        };
        if cached == Some(fp) && s.details.dom().contains(k) {
            s
        } else {
            let s1 = if cached is Some && cached != Some(fp) {
                SyncView {
                    details: s.details.remove(k),
                    fingerprints: s.fingerprints.remove(k),
                    changed: s.changed || s.details.dom().contains(k),
                    ..s
                }
            } else {
                s
            };
            if s1.pending.dom().contains(k) && s1.pending[k] == fp {
                s1
            } else {
                SyncView { requests: s1.requests.push((q, fp)), ..s1 }
            }
        }
    }
}

/// Only the places in the queue keep anything.
pub open spec fn keep_queued(s: SyncView, queue: Seq<String>) -> SyncView {
    let keep = |k: Seq<Seq<char>>| in_paths(queue, k);
    SyncView {
        details: s.details.restrict(s.details.dom().filter(keep)),
        fingerprints: s.fingerprints.restrict(s.fingerprints.dom().filter(keep)),
        pending: s.pending.restrict(s.pending.dom().filter(keep)),
        changed: s.changed || s.details.restrict(s.details.dom().filter(keep)).dom() != s.details.dom(),
        ..s
    }
}

/// The first pass over the first `n` queue entries.
pub open spec fn sync_upto(
    s0: SyncView,
    queue: Seq<String>,
    library_paths: Seq<String>,
    probes: Seq<Option<TrackFileFingerprint>>,
    n: int,
) -> SyncView
    decreases n,
{
    if n <= 0 {
        keep_queued(s0, queue)
    } else {
        sync_step(
            sync_upto(s0, queue, library_paths, probes, n - 1),
            queue[n - 1]@,
            in_paths(library_paths, pkey(queue[n - 1]@)),
            probes[n - 1],
        )
    }
}

fn contains_path(paths: &Vec<String>, p: &String) -> (r: bool)
    ensures
        r == in_paths(paths@, pkey(p@)),
{
    let mut m: PathMap<bool> = PathMap::new();
    m.insert(p.clone(), true);
    let mut i: usize = 0;
    while i < paths.len()
        invariant
            i <= paths@.len(),
            m.wf(),
            m.map() == Map::<Seq<Seq<char>>, bool>::empty().insert(pkey(p@), true),
            forall|j: int| 0 <= j < i ==> pkey(#[trigger] paths@[j]@) != pkey(p@),
        decreases paths@.len() - i,
    {
        if m.contains(paths[i].as_str()) {
            assert(pkey(paths@[i as int]@) == pkey(p@));
            return true;
        }
        i += 1;
    }
    false
}

/// What arriving details do: unless a read at their fingerprint is pending
/// for the place, nothing. Otherwise it is no longer pending; if the place
/// left the queue, is in the library, or its file is no longer a readable
/// audio file at that fingerprint, the place loses its details (`changed`
/// if it had any); else the fingerprint is noted and the details are taken
/// if they differ from those held (`changed`).
pub open spec fn arrival(
    s: SyncView,
    k: Seq<Seq<char>>,
    fp: TrackFileFingerprint,
    indexed: IndexedTrack,
    in_queue: bool,
    in_library: bool,
    probe: Option<TrackFileFingerprint>,
) -> SyncView {
    if !(s.pending.dom().contains(k) && s.pending[k] == fp) {
        s
    } else {
        let s1 = SyncView { pending: s.pending.remove(k), ..s };
        if !in_queue || in_library || probe != Some(fp) {
            SyncView {
                details: s1.details.remove(k),
                fingerprints: s1.fingerprints.remove(k),
                changed: s1.details.dom().contains(k),
                ..s1
            }
        } else {
            let s2 = SyncView { fingerprints: s1.fingerprints.insert(k, fp), ..s1 };
            if !s2.details.dom().contains(k) || !indexed_eq(s2.details[k], indexed) {
                SyncView { details: s2.details.insert(k, indexed), changed: true, ..s2 }
            } else {
                s2
            }
        }
    }
}

/// Fresh details for the place `k` after new album art: if the place has
/// details, they take the fresh cover, and the place takes the fingerprint
/// found for its file, if one was.
pub open spec fn cover_step(
    s: SyncView,
    k: Seq<Seq<char>>,
    fresh: IndexedTrack,
    probe: Option<TrackFileFingerprint>,
) -> SyncView {
    if !s.details.dom().contains(k) {
        s
    } else {
        let d = s.details[k];
        SyncView {
            details: if d.cover_path@ != fresh.cover_path@ {
                s.details.insert(k, IndexedTrack { cover_path: fresh.cover_path, ..d })
            } else {
                s.details
            },
            fingerprints: match probe {
                Some(f) => s.fingerprints.insert(k, f),
                None => s.fingerprints,
            },
            ..s
        }
    }
}

/// The first `n` sets of fresh details, in order.
pub open spec fn covers_upto(
    s0: SyncView,
    fresh: Seq<(String, IndexedTrack)>,
    probes: Seq<Option<TrackFileFingerprint>>,
    n: int,
) -> SyncView
    decreases n,
{
    if n <= 0 {
        s0
    } else {
        cover_step(covers_upto(s0, fresh, probes, n - 1), pkey(fresh[n - 1].0@), fresh[n - 1].1, probes[n - 1])
    }
}

impl QueueDetailState {
    fn drop_path(&mut self, path: &str, changed: &mut bool)
        requires
            old(self).wf(),
        ensures
            final(self).wf(),
            final(self).sync_view(*final(changed), Seq::empty()) == drop_entry(
                old(self).sync_view(*old(changed), Seq::empty()),
                pkey(path@),
            ),
    {
        let had = self.details.remove(path);
        self.fingerprints.remove(path);
        self.pending.remove(path);
        *changed = *changed || had;
    }

    /// The first pass: keeps what the queue still holds, drops the details
    /// of entries in the library (`library_paths`) or whose files are not
    /// readable audio (`probes[i]` is none: what the caller found of the
    /// `i`-th entry's file), drops details read at another fingerprint, and
    /// lists the reads to ask for (see `sync_step`). Says whether any
    /// details went.
    pub fn begin_sync(
        &mut self,
        queue: &Vec<String>,
        library_paths: &Vec<String>,
        probes: &Vec<Option<TrackFileFingerprint>>,
    ) -> (r: (bool, Vec<(String, TrackFileFingerprint)>))
        requires
            old(self).wf(),
            probes@.len() == queue@.len(),
        ensures
            final(self).wf(),
            final(self).sync_view(r.0, r.1@.map_values(|p: (String, TrackFileFingerprint)| (p.0@, p.1)))
                == sync_upto(old(self).sync_view(false, Seq::empty()), queue@, library_paths@, probes@, queue@.len() as int),
    {
        let mut changed = self.details.retain_paths(queue);
        self.fingerprints.retain_paths(queue);
        self.pending.retain_paths(queue);
        let mut requests: Vec<(String, TrackFileFingerprint)> = Vec::new();
        let ghost s0 = old(self).sync_view(false, Seq::empty());
        let mut i: usize = 0;
        assert(self.sync_view(changed, Seq::empty()) == keep_queued(s0, queue@));
        assert(requests@.map_values(|p: (String, TrackFileFingerprint)| (p.0@, p.1)) =~= Seq::<(Seq<char>, TrackFileFingerprint)>::empty());
        while i < queue.len()
            invariant
                i <= queue@.len(),
                probes@.len() == queue@.len(),
                self.wf(),
                self.sync_view(changed, requests@.map_values(|p: (String, TrackFileFingerprint)| (p.0@, p.1)))
                    == sync_upto(s0, queue@, library_paths@, probes@, i as int),
            decreases queue@.len() - i,
        {
            let q = &queue[i];
            let ghost rv = requests@.map_values(|p: (String, TrackFileFingerprint)| (p.0@, p.1));
            let ghost before = self.sync_view(changed, rv);
            let in_library = contains_path(library_paths, q);
            if in_library || probes[i].is_none() {
                self.drop_path(q.as_str(), &mut changed);
                assert(self.sync_view(changed, rv) == sync_step(before, q@, in_library, probes@[i as int]));
            } else {
                let fp = probes[i].unwrap();
                let cached: Option<TrackFileFingerprint> = match self.fingerprints.get(q.as_str()) {
                    Some(f) => Some(*f),
                    None => None,
                };
                let has_details = self.details.contains(q.as_str());
                if cached == Some(fp) && has_details {
                    assert(self.sync_view(changed, rv) == sync_step(before, q@, in_library, probes@[i as int]));
                } else {
                    if cached.is_some() && cached != Some(fp) {
                        let had = self.details.remove(q.as_str());
                        self.fingerprints.remove(q.as_str());
                        changed = changed || had;
                    }
                    let pending_same = match self.pending.get(q.as_str()) {
                        Some(f) => *f == fp,
                        None => false,
                    };
                    if !pending_same {
                        requests.push((q.clone(), fp));
                        assert(requests@.map_values(|p: (String, TrackFileFingerprint)| (p.0@, p.1)) =~= rv.push((q@, fp)));
                    }
                    assert(self.sync_view(changed, requests@.map_values(|p: (String, TrackFileFingerprint)| (p.0@, p.1)))
                        == sync_step(before, q@, in_library, probes@[i as int]));
                }
            }
            i += 1;
        }
        (changed, requests)
    }
}

/// The second pass, for one requested read: details the cache held are
/// taken (when they differ), with their fingerprint, and nothing stays
/// pending; otherwise the read becomes pending and is to be sent.
pub open spec fn finish_step(
    s: SyncView,
    req: (Seq<char>, TrackFileFingerprint),
    cached: Option<IndexedTrack>,
) -> SyncView {
    let k = pkey(req.0);
    match cached {
        Some(t) => {
            let needs = !(s.details.dom().contains(k) && indexed_eq(s.details[k], t));
            SyncView {
                details: if needs {
                    s.details.insert(k, t)
                } else {
                    s.details
                },
                fingerprints: s.fingerprints.insert(k, req.1),
                pending: s.pending.remove(k),
                changed: s.changed || needs,
                ..s
            }
        },
        None => SyncView { pending: s.pending.insert(k, req.1), requests: s.requests.push(req), ..s },
    }
}

/// The second pass over the first `n` requests.
pub open spec fn finish_upto(
    s0: SyncView,
    reqs: Seq<(Seq<char>, TrackFileFingerprint)>,
    cached: Seq<Option<IndexedTrack>>,
    n: int,
) -> SyncView
    decreases n,
{
    if n <= 0 {
        s0
    } else {
        finish_step(finish_upto(s0, reqs, cached, n - 1), reqs[n - 1], cached[n - 1])
    }
}

/// One set of details for one file, as the library index reports them.
pub open spec fn update_step(
    s: SyncView,
    path: Seq<char>,
    t: IndexedTrack,
    in_library: bool,
    probe: Option<TrackFileFingerprint>,
) -> SyncView {
    let k = pkey(path);
    if in_library {
        drop_entry(s, k)
    } else {
        let needs = !(s.details.dom().contains(k) && indexed_eq(s.details[k], t));
        SyncView {
            details: if needs {
                s.details.insert(k, t)
            } else {
                s.details
            },
            fingerprints: match probe {
                Some(fp) => s.fingerprints.insert(k, fp),
                None => s.fingerprints,
            },
            pending: s.pending.remove(k),
            changed: s.changed || needs,
            ..s
        }
    }
}

/// Fresh details for the first `n` files.
pub open spec fn update_upto(
    s0: SyncView,
    indexed: Seq<(String, IndexedTrack)>,
    library_paths: Seq<String>,
    probes: Seq<Option<TrackFileFingerprint>>,
    n: int,
) -> SyncView
    decreases n,
{
    if n <= 0 {
        s0
    } else {
        update_step(
            update_upto(s0, indexed, library_paths, probes, n - 1),
            indexed[n - 1].0@,
            indexed[n - 1].1,
            in_paths(library_paths, pkey(indexed[n - 1].0@)),
            probes[n - 1],
        )
    }
}

impl QueueDetailState {
    /// The second pass: `cached[i]` is what the cache held for the `i`-th
    /// request of the first pass (see `finish_step`). Says whether details
    /// changed, and which reads to send to the detail worker.
    pub fn finish_sync(
        &mut self,
        requests: &Vec<(String, TrackFileFingerprint)>,
        cached: &Vec<Option<IndexedTrack>>,
    ) -> (r: (bool, Vec<(String, TrackFileFingerprint)>))
        requires
            old(self).wf(),
            cached@.len() == requests@.len(),
        ensures
            final(self).wf(),
            final(self).sync_view(r.0, r.1@.map_values(|p: (String, TrackFileFingerprint)| (p.0@, p.1)))
                == finish_upto(
                old(self).sync_view(false, Seq::empty()),
                requests@.map_values(|p: (String, TrackFileFingerprint)| (p.0@, p.1)),
                cached@,
                requests@.len() as int,
            ),
    {
        let ghost s0 = old(self).sync_view(false, Seq::empty());
        let ghost rq = requests@.map_values(|p: (String, TrackFileFingerprint)| (p.0@, p.1));
        let mut changed = false;
        let mut to_send: Vec<(String, TrackFileFingerprint)> = Vec::new();
        let mut i: usize = 0;
        assert(to_send@.map_values(|p: (String, TrackFileFingerprint)| (p.0@, p.1)) =~= Seq::<(Seq<char>, TrackFileFingerprint)>::empty());
        while i < requests.len()
            invariant
                i <= requests@.len(),
                cached@.len() == requests@.len(),
                rq == requests@.map_values(|p: (String, TrackFileFingerprint)| (p.0@, p.1)),
                self.wf(),
                self.sync_view(changed, to_send@.map_values(|p: (String, TrackFileFingerprint)| (p.0@, p.1)))
                    == finish_upto(s0, rq, cached@, i as int),
            decreases requests@.len() - i,
        {
            let (path, fp) = (&requests[i].0, requests[i].1);
            assert(rq[i as int] == (path@, fp));
            let ghost tv = to_send@.map_values(|p: (String, TrackFileFingerprint)| (p.0@, p.1));
            let ghost before = self.sync_view(changed, tv);
            match &cached[i] {
                Some(t) => {
                    let needs = match self.details.get(path.as_str()) {
                        Some(existing) => !indexed_equal(existing, t),
                        None => true,
                    };
                    self.fingerprints.insert(path.clone(), fp);
                    self.pending.remove(path.as_str());
                    if needs {
                        self.details.insert(path.clone(), copy_indexed(t));
                        changed = true;
                    }
                },
                None => {
                    self.pending.insert(path.clone(), fp);
                    to_send.push((path.clone(), fp));
                    assert(to_send@.map_values(|p: (String, TrackFileFingerprint)| (p.0@, p.1)) =~= tv.push((path@, fp)));
                },
            }
            assert(self.sync_view(changed, to_send@.map_values(|p: (String, TrackFileFingerprint)| (p.0@, p.1)))
                == finish_step(before, rq[i as int], cached@[i as int]));
            i += 1;
        }
        (changed, to_send)
    }

    /// Details read for a queued file arrive (`probe` is what the caller
    /// now finds of the file: its fingerprint if it is a supported audio
    /// file). They count only if a read at that fingerprint is pending (see
    /// `arrival`). Says whether the details changed.
    pub fn external_details_arrived(
        &mut self,
        path: String,
        fingerprint: TrackFileFingerprint,
        indexed: IndexedTrack,
        queue: &Vec<String>,
        library_paths: &Vec<String>,
        probe: Option<TrackFileFingerprint>,
    ) -> (changed: bool)
        requires
            old(self).wf(),
        ensures
            final(self).wf(),
            final(self).sync_view(changed, Seq::empty()) == arrival(
                old(self).sync_view(false, Seq::empty()),
                pkey(path@),
                fingerprint,
                indexed,
                in_paths(queue@, pkey(path@)),
                in_paths(library_paths@, pkey(path@)),
                probe,
            ),
    {
        match self.pending.get(path.as_str()) {
            Some(p) => {
                if *p != fingerprint {
                    return false;
                }
            },
            None => {
                return false;
            },
        }
        self.pending.remove(path.as_str());
        let probe_matches = match probe {
            Some(f) => f == fingerprint,
            None => false,
        };
        if !contains_path(queue, &path) || contains_path(library_paths, &path) || !probe_matches {
            let removed = self.details.remove(path.as_str());
            self.fingerprints.remove(path.as_str());
            return removed;
        }
        self.fingerprints.insert(path.clone(), fingerprint);
        let needs_update = match self.details.get(path.as_str()) {
            Some(existing) => !indexed_equal(existing, &indexed),
            None => true,
        };
        if needs_update {
            self.details.insert(path, indexed);
            true
        } else {
            false
        }
    }

    /// New album art was applied: each queue entry with details takes the
    /// cover of the fresh details for its file, and the fingerprint the
    /// caller found for that file (`probes[i]` for the `i`-th entry of
    /// `indexed_by_path`), if any (see `cover_step`).
    pub fn update_queue_cover_paths(
        &mut self,
        indexed_by_path: &PathMap<IndexedTrack>,
        probes: &Vec<Option<TrackFileFingerprint>>,
    )
        requires
            old(self).wf(),
            probes@.len() == indexed_by_path.entries@.len(),
        ensures
            final(self).wf(),
            final(self).sync_view(false, Seq::empty()) == covers_upto(
                old(self).sync_view(false, Seq::empty()),
                indexed_by_path.entries@,
                probes@,
                probes@.len() as int,
            ),
    {
        let mut i: usize = 0;
        while i < probes.len()
            invariant
                i <= probes@.len(),
                probes@.len() == indexed_by_path.entries@.len(),
                self.wf(),
                self.sync_view(false, Seq::empty()) == covers_upto(
                    old(self).sync_view(false, Seq::empty()),
                    indexed_by_path.entries@,
                    probes@,
                    i as int,
                ),
            decreases probes@.len() - i,
        {
            let path = &indexed_by_path.entries[i].0;
            let fresh = &indexed_by_path.entries[i].1;
            let replacement: Option<Option<IndexedTrack>> = match self.details.get(path.as_str()) {
                Some(d) => {
                    if !chars_eq(&chars_of(d.cover_path.as_str()), &chars_of(fresh.cover_path.as_str())) {
                        let mut nd = copy_indexed(d);
                        nd.cover_path = fresh.cover_path.clone();
                        Some(Some(nd))
                    } else {
                        Some(None)
                    }
                },
                None => None,
            };
            match replacement {
                Some(r) => {
                    match r {
                        Some(nd) => {
                            self.details.insert(path.clone(), nd);
                        },
                        None => {},
                    }
                    match probes[i] {
                        Some(f) => {
                            self.fingerprints.insert(path.clone(), f);
                        },
                        None => {},
                    }
                },
                None => {},
            }
            i += 1;
        }
    }

    /// A read that could not be sent is no longer pending.
    pub fn forget_pending(&mut self, path: &str)
        requires
            old(self).wf(),
        ensures
            final(self).wf(),
            final(self).details.map() == old(self).details.map(),
            final(self).fingerprints.map() == old(self).fingerprints.map(),
            final(self).pending.map() == old(self).pending.map().remove(pkey(path@)),
    {
        self.pending.remove(path);
    }

    /// Takes fresh details for files (`probes[i]` is the fingerprint the
    /// caller read for the `i`-th file, if any): files in the library lose
    /// everything; others take the details (when they differ) and the
    /// fingerprint, and nothing stays pending (see `update_step`). Says
    /// whether details changed.
    pub fn update_queue_track_details(
        &mut self,
        library_paths: &Vec<String>,
        indexed: &Vec<(String, IndexedTrack)>,
        probes: &Vec<Option<TrackFileFingerprint>>,
    ) -> (r: bool)
        requires
            old(self).wf(),
            probes@.len() == indexed@.len(),
        ensures
            final(self).wf(),
            final(self).sync_view(r, Seq::empty()) == update_upto(
                old(self).sync_view(false, Seq::empty()),
                indexed@,
                library_paths@,
                probes@,
                indexed@.len() as int,
            ),
    {
        let ghost s0 = old(self).sync_view(false, Seq::empty());
        let mut changed = false;
        let mut i: usize = 0;
        while i < indexed.len()
            invariant
                i <= indexed@.len(),
                probes@.len() == indexed@.len(),
                self.wf(),
                self.sync_view(changed, Seq::empty()) == update_upto(s0, indexed@, library_paths@, probes@, i as int),
            decreases indexed@.len() - i,
        {
            let (path, t) = (&indexed[i].0, &indexed[i].1);
            let ghost before = self.sync_view(changed, Seq::empty());
            let in_library = contains_path(library_paths, path);
            if in_library {
                self.drop_path(path.as_str(), &mut changed);
            } else {
                let needs = match self.details.get(path.as_str()) {
                    Some(existing) => !indexed_equal(existing, t),
                    None => true,
                };
                if needs {
                    self.details.insert(path.clone(), copy_indexed(t));
                    changed = true;
                }
                match probes[i] {
                    Some(fp) => self.fingerprints.insert(path.clone(), fp),
                    None => {},
                }
                self.pending.remove(path.as_str());
            }
            assert(self.sync_view(changed, Seq::empty()) == update_step(before, path@, *t, in_library, probes@[i as int]));
            i += 1;
        }
        changed
    }
}

/// A path after the renames: the new path when the rename names another
/// place, else the path as it was.
pub open spec fn renamed_path(p: String, renames: Map<Seq<Seq<char>>, String>) -> String {
    if renames.dom().contains(pkey(p@)) && pkey(p@) != pkey(renames[pkey(p@)]@) {
        renames[pkey(p@)]
    } else {
        p
    }
}

pub open spec fn path_renamed(p: String, renames: Map<Seq<Seq<char>>, String>) -> bool {
    renames.dom().contains(pkey(p@)) && pkey(p@) != pkey(renames[pkey(p@)]@)
}

/// One rename's effect on the details: details move to the new path (with
/// the new path's fresh details when there are some) unless the new path is
/// in the library; fingerprints and pending reads move along.
pub open spec fn rename_step(
    s: SyncView,
    old_path: Seq<char>,
    new_path: Seq<char>,
    in_library: bool,
    idx: Map<Seq<Seq<char>>, IndexedTrack>,
) -> SyncView {
    let ko = pkey(old_path);
    let kn = pkey(new_path);
    let d1 = if s.details.dom().contains(ko) {
        if in_library {
            s.details.remove(ko)
        } else {
            s.details.remove(ko).insert(
                kn,
                if idx.dom().contains(kn) {
                    idx[kn]
                } else {
                    s.details[ko]
                },
            )
        }
    } else {
        s.details
    };
    SyncView {
        details: d1,
        fingerprints: if s.fingerprints.dom().contains(ko) {
            s.fingerprints.remove(ko).insert(kn, s.fingerprints[ko])
        } else {
            s.fingerprints
        },
        pending: if s.pending.dom().contains(ko) {
            s.pending.remove(ko).insert(kn, s.pending[ko])
        } else {
            s.pending
        },
        changed: s.changed || s.details.dom().contains(ko),
        ..s
    }
}

/// The renames of the first `n` pairs, in order.
pub open spec fn rename_upto(
    s0: SyncView,
    pairs: Seq<(String, String)>,
    library_paths: Seq<String>,
    idx: Map<Seq<Seq<char>>, IndexedTrack>,
    n: int,
) -> SyncView
    decreases n,
{
    if n <= 0 {
        s0
    } else {
        rename_step(
            rename_upto(s0, pairs, library_paths, idx, n - 1),
            pairs[n - 1].0@,
            pairs[n - 1].1@,
            in_paths(library_paths, pkey(pairs[n - 1].1@)),
            idx,
        )
    }
}

impl QueueDetailState {
    fn move_entry(&mut self, old_path: &str, new_path: &String, in_library: bool, idx: &PathMap<IndexedTrack>, changed: &mut bool)
        requires
            old(self).wf(),
            idx.wf(),
        ensures
            final(self).wf(),
            final(self).sync_view(*final(changed), Seq::empty()) == rename_step(
                old(self).sync_view(*old(changed), Seq::empty()),
                old_path@,
                new_path@,
                in_library,
                idx.map(),
            ),
    {
        let moved: Option<IndexedTrack> = match self.details.get(old_path) {
            Some(d) => Some(copy_indexed(d)),
            None => None,
        };
        match moved {
            Some(d) => {
                self.details.remove(old_path);
                if !in_library {
                    let value = match idx.get(new_path.as_str()) {
                        Some(fresh) => copy_indexed(fresh),
                        None => d,
                    };
                    self.details.insert(new_path.clone(), value);
                }
                *changed = true;
            },
            None => {},
        }
        let fp: Option<TrackFileFingerprint> = match self.fingerprints.get(old_path) {
            Some(f) => Some(*f),
            None => None,
        };
        match fp {
            Some(f) => {
                self.fingerprints.remove(old_path);
                self.fingerprints.insert(new_path.clone(), f);
            },
            None => {},
        }
        let pf: Option<TrackFileFingerprint> = match self.pending.get(old_path) {
            Some(f) => Some(*f),
            None => None,
        };
        match pf {
            Some(f) => {
                self.pending.remove(old_path);
                self.pending.insert(new_path.clone(), f);
            },
            None => {},
        }
    }
}

/// Applies renames (`pairs`, in order; `renames` maps each old path to its
/// new one) to the queue, the current track and the queue details. Says
/// whether anything changed, and whether the current track was renamed
/// (its metadata must then be read again).
pub fn apply_renamed_queue_paths(
    queue: &mut Vec<String>,
    current: &mut Option<String>,
    state: &mut QueueDetailState,
    pairs: &Vec<(String, String)>,
    renames: &PathMap<String>,
    library_paths: &Vec<String>,
    indexed_by_path: &PathMap<IndexedTrack>,
) -> (r: (bool, bool))
    requires
        old(state).wf(),
        renames.wf(),
        indexed_by_path.wf(),
    ensures
        final(state).wf(),
        final(queue)@ == old(queue)@.map_values(|p: String| renamed_path(p, renames.map())),
        r.1 == match *old(current) {
            Some(c) => path_renamed(c, renames.map()),
            None => false,
        },
        *final(current) == match *old(current) {
            Some(c) => Some(renamed_path(c, renames.map())),
            None => None,
        },
        ({
            let s = rename_upto(
                old(state).sync_view(false, Seq::empty()),
                pairs@,
                library_paths@,
                indexed_by_path.map(),
                pairs@.len() as int,
            );
            &&& final(state).details.map() == s.details
            &&& final(state).fingerprints.map() == s.fingerprints
            &&& final(state).pending.map() == s.pending
            &&& r.0 == (s.changed || r.1 || exists|k: int|
                0 <= k < old(queue)@.len() && path_renamed(#[trigger] old(queue)@[k], renames.map()))
        }),
{
    let ghost rn = renames.map();
    let ghost orig = queue@;
    let mut queue_changed = false;
    let mut i: usize = 0;
    while i < queue.len()
        invariant
            i <= queue@.len(),
            queue@.len() == orig.len(),
            rn == renames.map(),
            renames.wf(),
            forall|j: int| 0 <= j < i ==> #[trigger] queue@[j] == renamed_path(orig[j], rn),
            forall|j: int| i <= j < orig.len() ==> #[trigger] queue@[j] == orig[j],
            queue_changed == exists|k: int| 0 <= k < i && path_renamed(#[trigger] orig[k], rn),
        decreases queue@.len() - i,
    {
        let np: Option<String> = match renames.get(queue[i].as_str()) {
            Some(np) => if !crate::path_map::same_place(queue[i].as_str(), np.as_str()) {
                Some(np.clone())
            } else {
                None
            },
            None => None,
        };
        match np {
            Some(n) => {
                queue.set(i, n);
                queue_changed = true;
            },
            None => {},
        }
        assert(queue@[i as int] == renamed_path(orig[i as int], rn));
        i += 1;
    }
    assert(queue@ =~= orig.map_values(|p: String| renamed_path(p, rn)));
    let mut current_renamed = false;
    let next_current: Option<String> = match current {
        Some(c) => match renames.get(c.as_str()) {
            Some(np) => if !crate::path_map::same_place(c.as_str(), np.as_str()) {
                current_renamed = true;
                Some(np.clone())
            } else {
                Some(c.clone())
            },
            None => Some(c.clone()),
        },
        None => None,
    };
    *current = next_current;
    let ghost s0 = old(state).sync_view(false, Seq::empty());
    let mut details_changed = false;
    let mut k: usize = 0;
    while k < pairs.len()
        invariant
            k <= pairs@.len(),
            state.wf(),
            indexed_by_path.wf(),
            state.sync_view(details_changed, Seq::empty()) == rename_upto(
                s0,
                pairs@,
                library_paths@,
                indexed_by_path.map(),
                k as int,
            ),
        decreases pairs@.len() - k,
    {
        let in_library = contains_path(library_paths, &pairs[k].1);
        state.move_entry(pairs[k].0.as_str(), &pairs[k].1, in_library, indexed_by_path, &mut details_changed);
        k += 1;
    }
    (details_changed || current_renamed || queue_changed, current_renamed)
}

/// What the first `n` queue entries have left standing: every place that
/// still has details is in the queue, and no visited entry naming it lies
/// in the library.
pub open spec fn sync_details_ok(
    s: SyncView,
    queue: Seq<String>,
    library_paths: Seq<String>,
    n: int,
) -> bool {
    forall|k: Seq<Seq<char>>|
        #[trigger] s.details.dom().contains(k) ==> in_paths(queue, k) && (forall|j: int|
            0 <= j < n && pkey(#[trigger] queue[j]@) == k ==> !in_paths(library_paths, k))
}

proof fn lemma_sync_details(
    s0: SyncView,
    queue: Seq<String>,
    library_paths: Seq<String>,
    probes: Seq<Option<TrackFileFingerprint>>,
    n: int,
)
    requires
        0 <= n <= queue.len(),
    ensures
        sync_details_ok(sync_upto(s0, queue, library_paths, probes, n), queue, library_paths, n),
    decreases n,
{
    if n > 0 {
        lemma_sync_details(s0, queue, library_paths, probes, n - 1);
        let prev = sync_upto(s0, queue, library_paths, probes, n - 1);
        let cur = sync_upto(s0, queue, library_paths, probes, n);
        let q = queue[n - 1]@;
        assert(cur.details.dom().subset_of(prev.details.dom()));
        assert forall|k: Seq<Seq<char>>| #[trigger] cur.details.dom().contains(k) implies in_paths(queue, k) && (forall|
            j: int,
        | 0 <= j < n && pkey(#[trigger] queue[j]@) == k ==> !in_paths(library_paths, k)) by {
            assert(prev.details.dom().contains(k));
            assert forall|j: int| 0 <= j < n && pkey(#[trigger] queue[j]@) == k implies !in_paths(library_paths, k) by {
                if j == n - 1 {
                    if in_paths(library_paths, pkey(q)) {
                        assert(!cur.details.dom().contains(pkey(q)));
                    }
                }
            }
        }
    }
}

/// After the first pass, details stand only for places that the queue
/// names and that are not in the library: entries that left the queue and
/// library tracks keep none.
pub proof fn law_sync_keeps_only_queued_external_details(
    s0: SyncView,
    queue: Seq<String>,
    library_paths: Seq<String>,
    probes: Seq<Option<TrackFileFingerprint>>,
    k: Seq<Seq<char>>,
)
    requires
        sync_upto(s0, queue, library_paths, probes, queue.len() as int).details.dom().contains(k),
    ensures
        in_paths(queue, k),
        !in_paths(library_paths, k),
{
    lemma_sync_details(s0, queue, library_paths, probes, queue.len() as int);
    let j = choose|j: int| 0 <= j < queue.len() && pkey(#[trigger] queue[j]@) == k;
    assert(pkey(queue[j]@) == k);
}

/// A read already pending for a file's current fingerprint is not asked
/// for again.
pub proof fn law_pending_read_not_requested_again(
    s: SyncView,
    q: Seq<char>,
    fp: TrackFileFingerprint,
)
    requires
        s.pending.dom().contains(pkey(q)),
        s.pending[pkey(q)] == fp,
        !(s.fingerprints.dom().contains(pkey(q)) && s.fingerprints[pkey(q)] != fp),
    ensures
        sync_step(s, q, false, Some(fp)).requests == s.requests,
{
}

/// Details that answer no pending read (an older read, or one for another
/// fingerprint) change nothing; details that answer one use it up, and
/// the place then holds details only if it is queued, outside the library
/// and its file is still at that fingerprint: these details, or equal ones.
pub proof fn law_only_pending_reads_are_answered(
    s: SyncView,
    k: Seq<Seq<char>>,
    fp: TrackFileFingerprint,
    indexed: IndexedTrack,
    in_queue: bool,
    in_library: bool,
    probe: Option<TrackFileFingerprint>,
)
    ensures
        !(s.pending.dom().contains(k) && s.pending[k] == fp) ==> arrival(s, k, fp, indexed, in_queue, in_library, probe)
            == s,
        (s.pending.dom().contains(k) && s.pending[k] == fp) ==> {
            let t = arrival(s, k, fp, indexed, in_queue, in_library, probe);
            &&& !t.pending.dom().contains(k)
            &&& (t.details.dom().contains(k) <==> (in_queue && !in_library && probe == Some(fp)))
            &&& (t.details.dom().contains(k) ==> t.details[k] == indexed || indexed_eq(t.details[k], indexed))
        },
{
}

} // verus!
