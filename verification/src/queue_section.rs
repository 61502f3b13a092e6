//! The queue as the user interface shows it: for each entry, the details
//! from the library or from the entry's file, and the durations that add up
//! to the queue's length. The adding up of durations is floating-point and
//! left to the caller.
use vstd::prelude::*;

use crate::bridge::f32_bits_finite;
use crate::codec::{clamp_i32, clamp_u32, clamp_u32_to_u16, clamp16, le16, le32, push_i32, push_u16, push_u16_string, push_u32, u16_string_bytes};
use crate::library::{file_name, file_name_of, LibrarySnapshot, LibraryTrack};
use crate::path_map::{pkey, PathMap};
use crate::queue_details::IndexedTrack;
use crate::sections::{clamp32, year_code, MINUS_ONE_F32_BITS};
use crate::text::{string_from_chars, trim, trim_str};

verus! {

/// One queue entry as shown; its length is held as `f32` bits.
#[derive(Debug, Clone)]
pub struct EncodedQueueTrack {
    pub title: String,
    pub artist: String,
    pub album: String,
    pub cover_path: String,
    pub genre: String,
    pub year: Option<i32>,
    pub track_number: Option<u32>,
    pub length_bits: Option<u32>,
    pub path: String,
}

/// The shown queue: its entries, the durations (as `f32` bits, in queue
/// order) whose sum is its known length, and how many entries have no
/// known length.
#[derive(Debug, Clone)]
pub struct QueueSectionData {
    pub duration_parts: Vec<u32>,
    pub unknown_duration_count: usize,
    pub tracks: Vec<EncodedQueueTrack>,
}

/// The library track a path names: the last one with that place.
pub open spec fn last_track_at(tracks: Seq<LibraryTrack>, k: Seq<Seq<char>>, n: int) -> Option<int>
    decreases n,
{
    if n <= 0 {
        None
    } else if pkey(tracks[n - 1].path@) == k {
        Some(n - 1)
    } else {
        last_track_at(tracks, k, n - 1)
    }
}

proof fn lemma_last_track_in_range(tracks: Seq<LibraryTrack>, k: Seq<Seq<char>>, n: int)
    ensures
        match last_track_at(tracks, k, n) {
            Some(i) => 0 <= i < n,
            None => true,
        },
    decreases n,
{
    if n > 0 {
        lemma_last_track_in_range(tracks, k, n - 1);
    }
}

/// Where an entry's details come from.
pub enum QueueSource {
    Library(LibraryTrack),
    File(IndexedTrack),
    Unknown,
}

pub open spec fn source_of(
    tracks: Seq<LibraryTrack>,
    details: Map<Seq<Seq<char>>, IndexedTrack>,
    p: Seq<char>,
) -> QueueSource {
    match last_track_at(tracks, pkey(p), tracks.len() as int) {
        Some(i) => QueueSource::Library(tracks[i]),
        None => if details.dom().contains(pkey(p)) {
            QueueSource::File(details[pkey(p)])
        } else {
            QueueSource::Unknown
        },
    }
}

/// A duration that counts toward the queue's length: finite and above 0.
pub open spec fn counted(d: Option<u32>) -> bool {
    match d {
        Some(b) => f32_bits_finite(b) && 0 < b < 0x8000_0000,
        None => false,
    }
}

/// A duration shown: finite and not negative.
pub open spec fn shown_length(d: Option<u32>) -> Option<u32> {
    match d {
        Some(b) => if f32_bits_finite(b) && (b < 0x8000_0000 || b == 0x8000_0000) {
            Some(b)
        } else {
            None
        },
        None => None,
    }
}

/// The title of an entry without a title of its own: its file name, else
/// its path.
pub open spec fn fallback_title(p: Seq<char>) -> Seq<char> {
    match file_name(p) {
        Some(f) => f,
        None => p,
    }
}

pub struct QueueTrackView {
    pub title: Seq<char>,
    pub artist: Seq<char>,
    pub album: Seq<char>,
    pub cover_path: Seq<char>,
    pub genre: Seq<char>,
    pub year: Option<i32>,
    pub track_number: Option<u32>,
    pub length_bits: Option<u32>,
    pub path: Seq<char>,
}

pub open spec fn qtrack_view(t: EncodedQueueTrack) -> QueueTrackView {
    QueueTrackView {
        title: t.title@,
        artist: t.artist@,
        album: t.album@,
        cover_path: t.cover_path@,
        genre: t.genre@,
        year: t.year,
        track_number: t.track_number,
        length_bits: t.length_bits,
        path: t.path@,
    }
}

pub open spec fn shown_title(title: Seq<char>, p: Seq<char>) -> Seq<char> {
    if trim(title).len() == 0 {
        fallback_title(p)
    } else {
        title
    }
}

/// How an entry is shown, from where its details come.
pub open spec fn entry_view(src: QueueSource, p: Seq<char>) -> QueueTrackView {
    match src {
        QueueSource::Library(t) => QueueTrackView {
            title: shown_title(t.title@, p),
            artist: t.artist@,
            album: t.album@,
            cover_path: t.cover_path@,
            genre: t.genre@,
            year: t.year,
            track_number: t.track_no,
            length_bits: shown_length(t.duration_bits),
            path: p,
        },
        QueueSource::File(t) => QueueTrackView {
            title: shown_title(t.title@, p),
            artist: t.artist@,
            album: t.album@,
            cover_path: t.cover_path@,
            genre: t.genre@,
            year: t.year,
            track_number: t.track_no,
            length_bits: shown_length(t.duration_bits),
            path: p,
        },
        QueueSource::Unknown => QueueTrackView {
            title: fallback_title(p),
            artist: Seq::empty(),
            album: Seq::empty(),
            cover_path: Seq::empty(),
            genre: Seq::empty(),
            year: None,
            track_number: None,
            length_bits: None,
            path: p,
        },
    }
}

pub open spec fn source_duration(src: QueueSource) -> Option<u32> {
    match src {
        QueueSource::Library(t) => t.duration_bits,
        QueueSource::File(t) => t.duration_bits,
        QueueSource::Unknown => None,
    }
}

/// The durations counted among the first `n` entries.
pub open spec fn parts_upto(
    tracks: Seq<LibraryTrack>,
    details: Map<Seq<Seq<char>>, IndexedTrack>,
    queue: Seq<String>,
    n: int,
) -> Seq<u32>
    decreases n,
{
    if n <= 0 {
        Seq::empty()
    } else {
        let prev = parts_upto(tracks, details, queue, n - 1);
        let d = source_duration(source_of(tracks, details, queue[n - 1]@));
        if counted(d) {
            prev.push(d.unwrap())
        } else {
            prev
        }
    }
}

/// How many of the first `n` entries have no counted duration (saturating).
pub open spec fn unknown_upto(
    tracks: Seq<LibraryTrack>,
    details: Map<Seq<Seq<char>>, IndexedTrack>,
    queue: Seq<String>,
    n: int,
) -> int
    decreases n,
{
    if n <= 0 {
        0
    } else {
        let prev = unknown_upto(tracks, details, queue, n - 1);
        if counted(source_duration(source_of(tracks, details, queue[n - 1]@))) || prev >= usize::MAX {
            prev
        } else {
            prev + 1
        }
    }
}

fn library_index(tracks: &Vec<LibraryTrack>) -> (m: PathMap<usize>)
    ensures
        m.wf(),
        forall|k: Seq<Seq<char>>|
            #![trigger m.map().dom().contains(k)]
            match last_track_at(tracks@, k, tracks@.len() as int) {
                Some(i) => m.map().dom().contains(k) && m.map()[k] == i,
                None => !m.map().dom().contains(k),
            },
{
    let mut m: PathMap<usize> = PathMap::new();
    let mut i: usize = 0;
    while i < tracks.len()
        invariant
            i <= tracks@.len(),
            m.wf(),
            forall|k: Seq<Seq<char>>|
                #![trigger m.map().dom().contains(k)]
                match last_track_at(tracks@, k, i as int) {
                    Some(j) => m.map().dom().contains(k) && m.map()[k] == j,
                    None => !m.map().dom().contains(k),
                },
        decreases tracks@.len() - i,
    {
        m.insert(tracks[i].path.clone(), i);
        i += 1;
    }
    m
}

fn fallback_title_exec(p: &String) -> (r: String)
    ensures
        r@ == fallback_title(p@),
{
    match file_name_of(p.as_str()) {
        Some(f) => string_from_chars(&f),
        None => p.clone(),
    }
}

fn shown_title_exec(title: &String, p: &String) -> (r: String)
    ensures
        r@ == shown_title(title@, p@),
{
    if trim_str(title.as_str()).len() == 0 {
        fallback_title_exec(p)
    } else {
        title.clone()
    }
}

fn shown_length_exec(d: Option<u32>) -> (r: Option<u32>)
    ensures
        r == shown_length(d),
{
    match d {
        Some(b) => if (b / 0x80_0000) % 0x100 != 0xFF && (b < 0x8000_0000 || b == 0x8000_0000) {
            Some(b)
        } else {
            None
        },
        None => None,
    }
}

fn counted_exec(d: Option<u32>) -> (r: bool)
    ensures
        r == counted(d),
{
    match d {
        Some(b) => (b / 0x80_0000) % 0x100 != 0xFF && 0 < b && b < 0x8000_0000,
        None => false,
    }
}

/// Shows the queue: each entry with the details of the library track at
/// its place, else those read from its file, else its file name alone; and
/// the durations to add up (see `parts_upto`, `unknown_upto`).
pub fn compute_queue_section_data(
    queue: &Vec<String>,
    library: &LibrarySnapshot,
    details: &PathMap<IndexedTrack>,
) -> (r: QueueSectionData)
    requires
        details.wf(),
    ensures
        r.tracks@.len() == queue@.len(),
        forall|j: int|
            0 <= j < queue@.len() ==> qtrack_view(#[trigger] r.tracks@[j]) == entry_view(
                source_of(library.tracks@, details.map(), queue@[j]@),
                queue@[j]@,
            ),
        r.duration_parts@ == parts_upto(library.tracks@, details.map(), queue@, queue@.len() as int),
        r.unknown_duration_count == unknown_upto(library.tracks@, details.map(), queue@, queue@.len() as int),
{
    let index = library_index(&library.tracks);
    let mut tracks: Vec<EncodedQueueTrack> = Vec::new();
    let mut parts: Vec<u32> = Vec::new();
    let mut unknown: usize = 0;
    let mut n: usize = 0;
    while n < queue.len()
        invariant
            n <= queue@.len(),
            index.wf(),
            details.wf(),
            forall|k: Seq<Seq<char>>|
                #![trigger index.map().dom().contains(k)]
                match last_track_at(library.tracks@, k, library.tracks@.len() as int) {
                    Some(i) => index.map().dom().contains(k) && index.map()[k] == i,
                    None => !index.map().dom().contains(k),
                },
            tracks@.len() == n,
            forall|j: int|
                0 <= j < n ==> qtrack_view(#[trigger] tracks@[j]) == entry_view(
                    source_of(library.tracks@, details.map(), queue@[j]@),
                    queue@[j]@,
                ),
            parts@ == parts_upto(library.tracks@, details.map(), queue@, n as int),
            unknown as int == unknown_upto(library.tracks@, details.map(), queue@, n as int),
        decreases queue@.len() - n,
    {
        let p = &queue[n];
        let ghost k = pkey(p@);
        let ghost src = source_of(library.tracks@, details.map(), p@);
        assert(index.map().dom().contains(k) == (last_track_at(library.tracks@, k, library.tracks@.len() as int) is Some));
        proof {
            lemma_last_track_in_range(library.tracks@, k, library.tracks@.len() as int);
        }
        let (entry, duration): (EncodedQueueTrack, Option<u32>) = match index.get(p.as_str()) {
            Some(ip) => {
                let i = *ip;
                let t = &library.tracks[i];
                (
                    EncodedQueueTrack {
                        title: shown_title_exec(&t.title, p),
                        artist: t.artist.clone(),
                        album: t.album.clone(),
                        cover_path: t.cover_path.clone(),
                        genre: t.genre.clone(),
                        year: t.year,
                        track_number: t.track_no,
                        length_bits: shown_length_exec(t.duration_bits),
                        path: p.clone(),
                    },
                    t.duration_bits,
                )
            },
            None => match details.get(p.as_str()) {
                Some(t) => (
                    EncodedQueueTrack {
                        title: shown_title_exec(&t.title, p),
                        artist: t.artist.clone(),
                        album: t.album.clone(),
                        cover_path: t.cover_path.clone(),
                        genre: t.genre.clone(),
                        year: t.year,
                        track_number: t.track_no,
                        length_bits: shown_length_exec(t.duration_bits),
                        path: p.clone(),
                    },
                    t.duration_bits,
                ),
                None => (
                    EncodedQueueTrack {
                        title: fallback_title_exec(p),
                        artist: String::new(),
                        album: String::new(),
                        cover_path: String::new(),
                        genre: String::new(),
                        year: None,
                        track_number: None,
                        length_bits: None,
                        path: p.clone(),
                    },
                    None,
                ),
            },
        };
        assert(qtrack_view(entry) == entry_view(src, p@));
        assert(duration == source_duration(src));
        if counted_exec(duration) {
            match duration {
                Some(b) => parts.push(b),
                None => {},
            }
        } else if unknown < usize::MAX {
            unknown = unknown + 1;
        }
        tracks.push(entry);
        n += 1;
    }
    QueueSectionData { duration_parts: parts, unknown_duration_count: unknown, tracks }
}

/// One entry of the queue section.
pub open spec fn queue_track_bytes(t: QueueTrackView) -> Seq<u8> {
    u16_string_bytes(t.title) + u16_string_bytes(t.artist) + u16_string_bytes(t.album) + u16_string_bytes(
        t.cover_path,
    ) + u16_string_bytes(t.genre) + le32(year_code(t.year)) + le16(
        match t.track_number {
            Some(n) => clamp16(n as int),
            None => 0,
        },
    ) + le32(
        match t.length_bits {
            Some(b) => b as int,
            None => MINUS_ONE_F32_BITS as int,
        },
    ) + u16_string_bytes(t.path)
}

pub open spec fn queue_tracks_bytes(ts: Seq<EncodedQueueTrack>, n: int) -> Seq<u8>
    decreases n,
{
    if n <= 0 {
        Seq::empty()
    } else {
        queue_tracks_bytes(ts, n - 1) + queue_track_bytes(qtrack_view(ts[n - 1]))
    }
}

/// The queue section: queue length, selected entry (-1 for none), the
/// queue's total length (the bits of the `f64` sum the caller made of the
/// duration parts, low word first), the count of unknown lengths, and the
/// entries.
pub open spec fn queue_section_bytes(
    queue_len: usize,
    selected: Option<usize>,
    total_bits: u64,
    data_unknown: usize,
    tracks: Seq<EncodedQueueTrack>,
) -> Seq<u8> {
    le32(clamp32(queue_len as int)) + le32(
        match selected {
            Some(i) => if i > i32::MAX {
                i32::MAX as int
            } else {
                i as int
            },
            None => -1,
        },
    ) + le32((total_bits % 0x1_0000_0000) as int) + le32((total_bits / 0x1_0000_0000) as int) + le32(
        clamp32(data_unknown as int),
    ) + le32(clamp32(tracks.len() as int)) + queue_tracks_bytes(tracks, tracks.len() as int)
}

fn queue_track_encode(t: &EncodedQueueTrack) -> (v: Vec<u8>)
    ensures
        v@ == queue_track_bytes(qtrack_view(*t)),
{
    let mut v: Vec<u8> = Vec::new();
    push_u16_string(&mut v, t.title.as_str());
    assert(v@ =~= u16_string_bytes(t.title@));
    let year: i32 = match t.year {
        Some(y) => y,
        None => i32::MIN,
    };
    let track: u16 = match t.track_number {
        Some(n) => clamp_u32_to_u16(n),
        None => 0,
    };
    let len_bits: u32 = match t.length_bits {
        Some(b) => b,
        None => MINUS_ONE_F32_BITS,
    };
    push_u16_string(&mut v, t.artist.as_str());
    push_u16_string(&mut v, t.album.as_str());
    push_u16_string(&mut v, t.cover_path.as_str());
    push_u16_string(&mut v, t.genre.as_str());
    push_i32(&mut v, year);
    push_u16(&mut v, track);
    push_u32(&mut v, len_bits);
    push_u16_string(&mut v, t.path.as_str());
    v
}

/// Writes the queue section (see `queue_section_bytes`).
pub fn encode_queue_section(
    queue_len: usize,
    selected: Option<usize>,
    total_duration_bits: u64,
    data: &QueueSectionData,
) -> (out: Vec<u8>)
    ensures
        out@ == queue_section_bytes(queue_len, selected, total_duration_bits, data.unknown_duration_count, data.tracks@),
{
    let mut out: Vec<u8> = Vec::new();
    push_u32(&mut out, clamp_u32(queue_len));
    push_i32(&mut out, match selected {
        Some(i) => clamp_i32(i),
        None => -1,
    });
    push_u32(&mut out, (total_duration_bits % 0x1_0000_0000) as u32);
    push_u32(&mut out, (total_duration_bits / 0x1_0000_0000) as u32);
    push_u32(&mut out, clamp_u32(data.unknown_duration_count));
    push_u32(&mut out, clamp_u32(data.tracks.len()));
    let ghost head = out@;
    let mut i: usize = 0;
    assert(head + queue_tracks_bytes(data.tracks@, 0) =~= head);
    while i < data.tracks.len()
        invariant
            i <= data.tracks@.len(),
            out@ == head + queue_tracks_bytes(data.tracks@, i as int),
        decreases data.tracks@.len() - i,
    {
        let mut b = queue_track_encode(&data.tracks[i]);
        let ghost bv = b@;
        out.append(&mut b);
        assert(out@ =~= head + queue_tracks_bytes(data.tracks@, i + 1));
        i += 1;
    }
    assert(out@ =~= queue_section_bytes(queue_len, selected, total_duration_bits, data.unknown_duration_count, data.tracks@));
    out
}

} // verus!
