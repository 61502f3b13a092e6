//! The snapshot packet: a header (magic, total length, the mask of the
//! sections present) and each section's payload behind its length; and the
//! playback section, the one section that needs the player's status.
//! Positions and lengths are written as `f64` seconds, whose bits the
//! caller computes (floating point).
use vstd::prelude::*;

use crate::bridge::RepeatMode;
use crate::codec::{clamp_i32, clamp_u32, le16, le32, push_i32, push_u16, push_u16_string, push_u32, push_u8, u16_string_bytes};
use crate::lastfm::RuntimeState;
use crate::library::LibrarySnapshot;
use crate::metadata::TrackMetadata;
use crate::playback_events::PlaybackStatus;
use crate::queue::PlaybackState;
use crate::queue_section::{encode_queue_section, queue_section_bytes, QueueSectionData};
use crate::sections::{
    clamp32, encode_lastfm_section, encode_library_meta_section, encode_metadata_section, encode_settings_section,
    flag, lastfm_section_bytes, library_meta_bytes, metadata_section_bytes, settings_section_bytes,
};
use crate::settings::BridgeSettings;

verus! {

pub const SNAPSHOT_MAGIC: u32 = 0xFE55_0001;

pub const SECTION_PLAYBACK: u16 = 1;

pub const SECTION_QUEUE: u16 = 2;

pub const SECTION_LIBRARY_META: u16 = 4;

pub const SECTION_METADATA: u16 = 16;

pub const SECTION_SETTINGS: u16 = 32;

pub const SECTION_ERROR: u16 = 64;

pub const SECTION_STOPPED: u16 = 128;

pub const SECTION_LASTFM: u16 = 256;

/// The section bits of the first `n` sections, or-ed together.
pub open spec fn packet_mask(sections: Seq<(u16, Seq<u8>)>, n: int) -> u16
    decreases n,
{
    if n <= 0 {
        0
    } else {
        packet_mask(sections, n - 1) | sections[n - 1].0
    }
}

pub open spec fn sat_u32(n: int) -> u32 {
    if n > u32::MAX {
        u32::MAX
    } else {
        n as u32
    }
}

/// The packet's length with the first `n` sections (header of 12 bytes,
/// then 4 bytes and the payload for each), saturating at `u32::MAX`.
pub open spec fn packet_length(sections: Seq<(u16, Seq<u8>)>, n: int) -> u32
    decreases n,
{
    if n <= 0 {
        12
    } else {
        let prev = packet_length(sections, n - 1);
        sat_u32(sat_u32(prev + 4) + clamp32(sections[n - 1].1.len() as int))
    }
}

/// The first `n` sections, each behind its length.
pub open spec fn packet_body(sections: Seq<(u16, Seq<u8>)>, n: int) -> Seq<u8>
    decreases n,
{
    if n <= 0 {
        Seq::empty()
    } else {
        packet_body(sections, n - 1) + le32(clamp32(sections[n - 1].1.len() as int)) + sections[n - 1].1
    }
}

/// A packet of the given sections, in order.
pub open spec fn packet_bytes(sections: Seq<(u16, Seq<u8>)>) -> Seq<u8> {
    let n = sections.len() as int;
    le32(SNAPSHOT_MAGIC as int) + le32(packet_length(sections, n) as int) + le16(packet_mask(sections, n) as int)
        + le16(0) + packet_body(sections, n)
}

pub open spec fn sections_view(s: Seq<(u16, Vec<u8>)>) -> Seq<(u16, Seq<u8>)> {
    s.map_values(|p: (u16, Vec<u8>)| (p.0, p.1@))
}

/// Writes a packet of the given sections (see `packet_bytes`).
pub fn encode_packet(sections: Vec<(u16, Vec<u8>)>) -> (out: Vec<u8>)
    ensures
        out@ == packet_bytes(sections_view(sections@)),
{
    let ghost sv = sections_view(sections@);
    let mut mask: u16 = 0;
    let mut total: u32 = 12;
    let mut i: usize = 0;
    while i < sections.len()
        invariant
            i <= sections@.len(),
            sv == sections_view(sections@),
            mask == packet_mask(sv, i as int),
            total == packet_length(sv, i as int),
        decreases sections@.len() - i,
    {
        mask = mask | sections[i].0;
        total = total.saturating_add(4).saturating_add(clamp_u32(sections[i].1.len()));
        i += 1;
    }
    let mut out: Vec<u8> = Vec::new();
    push_u32(&mut out, SNAPSHOT_MAGIC);
    push_u32(&mut out, total);
    push_u16(&mut out, mask);
    push_u16(&mut out, 0);
    let ghost head = out@;
    let mut k: usize = 0;
    while k < sections.len()
        invariant
            k <= sections@.len(),
            sv == sections_view(sections@),
            out@ == head + packet_body(sv, k as int),
        decreases sections@.len() - k,
    {
        push_u32(&mut out, clamp_u32(sections[k].1.len()));
        let mut i2: usize = 0;
        let ghost before = out@;
        while i2 < sections[k].1.len()
            invariant
                k < sections@.len(),
                i2 <= sections@[k as int].1@.len(),
                out@ == before + sections@[k as int].1@.take(i2 as int),
            decreases sections@[k as int].1@.len() - i2,
        {
            out.push(sections[k].1[i2]);
            assert(sections@[k as int].1@.take(i2 + 1) =~= sections@[k as int].1@.take(i2 as int).push(
                sections@[k as int].1@[i2 as int],
            ));
            i2 += 1;
        }
        assert(sections@[k as int].1@.take(sections@[k as int].1@.len() as int) =~= sections@[k as int].1@);
        assert(out@ =~= head + packet_body(sv, k + 1));
        k += 1;
    }
    assert(out@ =~= packet_bytes(sv));
    out
}

/// An error event: a packet with the error section alone, holding the
/// message.
pub fn encode_error_event(message: &str) -> (out: Vec<u8>)
    ensures
        out@ == packet_bytes(seq![(SECTION_ERROR, u16_string_bytes(message@))]),
{
    let mut payload: Vec<u8> = Vec::new();
    push_u16_string(&mut payload, message);
    assert(payload@ =~= u16_string_bytes(message@));
    let mut sections: Vec<(u16, Vec<u8>)> = Vec::new();
    sections.push((SECTION_ERROR, payload));
    assert(sections_view(sections@) =~= seq![(SECTION_ERROR, u16_string_bytes(message@))]);
    encode_packet(sections)
}

/// The stopped event: a packet with the empty stopped section alone.
pub fn encode_stopped_event() -> (out: Vec<u8>)
    ensures
        out@ == packet_bytes(seq![(SECTION_STOPPED, Seq::<u8>::empty())]),
{
    let mut sections: Vec<(u16, Vec<u8>)> = Vec::new();
    sections.push((SECTION_STOPPED, Vec::new()));
    assert(sections_view(sections@) =~= seq![(SECTION_STOPPED, Seq::<u8>::empty())]);
    encode_packet(sections)
}

pub open spec fn state_code(s: PlaybackState) -> u8 {
    match s {
        PlaybackState::Stopped => 0,
        PlaybackState::Playing => 1,
        PlaybackState::Paused => 2,
    }
}

pub open spec fn repeat_code(r: RepeatMode) -> u8 {
    match r {
        RepeatMode::Off => 0,
        RepeatMode::One => 1,
        RepeatMode::All => 2,
    }
}

/// Eight bytes of a `u64`, least significant first.
pub open spec fn le64(b: u64) -> Seq<u8> {
    le32((b % 0x1_0000_0000) as int) + le32((b / 0x1_0000_0000) as int)
}

/// The playback section: state, position and length (the bits of their
/// `f64` seconds), volume, repeat mode, shuffle, the queue position (-1 for
/// none, else at most `i32::MAX`) and the current track's path.
pub open spec fn playback_section_bytes(p: PlaybackStatus, position_bits: u64, duration_bits: u64) -> Seq<u8> {
    seq![state_code(p.state)] + le64(position_bits) + le64(duration_bits) + le32(p.volume_bits as int) + seq![
        repeat_code(p.repeat_mode),
        flag(p.shuffle_enabled),
    ] + le32(
        match p.current_queue_index {
            Some(i) => if i > i32::MAX {
                i32::MAX as int
            } else {
                i as int
            },
            None => -1,
        },
    ) + u16_string_bytes(
        match p.current {
            Some(c) => c@,
            None => Seq::empty(),
        },
    )
}

pub(crate) fn push_u64_bits(out: &mut Vec<u8>, b: u64)
    ensures
        final(out)@ == old(out)@ + le64(b),
{
    push_u32(out, (b % 0x1_0000_0000) as u32);
    push_u32(out, (b / 0x1_0000_0000) as u32);
    assert(final(out)@ =~= old(out)@ + le64(b));
}

/// Writes the playback section (see `playback_section_bytes`).
#[verifier::rlimit(40)]
#[verifier::spinoff_prover]
pub fn encode_playback_section(p: &PlaybackStatus, position_bits: u64, duration_bits: u64) -> (out: Vec<u8>)
    ensures
        out@ == playback_section_bytes(*p, position_bits, duration_bits),
{
    let mut out: Vec<u8> = Vec::new();
    let state: u8 = match p.state {
        PlaybackState::Stopped => 0,
        PlaybackState::Playing => 1,
        PlaybackState::Paused => 2,
    };
    let repeat: u8 = match p.repeat_mode {
        RepeatMode::Off => 0,
        RepeatMode::One => 1,
        RepeatMode::All => 2,
    };
    let index: i32 = match p.current_queue_index {
        Some(i) => clamp_i32(i),
        None => -1,
    };
    push_u8(&mut out, state);
    push_u64_bits(&mut out, position_bits);
    push_u64_bits(&mut out, duration_bits);
    push_u32(&mut out, p.volume_bits);
    push_u8(&mut out, repeat);
    push_u8(&mut out, if p.shuffle_enabled { 1 } else { 0 });
    push_i32(&mut out, index);
    let ghost head = out@;
    assert(head =~= seq![state_code(p.state)] + le64(position_bits) + le64(duration_bits) + le32(p.volume_bits as int)
        + seq![repeat_code(p.repeat_mode), flag(p.shuffle_enabled)] + le32(index as int));
    let path: String = match &p.current {
        Some(c) => c.clone(),
        None => String::new(),
    };
    push_u16_string(&mut out, path.as_str());
    assert(out@ =~= playback_section_bytes(*p, position_bits, duration_bits));
    out
}

/// The queue section's inputs: the queue's length, the selected entry, the
/// bits of the `f64` sum of the duration parts, and the shown entries.
pub struct QueueSectionInput<'a> {
    pub queue_len: usize,
    pub selected: Option<usize>,
    pub total_duration_bits: u64,
    pub data: &'a QueueSectionData,
}

/// The sections of a snapshot: playback, the queue (when included),
/// library, metadata, settings and Last.fm, in that order.
pub open spec fn snapshot_sections(
    playback: PlaybackStatus,
    position_bits: u64,
    duration_bits: u64,
    queue: Option<QueueSectionInput>,
    library: LibrarySnapshot,
    artist_count: usize,
    album_count: usize,
    metadata: TrackMetadata,
    settings: BridgeSettings,
    lastfm: RuntimeState,
) -> Seq<(u16, Seq<u8>)> {
    let head = seq![(SECTION_PLAYBACK, playback_section_bytes(playback, position_bits, duration_bits))];
    let q = match queue {
        Some(qi) => seq![
            (
                SECTION_QUEUE,
                queue_section_bytes(
                    qi.queue_len,
                    qi.selected,
                    qi.total_duration_bits,
                    qi.data.unknown_duration_count,
                    qi.data.tracks@,
                ),
            ),
        ],
        None => Seq::empty(),
    };
    head + q + seq![
        (SECTION_LIBRARY_META, library_meta_bytes(library, artist_count, album_count, settings.library_sort_mode)),
        (SECTION_METADATA, metadata_section_bytes(metadata)),
        (SECTION_SETTINGS, settings_section_bytes(settings)),
        (SECTION_LASTFM, lastfm_section_bytes(lastfm)),
    ]
}

/// Writes a snapshot packet (see `snapshot_sections`).
pub fn encode_binary_snapshot(
    playback: &PlaybackStatus,
    position_bits: u64,
    duration_bits: u64,
    queue: Option<QueueSectionInput>,
    library: &LibrarySnapshot,
    artist_count: usize,
    album_count: usize,
    metadata: &TrackMetadata,
    settings: &BridgeSettings,
    lastfm: &RuntimeState,
) -> (out: Vec<u8>)
    ensures
        out@ == packet_bytes(
            snapshot_sections(
                *playback,
                position_bits,
                duration_bits,
                queue,
                *library,
                artist_count,
                album_count,
                *metadata,
                *settings,
                *lastfm,
            ),
        ),
{
    let mut sections: Vec<(u16, Vec<u8>)> = Vec::new();
    sections.push((SECTION_PLAYBACK, encode_playback_section(playback, position_bits, duration_bits)));
    match &queue {
        Some(qi) => {
            sections.push(
                (SECTION_QUEUE, encode_queue_section(qi.queue_len, qi.selected, qi.total_duration_bits, qi.data)),
            );
        },
        None => {},
    }
    sections.push(
        (SECTION_LIBRARY_META, encode_library_meta_section(library, artist_count, album_count, settings.library_sort_mode)),
    );
    sections.push((SECTION_METADATA, encode_metadata_section(metadata)));
    sections.push((SECTION_SETTINGS, encode_settings_section(settings)));
    sections.push((SECTION_LASTFM, encode_lastfm_section(lastfm)));
    assert(sections_view(sections@) =~= snapshot_sections(
        *playback,
        position_bits,
        duration_bits,
        queue,
        *library,
        artist_count,
        album_count,
        *metadata,
        *settings,
        *lastfm,
    ));
    encode_packet(sections)
}

/// The queue part of a snapshot: whether the snapshot carries the queue,
/// and if so the queue and its selected row.
#[derive(Debug, Clone)]
pub struct SnapshotQueuePart {
    pub queue_included: bool,
    pub queue: Vec<String>,
    pub selected_queue_index: Option<usize>,
}

/// Two snapshots waiting to be sent merge into the latest one; when that
/// one leaves the queue out, it takes the queue of the latest snapshot that
/// carried one, so that a queue change is never lost.
pub fn merge_queue_snapshot(latest: SnapshotQueuePart, latest_with_queue: Option<SnapshotQueuePart>) -> (r:
    SnapshotQueuePart)
    ensures
        (latest.queue_included || latest_with_queue is None) ==> r.queue_included == latest.queue_included
            && r.queue@ == latest.queue@ && r.selected_queue_index == latest.selected_queue_index,
        (!latest.queue_included && latest_with_queue is Some) ==> r.queue_included && r.queue@
            == latest_with_queue->0.queue@ && r.selected_queue_index == latest_with_queue->0.selected_queue_index,
{
    if latest.queue_included {
        return latest;
    }
    match latest_with_queue {
        None => latest,
        Some(q) => SnapshotQueuePart {
            queue_included: true,
            queue: q.queue,
            selected_queue_index: q.selected_queue_index,
        },
    }
}

} // verus!
