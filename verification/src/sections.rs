//! The sections of a snapshot packet and the search results frame, byte by
//! byte. Floating-point fields are written from their bits (`to_le_bytes`
//! of an `f32` is that of its bits).
use vstd::prelude::*;

use crate::bridge::BridgeSearchResultRowType;
use crate::codec::{
    clamp16, clamp_u16, clamp_u32, clamp_u32_to_u16, clamp_u8_from_i32, le16, le32, push_i32, push_u16,
    push_u16_string, push_u32, push_u8, u16_string_bytes,
};
use crate::lastfm::{AuthState, RuntimeState};
use crate::library::{LibraryRoot, LibraryScanProgress, LibrarySnapshot};
use crate::metadata::TrackMetadata;
use crate::modes::LibrarySortMode;
use crate::search_finalize::BridgeSearchResultsFrame;
use crate::search_rows::{row_views, BridgeSearchResultRow, SearchRowView};
use crate::settings::BridgeSettings;

verus! {

pub open spec fn flag(b: bool) -> u8 {
    if b {
        1
    } else {
        0
    }
}

/// `u32::try_from(n).unwrap_or(u32::MAX)`.
pub open spec fn clamp32(n: int) -> int {
    if n > u32::MAX {
        u32::MAX as int
    } else {
        n
    }
}

pub open spec fn opt_text(o: Option<String>) -> Seq<char> {
    match o {
        Some(s) => s@,
        None => Seq::empty(),
    }
}

/// The code of a Last.fm connection state on the wire.
pub open spec fn auth_code(a: AuthState) -> u8 {
    match a {
        AuthState::Disconnected => 0,
        AuthState::AwaitingBrowserApproval => 1,
        AuthState::Connected => 2,
        AuthState::ReauthRequired => 3,
        AuthState::Error => 4,
    }
}

/// The Last.fm section: enabled, configured, connection state, pending
/// scrobbles, user name, status text and authorization URL.
pub open spec fn lastfm_section_bytes(s: RuntimeState) -> Seq<u8> {
    seq![flag(s.enabled), flag(s.build_configured), auth_code(s.auth_state)] + le32(
        clamp32(s.pending_scrobble_count as int),
    ) + u16_string_bytes(s.username@) + u16_string_bytes(s.status_text@) + u16_string_bytes(s.auth_url@)
}

pub fn encode_lastfm_section(s: &RuntimeState) -> (out: Vec<u8>)
    ensures
        out@ == lastfm_section_bytes(*s),
{
    let mut out: Vec<u8> = Vec::new();
    let auth: u8 = match s.auth_state {
        AuthState::Disconnected => 0,
        AuthState::AwaitingBrowserApproval => 1,
        AuthState::Connected => 2,
        AuthState::ReauthRequired => 3,
        AuthState::Error => 4,
    };
    push_u8(&mut out, if s.enabled { 1 } else { 0 });
    push_u8(&mut out, if s.build_configured { 1 } else { 0 });
    push_u8(&mut out, auth);
    push_u32(&mut out, clamp_u32(s.pending_scrobble_count));
    push_u16_string(&mut out, s.username.as_str());
    push_u16_string(&mut out, s.status_text.as_str());
    push_u16_string(&mut out, s.auth_url.as_str());
    assert(out@ =~= lastfm_section_bytes(*s));
    out
}

/// `u8::try_from(code).unwrap_or_default()`.
pub open spec fn code_u8(code: i32) -> u8 {
    if 0 <= code <= 255 {
        code as u8
    } else {
        0
    }
}

/// The settings section: volume, FFT size, spectrogram view mode, dB range,
/// log scale, FPS display, library order, media controls and full-screen
/// mode.
pub open spec fn settings_section_bytes(s: BridgeSettings) -> Seq<u8> {
    le32(s.volume_bits as int) + le32(clamp32(s.fft_size as int)) + seq![code_u8(s.spectrogram_view_mode.code())]
        + le32(s.db_range_bits as int) + seq![flag(s.display.log_scale), flag(s.display.show_fps)] + le32(
        s.library_sort_mode.code() as int,
    ) + seq![flag(s.integrations.system_media_controls_enabled), code_u8(s.viewer_fullscreen_mode.code())]
}

pub fn encode_settings_section(s: &BridgeSettings) -> (out: Vec<u8>)
    ensures
        out@ == settings_section_bytes(*s),
{
    let mut out: Vec<u8> = Vec::new();
    push_u32(&mut out, s.volume_bits);
    push_u32(&mut out, clamp_u32(s.fft_size));
    push_u8(&mut out, clamp_u8_from_i32(s.spectrogram_view_mode.to_i32()));
    push_u32(&mut out, s.db_range_bits);
    push_u8(&mut out, if s.display.log_scale { 1 } else { 0 });
    push_u8(&mut out, if s.display.show_fps { 1 } else { 0 });
    push_i32(&mut out, s.library_sort_mode.to_i32());
    push_u8(&mut out, if s.integrations.system_media_controls_enabled { 1 } else { 0 });
    push_u8(&mut out, clamp_u8_from_i32(s.viewer_fullscreen_mode.to_i32()));
    assert(out@ =~= settings_section_bytes(*s));
    out
}

pub open spec fn opt_u32(o: Option<u32>) -> int {
    match o {
        Some(v) => v as int,
        None => 0,
    }
}

pub open spec fn opt_u8(o: Option<u8>) -> int {
    match o {
        Some(v) => v as int,
        None => 0,
    }
}

/// `i32::MIN` stands for an unknown year.
pub open spec fn year_code(y: Option<i32>) -> int {
    match y {
        Some(v) => v as int,
        None => i32::MIN as int,
    }
}

/// The metadata section: source path, title, artist, album, genre, year,
/// sample rate, bitrate, channels, bit depth, format label, current
/// bitrate and cover path (unknown numbers are 0).
pub open spec fn metadata_section_bytes(m: TrackMetadata) -> Seq<u8> {
    u16_string_bytes(opt_text(m.source_path)) + u16_string_bytes(m.title@) + u16_string_bytes(m.artist@)
        + u16_string_bytes(m.album@) + u16_string_bytes(m.genre@) + le32(year_code(m.year)) + le32(
        opt_u32(m.sample_rate_hz),
    ) + le32(opt_u32(m.bitrate_kbps)) + le16(opt_u8(m.channels)) + le16(opt_u8(m.bit_depth)) + u16_string_bytes(
        m.format_label@,
    ) + le32(opt_u32(m.current_bitrate_kbps)) + u16_string_bytes(opt_text(m.cover_art_path))
}

fn opt_string(o: &Option<String>) -> (r: String)
    ensures
        r@ == opt_text(*o),
{
    match o {
        Some(s) => s.clone(),
        None => String::new(),
    }
}

pub fn encode_metadata_section(m: &TrackMetadata) -> (out: Vec<u8>)
    ensures
        out@ == metadata_section_bytes(*m),
{
    let mut out: Vec<u8> = Vec::new();
    push_u16_string(&mut out, opt_string(&m.source_path).as_str());
    push_u16_string(&mut out, m.title.as_str());
    push_u16_string(&mut out, m.artist.as_str());
    push_u16_string(&mut out, m.album.as_str());
    push_u16_string(&mut out, m.genre.as_str());
    push_i32(&mut out, match m.year { Some(y) => y, None => i32::MIN });
    push_u32(&mut out, match m.sample_rate_hz { Some(v) => v, None => 0 });
    push_u32(&mut out, match m.bitrate_kbps { Some(v) => v, None => 0 });
    push_u16(&mut out, match m.channels { Some(v) => v as u16, None => 0 });
    push_u16(&mut out, match m.bit_depth { Some(v) => v as u16, None => 0 });
    push_u16_string(&mut out, m.format_label.as_str());
    push_u32(&mut out, match m.current_bitrate_kbps { Some(v) => v, None => 0 });
    push_u16_string(&mut out, opt_string(&m.cover_art_path).as_str());
    assert(out@ =~= metadata_section_bytes(*m));
    out
}

/// The roots of the library section: each path and name.
pub open spec fn roots_bytes(roots: Seq<LibraryRoot>) -> Seq<u8>
    decreases roots.len(),
{
    if roots.len() == 0 {
        Seq::empty()
    } else {
        roots_bytes(roots.drop_last()) + u16_string_bytes(roots.last().path@) + u16_string_bytes(
            roots.last().name@,
        )
    }
}

/// The library section: counts of roots, tracks, artists and albums, the
/// scan flag, the library order, the last error, the scan progress (zeros,
/// and an ETA of -1, without progress), and the roots (their count capped
/// at `u16::MAX`; every root is written).
pub open spec fn library_meta_bytes(
    lib: LibrarySnapshot,
    artist_count: usize,
    album_count: usize,
    sort_mode: LibrarySortMode,
) -> Seq<u8> {
    library_meta_head(lib, artist_count, album_count, sort_mode) + roots_bytes(lib.roots@)
}

/// What a scan progress gives for each field: roots done and in all, files
/// found and read, files per second and ETA (as `f32` bits).
pub open spec fn progress_fields(p: Option<LibraryScanProgress>) -> (int, int, int, int, int, int) {
    match p {
        Some(v) => (
            clamp32(v.roots_completed as int),
            clamp32(v.roots_total as int),
            clamp32(v.supported_files_discovered as int),
            clamp32(v.supported_files_processed as int),
            match v.files_per_second_bits {
                Some(b) => b as int,
                None => 0,
            },
            match v.eta_seconds_bits {
                Some(b) => b as int,
                None => MINUS_ONE_F32_BITS as int,
            },
        ),
        None => (0, 0, 0, 0, 0, MINUS_ONE_F32_BITS as int),
    }
}

pub open spec fn library_meta_head(
    lib: LibrarySnapshot,
    artist_count: usize,
    album_count: usize,
    sort_mode: LibrarySortMode,
) -> Seq<u8> {
    let f = progress_fields(lib.scan_progress);
    le32(clamp32(lib.roots@.len() as int)) + le32(clamp32(lib.tracks@.len() as int)) + le32(
        clamp32(artist_count as int),
    ) + le32(clamp32(album_count as int)) + seq![flag(lib.scan_in_progress)] + le32(sort_mode.code() as int)
        + u16_string_bytes(opt_text(lib.last_error)) + le32(f.0) + le32(f.1) + le32(f.2) + le32(f.3) + le32(f.4)
        + le32(f.5) + le16(clamp16(lib.roots@.len() as int))
}

/// The bits of the `f32` value -1.0.
pub const MINUS_ONE_F32_BITS: u32 = 0xBF80_0000;

#[verifier::rlimit(80)]
#[verifier::spinoff_prover]
fn library_meta_head_encode(
    lib: &LibrarySnapshot,
    artist_count: usize,
    album_count: usize,
    sort_mode: LibrarySortMode,
) -> (v: Vec<u8>)
    ensures
        v@ == library_meta_head(*lib, artist_count, album_count, sort_mode),
{
    let (rc, rt, fd, fp, fps, eta): (u32, u32, u32, u32, u32, u32) = match &lib.scan_progress {
        Some(p) => (
            clamp_u32(p.roots_completed),
            clamp_u32(p.roots_total),
            clamp_u32(p.supported_files_discovered),
            clamp_u32(p.supported_files_processed),
            match p.files_per_second_bits {
                Some(b) => b,
                None => 0,
            },
            match p.eta_seconds_bits {
                Some(b) => b,
                None => MINUS_ONE_F32_BITS,
            },
        ),
        None => (0, 0, 0, 0, 0, MINUS_ONE_F32_BITS),
    };
    let ghost f = progress_fields(lib.scan_progress);
    assert(rc as int == f.0 && rt as int == f.1 && fd as int == f.2 && fp as int == f.3 && fps as int == f.4
        && eta as int == f.5);
    let mut v: Vec<u8> = Vec::new();
    push_u32(&mut v, clamp_u32(lib.roots.len()));
    assert(v@ =~= le32(clamp32(lib.roots@.len() as int)));
    push_u32(&mut v, clamp_u32(lib.tracks.len()));
    push_u32(&mut v, clamp_u32(artist_count));
    push_u32(&mut v, clamp_u32(album_count));
    push_u8(&mut v, if lib.scan_in_progress { 1 } else { 0 });
    let ghost w = v@;
    assert(w.push(flag(lib.scan_in_progress)) =~= w + seq![flag(lib.scan_in_progress)]);
    push_i32(&mut v, sort_mode.to_i32());
    push_u16_string(&mut v, opt_string(&lib.last_error).as_str());
    push_u32(&mut v, rc);
    push_u32(&mut v, rt);
    push_u32(&mut v, fd);
    push_u32(&mut v, fp);
    push_u32(&mut v, fps);
    push_u32(&mut v, eta);
    push_u16(&mut v, clamp_u16(lib.roots.len()));
    v
}

pub fn encode_library_meta_section(
    lib: &LibrarySnapshot,
    artist_count: usize,
    album_count: usize,
    sort_mode: LibrarySortMode,
) -> (out: Vec<u8>)
    ensures
        out@ == library_meta_bytes(*lib, artist_count, album_count, sort_mode),
{
    let mut out = library_meta_head_encode(lib, artist_count, album_count, sort_mode);
    let ghost head = out@;
    let mut i: usize = 0;
    assert(lib.roots@.take(0) =~= Seq::<LibraryRoot>::empty());
    assert(head + roots_bytes(lib.roots@.take(0)) =~= head);
    while i < lib.roots.len()
        invariant
            i <= lib.roots@.len(),
            out@ == head + roots_bytes(lib.roots@.take(i as int)),
        decreases lib.roots@.len() - i,
    {
        push_u16_string(&mut out, lib.roots[i].path.as_str());
        push_u16_string(&mut out, lib.roots[i].name.as_str());
        assert(lib.roots@.take(i + 1).drop_last() =~= lib.roots@.take(i as int));
        assert(out@ =~= head + roots_bytes(lib.roots@.take(i + 1)));
        i += 1;
    }
    assert(lib.roots@.take(lib.roots@.len() as int) =~= lib.roots@);
    out
}

/// The bits of the `f32` equal to `n / 2`, for a score in half points:
/// zero, or sign 0, the exponent of the highest bit and the bits below it.
pub open spec fn half_points_bits(n: u8) -> u32 {
    if n == 0 {
        0
    } else {
        let e = top_bit(n as nat);
        ((126 + e) * 0x80_0000 + (n as nat - pow2(e)) * pow2((23 - e) as nat)) as u32
    }
}

pub open spec fn pow2(e: nat) -> nat
    decreases e,
{
    if e == 0 {
        1
    } else {
        2 * pow2((e - 1) as nat)
    }
}

/// The position of the highest set bit of a number from 1 to 255.
pub open spec fn top_bit(n: nat) -> nat {
    if n >= 128 {
        7
    } else if n >= 64 {
        6
    } else if n >= 32 {
        5
    } else if n >= 16 {
        4
    } else if n >= 8 {
        3
    } else if n >= 4 {
        2
    } else if n >= 2 {
        1
    } else {
        0
    }
}

fn score_bits(n: u8) -> (r: u32)
    ensures
        r == half_points_bits(n),
{
    if n == 0 {
        return 0;
    }
    let (e, p, q): (u32, u32, u32) = if n >= 128 {
        (7, 128, 0x1_0000)
    } else if n >= 64 {
        (6, 64, 0x2_0000)
    } else if n >= 32 {
        (5, 32, 0x4_0000)
    } else if n >= 16 {
        (4, 16, 0x8_0000)
    } else if n >= 8 {
        (3, 8, 0x10_0000)
    } else if n >= 4 {
        (2, 4, 0x20_0000)
    } else if n >= 2 {
        (1, 2, 0x40_0000)
    } else {
        (0, 1, 0x80_0000)
    };
    assert(e as nat == top_bit(n as nat));
    assert(p as nat == pow2(e as nat) && q as nat == pow2((23 - e) as nat)) by {
        reveal_with_fuel(pow2, 24);
    }
    assert((n - p) * q < 0x80_0000) by (nonlinear_arith)
        requires
            n as int - p as int >= 0,
            (n as int) < 2 * p,
            p * q == 0x80_0000,
    ;
    ((126 + e) * 0x80_0000) + ((n as u32 - p) * q)
}

/// A search results frame: `S`, version 2, the row count (capped at
/// `u16::MAX`; every row is written), the sequence number, then each row:
/// kind, score, year (`i32::MIN` when unknown), track number, count,
/// length (`lengths[i]`, the bits of the `f32` the caller added up for the
/// row, or -1 when unknown), and its texts.
pub open spec fn search_row_bytes(r: SearchRowView, length: Option<u32>) -> Seq<u8> {
    seq![r.row_type.code()] + le32(half_points_bits(r.score) as int) + le32(year_code(r.year)) + le16(
        match r.track_number {
            Some(n) => clamp16(n as int),
            None => 0,
        },
    ) + le32(r.count as int) + le32(
        match length {
            Some(b) => b as int,
            None => MINUS_ONE_F32_BITS as int,
        },
    ) + u16_string_bytes(r.label) + u16_string_bytes(r.artist) + u16_string_bytes(r.album) + u16_string_bytes(
        r.root_label,
    ) + u16_string_bytes(r.genre) + u16_string_bytes(r.cover_path) + u16_string_bytes(r.artist_key)
        + u16_string_bytes(r.album_key) + u16_string_bytes(r.section_key) + u16_string_bytes(r.track_key)
        + u16_string_bytes(r.track_path)
}

pub open spec fn search_rows_bytes(rows: Seq<SearchRowView>, lengths: Seq<Option<u32>>, n: int) -> Seq<u8>
    decreases n,
{
    if n <= 0 {
        Seq::empty()
    } else {
        search_rows_bytes(rows, lengths, n - 1) + search_row_bytes(rows[n - 1], lengths[n - 1])
    }
}

pub open spec fn search_frame_bytes(seq_no: u32, rows: Seq<SearchRowView>, lengths: Seq<Option<u32>>) -> Seq<u8> {
    seq![83u8, 2u8] + le16(clamp16(rows.len() as int)) + le32(seq_no as int) + search_rows_bytes(
        rows,
        lengths,
        rows.len() as int,
    )
}

fn search_row_encode(r: &BridgeSearchResultRow, length: Option<u32>) -> (v: Vec<u8>)
    ensures
        v@ == search_row_bytes(r@, length),
{
    let mut v: Vec<u8> = Vec::new();
    push_u8(&mut v, r.row_type.to_u8());
    assert(v@ =~= seq![r@.row_type.code()]);
    let year: i32 = match r.year { Some(y) => y, None => i32::MIN };
    let track: u16 = match r.track_number { Some(n) => clamp_u32_to_u16(n), None => 0 };
    let len_bits: u32 = match length { Some(b) => b, None => MINUS_ONE_F32_BITS };
    assert(year as int == year_code(r.year));
    assert(track as int == match r.track_number { Some(n) => clamp16(n as int), None => 0 });
    assert(len_bits as int == match length { Some(b) => b as int, None => MINUS_ONE_F32_BITS as int });
    push_u32(&mut v, score_bits(r.score));
    push_i32(&mut v, year);
    push_u16(&mut v, track);
    push_u32(&mut v, r.count);
    push_u32(&mut v, len_bits);
    push_u16_string(&mut v, r.label.as_str());
    push_u16_string(&mut v, r.artist.as_str());
    push_u16_string(&mut v, r.album.as_str());
    push_u16_string(&mut v, r.root_label.as_str());
    push_u16_string(&mut v, r.genre.as_str());
    push_u16_string(&mut v, r.cover_path.as_str());
    push_u16_string(&mut v, r.artist_key.as_str());
    push_u16_string(&mut v, r.album_key.as_str());
    push_u16_string(&mut v, r.section_key.as_str());
    push_u16_string(&mut v, r.track_key.as_str());
    push_u16_string(&mut v, r.track_path.as_str());
    v
}

pub fn encode_search_results_frame(frame: &BridgeSearchResultsFrame, lengths: &Vec<Option<u32>>) -> (out: Vec<u8>)
    requires
        lengths@.len() == frame.rows@.len(),
    ensures
        out@ == search_frame_bytes(frame.seq, row_views(frame.rows@), lengths@),
{
    let ghost rv = row_views(frame.rows@);
    let mut out: Vec<u8> = Vec::new();
    push_u8(&mut out, 83);
    push_u8(&mut out, 2);
    push_u16(&mut out, clamp_u16(frame.rows.len()));
    push_u32(&mut out, frame.seq);
    let ghost head = out@;
    let mut i: usize = 0;
    while i < frame.rows.len()
        invariant
            i <= frame.rows@.len(),
            lengths@.len() == frame.rows@.len(),
            rv == row_views(frame.rows@),
            out@ == head + search_rows_bytes(rv, lengths@, i as int),
        decreases frame.rows@.len() - i,
    {
        let r = &frame.rows[i];
        assert(rv[i as int] == r@);
        let mut row_bytes = search_row_encode(r, lengths[i]);
        let ghost rb = row_bytes@;
        out.append(&mut row_bytes);
        assert(out@ == head + search_rows_bytes(rv, lengths@, i as int) + rb);
        assert(out@ =~= head + search_rows_bytes(rv, lengths@, i + 1));
        i += 1;
    }
    assert(out@ =~= search_frame_bytes(frame.seq, rv, lengths@));
    out
}

} // verus!
