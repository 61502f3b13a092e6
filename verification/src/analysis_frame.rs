//! Analysis frames: the waveform and spectrogram updates sent to the user
//! interface, and the bookkeeping that decides what each frame carries.
use vstd::prelude::*;

use crate::codec::{clamp16, clamp_u16, clamp_u8, le16, le32, push_u16, push_u32, push_u8};

verus! {

/// The speaker position a spectrogram channel belongs to.
#[derive(Debug, Clone, Copy, PartialEq, Eq, Structural, Default)]
pub enum SpectrogramChannelLabel {
    #[default]
    Mono,
    FrontLeft,
    FrontRight,
    FrontCenter,
    Lfe,
    SideLeft,
    SideRight,
    RearLeft,
    RearRight,
    RearCenter,
    Unknown,
}

/// The byte that stands for a channel label on the wire.
pub open spec fn label_code(label: SpectrogramChannelLabel) -> u8 {
    match label {
        SpectrogramChannelLabel::Mono => 0,
        SpectrogramChannelLabel::FrontLeft => 1,
        SpectrogramChannelLabel::FrontRight => 2,
        SpectrogramChannelLabel::FrontCenter => 3,
        SpectrogramChannelLabel::Lfe => 4,
        SpectrogramChannelLabel::SideLeft => 5,
        SpectrogramChannelLabel::SideRight => 6,
        SpectrogramChannelLabel::RearLeft => 7,
        SpectrogramChannelLabel::RearRight => 8,
        SpectrogramChannelLabel::RearCenter => 9,
        SpectrogramChannelLabel::Unknown => 255,
    }
}

pub fn encode_channel_label(label: SpectrogramChannelLabel) -> (r: u8)
    ensures
        r == label_code(label),
{
    match label {
        SpectrogramChannelLabel::Mono => 0,
        SpectrogramChannelLabel::FrontLeft => 1,
        SpectrogramChannelLabel::FrontRight => 2,
        SpectrogramChannelLabel::FrontCenter => 3,
        SpectrogramChannelLabel::Lfe => 4,
        SpectrogramChannelLabel::SideLeft => 5,
        SpectrogramChannelLabel::SideRight => 6,
        SpectrogramChannelLabel::RearLeft => 7,
        SpectrogramChannelLabel::RearRight => 8,
        SpectrogramChannelLabel::RearCenter => 9,
        SpectrogramChannelLabel::Unknown => 255,
    }
}

/// Spectrogram rows of one channel, each already scaled to bytes.
#[derive(Debug, Clone, Default)]
pub struct EncodedSpectrogramChannel {
    pub label: SpectrogramChannelLabel,
    pub rows_u8: Vec<Vec<u8>>,
}

/// What changed in the analysis since the previous frame.
#[derive(Debug, Clone, Default)]
pub struct AnalysisDelta {
    pub sample_rate_hz: u32,
    pub frame_seq: u32,
    pub spectrogram_reset: bool,
    pub waveform_changed: bool,
    pub waveform_coverage_millis: u32,
    pub waveform_complete: bool,
    pub waveform_peaks_u8: Vec<u8>,
    pub spectrogram_channels_u8: Vec<EncodedSpectrogramChannel>,
}

pub const ANALYSIS_FRAME_MAGIC: u8 = 0xA1;

pub const ANALYSIS_FLAG_WAVEFORM: u8 = 0x01;

pub const ANALYSIS_FLAG_RESET: u8 = 0x02;

pub const ANALYSIS_FLAG_SPECTROGRAM: u8 = 0x04;

pub const ANALYSIS_FLAG_WAVEFORM_COMPLETE: u8 = 0x08;

/// Number of rows of a channel.
pub open spec fn row_total(c: EncodedSpectrogramChannel) -> int {
    c.rows_u8@.len() as int
}

/// Row `j` of a channel.
pub open spec fn row_at(c: EncodedSpectrogramChannel, j: int) -> Seq<u8> {
    c.rows_u8@[j]@
}

impl AnalysisDelta {
    pub open spec fn channels(self) -> Seq<EncodedSpectrogramChannel> {
        self.spectrogram_channels_u8@
    }

    /// Rows in the first channel.
    pub open spec fn row_count(self) -> int {
        if self.channels().len() > 0 {
            row_total(self.channels()[0]) as int
        } else {
            0
        }
    }

    /// Bins in the first row of the first channel.
    pub open spec fn bin_count(self) -> int {
        if self.channels().len() > 0 && row_total(self.channels()[0]) > 0 {
            row_at(self.channels()[0], 0).len() as int
        } else {
            0
        }
    }

    pub open spec fn has_spectrogram(self) -> bool {
        self.row_count() > 0 && self.bin_count() > 0 && self.channels().len() > 0
    }

    pub open spec fn waveform_flag(self) -> bool {
        self.waveform_changed && self.waveform_peaks_u8@.len() > 0
    }

    /// The flag byte: waveform 1, reset 2, spectrogram 4, complete 8.
    pub open spec fn flags(self) -> int {
        (if self.waveform_flag() { 1int } else { 0 }) + (if self.spectrogram_reset { 2int } else { 0 })
            + (if self.has_spectrogram() { 4int } else { 0 }) + (if self.waveform_complete { 8int } else { 0 })
    }

    /// Channels sent: at most 255.
    pub open spec fn channel_count8(self) -> int {
        if self.channels().len() > 255 { 255 } else { self.channels().len() as int }
    }

    pub open spec fn label_bytes(self) -> int {
        if self.has_spectrogram() || self.spectrogram_reset { self.channel_count8() } else { 0 }
    }

    /// The payload length: a 21-byte header, the waveform, the labels and the
    /// spectrogram cells.
    pub open spec fn payload_len(self) -> int {
        21 + clamp16(self.waveform_peaks_u8@.len() as int) + self.label_bytes() + clamp16(
            self.row_count(),
        ) * self.channel_count8() * clamp16(self.bin_count())
    }

    /// Every channel that is sent has the rows and bins the first one has.
    pub open spec fn well_formed(self) -> bool {
        grid_ok(self.channels(), self.channel_count8(), clamp16(self.row_count()), clamp16(self.bin_count()))
    }
}

/// The first `cc` channels have at least `rows` rows of at least `bins` cells.
pub open spec fn grid_ok(chs: Seq<EncodedSpectrogramChannel>, cc: int, rows: int, bins: int) -> bool {
    forall|i: int, j: int|
        #![trigger row_at(chs[i], j)]
        0 <= i < cc && 0 <= j < rows ==> j < row_total(chs[i]) && bins <= row_at(chs[i], j).len()
}

proof fn lemma_grid_ok_at(
    chs: Seq<EncodedSpectrogramChannel>,
    cc: int,
    rows: int,
    bins: int,
    ci: int,
    rj: int,
)
    requires
        grid_ok(chs, cc, rows, bins),
        0 <= ci < cc,
        0 <= rj < rows,
    ensures
        rj < row_total(chs[ci]),
        bins <= row_at(chs[ci], rj).len(),
{
    let t = row_at(chs[ci], rj);
}

/// Row `r` of the first `c` channels, each cut to `bins` cells.
pub open spec fn row_block(chs: Seq<EncodedSpectrogramChannel>, r: int, c: int, bins: int) -> Seq<u8>
    decreases c,
{
    if c <= 0 {
        Seq::empty()
    } else {
        row_block(chs, r, c - 1, bins) + row_at(chs[c - 1], r).take(bins)
    }
}

/// The first `rows` rows, channel by channel within each row.
pub open spec fn grid(chs: Seq<EncodedSpectrogramChannel>, rows: int, c: int, bins: int) -> Seq<u8>
    decreases rows,
{
    if rows <= 0 {
        Seq::empty()
    } else {
        grid(chs, rows - 1, c, bins) + row_block(chs, rows - 1, c, bins)
    }
}

pub open spec fn labels(chs: Seq<EncodedSpectrogramChannel>, c: int) -> Seq<u8>
    decreases c,
{
    if c <= 0 {
        Seq::empty()
    } else {
        labels(chs, c - 1).push(label_code(chs[c - 1].label))
    }
}

pub open spec fn clamp32(n: int) -> int {
    if n > u32::MAX { u32::MAX as int } else { n }
}

/// The fixed part of a frame: payload length, magic, sample rate, flags,
/// waveform length, coverage, rows, bins, sequence number, channels.
pub open spec fn frame_header(
    payload: int,
    rate: u32,
    flags: u8,
    wl: int,
    coverage: u32,
    rows: int,
    bins: int,
    seq: u32,
    cc: u8,
) -> Seq<u8> {
    le32(payload) + seq![ANALYSIS_FRAME_MAGIC] + le32(rate as int) + seq![flags] + le16(wl) + le32(
        coverage as int,
    ) + le16(rows) + le16(bins) + le32(seq as int) + seq![cc]
}

/// The bytes of an analysis frame; empty when there is nothing to say.
pub open spec fn analysis_frame_bytes(d: AnalysisDelta) -> Seq<u8> {
    if d.flags() == 0 {
        Seq::empty()
    } else {
        let wl = clamp16(d.waveform_peaks_u8@.len() as int);
        let rows = clamp16(d.row_count());
        let bins = clamp16(d.bin_count());
        let cc = d.channel_count8();
        frame_header(
            clamp32(d.payload_len()),
            d.sample_rate_hz,
            d.flags() as u8,
            wl,
            d.waveform_coverage_millis,
            rows,
            bins,
            d.frame_seq,
            cc as u8,
        ) + (if d.waveform_flag() {
            d.waveform_peaks_u8@.take(wl)
        } else {
            Seq::empty()
        }) + (if d.label_bytes() > 0 {
            labels(d.channels(), cc)
        } else {
            Seq::empty()
        }) + (if d.has_spectrogram() {
            grid(d.channels(), rows, cc, bins)
        } else {
            Seq::empty()
        })
    }
}

fn push_row_block(
    out: &mut Vec<u8>,
    chs: &Vec<EncodedSpectrogramChannel>,
    r: usize,
    cc: usize,
    bins: usize,
)
    requires
        cc <= chs@.len(),
        forall|c: int| 0 <= c < cc ==> r < row_total(#[trigger] chs@[c]) && bins <= row_at(chs@[c], r as int).len(),
    ensures
        final(out)@ == old(out)@ + row_block(chs@, r as int, cc as int, bins as int),
{
    let mut c: usize = 0;
    while c < cc
        invariant
            c <= cc,
            cc <= chs@.len(),
            forall|k: int| 0 <= k < cc ==> r < row_total(#[trigger] chs@[k]) && bins <= row_at(chs@[k], r as int).len(),
            out@ == old(out)@ + row_block(chs@, r as int, c as int, bins as int),
        decreases cc - c,
    {
        let ghost before = out@;
        let row = &chs[c].rows_u8[r];
        assert(row_at(chs@[c as int], r as int) == row@);
        crate::codec::push_bytes(out, row.as_slice(), bins);
        assert(out@ =~= old(out)@ + row_block(chs@, r as int, c + 1, bins as int));
        c += 1;
    }
}

fn push_grid(out: &mut Vec<u8>, chs: &Vec<EncodedSpectrogramChannel>, rows: usize, cc: usize, bins: usize)
    requires
        cc <= chs@.len(),
        grid_ok(chs@, cc as int, rows as int, bins as int),
    ensures
        final(out)@ == old(out)@ + grid(chs@, rows as int, cc as int, bins as int),
{
    let mut r: usize = 0;
    while r < rows
        invariant
            r <= rows,
            cc <= chs@.len(),
            grid_ok(chs@, cc as int, rows as int, bins as int),
            out@ == old(out)@ + grid(chs@, r as int, cc as int, bins as int),
        decreases rows - r,
    {
        assert forall|c: int| 0 <= c < cc implies r < row_total(#[trigger] chs@[c]) && bins
            <= row_at(chs@[c], r as int).len() by {
            lemma_grid_ok_at(chs@, cc as int, rows as int, bins as int, c, r as int);
        }
        push_row_block(out, chs, r, cc, bins);
        assert(out@ =~= old(out)@ + grid(chs@, r + 1, cc as int, bins as int));
        r += 1;
    }
}

fn push_labels(out: &mut Vec<u8>, chs: &Vec<EncodedSpectrogramChannel>, cc: usize)
    requires
        cc <= chs@.len(),
    ensures
        final(out)@ == old(out)@ + labels(chs@, cc as int),
{
    let mut c: usize = 0;
    while c < cc
        invariant
            c <= cc,
            cc <= chs@.len(),
            out@ == old(out)@ + labels(chs@, c as int),
        decreases cc - c,
    {
        out.push(encode_channel_label(chs[c].label));
        assert(out@ =~= old(out)@ + labels(chs@, c + 1));
        c += 1;
    }
}

fn cell_count(rows: u16, cc: u8, bins: u16) -> (r: u64)
    ensures
        r == rows * cc * bins,
        r <= 65535 * 255 * 65535,
{
    assert((rows as int) * (cc as int) <= 65535 * 255) by (nonlinear_arith)
        requires
            rows <= 65535,
            cc <= 255,
    ;
    let a: u64 = (rows as u64) * (cc as u64);
    assert((a as int) * (bins as int) <= 65535 * 255 * 65535) by (nonlinear_arith)
        requires
            a <= 65535 * 255,
            bins <= 65535,
    ;
    a * (bins as u64)
}

/// The counts the frame header gives: rows and bins of the first channel.
fn first_channel_shape(chs: &Vec<EncodedSpectrogramChannel>) -> (r: (usize, usize))
    ensures
        r.0 == (if chs@.len() > 0 { row_total(chs@[0]) as int } else { 0 }),
        r.1 == (if chs@.len() > 0 && row_total(chs@[0]) > 0 {
            row_at(chs@[0], 0).len() as int
        } else {
            0
        }),
{
    if chs.len() == 0 {
        return (0, 0);
    }
    let rows = chs[0].rows_u8.len();
    assert(row_total(chs@[0]) == chs@[0].rows_u8@.len());
    if rows == 0 {
        return (0, 0);
    }
    assert(row_at(chs@[0], 0) == chs@[0].rows_u8@[0]@);
    (rows, chs[0].rows_u8[0].len())
}

fn push_frame_header(
    out: &mut Vec<u8>,
    payload: u32,
    rate: u32,
    flags: u8,
    wl: u16,
    coverage: u32,
    rows: u16,
    bins: u16,
    seq: u32,
    cc: u8,
)
    ensures
        final(out)@ == old(out)@ + frame_header(
            payload as int,
            rate,
            flags,
            wl as int,
            coverage,
            rows as int,
            bins as int,
            seq,
            cc,
        ),
{
    push_u32(out, payload);
    push_u8(out, ANALYSIS_FRAME_MAGIC);
    push_u32(out, rate);
    push_u8(out, flags);
    push_u16(out, wl);
    push_u32(out, coverage);
    push_u16(out, rows);
    push_u16(out, bins);
    push_u32(out, seq);
    push_u8(out, cc);
    assert(out@ =~= old(out)@ + frame_header(
        payload as int,
        rate,
        flags,
        wl as int,
        coverage,
        rows as int,
        bins as int,
        seq,
        cc,
    ));
}

/// Encodes an analysis frame (see `analysis_frame_bytes`).
pub fn encode_analysis_frame(delta: &AnalysisDelta) -> (out: Vec<u8>)
    requires
        delta.has_spectrogram() ==> delta.well_formed(),
    ensures
        out@ == analysis_frame_bytes(*delta),
{
    let chs = &delta.spectrogram_channels_u8;
    let waveform_len = delta.waveform_peaks_u8.len();
    let channel_count = chs.len();
    let (row_count, bin_count) = first_channel_shape(chs);
    let has_spectrogram = row_count > 0 && bin_count > 0 && channel_count > 0;
    let waveform_flag = delta.waveform_changed && waveform_len > 0;
    let mut flags: u8 = 0;
    if waveform_flag {
        flags = flags + ANALYSIS_FLAG_WAVEFORM;
    }
    if delta.spectrogram_reset {
        flags = flags + ANALYSIS_FLAG_RESET;
    }
    if has_spectrogram {
        flags = flags + ANALYSIS_FLAG_SPECTROGRAM;
    }
    if delta.waveform_complete {
        flags = flags + ANALYSIS_FLAG_WAVEFORM_COMPLETE;
    }
    if flags == 0 {
        return Vec::new();
    }
    let waveform_len_u16 = clamp_u16(waveform_len);
    let row_count_u16 = clamp_u16(row_count);
    let bin_count_u16 = clamp_u16(bin_count);
    let channel_count_u8 = clamp_u8(channel_count);
    let label_bytes: u64 = if has_spectrogram || delta.spectrogram_reset {
        channel_count_u8 as u64
    } else {
        0
    };
    let cells = cell_count(row_count_u16, channel_count_u8, bin_count_u16);
    let payload_len: u64 = 21 + waveform_len_u16 as u64 + label_bytes + cells;
    let payload_u32: u32 = if payload_len > 0xFFFF_FFFFu64 {
        0xFFFF_FFFFu32
    } else {
        payload_len as u32
    };
    let mut out: Vec<u8> = Vec::new();
    push_frame_header(
        &mut out,
        payload_u32,
        delta.sample_rate_hz,
        flags,
        waveform_len_u16,
        delta.waveform_coverage_millis,
        row_count_u16,
        bin_count_u16,
        delta.frame_seq,
        channel_count_u8,
    );
    let ghost header = out@;
    if waveform_flag {
        crate::codec::push_bytes(
            &mut out,
            delta.waveform_peaks_u8.as_slice(),
            waveform_len_u16 as usize,
        );
    }
    let ghost after_wave = out@;
    if label_bytes > 0 {
        push_labels(&mut out, chs, channel_count_u8 as usize);
    }
    let ghost after_labels = out@;
    if has_spectrogram {
        push_grid(
            &mut out,
            chs,
            row_count_u16 as usize,
            channel_count_u8 as usize,
            bin_count_u16 as usize,
        );
    }
    assert(out@ =~= analysis_frame_bytes(*delta));
    out
}

// ---------------------------------------------------------------------------
// What the next frame carries
// ---------------------------------------------------------------------------

/// What was last sent, besides the waveform peaks themselves (which the
/// caller compares, being floating-point).
#[derive(Debug, Clone, Copy, PartialEq, Eq, Structural, Default)]
pub struct AnalysisEmitState {
    pub last_waveform_coverage_millis: u32,
    pub last_waveform_complete: bool,
    pub last_spectrogram_seq: u64,
    pub analysis_frame_seq: u32,
}

/// Which spectrogram rows the next frame carries, for every channel.
#[derive(Debug, Clone, Copy, PartialEq, Eq, Structural)]
pub enum SpectrogramRows {
    Nothing,
    All,
    /// The rows from `start` to the end.
    Tail { start: usize },
}

/// What the next analysis frame carries.
#[derive(Debug, Clone, Copy, PartialEq, Eq, Structural)]
pub struct AnalysisPlan {
    pub waveform_meta_changed: bool,
    /// The spectrogram starts over with this frame.
    pub spectrogram_reset: bool,
    pub rows: SpectrogramRows,
    pub frame_seq: u32,
}

/// The analysis state as sampled for one frame.
#[derive(Debug, Clone, Copy, PartialEq, Eq, Structural)]
pub struct AnalysisSample {
    /// The waveform peaks differ from those last sent.
    pub waveform_changed: bool,
    pub waveform_coverage_millis: u32,
    pub waveform_complete: bool,
    /// Rows produced so far; it goes back when the spectrogram restarts.
    pub spectrogram_seq: u64,
    pub channel_count: usize,
    /// Rows held per channel.
    pub frame_count: usize,
}

pub open spec fn sat_usize(x: int) -> int {
    if x > usize::MAX { usize::MAX as int } else { x }
}

/// The step from what was sent to the next frame's plan.
pub open spec fn plan_spec(st: AnalysisEmitState, a: AnalysisSample) -> (AnalysisEmitState, AnalysisPlan) {
    let meta_changed = a.waveform_coverage_millis != st.last_waveform_coverage_millis
        || a.waveform_complete != st.last_waveform_complete;
    let reset = a.spectrogram_seq < st.last_spectrogram_seq || (a.spectrogram_seq == 0
        && a.channel_count == 0 && st.last_spectrogram_seq > 0);
    let delta = sat_usize(if a.spectrogram_seq >= st.last_spectrogram_seq {
        a.spectrogram_seq - st.last_spectrogram_seq
    } else {
        0
    });
    let rows = if reset && a.channel_count > 0 {
        SpectrogramRows::All
    } else if delta > 0 && a.channel_count > 0 {
        SpectrogramRows::Tail {
            start: (a.frame_count - (if delta < a.frame_count { delta } else { a.frame_count as int })) as usize,
        }
    } else {
        SpectrogramRows::Nothing
    };
    let sends_rows = rows != SpectrogramRows::Nothing;
    let has_payload = a.waveform_changed || meta_changed || sends_rows;
    let frame_seq = if has_payload {
        if st.analysis_frame_seq == u32::MAX { 0 } else { (st.analysis_frame_seq + 1) as u32 }
    } else {
        st.analysis_frame_seq
    };
    (
        AnalysisEmitState {
            last_waveform_coverage_millis: a.waveform_coverage_millis,
            last_waveform_complete: a.waveform_complete,
            last_spectrogram_seq: if !reset || a.channel_count > 0 {
                a.spectrogram_seq
            } else {
                st.last_spectrogram_seq
            },
            analysis_frame_seq: frame_seq,
        },
        AnalysisPlan {
            waveform_meta_changed: meta_changed,
            spectrogram_reset: reset && sends_rows,
            rows,
            frame_seq,
        },
    )
}

/// Decides what the next analysis frame carries and records it as sent: a
/// restarted spectrogram is sent whole, otherwise the rows produced since the
/// last frame (as far as they are still held); the frame number advances when
/// the frame carries anything.
pub fn plan_analysis_delta(state: &mut AnalysisEmitState, sample: &AnalysisSample) -> (plan: AnalysisPlan)
    ensures
        (*final(state), plan) == plan_spec(*old(state), *sample),
{
    let meta_changed = sample.waveform_coverage_millis != state.last_waveform_coverage_millis
        || sample.waveform_complete != state.last_waveform_complete;
    state.last_waveform_coverage_millis = sample.waveform_coverage_millis;
    state.last_waveform_complete = sample.waveform_complete;
    let reset = sample.spectrogram_seq < state.last_spectrogram_seq || (sample.spectrogram_seq == 0
        && sample.channel_count == 0 && state.last_spectrogram_seq > 0);
    let delta = crate::codec::usize_from_u64(sample.spectrogram_seq.saturating_sub(state.last_spectrogram_seq));
    let rows = if reset && sample.channel_count > 0 {
        SpectrogramRows::All
    } else if delta > 0 && sample.channel_count > 0 {
        let tail = if delta < sample.frame_count { delta } else { sample.frame_count };
        SpectrogramRows::Tail { start: sample.frame_count - tail }
    } else {
        SpectrogramRows::Nothing
    };
    if !reset || sample.channel_count > 0 {
        state.last_spectrogram_seq = sample.spectrogram_seq;
    }
    let sends_rows = match rows {
        SpectrogramRows::Nothing => false,
        _ => true,
    };
    let has_payload = sample.waveform_changed || meta_changed || sends_rows;
    if has_payload {
        state.analysis_frame_seq = state.analysis_frame_seq.wrapping_add(1);
    }
    AnalysisPlan {
        waveform_meta_changed: meta_changed,
        spectrogram_reset: reset && sends_rows,
        rows,
        frame_seq: state.analysis_frame_seq,
    }
}

/// A restarted spectrogram is always sent whole, and flagged as a reset.
pub proof fn law_reset_sends_whole_spectrogram(st: AnalysisEmitState, a: AnalysisSample)
    requires
        a.spectrogram_seq < st.last_spectrogram_seq,
        a.channel_count > 0,
    ensures
        plan_spec(st, a).1.rows == SpectrogramRows::All,
        plan_spec(st, a).1.spectrogram_reset,
        plan_spec(st, a).0.last_spectrogram_seq == a.spectrogram_seq,
{
}

/// A sample that brings nothing new keeps the frame number: frames are
/// numbered consecutively.
pub proof fn law_frame_numbers_count_frames(st: AnalysisEmitState, a: AnalysisSample)
    ensures
        ({
            let (next, plan) = plan_spec(st, a);
            let carries = a.waveform_changed || plan.waveform_meta_changed || plan.rows
                != SpectrogramRows::Nothing;
            &&& carries ==> next.analysis_frame_seq as int == (st.analysis_frame_seq as int + 1) % 0x1_0000_0000
            &&& !carries ==> next.analysis_frame_seq == st.analysis_frame_seq
            &&& plan.frame_seq == next.analysis_frame_seq
        }),
{
}

/// The rows sent after a frame are those produced since it, and never more
/// than are held.
pub proof fn law_tail_rows_within_frames(st: AnalysisEmitState, a: AnalysisSample)
    ensures
        plan_spec(st, a).1.rows matches SpectrogramRows::Tail { start } ==> start <= a.frame_count
            && a.frame_count - start <= a.spectrogram_seq - st.last_spectrogram_seq,
{
}

/// No frame is sent exactly when there is nothing to send: no changed
/// waveform samples, no reset, no spectrogram cells (no channel, row or bin)
/// and no completed waveform.
pub proof fn law_empty_frame_iff_nothing_to_send(d: AnalysisDelta)
    ensures
        (analysis_frame_bytes(d).len() == 0) <==> (!d.waveform_flag() && !d.spectrogram_reset
            && !d.has_spectrogram() && !d.waveform_complete),
{
    if d.flags() != 0 {
        let wl = clamp16(d.waveform_peaks_u8@.len() as int);
        let h = frame_header(
            clamp32(d.payload_len()),
            d.sample_rate_hz,
            d.flags() as u8,
            wl,
            d.waveform_coverage_millis,
            clamp16(d.row_count()),
            clamp16(d.bin_count()),
            d.frame_seq,
            d.channel_count8() as u8,
        );
        assert(h.len() >= 1);
    }
}

} // verus!
