//! The frame that carries a chunk of precomputed spectrogram columns to the
//! user interface: a length prefix, then a 34-byte header and the column
//! data. The coverage is a floating-point number of seconds, held here as
//! the bits of its `f32`.
use vstd::prelude::*;

use crate::codec::{clamp_u32, le16, le32, push_bytes, push_u16, push_u32, push_u8};
use crate::sections::{clamp32, flag};
use crate::snapshot_packet::{le64, push_u64_bits};

verus! {

pub const PRECOMPUTED_SPECTROGRAM_MAGIC: u8 = 0xA2;

/// A chunk of precomputed spectrogram columns: column-major cells of
/// `column_count` columns, `channel_count` channels and `bins_per_column`
/// bins.
#[derive(Debug, Clone)]
pub struct PrecomputedSpectrogramChunk {
    pub track_token: u64,
    pub bins_per_column: u16,
    pub column_count: u16,
    pub channel_count: u8,
    pub start_column_index: u32,
    pub total_columns_estimate: u32,
    pub sample_rate_hz: u32,
    pub hop_size: u16,
    /// The bits of the `f32` seconds covered so far.
    pub coverage_bits: u32,
    pub complete: bool,
    pub buffer_reset: bool,
    pub clear_history: bool,
    pub columns_u8: Vec<u8>,
}

/// The 34-byte header of a chunk's frame: magic 0xA2, track token, bins per
/// column, column count, channel count, first column, estimated total
/// columns, sample rate, hop size, coverage, the complete and reset flags.
pub open spec fn chunk_header(c: PrecomputedSpectrogramChunk) -> Seq<u8> {
    seq![PRECOMPUTED_SPECTROGRAM_MAGIC] + le64(c.track_token) + le16(c.bins_per_column as int) + le16(
        c.column_count as int,
    ) + seq![c.channel_count] + le32(c.start_column_index as int) + le32(c.total_columns_estimate as int)
        + le32(c.sample_rate_hz as int) + le16(c.hop_size as int) + le32(c.coverage_bits as int) + seq![
        flag(c.complete),
        flag(c.buffer_reset),
    ]
}

/// The frame after its length: the header, then the column data.
pub open spec fn precomputed_chunk_frame(c: PrecomputedSpectrogramChunk) -> Seq<u8> {
    chunk_header(c) + c.columns_u8@
}

#[verifier::spinoff_prover]
fn push_chunk_header(out: &mut Vec<u8>, c: &PrecomputedSpectrogramChunk)
    ensures
        final(out)@ == old(out)@ + chunk_header(*c),
{
    let ghost o = out@;
    push_u8(out, PRECOMPUTED_SPECTROGRAM_MAGIC);
    push_u64_bits(out, c.track_token);
    push_u16(out, c.bins_per_column);
    push_u16(out, c.column_count);
    push_u8(out, c.channel_count);
    let ghost mid = out@;
    assert(mid =~= o + seq![PRECOMPUTED_SPECTROGRAM_MAGIC] + le64(c.track_token) + le16(c.bins_per_column as int)
        + le16(c.column_count as int) + seq![c.channel_count]);
    push_u32(out, c.start_column_index);
    push_u32(out, c.total_columns_estimate);
    push_u32(out, c.sample_rate_hz);
    push_u16(out, c.hop_size);
    push_u32(out, c.coverage_bits);
    push_u8(out, if c.complete { 1 } else { 0 });
    push_u8(out, if c.buffer_reset { 1 } else { 0 });
    assert(out@ =~= old(out)@ + chunk_header(*c));
}

/// Encodes a chunk: the frame's length (the 34-byte header and the data,
/// at most `u32::MAX`) and the frame (see `precomputed_chunk_frame`).
pub fn encode_precomputed_spectrogram_chunk(chunk: &PrecomputedSpectrogramChunk) -> (r: Vec<u8>)
    ensures
        r@ == le32(clamp32(34 + chunk.columns_u8@.len() as int)) + precomputed_chunk_frame(*chunk),
{
    let data_len = chunk.columns_u8.len();
    let total: u32 = if data_len > 0xFFFF_FFFF - 34 {
        0xFFFF_FFFF
    } else {
        clamp_u32(34 + data_len)
    };
    let mut out: Vec<u8> = Vec::new();
    push_u32(&mut out, total);
    push_chunk_header(&mut out, chunk);
    push_bytes(&mut out, chunk.columns_u8.as_slice(), data_len);
    assert(chunk.columns_u8@.take(data_len as int) =~= chunk.columns_u8@);
    assert(out@ =~= le32(clamp32(34 + chunk.columns_u8@.len() as int)) + precomputed_chunk_frame(*chunk));
    out
}

} // verus!
