use ferrous::spectrogram_chunk::{encode_precomputed_spectrogram_chunk, PrecomputedSpectrogramChunk};

fn chunk(columns: Vec<u8>, complete: bool) -> PrecomputedSpectrogramChunk {
    PrecomputedSpectrogramChunk {
        track_token: 9,
        columns_u8: columns,
        bins_per_column: 4097,
        column_count: 0,
        channel_count: 1,
        start_column_index: 0,
        total_columns_estimate: 32,
        sample_rate_hz: 44_100,
        hop_size: 1_024,
        coverage_bits: 1.0f32.to_bits(),
        complete,
        buffer_reset: false,
        clear_history: false,
    }
}

#[test]
fn complete_precomputed_chunk_is_noted_without_panic() {
    let frame = encode_precomputed_spectrogram_chunk(&chunk(Vec::new(), true));
    assert_eq!(frame.len(), 4 + 34);
    assert_eq!(frame[32 + 4], 1);
}

#[test]
fn precomputed_chunk_layout() {
    let mut c = chunk(vec![7, 8, 9], false);
    c.column_count = 3;
    c.buffer_reset = true;
    let frame = encode_precomputed_spectrogram_chunk(&c);
    let mut expected: Vec<u8> = Vec::new();
    expected.extend_from_slice(&37u32.to_le_bytes());
    expected.push(0xA2);
    expected.extend_from_slice(&9u64.to_le_bytes());
    expected.extend_from_slice(&4097u16.to_le_bytes());
    expected.extend_from_slice(&3u16.to_le_bytes());
    expected.push(1);
    expected.extend_from_slice(&0u32.to_le_bytes());
    expected.extend_from_slice(&32u32.to_le_bytes());
    expected.extend_from_slice(&44_100u32.to_le_bytes());
    expected.extend_from_slice(&1024u16.to_le_bytes());
    expected.extend_from_slice(&1.0f32.to_le_bytes());
    expected.extend_from_slice(&[0, 1, 7, 8, 9]);
    assert_eq!(frame, expected);
}
