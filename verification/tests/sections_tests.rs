use ferrous::bridge::BridgeSearchResultRowType;
use ferrous::lastfm::{AuthState, RuntimeState};
use ferrous::library::{LibraryRoot, LibrarySnapshot};
use ferrous::metadata::TrackMetadata;
use ferrous::modes::LibrarySortMode;
use ferrous::search_finalize::BridgeSearchResultsFrame;
use ferrous::search_rows::BridgeSearchResultRow;
use ferrous::sections::{
    encode_lastfm_section, encode_library_meta_section, encode_metadata_section, encode_search_results_frame,
    encode_settings_section,
};
use ferrous::settings::BridgeSettings;

#[test]
fn lastfm_section_layout() {
    let s = RuntimeState {
        enabled: true,
        build_configured: false,
        username: "bob".to_string(),
        auth_state: AuthState::Connected,
        pending_scrobble_count: 3,
        status_text: String::new(),
        auth_url: String::new(),
    };
    assert_eq!(encode_lastfm_section(&s), vec![1, 0, 2, 3, 0, 0, 0, 3, 0, b'b', b'o', b'b', 0, 0, 0, 0]);
}

#[test]
fn settings_section_layout() {
    let s = BridgeSettings::defaults(false);
    let bytes = encode_settings_section(&s);
    assert_eq!(bytes.len(), 4 + 4 + 1 + 4 + 1 + 1 + 4 + 1 + 1);
    assert_eq!(&bytes[0..4], &s.volume_bits.to_le_bytes());
    assert_eq!(&bytes[4..8], &(s.fft_size as u32).to_le_bytes());
    assert_eq!(&bytes[9..13], &s.db_range_bits.to_le_bytes());
}

#[test]
fn metadata_section_marks_unknown_numbers() {
    let m = TrackMetadata { title: "T".to_string(), ..TrackMetadata::default() };
    let bytes = encode_metadata_section(&m);
    // source path (empty), title, artist, album, genre
    assert_eq!(&bytes[0..5], &[0, 0, 1, 0, b'T']);
    assert_eq!(&bytes[11..15], &i32::MIN.to_le_bytes());
    assert_eq!(bytes.len(), 2 + 3 + 2 + 2 + 2 + 4 + 4 + 4 + 2 + 2 + 2 + 4 + 2);
}

#[test]
fn library_meta_section_lists_roots() {
    let lib = LibrarySnapshot {
        roots: vec![LibraryRoot { path: "/m".to_string(), name: "Music".to_string() }],
        ..LibrarySnapshot::default()
    };
    let bytes = encode_library_meta_section(&lib, 2, 3, LibrarySortMode::Title);
    assert_eq!(&bytes[0..4], &1u32.to_le_bytes());
    assert_eq!(&bytes[8..12], &2u32.to_le_bytes());
    assert_eq!(&bytes[12..16], &3u32.to_le_bytes());
    assert_eq!(&bytes[17..21], &1i32.to_le_bytes());
    // last error (empty), then progress: four zeros, 0.0 rate, -1.0 ETA
    assert_eq!(&bytes[43..47], &(-1.0f32).to_le_bytes());
    assert_eq!(&bytes[47..49], &1u16.to_le_bytes());
    assert_eq!(&bytes[49..], &[2, 0, b'/', b'm', 5, 0, b'M', b'u', b's', b'i', b'c']);
}

fn row(score: u8) -> BridgeSearchResultRow {
    BridgeSearchResultRow {
        match_detail: String::new(),
        row_type: BridgeSearchResultRowType::Album,
        score,
        year: None,
        track_number: Some(70000),
        count: 4,
        length_parts: Vec::new(),
        label: "L".to_string(),
        artist: String::new(),
        album: String::new(),
        root_label: String::new(),
        genre: String::new(),
        cover_path: String::new(),
        artist_key: String::new(),
        album_key: String::new(),
        section_key: String::new(),
        track_key: String::new(),
        track_path: String::new(),
    }
}

#[test]
fn search_frame_writes_scores_as_floats() {
    for (half, value) in [(0u8, 0.0f32), (1, 0.5), (2, 1.0), (7, 3.5), (14, 7.0), (255, 127.5)] {
        let frame = BridgeSearchResultsFrame { seq: 9, rows: vec![row(half)], totals: [0, 1, 0] };
        let bytes = encode_search_results_frame(&frame, &vec![Some(12.5f32.to_bits())]);
        assert_eq!(&bytes[0..2], &[b'S', 2]);
        assert_eq!(&bytes[2..4], &1u16.to_le_bytes());
        assert_eq!(&bytes[4..8], &9u32.to_le_bytes());
        assert_eq!(bytes[8], 2);
        assert_eq!(&bytes[9..13], &value.to_le_bytes(), "score {half}");
        assert_eq!(&bytes[13..17], &i32::MIN.to_le_bytes());
        assert_eq!(&bytes[17..19], &u16::MAX.to_le_bytes());
        assert_eq!(&bytes[19..23], &4u32.to_le_bytes());
        assert_eq!(&bytes[23..27], &12.5f32.to_le_bytes());
    }
    let frame = BridgeSearchResultsFrame { seq: 1, rows: vec![row(2)], totals: [0, 0, 0] };
    let bytes = encode_search_results_frame(&frame, &vec![None]);
    assert_eq!(&bytes[23..27], &(-1.0f32).to_le_bytes());
}
