use ferrous::bridge::RepeatMode;
use ferrous::lastfm::{AuthState, RuntimeState};
use ferrous::library::{LibraryRoot, LibrarySnapshot, LibraryTrack};
use ferrous::metadata::TrackMetadata;
use ferrous::modes::{LibrarySortMode, ViewerFullscreenMode};
use ferrous::path_map::PathMap;
use ferrous::playback_events::PlaybackStatus;
use ferrous::queue::PlaybackState;
use ferrous::queue_details::IndexedTrack;
use ferrous::queue_section::{compute_queue_section_data, encode_queue_section, QueueSectionData};
use ferrous::sections::encode_metadata_section;
use ferrous::settings::BridgeSettings;
use ferrous::snapshot_packet::{
    encode_binary_snapshot, encode_error_event, encode_stopped_event, QueueSectionInput, SECTION_ERROR,
    SECTION_LIBRARY_META, SECTION_METADATA, SECTION_PLAYBACK, SECTION_QUEUE, SECTION_SETTINGS,
    SECTION_STOPPED, SNAPSHOT_MAGIC,
};

const SECTION_LIBRARY_TREE_RESERVED: u16 = 1 << 3;

fn read_u16(b: &[u8], off: &mut usize) -> u16 {
    let v = u16::from_le_bytes([b[*off], b[*off + 1]]);
    *off += 2;
    v
}

fn read_u32(b: &[u8], off: &mut usize) -> u32 {
    let v = u32::from_le_bytes(b[*off..*off + 4].try_into().expect("u32"));
    *off += 4;
    v
}

fn read_i32(b: &[u8], off: &mut usize) -> i32 {
    read_u32(b, off) as i32
}

fn read_f32(b: &[u8], off: &mut usize) -> f32 {
    f32::from_bits(read_u32(b, off))
}

fn read_f64(b: &[u8], off: &mut usize) -> f64 {
    let v = f64::from_le_bytes(b[*off..*off + 8].try_into().expect("f64"));
    *off += 8;
    v
}

fn read_u16_string(b: &[u8], off: &mut usize) -> String {
    let n = read_u16(b, off) as usize;
    let s = String::from_utf8(b[*off..*off + n].to_vec()).expect("utf8");
    *off += n;
    s
}

fn parse_packet_header(packet: &[u8]) -> (u32, u32, u16) {
    let mut off = 0usize;
    let magic = read_u32(packet, &mut off);
    let len = read_u32(packet, &mut off);
    let mask = read_u16(packet, &mut off);
    (magic, len, mask)
}

struct Sample {
    playback: PlaybackStatus,
    metadata: TrackMetadata,
    library: LibrarySnapshot,
    queue: Vec<String>,
    selected: Option<usize>,
    details: PathMap<IndexedTrack>,
    settings: BridgeSettings,
    lastfm: RuntimeState,
}

fn sample() -> Sample {
    let mut settings = BridgeSettings::defaults(false);
    settings.volume_bits = 0.75f32.to_bits();
    settings.fft_size = 2048;
    settings.viewer_fullscreen_mode = ViewerFullscreenMode::WholeScreen;
    settings.library_sort_mode = LibrarySortMode::Year;
    settings.integrations.system_media_controls_enabled = true;
    settings.integrations.lastfm_scrobbling_enabled = true;
    settings.integrations.lastfm_username = "tester".to_string();
    Sample {
        playback: PlaybackStatus {
            state: PlaybackState::Playing,
            current: Some("/music/a.flac".to_string()),
            current_queue_index: Some(0),
            volume_bits: 0.75f32.to_bits(),
            repeat_mode: RepeatMode::Off,
            shuffle_enabled: false,
            position_ns: 12_000_000_000,
            duration_ns: 180_000_000_000,
            current_bitrate_kbps: Some(905),
        },
        metadata: TrackMetadata {
            source_path: Some("/music/a.flac".to_string()),
            title: "Sample Track".to_string(),
            artist: "Sample Artist".to_string(),
            album: "Sample Album".to_string(),
            genre: "Rock".to_string(),
            year: Some(2020),
            sample_rate_hz: Some(48_000),
            bitrate_kbps: Some(320),
            channels: Some(2),
            bit_depth: Some(24),
            format_label: "FLAC".to_string(),
            current_bitrate_kbps: Some(905),
            bitrate_timeline_kbps: vec![905, 877, 901],
            cover_art_path: Some("/music/a.cover.png".to_string()),
            cover_art_rgba: None,
        },
        library: LibrarySnapshot {
            roots: vec![LibraryRoot { path: "/music".to_string(), name: String::new() }],
            tracks: vec![LibraryTrack {
                path: "/music/a.flac".to_string(),
                root_path: "/music".to_string(),
                title: "Sample Track".to_string(),
                artist: "Sample Artist".to_string(),
                album: "Sample Album".to_string(),
                cover_path: "/music/a.cover.png".to_string(),
                genre: "Rock".to_string(),
                year: Some(2020),
                track_no: Some(1),
                duration_bits: Some(180.0f32.to_bits()),
                ..LibraryTrack::default()
            }],
            ..LibrarySnapshot::default()
        },
        queue: vec!["/music/a.flac".to_string()],
        selected: Some(0),
        details: PathMap::new(),
        settings,
        lastfm: RuntimeState {
            enabled: true,
            build_configured: true,
            username: "tester".to_string(),
            auth_state: AuthState::Connected,
            pending_scrobble_count: 2,
            status_text: "Connected".to_string(),
            auth_url: String::new(),
        },
    }
}

fn total_bits(data: &QueueSectionData) -> u64 {
    let total: f64 = data.duration_parts.iter().map(|b| f64::from(f32::from_bits(*b))).sum();
    total.to_bits()
}

fn packet(s: &Sample, with_queue: bool) -> Vec<u8> {
    let data = compute_queue_section_data(&s.queue, &s.library, &s.details);
    let queue = if with_queue {
        Some(QueueSectionInput {
            queue_len: s.queue.len(),
            selected: s.selected,
            total_duration_bits: total_bits(&data),
            data: &data,
        })
    } else {
        None
    };
    encode_binary_snapshot(
        &s.playback,
        12.0f64.to_bits(),
        180.0f64.to_bits(),
        queue,
        &s.library,
        1,
        1,
        &s.metadata,
        &s.settings,
        &s.lastfm,
    )
}

#[test]
fn queue_section_encodes_enriched_track_rows() {
    let s = sample();
    let data = compute_queue_section_data(&s.queue, &s.library, &s.details);
    let encoded = encode_queue_section(s.queue.len(), s.selected, total_bits(&data), &data);

    let mut offset = 0usize;
    assert_eq!(read_u32(&encoded, &mut offset), 1);
    assert_eq!(read_i32(&encoded, &mut offset), 0);
    assert!((read_f64(&encoded, &mut offset) - 180.0).abs() < 0.001);
    assert_eq!(read_u32(&encoded, &mut offset), 0);
    assert_eq!(read_u32(&encoded, &mut offset), 1);
    assert_eq!(read_u16_string(&encoded, &mut offset), "Sample Track");
    assert_eq!(read_u16_string(&encoded, &mut offset), "Sample Artist");
    assert_eq!(read_u16_string(&encoded, &mut offset), "Sample Album");
    assert_eq!(read_u16_string(&encoded, &mut offset), "/music/a.cover.png");
    assert_eq!(read_u16_string(&encoded, &mut offset), "Rock");
    assert_eq!(read_i32(&encoded, &mut offset), 2020);
    assert_eq!(read_u16(&encoded, &mut offset), 1);
    assert!((read_f32(&encoded, &mut offset) - 180.0).abs() < 0.001);
    assert_eq!(read_u16_string(&encoded, &mut offset), "/music/a.flac");
    assert_eq!(offset, encoded.len());
}

#[test]
fn queue_section_uses_external_queue_details_when_library_misses() {
    let mut s = sample();
    s.library = LibrarySnapshot::default();
    s.queue = vec!["/outside/song.flac".to_string()];
    s.details.insert(
        "/outside/song.flac".to_string(),
        IndexedTrack {
            title: "Outside Song".to_string(),
            artist: "Outside Artist".to_string(),
            album: "Outside Album".to_string(),
            cover_path: "/outside/cover.jpg".to_string(),
            genre: "Ambient".to_string(),
            year: Some(2024),
            track_no: Some(7),
            duration_bits: Some(245.0f32.to_bits()),
        },
    );

    let queue_section = compute_queue_section_data(&s.queue, &s.library, &s.details);
    assert_eq!(queue_section.unknown_duration_count, 0);
    assert!((f64::from_bits(total_bits(&queue_section)) - 245.0).abs() < 0.001);
    assert_eq!(queue_section.tracks.len(), 1);
    assert_eq!(queue_section.tracks[0].title, "Outside Song");
    assert_eq!(queue_section.tracks[0].artist, "Outside Artist");
    assert_eq!(queue_section.tracks[0].album, "Outside Album");
    assert_eq!(queue_section.tracks[0].cover_path, "/outside/cover.jpg");
    assert_eq!(queue_section.tracks[0].genre, "Ambient");
    assert_eq!(queue_section.tracks[0].year, Some(2024));
    assert_eq!(queue_section.tracks[0].track_number, Some(7));
    assert_eq!(queue_section.tracks[0].length_bits.map(f32::from_bits), Some(245.0));
}

#[test]
fn metadata_section_encodes_genre_and_year() {
    let s = sample();
    let encoded = encode_metadata_section(&s.metadata);

    let mut offset = 0usize;
    assert_eq!(read_u16_string(&encoded, &mut offset), "/music/a.flac");
    assert_eq!(read_u16_string(&encoded, &mut offset), "Sample Track");
    assert_eq!(read_u16_string(&encoded, &mut offset), "Sample Artist");
    assert_eq!(read_u16_string(&encoded, &mut offset), "Sample Album");
    assert_eq!(read_u16_string(&encoded, &mut offset), "Rock");
    assert_eq!(read_i32(&encoded, &mut offset), 2020);
    assert_eq!(read_u32(&encoded, &mut offset), 48_000);
    assert_eq!(read_u32(&encoded, &mut offset), 320);
    assert_eq!(read_u16(&encoded, &mut offset), 2);
    assert_eq!(read_u16(&encoded, &mut offset), 24);
    assert_eq!(read_u16_string(&encoded, &mut offset), "FLAC");
    assert_eq!(read_u32(&encoded, &mut offset), 905);
    assert_eq!(read_u16_string(&encoded, &mut offset), "/music/a.cover.png");
    assert_eq!(offset, encoded.len());
}

#[test]
fn snapshot_packet_contract_has_expected_shape() {
    let packet = packet(&sample(), true);
    let (magic, total_len, mask) = parse_packet_header(&packet);
    assert_eq!(magic, SNAPSHOT_MAGIC);
    assert_eq!(total_len as usize, packet.len());
    assert_ne!(mask & SECTION_PLAYBACK, 0);
    assert_ne!(mask & SECTION_QUEUE, 0);
    assert_ne!(mask & SECTION_LIBRARY_META, 0);
    assert_eq!(mask & SECTION_LIBRARY_TREE_RESERVED, 0);
    assert_ne!(mask & SECTION_METADATA, 0);
    assert_ne!(mask & SECTION_SETTINGS, 0);
    assert_eq!(mask & SECTION_ERROR, 0);
    assert_eq!(mask & SECTION_STOPPED, 0);
}

fn section_after(packet: &[u8], skip: usize) -> Vec<u8> {
    let mut offset = 12usize;
    for _ in 0..skip {
        let len = read_u32(packet, &mut offset) as usize;
        offset += len;
    }
    let len = read_u32(packet, &mut offset) as usize;
    packet[offset..offset + len].to_vec()
}

#[test]
fn settings_section_encodes_system_media_controls_flag() {
    let mut s = sample();
    s.settings.integrations.system_media_controls_enabled = false;
    s.settings.viewer_fullscreen_mode = ViewerFullscreenMode::WholeScreen;
    let packet = packet(&s, true);
    let settings = section_after(&packet, 4);
    assert_eq!(settings.iter().rev().nth(1).copied(), Some(0));
    assert_eq!(settings.last().copied(), Some(1));
}

#[test]
fn lastfm_section_encodes_runtime_state() {
    let packet = packet(&sample(), true);
    let lastfm = section_after(&packet, 5);
    let mut lastfm_offset = 0usize;
    assert_eq!(lastfm[lastfm_offset], 1);
    lastfm_offset += 1;
    assert_eq!(lastfm[lastfm_offset], 1);
    lastfm_offset += 1;
    assert_eq!(lastfm[lastfm_offset], 2);
    lastfm_offset += 1;
    assert_eq!(read_u32(&lastfm, &mut lastfm_offset), 2);
    assert_eq!(read_u16_string(&lastfm, &mut lastfm_offset), "tester");
    assert_eq!(read_u16_string(&lastfm, &mut lastfm_offset), "Connected");
    assert_eq!(read_u16_string(&lastfm, &mut lastfm_offset), "");
    assert_eq!(lastfm_offset, lastfm.len());
}

#[test]
fn snapshot_packet_can_omit_queue_section() {
    let mut s = sample();
    s.queue.clear();
    let packet = packet(&s, false);
    let (_, total_len, mask) = parse_packet_header(&packet);
    assert_eq!(total_len as usize, packet.len());
    assert_ne!(mask & SECTION_PLAYBACK, 0);
    assert_eq!(mask & SECTION_QUEUE, 0);
    assert_ne!(mask & SECTION_METADATA, 0);
}

#[test]
fn playback_section_layout_and_events() {
    let packet = packet(&sample(), false);
    let playback = section_after(&packet, 0);
    let mut off = 0usize;
    assert_eq!(playback[0], 1);
    off += 1;
    assert_eq!(read_f64(&playback, &mut off), 12.0);
    assert_eq!(read_f64(&playback, &mut off), 180.0);
    assert_eq!(read_f32(&playback, &mut off), 0.75);
    assert_eq!(&playback[off..off + 2], &[0, 0]);
    off += 2;
    assert_eq!(read_i32(&playback, &mut off), 0);
    assert_eq!(read_u16_string(&playback, &mut off), "/music/a.flac");
    assert_eq!(off, playback.len());

    let err = encode_error_event("bad");
    assert_eq!(parse_packet_header(&err), (SNAPSHOT_MAGIC, 12 + 4 + 5, SECTION_ERROR));
    assert_eq!(&err[12..], &[5, 0, 0, 0, 3, 0, b'b', b'a', b'd']);
    let stopped = encode_stopped_event();
    assert_eq!(parse_packet_header(&stopped), (SNAPSHOT_MAGIC, 16, SECTION_STOPPED));
    assert_eq!(stopped.len(), 16);
}
