use ferrous::library::{LibrarySnapshot, LibraryTrack};
use ferrous::path_map::PathMap;
use ferrous::queue_details::IndexedTrack;
use ferrous::queue_section::{compute_queue_section_data, encode_queue_section};

fn s(v: &str) -> String {
    v.to_string()
}

fn indexed(title: &str, duration: Option<f32>) -> IndexedTrack {
    IndexedTrack {
        title: title.to_string(),
        artist: s("Ext"),
        album: String::new(),
        cover_path: String::new(),
        genre: String::new(),
        year: Some(1999),
        track_no: Some(3),
        duration_bits: duration.map(f32::to_bits),
    }
}

#[test]
fn queue_entries_take_library_then_file_details() {
    let lib = LibrarySnapshot {
        tracks: vec![
            LibraryTrack { path: s("/m/a.flac"), title: s("First"), duration_bits: Some(10.0f32.to_bits()), ..LibraryTrack::default() },
            LibraryTrack { path: s("/m/a.flac"), title: s("   "), artist: s("Later"), duration_bits: Some(0.0f32.to_bits()), ..LibraryTrack::default() },
        ],
        ..LibrarySnapshot::default()
    };
    let mut details: PathMap<IndexedTrack> = PathMap::new();
    details.insert(s("/x/b.mp3"), indexed("Bee", Some(2.5)));
    details.insert(s("/m/a.flac"), indexed("Ignored", Some(99.0)));
    let queue = vec![s("/m/a.flac"), s("/x/b.mp3"), s("/y/c.ogg"), s("/x//b.mp3")];
    let data = compute_queue_section_data(&queue, &lib, &details);
    assert_eq!(data.tracks.len(), 4);
    // the last library track at a path wins, and a blank title falls back to the file name
    assert_eq!(data.tracks[0].title, "a.flac");
    assert_eq!(data.tracks[0].artist, "Later");
    assert_eq!(data.tracks[0].length_bits, Some(0.0f32.to_bits()));
    assert_eq!(data.tracks[1].title, "Bee");
    assert_eq!(data.tracks[1].year, Some(1999));
    assert_eq!(data.tracks[2].title, "c.ogg");
    assert_eq!(data.tracks[2].artist, "");
    assert_eq!(data.tracks[2].length_bits, None);
    // the same place written another way finds the same details
    assert_eq!(data.tracks[3].title, "Bee");
    assert_eq!(data.tracks[3].path, "/x//b.mp3");
    // a zero length is shown but not counted
    assert_eq!(data.duration_parts, vec![2.5f32.to_bits(), 2.5f32.to_bits()]);
    assert_eq!(data.unknown_duration_count, 2);
}

#[test]
fn queue_lengths_that_are_not_numbers_are_not_shown() {
    let lib = LibrarySnapshot {
        tracks: vec![
            LibraryTrack { path: s("/a"), duration_bits: Some(f32::NAN.to_bits()), ..LibraryTrack::default() },
            LibraryTrack { path: s("/b"), duration_bits: Some((-1.0f32).to_bits()), ..LibraryTrack::default() },
            LibraryTrack { path: s("/c"), duration_bits: Some(f32::INFINITY.to_bits()), ..LibraryTrack::default() },
        ],
        ..LibrarySnapshot::default()
    };
    let details: PathMap<IndexedTrack> = PathMap::new();
    let queue = vec![s("/a"), s("/b"), s("/c")];
    let data = compute_queue_section_data(&queue, &lib, &details);
    assert!(data.tracks.iter().all(|t| t.length_bits.is_none()));
    assert!(data.duration_parts.is_empty());
    assert_eq!(data.unknown_duration_count, 3);
}

#[test]
fn queue_section_layout() {
    let lib = LibrarySnapshot::default();
    let details: PathMap<IndexedTrack> = PathMap::new();
    let queue = vec![s("/q/z.wav")];
    let data = compute_queue_section_data(&queue, &lib, &details);
    let total = 0.0f64.to_bits();
    let bytes = encode_queue_section(queue.len(), Some(5), total, &data);
    let mut expected: Vec<u8> = Vec::new();
    expected.extend_from_slice(&1u32.to_le_bytes());
    expected.extend_from_slice(&5i32.to_le_bytes());
    expected.extend_from_slice(&0.0f64.to_le_bytes());
    expected.extend_from_slice(&1u32.to_le_bytes());
    expected.extend_from_slice(&1u32.to_le_bytes());
    expected.extend_from_slice(&[5, 0, b'z', b'.', b'w', b'a', b'v']);
    expected.extend_from_slice(&[0, 0, 0, 0, 0, 0, 0, 0]);
    expected.extend_from_slice(&i32::MIN.to_le_bytes());
    expected.extend_from_slice(&0u16.to_le_bytes());
    expected.extend_from_slice(&(-1.0f32).to_le_bytes());
    expected.extend_from_slice(&[8, 0, b'/', b'q', b'/', b'z', b'.', b'w', b'a', b'v']);
    assert_eq!(bytes, expected);
    let none = encode_queue_section(0, None, 2.5f64.to_bits(), &compute_queue_section_data(&vec![], &lib, &details));
    assert_eq!(&none[4..8], &(-1i32).to_le_bytes());
    assert_eq!(&none[8..16], &2.5f64.to_le_bytes());
}
