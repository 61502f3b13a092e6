use ferrous::library::{LibraryRoot, LibrarySnapshot, LibraryTrack};
use ferrous::library_tree::{ROW_TYPE_ALBUM, ROW_TYPE_ARTIST, ROW_TYPE_ROOT, ROW_TYPE_TRACK};
use ferrous::modes::LibrarySortMode;
use ferrous::tree_build::{build_library_tree_flat_binary, build_root_builders, track_leaf};
use ferrous::tree_keys::{compute_artist_album_counts, retain_valid_expanded_keys};

#[derive(Debug)]
struct DecodedRow {
    row_type: u8,
    depth: u16,
    source_index: i32,
    track_number: u16,
    child_count: u16,
    title: String,
    key: String,
    artist: String,
    path: String,
    cover_path: String,
    track_path: String,
    play_paths: Vec<String>,
}

fn read_u8(input: &[u8], offset: &mut usize) -> Option<u8> {
    if *offset + 1 > input.len() {
        return None;
    }
    let value = input[*offset];
    *offset += 1;
    Some(value)
}

fn read_u16(input: &[u8], offset: &mut usize) -> Option<u16> {
    if *offset + 2 > input.len() {
        return None;
    }
    let value = u16::from_le_bytes([input[*offset], input[*offset + 1]]);
    *offset += 2;
    Some(value)
}

fn read_i32(input: &[u8], offset: &mut usize) -> Option<i32> {
    if *offset + 4 > input.len() {
        return None;
    }
    let value = i32::from_le_bytes([input[*offset], input[*offset + 1], input[*offset + 2], input[*offset + 3]]);
    *offset += 4;
    Some(value)
}

fn read_u32(input: &[u8], offset: &mut usize) -> Option<u32> {
    if *offset + 4 > input.len() {
        return None;
    }
    let value = u32::from_le_bytes([input[*offset], input[*offset + 1], input[*offset + 2], input[*offset + 3]]);
    *offset += 4;
    Some(value)
}

fn read_u16_string(input: &[u8], offset: &mut usize) -> Option<String> {
    let len = usize::from(read_u16(input, offset)?);
    if *offset + len > input.len() {
        return None;
    }
    let bytes = &input[*offset..*offset + len];
    *offset += len;
    Some(String::from_utf8_lossy(bytes).to_string())
}

fn decode_rows(bytes: &[u8]) -> Vec<DecodedRow> {
    let mut offset = 0usize;
    let Some(row_count) = read_u32(bytes, &mut offset) else {
        return Vec::new();
    };
    let mut rows = Vec::new();
    for _ in 0..row_count {
        let Some(row_type) = read_u8(bytes, &mut offset) else { break };
        let Some(depth) = read_u16(bytes, &mut offset) else { break };
        let Some(source_index) = read_i32(bytes, &mut offset) else { break };
        let Some(track_number) = read_u16(bytes, &mut offset) else { break };
        let Some(child_count) = read_u16(bytes, &mut offset) else { break };
        let Some(title) = read_u16_string(bytes, &mut offset) else { break };
        let Some(key) = read_u16_string(bytes, &mut offset) else { break };
        let Some(artist) = read_u16_string(bytes, &mut offset) else { break };
        let Some(path) = read_u16_string(bytes, &mut offset) else { break };
        let Some(cover_path) = read_u16_string(bytes, &mut offset) else { break };
        let Some(track_path) = read_u16_string(bytes, &mut offset) else { break };
        let Some(play_path_count) = read_u16(bytes, &mut offset) else { break };
        let mut play_paths = Vec::new();
        let mut ok = true;
        for _ in 0..play_path_count {
            let Some(play_path) = read_u16_string(bytes, &mut offset) else {
                ok = false;
                break;
            };
            play_paths.push(play_path);
        }
        if !ok {
            break;
        }
        rows.push(DecodedRow {
            row_type,
            depth,
            source_index,
            track_number,
            child_count,
            title,
            key,
            artist,
            path,
            cover_path,
            track_path,
            play_paths,
        });
    }
    rows
}

fn track(path: &str, album: &str, year: Option<i32>, track_no: Option<u32>, title: &str) -> LibraryTrack {
    LibraryTrack {
        path: path.to_string(),
        root_path: "/music".to_string(),
        title: title.to_string(),
        album: album.to_string(),
        year,
        track_no,
        ..LibraryTrack::default()
    }
}

fn root(path: &str) -> LibraryRoot {
    LibraryRoot { path: path.to_string(), name: String::new() }
}

fn no_images() -> Vec<(String, String)> {
    Vec::new()
}

#[test]
fn single_root_hides_root_rows() {
    let library = LibrarySnapshot {
        roots: vec![root("/music")],
        tracks: vec![track("/music/Artist A/Album A/01.flac", "Album A", Some(2020), Some(1), "Track")],
        ..LibrarySnapshot::default()
    };
    let tree = build_library_tree_flat_binary(&library, LibrarySortMode::Year, None, &no_images());
    let rows = decode_rows(&tree);
    assert!(!rows.is_empty());
    assert_eq!(rows[0].row_type, ROW_TYPE_ARTIST);
}

#[test]
fn multi_root_keeps_roots_split() {
    let mk = |root_path: &str, title: &str| LibraryTrack {
        path: format!("{root_path}/Artist/Album/01.flac"),
        root_path: root_path.to_string(),
        title: title.to_string(),
        album: "Album".to_string(),
        year: Some(2020),
        track_no: Some(1),
        ..LibraryTrack::default()
    };
    let library = LibrarySnapshot {
        roots: vec![root("/music-a"), root("/music-b")],
        tracks: vec![mk("/music-a", "Track A"), mk("/music-b", "Track B")],
        ..LibrarySnapshot::default()
    };
    let tree = build_library_tree_flat_binary(&library, LibrarySortMode::Year, None, &no_images());
    let rows = decode_rows(&tree);
    let root_rows = rows.iter().filter(|row| row.row_type == ROW_TYPE_ROOT).collect::<Vec<_>>();
    assert_eq!(root_rows.len(), 2);
}

#[test]
fn artist_keys_include_root_identity() {
    let mk = |root_path: &str, album: &str, title: &str, year: i32| LibraryTrack {
        path: format!("{root_path}/Same Artist/{album}/01.flac"),
        root_path: root_path.to_string(),
        title: title.to_string(),
        album: album.to_string(),
        year: Some(year),
        track_no: Some(1),
        ..LibraryTrack::default()
    };
    let library = LibrarySnapshot {
        roots: vec![root("/music-a"), root("/music-b")],
        tracks: vec![mk("/music-a", "Album A", "Track A", 2020), mk("/music-b", "Album B", "Track B", 2021)],
        ..LibrarySnapshot::default()
    };
    let tree = build_library_tree_flat_binary(&library, LibrarySortMode::Year, None, &no_images());
    let rows = decode_rows(&tree);
    let artist_keys = rows
        .iter()
        .filter(|row| row.row_type == ROW_TYPE_ARTIST)
        .map(|row| row.key.clone())
        .collect::<Vec<_>>();
    assert!(artist_keys.contains(&"artist|/music-a|Same Artist".to_string()));
    assert!(artist_keys.contains(&"artist|/music-b|Same Artist".to_string()));
}

#[test]
fn lazy_hydration_emits_artist_then_album_then_tracks() {
    let library = LibrarySnapshot {
        roots: vec![root("/music")],
        tracks: vec![track("/music/Artist A/Album A/01.flac", "Album A", Some(2020), Some(1), "Track 01")],
        ..LibrarySnapshot::default()
    };
    let expanded: Vec<String> = Vec::new();
    let bytes = build_library_tree_flat_binary(&library, LibrarySortMode::Year, Some(&expanded), &no_images());
    let rows = decode_rows(&bytes);
    assert_eq!(rows.len(), 1);
    assert_eq!(rows[0].row_type, ROW_TYPE_ARTIST);
    assert_eq!(rows[0].child_count, 1);

    let mut expanded: Vec<String> = vec!["artist|/music|Artist A".to_string()];
    let bytes = build_library_tree_flat_binary(&library, LibrarySortMode::Year, Some(&expanded), &no_images());
    let rows = decode_rows(&bytes);
    assert!(rows.iter().any(|row| row.row_type == ROW_TYPE_ALBUM));
    assert!(!rows.iter().any(|row| row.row_type == ROW_TYPE_TRACK));

    expanded.push("album|/music|Artist A|Album A".to_string());
    let bytes = build_library_tree_flat_binary(&library, LibrarySortMode::Year, Some(&expanded), &no_images());
    let rows = decode_rows(&bytes);
    assert!(rows.iter().any(|row| row.row_type == ROW_TYPE_ALBUM));
    assert!(rows.iter().any(|row| row.row_type == ROW_TYPE_TRACK));
}

#[test]
fn retain_valid_expanded_keys_prunes_missing_nodes() {
    let library = LibrarySnapshot {
        roots: vec![root("/music")],
        tracks: vec![track("/music/Artist A/Album A/01.flac", "Album A", Some(2020), Some(1), "Track 01")],
        ..LibrarySnapshot::default()
    };
    let mut expanded = vec![
        "artist|/music|Artist A".to_string(),
        "album|/music|Artist A|Album A".to_string(),
        "artist|/music|Missing Artist".to_string(),
        "album|/music|Artist A|Missing Album".to_string(),
    ];
    retain_valid_expanded_keys(&library, &mut expanded);
    assert!(expanded.contains(&"artist|/music|Artist A".to_string()));
    assert!(expanded.contains(&"album|/music|Artist A|Album A".to_string()));
    assert!(!expanded.contains(&"artist|/music|Missing Artist".to_string()));
    assert!(!expanded.contains(&"album|/music|Artist A|Missing Album".to_string()));
}

#[test]
fn binary_row_tracks_include_paths_and_play_paths() {
    let library = LibrarySnapshot {
        roots: vec![root("/music")],
        tracks: vec![track("/music/Artist A/Album A/01.flac", "Album A", Some(2020), Some(1), "Track 01")],
        ..LibrarySnapshot::default()
    };
    let bytes = build_library_tree_flat_binary(&library, LibrarySortMode::Year, None, &no_images());
    let rows = decode_rows(&bytes);
    let track_row = rows.iter().find(|row| row.row_type == ROW_TYPE_TRACK).expect("track row");
    assert_eq!(track_row.track_path, "/music/Artist A/Album A/01.flac");
    assert_eq!(track_row.path, "/music/Artist A/Album A/01.flac");
    assert_eq!(track_row.play_paths.len(), 1);
    assert_eq!(track_row.play_paths[0], "/music/Artist A/Album A/01.flac");
    assert!(track_row.key.starts_with("track|"));
    assert_eq!(track_row.source_index, -1);
    assert_eq!(track_row.track_number, 1);
    assert_eq!(track_row.child_count, 0);
    assert!(!track_row.title.is_empty());
    assert!(!track_row.artist.is_empty());
    assert!(track_row.cover_path.is_empty());
    assert!(track_row.depth > 0);
}

// Further checks of filing and counting.

#[test]
fn tracks_are_filed_by_artist_album_and_section_in_name_order() {
    let roots = vec![root("/music")];
    let tracks = vec![
        track("/music/B/Album/01.flac", "", None, None, ""),
        track("/music/A/Album/CD2/01.flac", "", None, None, "x"),
        track("/music/A/Album/CD1/01.flac", "", None, None, "y"),
        track("/music/loose.flac", "", None, None, "z"),
    ];
    let builders = build_root_builders(&roots, &tracks);
    assert_eq!(builders.len(), 1);
    let rb = &builders[0].1;
    let names: Vec<&str> = rb.artists.iter().map(|(k, _)| k.as_str()).collect();
    assert_eq!(names, ["A", "B", "Unknown Artist"]);
    let a = &rb.artists[0].1;
    assert_eq!(a.artist_path, "/music/A");
    let album = &a.albums[0].1;
    assert_eq!(album.folder_path, "/music/A/Album");
    let sections: Vec<&str> = album.sections.iter().map(|(k, _)| k.as_str()).collect();
    assert_eq!(sections, ["CD1", "CD2"]);
    assert_eq!(rb.artists[2].1.loose_tracks.len(), 1);
}

#[test]
fn leaf_title_falls_back_to_file_stem() {
    let leaf = track_leaf(&track("/music/A/B/03 - Song.name.flac", " Album ", None, None, "  "));
    assert_eq!(leaf.title, "03 - Song.name");
    assert_eq!(leaf.file_stem, "03 - Song.name");
    assert_eq!(leaf.album_tag, "Album");
    let leaf = track_leaf(&track("/music/A/B/.hidden", "", None, None, ""));
    assert_eq!(leaf.file_stem, ".hidden");
}

#[test]
fn artist_and_album_counts_are_distinct_keys() {
    let library = LibrarySnapshot {
        roots: vec![root("/music")],
        tracks: vec![
            track("/music/A/X/01.flac", "", None, None, ""),
            track("/music/A/X/02.flac", "", None, None, ""),
            track("/music/A/Y/CD1/01.flac", "", None, None, ""),
            track("/music/B/01.flac", "", None, None, ""),
        ],
        ..LibrarySnapshot::default()
    };
    assert_eq!(compute_artist_album_counts(&library), (2, 2));
    let empty = LibrarySnapshot::default();
    assert_eq!(compute_artist_album_counts(&empty), (0, 0));
    let mut keys = vec!["artist|/music|A".to_string()];
    retain_valid_expanded_keys(&empty, &mut keys);
    assert!(keys.is_empty());
}

fn library_track(path: &str, root: &str, artist: &str, album: &str, year: Option<i32>, track_no: Option<u32>) -> LibraryTrack {
    LibraryTrack {
        path: path.to_string(),
        root_path: root.to_string(),
        artist: artist.to_string(),
        album: album.to_string(),
        year,
        track_no,
        ..LibraryTrack::default()
    }
}

#[test]
fn collect_album_paths_for_queue_honors_album_key_scope() {
    let library = LibrarySnapshot {
        roots: vec![root("/music")],
        tracks: vec![
            library_track("/music/Porcupine Tree/Muut/01 - Intro.flac", "/music", "Porcupine Tree", "Muut", Some(2005), Some(1)),
            library_track(
                "/music/Porcupine Tree/Muut/Porcupine Tree Sampler 2005/01 - Hello.flac",
                "/music",
                "Blackfield",
                "Porcupine Tree Sampler 2005",
                Some(2005),
                Some(1),
            ),
            library_track("/music/Porcupine Tree/Muut/Disc 2/01 - Bonus.flac", "/music", "Porcupine Tree", "Muut", Some(2005), Some(1)),
            library_track("/music/Blackfield/Blackfield/01 - Open Mind.flac", "/music", "Blackfield", "Blackfield", Some(2004), Some(1)),
        ],
        ..LibrarySnapshot::default()
    };
    let ordered = ferrous::collection::collect_album_paths_for_queue(
        &library,
        "artist|/music|Porcupine Tree",
        "album|/music|Porcupine Tree|Muut",
    );
    assert_eq!(
        ordered,
        vec![
            "/music/Porcupine Tree/Muut/01 - Intro.flac".to_string(),
            "/music/Porcupine Tree/Muut/Disc 2/01 - Bonus.flac".to_string(),
        ]
    );
}

#[test]
fn collect_album_paths_for_queue_excludes_bonus_by_name_selector() {
    let library = LibrarySnapshot {
        roots: vec![root("/music")],
        tracks: vec![
            library_track("/music/Opeth/Blackwater Park/01 - The Leper Affinity.flac", "/music", "Opeth", "Blackwater Park", Some(2001), Some(1)),
            library_track("/music/Opeth/Blackwater Park/CD2/01 - Patterns.flac", "/music", "Opeth", "Blackwater Park", Some(2001), Some(1)),
            library_track("/music/Opeth/Blackwater Park/Deluxe Bonus/01 - Still Day.flac", "/music", "Opeth", "Deluxe Bonus", Some(2001), Some(1)),
        ],
        ..LibrarySnapshot::default()
    };
    let ordered = ferrous::collection::collect_album_paths_for_queue(&library, "Opeth", "Blackwater Park");
    assert_eq!(
        ordered,
        vec![
            "/music/Opeth/Blackwater Park/01 - The Leper Affinity.flac".to_string(),
            "/music/Opeth/Blackwater Park/CD2/01 - Patterns.flac".to_string(),
        ]
    );
}

#[test]
fn blank_album_selector_queues_nothing() {
    let library = LibrarySnapshot {
        roots: vec![root("/music")],
        tracks: vec![library_track("/music/A/B/01.flac", "/music", "A", "B", None, None)],
        ..LibrarySnapshot::default()
    };
    assert!(ferrous::collection::collect_album_paths_for_queue(&library, "A", "  ").is_empty());
    let outside = LibrarySnapshot {
        roots: vec![root("/music")],
        tracks: vec![library_track("/elsewhere/x.flac", "", " ", "", None, None)],
        ..LibrarySnapshot::default()
    };
    assert_eq!(
        ferrous::collection::collect_album_paths_for_queue(&outside, "Unknown Artist", "Unknown Album"),
        vec!["/elsewhere/x.flac".to_string()]
    );
}

#[test]
fn library_requests_plan_queue_and_import_work() {
    use_plans();
}

fn use_plans() {
    let plan = ferrous::library_commands::plan_library_command(ferrous::bridge::BridgeLibraryCommand::PlayTrack("/a.flac".to_string()));
    match plan {
        ferrous::library_commands::LibraryCommandPlan::Import { action, paths, start_playback } => {
            assert_eq!(action, ferrous::library_commands::ImportAction::Open);
            assert_eq!(paths, vec!["/a.flac".to_string()]);
            assert!(start_playback);
        }
        _ => panic!("expected an import"),
    }
    let plan = ferrous::library_commands::plan_library_command(ferrous::bridge::BridgeLibraryCommand::SetSearchQuery {
        seq: 3,
        query: "  blue ".to_string(),
    });
    match plan {
        ferrous::library_commands::LibraryCommandPlan::Search { seq, query } => {
            assert_eq!(seq, 3);
            assert_eq!(query, "blue");
        }
        _ => panic!("expected a search"),
    }
    let mut keys: Vec<String> = Vec::new();
    assert!(ferrous::library_commands::set_node_expanded(&mut keys, " artist|/m|A ", true));
    assert!(!ferrous::library_commands::set_node_expanded(&mut keys, "artist|/m|A", true));
    assert_eq!(keys, vec!["artist|/m|A".to_string()]);
    assert!(!ferrous::library_commands::set_node_expanded(&mut keys, "   ", true));
    assert!(ferrous::library_commands::set_node_expanded(&mut keys, "artist|/m|A", false));
    assert!(keys.is_empty());

    let mut queue: Vec<String> = vec!["/x".to_string()];
    let mut selected = Some(0usize);
    assert!(ferrous::library_commands::replace_queue_paths(&mut queue, &mut selected, Vec::new(), true).is_none());
    let ops = ferrous::library_commands::replace_queue_paths(&mut queue, &mut selected, vec!["/a".to_string(), "/b".to_string()], true)
        .expect("ops");
    assert_eq!(queue, vec!["/a".to_string(), "/b".to_string()]);
    assert_eq!(ops.len(), 3);
}
