use ferrous::library::LibraryRoot;
use ferrous::metadata::{format_label_from_extension, TrackMetadata};
use ferrous::numbers::{parse_i32, parse_u8, parse_usize};

fn root(path: &str, name: &str) -> LibraryRoot {
    LibraryRoot { path: path.to_string(), name: name.to_string() }
}

#[test]
fn format_label_prefers_user_facing_names() {
    assert_eq!(format_label_from_extension(Some("mp3")), "MP3");
    assert_eq!(format_label_from_extension(Some("flac")), "FLAC");
    assert_eq!(format_label_from_extension(Some("m4a")), "AAC");
    assert_eq!(format_label_from_extension(Some("ac3")), "AC3");
    assert_eq!(format_label_from_extension(Some("dts")), "DTS");
}

#[test]
fn format_label_handles_case_blanks_and_unknown_types() {
    assert_eq!(format_label_from_extension(Some(" OGG ")), "Vorbis");
    assert_eq!(format_label_from_extension(Some("Wave")), "WAV");
    assert_eq!(format_label_from_extension(Some("xyz")), "XYZ");
    assert_eq!(format_label_from_extension(Some("")), "");
    assert_eq!(format_label_from_extension(None), "");
}

/// The whole second of a playback position, as the player computes it.
fn second_of(position_seconds: f64) -> Option<usize> {
    if position_seconds.is_finite() && position_seconds >= 0.0 {
        Some(position_seconds.floor() as usize)
    } else {
        None
    }
}

#[test]
fn displayed_bitrate_uses_timeline_before_fallback() {
    let metadata = TrackMetadata {
        bitrate_kbps: Some(320),
        current_bitrate_kbps: Some(280),
        bitrate_timeline_kbps: vec![905, 777],
        ..TrackMetadata::default()
    };
    assert_eq!(metadata.displayed_bitrate_at(second_of(0.2)), Some(905));
    assert_eq!(metadata.displayed_bitrate_at(second_of(1.4)), Some(777));
    assert_eq!(metadata.displayed_bitrate_at(second_of(9.0)), Some(280));
}

#[test]
fn displayed_bitrate_falls_back_to_nominal_rate() {
    let metadata = TrackMetadata {
        bitrate_kbps: Some(320),
        bitrate_timeline_kbps: vec![0],
        ..TrackMetadata::default()
    };
    assert_eq!(metadata.displayed_bitrate_at(Some(0)), Some(320));
    assert_eq!(metadata.displayed_bitrate_at(None), Some(320));
}

#[test]
fn root_names_fall_back_to_path_and_folder() {
    assert_eq!(root("/music", "  My Music ").display_name(), "My Music");
    assert_eq!(root("/music", "   ").display_name(), "/music");
    assert_eq!(root("/mnt/music/", "").search_label(), "music");
    assert_eq!(root("/mnt/music/./", "").search_label(), "music");
    assert_eq!(root("/", "").search_label(), "/");
    assert_eq!(root("/mnt/..", "").search_label(), "/mnt/..");
    assert_eq!(root("/mnt/music", "Named").search_label(), "Named");
}

#[test]
fn integers_read_as_std_parse_reads_them() {
    let c = |s: &str| s.chars().collect::<Vec<char>>();
    for s in ["0", "42", "+7", "-3", "", "+", "-", "12a", "2147483647", "2147483648", "-2147483648", "-2147483649"] {
        assert_eq!(parse_i32(&c(s)), s.parse::<i32>().ok(), "i32 {s:?}");
    }
    for s in ["0", "255", "256", "+1", "-1", "-0", " 1"] {
        assert_eq!(parse_u8(&c(s)), s.parse::<u8>().ok(), "u8 {s:?}");
    }
    for s in ["0", "18446744073709551615", "18446744073709551616", "+10"] {
        assert_eq!(parse_usize(&c(s)), s.parse::<usize>().ok(), "usize {s:?}");
    }
}
