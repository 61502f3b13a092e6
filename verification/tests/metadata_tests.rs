use ferrous::metadata::{
    apply_appended_tags, apply_file_properties, apply_stream_details, apply_tag_fields, extension_of,
    finish_metadata, format_label_for_kind, initial_metadata, FileProperties, StreamDetails, TagFields,
    TagFileKind,
};

#[test]
fn metadata_starts_from_the_file_stem() {
    let m = initial_metadata("/music/Artist/01 - Song.flac");
    assert_eq!(m.source_path.as_deref(), Some("/music/Artist/01 - Song.flac"));
    assert_eq!(m.title, "01 - Song");
    assert!(m.artist.is_empty() && m.format_label.is_empty());
    assert_eq!(initial_metadata("/").title, "");
    assert_eq!(extension_of("/a/b.Flac").as_deref(), Some("Flac"));
    assert_eq!(extension_of("/a/.hidden"), None);
    assert_eq!(extension_of("/a/noext"), None);
}

#[test]
fn tags_fill_unknowns_and_appended_tags_override() {
    let mut m = initial_metadata("/m/x.wav");
    apply_tag_fields(&mut m, &TagFields { title: None, artist: Some("A".into()), album: None, genre: None, year: Some(1999) });
    assert_eq!((m.title.as_str(), m.artist.as_str(), m.album.as_str(), m.genre.as_str()), ("Unknown title", "A", "Unknown album", ""));
    assert_eq!(m.year, Some(1999));
    apply_appended_tags(&mut m, &TagFields { title: Some("T".into()), genre: Some("Dub".into()), ..TagFields::default() });
    assert_eq!((m.title.as_str(), m.artist.as_str(), m.genre.as_str()), ("T", "A", "Dub"));
    assert_eq!(m.year, Some(1999));
}

#[test]
fn properties_labels_and_bitrate_fallbacks() {
    let mut m = initial_metadata("/m/x.mp3");
    let props = FileProperties { kind: TagFileKind::Mpeg, sample_rate_hz: Some(44100), channels: Some(2), bit_depth: None, bitrate_kbps: Some(320) };
    apply_file_properties(&mut m, &props, Some("mp3"));
    assert_eq!(m.format_label, "MP3");
    assert_eq!(format_label_for_kind(TagFileKind::Opus, Some("ogg")), "Opus");
    finish_metadata(&mut m, Some("mp3"));
    assert_eq!(m.current_bitrate_kbps, Some(320));

    let mut n = initial_metadata("/m/y.dts");
    finish_metadata(&mut n, Some("dts"));
    assert_eq!(n.format_label, "DTS");
    assert_eq!(n.current_bitrate_kbps, None);
}

#[test]
fn stream_details_fill_gaps() {
    let details = StreamDetails {
        format_label: "FLAC".into(),
        sample_rate_hz: Some(96000),
        bitrate_kbps: Some(900),
        channels: Some(6),
        bit_depth: Some(24),
        current_bitrate_kbps: Some(850),
        bitrate_timeline_kbps: vec![800, 900],
    };
    let mut m = initial_metadata("/m/z.flac");
    m.sample_rate_hz = Some(44100);
    apply_stream_details(&mut m, &details, false);
    assert_eq!(m.sample_rate_hz, Some(44100));
    assert_eq!(m.channels, Some(6));
    assert_eq!(m.current_bitrate_kbps, Some(850));
    assert_eq!(m.bitrate_timeline_kbps, vec![800, 900]);

    let mut s = initial_metadata("/m/z.ac3");
    s.current_bitrate_kbps = Some(448);
    apply_stream_details(&mut s, &StreamDetails { current_bitrate_kbps: None, bitrate_kbps: Some(640), ..StreamDetails::default() }, true);
    assert_eq!(s.current_bitrate_kbps, Some(448));
    assert_eq!(s.bitrate_kbps, Some(640));
    assert!(s.bitrate_timeline_kbps.is_empty());
}
