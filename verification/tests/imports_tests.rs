use ferrous::bridge::{BridgeCommand, BridgeLibraryCommand, BridgePlaybackCommand};
use ferrous::imports::{
    decode_playlist_bytes, format_import_warning, is_playlist_file, playlist_entries, replaces_queue,
    ImportExpandOutcome, ImportPlanner, ImportResult, PlaylistEntry,
};
use ferrous::queue::BridgeQueueCommand;

fn s(v: &str) -> String {
    v.to_string()
}

#[test]
fn import_requests_only_enqueue_and_replacements_cancel_previous_work() {
    let mut worker = ImportPlanner::new();
    let import = |path: &str| BridgeCommand::Library(BridgeLibraryCommand::AppendAlbum(vec![path.to_string()]));
    let first = worker.request(&import("/unreadable/first.m3u")).expect("import");
    let second = worker.request(&import("/unreadable/second.m3u")).expect("import");
    assert_eq!(first.paths, vec![s("/unreadable/first.m3u")]);
    assert_eq!(second.paths, vec![s("/unreadable/second.m3u")]);
    assert_eq!(first.generation, second.generation);
    let result = ImportResult { outcome: ImportExpandOutcome::new(), replace: false, generation: first.generation };
    assert!(worker.is_current(&result));
    assert!(worker.request(&BridgeCommand::Playback(BridgePlaybackCommand::Pause)).is_none());
    assert!(worker.is_current(&result));
    assert!(worker.request(&BridgeCommand::Queue(BridgeQueueCommand::Clear)).is_none());
    assert!(!worker.is_current(&result));
    let replacement = worker
        .request(&BridgeCommand::Library(BridgeLibraryCommand::PlayTrack(s("/new.m3u"))))
        .expect("import");
    assert!(replacement.replace);
    assert!(replacement.generation > second.generation);
}

#[test]
fn replacing_commands_are_recognised() {
    assert!(replaces_queue(&BridgeCommand::Shutdown));
    assert!(replaces_queue(&BridgeCommand::Library(BridgeLibraryCommand::ReplaceAllTracks)));
    assert!(!replaces_queue(&BridgeCommand::Library(BridgeLibraryCommand::AppendAllTracks)));
    assert!(!replaces_queue(&BridgeCommand::Queue(BridgeQueueCommand::Select(None))));
}

#[test]
fn import_warning_lists_what_was_skipped() {
    let mut o = ImportExpandOutcome::new();
    assert_eq!(format_import_warning("playlist", &o), None);
    o.push_missing();
    o.push_missing();
    o.push_non_local_url();
    assert_eq!(
        format_import_warning("playlist", &o).as_deref(),
        Some("Import playlist skipped all entries (2 missing, 1 non-local URLs)")
    );
    o.tracks.push(s("/a.flac"));
    o.push_unsupported();
    o.push_unreadable();
    assert_eq!(o.skipped_count(), 5);
    assert_eq!(
        format_import_warning("files", &o).as_deref(),
        Some("Import files queued 1 track(s); skipped 5 item(s) (2 missing, 1 unsupported, 1 unreadable, 1 non-local URLs)")
    );
}

#[test]
fn playlist_bytes_fall_back_to_latin1() {
    assert_eq!(decode_playlist_bytes("göng".as_bytes()), "göng");
    assert_eq!(decode_playlist_bytes(&[b'g', 0xF6, b'n', b'g']), "göng");
    assert_eq!(decode_playlist_bytes(&[]), "");
}

#[test]
fn playlist_files_are_known_by_extension() {
    assert!(is_playlist_file("/m/mix.m3u"));
    assert!(is_playlist_file("/m/MIX.M3U8"));
    assert!(!is_playlist_file("/m/.m3u"));
    assert!(!is_playlist_file("/m/song.flac"));
    assert!(!is_playlist_file("/m/m3u"));
    assert!(!is_playlist_file("/"));
}

#[test]
fn playlist_lines_become_entries_in_order() {
    let text = "\u{feff}#EXTM3U\r\nb-song.flac\r\n\r\n  /abs/a.mp3  \nhttp://example.com/skip.mp3\nfile:///x/c%20d.flac\nfolder/b.flac";
    let entries = playlist_entries(text, "/lists");
    assert_eq!(
        entries,
        vec![
            PlaylistEntry::Local(s("/lists/b-song.flac")),
            PlaylistEntry::Local(s("/abs/a.mp3")),
            PlaylistEntry::NonLocalUrl,
            PlaylistEntry::Local(s("/x/c d.flac")),
            PlaylistEntry::Local(s("/lists/folder/b.flac")),
        ]
    );
    assert_eq!(playlist_entries("x.flac", ""), vec![PlaylistEntry::Local(s("x.flac"))]);
    assert_eq!(playlist_entries("x.flac", "/"), vec![PlaylistEntry::Local(s("/x.flac"))]);
    assert_eq!(playlist_entries("file://remote/x.flac", "/"), vec![PlaylistEntry::NonLocalUrl]);
}
