//! What a library request from the user interface asks for: a request to
//! the library service, a change to the tree's expanded nodes, a search, or
//! tracks to put in the queue.
use vstd::prelude::*;

use crate::bridge::BridgeLibraryCommand;
use crate::library::LibraryCommand;
use crate::queue::{append_queue_command_outcome, QueueCommandOutcome, QueueOp, QueuePlaybackOp};
use crate::text::{chars_eq, chars_of, string_from_chars, trim, trim_str};

verus! {

/// Which tracks of the library a queue request means.
#[derive(Debug, Clone, PartialEq, Eq)]
pub enum CollectionScope {
    AlbumByKey { artist: String, album: String },
    ArtistByKey { artist: String },
    RootByPath { root: String },
    AllTracks,
}

/// Whether paths are opened in place of the queue or appended to it.
#[derive(Debug, Clone, Copy, PartialEq, Eq, Structural)]
pub enum ImportAction {
    Open,
    Append,
}

/// What a library request asks for.
#[derive(Debug, Clone)]
pub enum LibraryCommandPlan {
    /// Hand on to the library service.
    Service(LibraryCommand),
    ApplyAlbumArt { track_path: String, artwork_path: String },
    SetNodeExpanded { key: String, expanded: bool },
    /// Search for the trimmed query.
    Search { seq: u32, query: String },
    /// Files and folders to open or append; opening also starts playback.
    Import { action: ImportAction, paths: Vec<String>, start_playback: bool },
    /// Tracks of the library to put in the queue, replacing it or not.
    Queue { scope: CollectionScope, replace: bool },
    RefreshEditedPaths(Vec<String>),
    RefreshRenamedPaths(Vec<(String, String)>),
}

/// The plan for each request: root requests go to the library service; a
/// single track is appended (`AddTrack`) or opened and played
/// (`PlayTrack`); albums given by paths likewise; albums, artists, roots and
/// the whole library given by key go to the queue, replacing it or not.
pub open spec fn plan_spec(cmd: BridgeLibraryCommand, plan: LibraryCommandPlan) -> bool {
    match cmd {
        BridgeLibraryCommand::ScanRoot(p) => plan == LibraryCommandPlan::Service(LibraryCommand::ScanRoot(p)),
        BridgeLibraryCommand::AddRoot { path, name } => plan == LibraryCommandPlan::Service(
            LibraryCommand::AddRoot { path, name },
        ),
        BridgeLibraryCommand::RenameRoot { path, name } => plan == LibraryCommandPlan::Service(
            LibraryCommand::RenameRoot { path, name },
        ),
        BridgeLibraryCommand::RemoveRoot(p) => plan == LibraryCommandPlan::Service(LibraryCommand::RemoveRoot(p)),
        BridgeLibraryCommand::RescanRoot(p) => plan == LibraryCommandPlan::Service(LibraryCommand::RescanRoot(p)),
        BridgeLibraryCommand::RescanAll => plan == LibraryCommandPlan::Service(LibraryCommand::RescanAll),
        BridgeLibraryCommand::ApplyAlbumArt { track_path, artwork_path } => plan
            == LibraryCommandPlan::ApplyAlbumArt { track_path, artwork_path },
        BridgeLibraryCommand::SetNodeExpanded { key, expanded } => plan == LibraryCommandPlan::SetNodeExpanded {
            key,
            expanded,
        },
        BridgeLibraryCommand::SetSearchQuery { seq, query } => match plan {
            LibraryCommandPlan::Search { seq: s, query: q } => s == seq && q@ == trim(query@),
            _ => false,
        },
        BridgeLibraryCommand::AddTrack(p) => match plan {
            LibraryCommandPlan::Import { action, paths, start_playback } => action == ImportAction::Append
                && paths@ == seq![p] && !start_playback,
            _ => false,
        },
        BridgeLibraryCommand::PlayTrack(p) => match plan {
            LibraryCommandPlan::Import { action, paths, start_playback } => action == ImportAction::Open
                && paths@ == seq![p] && start_playback,
            _ => false,
        },
        BridgeLibraryCommand::ReplaceWithAlbum(ps) => match plan {
            LibraryCommandPlan::Import { action, paths, start_playback } => action == ImportAction::Open && paths@
                == ps@ && start_playback,
            _ => false,
        },
        BridgeLibraryCommand::AppendAlbum(ps) => match plan {
            LibraryCommandPlan::Import { action, paths, start_playback } => action == ImportAction::Append
                && paths@ == ps@ && !start_playback,
            _ => false,
        },
        BridgeLibraryCommand::ReplaceAlbumByKey { artist, album } => plan == LibraryCommandPlan::Queue {
            scope: CollectionScope::AlbumByKey { artist, album },
            replace: true,
        },
        BridgeLibraryCommand::AppendAlbumByKey { artist, album } => plan == LibraryCommandPlan::Queue {
            scope: CollectionScope::AlbumByKey { artist, album },
            replace: false,
        },
        BridgeLibraryCommand::ReplaceArtistByKey { artist } => plan == LibraryCommandPlan::Queue {
            scope: CollectionScope::ArtistByKey { artist },
            replace: true,
        },
        BridgeLibraryCommand::AppendArtistByKey { artist } => plan == LibraryCommandPlan::Queue {
            scope: CollectionScope::ArtistByKey { artist },
            replace: false,
        },
        BridgeLibraryCommand::ReplaceRootByPath { root } => plan == LibraryCommandPlan::Queue {
            scope: CollectionScope::RootByPath { root },
            replace: true,
        },
        BridgeLibraryCommand::AppendRootByPath { root } => plan == LibraryCommandPlan::Queue {
            scope: CollectionScope::RootByPath { root },
            replace: false,
        },
        BridgeLibraryCommand::ReplaceAllTracks => plan == LibraryCommandPlan::Queue {
            scope: CollectionScope::AllTracks,
            replace: true,
        },
        BridgeLibraryCommand::AppendAllTracks => plan == LibraryCommandPlan::Queue {
            scope: CollectionScope::AllTracks,
            replace: false,
        },
        BridgeLibraryCommand::RefreshEditedPaths(ps) => match plan {
            LibraryCommandPlan::RefreshEditedPaths(q) => q@ == ps@,
            _ => false,
        },
        BridgeLibraryCommand::RefreshRenamedPaths(rs) => match plan {
            LibraryCommandPlan::RefreshRenamedPaths(q) => q@ == rs@,
            _ => false,
        },
    }
}

fn one_path(p: String) -> (r: Vec<String>)
    ensures
        r@ == seq![p],
{
    let mut v: Vec<String> = Vec::new();
    v.push(p);
    assert(v@ =~= seq![p]);
    v
}

/// Decides what a library request asks for (see `plan_spec`).
pub fn plan_library_command(cmd: BridgeLibraryCommand) -> (plan: LibraryCommandPlan)
    ensures
        plan_spec(cmd, plan),
{
    match cmd {
        BridgeLibraryCommand::ScanRoot(p) => LibraryCommandPlan::Service(LibraryCommand::ScanRoot(p)),
        BridgeLibraryCommand::AddRoot { path, name } => LibraryCommandPlan::Service(LibraryCommand::AddRoot { path, name }),
        BridgeLibraryCommand::RenameRoot { path, name } => LibraryCommandPlan::Service(
            LibraryCommand::RenameRoot { path, name },
        ),
        BridgeLibraryCommand::RemoveRoot(p) => LibraryCommandPlan::Service(LibraryCommand::RemoveRoot(p)),
        BridgeLibraryCommand::RescanRoot(p) => LibraryCommandPlan::Service(LibraryCommand::RescanRoot(p)),
        BridgeLibraryCommand::RescanAll => LibraryCommandPlan::Service(LibraryCommand::RescanAll),
        BridgeLibraryCommand::ApplyAlbumArt { track_path, artwork_path } => LibraryCommandPlan::ApplyAlbumArt {
            track_path,
            artwork_path,
        },
        BridgeLibraryCommand::SetNodeExpanded { key, expanded } => LibraryCommandPlan::SetNodeExpanded { key, expanded },
        BridgeLibraryCommand::SetSearchQuery { seq, query } => LibraryCommandPlan::Search {
            seq,
            query: string_from_chars(&trim_str(query.as_str())),
        },
        BridgeLibraryCommand::AddTrack(p) => LibraryCommandPlan::Import {
            action: ImportAction::Append,
            paths: one_path(p),
            start_playback: false,
        },
        BridgeLibraryCommand::PlayTrack(p) => LibraryCommandPlan::Import {
            action: ImportAction::Open,
            paths: one_path(p),
            start_playback: true,
        },
        BridgeLibraryCommand::ReplaceWithAlbum(paths) => LibraryCommandPlan::Import {
            action: ImportAction::Open,
            paths,
            start_playback: true,
        },
        BridgeLibraryCommand::AppendAlbum(paths) => LibraryCommandPlan::Import {
            action: ImportAction::Append,
            paths,
            start_playback: false,
        },
        BridgeLibraryCommand::ReplaceAlbumByKey { artist, album } => LibraryCommandPlan::Queue {
            scope: CollectionScope::AlbumByKey { artist, album },
            replace: true,
        },
        BridgeLibraryCommand::AppendAlbumByKey { artist, album } => LibraryCommandPlan::Queue {
            scope: CollectionScope::AlbumByKey { artist, album },
            replace: false,
        },
        BridgeLibraryCommand::ReplaceArtistByKey { artist } => LibraryCommandPlan::Queue {
            scope: CollectionScope::ArtistByKey { artist },
            replace: true,
        },
        BridgeLibraryCommand::AppendArtistByKey { artist } => LibraryCommandPlan::Queue {
            scope: CollectionScope::ArtistByKey { artist },
            replace: false,
        },
        BridgeLibraryCommand::ReplaceRootByPath { root } => LibraryCommandPlan::Queue {
            scope: CollectionScope::RootByPath { root },
            replace: true,
        },
        BridgeLibraryCommand::AppendRootByPath { root } => LibraryCommandPlan::Queue {
            scope: CollectionScope::RootByPath { root },
            replace: false,
        },
        BridgeLibraryCommand::ReplaceAllTracks => LibraryCommandPlan::Queue { scope: CollectionScope::AllTracks, replace: true },
        BridgeLibraryCommand::AppendAllTracks => LibraryCommandPlan::Queue { scope: CollectionScope::AllTracks, replace: false },
        BridgeLibraryCommand::RefreshEditedPaths(paths) => LibraryCommandPlan::RefreshEditedPaths(paths),
        BridgeLibraryCommand::RefreshRenamedPaths(renames) => LibraryCommandPlan::RefreshRenamedPaths(renames),
    }
}

/// The expanded keys as a set of texts.
pub open spec fn key_set(keys: Seq<String>) -> Set<Seq<char>> {
    keys.map_values(|k: String| k@).to_set()
}

/// Each key once.
pub open spec fn keys_distinct(keys: Seq<String>) -> bool {
    keys.map_values(|k: String| k@).no_duplicates()
}

/// Expands or collapses the node with the (trimmed) key; says whether the
/// set of expanded keys changed. A blank key changes nothing.
pub fn set_node_expanded(expanded_keys: &mut Vec<String>, key: &str, expanded: bool) -> (r: bool)
    requires
        keys_distinct(old(expanded_keys)@),
    ensures
        keys_distinct(final(expanded_keys)@),
        trim(key@).len() == 0 ==> final(expanded_keys)@ == old(expanded_keys)@ && !r,
        trim(key@).len() > 0 && expanded ==> key_set(final(expanded_keys)@) == key_set(old(expanded_keys)@).insert(trim(key@))
            && r == !key_set(old(expanded_keys)@).contains(trim(key@)),
        trim(key@).len() > 0 && !expanded ==> key_set(final(expanded_keys)@) == key_set(old(expanded_keys)@).remove(trim(key@))
            && r == key_set(old(expanded_keys)@).contains(trim(key@)),
{
    let k = trim_str(key);
    if k.len() == 0 {
        return false;
    }
    let ghost before = expanded_keys@.map_values(|s: String| s@);
    let mut pos: Option<usize> = None;
    let mut i: usize = 0;
    while i < expanded_keys.len()
        invariant
            i <= expanded_keys@.len(),
            before == expanded_keys@.map_values(|s: String| s@),
            expanded_keys@ == old(expanded_keys)@,
            match pos {
                Some(p) => p < i && before[p as int] == k@,
                None => forall|j: int| 0 <= j < i ==> before[j] != k@,
            },
        decreases expanded_keys@.len() - i,
    {
        if pos.is_none() && chars_eq(&chars_of(expanded_keys[i].as_str()), &k) {
            pos = Some(i);
        }
        i += 1;
    }
    proof {
        before.to_multiset_ensures();
    }
    match pos {
        Some(p) => {
            assert(before.contains(k@));
            if expanded {
                assert(key_set(expanded_keys@).insert(k@) =~= key_set(expanded_keys@));
                false
            } else {
                let ghost removed = before.remove(p as int);
                expanded_keys.remove(p);
                proof {
                    assert(expanded_keys@.map_values(|s: String| s@) =~= removed);
                    assert forall|x: Seq<char>| removed.contains(x) <==> before.to_set().remove(k@).contains(x) by {
                        if removed.contains(x) {
                            let j = choose|j: int| 0 <= j < removed.len() && removed[j] == x;
                            if j < p {
                                assert(before[j] == x);
                                assert(j != p);
                            } else {
                                assert(before[j + 1] == x);
                            }
                        }
                        if before.to_set().remove(k@).contains(x) {
                            let j = choose|j: int| 0 <= j < before.len() && before[j] == x;
                            assert(j != p);
                            if j < p {
                                assert(removed[j] == x);
                            } else {
                                assert(removed[j - 1] == x);
                            }
                        }
                    }
                    assert(removed.to_set() =~= before.to_set().remove(k@));
                    assert(removed.no_duplicates()) by {
                        assert forall|a: int, b: int| 0 <= a < removed.len() && 0 <= b < removed.len() && a != b implies removed[a] != removed[b] by {
                            let a2 = if a < p { a } else { a + 1 };
                            let b2 = if b < p { b } else { b + 1 };
                            assert(removed[a] == before[a2] && removed[b] == before[b2]);
                        }
                    }
                }
                true
            }
        },
        None => {
            assert(!before.contains(k@));
            if expanded {
                let ghost added = before.push(k@);
                expanded_keys.push(string_from_chars(&k));
                proof {
                    assert(expanded_keys@.map_values(|s: String| s@) =~= added);
                    assert forall|x: Seq<char>| added.contains(x) <==> before.to_set().insert(k@).contains(x) by {
                        if added.contains(x) {
                            let j = choose|j: int| 0 <= j < added.len() && added[j] == x;
                            if j < before.len() {
                                assert(before[j] == x);
                            }
                        }
                        if before.contains(x) {
                            let j = choose|j: int| 0 <= j < before.len() && before[j] == x;
                            assert(added[j] == x);
                        }
                        if x == k@ {
                            assert(added[before.len() as int] == x);
                        }
                    }
                    assert(added.to_set() =~= before.to_set().insert(k@));
                    assert(added.no_duplicates()) by {
                        assert forall|a: int, b: int| 0 <= a < added.len() && 0 <= b < added.len() && a != b implies added[a] != added[b] by {
                            if a == before.len() as int {
                                assert(before.contains(added[b]));
                            } else if b == before.len() as int {
                                assert(before.contains(added[a]));
                            }
                        }
                    }
                }
                true
            } else {
                assert(key_set(expanded_keys@).remove(k@) =~= key_set(expanded_keys@));
                false
            }
        },
    }
}

/// Replacing the queue with library tracks: nothing for no tracks;
/// otherwise the queue becomes the tracks with the first selected, the
/// engine loads them, and with `autoplay` plays from the first.
pub fn replace_queue_paths(
    queue: &mut Vec<String>,
    selected: &mut Option<usize>,
    paths: Vec<String>,
    autoplay: bool,
) -> (r: Option<Vec<QueuePlaybackOp>>)
    ensures
        paths@.len() == 0 ==> r is None && final(queue)@ == old(queue)@ && *final(selected) == *old(selected),
        paths@.len() > 0 ==> final(queue)@ == paths@ && *final(selected) == Some(0usize) && match r {
            Some(ops) => ops@.map_values(|op: QueuePlaybackOp| op@) == (if autoplay {
                seq![QueueOp::LoadQueue(paths@), QueueOp::PlayAt(0), QueueOp::Play]
            } else {
                seq![QueueOp::LoadQueue(paths@)]
            }),
            None => false,
        },
{
    if paths.len() == 0 {
        return None;
    }
    let ghost p = paths@;
    let mut copy: Vec<String> = Vec::new();
    let mut i: usize = 0;
    while i < paths.len()
        invariant
            i <= paths@.len(),
            copy@ == paths@.take(i as int),
        decreases paths@.len() - i,
    {
        copy.push(paths[i].clone());
        i += 1;
        assert(copy@ =~= paths@.take(i as int));
    }
    assert(paths@.take(paths@.len() as int) =~= paths@);
    *queue = paths;
    *selected = Some(0);
    let mut ops: Vec<QueuePlaybackOp> = Vec::new();
    ops.push(QueuePlaybackOp::LoadQueue(copy));
    if autoplay {
        ops.push(QueuePlaybackOp::PlayAt(0));
        ops.push(QueuePlaybackOp::Play);
    }
    assert(ops@.map_values(|op: QueuePlaybackOp| op@) =~= (if autoplay {
        seq![QueueOp::LoadQueue(p), QueueOp::PlayAt(0), QueueOp::Play]
    } else {
        seq![QueueOp::LoadQueue(p)]
    }));
    Some(ops)
}

/// Appending library tracks to the queue: nothing for no tracks; an empty
/// queue is loaded whole, otherwise the tracks are added.
pub fn append_queue_paths(queue: &mut Vec<String>, paths: Vec<String>) -> (r: QueueCommandOutcome)
    ensures
        paths@.len() == 0 ==> r.is_noop() && final(queue)@ == old(queue)@,
        paths@.len() > 0 ==> final(queue)@ == old(queue)@ + paths@ && r.changed && r.error is None && r.ops() == (
        if old(queue)@.len() == 0 {
            seq![QueueOp::LoadQueue(old(queue)@ + paths@)]
        } else {
            seq![QueueOp::AddToQueue(paths@)]
        }),
{
    append_queue_command_outcome(queue, paths)
}

} // verus!
