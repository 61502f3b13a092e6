//! Commands from the user interface, and how they are read from the binary
//! command channel: a `u16` command id, a `u16` payload length, then the
//! payload.
//!
//! Floating-point arguments stay as the bits of their IEEE 754 value; their
//! checks (finite, non-negative, within `f32`) are made on those bits.
use vstd::prelude::*;

use crate::codec::{
    decoded_text, from_le16, from_le32, from_le32_signed, rd_str, rd_str_list, rd_strs,
    string_truncated_message, strings_view, trailing_message, truncated_message, BinaryReader,
};
use crate::modes::{LibrarySortMode, SpectrogramDisplayMode, SpectrogramViewMode, ViewerFullscreenMode};
use crate::queue::BridgeQueueCommand;
use crate::text::{decimal, owned, push_decimal, push_str, string_from_chars};

verus! {

// ---------------------------------------------------------------------------
// Commands
// ---------------------------------------------------------------------------

/// How playback repeats.
#[derive(Debug, Clone, Copy, PartialEq, Eq, Structural)]
pub enum RepeatMode {
    Off,
    One,
    All,
}

/// Transport and mixing requests.
#[derive(Debug, Clone, PartialEq, Eq)]
pub enum BridgePlaybackCommand {
    Play,
    Pause,
    Stop,
    Next,
    Previous,
    /// Position in seconds, as the bits of an `f64`.
    Seek(u64),
    /// Volume, as the bits of an `f64` within the range of `f32`.
    SetVolume(u64),
    SetRepeatMode(RepeatMode),
    SetShuffle(bool),
    ToggleChannelMute(u8),
    SoloChannel(u8),
}

/// Requests about the library and what it puts in the queue.
#[derive(Debug, Clone, PartialEq, Eq)]
pub enum BridgeLibraryCommand {
    ScanRoot(String),
    AddRoot { path: String, name: String },
    RenameRoot { path: String, name: String },
    RemoveRoot(String),
    RescanRoot(String),
    RescanAll,
    AddTrack(String),
    PlayTrack(String),
    ReplaceWithAlbum(Vec<String>),
    AppendAlbum(Vec<String>),
    ReplaceAlbumByKey { artist: String, album: String },
    AppendAlbumByKey { artist: String, album: String },
    ReplaceArtistByKey { artist: String },
    AppendArtistByKey { artist: String },
    ReplaceRootByPath { root: String },
    AppendRootByPath { root: String },
    ReplaceAllTracks,
    AppendAllTracks,
    ApplyAlbumArt { track_path: String, artwork_path: String },
    SetNodeExpanded { key: String, expanded: bool },
    SetSearchQuery { seq: u32, query: String },
    RefreshEditedPaths(Vec<String>),
    RefreshRenamedPaths(Vec<(String, String)>),
}

/// Requests to the analysis engine.
#[derive(Debug, Clone, Copy, PartialEq, Eq, Structural)]
pub enum BridgeAnalysisCommand {
    SetFftSize(usize),
}

/// Requests that change settings.
#[derive(Debug, Clone, Copy, PartialEq, Eq, Structural)]
pub enum BridgeSettingsCommand {
    LoadFromDisk,
    SaveToDisk,
    /// Volume, as the bits of an `f32`.
    SetVolume(u32),
    SetFftSize(usize),
    SetSpectrogramViewMode(SpectrogramViewMode),
    SetSpectrogramDisplayMode(SpectrogramDisplayMode),
    SetViewerFullscreenMode(ViewerFullscreenMode),
    /// dB range, as the bits of a finite `f32`.
    SetDbRange(u32),
    SetLogScale(bool),
    SetShowFps(bool),
    SetShowSpectrogramCrosshair(bool),
    SetShowSpectrogramScale(bool),
    SetSystemMediaControlsEnabled(bool),
    SetLibrarySortMode(LibrarySortMode),
    SetLastFmScrobblingEnabled(bool),
    SetChannelButtonsVisibility(u8),
    SetSpectrogramZoomEnabled(bool),
    BeginLastFmAuth,
    CompleteLastFmAuth,
    DisconnectLastFm,
}

/// Any request from the user interface.
#[derive(Debug, Clone)]
pub enum BridgeCommand {
    RequestSnapshot,
    Playback(BridgePlaybackCommand),
    Queue(BridgeQueueCommand),
    Library(BridgeLibraryCommand),
    Analysis(BridgeAnalysisCommand),
    Settings(BridgeSettingsCommand),
    Shutdown,
}

/// The kind of a search result row, with its code on the wire.
#[derive(Debug, Clone, Copy, PartialEq, Eq, Structural)]
pub enum BridgeSearchResultRowType {
    Artist,
    Album,
    Track,
}

impl BridgeSearchResultRowType {
    pub open spec fn code(self) -> u8 {
        match self {
            BridgeSearchResultRowType::Artist => 1,
            BridgeSearchResultRowType::Album => 2,
            BridgeSearchResultRowType::Track => 3,
        }
    }

    pub fn to_u8(self) -> (r: u8)
        ensures
            r == self.code(),
    {
        match self {
            BridgeSearchResultRowType::Artist => 1,
            BridgeSearchResultRowType::Album => 2,
            BridgeSearchResultRowType::Track => 3,
        }
    }
}

// ---------------------------------------------------------------------------
// Views
// ---------------------------------------------------------------------------

pub enum LibraryView {
    AddTrack(Seq<char>),
    PlayTrack(Seq<char>),
    ReplaceWithAlbum(Seq<Seq<char>>),
    AppendAlbum(Seq<Seq<char>>),
    ReplaceAlbumByKey(Seq<char>, Seq<char>),
    AppendAlbumByKey(Seq<char>, Seq<char>),
    ReplaceArtistByKey(Seq<char>),
    AppendArtistByKey(Seq<char>),
    ReplaceRootByPath(Seq<char>),
    AppendRootByPath(Seq<char>),
    ReplaceAllTracks,
    AppendAllTracks,
    ApplyAlbumArt(Seq<char>, Seq<char>),
    RefreshEditedPaths(Seq<Seq<char>>),
    AddRoot(Seq<char>, Seq<char>),
    RemoveRoot(Seq<char>),
    RescanRoot(Seq<char>),
    RescanAll,
    SetNodeExpanded(Seq<char>, bool),
    SetSearchQuery(u32, Seq<char>),
    RenameRoot(Seq<char>, Seq<char>),
    Other,
}

pub enum QueueView {
    PlayAt(usize),
    Select(Option<usize>),
    Remove(usize),
    Move(usize, usize),
    Clear,
    Other,
}

/// What a command says, with its texts as character sequences.
pub enum CommandView {
    RequestSnapshot,
    Shutdown,
    Playback(BridgePlaybackCommand),
    Queue(QueueView),
    Library(LibraryView),
    Settings(BridgeSettingsCommand),
    Other,
}

pub open spec fn library_view(c: BridgeLibraryCommand) -> LibraryView {
    match c {
        BridgeLibraryCommand::AddTrack(p) => LibraryView::AddTrack(p@),
        BridgeLibraryCommand::PlayTrack(p) => LibraryView::PlayTrack(p@),
        BridgeLibraryCommand::ReplaceWithAlbum(v) => LibraryView::ReplaceWithAlbum(strings_view(v@)),
        BridgeLibraryCommand::AppendAlbum(v) => LibraryView::AppendAlbum(strings_view(v@)),
        BridgeLibraryCommand::ReplaceAlbumByKey { artist, album } => LibraryView::ReplaceAlbumByKey(
            artist@,
            album@,
        ),
        BridgeLibraryCommand::AppendAlbumByKey { artist, album } => LibraryView::AppendAlbumByKey(
            artist@,
            album@,
        ),
        BridgeLibraryCommand::ReplaceArtistByKey { artist } => LibraryView::ReplaceArtistByKey(artist@),
        BridgeLibraryCommand::AppendArtistByKey { artist } => LibraryView::AppendArtistByKey(artist@),
        BridgeLibraryCommand::ReplaceRootByPath { root } => LibraryView::ReplaceRootByPath(root@),
        BridgeLibraryCommand::AppendRootByPath { root } => LibraryView::AppendRootByPath(root@),
        BridgeLibraryCommand::ReplaceAllTracks => LibraryView::ReplaceAllTracks,
        BridgeLibraryCommand::AppendAllTracks => LibraryView::AppendAllTracks,
        BridgeLibraryCommand::ApplyAlbumArt { track_path, artwork_path } => LibraryView::ApplyAlbumArt(
            track_path@,
            artwork_path@,
        ),
        BridgeLibraryCommand::RefreshEditedPaths(v) => LibraryView::RefreshEditedPaths(strings_view(v@)),
        BridgeLibraryCommand::AddRoot { path, name } => LibraryView::AddRoot(path@, name@),
        BridgeLibraryCommand::RemoveRoot(p) => LibraryView::RemoveRoot(p@),
        BridgeLibraryCommand::RescanRoot(p) => LibraryView::RescanRoot(p@),
        BridgeLibraryCommand::RescanAll => LibraryView::RescanAll,
        BridgeLibraryCommand::SetNodeExpanded { key, expanded } => LibraryView::SetNodeExpanded(
            key@,
            expanded,
        ),
        BridgeLibraryCommand::SetSearchQuery { seq, query } => LibraryView::SetSearchQuery(seq, query@),
        BridgeLibraryCommand::RenameRoot { path, name } => LibraryView::RenameRoot(path@, name@),
        _ => LibraryView::Other,
    }
}

pub open spec fn queue_view(c: BridgeQueueCommand) -> QueueView {
    match c {
        BridgeQueueCommand::PlayAt(i) => QueueView::PlayAt(i),
        BridgeQueueCommand::Select(s) => QueueView::Select(s),
        BridgeQueueCommand::Remove(i) => QueueView::Remove(i),
        BridgeQueueCommand::Move { from, to } => QueueView::Move(from, to),
        BridgeQueueCommand::Clear => QueueView::Clear,
        _ => QueueView::Other,
    }
}

pub open spec fn command_view(c: BridgeCommand) -> CommandView {
    match c {
        BridgeCommand::RequestSnapshot => CommandView::RequestSnapshot,
        BridgeCommand::Shutdown => CommandView::Shutdown,
        BridgeCommand::Playback(p) => CommandView::Playback(p),
        BridgeCommand::Queue(q) => CommandView::Queue(queue_view(q)),
        BridgeCommand::Library(l) => CommandView::Library(library_view(l)),
        BridgeCommand::Settings(s) => CommandView::Settings(s),
        _ => CommandView::Other,
    }
}

// ---------------------------------------------------------------------------
// Reading the payload
// ---------------------------------------------------------------------------

/// A value read at an offset, with the offset after it, or the error.
pub open spec fn rd_u8(b: Seq<u8>, o: int) -> Result<(u8, int), Seq<char>> {
    if b.len() - o >= 1 {
        Ok((b[o], o + 1))
    } else {
        Err(truncated_message())
    }
}

pub open spec fn rd_u32(b: Seq<u8>, o: int) -> Result<(u32, int), Seq<char>> {
    if b.len() - o >= 4 {
        Ok((from_le32(b.subrange(o, o + 4)) as u32, o + 4))
    } else {
        Err(truncated_message())
    }
}

pub open spec fn rd_i32(b: Seq<u8>, o: int) -> Result<(i32, int), Seq<char>> {
    if b.len() - o >= 4 {
        Ok((from_le32_signed(b.subrange(o, o + 4)) as i32, o + 4))
    } else {
        Err(truncated_message())
    }
}

/// Eight bytes, little-endian.
pub open spec fn rd_u64(b: Seq<u8>, o: int) -> Result<(u64, int), Seq<char>> {
    if b.len() - o >= 8 {
        Ok(
            (
                (from_le32(b.subrange(o, o + 4)) + from_le32(b.subrange(o + 4, o + 8)) * 0x1_0000_0000)
                    as u64,
                o + 8,
            ),
        )
    } else {
        Err(truncated_message())
    }
}

/// The whole payload must have been read.
pub open spec fn finish(b: Seq<u8>, o: int, c: CommandView) -> Result<Option<CommandView>, Seq<char>> {
    if o == b.len() {
        Ok(Some(c))
    } else {
        Err(trailing_message())
    }
}

// ---------------------------------------------------------------------------
// Floating-point checks on bits
// ---------------------------------------------------------------------------

/// An `f64` with these bits is finite: its exponent is not all ones.
pub open spec fn f64_bits_finite(bits: u64) -> bool {
    (bits / 0x10_0000_0000_0000) % 0x800 != 0x7FF
}

/// An `f64` with these bits is `>= 0.0`: its sign is clear, or it is `-0.0`
/// (for a value that is not NaN).
pub open spec fn f64_bits_not_negative(bits: u64) -> bool {
    bits < 0x8000_0000_0000_0000 || bits == 0x8000_0000_0000_0000
}

/// The bits of `f32::MAX` as an `f64`.
pub const F32_MAX_AS_F64_BITS: u64 = 0x47EF_FFFF_E000_0000;

/// A finite `f64` with these bits lies within `f32::MIN..=f32::MAX`: its
/// magnitude bits are at most those of `f32::MAX` (for finite values the
/// order of magnitudes is the order of their bits).
pub open spec fn f64_bits_within_f32(bits: u64) -> bool {
    bits % 0x8000_0000_0000_0000 <= F32_MAX_AS_F64_BITS
}

/// An `f32` with these bits is finite.
pub open spec fn f32_bits_finite(bits: u32) -> bool {
    (bits / 0x80_0000) % 0x100 != 0xFF
}

fn is_f64_finite(bits: u64) -> (r: bool)
    ensures
        r == f64_bits_finite(bits),
{
    (bits / 0x10_0000_0000_0000) % 0x800 != 0x7FF
}

fn is_f32_finite(bits: u32) -> (r: bool)
    ensures
        r == f32_bits_finite(bits),
{
    (bits / 0x80_0000) % 0x100 != 0xFF
}

// ---------------------------------------------------------------------------
// Command grammar
// ---------------------------------------------------------------------------

pub open spec fn msg_volume_not_finite() -> Seq<char> {
    "set_volume value must be finite"@
}

pub open spec fn msg_volume_range() -> Seq<char> {
    "set_volume value is out of range"@
}

pub open spec fn msg_seek() -> Seq<char> {
    "seek value must be finite and >= 0"@
}

pub open spec fn msg_db_range() -> Seq<char> {
    "set_db_range value must be finite"@
}

pub open spec fn msg_index(v: i32) -> Seq<char> {
    "binary command index out of range: "@ + crate::text::decimal_int(v as int)
}

pub open spec fn pb(c: BridgePlaybackCommand) -> CommandView {
    CommandView::Playback(c)
}

/// Transport commands.
pub open spec fn playback_spec(id: u16, b: Seq<u8>) -> Result<Option<CommandView>, Seq<char>> {
    if id == 1 {
        finish(b, 0, pb(BridgePlaybackCommand::Play))
    } else if id == 2 {
        finish(b, 0, pb(BridgePlaybackCommand::Pause))
    } else if id == 3 {
        finish(b, 0, pb(BridgePlaybackCommand::Stop))
    } else if id == 4 {
        finish(b, 0, pb(BridgePlaybackCommand::Next))
    } else if id == 5 {
        finish(b, 0, pb(BridgePlaybackCommand::Previous))
    } else if id == 6 {
        match rd_u64(b, 0) {
            Ok((bits, o)) => if !f64_bits_finite(bits) {
                Err(msg_volume_not_finite())
            } else if !f64_bits_within_f32(bits) {
                Err(msg_volume_range())
            } else {
                finish(b, o, pb(BridgePlaybackCommand::SetVolume(bits)))
            },
            Err(e) => Err(e),
        }
    } else if id == 7 {
        match rd_u64(b, 0) {
            Ok((bits, o)) => if !f64_bits_finite(bits) || !f64_bits_not_negative(bits) {
                Err(msg_seek())
            } else {
                finish(b, o, pb(BridgePlaybackCommand::Seek(bits)))
            },
            Err(e) => Err(e),
        }
    } else if id == 25 {
        match rd_u8(b, 0) {
            Ok((m, o)) => finish(
                b,
                o,
                pb(
                    BridgePlaybackCommand::SetRepeatMode(
                        if m == 1 {
                            RepeatMode::One
                        } else if m == 2 {
                            RepeatMode::All
                        } else {
                            RepeatMode::Off
                        },
                    ),
                ),
            ),
            Err(e) => Err(e),
        }
    } else if id == 26 {
        match rd_u8(b, 0) {
            Ok((v, o)) => finish(b, o, pb(BridgePlaybackCommand::SetShuffle(v != 0))),
            Err(e) => Err(e),
        }
    } else {
        Ok(None)
    }
}

/// The id the user interface sends for each transport command that takes
/// no argument: play 1, pause 2, stop 3, next 4, previous 5.
pub open spec fn transport_command_id(c: BridgePlaybackCommand) -> Option<u16> {
    match c {
        BridgePlaybackCommand::Play => Some(1),
        BridgePlaybackCommand::Pause => Some(2),
        BridgePlaybackCommand::Stop => Some(3),
        BridgePlaybackCommand::Next => Some(4),
        BridgePlaybackCommand::Previous => Some(5),
        _ => None,
    }
}

/// Each argument-free transport command is decoded from its own id with
/// an empty payload, from no other id, and any payload after it is refused.
pub proof fn law_transport_commands_decode_from_their_ids(c: BridgePlaybackCommand, id: u16, b: Seq<u8>)
    requires
        transport_command_id(c) is Some,
    ensures
        playback_spec(transport_command_id(c)->0, Seq::empty()) == Ok::<Option<CommandView>, Seq<char>>(Some(pb(c))),
        b.len() > 0 ==> playback_spec(transport_command_id(c)->0, b) == Err::<Option<CommandView>, Seq<char>>(
            trailing_message(),
        ),
        playback_spec(id, Seq::empty()) == Ok::<Option<CommandView>, Seq<char>>(Some(pb(c))) ==> id
            == transport_command_id(c)->0,
{
    if playback_spec(id, Seq::empty()) == Ok::<Option<CommandView>, Seq<char>>(Some(pb(c))) {
        if id == 6 || id == 7 || id == 25 || id == 26 {
            assert(rd_u64(Seq::<u8>::empty(), 0) is Err);
            assert(rd_u8(Seq::<u8>::empty(), 0) is Err);
        }
    }
}

/// Queue commands.
pub open spec fn queue_spec(id: u16, b: Seq<u8>) -> Result<Option<CommandView>, Seq<char>> {
    if id == 8 {
        match rd_u32(b, 0) {
            Ok((v, o)) => finish(b, o, CommandView::Queue(QueueView::PlayAt(v as usize))),
            Err(e) => Err(e),
        }
    } else if id == 9 {
        match rd_i32(b, 0) {
            Ok((v, o)) => if v < 0 {
                finish(b, o, CommandView::Queue(QueueView::Select(None)))
            } else if v > usize::MAX {
                Err(msg_index(v))
            } else {
                finish(b, o, CommandView::Queue(QueueView::Select(Some(v as usize))))
            },
            Err(e) => Err(e),
        }
    } else if id == 10 {
        match rd_u32(b, 0) {
            Ok((v, o)) => finish(b, o, CommandView::Queue(QueueView::Remove(v as usize))),
            Err(e) => Err(e),
        }
    } else if id == 11 {
        match rd_u32(b, 0) {
            Ok((from, o)) => match rd_u32(b, o) {
                Ok((to, o2)) => finish(
                    b,
                    o2,
                    CommandView::Queue(QueueView::Move(from as usize, to as usize)),
                ),
                Err(e) => Err(e),
            },
            Err(e) => Err(e),
        }
    } else if id == 12 {
        finish(b, 0, CommandView::Queue(QueueView::Clear))
    } else {
        Ok(None)
    }
}

pub open spec fn lib(c: LibraryView) -> CommandView {
    CommandView::Library(c)
}

/// One string, then the command it makes.
pub open spec fn one_str(b: Seq<u8>, f: spec_fn(Seq<char>) -> LibraryView) -> Result<Option<CommandView>, Seq<char>> {
    match rd_str(b, 0) {
        Ok((s, o)) => finish(b, o, lib(f(s))),
        Err(e) => Err(e),
    }
}

/// Two strings, then the command they make.
pub open spec fn two_str(b: Seq<u8>, f: spec_fn(Seq<char>, Seq<char>) -> LibraryView) -> Result<Option<CommandView>, Seq<char>> {
    match rd_str(b, 0) {
        Ok((s, o)) => match rd_str(b, o) {
            Ok((t, o2)) => finish(b, o2, lib(f(s, t))),
            Err(e) => Err(e),
        },
        Err(e) => Err(e),
    }
}

/// A string list, then the command it makes.
pub open spec fn str_list(b: Seq<u8>, f: spec_fn(Seq<Seq<char>>) -> LibraryView) -> Result<Option<CommandView>, Seq<char>> {
    match rd_str_list(b, 0) {
        Ok((v, o)) => finish(b, o, lib(f(v))),
        Err(e) => Err(e),
    }
}

/// Commands that put library tracks in the queue.
pub open spec fn library_collection_spec(id: u16, b: Seq<u8>) -> Result<Option<CommandView>, Seq<char>> {
    if id == 13 {
        one_str(b, |s: Seq<char>| LibraryView::AddTrack(s))
    } else if id == 14 {
        one_str(b, |s: Seq<char>| LibraryView::PlayTrack(s))
    } else if id == 15 {
        str_list(b, |v: Seq<Seq<char>>| LibraryView::ReplaceWithAlbum(v))
    } else if id == 16 {
        str_list(b, |v: Seq<Seq<char>>| LibraryView::AppendAlbum(v))
    } else if id == 17 {
        two_str(b, |s: Seq<char>, t: Seq<char>| LibraryView::ReplaceAlbumByKey(s, t))
    } else if id == 18 {
        two_str(b, |s: Seq<char>, t: Seq<char>| LibraryView::AppendAlbumByKey(s, t))
    } else if id == 19 {
        one_str(b, |s: Seq<char>| LibraryView::ReplaceArtistByKey(s))
    } else if id == 20 {
        one_str(b, |s: Seq<char>| LibraryView::AppendArtistByKey(s))
    } else if id == 37 {
        finish(b, 0, lib(LibraryView::ReplaceAllTracks))
    } else if id == 38 {
        finish(b, 0, lib(LibraryView::AppendAllTracks))
    } else if id == 48 {
        one_str(b, |s: Seq<char>| LibraryView::ReplaceRootByPath(s))
    } else if id == 49 {
        one_str(b, |s: Seq<char>| LibraryView::AppendRootByPath(s))
    } else if id == 46 {
        two_str(b, |s: Seq<char>, t: Seq<char>| LibraryView::ApplyAlbumArt(s, t))
    } else if id == 47 {
        str_list(b, |v: Seq<Seq<char>>| LibraryView::RefreshEditedPaths(v))
    } else {
        Ok(None)
    }
}

/// Commands about roots, the tree and search.
pub open spec fn library_ui_spec(id: u16, b: Seq<u8>) -> Result<Option<CommandView>, Seq<char>> {
    if id == 21 {
        two_str(b, |s: Seq<char>, t: Seq<char>| LibraryView::AddRoot(s, t))
    } else if id == 22 {
        one_str(b, |s: Seq<char>| LibraryView::RemoveRoot(s))
    } else if id == 23 {
        one_str(b, |s: Seq<char>| LibraryView::RescanRoot(s))
    } else if id == 24 {
        finish(b, 0, lib(LibraryView::RescanAll))
    } else if id == 35 {
        match rd_str(b, 0) {
            Ok((k, o)) => match rd_u8(b, o) {
                Ok((e, o2)) => finish(b, o2, lib(LibraryView::SetNodeExpanded(k, e != 0))),
                Err(err) => Err(err),
            },
            Err(err) => Err(err),
        }
    } else if id == 36 {
        match rd_u32(b, 0) {
            Ok((q, o)) => match rd_str(b, o) {
                Ok((t, o2)) => finish(b, o2, lib(LibraryView::SetSearchQuery(q, t))),
                Err(err) => Err(err),
            },
            Err(err) => Err(err),
        }
    } else if id == 45 {
        two_str(b, |s: Seq<char>, t: Seq<char>| LibraryView::RenameRoot(s, t))
    } else {
        Ok(None)
    }
}

pub open spec fn st(c: BridgeSettingsCommand) -> CommandView {
    CommandView::Settings(c)
}

/// A flag byte, then the settings command it makes.
pub open spec fn flag_cmd(b: Seq<u8>, f: spec_fn(bool) -> BridgeSettingsCommand) -> Result<Option<CommandView>, Seq<char>> {
    match rd_u8(b, 0) {
        Ok((v, o)) => finish(b, o, st(f(v != 0))),
        Err(e) => Err(e),
    }
}

/// Settings commands.
pub open spec fn settings_spec(id: u16, b: Seq<u8>) -> Result<Option<CommandView>, Seq<char>> {
    if id == 27 {
        match rd_u32(b, 0) {
            Ok((bits, o)) => if f32_bits_finite(bits) {
                finish(b, o, st(BridgeSettingsCommand::SetDbRange(bits)))
            } else {
                Err(msg_db_range())
            },
            Err(e) => Err(e),
        }
    } else if id == 28 {
        flag_cmd(b, |v: bool| BridgeSettingsCommand::SetLogScale(v))
    } else if id == 29 {
        flag_cmd(b, |v: bool| BridgeSettingsCommand::SetShowFps(v))
    } else if id == 30 {
        match rd_i32(b, 0) {
            Ok((v, o)) => finish(
                b,
                o,
                st(BridgeSettingsCommand::SetLibrarySortMode(LibrarySortMode::spec_from_i32(v))),
            ),
            Err(e) => Err(e),
        }
    } else if id == 31 {
        match rd_u32(b, 0) {
            Ok((v, o)) => finish(b, o, st(BridgeSettingsCommand::SetFftSize(v as usize))),
            Err(e) => Err(e),
        }
    } else if id == 32 {
        match rd_u8(b, 0) {
            Ok((v, o)) => finish(
                b,
                o,
                st(
                    BridgeSettingsCommand::SetSpectrogramViewMode(
                        SpectrogramViewMode::spec_from_i32(v as i32),
                    ),
                ),
            ),
            Err(e) => Err(e),
        }
    } else if id == 39 {
        flag_cmd(b, |v: bool| BridgeSettingsCommand::SetSystemMediaControlsEnabled(v))
    } else if id == 40 {
        flag_cmd(b, |v: bool| BridgeSettingsCommand::SetLastFmScrobblingEnabled(v))
    } else if id == 41 {
        finish(b, 0, st(BridgeSettingsCommand::BeginLastFmAuth))
    } else if id == 42 {
        finish(b, 0, st(BridgeSettingsCommand::CompleteLastFmAuth))
    } else if id == 43 {
        finish(b, 0, st(BridgeSettingsCommand::DisconnectLastFm))
    } else if id == 44 {
        match rd_u8(b, 0) {
            Ok((v, o)) => finish(
                b,
                o,
                st(
                    BridgeSettingsCommand::SetViewerFullscreenMode(
                        ViewerFullscreenMode::spec_from_i32(v as i32),
                    ),
                ),
            ),
            Err(e) => Err(e),
        }
    } else {
        Ok(None)
    }
}

/// Snapshot and shutdown requests.
pub open spec fn system_spec(id: u16, b: Seq<u8>) -> Result<Option<CommandView>, Seq<char>> {
    if id == 33 {
        finish(b, 0, CommandView::RequestSnapshot)
    } else if id == 34 {
        finish(b, 0, CommandView::Shutdown)
    } else {
        Ok(None)
    }
}

/// The command a payload holds, trying each group in turn.
pub open spec fn command_spec(id: u16, b: Seq<u8>) -> Result<Option<CommandView>, Seq<char>> {
    if playback_spec(id, b) != Ok::<Option<CommandView>, Seq<char>>(None) {
        playback_spec(id, b)
    } else if queue_spec(id, b) != Ok::<Option<CommandView>, Seq<char>>(None) {
        queue_spec(id, b)
    } else if library_collection_spec(id, b) != Ok::<Option<CommandView>, Seq<char>>(None) {
        library_collection_spec(id, b)
    } else if library_ui_spec(id, b) != Ok::<Option<CommandView>, Seq<char>>(None) {
        library_ui_spec(id, b)
    } else if settings_spec(id, b) != Ok::<Option<CommandView>, Seq<char>>(None) {
        settings_spec(id, b)
    } else {
        system_spec(id, b)
    }
}

pub open spec fn result_view(r: Result<Option<BridgeCommand>, String>) -> Result<Option<CommandView>, Seq<char>> {
    match r {
        Ok(Some(c)) => Ok(Some(command_view(c))),
        Ok(None) => Ok(None),
        Err(e) => Err(e@),
    }
}

pub open spec fn frame_spec(payload: Seq<u8>) -> Result<Option<CommandView>, Seq<char>> {
    if payload.len() < 4 {
        Err("binary command payload too short"@)
    } else {
        let id = from_le16(payload.subrange(0, 2)) as u16;
        let declared = from_le16(payload.subrange(2, 4));
        let body = payload.skip(4);
        if body.len() != declared {
            Err("binary command payload length mismatch: header="@ + decimal(declared as nat)
                + ", actual="@ + decimal(body.len()))
        } else {
            match command_spec(id, body) {
                Ok(Some(c)) => Ok(Some(c)),
                Ok(None) => Err("unknown binary command id "@ + decimal(id as nat)),
                Err(e) => Err(e),
            }
        }
    }
}

// ---------------------------------------------------------------------------
// Parsing
// ---------------------------------------------------------------------------

fn finish_cmd(reader: &BinaryReader, cmd: BridgeCommand) -> (r: Result<Option<BridgeCommand>, String>)
    requires
        reader.wf(),
    ensures
        result_view(r) == finish(reader.bytes@, reader.offset as int, command_view(cmd)),
{
    match reader.expect_done() {
        Ok(()) => Ok(Some(cmd)),
        Err(e) => Err(e),
    }
}

fn read_u8_at(reader: &mut BinaryReader) -> (r: Result<u8, String>)
    requires
        old(reader).wf(),
    ensures
        final(reader).wf(),
        final(reader).bytes@ == old(reader).bytes@,
        match rd_u8(old(reader).bytes@, old(reader).offset as int) {
            Ok((v, o)) => r == Ok::<u8, String>(v) && final(reader).offset == o,
            Err(m) => r matches Err(e) && e@ == m,
        },
{
    reader.read_u8()
}

fn read_u32_at(reader: &mut BinaryReader) -> (r: Result<u32, String>)
    requires
        old(reader).wf(),
    ensures
        final(reader).wf(),
        final(reader).bytes@ == old(reader).bytes@,
        match rd_u32(old(reader).bytes@, old(reader).offset as int) {
            Ok((v, o)) => r == Ok::<u32, String>(v) && final(reader).offset == o,
            Err(m) => r matches Err(e) && e@ == m,
        },
{
    reader.read_u32()
}

fn read_i32_at(reader: &mut BinaryReader) -> (r: Result<i32, String>)
    requires
        old(reader).wf(),
    ensures
        final(reader).wf(),
        final(reader).bytes@ == old(reader).bytes@,
        match rd_i32(old(reader).bytes@, old(reader).offset as int) {
            Ok((v, o)) => r == Ok::<i32, String>(v) && final(reader).offset == o,
            Err(m) => r matches Err(e) && e@ == m,
        },
{
    reader.read_i32()
}

fn read_u64_at(reader: &mut BinaryReader) -> (r: Result<u64, String>)
    requires
        old(reader).wf(),
    ensures
        final(reader).wf(),
        final(reader).bytes@ == old(reader).bytes@,
        match rd_u64(old(reader).bytes@, old(reader).offset as int) {
            Ok((v, o)) => r == Ok::<u64, String>(v) && final(reader).offset == o,
            Err(m) => r matches Err(e) && e@ == m,
        },
{
    let lo = match reader.read_u32() {
        Ok(v) => v,
        Err(e) => return Err(e),
    };
    let hi = match reader.read_u32() {
        Ok(v) => v,
        Err(e) => return Err(e),
    };
    Ok((lo as u64) + (hi as u64) * 0x1_0000_0000)
}

fn read_str_at(reader: &mut BinaryReader) -> (r: Result<String, String>)
    requires
        old(reader).wf(),
    ensures
        final(reader).wf(),
        final(reader).bytes@ == old(reader).bytes@,
        match rd_str(old(reader).bytes@, old(reader).offset as int) {
            Ok((v, o)) => r matches Ok(s) && s@ == v && final(reader).offset == o,
            Err(m) => r matches Err(e) && e@ == m,
        },
{
    reader.read_u16_string()
}

fn read_str_list_at(reader: &mut BinaryReader) -> (r: Result<Vec<String>, String>)
    requires
        old(reader).wf(),
    ensures
        final(reader).wf(),
        final(reader).bytes@ == old(reader).bytes@,
        match rd_str_list(old(reader).bytes@, old(reader).offset as int) {
            Ok((v, o)) => r matches Ok(s) && strings_view(s@) == v && final(reader).offset == o,
            Err(m) => r matches Err(e) && e@ == m,
        },
{
    reader.read_u16_string_vec()
}

fn message(text: &str) -> (r: String)
    ensures
        r@ == text@,
{
    owned(text)
}

pub fn parse_playback_command(cmd_id: u16, reader: &mut BinaryReader) -> (r: Result<
    Option<BridgeCommand>,
    String,
>)
    requires
        old(reader).wf(),
        old(reader).offset == 0,
    ensures
        result_view(r) == playback_spec(cmd_id, old(reader).bytes@),
{
    let command = if cmd_id == 1 {
        BridgePlaybackCommand::Play
    } else if cmd_id == 2 {
        BridgePlaybackCommand::Pause
    } else if cmd_id == 3 {
        BridgePlaybackCommand::Stop
    } else if cmd_id == 4 {
        BridgePlaybackCommand::Next
    } else if cmd_id == 5 {
        BridgePlaybackCommand::Previous
    } else if cmd_id == 6 {
        let bits = match read_u64_at(reader) {
            Ok(v) => v,
            Err(e) => return Err(e),
        };
        if !is_f64_finite(bits) {
            return Err(message("set_volume value must be finite"));
        }
        if bits % 0x8000_0000_0000_0000 > F32_MAX_AS_F64_BITS {
            return Err(message("set_volume value is out of range"));
        }
        BridgePlaybackCommand::SetVolume(bits)
    } else if cmd_id == 7 {
        let bits = match read_u64_at(reader) {
            Ok(v) => v,
            Err(e) => return Err(e),
        };
        if !is_f64_finite(bits) || !(bits <= 0x8000_0000_0000_0000) {
            return Err(message("seek value must be finite and >= 0"));
        }
        BridgePlaybackCommand::Seek(bits)
    } else if cmd_id == 25 {
        let m = match read_u8_at(reader) {
            Ok(v) => v,
            Err(e) => return Err(e),
        };
        BridgePlaybackCommand::SetRepeatMode(
            if m == 1 {
                RepeatMode::One
            } else if m == 2 {
                RepeatMode::All
            } else {
                RepeatMode::Off
            },
        )
    } else if cmd_id == 26 {
        let v = match read_u8_at(reader) {
            Ok(v) => v,
            Err(e) => return Err(e),
        };
        BridgePlaybackCommand::SetShuffle(v != 0)
    } else {
        return Ok(None);
    };
    finish_cmd(reader, BridgeCommand::Playback(command))
}

pub fn parse_queue_command(cmd_id: u16, reader: &mut BinaryReader) -> (r: Result<
    Option<BridgeCommand>,
    String,
>)
    requires
        old(reader).wf(),
        old(reader).offset == 0,
    ensures
        result_view(r) == queue_spec(cmd_id, old(reader).bytes@),
{
    let command = if cmd_id == 8 {
        match read_u32_at(reader) {
            Ok(v) => BridgeQueueCommand::PlayAt(crate::codec::usize_from_u32(v)),
            Err(e) => return Err(e),
        }
    } else if cmd_id == 9 {
        let v = match read_i32_at(reader) {
            Ok(v) => v,
            Err(e) => return Err(e),
        };
        if v < 0 {
            BridgeQueueCommand::Select(None)
        } else if (v as u64) > (usize::MAX as u64) {
            let mut text: Vec<char> = Vec::new();
            push_str(&mut text, "binary command index out of range: ");
            crate::text::push_decimal_i64(&mut text, v as i64);
            return Err(string_from_chars(&text));
        } else {
            BridgeQueueCommand::Select(Some(v as usize))
        }
    } else if cmd_id == 10 {
        match read_u32_at(reader) {
            Ok(v) => BridgeQueueCommand::Remove(crate::codec::usize_from_u32(v)),
            Err(e) => return Err(e),
        }
    } else if cmd_id == 11 {
        let from = match read_u32_at(reader) {
            Ok(v) => crate::codec::usize_from_u32(v),
            Err(e) => return Err(e),
        };
        let to = match read_u32_at(reader) {
            Ok(v) => crate::codec::usize_from_u32(v),
            Err(e) => return Err(e),
        };
        BridgeQueueCommand::Move { from, to }
    } else if cmd_id == 12 {
        BridgeQueueCommand::Clear
    } else {
        return Ok(None);
    };
    finish_cmd(reader, BridgeCommand::Queue(command))
}

pub fn parse_library_collection_command(cmd_id: u16, reader: &mut BinaryReader) -> (r: Result<
    Option<BridgeCommand>,
    String,
>)
    requires
        old(reader).wf(),
        old(reader).offset == 0,
    ensures
        result_view(r) == library_collection_spec(cmd_id, old(reader).bytes@),
{
    let command = if cmd_id == 13 || cmd_id == 14 || cmd_id == 19 || cmd_id == 20 || cmd_id == 48
        || cmd_id == 49 {
        let s = match read_str_at(reader) {
            Ok(v) => v,
            Err(e) => return Err(e),
        };
        if cmd_id == 13 {
            BridgeLibraryCommand::AddTrack(s)
        } else if cmd_id == 14 {
            BridgeLibraryCommand::PlayTrack(s)
        } else if cmd_id == 19 {
            BridgeLibraryCommand::ReplaceArtistByKey { artist: s }
        } else if cmd_id == 20 {
            BridgeLibraryCommand::AppendArtistByKey { artist: s }
        } else if cmd_id == 48 {
            BridgeLibraryCommand::ReplaceRootByPath { root: s }
        } else {
            BridgeLibraryCommand::AppendRootByPath { root: s }
        }
    } else if cmd_id == 15 || cmd_id == 16 || cmd_id == 47 {
        let v = match read_str_list_at(reader) {
            Ok(v) => v,
            Err(e) => return Err(e),
        };
        if cmd_id == 15 {
            BridgeLibraryCommand::ReplaceWithAlbum(v)
        } else if cmd_id == 16 {
            BridgeLibraryCommand::AppendAlbum(v)
        } else {
            BridgeLibraryCommand::RefreshEditedPaths(v)
        }
    } else if cmd_id == 17 || cmd_id == 18 || cmd_id == 46 {
        let a = match read_str_at(reader) {
            Ok(v) => v,
            Err(e) => return Err(e),
        };
        let b = match read_str_at(reader) {
            Ok(v) => v,
            Err(e) => return Err(e),
        };
        if cmd_id == 17 {
            BridgeLibraryCommand::ReplaceAlbumByKey { artist: a, album: b }
        } else if cmd_id == 18 {
            BridgeLibraryCommand::AppendAlbumByKey { artist: a, album: b }
        } else {
            BridgeLibraryCommand::ApplyAlbumArt { track_path: a, artwork_path: b }
        }
    } else if cmd_id == 37 {
        BridgeLibraryCommand::ReplaceAllTracks
    } else if cmd_id == 38 {
        BridgeLibraryCommand::AppendAllTracks
    } else {
        return Ok(None);
    };
    finish_cmd(reader, BridgeCommand::Library(command))
}

pub fn parse_library_ui_command(cmd_id: u16, reader: &mut BinaryReader) -> (r: Result<
    Option<BridgeCommand>,
    String,
>)
    requires
        old(reader).wf(),
        old(reader).offset == 0,
    ensures
        result_view(r) == library_ui_spec(cmd_id, old(reader).bytes@),
{
    let command = if cmd_id == 21 || cmd_id == 45 {
        let a = match read_str_at(reader) {
            Ok(v) => v,
            Err(e) => return Err(e),
        };
        let b = match read_str_at(reader) {
            Ok(v) => v,
            Err(e) => return Err(e),
        };
        if cmd_id == 21 {
            BridgeLibraryCommand::AddRoot { path: a, name: b }
        } else {
            BridgeLibraryCommand::RenameRoot { path: a, name: b }
        }
    } else if cmd_id == 22 || cmd_id == 23 {
        let a = match read_str_at(reader) {
            Ok(v) => v,
            Err(e) => return Err(e),
        };
        if cmd_id == 22 {
            BridgeLibraryCommand::RemoveRoot(a)
        } else {
            BridgeLibraryCommand::RescanRoot(a)
        }
    } else if cmd_id == 24 {
        BridgeLibraryCommand::RescanAll
    } else if cmd_id == 35 {
        let key = match read_str_at(reader) {
            Ok(v) => v,
            Err(e) => return Err(e),
        };
        let expanded = match read_u8_at(reader) {
            Ok(v) => v != 0,
            Err(e) => return Err(e),
        };
        BridgeLibraryCommand::SetNodeExpanded { key, expanded }
    } else if cmd_id == 36 {
        let seq = match read_u32_at(reader) {
            Ok(v) => v,
            Err(e) => return Err(e),
        };
        let query = match read_str_at(reader) {
            Ok(v) => v,
            Err(e) => return Err(e),
        };
        BridgeLibraryCommand::SetSearchQuery { seq, query }
    } else {
        return Ok(None);
    };
    finish_cmd(reader, BridgeCommand::Library(command))
}

pub fn parse_settings_command(cmd_id: u16, reader: &mut BinaryReader) -> (r: Result<
    Option<BridgeCommand>,
    String,
>)
    requires
        old(reader).wf(),
        old(reader).offset == 0,
    ensures
        result_view(r) == settings_spec(cmd_id, old(reader).bytes@),
{
    let command = if cmd_id == 27 {
        let bits = match read_u32_at(reader) {
            Ok(v) => v,
            Err(e) => return Err(e),
        };
        if !is_f32_finite(bits) {
            return Err(message("set_db_range value must be finite"));
        }
        BridgeSettingsCommand::SetDbRange(bits)
    } else if cmd_id == 28 || cmd_id == 29 || cmd_id == 39 || cmd_id == 40 {
        let v = match read_u8_at(reader) {
            Ok(v) => v != 0,
            Err(e) => return Err(e),
        };
        if cmd_id == 28 {
            BridgeSettingsCommand::SetLogScale(v)
        } else if cmd_id == 29 {
            BridgeSettingsCommand::SetShowFps(v)
        } else if cmd_id == 39 {
            BridgeSettingsCommand::SetSystemMediaControlsEnabled(v)
        } else {
            BridgeSettingsCommand::SetLastFmScrobblingEnabled(v)
        }
    } else if cmd_id == 30 {
        match read_i32_at(reader) {
            Ok(v) => BridgeSettingsCommand::SetLibrarySortMode(LibrarySortMode::from_i32(v)),
            Err(e) => return Err(e),
        }
    } else if cmd_id == 31 {
        match read_u32_at(reader) {
            Ok(v) => BridgeSettingsCommand::SetFftSize(crate::codec::usize_from_u32(v)),
            Err(e) => return Err(e),
        }
    } else if cmd_id == 32 || cmd_id == 44 {
        let v = match read_u8_at(reader) {
            Ok(v) => v as i32,
            Err(e) => return Err(e),
        };
        if cmd_id == 32 {
            BridgeSettingsCommand::SetSpectrogramViewMode(SpectrogramViewMode::from_i32(v))
        } else {
            BridgeSettingsCommand::SetViewerFullscreenMode(ViewerFullscreenMode::from_i32(v))
        }
    } else if cmd_id == 41 {
        BridgeSettingsCommand::BeginLastFmAuth
    } else if cmd_id == 42 {
        BridgeSettingsCommand::CompleteLastFmAuth
    } else if cmd_id == 43 {
        BridgeSettingsCommand::DisconnectLastFm
    } else {
        return Ok(None);
    };
    finish_cmd(reader, BridgeCommand::Settings(command))
}

pub fn parse_system_command(cmd_id: u16, reader: &mut BinaryReader) -> (r: Result<
    Option<BridgeCommand>,
    String,
>)
    requires
        old(reader).wf(),
        old(reader).offset == 0,
    ensures
        result_view(r) == system_spec(cmd_id, old(reader).bytes@),
{
    let command = if cmd_id == 33 {
        BridgeCommand::RequestSnapshot
    } else if cmd_id == 34 {
        BridgeCommand::Shutdown
    } else {
        return Ok(None);
    };
    finish_cmd(reader, command)
}

/// Reads one command from the binary channel (see `frame_spec`).
pub fn parse_binary_command(payload: &[u8]) -> (r: Result<Option<BridgeCommand>, String>)
    ensures
        result_view(r) == frame_spec(payload@),
{
    if payload.len() < 4 {
        return Err(message("binary command payload too short"));
    }
    let cmd_id: u16 = (payload[0] as u16) + 256 * (payload[1] as u16);
    let declared: usize = (payload[2] as usize) + 256 * (payload[3] as usize);
    proof {
        assert(crate::codec::pow256(1) == 256) by {
            reveal_with_fuel(crate::codec::pow256, 2);
        }
        assert(payload@.subrange(0, 2)[0] == payload@[0] && payload@.subrange(0, 2)[1] == payload@[1]);
        assert(payload@.subrange(2, 4)[0] == payload@[2] && payload@.subrange(2, 4)[1] == payload@[3]);
    }
    assert(cmd_id as int == from_le16(payload@.subrange(0, 2)));
    assert(declared as int == from_le16(payload@.subrange(2, 4)));
    let body = vstd::slice::slice_subrange(payload, 4, payload.len());
    assert(body@ =~= payload@.skip(4));
    if body.len() != declared {
        let mut text: Vec<char> = Vec::new();
        push_str(&mut text, "binary command payload length mismatch: header=");
        push_decimal(&mut text, declared as u64);
        push_str(&mut text, ", actual=");
        push_decimal(&mut text, body.len() as u64);
        return Err(string_from_chars(&text));
    }
    let ghost b = body@;
    let mut reader = BinaryReader::new(body);
    let r1 = parse_playback_command(cmd_id, &mut reader);
    match r1 {
        Ok(None) => {},
        _ => return r1,
    }
    let mut reader = BinaryReader::new(body);
    let r2 = parse_queue_command(cmd_id, &mut reader);
    match r2 {
        Ok(None) => {},
        _ => return r2,
    }
    let mut reader = BinaryReader::new(body);
    let r3 = parse_library_collection_command(cmd_id, &mut reader);
    match r3 {
        Ok(None) => {},
        _ => return r3,
    }
    let mut reader = BinaryReader::new(body);
    let r4 = parse_library_ui_command(cmd_id, &mut reader);
    match r4 {
        Ok(None) => {},
        _ => return r4,
    }
    let mut reader = BinaryReader::new(body);
    let r5 = parse_settings_command(cmd_id, &mut reader);
    match r5 {
        Ok(None) => {},
        _ => return r5,
    }
    let mut reader = BinaryReader::new(body);
    let r6 = parse_system_command(cmd_id, &mut reader);
    match r6 {
        Ok(None) => {
            let mut text: Vec<char> = Vec::new();
            push_str(&mut text, "unknown binary command id ");
            push_decimal(&mut text, cmd_id as u64);
            Err(string_from_chars(&text))
        },
        _ => r6,
    }
}

/// Commands whose effect shows in the queue, so that the next snapshot must
/// carry it: every queue command but selecting and playing a row, and the
/// library commands that put tracks in the queue or rename or refresh them.
pub open spec fn requires_queue_snapshot(cmd: BridgeCommand) -> bool {
    match cmd {
        BridgeCommand::Queue(q) => !(q is Select || q is PlayAt),
        BridgeCommand::Library(l) => l is AddTrack || l is PlayTrack || l is ReplaceWithAlbum
            || l is AppendAlbum || l is ReplaceAlbumByKey || l is AppendAlbumByKey
            || l is ReplaceArtistByKey || l is AppendArtistByKey || l is ReplaceRootByPath
            || l is AppendRootByPath || l is ReplaceAllTracks || l is AppendAllTracks
            || l is RefreshEditedPaths || l is RefreshRenamedPaths,
        _ => false,
    }
}

pub fn command_requires_queue_snapshot(cmd: &BridgeCommand) -> (r: bool)
    ensures
        r == requires_queue_snapshot(*cmd),
{
    match cmd {
        BridgeCommand::Queue(q) => match q {
            BridgeQueueCommand::Select(_) => false,
            BridgeQueueCommand::PlayAt(_) => false,
            _ => true,
        },
        BridgeCommand::Library(l) => match l {
            BridgeLibraryCommand::AddTrack(_) => true,
            BridgeLibraryCommand::PlayTrack(_) => true,
            BridgeLibraryCommand::ReplaceWithAlbum(_) => true,
            BridgeLibraryCommand::AppendAlbum(_) => true,
            BridgeLibraryCommand::ReplaceAlbumByKey { .. } => true,
            BridgeLibraryCommand::AppendAlbumByKey { .. } => true,
            BridgeLibraryCommand::ReplaceArtistByKey { .. } => true,
            BridgeLibraryCommand::AppendArtistByKey { .. } => true,
            BridgeLibraryCommand::ReplaceRootByPath { .. } => true,
            BridgeLibraryCommand::AppendRootByPath { .. } => true,
            BridgeLibraryCommand::ReplaceAllTracks => true,
            BridgeLibraryCommand::AppendAllTracks => true,
            BridgeLibraryCommand::RefreshEditedPaths(_) => true,
            BridgeLibraryCommand::RefreshRenamedPaths(_) => true,
            _ => false,
        },
        _ => false,
    }
}

} // verus!
