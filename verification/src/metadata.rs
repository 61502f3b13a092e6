//! Track metadata as shown by the player, and the format names shown for
//! file types.
use vstd::prelude::*;

use crate::imports::{extension, last_dot};
use crate::library::file_name_of;
use crate::modes::eq_lit;
use crate::tree_build::{file_stem, file_stem_exec};
use crate::text::{chars_of, lower_seq, string_from_chars, to_ascii_lower, to_ascii_upper, trim, trim_str, upper_seq};

verus! {

/// Tags and technical details of the loaded track.
#[derive(Debug, Clone, Default)]
pub struct TrackMetadata {
    pub source_path: Option<String>,
    pub title: String,
    pub artist: String,
    pub album: String,
    pub genre: String,
    pub year: Option<i32>,
    pub sample_rate_hz: Option<u32>,
    pub bitrate_kbps: Option<u32>,
    pub channels: Option<u8>,
    pub bit_depth: Option<u8>,
    pub format_label: String,
    pub current_bitrate_kbps: Option<u32>,
    /// The bitrate of each second of the track, 0 where unknown.
    pub bitrate_timeline_kbps: Vec<u16>,
    pub cover_art_path: Option<String>,
    /// Width, height and RGBA pixels of the cover.
    pub cover_art_rgba: Option<(usize, usize, Vec<u8>)>,
}

/// What the metadata service reports.
#[derive(Debug, Clone)]
pub enum MetadataEvent {
    Loaded(TrackMetadata),
}

impl TrackMetadata {
    /// The bitrate to show at a whole second of playback (`None` for a
    /// position that is not a valid time): the timeline's value there when
    /// it is known, else the current bitrate, else the nominal one.
    pub fn displayed_bitrate_at(&self, second: Option<usize>) -> (r: Option<u32>)
        ensures
            r == match second {
                Some(s) if s < self.bitrate_timeline_kbps@.len() && self.bitrate_timeline_kbps@[s as int]
                    > 0 => Some(self.bitrate_timeline_kbps@[s as int] as u32),
                _ => if self.current_bitrate_kbps is Some {
                    self.current_bitrate_kbps
                } else {
                    self.bitrate_kbps
                },
            },
    {
        if let Some(s) = second {
            if s < self.bitrate_timeline_kbps.len() {
                let v = self.bitrate_timeline_kbps[s];
                if v > 0 {
                    return Some(v as u32);
                }
            }
        }
        match self.current_bitrate_kbps {
            Some(b) => Some(b),
            None => self.bitrate_kbps,
        }
    }
}

/// The name shown for a raw surround stream of a file type.
pub open spec fn surround_label(ext: Seq<char>) -> Seq<char> {
    if ext == "ac3"@ {
        "AC3"@
    } else {
        "DTS"@
    }
}

/// The format name for a file extension (trimmed, ASCII case-insensitive):
/// user-facing names for known types, the extension in capitals otherwise.
pub open spec fn format_label_spec(extension: Option<Seq<char>>) -> Seq<char> {
    let e = match extension {
        Some(x) => lower_seq(trim(x)),
        None => Seq::empty(),
    };
    if e == "aac"@ {
        "AAC"@
    } else if e == "ac3"@ || e == "dts"@ {
        surround_label(e)
    } else if e == "aif"@ || e == "aiff"@ || e == "aifc"@ || e == "afc"@ {
        "AIFF"@
    } else if e == "alac"@ {
        "ALAC"@
    } else if e == "flac"@ {
        "FLAC"@
    } else if e == "m4a"@ || e == "m4b"@ || e == "m4p"@ || e == "m4r"@ || e == "mp4"@ {
        "AAC"@
    } else if e == "mp1"@ {
        "MP1"@
    } else if e == "mp2"@ {
        "MP2"@
    } else if e == "mp3"@ {
        "MP3"@
    } else if e == "ogg"@ {
        "Vorbis"@
    } else if e == "opus"@ {
        "Opus"@
    } else if e == "wav"@ || e == "wave"@ {
        "WAV"@
    } else if e == "wv"@ {
        "WavPack"@
    } else {
        upper_seq(e)
    }
}

fn lit(s: &str) -> (r: String)
    ensures
        r@ == s@,
{
    string_from_chars(&chars_of(s))
}

pub fn format_label_from_extension(extension: Option<&str>) -> (r: String)
    ensures
        r@ == format_label_spec(match extension {
            Some(x) => Some(x@),
            None => None,
        }),
{
    let e = match extension {
        Some(x) => to_ascii_lower(&trim_str(x)),
        None => Vec::new(),
    };
    assert(extension is None ==> e@ =~= Seq::<char>::empty());
    if eq_lit(&e, "aac") {
        lit("AAC")
    } else if eq_lit(&e, "ac3") {
        lit("AC3")
    } else if eq_lit(&e, "dts") {
        lit("DTS")
    } else if eq_lit(&e, "aif") || eq_lit(&e, "aiff") || eq_lit(&e, "aifc") || eq_lit(&e, "afc") {
        lit("AIFF")
    } else if eq_lit(&e, "alac") {
        lit("ALAC")
    } else if eq_lit(&e, "flac") {
        lit("FLAC")
    } else if eq_lit(&e, "m4a") || eq_lit(&e, "m4b") || eq_lit(&e, "m4p") || eq_lit(&e, "m4r")
        || eq_lit(&e, "mp4") {
        lit("AAC")
    } else if eq_lit(&e, "mp1") {
        lit("MP1")
    } else if eq_lit(&e, "mp2") {
        lit("MP2")
    } else if eq_lit(&e, "mp3") {
        lit("MP3")
    } else if eq_lit(&e, "ogg") {
        lit("Vorbis")
    } else if eq_lit(&e, "opus") {
        lit("Opus")
    } else if eq_lit(&e, "wav") || eq_lit(&e, "wave") {
        lit("WAV")
    } else if eq_lit(&e, "wv") {
        lit("WavPack")
    } else {
        string_from_chars(&to_ascii_upper(&e))
    }
}


// ---------------------------------------------------------------------------
// Building a track's metadata
// ---------------------------------------------------------------------------

/// The kind of file the tag reader recognised.
#[derive(Debug, Clone, Copy, PartialEq, Eq, Structural)]
pub enum TagFileKind {
    Aac,
    Aiff,
    Flac,
    Mpeg,
    Mp4,
    Opus,
    Vorbis,
    Wav,
    WavPack,
    Other,
}

/// The format name for a file the tag reader recognised: its own name for
/// the kinds that have one, else the name for the file's extension.
pub open spec fn kind_label_spec(kind: TagFileKind, extension: Option<Seq<char>>) -> Seq<char> {
    match kind {
        TagFileKind::Aac => "AAC"@,
        TagFileKind::Aiff => "AIFF"@,
        TagFileKind::Flac => "FLAC"@,
        TagFileKind::Opus => "Opus"@,
        TagFileKind::Vorbis => "Vorbis"@,
        TagFileKind::Wav => "WAV"@,
        TagFileKind::WavPack => "WavPack"@,
        _ => format_label_spec(extension),
    }
}

pub fn format_label_for_kind(kind: TagFileKind, extension: Option<&str>) -> (r: String)
    ensures
        r@ == kind_label_spec(kind, match extension {
            Some(x) => Some(x@),
            None => None,
        }),
{
    match kind {
        TagFileKind::Aac => lit("AAC"),
        TagFileKind::Aiff => lit("AIFF"),
        TagFileKind::Flac => lit("FLAC"),
        TagFileKind::Opus => lit("Opus"),
        TagFileKind::Vorbis => lit("Vorbis"),
        TagFileKind::Wav => lit("WAV"),
        TagFileKind::WavPack => lit("WavPack"),
        _ => format_label_from_extension(extension),
    }
}

/// What the tag reader found in a file: its audio properties and the kind
/// of file.
#[derive(Debug, Clone)]
pub struct FileProperties {
    pub kind: TagFileKind,
    pub sample_rate_hz: Option<u32>,
    pub channels: Option<u8>,
    pub bit_depth: Option<u8>,
    pub bitrate_kbps: Option<u32>,
}

/// Text tags of a file; each is absent when the file does not hold it.
#[derive(Debug, Clone, Default)]
pub struct TagFields {
    pub title: Option<String>,
    pub artist: Option<String>,
    pub album: Option<String>,
    pub genre: Option<String>,
    pub year: Option<i32>,
}

/// Technical details found by decoding the stream.
#[derive(Debug, Clone, Default)]
pub struct StreamDetails {
    pub format_label: String,
    pub sample_rate_hz: Option<u32>,
    pub bitrate_kbps: Option<u32>,
    pub channels: Option<u8>,
    pub bit_depth: Option<u8>,
    pub current_bitrate_kbps: Option<u32>,
    pub bitrate_timeline_kbps: Vec<u16>,
}

pub open spec fn opt_seq(s: Option<String>) -> Option<Seq<char>> {
    match s {
        Some(t) => Some(t@),
        None => None,
    }
}

pub open spec fn or_else<T>(a: Option<T>, b: Option<T>) -> Option<T> {
    match a {
        Some(x) => Some(x),
        None => b,
    }
}

/// `Path::extension` of a path.
pub fn extension_of(path: &str) -> (r: Option<String>)
    ensures
        opt_seq(r) == extension(path@),
{
    let f = match file_name_of(path) {
        Some(f) => f,
        None => return None,
    };
    let mut n: usize = f.len();
    while n > 0 && f[n - 1] != '.'
        invariant
            n <= f@.len(),
            last_dot(f@, f@.len() as int) == last_dot(f@, n as int),
        decreases n,
    {
        n -= 1;
    }
    if n <= 1 {
        return None;
    }
    let mut e: Vec<char> = Vec::new();
    let mut i: usize = n;
    while i < f.len()
        invariant
            n <= i <= f@.len(),
            e@ == f@.subrange(n as int, i as int),
        decreases f@.len() - i,
    {
        e.push(f[i]);
        assert(e@ =~= f@.subrange(n as int, i + 1));
        i += 1;
    }
    assert(e@ =~= f@.skip(n as int));
    Some(string_from_chars(&e))
}

/// The metadata of a track before its file is read: its path, and its
/// file stem (or nothing) as title.
pub fn initial_metadata(path: &str) -> (r: TrackMetadata)
    ensures
        opt_seq(r.source_path) == Some(path@),
        r.title@ == match file_stem(path@) {
            Some(s) => s,
            None => Seq::<char>::empty(),
        },
        r.artist@.len() == 0 && r.album@.len() == 0 && r.genre@.len() == 0 && r.format_label@.len() == 0,
        r.year is None && r.sample_rate_hz is None && r.bitrate_kbps is None && r.channels is None,
        r.bit_depth is None && r.current_bitrate_kbps is None && r.cover_art_path is None && r.cover_art_rgba is None,
        r.bitrate_timeline_kbps@.len() == 0,
{
    let title = match file_stem_exec(path) {
        Some(s) => string_from_chars(&s),
        None => String::new(),
    };
    TrackMetadata {
        source_path: Some(lit(path)),
        title,
        artist: String::new(),
        album: String::new(),
        genre: String::new(),
        year: None,
        sample_rate_hz: None,
        bitrate_kbps: None,
        channels: None,
        bit_depth: None,
        format_label: String::new(),
        current_bitrate_kbps: None,
        bitrate_timeline_kbps: Vec::new(),
        cover_art_path: None,
        cover_art_rgba: None,
    }
}

/// Takes the tag reader's audio properties, and the format name for the
/// kind of file (see `kind_label_spec`).
pub fn apply_file_properties(m: &mut TrackMetadata, props: &FileProperties, extension: Option<&str>)
    ensures
        final(m).sample_rate_hz == props.sample_rate_hz,
        final(m).channels == props.channels,
        final(m).bit_depth == props.bit_depth,
        final(m).bitrate_kbps == props.bitrate_kbps,
        final(m).format_label@ == kind_label_spec(props.kind, match extension {
            Some(x) => Some(x@),
            None => None,
        }),
        final(m).source_path == old(m).source_path && final(m).title == old(m).title,
        final(m).artist == old(m).artist && final(m).album == old(m).album && final(m).genre == old(m).genre,
        final(m).year == old(m).year && final(m).current_bitrate_kbps == old(m).current_bitrate_kbps,
        final(m).bitrate_timeline_kbps == old(m).bitrate_timeline_kbps,
        final(m).cover_art_path == old(m).cover_art_path && final(m).cover_art_rgba == old(m).cover_art_rgba,
{
    m.sample_rate_hz = props.sample_rate_hz;
    m.channels = props.channels;
    m.bit_depth = props.bit_depth;
    m.bitrate_kbps = props.bitrate_kbps;
    m.format_label = format_label_for_kind(props.kind, extension);
}

fn text_or(v: &Option<String>, fallback: &str) -> (r: String)
    ensures
        r@ == match opt_seq(*v) {
            Some(t) => t,
            None => fallback@,
        },
{
    match v {
        Some(t) => t.clone(),
        None => lit(fallback),
    }
}

/// Takes a file's main tags: title, artist and album, with "Unknown …"
/// where a tag is missing; the genre, empty where missing; and the year.
pub fn apply_tag_fields(m: &mut TrackMetadata, tag: &TagFields)
    ensures
        final(m).title@ == match opt_seq(tag.title) {
            Some(t) => t,
            None => "Unknown title"@,
        },
        final(m).artist@ == match opt_seq(tag.artist) {
            Some(t) => t,
            None => "Unknown artist"@,
        },
        final(m).album@ == match opt_seq(tag.album) {
            Some(t) => t,
            None => "Unknown album"@,
        },
        final(m).genre@ == match opt_seq(tag.genre) {
            Some(t) => t,
            None => Seq::<char>::empty(),
        },
        final(m).year == tag.year,
        final(m).source_path == old(m).source_path && final(m).format_label == old(m).format_label,
        final(m).sample_rate_hz == old(m).sample_rate_hz && final(m).channels == old(m).channels,
        final(m).bit_depth == old(m).bit_depth && final(m).bitrate_kbps == old(m).bitrate_kbps,
        final(m).current_bitrate_kbps == old(m).current_bitrate_kbps,
        final(m).bitrate_timeline_kbps == old(m).bitrate_timeline_kbps,
        final(m).cover_art_path == old(m).cover_art_path && final(m).cover_art_rgba == old(m).cover_art_rgba,
{
    m.title = text_or(&tag.title, "Unknown title");
    m.artist = text_or(&tag.artist, "Unknown artist");
    m.album = text_or(&tag.album, "Unknown album");
    m.genre = match &tag.genre {
        Some(t) => t.clone(),
        None => String::new(),
    };
    m.year = tag.year;
}

/// Takes the text tags appended to a raw surround file: each one present
/// replaces the current value; the year only when present.
pub fn apply_appended_tags(m: &mut TrackMetadata, tag: &TagFields)
    ensures
        opt_seq(Some(final(m).title)) == or_else(opt_seq(tag.title), Some(old(m).title@)),
        opt_seq(Some(final(m).artist)) == or_else(opt_seq(tag.artist), Some(old(m).artist@)),
        opt_seq(Some(final(m).album)) == or_else(opt_seq(tag.album), Some(old(m).album@)),
        opt_seq(Some(final(m).genre)) == or_else(opt_seq(tag.genre), Some(old(m).genre@)),
        final(m).year == or_else(tag.year, old(m).year),
        final(m).source_path == old(m).source_path && final(m).format_label == old(m).format_label,
        final(m).sample_rate_hz == old(m).sample_rate_hz && final(m).channels == old(m).channels,
        final(m).bit_depth == old(m).bit_depth && final(m).bitrate_kbps == old(m).bitrate_kbps,
        final(m).current_bitrate_kbps == old(m).current_bitrate_kbps,
        final(m).bitrate_timeline_kbps == old(m).bitrate_timeline_kbps,
        final(m).cover_art_path == old(m).cover_art_path && final(m).cover_art_rgba == old(m).cover_art_rgba,
{
    match &tag.title {
        Some(t) => m.title = t.clone(),
        None => {},
    }
    match &tag.artist {
        Some(t) => m.artist = t.clone(),
        None => {},
    }
    match &tag.album {
        Some(t) => m.album = t.clone(),
        None => {},
    }
    match &tag.genre {
        Some(t) => m.genre = t.clone(),
        None => {},
    }
    m.year = match tag.year {
        Some(y) => Some(y),
        None => m.year,
    };
}

/// Completes what the tags left open: the format name for the extension
/// when none is known, and the nominal bitrate as the current one when
/// there is none.
pub fn finish_metadata(m: &mut TrackMetadata, extension: Option<&str>)
    ensures
        final(m).format_label@ == if old(m).format_label@.len() == 0 {
            format_label_spec(match extension {
                Some(x) => Some(x@),
                None => None,
            })
        } else {
            old(m).format_label@
        },
        final(m).current_bitrate_kbps == or_else(old(m).current_bitrate_kbps, old(m).bitrate_kbps),
        final(m).source_path == old(m).source_path && final(m).title == old(m).title,
        final(m).artist == old(m).artist && final(m).album == old(m).album && final(m).genre == old(m).genre,
        final(m).year == old(m).year && final(m).sample_rate_hz == old(m).sample_rate_hz,
        final(m).channels == old(m).channels && final(m).bit_depth == old(m).bit_depth,
        final(m).bitrate_kbps == old(m).bitrate_kbps,
        final(m).bitrate_timeline_kbps == old(m).bitrate_timeline_kbps,
        final(m).cover_art_path == old(m).cover_art_path && final(m).cover_art_rgba == old(m).cover_art_rgba,
{
    if chars_of(m.format_label.as_str()).len() == 0 {
        m.format_label = format_label_from_extension(extension);
    }
    if m.current_bitrate_kbps.is_none() {
        m.current_bitrate_kbps = m.bitrate_kbps;
    }
}

/// Takes the details found by decoding the stream: a non-empty format name
/// replaces the one known; each property already known stays, the others
/// come from the stream. For a raw surround file the current bitrate is the
/// stream's, else the one known, else the nominal one; for any other file
/// it is the stream's, and so is the bitrate of each second.
pub fn apply_stream_details(m: &mut TrackMetadata, d: &StreamDetails, raw_surround: bool)
    ensures
        final(m).format_label@ == if d.format_label@.len() > 0 {
            d.format_label@
        } else {
            old(m).format_label@
        },
        final(m).sample_rate_hz == or_else(old(m).sample_rate_hz, d.sample_rate_hz),
        final(m).channels == or_else(old(m).channels, d.channels),
        final(m).bit_depth == or_else(old(m).bit_depth, d.bit_depth),
        final(m).bitrate_kbps == or_else(old(m).bitrate_kbps, d.bitrate_kbps),
        raw_surround ==> final(m).current_bitrate_kbps == or_else(
            d.current_bitrate_kbps,
            or_else(old(m).current_bitrate_kbps, final(m).bitrate_kbps),
        ) && final(m).bitrate_timeline_kbps == old(m).bitrate_timeline_kbps,
        !raw_surround ==> final(m).current_bitrate_kbps == d.current_bitrate_kbps
            && final(m).bitrate_timeline_kbps@ == d.bitrate_timeline_kbps@,
        final(m).source_path == old(m).source_path && final(m).title == old(m).title,
        final(m).artist == old(m).artist && final(m).album == old(m).album && final(m).genre == old(m).genre,
        final(m).year == old(m).year,
        final(m).cover_art_path == old(m).cover_art_path && final(m).cover_art_rgba == old(m).cover_art_rgba,
{
    if chars_of(d.format_label.as_str()).len() > 0 {
        m.format_label = d.format_label.clone();
    }
    m.sample_rate_hz = match m.sample_rate_hz {
        Some(v) => Some(v),
        None => d.sample_rate_hz,
    };
    m.channels = match m.channels {
        Some(v) => Some(v),
        None => d.channels,
    };
    m.bit_depth = match m.bit_depth {
        Some(v) => Some(v),
        None => d.bit_depth,
    };
    m.bitrate_kbps = match m.bitrate_kbps {
        Some(v) => Some(v),
        None => d.bitrate_kbps,
    };
    if raw_surround {
        m.current_bitrate_kbps = match d.current_bitrate_kbps {
            Some(v) => Some(v),
            None => match m.current_bitrate_kbps {
                Some(v) => Some(v),
                None => m.bitrate_kbps,
            },
        };
    } else {
        m.current_bitrate_kbps = d.current_bitrate_kbps;
        m.bitrate_timeline_kbps = d.bitrate_timeline_kbps.clone();
    }
}


// ---------------------------------------------------------------------------
// Kind labels agree with extension labels
// ---------------------------------------------------------------------------

/// The usual file extension of each kind that has a name of its own.
pub open spec fn usual_extension(kind: TagFileKind) -> Option<Seq<char>> {
    match kind {
        TagFileKind::Aac => Some("aac"@),
        TagFileKind::Aiff => Some("aiff"@),
        TagFileKind::Flac => Some("flac"@),
        TagFileKind::Opus => Some("opus"@),
        TagFileKind::Vorbis => Some("ogg"@),
        TagFileKind::Wav => Some("wav"@),
        TagFileKind::WavPack => Some("wv"@),
        _ => None,
    }
}

proof fn lemma_label_of_small(e: Seq<char>)
    requires
        e.len() > 0,
        !crate::text::is_ws(e[0]),
        !crate::text::is_ws(e.last()),
        forall|i: int| 0 <= i < e.len() ==> !crate::text::is_upper_ascii(#[trigger] e[i]),
    ensures
        lower_seq(trim(e)) == e,
{
    assert(crate::text::trim_start(e) == e);
    assert(crate::text::trim_end(e) == e);
    assert(lower_seq(e) =~= e);
}

/// A file the tag reader recognises gets the same format name as a file
/// with its kind's usual extension, whatever its own extension; the kinds
/// without a name of their own are named by their extension.
pub proof fn law_kind_label_is_its_extension_label(kind: TagFileKind, e: Option<Seq<char>>)
    ensures
        usual_extension(kind) matches Some(x) ==> kind_label_spec(kind, e) == format_label_spec(Some(x)),
        usual_extension(kind) is None ==> kind_label_spec(kind, e) == format_label_spec(e),
{
    match kind {
        TagFileKind::Aac => {
        reveal_strlit("aac");
        reveal_strlit("ac3");
        reveal_strlit("dts");
        reveal_strlit("aif");
        reveal_strlit("aiff");
        reveal_strlit("aifc");
        reveal_strlit("afc");
        reveal_strlit("alac");
        reveal_strlit("flac");
        reveal_strlit("m4a");
        reveal_strlit("m4b");
        reveal_strlit("m4p");
        reveal_strlit("m4r");
        reveal_strlit("mp4");
        reveal_strlit("mp1");
        reveal_strlit("mp2");
        reveal_strlit("mp3");
        reveal_strlit("ogg");
        reveal_strlit("opus");
        reveal_strlit("wav");
        reveal_strlit("wave");
        reveal_strlit("wv");
        assert("aac"@[0] == 'a');
        assert("aac"@[1] == 'a');
        assert("aac"@[2] == 'c');
        assert forall|i: int| 0 <= i < "aac"@.len() implies !crate::text::is_upper_ascii(#[trigger] "aac"@[i]) by {
            if i == 0 {} else if i == 1 {} else if i == 2 {}
        }
        lemma_label_of_small("aac"@);
        assert("aac"@[1] != "ac3"@[1]);
        assert("aac"@[0] != "dts"@[0]);
        assert("aac"@[1] != "aif"@[1]);
        assert("aac"@.len() != "aiff"@.len());
        assert("aac"@.len() != "aifc"@.len());
        assert("aac"@[1] != "afc"@[1]);
        assert("aac"@.len() != "alac"@.len());
        assert("aac"@.len() != "flac"@.len());
        assert("aac"@[0] != "m4a"@[0]);
        assert("aac"@[0] != "m4b"@[0]);
        assert("aac"@[0] != "m4p"@[0]);
        assert("aac"@[0] != "m4r"@[0]);
        assert("aac"@[0] != "mp4"@[0]);
        assert("aac"@[0] != "mp1"@[0]);
        assert("aac"@[0] != "mp2"@[0]);
        assert("aac"@[0] != "mp3"@[0]);
        assert("aac"@[0] != "ogg"@[0]);
        assert("aac"@.len() != "opus"@.len());
        assert("aac"@[0] != "wav"@[0]);
        assert("aac"@.len() != "wave"@.len());
        assert("aac"@.len() != "wv"@.len());
        },
        TagFileKind::Aiff => {
        reveal_strlit("aiff");
        reveal_strlit("aac");
        reveal_strlit("ac3");
        reveal_strlit("dts");
        reveal_strlit("aif");
        reveal_strlit("aifc");
        reveal_strlit("afc");
        reveal_strlit("alac");
        reveal_strlit("flac");
        reveal_strlit("m4a");
        reveal_strlit("m4b");
        reveal_strlit("m4p");
        reveal_strlit("m4r");
        reveal_strlit("mp4");
        reveal_strlit("mp1");
        reveal_strlit("mp2");
        reveal_strlit("mp3");
        reveal_strlit("ogg");
        reveal_strlit("opus");
        reveal_strlit("wav");
        reveal_strlit("wave");
        reveal_strlit("wv");
        assert("aiff"@[0] == 'a');
        assert("aiff"@[1] == 'i');
        assert("aiff"@[2] == 'f');
        assert("aiff"@[3] == 'f');
        assert forall|i: int| 0 <= i < "aiff"@.len() implies !crate::text::is_upper_ascii(#[trigger] "aiff"@[i]) by {
            if i == 0 {} else if i == 1 {} else if i == 2 {} else if i == 3 {}
        }
        lemma_label_of_small("aiff"@);
        assert("aiff"@.len() != "aac"@.len());
        assert("aiff"@.len() != "ac3"@.len());
        assert("aiff"@.len() != "dts"@.len());
        assert("aiff"@.len() != "aif"@.len());
        assert("aiff"@[3] != "aifc"@[3]);
        assert("aiff"@.len() != "afc"@.len());
        assert("aiff"@[1] != "alac"@[1]);
        assert("aiff"@[0] != "flac"@[0]);
        assert("aiff"@.len() != "m4a"@.len());
        assert("aiff"@.len() != "m4b"@.len());
        assert("aiff"@.len() != "m4p"@.len());
        assert("aiff"@.len() != "m4r"@.len());
        assert("aiff"@.len() != "mp4"@.len());
        assert("aiff"@.len() != "mp1"@.len());
        assert("aiff"@.len() != "mp2"@.len());
        assert("aiff"@.len() != "mp3"@.len());
        assert("aiff"@.len() != "ogg"@.len());
        assert("aiff"@[0] != "opus"@[0]);
        assert("aiff"@.len() != "wav"@.len());
        assert("aiff"@[0] != "wave"@[0]);
        assert("aiff"@.len() != "wv"@.len());
        },
        TagFileKind::Flac => {
        reveal_strlit("flac");
        reveal_strlit("aac");
        reveal_strlit("ac3");
        reveal_strlit("dts");
        reveal_strlit("aif");
        reveal_strlit("aiff");
        reveal_strlit("aifc");
        reveal_strlit("afc");
        reveal_strlit("alac");
        reveal_strlit("m4a");
        reveal_strlit("m4b");
        reveal_strlit("m4p");
        reveal_strlit("m4r");
        reveal_strlit("mp4");
        reveal_strlit("mp1");
        reveal_strlit("mp2");
        reveal_strlit("mp3");
        reveal_strlit("ogg");
        reveal_strlit("opus");
        reveal_strlit("wav");
        reveal_strlit("wave");
        reveal_strlit("wv");
        assert("flac"@[0] == 'f');
        assert("flac"@[1] == 'l');
        assert("flac"@[2] == 'a');
        assert("flac"@[3] == 'c');
        assert forall|i: int| 0 <= i < "flac"@.len() implies !crate::text::is_upper_ascii(#[trigger] "flac"@[i]) by {
            if i == 0 {} else if i == 1 {} else if i == 2 {} else if i == 3 {}
        }
        lemma_label_of_small("flac"@);
        assert("flac"@.len() != "aac"@.len());
        assert("flac"@.len() != "ac3"@.len());
        assert("flac"@.len() != "dts"@.len());
        assert("flac"@.len() != "aif"@.len());
        assert("flac"@[0] != "aiff"@[0]);
        assert("flac"@[0] != "aifc"@[0]);
        assert("flac"@.len() != "afc"@.len());
        assert("flac"@[0] != "alac"@[0]);
        assert("flac"@.len() != "m4a"@.len());
        assert("flac"@.len() != "m4b"@.len());
        assert("flac"@.len() != "m4p"@.len());
        assert("flac"@.len() != "m4r"@.len());
        assert("flac"@.len() != "mp4"@.len());
        assert("flac"@.len() != "mp1"@.len());
        assert("flac"@.len() != "mp2"@.len());
        assert("flac"@.len() != "mp3"@.len());
        assert("flac"@.len() != "ogg"@.len());
        assert("flac"@[0] != "opus"@[0]);
        assert("flac"@.len() != "wav"@.len());
        assert("flac"@[0] != "wave"@[0]);
        assert("flac"@.len() != "wv"@.len());
        },
        TagFileKind::Opus => {
        reveal_strlit("opus");
        reveal_strlit("aac");
        reveal_strlit("ac3");
        reveal_strlit("dts");
        reveal_strlit("aif");
        reveal_strlit("aiff");
        reveal_strlit("aifc");
        reveal_strlit("afc");
        reveal_strlit("alac");
        reveal_strlit("flac");
        reveal_strlit("m4a");
        reveal_strlit("m4b");
        reveal_strlit("m4p");
        reveal_strlit("m4r");
        reveal_strlit("mp4");
        reveal_strlit("mp1");
        reveal_strlit("mp2");
        reveal_strlit("mp3");
        reveal_strlit("ogg");
        reveal_strlit("wav");
        reveal_strlit("wave");
        reveal_strlit("wv");
        assert("opus"@[0] == 'o');
        assert("opus"@[1] == 'p');
        assert("opus"@[2] == 'u');
        assert("opus"@[3] == 's');
        assert forall|i: int| 0 <= i < "opus"@.len() implies !crate::text::is_upper_ascii(#[trigger] "opus"@[i]) by {
            if i == 0 {} else if i == 1 {} else if i == 2 {} else if i == 3 {}
        }
        lemma_label_of_small("opus"@);
        assert("opus"@.len() != "aac"@.len());
        assert("opus"@.len() != "ac3"@.len());
        assert("opus"@.len() != "dts"@.len());
        assert("opus"@.len() != "aif"@.len());
        assert("opus"@[0] != "aiff"@[0]);
        assert("opus"@[0] != "aifc"@[0]);
        assert("opus"@.len() != "afc"@.len());
        assert("opus"@[0] != "alac"@[0]);
        assert("opus"@[0] != "flac"@[0]);
        assert("opus"@.len() != "m4a"@.len());
        assert("opus"@.len() != "m4b"@.len());
        assert("opus"@.len() != "m4p"@.len());
        assert("opus"@.len() != "m4r"@.len());
        assert("opus"@.len() != "mp4"@.len());
        assert("opus"@.len() != "mp1"@.len());
        assert("opus"@.len() != "mp2"@.len());
        assert("opus"@.len() != "mp3"@.len());
        assert("opus"@.len() != "ogg"@.len());
        assert("opus"@.len() != "wav"@.len());
        assert("opus"@[0] != "wave"@[0]);
        assert("opus"@.len() != "wv"@.len());
        },
        TagFileKind::Vorbis => {
        reveal_strlit("ogg");
        reveal_strlit("aac");
        reveal_strlit("ac3");
        reveal_strlit("dts");
        reveal_strlit("aif");
        reveal_strlit("aiff");
        reveal_strlit("aifc");
        reveal_strlit("afc");
        reveal_strlit("alac");
        reveal_strlit("flac");
        reveal_strlit("m4a");
        reveal_strlit("m4b");
        reveal_strlit("m4p");
        reveal_strlit("m4r");
        reveal_strlit("mp4");
        reveal_strlit("mp1");
        reveal_strlit("mp2");
        reveal_strlit("mp3");
        reveal_strlit("opus");
        reveal_strlit("wav");
        reveal_strlit("wave");
        reveal_strlit("wv");
        assert("ogg"@[0] == 'o');
        assert("ogg"@[1] == 'g');
        assert("ogg"@[2] == 'g');
        assert forall|i: int| 0 <= i < "ogg"@.len() implies !crate::text::is_upper_ascii(#[trigger] "ogg"@[i]) by {
            if i == 0 {} else if i == 1 {} else if i == 2 {}
        }
        lemma_label_of_small("ogg"@);
        assert("ogg"@[0] != "aac"@[0]);
        assert("ogg"@[0] != "ac3"@[0]);
        assert("ogg"@[0] != "dts"@[0]);
        assert("ogg"@[0] != "aif"@[0]);
        assert("ogg"@.len() != "aiff"@.len());
        assert("ogg"@.len() != "aifc"@.len());
        assert("ogg"@[0] != "afc"@[0]);
        assert("ogg"@.len() != "alac"@.len());
        assert("ogg"@.len() != "flac"@.len());
        assert("ogg"@[0] != "m4a"@[0]);
        assert("ogg"@[0] != "m4b"@[0]);
        assert("ogg"@[0] != "m4p"@[0]);
        assert("ogg"@[0] != "m4r"@[0]);
        assert("ogg"@[0] != "mp4"@[0]);
        assert("ogg"@[0] != "mp1"@[0]);
        assert("ogg"@[0] != "mp2"@[0]);
        assert("ogg"@[0] != "mp3"@[0]);
        assert("ogg"@.len() != "opus"@.len());
        assert("ogg"@[0] != "wav"@[0]);
        assert("ogg"@.len() != "wave"@.len());
        assert("ogg"@.len() != "wv"@.len());
        },
        TagFileKind::Wav => {
        reveal_strlit("wav");
        reveal_strlit("aac");
        reveal_strlit("ac3");
        reveal_strlit("dts");
        reveal_strlit("aif");
        reveal_strlit("aiff");
        reveal_strlit("aifc");
        reveal_strlit("afc");
        reveal_strlit("alac");
        reveal_strlit("flac");
        reveal_strlit("m4a");
        reveal_strlit("m4b");
        reveal_strlit("m4p");
        reveal_strlit("m4r");
        reveal_strlit("mp4");
        reveal_strlit("mp1");
        reveal_strlit("mp2");
        reveal_strlit("mp3");
        reveal_strlit("ogg");
        reveal_strlit("opus");
        reveal_strlit("wave");
        reveal_strlit("wv");
        assert("wav"@[0] == 'w');
        assert("wav"@[1] == 'a');
        assert("wav"@[2] == 'v');
        assert forall|i: int| 0 <= i < "wav"@.len() implies !crate::text::is_upper_ascii(#[trigger] "wav"@[i]) by {
            if i == 0 {} else if i == 1 {} else if i == 2 {}
        }
        lemma_label_of_small("wav"@);
        assert("wav"@[0] != "aac"@[0]);
        assert("wav"@[0] != "ac3"@[0]);
        assert("wav"@[0] != "dts"@[0]);
        assert("wav"@[0] != "aif"@[0]);
        assert("wav"@.len() != "aiff"@.len());
        assert("wav"@.len() != "aifc"@.len());
        assert("wav"@[0] != "afc"@[0]);
        assert("wav"@.len() != "alac"@.len());
        assert("wav"@.len() != "flac"@.len());
        assert("wav"@[0] != "m4a"@[0]);
        assert("wav"@[0] != "m4b"@[0]);
        assert("wav"@[0] != "m4p"@[0]);
        assert("wav"@[0] != "m4r"@[0]);
        assert("wav"@[0] != "mp4"@[0]);
        assert("wav"@[0] != "mp1"@[0]);
        assert("wav"@[0] != "mp2"@[0]);
        assert("wav"@[0] != "mp3"@[0]);
        assert("wav"@[0] != "ogg"@[0]);
        assert("wav"@.len() != "opus"@.len());
        assert("wav"@.len() != "wave"@.len());
        assert("wav"@.len() != "wv"@.len());
        },
        TagFileKind::WavPack => {
        reveal_strlit("wv");
        reveal_strlit("aac");
        reveal_strlit("ac3");
        reveal_strlit("dts");
        reveal_strlit("aif");
        reveal_strlit("aiff");
        reveal_strlit("aifc");
        reveal_strlit("afc");
        reveal_strlit("alac");
        reveal_strlit("flac");
        reveal_strlit("m4a");
        reveal_strlit("m4b");
        reveal_strlit("m4p");
        reveal_strlit("m4r");
        reveal_strlit("mp4");
        reveal_strlit("mp1");
        reveal_strlit("mp2");
        reveal_strlit("mp3");
        reveal_strlit("ogg");
        reveal_strlit("opus");
        reveal_strlit("wav");
        reveal_strlit("wave");
        assert("wv"@[0] == 'w');
        assert("wv"@[1] == 'v');
        assert forall|i: int| 0 <= i < "wv"@.len() implies !crate::text::is_upper_ascii(#[trigger] "wv"@[i]) by {
            if i == 0 {} else if i == 1 {}
        }
        lemma_label_of_small("wv"@);
        assert("wv"@.len() != "aac"@.len());
        assert("wv"@.len() != "ac3"@.len());
        assert("wv"@.len() != "dts"@.len());
        assert("wv"@.len() != "aif"@.len());
        assert("wv"@.len() != "aiff"@.len());
        assert("wv"@.len() != "aifc"@.len());
        assert("wv"@.len() != "afc"@.len());
        assert("wv"@.len() != "alac"@.len());
        assert("wv"@.len() != "flac"@.len());
        assert("wv"@.len() != "m4a"@.len());
        assert("wv"@.len() != "m4b"@.len());
        assert("wv"@.len() != "m4p"@.len());
        assert("wv"@.len() != "m4r"@.len());
        assert("wv"@.len() != "mp4"@.len());
        assert("wv"@.len() != "mp1"@.len());
        assert("wv"@.len() != "mp2"@.len());
        assert("wv"@.len() != "mp3"@.len());
        assert("wv"@.len() != "ogg"@.len());
        assert("wv"@.len() != "opus"@.len());
        assert("wv"@.len() != "wav"@.len());
        assert("wv"@.len() != "wave"@.len());
        },
        _ => {},
    }
}

} // verus!
