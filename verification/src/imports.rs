//! Importing files into the queue: which commands start an import and which
//! make earlier imports stale, how a playlist's text is read into entries,
//! and the warning that tells the user what was skipped. Looking at the
//! disk (whether a path exists, what a folder holds) is left to the caller.
use vstd::prelude::*;

use crate::bridge::{BridgeCommand, BridgeLibraryCommand};
use crate::match_detail::join_with;
use crate::queue::BridgeQueueCommand;
use crate::library::{file_name, file_name_of};
use crate::text::{
    append_chars, ascii_lower_char, chars_of, decimal, lower_char, lower_seq, push_decimal, push_str,
    string_from_chars, trim, trim_chars,
};
use vstd::utf8::{decode_utf8, valid_utf8};

verus! {

/// What expanding the paths of an import gave: the tracks to queue, in
/// order, and how many entries were skipped for each reason.
#[derive(Debug, Clone)]
pub struct ImportExpandOutcome {
    pub tracks: Vec<String>,
    pub missing_count: usize,
    pub unsupported_count: usize,
    pub unreadable_count: usize,
    pub non_local_url_count: usize,
}

pub open spec fn skipped(o: ImportExpandOutcome) -> int {
    o.missing_count + o.unsupported_count + o.unreadable_count + o.non_local_url_count
}

pub open spec fn bumped(n: usize) -> usize {
    if n < usize::MAX {
        (n + 1) as usize
    } else {
        n
    }
}

impl ImportExpandOutcome {
    /// Nothing found, nothing skipped.
    pub fn new() -> (r: ImportExpandOutcome)
        ensures
            r.tracks@.len() == 0,
            r.missing_count == 0,
            r.unsupported_count == 0,
            r.unreadable_count == 0,
            r.non_local_url_count == 0,
    {
        ImportExpandOutcome {
            tracks: Vec::new(),
            missing_count: 0,
            unsupported_count: 0,
            unreadable_count: 0,
            non_local_url_count: 0,
        }
    }

    /// How many entries were skipped in all.
    pub fn skipped_count(&self) -> (r: usize)
        requires
            skipped(*self) <= usize::MAX,
        ensures
            r == skipped(*self),
    {
        self.missing_count + self.unsupported_count + self.unreadable_count + self.non_local_url_count
    }

    /// One more entry that does not exist (the count saturates).
    pub fn push_missing(&mut self)
        ensures
            *final(self) == (ImportExpandOutcome { missing_count: bumped(old(self).missing_count), ..*old(self) }),
    {
        self.missing_count = self.missing_count.saturating_add(1);
    }

    /// One more entry that is not a supported audio file (the count saturates).
    pub fn push_unsupported(&mut self)
        ensures
            *final(self) == (ImportExpandOutcome {
                unsupported_count: bumped(old(self).unsupported_count),
                ..*old(self)
            }),
    {
        self.unsupported_count = self.unsupported_count.saturating_add(1);
    }

    /// One more playlist that could not be read (the count saturates).
    pub fn push_unreadable(&mut self)
        ensures
            *final(self) == (ImportExpandOutcome { unreadable_count: bumped(old(self).unreadable_count), ..*old(self) }),
    {
        self.unreadable_count = self.unreadable_count.saturating_add(1);
    }

    /// One more entry that names something other than a local file (the
    /// count saturates).
    pub fn push_non_local_url(&mut self)
        ensures
            *final(self) == (ImportExpandOutcome {
                non_local_url_count: bumped(old(self).non_local_url_count),
                ..*old(self)
            }),
    {
        self.non_local_url_count = self.non_local_url_count.saturating_add(1);
    }
}

pub open spec fn count_part(n: usize, label: Seq<char>) -> Seq<Seq<char>> {
    if n > 0 {
        seq![decimal(n as nat) + label]
    } else {
        Seq::empty()
    }
}

/// The reasons for skipping, each with its count, where there are any.
pub open spec fn warning_parts(o: ImportExpandOutcome) -> Seq<Seq<char>> {
    count_part(o.missing_count, " missing"@) + count_part(o.unsupported_count, " unsupported"@) + count_part(
        o.unreadable_count,
        " unreadable"@,
    ) + count_part(o.non_local_url_count, " non-local URLs"@)
}

/// The warning after an import that skipped something: what was skipped,
/// and either that nothing was queued or how many tracks were.
pub open spec fn import_warning(action: Seq<char>, o: ImportExpandOutcome) -> Option<Seq<char>> {
    if skipped(o) == 0 {
        None
    } else {
        let joined = join_with(warning_parts(o), ", "@);
        if o.tracks@.len() == 0 {
            Some("Import "@ + action + " skipped all entries ("@ + joined + ")"@)
        } else {
            Some(
                "Import "@ + action + " queued "@ + decimal(o.tracks@.len()) + " track(s); skipped "@
                    + decimal(skipped(o) as nat) + " item(s) ("@ + joined + ")"@,
            )
        }
    }
}

fn push_count_part(parts: &mut Vec<Vec<char>>, n: usize, label: &str)
    ensures
        final(parts)@.map_values(|v: Vec<char>| v@) == old(parts)@.map_values(|v: Vec<char>| v@) + count_part(
            n,
            label@,
        ),
{
    let ghost before = parts@.map_values(|v: Vec<char>| v@);
    if n > 0 {
        let mut p: Vec<char> = Vec::new();
        push_decimal(&mut p, n as u64);
        push_str(&mut p, label);
        parts.push(p);
    }
    assert(parts@.map_values(|v: Vec<char>| v@) =~= before + count_part(n, label@));
}

fn join_parts(parts: &Vec<Vec<char>>, sep: &str) -> (out: Vec<char>)
    ensures
        out@ == join_with(parts@.map_values(|v: Vec<char>| v@), sep@),
{
    let ghost pv = parts@.map_values(|v: Vec<char>| v@);
    let mut out: Vec<char> = Vec::new();
    let mut i: usize = 0;
    while i < parts.len()
        invariant
            i <= parts@.len(),
            pv == parts@.map_values(|v: Vec<char>| v@),
            out@ == join_with(pv.take(i as int), sep@),
        decreases parts@.len() - i,
    {
        if i > 0 {
            push_str(&mut out, sep);
        }
        append_chars(&mut out, &parts[i]);
        proof {
            let s = pv.take(i + 1);
            assert(s.drop_last() =~= pv.take(i as int));
            assert(s.last() == pv[i as int]);
            if i == 0 {
                assert(s =~= seq![pv[0]]);
            }
        }
        assert(out@ =~= join_with(pv.take(i + 1), sep@));
        i += 1;
    }
    assert(pv.take(parts@.len() as int) =~= pv);
    out
}

/// The warning to show after an import (see `import_warning`), if any.
pub fn format_import_warning(action: &str, outcome: &ImportExpandOutcome) -> (r: Option<String>)
    requires
        skipped(*outcome) <= usize::MAX,
    ensures
        match r {
            Some(s) => import_warning(action@, *outcome) == Some(s@),
            None => import_warning(action@, *outcome) is None,
        },
{
    let skipped_n = outcome.skipped_count();
    if skipped_n == 0 {
        return None;
    }
    let mut parts: Vec<Vec<char>> = Vec::new();
    assert(parts@.map_values(|v: Vec<char>| v@) =~= Seq::<Seq<char>>::empty());
    push_count_part(&mut parts, outcome.missing_count, " missing");
    push_count_part(&mut parts, outcome.unsupported_count, " unsupported");
    push_count_part(&mut parts, outcome.unreadable_count, " unreadable");
    push_count_part(&mut parts, outcome.non_local_url_count, " non-local URLs");
    assert(parts@.map_values(|v: Vec<char>| v@) =~= warning_parts(*outcome));
    let joined = join_parts(&parts, ", ");
    let mut out: Vec<char> = Vec::new();
    push_str(&mut out, "Import ");
    push_str(&mut out, action);
    if outcome.tracks.len() == 0 {
        push_str(&mut out, " skipped all entries (");
        append_chars(&mut out, &joined);
        push_str(&mut out, ")");
    } else {
        push_str(&mut out, " queued ");
        push_decimal(&mut out, outcome.tracks.len() as u64);
        push_str(&mut out, " track(s); skipped ");
        push_decimal(&mut out, skipped_n as u64);
        push_str(&mut out, " item(s) (");
        append_chars(&mut out, &joined);
        push_str(&mut out, ")");
    }
    Some(string_from_chars(&out))
}

/// A command that throws the queue away (or stops the bridge), so that an
/// import still running for the old queue must not land in the new one.
pub open spec fn replaces_queue_spec(cmd: BridgeCommand) -> bool {
    match cmd {
        BridgeCommand::Shutdown => true,
        BridgeCommand::Queue(q) => q is Clear || q is Replace,
        BridgeCommand::Library(l) => l is ReplaceAlbumByKey || l is ReplaceArtistByKey || l is ReplaceRootByPath
            || l is ReplaceAllTracks,
        _ => false,
    }
}

pub fn replaces_queue(cmd: &BridgeCommand) -> (r: bool)
    ensures
        r == replaces_queue_spec(*cmd),
{
    match cmd {
        BridgeCommand::Shutdown => true,
        BridgeCommand::Queue(q) => match q {
            BridgeQueueCommand::Clear => true,
            BridgeQueueCommand::Replace { .. } => true,
            _ => false,
        },
        BridgeCommand::Library(l) => match l {
            BridgeLibraryCommand::ReplaceAlbumByKey { .. } => true,
            BridgeLibraryCommand::ReplaceArtistByKey { .. } => true,
            BridgeLibraryCommand::ReplaceRootByPath { .. } => true,
            BridgeLibraryCommand::ReplaceAllTracks => true,
            _ => false,
        },
        _ => false,
    }
}

/// Paths to expand and queue, with whether they replace the queue, tagged
/// with the generation of imports they belong to.
#[derive(Debug, Clone)]
pub struct ImportJob {
    pub paths: Vec<String>,
    pub replace: bool,
    pub generation: u64,
}

/// What the worker found for a job.
#[derive(Debug, Clone)]
pub struct ImportResult {
    pub outcome: ImportExpandOutcome,
    pub replace: bool,
    pub generation: u64,
}

/// The imports a command asks for: the paths it names, and whether they
/// replace the queue.
pub open spec fn import_request(cmd: BridgeCommand) -> Option<(Seq<String>, bool)> {
    match cmd {
        BridgeCommand::Library(BridgeLibraryCommand::AddTrack(p)) => Some((seq![p], false)),
        BridgeCommand::Library(BridgeLibraryCommand::PlayTrack(p)) => Some((seq![p], true)),
        BridgeCommand::Library(BridgeLibraryCommand::AppendAlbum(ps)) => Some((ps@, false)),
        BridgeCommand::Library(BridgeLibraryCommand::ReplaceWithAlbum(ps)) => Some((ps@, true)),
        _ => None,
    }
}

pub open spec fn next_generation(g: u64) -> u64 {
    if g < u64::MAX {
        (g + 1) as u64
    } else {
        0
    }
}

/// Which imports are current. Each command that replaces the queue starts
/// a new generation; a result counts only if it belongs to the current one.
#[derive(Debug, Clone, Copy, PartialEq, Eq, Structural)]
pub struct ImportPlanner {
    pub generation: u64,
}

impl ImportPlanner {
    /// No import asked for yet.
    pub fn new() -> (r: ImportPlanner)
        ensures
            r.generation == 0,
    {
        ImportPlanner { generation: 0 }
    }

    /// Whether an import's result still counts: it belongs to the current
    /// generation.
    pub fn is_current(&self, result: &ImportResult) -> (r: bool)
        ensures
            r == (result.generation == self.generation),
    {
        self.generation == result.generation
    }

    /// The import job a command asks for, if any, to be handed to the worker.
    /// An import that replaces the queue, or any other command that replaces
    /// it, starts a new generation (wrapping round); the job belongs to the
    /// generation current after that.
    pub fn request(&mut self, cmd: &BridgeCommand) -> (r: Option<ImportJob>)
        ensures
            final(self).generation == (if (match import_request(*cmd) {
                Some(req) => req.1,
                None => replaces_queue_spec(*cmd),
            }) {
                next_generation(old(self).generation)
            } else {
                old(self).generation
            }),
            match import_request(*cmd) {
                Some(req) => r is Some && r->0.paths@ == req.0 && r->0.replace == req.1 && r->0.generation
                    == final(self).generation,
                None => r is None,
            },
    {
        let (paths, replace): (Vec<String>, bool) = match cmd {
            BridgeCommand::Library(BridgeLibraryCommand::AddTrack(p)) => {
                let mut v: Vec<String> = Vec::new();
                v.push(p.clone());
                (v, false)
            },
            BridgeCommand::Library(BridgeLibraryCommand::PlayTrack(p)) => {
                let mut v: Vec<String> = Vec::new();
                v.push(p.clone());
                (v, true)
            },
            BridgeCommand::Library(BridgeLibraryCommand::AppendAlbum(ps)) => (ps.clone(), false),
            BridgeCommand::Library(BridgeLibraryCommand::ReplaceWithAlbum(ps)) => (ps.clone(), true),
            _ => {
                if replaces_queue(cmd) {
                    self.generation = self.generation.wrapping_add(1);
                }
                return None;
            },
        };
        if replace {
            self.generation = self.generation.wrapping_add(1);
        }
        Some(ImportJob { paths, replace, generation: self.generation })
    }
}

/// An import that replaces the queue, or a command that does, makes every
/// result of the generations before it stale (short of wrapping round the
/// whole range of generations).
pub proof fn law_replacement_makes_earlier_results_stale(before: ImportPlanner, cmd: BridgeCommand, result_generation: u64)
    requires
        result_generation <= before.generation < u64::MAX,
        match import_request(cmd) {
            Some(req) => req.1,
            None => replaces_queue_spec(cmd),
        },
    ensures
        result_generation != next_generation(before.generation),
{
}

/// `std::str::from_utf8`, its text copied into a `String`: the text the
/// bytes encode where they are valid UTF-8, else nothing.
#[verifier::external_body]
fn str_from_utf8(bytes: &[u8]) -> (r: Option<String>)
    ensures
        valid_utf8(bytes@) ==> r is Some && r->0@ == decode_utf8(bytes@),
        !valid_utf8(bytes@) ==> r is None,
{
    std::str::from_utf8(bytes).ok().map(|t| t.to_owned())
}

/// Each byte as the character of the same number (ISO-8859-1).
pub open spec fn latin1(bytes: Seq<u8>) -> Seq<char> {
    bytes.map_values(|b: u8| b as char)
}

/// The text of a playlist file: UTF-8 where the bytes are valid UTF-8,
/// else ISO-8859-1 (the older default for `.m3u` files).
pub open spec fn playlist_text(bytes: Seq<u8>) -> Seq<char> {
    if valid_utf8(bytes) {
        decode_utf8(bytes)
    } else {
        latin1(bytes)
    }
}

/// Reads a playlist file's bytes as text (see `playlist_text`).
pub fn decode_playlist_bytes(bytes: &[u8]) -> (r: String)
    ensures
        r@ == playlist_text(bytes@),
{
    match str_from_utf8(bytes) {
        Some(t) => t,
        None => {
            let mut out: Vec<char> = Vec::new();
            let mut i: usize = 0;
            while i < bytes.len()
                invariant
                    i <= bytes@.len(),
                    out@ == latin1(bytes@.take(i as int)),
                decreases bytes@.len() - i,
            {
                out.push(bytes[i] as char);
                assert(latin1(bytes@.take(i + 1)) =~= latin1(bytes@.take(i as int)).push(bytes@[i as int] as char));
                i += 1;
            }
            assert(bytes@.take(bytes@.len() as int) =~= bytes@);
            string_from_chars(&out)
        },
    }
}

/// The position of the last `.` among the first `n` characters.
pub open spec fn last_dot(f: Seq<char>, n: int) -> Option<int>
    decreases n,
{
    if n <= 0 {
        None
    } else if f[n - 1] == '.' {
        Some(n - 1)
    } else {
        last_dot(f, n - 1)
    }
}

/// `Path::extension`: what follows the last `.` of the file name, unless
/// that dot starts the name.
pub open spec fn extension(p: Seq<char>) -> Option<Seq<char>> {
    match file_name(p) {
        Some(f) => match last_dot(f, f.len() as int) {
            Some(i) => if i > 0 {
                Some(f.skip(i + 1))
            } else {
                None
            },
            None => None,
        },
        None => None,
    }
}

/// A playlist is a file whose extension is `m3u` or `m3u8`, in any case.
pub open spec fn is_playlist_path(p: Seq<char>) -> bool {
    match extension(p) {
        Some(e) => lower_seq(e) == "m3u"@ || lower_seq(e) == "m3u8"@,
        None => false,
    }
}

/// Whether a path names a playlist (see `is_playlist_path`).
pub fn is_playlist_file(path: &str) -> (r: bool)
    ensures
        r == is_playlist_path(path@),
{
    let f = match file_name_of(path) {
        Some(f) => f,
        None => return false,
    };
    let mut n: usize = f.len();
    while n > 0 && f[n - 1] != '.'
        invariant
            n <= f@.len(),
            last_dot(f@, f@.len() as int) == last_dot(f@, n as int),
        decreases n,
    {
        n -= 1;
    }
    if n <= 1 {
        return false;
    }
    let mut e: Vec<char> = Vec::new();
    let mut i: usize = n;
    while i < f.len()
        invariant
            n <= i <= f@.len(),
            e@ == lower_seq(f@.subrange(n as int, i as int)),
        decreases f@.len() - i,
    {
        e.push(ascii_lower_char(f[i]));
        assert(lower_seq(f@.subrange(n as int, i + 1)) =~= lower_seq(f@.subrange(n as int, i as int)).push(
            lower_char(f@[i as int]),
        ));
        i += 1;
    }
    assert(f@.subrange(n as int, f@.len() as int) =~= f@.skip(n as int));
    let m3u = chars_of("m3u");
    let m3u8 = chars_of("m3u8");
    let r = crate::text::chars_eq(&e, &m3u) || crate::text::chars_eq(&e, &m3u8);
    r
}

/// What `url::Url::parse` makes of a text, as plain values: nothing where
/// it is no absolute URL; else the URL's scheme, and the local path that
/// `Url::to_file_path` gives for it, as text (nothing where it gives none).
pub uninterp spec fn url_target(s: Seq<char>) -> Option<(Seq<char>, Option<Seq<char>>)>;

/// `url::Url::parse`, with the scheme and the file path of the URL read off
/// (`Url::scheme`, `Url::to_file_path` with the path as lossy text); the
/// result is named `url_target`, nothing more is claimed of it.
#[verifier::external_body]
fn parse_url_target(s: &str) -> (r: Option<(String, Option<String>)>)
    ensures
        url_target(s@) == match r {
            Some(t) => Some((
                t.0@,
                match t.1 {
                    Some(p) => Some(p@),
                    None => None,
                },
            )),
            None => None,
        },
{
    match url::Url::parse(s) {
        Ok(u) => Some((u.scheme().to_string(), u.to_file_path().ok().map(|p| p.to_string_lossy().into_owned()))),
        Err(_) => None,
    }
}

/// Leading byte-order marks dropped.
pub open spec fn strip_bom(s: Seq<char>) -> Seq<char>
    decreases s.len(),
{
    if s.len() > 0 && s[0] == '\u{feff}' {
        strip_bom(s.drop_first())
    } else {
        s
    }
}

/// `PathBuf::join` of a relative path: a `/` between the two unless the
/// base is empty or already ends with one.
pub open spec fn join_relative(base: Seq<char>, rel: Seq<char>) -> Seq<char> {
    if base.len() == 0 || base.last() == '/' {
        base + rel
    } else {
        base + seq!['/'] + rel
    }
}

/// What one line of a playlist names. Blank lines and `#` comments name
/// nothing (`None`). A URL names its local file if its scheme is `file`
/// and it has one, else something that is not local (`Some(None)`). Any
/// other line is a path, relative to the playlist's folder unless it
/// starts with `/` (`Some(Some(path))`); whether it exists is for the
/// caller to find out.
pub open spec fn playlist_entry(line: Seq<char>, base_dir: Seq<char>) -> Option<Option<Seq<char>>> {
    let t = trim(strip_bom(line));
    if t.len() == 0 || t[0] == '#' {
        None
    } else {
        match url_target(t) {
            Some(u) => if u.0 == "file"@ {
                Some(u.1)
            } else {
                Some(None)
            },
            None => Some(Some(if t[0] == '/' { t } else { join_relative(base_dir, t) })),
        }
    }
}

/// The lines finished among the first `n` characters, each with its line
/// break, and the line still open.
pub open spec fn line_state(t: Seq<char>, n: int) -> (Seq<Seq<char>>, Seq<char>)
    decreases n,
{
    if n <= 0 {
        (Seq::empty(), Seq::empty())
    } else {
        let prev = line_state(t, n - 1);
        let cur = prev.1.push(t[n - 1]);
        if t[n - 1] == '\n' {
            (prev.0.push(cur), Seq::empty())
        } else {
            (prev.0, cur)
        }
    }
}

/// The lines of a text as `BufRead::read_line` hands them out.
pub open spec fn text_lines(t: Seq<char>) -> Seq<Seq<char>> {
    let st = line_state(t, t.len() as int);
    if st.1.len() > 0 {
        st.0.push(st.1)
    } else {
        st.0
    }
}

/// One entry of a playlist, as `playlist_entry` reads it.
#[derive(Debug, Clone, PartialEq, Eq)]
pub enum PlaylistEntry {
    NonLocalUrl,
    Local(String),
}

pub open spec fn entry_view(e: PlaylistEntry) -> Option<Seq<char>> {
    match e {
        PlaylistEntry::NonLocalUrl => None,
        PlaylistEntry::Local(p) => Some(p@),
    }
}

/// The entries of the first `n` lines, blank lines and comments left out.
pub open spec fn entries_upto(lines: Seq<Seq<char>>, base_dir: Seq<char>, n: int) -> Seq<Option<Seq<char>>>
    decreases n,
{
    if n <= 0 {
        Seq::empty()
    } else {
        let prev = entries_upto(lines, base_dir, n - 1);
        match playlist_entry(lines[n - 1], base_dir) {
            Some(e) => prev.push(e),
            None => prev,
        }
    }
}

fn strip_bom_exec(line: &Vec<char>) -> (r: Vec<char>)
    ensures
        r@ == strip_bom(line@),
{
    let mut i: usize = 0;
    assert(line@.skip(0) =~= line@);
    while i < line.len() && line[i] == '\u{feff}'
        invariant
            i <= line@.len(),
            strip_bom(line@) == strip_bom(line@.skip(i as int)),
        decreases line@.len() - i,
    {
        assert(line@.skip(i as int).drop_first() =~= line@.skip(i + 1));
        i += 1;
    }
    let mut out: Vec<char> = Vec::new();
    let mut j: usize = i;
    while j < line.len()
        invariant
            i <= j <= line@.len(),
            out@ == line@.subrange(i as int, j as int),
        decreases line@.len() - j,
    {
        out.push(line[j]);
        assert(line@.subrange(i as int, j + 1) =~= line@.subrange(i as int, j as int).push(line@[j as int]));
        j += 1;
    }
    assert(line@.subrange(i as int, line@.len() as int) =~= line@.skip(i as int));
    out
}

fn playlist_entry_exec(line: &Vec<char>, base_dir: &str) -> (r: Option<PlaylistEntry>)
    ensures
        match r {
            Some(e) => playlist_entry(line@, base_dir@) == Some(entry_view(e)),
            None => playlist_entry(line@, base_dir@) is None,
        },
{
    let stripped = strip_bom_exec(line);
    let t = trim_chars(&stripped);
    if t.len() == 0 || t[0] == '#' {
        return None;
    }
    let ts = string_from_chars(&t);
    match parse_url_target(ts.as_str()) {
        Some(u) => {
            let file = chars_of("file");
            let scheme = chars_of(u.0.as_str());
            if crate::text::chars_eq(&scheme, &file) {
                match u.1 {
                    Some(p) => Some(PlaylistEntry::Local(p)),
                    None => Some(PlaylistEntry::NonLocalUrl),
                }
            } else {
                Some(PlaylistEntry::NonLocalUrl)
            }
        },
        None => {
            if t[0] == '/' {
                Some(PlaylistEntry::Local(ts))
            } else {
                let b = chars_of(base_dir);
                let mut out: Vec<char> = Vec::new();
                append_chars(&mut out, &b);
                if b.len() > 0 && b[b.len() - 1] != '/' {
                    out.push('/');
                }
                append_chars(&mut out, &t);
                assert(out@ =~= join_relative(base_dir@, t@));
                Some(PlaylistEntry::Local(string_from_chars(&out)))
            }
        },
    }
}

/// The entries of a playlist's text, in order (see `playlist_entry`;
/// `base_dir` is the playlist's folder).
pub fn playlist_entries(text: &str, base_dir: &str) -> (r: Vec<PlaylistEntry>)
    ensures
        r@.map_values(|e: PlaylistEntry| entry_view(e)) == entries_upto(
            text_lines(text@),
            base_dir@,
            text_lines(text@).len() as int,
        ),
{
    let t = chars_of(text);
    let mut lines: Vec<Vec<char>> = Vec::new();
    let mut cur: Vec<char> = Vec::new();
    let mut i: usize = 0;
    while i < t.len()
        invariant
            i <= t@.len(),
            t@ == text@,
            lines@.map_values(|v: Vec<char>| v@) == line_state(t@, i as int).0,
            cur@ == line_state(t@, i as int).1,
        decreases t@.len() - i,
    {
        let c = t[i];
        cur.push(c);
        if c == '\n' {
            let mut done: Vec<char> = Vec::new();
            std::mem::swap(&mut done, &mut cur);
            lines.push(done);
        }
        assert(lines@.map_values(|v: Vec<char>| v@) =~= line_state(t@, i + 1).0);
        i += 1;
    }
    if cur.len() > 0 {
        lines.push(cur);
    }
    let ghost lv = text_lines(text@);
    assert(lines@.map_values(|v: Vec<char>| v@) =~= lv);
    let mut out: Vec<PlaylistEntry> = Vec::new();
    let mut k: usize = 0;
    while k < lines.len()
        invariant
            k <= lines@.len(),
            lines@.map_values(|v: Vec<char>| v@) == lv,
            out@.map_values(|e: PlaylistEntry| entry_view(e)) == entries_upto(lv, base_dir@, k as int),
        decreases lines@.len() - k,
    {
        assert(lines@[k as int]@ == lv[k as int]);
        match playlist_entry_exec(&lines[k], base_dir) {
            Some(e) => {
                out.push(e);
            },
            None => {},
        }
        assert(out@.map_values(|e: PlaylistEntry| entry_view(e)) =~= entries_upto(lv, base_dir@, k + 1));
        k += 1;
    }
    out
}

} // verus!
