//! Library roots (the folders the library indexes) and the requests to the
//! library service.
use vstd::prelude::*;

use crate::modes::eq_lit;
use crate::text::{chars_of, string_from_chars, trim, trim_str};

verus! {

/// A folder indexed by the library, with the name the user gave it.
#[derive(Debug, Clone, Default, PartialEq, Eq)]
pub struct LibraryRoot {
    pub path: String,
    pub name: String,
}

/// Extra tags of a track that search looks at, by tag name (each name
/// once, as in a map), with every value the file holds for it.
pub type SearchTags = Vec<(String, Vec<String>)>;

/// A track of the library index. Its duration, a floating-point number of
/// seconds, is held as the bits of its `f32`.
#[derive(Debug, Clone, Default)]
pub struct LibraryTrack {
    pub path: String,
    pub root_path: String,
    pub title: String,
    pub artist: String,
    pub album: String,
    pub cover_path: String,
    pub genre: String,
    pub year: Option<i32>,
    pub track_no: Option<u32>,
    pub duration_bits: Option<u32>,
    pub search_tags: SearchTags,
}

/// A track that matched a search, with its score in half points (see
/// `ranking`).
#[derive(Debug, Clone, Default)]
pub struct LibrarySearchTrack {
    pub path: String,
    pub root_path: String,
    pub title: String,
    pub artist: String,
    pub album: String,
    pub cover_path: String,
    pub genre: String,
    pub year: Option<i32>,
    pub track_no: Option<u32>,
    pub duration_bits: Option<u32>,
    pub score: u8,
}

/// How far a scan has come; the rates are held as `f32` bits.
#[derive(Debug, Clone, Default)]
pub struct LibraryScanProgress {
    pub current_root: Option<String>,
    pub roots_completed: usize,
    pub roots_total: usize,
    pub supported_files_discovered: usize,
    pub supported_files_processed: usize,
    pub files_per_second_bits: Option<u32>,
    pub eta_seconds_bits: Option<u32>,
}

/// Everything the library service reports: its roots, its tracks, and the
/// state of the scan.
#[derive(Debug, Clone, Default)]
pub struct LibrarySnapshot {
    pub roots: Vec<LibraryRoot>,
    pub tracks: Vec<LibraryTrack>,
    pub search_revision: u64,
    pub scan_in_progress: bool,
    pub scan_progress: Option<LibraryScanProgress>,
    pub last_error: Option<String>,
}

/// Requests to the library service.
#[derive(Debug, Clone)]
pub enum LibraryCommand {
    ScanRoot(String),
    AddRoot { path: String, name: String },
    RenameRoot { path: String, name: String },
    RemoveRoot(String),
    RescanRoot(String),
    RescanAll,
}

/// The components of a path: the texts between `/`, without empty ones
/// and without `.` (as `Path::components` reads them).
pub open spec fn components_from(p: Seq<char>, i: int, cur: Seq<char>, acc: Seq<Seq<char>>) -> Seq<Seq<char>>
    decreases p.len() - i,
{
    if i < 0 || i >= p.len() {
        keep_component(acc, cur)
    } else if p[i] == '/' {
        components_from(p, i + 1, Seq::empty(), keep_component(acc, cur))
    } else {
        components_from(p, i + 1, cur.push(p[i]), acc)
    }
}

pub open spec fn keep_component(acc: Seq<Seq<char>>, c: Seq<char>) -> Seq<Seq<char>> {
    if c.len() == 0 || c == seq!['.'] {
        acc
    } else {
        acc.push(c)
    }
}

pub open spec fn components(p: Seq<char>) -> Seq<Seq<char>> {
    components_from(p, 0, Seq::empty(), Seq::empty())
}

/// `Path::file_name`: the last component, unless there is none or it is `..`.
pub open spec fn file_name(p: Seq<char>) -> Option<Seq<char>> {
    let cs = components(p);
    if cs.len() == 0 || cs.last() == seq!['.', '.'] {
        None
    } else {
        Some(cs.last())
    }
}

fn is_dot(c: &Vec<char>) -> (r: bool)
    ensures
        r == (c@ == seq!['.']),
{
    if c.len() == 1 && c[0] == '.' {
        assert(c@ =~= seq!['.']);
        true
    } else {
        false
    }
}

pub fn file_name_of(path: &str) -> (r: Option<Vec<char>>)
    ensures
        match r {
            Some(v) => file_name(path@) == Some(v@),
            None => file_name(path@) is None,
        },
{
    let p = chars_of(path);
    let mut last: Option<Vec<char>> = None;
    let ghost mut acc: Seq<Seq<char>> = Seq::empty();
    let mut cur: Vec<char> = Vec::new();
    let mut i: usize = 0;
    assert(cur@ =~= Seq::<char>::empty());
    while i < p.len()
        invariant
            i <= p@.len(),
            p@ == path@,
            components_from(p@, i as int, cur@, acc) == components(path@),
            match last {
                Some(v) => acc.len() > 0 && acc.last() == v@,
                None => acc.len() == 0,
            },
        decreases p@.len() - i,
    {
        if p[i] == '/' {
            if cur.len() > 0 && !is_dot(&cur) {
                proof {
                    acc = acc.push(cur@);
                }
                let mut piece: Vec<char> = Vec::new();
                std::mem::swap(&mut piece, &mut cur);
                last = Some(piece);
            } else {
                cur = Vec::new();
            }
            assert(cur@ =~= Seq::<char>::empty());
        } else {
            cur.push(p[i]);
        }
        i += 1;
    }
    if cur.len() > 0 && !is_dot(&cur) {
        proof {
            acc = acc.push(cur@);
        }
        last = Some(cur);
    }
    match last {
        Some(v) => {
            if v.len() == 2 && v[0] == '.' && v[1] == '.' {
                assert(v@ =~= seq!['.', '.']);
                None
            } else {
                assert(v@ != seq!['.', '.']);
                Some(v)
            }
        },
        None => None,
    }
}

impl LibraryRoot {
    /// The name given to the root, or its path where the name is blank.
    pub open spec fn display_name_spec(self) -> Seq<char> {
        if trim(self.name@).len() > 0 {
            trim(self.name@)
        } else {
            self.path@
        }
    }

    pub fn display_name(&self) -> (r: String)
        ensures
            r@ == self.display_name_spec(),
    {
        let t = trim_str(self.name.as_str());
        if t.len() == 0 {
            string_from_chars(&chars_of(self.path.as_str()))
        } else {
            string_from_chars(&t)
        }
    }

    /// How search results name the root: the name given to it, else the
    /// folder's own name, else the whole path.
    pub open spec fn search_label_spec(self) -> Seq<char> {
        if trim(self.name@).len() > 0 {
            trim(self.name@)
        } else {
            match file_name(self.path@) {
                Some(f) => f,
                None => self.path@,
            }
        }
    }

    pub fn search_label(&self) -> (r: String)
        ensures
            r@ == self.search_label_spec(),
    {
        let t = trim_str(self.name.as_str());
        if t.len() > 0 {
            return string_from_chars(&t);
        }
        match file_name_of(self.path.as_str()) {
            Some(f) => string_from_chars(&f),
            None => string_from_chars(&chars_of(self.path.as_str())),
        }
    }
}

} // verus!
