//! The search query language: whitespace-separated terms, double quotes to
//! keep a phrase together, and `field:value` terms for a known set of tag
//! fields. Anything else before a colon is an ordinary word.
use vstd::prelude::*;

use crate::modes::eq_lit;
use crate::search::{normalize_for_search, normalized};
use crate::text::{
    chars_eq, chars_of, contains_chars, contains_seq, flush, is_whitespace, is_ws, lower_seq,
    split_whitespace, string_from_chars, to_ascii_lower, trim, trim_chars, words,
};

verus! {

// ---------------------------------------------------------------------------
// Field names
// ---------------------------------------------------------------------------

/// The canonical field a `name:` prefix selects (ASCII case-insensitive),
/// or `None` where the name is not a field.
pub open spec fn field_key_spec(name: Seq<char>) -> Option<Seq<char>> {
    let n = lower_seq(name);
    if n == "title"@ {
        Some("title"@)
    } else if n == "artist"@ {
        Some("artist"@)
    } else if n == "album"@ {
        Some("album"@)
    } else if n == "albumartist"@ || n == "album_artist"@ || n == "album-artist"@ {
        Some("albumartist"@)
    } else if n == "genre"@ {
        Some("genre"@)
    } else if n == "year"@ {
        Some("year"@)
    } else if n == "date"@ {
        Some("date"@)
    } else if n == "composer"@ {
        Some("composer"@)
    } else if n == "conductor"@ {
        Some("conductor"@)
    } else if n == "performer"@ {
        Some("performer"@)
    } else if n == "label"@ || n == "publisher"@ {
        Some("label"@)
    } else if n == "comment"@ {
        Some("comment"@)
    } else if n == "lyrics"@ {
        Some("lyrics"@)
    } else if n == "path"@ || n == "filename"@ {
        Some("path"@)
    } else if n == "root"@ {
        Some("root"@)
    } else if n == "track"@ {
        Some("track"@)
    } else if n == "disc"@ {
        Some("disc"@)
    } else {
        None
    }
}

/// The fields a query can be restricted to, by their canonical names.
pub open spec fn search_field_names() -> Seq<Seq<char>> {
    seq![
        "title"@,
        "artist"@,
        "album"@,
        "albumartist"@,
        "genre"@,
        "year"@,
        "date"@,
        "composer"@,
        "conductor"@,
        "performer"@,
        "label"@,
        "comment"@,
        "lyrics"@,
        "path"@,
        "root"@,
        "track"@,
        "disc"@,
    ]
}


proof fn lemma_lower_idempotent(s: Seq<char>)
    ensures
        lower_seq(lower_seq(s)) == lower_seq(s),
{
    assert(lower_seq(lower_seq(s)) =~= lower_seq(s));
}


/// Field names are ASCII case-insensitive, every canonical field name
/// selects its own field in any capitalisation, and every field selected is
/// one of the canonical names.
pub proof fn law_field_names_select_their_fields(name: Seq<char>, i: int)
    ensures
        field_key_spec(name) == field_key_spec(lower_seq(name)),
        field_key_spec(name) matches Some(k) ==> search_field_names().contains(k),
        0 <= i < search_field_names().len() && lower_seq(name) == search_field_names()[i] ==> field_key_spec(name)
            == Some(search_field_names()[i]),
{
    lemma_lower_idempotent(name);
    reveal_strlit("title");
    reveal_strlit("artist");
    reveal_strlit("album");
    reveal_strlit("albumartist");
    reveal_strlit("genre");
    reveal_strlit("year");
    reveal_strlit("date");
    reveal_strlit("composer");
    reveal_strlit("conductor");
    reveal_strlit("performer");
    reveal_strlit("label");
    reveal_strlit("comment");
    reveal_strlit("lyrics");
    reveal_strlit("path");
    reveal_strlit("root");
    reveal_strlit("track");
    reveal_strlit("disc");
    reveal_strlit("album_artist");
    reveal_strlit("album-artist");
    reveal_strlit("publisher");
    reveal_strlit("filename");
    let ns = search_field_names();
    if field_key_spec(name) is Some {
        let k = field_key_spec(name)->0;
        assert(ns[0] == "title"@);
        assert(ns[1] == "artist"@);
        assert(ns[2] == "album"@);
        assert(ns[3] == "albumartist"@);
        assert(ns[4] == "genre"@);
        assert(ns[5] == "year"@);
        assert(ns[6] == "date"@);
        assert(ns[7] == "composer"@);
        assert(ns[8] == "conductor"@);
        assert(ns[9] == "performer"@);
        assert(ns[10] == "label"@);
        assert(ns[11] == "comment"@);
        assert(ns[12] == "lyrics"@);
        assert(ns[13] == "path"@);
        assert(ns[14] == "root"@);
        assert(ns[15] == "track"@);
        assert(ns[16] == "disc"@);
    }
    if 0 <= i < ns.len() && lower_seq(name) == ns[i] {
        if i == 0 {
            assert(ns[0] == "title"@);
            assert("title"@.len() != "artist"@.len());
            assert("title"@[0] != "album"@[0]);
            assert("title"@.len() != "albumartist"@.len());
            assert("title"@.len() != "album_artist"@.len());
            assert("title"@.len() != "album-artist"@.len());
            assert("title"@[0] != "genre"@[0]);
            assert("title"@.len() != "year"@.len());
            assert("title"@.len() != "date"@.len());
            assert("title"@.len() != "composer"@.len());
            assert("title"@.len() != "conductor"@.len());
            assert("title"@.len() != "performer"@.len());
            assert("title"@[0] != "label"@[0]);
            assert("title"@.len() != "publisher"@.len());
            assert("title"@.len() != "comment"@.len());
            assert("title"@.len() != "lyrics"@.len());
            assert("title"@.len() != "path"@.len());
            assert("title"@.len() != "filename"@.len());
            assert("title"@.len() != "root"@.len());
            assert("title"@[1] != "track"@[1]);
            assert("title"@.len() != "disc"@.len());
        } else if i == 1 {
            assert(ns[1] == "artist"@);
            assert("artist"@.len() != "title"@.len());
            assert("artist"@.len() != "album"@.len());
            assert("artist"@.len() != "albumartist"@.len());
            assert("artist"@.len() != "album_artist"@.len());
            assert("artist"@.len() != "album-artist"@.len());
            assert("artist"@.len() != "genre"@.len());
            assert("artist"@.len() != "year"@.len());
            assert("artist"@.len() != "date"@.len());
            assert("artist"@.len() != "composer"@.len());
            assert("artist"@.len() != "conductor"@.len());
            assert("artist"@.len() != "performer"@.len());
            assert("artist"@.len() != "label"@.len());
            assert("artist"@.len() != "publisher"@.len());
            assert("artist"@.len() != "comment"@.len());
            assert("artist"@[0] != "lyrics"@[0]);
            assert("artist"@.len() != "path"@.len());
            assert("artist"@.len() != "filename"@.len());
            assert("artist"@.len() != "root"@.len());
            assert("artist"@.len() != "track"@.len());
            assert("artist"@.len() != "disc"@.len());
        } else if i == 2 {
            assert(ns[2] == "album"@);
            assert("album"@[0] != "title"@[0]);
            assert("album"@.len() != "artist"@.len());
            assert("album"@.len() != "albumartist"@.len());
            assert("album"@.len() != "album_artist"@.len());
            assert("album"@.len() != "album-artist"@.len());
            assert("album"@[0] != "genre"@[0]);
            assert("album"@.len() != "year"@.len());
            assert("album"@.len() != "date"@.len());
            assert("album"@.len() != "composer"@.len());
            assert("album"@.len() != "conductor"@.len());
            assert("album"@.len() != "performer"@.len());
            assert("album"@[0] != "label"@[0]);
            assert("album"@.len() != "publisher"@.len());
            assert("album"@.len() != "comment"@.len());
            assert("album"@.len() != "lyrics"@.len());
            assert("album"@.len() != "path"@.len());
            assert("album"@.len() != "filename"@.len());
            assert("album"@.len() != "root"@.len());
            assert("album"@[0] != "track"@[0]);
            assert("album"@.len() != "disc"@.len());
        } else if i == 3 {
            assert(ns[3] == "albumartist"@);
            assert("albumartist"@.len() != "title"@.len());
            assert("albumartist"@.len() != "artist"@.len());
            assert("albumartist"@.len() != "album"@.len());
            assert("albumartist"@.len() != "album_artist"@.len());
            assert("albumartist"@.len() != "album-artist"@.len());
            assert("albumartist"@.len() != "genre"@.len());
            assert("albumartist"@.len() != "year"@.len());
            assert("albumartist"@.len() != "date"@.len());
            assert("albumartist"@.len() != "composer"@.len());
            assert("albumartist"@.len() != "conductor"@.len());
            assert("albumartist"@.len() != "performer"@.len());
            assert("albumartist"@.len() != "label"@.len());
            assert("albumartist"@.len() != "publisher"@.len());
            assert("albumartist"@.len() != "comment"@.len());
            assert("albumartist"@.len() != "lyrics"@.len());
            assert("albumartist"@.len() != "path"@.len());
            assert("albumartist"@.len() != "filename"@.len());
            assert("albumartist"@.len() != "root"@.len());
            assert("albumartist"@.len() != "track"@.len());
            assert("albumartist"@.len() != "disc"@.len());
        } else if i == 4 {
            assert(ns[4] == "genre"@);
            assert("genre"@[0] != "title"@[0]);
            assert("genre"@.len() != "artist"@.len());
            assert("genre"@[0] != "album"@[0]);
            assert("genre"@.len() != "albumartist"@.len());
            assert("genre"@.len() != "album_artist"@.len());
            assert("genre"@.len() != "album-artist"@.len());
            assert("genre"@.len() != "year"@.len());
            assert("genre"@.len() != "date"@.len());
            assert("genre"@.len() != "composer"@.len());
            assert("genre"@.len() != "conductor"@.len());
            assert("genre"@.len() != "performer"@.len());
            assert("genre"@[0] != "label"@[0]);
            assert("genre"@.len() != "publisher"@.len());
            assert("genre"@.len() != "comment"@.len());
            assert("genre"@.len() != "lyrics"@.len());
            assert("genre"@.len() != "path"@.len());
            assert("genre"@.len() != "filename"@.len());
            assert("genre"@.len() != "root"@.len());
            assert("genre"@[0] != "track"@[0]);
            assert("genre"@.len() != "disc"@.len());
        } else if i == 5 {
            assert(ns[5] == "year"@);
            assert("year"@.len() != "title"@.len());
            assert("year"@.len() != "artist"@.len());
            assert("year"@.len() != "album"@.len());
            assert("year"@.len() != "albumartist"@.len());
            assert("year"@.len() != "album_artist"@.len());
            assert("year"@.len() != "album-artist"@.len());
            assert("year"@.len() != "genre"@.len());
            assert("year"@[0] != "date"@[0]);
            assert("year"@.len() != "composer"@.len());
            assert("year"@.len() != "conductor"@.len());
            assert("year"@.len() != "performer"@.len());
            assert("year"@.len() != "label"@.len());
            assert("year"@.len() != "publisher"@.len());
            assert("year"@.len() != "comment"@.len());
            assert("year"@.len() != "lyrics"@.len());
            assert("year"@[0] != "path"@[0]);
            assert("year"@.len() != "filename"@.len());
            assert("year"@[0] != "root"@[0]);
            assert("year"@.len() != "track"@.len());
            assert("year"@[0] != "disc"@[0]);
        } else if i == 6 {
            assert(ns[6] == "date"@);
            assert("date"@.len() != "title"@.len());
            assert("date"@.len() != "artist"@.len());
            assert("date"@.len() != "album"@.len());
            assert("date"@.len() != "albumartist"@.len());
            assert("date"@.len() != "album_artist"@.len());
            assert("date"@.len() != "album-artist"@.len());
            assert("date"@.len() != "genre"@.len());
            assert("date"@[0] != "year"@[0]);
            assert("date"@.len() != "composer"@.len());
            assert("date"@.len() != "conductor"@.len());
            assert("date"@.len() != "performer"@.len());
            assert("date"@.len() != "label"@.len());
            assert("date"@.len() != "publisher"@.len());
            assert("date"@.len() != "comment"@.len());
            assert("date"@.len() != "lyrics"@.len());
            assert("date"@[0] != "path"@[0]);
            assert("date"@.len() != "filename"@.len());
            assert("date"@[0] != "root"@[0]);
            assert("date"@.len() != "track"@.len());
            assert("date"@[1] != "disc"@[1]);
        } else if i == 7 {
            assert(ns[7] == "composer"@);
            assert("composer"@.len() != "title"@.len());
            assert("composer"@.len() != "artist"@.len());
            assert("composer"@.len() != "album"@.len());
            assert("composer"@.len() != "albumartist"@.len());
            assert("composer"@.len() != "album_artist"@.len());
            assert("composer"@.len() != "album-artist"@.len());
            assert("composer"@.len() != "genre"@.len());
            assert("composer"@.len() != "year"@.len());
            assert("composer"@.len() != "date"@.len());
            assert("composer"@.len() != "conductor"@.len());
            assert("composer"@.len() != "performer"@.len());
            assert("composer"@.len() != "label"@.len());
            assert("composer"@.len() != "publisher"@.len());
            assert("composer"@.len() != "comment"@.len());
            assert("composer"@.len() != "lyrics"@.len());
            assert("composer"@.len() != "path"@.len());
            assert("composer"@[0] != "filename"@[0]);
            assert("composer"@.len() != "root"@.len());
            assert("composer"@.len() != "track"@.len());
            assert("composer"@.len() != "disc"@.len());
        } else if i == 8 {
            assert(ns[8] == "conductor"@);
            assert("conductor"@.len() != "title"@.len());
            assert("conductor"@.len() != "artist"@.len());
            assert("conductor"@.len() != "album"@.len());
            assert("conductor"@.len() != "albumartist"@.len());
            assert("conductor"@.len() != "album_artist"@.len());
            assert("conductor"@.len() != "album-artist"@.len());
            assert("conductor"@.len() != "genre"@.len());
            assert("conductor"@.len() != "year"@.len());
            assert("conductor"@.len() != "date"@.len());
            assert("conductor"@.len() != "composer"@.len());
            assert("conductor"@[0] != "performer"@[0]);
            assert("conductor"@.len() != "label"@.len());
            assert("conductor"@[0] != "publisher"@[0]);
            assert("conductor"@.len() != "comment"@.len());
            assert("conductor"@.len() != "lyrics"@.len());
            assert("conductor"@.len() != "path"@.len());
            assert("conductor"@.len() != "filename"@.len());
            assert("conductor"@.len() != "root"@.len());
            assert("conductor"@.len() != "track"@.len());
            assert("conductor"@.len() != "disc"@.len());
        } else if i == 9 {
            assert(ns[9] == "performer"@);
            assert("performer"@.len() != "title"@.len());
            assert("performer"@.len() != "artist"@.len());
            assert("performer"@.len() != "album"@.len());
            assert("performer"@.len() != "albumartist"@.len());
            assert("performer"@.len() != "album_artist"@.len());
            assert("performer"@.len() != "album-artist"@.len());
            assert("performer"@.len() != "genre"@.len());
            assert("performer"@.len() != "year"@.len());
            assert("performer"@.len() != "date"@.len());
            assert("performer"@.len() != "composer"@.len());
            assert("performer"@[0] != "conductor"@[0]);
            assert("performer"@.len() != "label"@.len());
            assert("performer"@[1] != "publisher"@[1]);
            assert("performer"@.len() != "comment"@.len());
            assert("performer"@.len() != "lyrics"@.len());
            assert("performer"@.len() != "path"@.len());
            assert("performer"@.len() != "filename"@.len());
            assert("performer"@.len() != "root"@.len());
            assert("performer"@.len() != "track"@.len());
            assert("performer"@.len() != "disc"@.len());
        } else if i == 10 {
            assert(ns[10] == "label"@);
            assert("label"@[0] != "title"@[0]);
            assert("label"@.len() != "artist"@.len());
            assert("label"@[0] != "album"@[0]);
            assert("label"@.len() != "albumartist"@.len());
            assert("label"@.len() != "album_artist"@.len());
            assert("label"@.len() != "album-artist"@.len());
            assert("label"@[0] != "genre"@[0]);
            assert("label"@.len() != "year"@.len());
            assert("label"@.len() != "date"@.len());
            assert("label"@.len() != "composer"@.len());
            assert("label"@.len() != "conductor"@.len());
            assert("label"@.len() != "performer"@.len());
            assert("label"@.len() != "publisher"@.len());
            assert("label"@.len() != "comment"@.len());
            assert("label"@.len() != "lyrics"@.len());
            assert("label"@.len() != "path"@.len());
            assert("label"@.len() != "filename"@.len());
            assert("label"@.len() != "root"@.len());
            assert("label"@[0] != "track"@[0]);
            assert("label"@.len() != "disc"@.len());
        } else if i == 11 {
            assert(ns[11] == "comment"@);
            assert("comment"@.len() != "title"@.len());
            assert("comment"@.len() != "artist"@.len());
            assert("comment"@.len() != "album"@.len());
            assert("comment"@.len() != "albumartist"@.len());
            assert("comment"@.len() != "album_artist"@.len());
            assert("comment"@.len() != "album-artist"@.len());
            assert("comment"@.len() != "genre"@.len());
            assert("comment"@.len() != "year"@.len());
            assert("comment"@.len() != "date"@.len());
            assert("comment"@.len() != "composer"@.len());
            assert("comment"@.len() != "conductor"@.len());
            assert("comment"@.len() != "performer"@.len());
            assert("comment"@.len() != "label"@.len());
            assert("comment"@.len() != "publisher"@.len());
            assert("comment"@.len() != "lyrics"@.len());
            assert("comment"@.len() != "path"@.len());
            assert("comment"@.len() != "filename"@.len());
            assert("comment"@.len() != "root"@.len());
            assert("comment"@.len() != "track"@.len());
            assert("comment"@.len() != "disc"@.len());
        } else if i == 12 {
            assert(ns[12] == "lyrics"@);
            assert("lyrics"@.len() != "title"@.len());
            assert("lyrics"@[0] != "artist"@[0]);
            assert("lyrics"@.len() != "album"@.len());
            assert("lyrics"@.len() != "albumartist"@.len());
            assert("lyrics"@.len() != "album_artist"@.len());
            assert("lyrics"@.len() != "album-artist"@.len());
            assert("lyrics"@.len() != "genre"@.len());
            assert("lyrics"@.len() != "year"@.len());
            assert("lyrics"@.len() != "date"@.len());
            assert("lyrics"@.len() != "composer"@.len());
            assert("lyrics"@.len() != "conductor"@.len());
            assert("lyrics"@.len() != "performer"@.len());
            assert("lyrics"@.len() != "label"@.len());
            assert("lyrics"@.len() != "publisher"@.len());
            assert("lyrics"@.len() != "comment"@.len());
            assert("lyrics"@.len() != "path"@.len());
            assert("lyrics"@.len() != "filename"@.len());
            assert("lyrics"@.len() != "root"@.len());
            assert("lyrics"@.len() != "track"@.len());
            assert("lyrics"@.len() != "disc"@.len());
        } else if i == 13 {
            assert(ns[13] == "path"@);
            assert("path"@.len() != "title"@.len());
            assert("path"@.len() != "artist"@.len());
            assert("path"@.len() != "album"@.len());
            assert("path"@.len() != "albumartist"@.len());
            assert("path"@.len() != "album_artist"@.len());
            assert("path"@.len() != "album-artist"@.len());
            assert("path"@.len() != "genre"@.len());
            assert("path"@[0] != "year"@[0]);
            assert("path"@[0] != "date"@[0]);
            assert("path"@.len() != "composer"@.len());
            assert("path"@.len() != "conductor"@.len());
            assert("path"@.len() != "performer"@.len());
            assert("path"@.len() != "label"@.len());
            assert("path"@.len() != "publisher"@.len());
            assert("path"@.len() != "comment"@.len());
            assert("path"@.len() != "lyrics"@.len());
            assert("path"@.len() != "filename"@.len());
            assert("path"@[0] != "root"@[0]);
            assert("path"@.len() != "track"@.len());
            assert("path"@[0] != "disc"@[0]);
        } else if i == 14 {
            assert(ns[14] == "root"@);
            assert("root"@.len() != "title"@.len());
            assert("root"@.len() != "artist"@.len());
            assert("root"@.len() != "album"@.len());
            assert("root"@.len() != "albumartist"@.len());
            assert("root"@.len() != "album_artist"@.len());
            assert("root"@.len() != "album-artist"@.len());
            assert("root"@.len() != "genre"@.len());
            assert("root"@[0] != "year"@[0]);
            assert("root"@[0] != "date"@[0]);
            assert("root"@.len() != "composer"@.len());
            assert("root"@.len() != "conductor"@.len());
            assert("root"@.len() != "performer"@.len());
            assert("root"@.len() != "label"@.len());
            assert("root"@.len() != "publisher"@.len());
            assert("root"@.len() != "comment"@.len());
            assert("root"@.len() != "lyrics"@.len());
            assert("root"@[0] != "path"@[0]);
            assert("root"@.len() != "filename"@.len());
            assert("root"@.len() != "track"@.len());
            assert("root"@[0] != "disc"@[0]);
        } else if i == 15 {
            assert(ns[15] == "track"@);
            assert("track"@[1] != "title"@[1]);
            assert("track"@.len() != "artist"@.len());
            assert("track"@[0] != "album"@[0]);
            assert("track"@.len() != "albumartist"@.len());
            assert("track"@.len() != "album_artist"@.len());
            assert("track"@.len() != "album-artist"@.len());
            assert("track"@[0] != "genre"@[0]);
            assert("track"@.len() != "year"@.len());
            assert("track"@.len() != "date"@.len());
            assert("track"@.len() != "composer"@.len());
            assert("track"@.len() != "conductor"@.len());
            assert("track"@.len() != "performer"@.len());
            assert("track"@[0] != "label"@[0]);
            assert("track"@.len() != "publisher"@.len());
            assert("track"@.len() != "comment"@.len());
            assert("track"@.len() != "lyrics"@.len());
            assert("track"@.len() != "path"@.len());
            assert("track"@.len() != "filename"@.len());
            assert("track"@.len() != "root"@.len());
            assert("track"@.len() != "disc"@.len());
        } else if i == 16 {
            assert(ns[16] == "disc"@);
            assert("disc"@.len() != "title"@.len());
            assert("disc"@.len() != "artist"@.len());
            assert("disc"@.len() != "album"@.len());
            assert("disc"@.len() != "albumartist"@.len());
            assert("disc"@.len() != "album_artist"@.len());
            assert("disc"@.len() != "album-artist"@.len());
            assert("disc"@.len() != "genre"@.len());
            assert("disc"@[0] != "year"@[0]);
            assert("disc"@[1] != "date"@[1]);
            assert("disc"@.len() != "composer"@.len());
            assert("disc"@.len() != "conductor"@.len());
            assert("disc"@.len() != "performer"@.len());
            assert("disc"@.len() != "label"@.len());
            assert("disc"@.len() != "publisher"@.len());
            assert("disc"@.len() != "comment"@.len());
            assert("disc"@.len() != "lyrics"@.len());
            assert("disc"@[0] != "path"@[0]);
            assert("disc"@.len() != "filename"@.len());
            assert("disc"@[0] != "root"@[0]);
            assert("disc"@.len() != "track"@.len());
        }
    }
}

pub open spec fn opt_view(o: Option<&str>) -> Option<Seq<char>> {
    match o {
        Some(s) => Some(s@),
        None => None,
    }
}

pub fn field_key(name: &str) -> (r: Option<&'static str>)
    ensures
        opt_view(r) == field_key_spec(name@),
{
    let n = to_ascii_lower(&chars_of(name));
    if eq_lit(&n, "title") {
        Some("title")
    } else if eq_lit(&n, "artist") {
        Some("artist")
    } else if eq_lit(&n, "album") {
        Some("album")
    } else if eq_lit(&n, "albumartist") || eq_lit(&n, "album_artist") || eq_lit(
        &n,
        "album-artist",
    ) {
        Some("albumartist")
    } else if eq_lit(&n, "genre") {
        Some("genre")
    } else if eq_lit(&n, "year") {
        Some("year")
    } else if eq_lit(&n, "date") {
        Some("date")
    } else if eq_lit(&n, "composer") {
        Some("composer")
    } else if eq_lit(&n, "conductor") {
        Some("conductor")
    } else if eq_lit(&n, "performer") {
        Some("performer")
    } else if eq_lit(&n, "label") || eq_lit(&n, "publisher") {
        Some("label")
    } else if eq_lit(&n, "comment") {
        Some("comment")
    } else if eq_lit(&n, "lyrics") {
        Some("lyrics")
    } else if eq_lit(&n, "path") || eq_lit(&n, "filename") {
        Some("path")
    } else if eq_lit(&n, "root") {
        Some("root")
    } else if eq_lit(&n, "track") {
        Some("track")
    } else if eq_lit(&n, "disc") {
        Some("disc")
    } else {
        None
    }
}

// ---------------------------------------------------------------------------
// Tokens
// ---------------------------------------------------------------------------

/// Left-to-right scan of a raw query: a double quote toggles quoting and is
/// dropped, whitespace outside quotes ends a token, anything else extends it.
pub open spec fn tokens_from(
    s: Seq<char>,
    i: int,
    cur: Seq<char>,
    quoted: bool,
    acc: Seq<Seq<char>>,
) -> Seq<Seq<char>>
    decreases s.len() - i,
{
    if i >= s.len() || i < 0 {
        flush(acc, cur)
    } else if s[i] == '"' {
        tokens_from(s, i + 1, cur, !quoted, acc)
    } else if is_ws(s[i]) && !quoted {
        tokens_from(s, i + 1, Seq::empty(), quoted, flush(acc, cur))
    } else {
        tokens_from(s, i + 1, cur.push(s[i]), quoted, acc)
    }
}

/// The non-empty tokens of a raw query.
pub open spec fn query_tokens(s: Seq<char>) -> Seq<Seq<char>> {
    tokens_from(s, 0, Seq::empty(), false, Seq::empty())
}

fn tokenize(raw: &str) -> (out: Vec<Vec<char>>)
    ensures
        out@.map_values(|t: Vec<char>| t@) == query_tokens(raw@),
{
    let s = chars_of(raw);
    let mut out: Vec<Vec<char>> = Vec::new();
    let mut cur: Vec<char> = Vec::new();
    let mut quoted = false;
    let mut i: usize = 0;
    assert(out@.map_values(|t: Vec<char>| t@) =~= Seq::<Seq<char>>::empty());
    assert(cur@ =~= Seq::<char>::empty());
    while i < s.len()
        invariant
            i <= s@.len(),
            s@ == raw@,
            tokens_from(s@, i as int, cur@, quoted, out@.map_values(|t: Vec<char>| t@))
                == query_tokens(raw@),
        decreases s@.len() - i,
    {
        let c = s[i];
        if c == '"' {
            quoted = !quoted;
        } else if is_whitespace(c) && !quoted {
            let ghost acc = out@.map_values(|t: Vec<char>| t@);
            let ghost cv = cur@;
            if cur.len() > 0 {
                let mut tok: Vec<char> = Vec::new();
                std::mem::swap(&mut tok, &mut cur);
                out.push(tok);
            }
            assert(out@.map_values(|t: Vec<char>| t@) =~= flush(acc, cv));
            assert(cur@ =~= Seq::<char>::empty());
        } else {
            cur.push(c);
        }
        i += 1;
    }
    let ghost acc = out@.map_values(|t: Vec<char>| t@);
    let ghost cv = cur@;
    if cur.len() > 0 {
        out.push(cur);
    }
    assert(out@.map_values(|t: Vec<char>| t@) =~= flush(acc, cv));
    out
}

// ---------------------------------------------------------------------------
// Terms
// ---------------------------------------------------------------------------

/// One query term: the field it is restricted to, if any, and the
/// normalized text it looks for.
#[derive(Debug)]
pub struct SearchTerm {
    pub field: Option<&'static str>,
    pub value: String,
}

/// A parsed query: every term must match.
#[derive(Debug)]
pub struct SearchQuery {
    pub terms: Vec<SearchTerm>,
}

impl SearchTerm {
    pub open spec fn key(self) -> Option<Seq<char>> {
        opt_view(self.field)
    }
}

/// Index of the first `:` in `t` at or after `i`, or `t.len()` if none.
pub open spec fn colon_from(t: Seq<char>, i: int) -> int
    decreases t.len() - i,
{
    if i < 0 || i >= t.len() {
        t.len() as int
    } else if t[i] == ':' {
        i
    } else {
        colon_from(t, i + 1)
    }
}

/// What a token means: `name:value` with a known field name restricts the
/// (trimmed, normalized) value to that field; any other token, colon and
/// all, is a plain (trimmed, normalized) word.
pub open spec fn parse_token(tok: Seq<char>) -> (Option<Seq<char>>, Seq<char>) {
    let k = colon_from(tok, 0);
    if k < tok.len() && field_key_spec(tok.take(k)) is Some {
        (field_key_spec(tok.take(k)), normalized(trim(tok.skip(k + 1))))
    } else {
        (None, normalized(trim(tok)))
    }
}

pub open spec fn term_view(t: SearchTerm) -> (Option<Seq<char>>, Seq<char>) {
    (t.key(), t.value@)
}

fn first_colon(t: &Vec<char>) -> (k: usize)
    ensures
        k == colon_from(t@, 0),
{
    let mut i: usize = 0;
    while i < t.len()
        invariant
            i <= t@.len(),
            colon_from(t@, i as int) == colon_from(t@, 0),
        decreases t@.len() - i,
    {
        if t[i] == ':' {
            return i;
        }
        i += 1;
    }
    i
}

fn parse_term(tok: &Vec<char>) -> (term: SearchTerm)
    ensures
        term_view(term) == parse_token(tok@),
{
    let k = first_colon(tok);
    if k < tok.len() {
        let mut name: Vec<char> = Vec::new();
        let mut value: Vec<char> = Vec::new();
        let mut i: usize = 0;
        while i < tok.len()
            invariant
                k < tok@.len(),
                i <= tok@.len(),
                name@ == tok@.take(if i < k { i as int } else { k as int }),
                value@ == (if i <= k + 1 { Seq::<char>::empty() } else { tok@.subrange(k + 1, i as int) }),
            decreases tok@.len() - i,
        {
            if i < k {
                name.push(tok[i]);
                assert(name@ =~= tok@.take(i + 1));
            } else if i > k {
                value.push(tok[i]);
                assert(value@ =~= tok@.subrange(k + 1, i + 1));
            }
            i += 1;
        }
        assert(value@ =~= tok@.skip(k + 1));
        let name_str = string_from_chars(&name);
        if let Some(field) = field_key(name_str.as_str()) {
            let v = trim_chars(&value);
            let vs = string_from_chars(&v);
            return SearchTerm { field: Some(field), value: normalize_for_search(vs.as_str()) };
        }
    }
    let t = trim_chars(tok);
    let ts = string_from_chars(&t);
    SearchTerm { field: None, value: normalize_for_search(ts.as_str()) }
}

/// Whether `words` holds `w`.
pub open spec fn has_word(ws: Seq<Seq<char>>, w: Seq<char>) -> bool {
    exists|i: int| 0 <= i < ws.len() && #[trigger] ws[i] == w
}

/// Whether a term with field restriction `key` and text `value` matches one
/// field of a track: a restricted term only looks at its own field, an empty
/// term matches nothing, and restricted year, track and disc terms must
/// equal a whole word of the field; otherwise the text is searched for.
pub open spec fn term_matches_spec(
    key: Option<Seq<char>>,
    value: Seq<char>,
    field: Seq<char>,
    text: Seq<char>,
) -> bool {
    if (key is Some && key.unwrap() != field) || value.len() == 0 {
        false
    } else if key is Some && (field == "year"@ || field == "track"@ || field == "disc"@) {
        has_word(words(text), value)
    } else {
        contains_seq(text, value)
    }
}

fn has_word_exec(ws: &Vec<Vec<char>>, w: &Vec<char>) -> (r: bool)
    ensures
        r == has_word(ws@.map_values(|x: Vec<char>| x@), w@),
{
    let ghost m = ws@.map_values(|x: Vec<char>| x@);
    let mut i: usize = 0;
    while i < ws.len()
        invariant
            i <= ws@.len(),
            m == ws@.map_values(|x: Vec<char>| x@),
            forall|j: int| 0 <= j < i ==> m[j] != w@,
        decreases ws@.len() - i,
    {
        if chars_eq(&ws[i], w) {
            assert(m[i as int] == w@);
            return true;
        }
        i += 1;
    }
    false
}

impl SearchTerm {
    pub fn matches(&self, field: &str, value: &str) -> (r: bool)
        ensures
            r == term_matches_spec(self.key(), self.value@, field@, value@),
    {
        let term_value = chars_of(self.value.as_str());
        let field_chars = chars_of(field);
        match self.field {
            Some(key) => {
                if !eq_lit(&field_chars, key) {
                    return false;
                }
            },
            None => {},
        }
        if term_value.len() == 0 {
            return false;
        }
        let text = chars_of(value);
        if self.field.is_some() && (eq_lit(&field_chars, "year") || eq_lit(&field_chars, "track")
            || eq_lit(&field_chars, "disc")) {
            let ws = split_whitespace(&text);
            has_word_exec(&ws, &term_value)
        } else {
            contains_chars(&text, &term_value)
        }
    }
}

// ---------------------------------------------------------------------------
// Whole queries
// ---------------------------------------------------------------------------

/// Whether `key` is among the excluded field names.
pub open spec fn is_excluded(excluded: Seq<&str>, key: Seq<char>) -> bool {
    exists|i: int| 0 <= i < excluded.len() && #[trigger] excluded[i]@ == key
}

/// Some included field of the track matches the term.
pub open spec fn field_hit(t: SearchTerm, fields: Seq<(String, String)>, excluded: Seq<&str>) -> bool {
    exists|i: int|
        0 <= i < fields.len() && !is_excluded(excluded, fields[i].0@) && #[trigger] term_matches_spec(
            t.key(),
            t.value@,
            fields[i].0@,
            fields[i].1@,
        )
}

/// Some extra (field, text) pair matches the term.
pub open spec fn extra_hit(t: SearchTerm, extra: Seq<(&str, &str)>) -> bool {
    exists|i: int|
        0 <= i < extra.len() && #[trigger] term_matches_spec(
            t.key(),
            t.value@,
            extra[i].0@,
            extra[i].1@,
        )
}

/// A query matches when it has terms and every term is non-empty and hits
/// an included field or an extra pair.
pub open spec fn query_matches(
    terms: Seq<SearchTerm>,
    fields: Seq<(String, String)>,
    excluded: Seq<&str>,
    extra: Seq<(&str, &str)>,
) -> bool {
    terms.len() > 0 && forall|k: int|
        0 <= k < terms.len() ==> #[trigger] terms[k].value@.len() > 0 && (field_hit(
            terms[k],
            fields,
            excluded,
        ) || extra_hit(terms[k], extra))
}

fn excluded_has(excluded: &Vec<&str>, key: &str) -> (r: bool)
    ensures
        r == is_excluded(excluded@, key@),
{
    let k = chars_of(key);
    let mut i: usize = 0;
    while i < excluded.len()
        invariant
            i <= excluded@.len(),
            k@ == key@,
            forall|j: int| 0 <= j < i ==> excluded@[j]@ != key@,
        decreases excluded@.len() - i,
    {
        if eq_lit(&k, excluded[i]) {
            return true;
        }
        i += 1;
    }
    false
}

fn term_field_hit(t: &SearchTerm, fields: &Vec<(String, String)>, excluded: &Vec<&str>) -> (r: bool)
    ensures
        r == field_hit(*t, fields@, excluded@),
{
    let mut i: usize = 0;
    while i < fields.len()
        invariant
            i <= fields@.len(),
            forall|j: int|
                0 <= j < i ==> !(!is_excluded(excluded@, fields@[j].0@) && #[trigger] term_matches_spec(
                    t.key(),
                    t.value@,
                    fields@[j].0@,
                    fields@[j].1@,
                )),
        decreases fields@.len() - i,
    {
        let (key, value) = &fields[i];
        if !excluded_has(excluded, key.as_str()) && t.matches(key.as_str(), value.as_str()) {
            return true;
        }
        i += 1;
    }
    false
}

fn term_extra_hit(t: &SearchTerm, extra: &Vec<(&str, &str)>) -> (r: bool)
    ensures
        r == extra_hit(*t, extra@),
{
    let mut i: usize = 0;
    while i < extra.len()
        invariant
            i <= extra@.len(),
            forall|j: int|
                0 <= j < i ==> !#[trigger] term_matches_spec(
                    t.key(),
                    t.value@,
                    extra@[j].0@,
                    extra@[j].1@,
                ),
        decreases extra@.len() - i,
    {
        let (key, value) = extra[i];
        if t.matches(key, value) {
            return true;
        }
        i += 1;
    }
    false
}

impl SearchQuery {
    pub open spec fn view_terms(self) -> Seq<(Option<Seq<char>>, Seq<char>)> {
        self.terms@.map_values(|t: SearchTerm| term_view(t))
    }

    /// Splits a raw query into terms.
    pub fn parse(raw: &str) -> (q: Self)
        ensures
            q.view_terms() == query_tokens(raw@).map_values(|t: Seq<char>| parse_token(t)),
    {
        let tokens = tokenize(raw);
        let ghost toks = query_tokens(raw@);
        let mut terms: Vec<SearchTerm> = Vec::new();
        let mut i: usize = 0;
        while i < tokens.len()
            invariant
                i <= tokens@.len(),
                tokens@.map_values(|t: Vec<char>| t@) == toks,
                terms@.map_values(|t: SearchTerm| term_view(t)) == toks.take(i as int).map_values(
                    |t: Seq<char>| parse_token(t),
                ),
            decreases tokens@.len() - i,
        {
            let term = parse_term(&tokens[i]);
            assert(toks[i as int] == tokens@[i as int]@);
            let ghost prev = terms@;
            let ghost tv = term_view(term);
            terms.push(term);
            assert(terms@ == prev.push(term));
            assert(terms@.map_values(|t: SearchTerm| term_view(t)) =~= prev.map_values(
                |t: SearchTerm| term_view(t),
            ).push(tv));
            assert(toks.take(i + 1) =~= toks.take(i as int).push(toks[i as int]));
            assert(terms@.map_values(|t: SearchTerm| term_view(t)) =~= toks.take(i + 1).map_values(
                |t: Seq<char>| parse_token(t),
            ));
            i += 1;
        }
        assert(toks.take(tokens@.len() as int) =~= toks);
        SearchQuery { terms }
    }

    /// Whether every term matches some field of the track.
    pub fn matches(&self, fields: &Vec<(String, String)>) -> (r: bool)
        ensures
            r == query_matches(self.terms@, fields@, Seq::empty(), Seq::empty()),
    {
        let excluded: Vec<&str> = Vec::new();
        let extra: Vec<(&str, &str)> = Vec::new();
        self.matches_with(fields, &excluded, &extra)
    }

    /// Like `matches`, but fields named in `excluded` are not looked at and
    /// the pairs in `extra` are looked at too.
    pub fn matches_with(
        &self,
        fields: &Vec<(String, String)>,
        excluded: &Vec<&str>,
        extra: &Vec<(&str, &str)>,
    ) -> (r: bool)
        ensures
            r == query_matches(self.terms@, fields@, excluded@, extra@),
    {
        if self.terms.len() == 0 {
            return false;
        }
        let mut k: usize = 0;
        while k < self.terms.len()
            invariant
                k <= self.terms@.len(),
                forall|j: int|
                    0 <= j < k ==> #[trigger] self.terms@[j].value@.len() > 0 && (field_hit(
                        self.terms@[j],
                        fields@,
                        excluded@,
                    ) || extra_hit(self.terms@[j], extra@)),
            decreases self.terms@.len() - k,
        {
            let term = &self.terms[k];
            let value = chars_of(term.value.as_str());
            if value.len() == 0 {
                return false;
            }
            if !term_field_hit(term, fields, excluded) && !term_extra_hit(term, extra) {
                return false;
            }
            k += 1;
        }
        true
    }

    /// The values of the terms that may name `field`: unrestricted terms and
    /// terms restricted to that field.
    pub fn name_terms(&self, field: &str) -> (out: Vec<String>)
        ensures
            out@.map_values(|s: String| s@) == self.terms@.filter(
                |t: SearchTerm| t.key() is None || t.key() == Some(field@),
            ).map_values(|t: SearchTerm| t.value@),
    {
        let ghost pred = |t: SearchTerm| t.key() is None || t.key() == Some(field@);
        let mut out: Vec<String> = Vec::new();
        let mut i: usize = 0;
        let fc = chars_of(field);
        while i < self.terms.len()
            invariant
                i <= self.terms@.len(),
                fc@ == field@,
                pred == (|t: SearchTerm| t.key() is None || t.key() == Some(field@)),
                out@.map_values(|s: String| s@) == self.terms@.take(i as int).filter(pred).map_values(
                    |t: SearchTerm| t.value@,
                ),
            decreases self.terms@.len() - i,
        {
            let term = &self.terms[i];
            let keep = match term.field {
                Some(key) => eq_lit(&fc, key),
                None => true,
            };
            proof {
                assert(self.terms@.take(i + 1) =~= self.terms@.take(i as int).push(*term));
                self.terms@.take(i as int).lemma_filter_push(*term, pred);
            }
            assert(pred(*term) == keep);
            let ghost prev = out@;
            if keep {
                let v = term.value.clone();
                out.push(v);
                assert(out@.map_values(|s: String| s@) =~= prev.map_values(|s: String| s@).push(
                    term.value@,
                ));
            }
            assert(out@.map_values(|s: String| s@) =~= self.terms@.take(i + 1).filter(
                pred,
            ).map_values(|t: SearchTerm| t.value@));
            i += 1;
        }
        assert(self.terms@.take(self.terms@.len() as int) =~= self.terms@);
        out
    }
}

} // verus!
