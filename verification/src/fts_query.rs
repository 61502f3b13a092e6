//! The full-text query the library database is searched with: each word of
//! the user's text becomes a quoted prefix term, and all must match.
use vstd::prelude::*;

use crate::text::{chars_of, split_whitespace, string_from_chars, words};

verus! {

/// `w` with each `"` doubled, as an SQLite string token escapes it.
pub open spec fn doubled_quotes(w: Seq<char>) -> Seq<char>
    decreases w.len(),
{
    if w.len() == 0 {
        Seq::empty()
    } else if w.last() == '"' {
        doubled_quotes(w.drop_last()) + seq!['"', '"']
    } else {
        doubled_quotes(w.drop_last()).push(w.last())
    }
}

/// A prefix term for a word: `"word"*`, with its quotes doubled.
pub open spec fn fts_term(w: Seq<char>) -> Seq<char> {
    seq!['"'] + doubled_quotes(w) + seq!['"', '*']
}

/// Terms joined by ` AND `.
pub open spec fn joined_and(ts: Seq<Seq<char>>) -> Seq<char>
    decreases ts.len(),
{
    if ts.len() == 0 {
        Seq::empty()
    } else if ts.len() == 1 {
        ts[0]
    } else {
        joined_and(ts.drop_last()) + " AND "@ + ts.last()
    }
}

/// The query for a raw search text: none when it has no words; otherwise
/// the term of each word, in order, joined by ` AND `.
pub open spec fn fts_query_spec(raw: Seq<char>) -> Option<Seq<char>> {
    let ws = words(raw);
    if ws.len() == 0 {
        None
    } else {
        Some(joined_and(ws.map_values(|w: Seq<char>| fts_term(w))))
    }
}

fn push_term(out: &mut Vec<char>, w: &Vec<char>)
    ensures
        final(out)@ == old(out)@ + fts_term(w@),
{
    let ghost start = out@;
    out.push('"');
    let mut i: usize = 0;
    while i < w.len()
        invariant
            i <= w@.len(),
            out@ == start + seq!['"'] + doubled_quotes(w@.take(i as int)),
        decreases w@.len() - i,
    {
        let c = w[i];
        assert(w@.take(i + 1).drop_last() =~= w@.take(i as int));
        assert(w@.take(i + 1).last() == c);
        if c == '"' {
            out.push('"');
            out.push('"');
        } else {
            out.push(c);
        }
        assert(out@ =~= start + seq!['"'] + doubled_quotes(w@.take(i + 1)));
        i += 1;
    }
    assert(w@.take(w@.len() as int) =~= w@);
    out.push('"');
    out.push('*');
    assert(out@ =~= start + fts_term(w@));
}

/// The full-text query for a raw search text (see `fts_query_spec`).
pub fn build_fts_query(raw: &str) -> (r: Option<String>)
    ensures
        match r {
            Some(q) => fts_query_spec(raw@) == Some(q@),
            None => fts_query_spec(raw@) is None,
        },
{
    let ws = split_whitespace(&chars_of(raw));
    let ghost wv = ws@.map_values(|w: Vec<char>| w@);
    let ghost tv = wv.map_values(|w: Seq<char>| fts_term(w));
    if ws.len() == 0 {
        return None;
    }
    let mut out: Vec<char> = Vec::new();
    let mut i: usize = 0;
    while i < ws.len()
        invariant
            i <= ws@.len(),
            wv == ws@.map_values(|w: Vec<char>| w@),
            tv == wv.map_values(|w: Seq<char>| fts_term(w)),
            out@ == joined_and(tv.take(i as int)),
        decreases ws@.len() - i,
    {
        let ghost before = out@;
        if i > 0 {
            out.push(' ');
            out.push('A');
            out.push('N');
            out.push('D');
            out.push(' ');
            proof {
                reveal_strlit(" AND ");
            }
            assert(out@ =~= before + " AND "@);
        }
        push_term(&mut out, &ws[i]);
        proof {
            let t = tv.take(i + 1);
            assert(t.drop_last() =~= tv.take(i as int));
            assert(t.last() == fts_term(ws@[i as int]@));
            if i == 0 {
                assert(t =~= seq![fts_term(ws@[0]@)]);
                assert(out@ =~= fts_term(ws@[0]@));
            }
        }
        i += 1;
    }
    assert(tv.take(ws@.len() as int) =~= tv);
    Some(string_from_chars(&out))
}

/// The number of rows a database search returns at most: the asked limit,
/// kept within 1..=5000.
pub fn fts_row_limit(limit: usize) -> (r: i64)
    ensures
        r == if limit < 1 {
            1
        } else if limit > 5000 {
            5000
        } else {
            limit as int
        },
{
    if limit < 1 {
        1
    } else if limit > 5000 {
        5000
    } else {
        limit as i64
    }
}

} // verus!
