//! The session file (`session.json`): a JSON object holding the queue, the
//! selected row, the row playing and the path playing. JSON itself is read
//! and written by `serde_json`; what the file means is decided here.
use vstd::prelude::*;

use crate::path_map::{pkey, same_place};
use crate::session::{
    copy_paths, paths_view, places_view, resolve_session_current_index, resolve_spec, SessionSnapshot,
};

verus! {

/// The keys of a session file as a JSON reader finds them: the `queue`
/// array, with each element's text where it is a string; the two indexes
/// where they hold non-negative integers that fit a `u64`; the path playing
/// where it is a string. `queue` is `None` when the file has no array under
/// that key.
#[derive(Debug, Clone, PartialEq, Eq)]
pub struct SessionFields {
    pub queue: Option<Vec<Option<String>>>,
    pub selected_queue_index: Option<u64>,
    pub current_queue_index: Option<u64>,
    pub current_path: Option<String>,
}

pub struct FieldsView {
    pub queue: Option<Seq<Option<Seq<char>>>>,
    pub selected_queue_index: Option<u64>,
    pub current_queue_index: Option<u64>,
    pub current_path: Option<Seq<char>>,
}

pub open spec fn opt_text(s: Option<String>) -> Option<Seq<char>> {
    match s {
        Some(t) => Some(t@),
        None => None,
    }
}

pub open spec fn fields_view(f: SessionFields) -> FieldsView {
    FieldsView {
        queue: match f.queue {
            Some(q) => Some(q@.map_values(|e: Option<String>| opt_text(e))),
            None => None,
        },
        selected_queue_index: f.selected_queue_index,
        current_queue_index: f.current_queue_index,
        current_path: opt_text(f.current_path),
    }
}

pub open spec fn opt_fields_view(f: Option<SessionFields>) -> Option<FieldsView> {
    match f {
        Some(x) => Some(fields_view(x)),
        None => None,
    }
}

/// What `serde_json` finds in a session file (`None` when the text is not
/// JSON); see `SessionFields`.
pub uninterp spec fn session_fields_of(text: Seq<char>) -> Option<FieldsView>;

/// `serde_json::from_str::<serde_json::Value>` on the text, then
/// `Value::get` for each key with `Value::as_array`, `Value::as_u64` and
/// `Value::as_str`. The contract claims only that the result depends on the
/// text alone, and names it `session_fields_of`.
#[verifier::external_body]
fn session_fields(text: &str) -> (r: Option<SessionFields>)
    ensures
        opt_fields_view(r) == session_fields_of(text@),
{
    let value = serde_json::from_str::<serde_json::Value>(text).ok()?;
    Some(SessionFields {
        queue: value.get("queue").and_then(serde_json::Value::as_array).map(
            |items| items.iter().map(|v| v.as_str().map(str::to_string)).collect(),
        ),
        selected_queue_index: value.get("selected_queue_index").and_then(serde_json::Value::as_u64),
        current_queue_index: value.get("current_queue_index").and_then(serde_json::Value::as_u64),
        current_path: value.get("current_path").and_then(serde_json::Value::as_str).map(str::to_string),
    })
}

/// A session as plain values.
pub struct SessionView {
    pub queue: Seq<Seq<char>>,
    pub selected_queue_index: Option<usize>,
    pub current_queue_index: Option<usize>,
    pub current_path: Option<Seq<char>>,
}

pub open spec fn session_view(s: SessionSnapshot) -> SessionView {
    SessionView {
        queue: paths_view(s.queue@),
        selected_queue_index: s.selected_queue_index,
        current_queue_index: s.current_queue_index,
        current_path: opt_text(s.current_path),
    }
}

pub open spec fn opt_session_view(s: Option<SessionSnapshot>) -> Option<SessionView> {
    match s {
        Some(x) => Some(session_view(x)),
        None => None,
    }
}

/// The strings of a queue array, in order; other elements are skipped.
pub open spec fn strings_only(q: Seq<Option<Seq<char>>>) -> Seq<Seq<char>>
    decreases q.len(),
{
    if q.len() == 0 {
        Seq::empty()
    } else {
        let rest = strings_only(q.drop_last());
        match q.last() {
            Some(s) => rest.push(s),
            None => rest,
        }
    }
}

/// An index kept only when it fits a `usize`.
pub open spec fn fit_index(v: Option<u64>) -> Option<usize> {
    match v {
        Some(x) if x <= usize::MAX => Some(x as usize),
        _ => None,
    }
}

/// The session a file holds: none without a queue array; otherwise the
/// queue's strings, the indexes that fit a `usize`, and the path playing.
pub open spec fn session_from_fields(f: Option<FieldsView>) -> Option<SessionView> {
    match f {
        Some(x) => match x.queue {
            Some(q) => Some(
                SessionView {
                    queue: strings_only(q),
                    selected_queue_index: fit_index(x.selected_queue_index),
                    current_queue_index: fit_index(x.current_queue_index),
                    current_path: x.current_path,
                },
            ),
            None => None,
        },
        None => None,
    }
}

fn fit_index_exec(v: Option<u64>) -> (r: Option<usize>)
    ensures
        r == fit_index(v),
{
    match v {
        Some(x) => if x <= usize::MAX as u64 {
            Some(x as usize)
        } else {
            None
        },
        None => None,
    }
}

fn queue_strings(q: &Vec<Option<String>>) -> (r: Vec<String>)
    ensures
        paths_view(r@) == strings_only(q@.map_values(|e: Option<String>| opt_text(e))),
{
    let ghost qv = q@.map_values(|e: Option<String>| opt_text(e));
    let mut out: Vec<String> = Vec::new();
    let mut i: usize = 0;
    while i < q.len()
        invariant
            i <= q@.len(),
            qv == q@.map_values(|e: Option<String>| opt_text(e)),
            paths_view(out@) == strings_only(qv.take(i as int)),
        decreases q@.len() - i,
    {
        let ghost prev = out@;
        assert(qv.take(i + 1).drop_last() =~= qv.take(i as int));
        match &q[i] {
            Some(s) => {
                out.push(s.clone());
                assert(paths_view(out@) =~= paths_view(prev).push(s@));
            },
            None => {},
        }
        i += 1;
    }
    assert(qv.take(q@.len() as int) =~= qv);
    out
}

/// The session that file fields describe (see `session_from_fields`).
pub fn session_from_file_fields(fields: &Option<SessionFields>) -> (r: Option<SessionSnapshot>)
    ensures
        opt_session_view(r) == session_from_fields(opt_fields_view(*fields)),
{
    match fields {
        None => None,
        Some(f) => match &f.queue {
            None => None,
            Some(q) => Some(
                SessionSnapshot {
                    queue: queue_strings(q),
                    selected_queue_index: fit_index_exec(f.selected_queue_index),
                    current_queue_index: fit_index_exec(f.current_queue_index),
                    current_path: f.current_path.clone(),
                },
            ),
        },
    }
}

/// Reads a session file: `None` when it is not JSON or has no `queue`
/// array; otherwise the session its fields describe.
pub fn parse_session_text(text: &str) -> (r: Option<SessionSnapshot>)
    ensures
        opt_session_view(r) == session_from_fields(session_fields_of(text@)),
{
    let fields = session_fields(text);
    session_from_file_fields(&fields)
}

/// The text `serde_json::to_string_pretty` writes for the session object:
/// `queue` an array of strings, the indexes numbers or `null`, the path a
/// string or `null`.
pub uninterp spec fn session_json_of(
    queue: Seq<Seq<char>>,
    selected: Option<usize>,
    current: Option<usize>,
    path: Option<Seq<char>>,
) -> Seq<char>;

pub open spec fn opt_index_u64(v: Option<usize>) -> Option<u64> {
    match v {
        Some(x) => Some(x as u64),
        None => None,
    }
}

/// The fields read back from a written session.
pub open spec fn written_fields(
    queue: Seq<Seq<char>>,
    selected: Option<usize>,
    current: Option<usize>,
    path: Option<Seq<char>>,
) -> FieldsView {
    FieldsView {
        queue: Some(queue.map_values(|p: Seq<char>| Some(p))),
        selected_queue_index: opt_index_u64(selected),
        current_queue_index: opt_index_u64(current),
        current_path: path,
    }
}

/// `serde_json::to_string_pretty` of a `serde_json::Value` object built
/// from the session's fields. Serializing a `Value` cannot fail (its map
/// keys are strings), and reading the text back with `serde_json` gives the
/// same values: the contract claims both, and names the text.
#[verifier::external_body]
fn session_json(
    queue: &Vec<String>,
    selected: Option<usize>,
    current: Option<usize>,
    path: &Option<String>,
) -> (r: Option<String>)
    ensures
        r is Some,
        r->Some_0@ == session_json_of(paths_view(queue@), selected, current, opt_text(*path)),
        session_fields_of(r->Some_0@) == Some(written_fields(paths_view(queue@), selected, current, opt_text(*path))),
{
    let mut object = serde_json::Map::new();
    let items = queue.iter().map(|p| serde_json::Value::from(p.as_str())).collect();
    object.insert("queue".to_string(), serde_json::Value::Array(items));
    object.insert("selected_queue_index".to_string(), serde_json::Value::from(selected));
    object.insert("current_queue_index".to_string(), serde_json::Value::from(current));
    object.insert("current_path".to_string(), serde_json::Value::from(path.clone()));
    serde_json::to_string_pretty(&serde_json::Value::Object(object)).ok()
}

/// Writes a session file (see `session_json_of`).
pub fn format_session_text(session: &SessionSnapshot) -> (r: String)
    ensures
        r@ == session_json_of(
            paths_view(session.queue@),
            session.selected_queue_index,
            session.current_queue_index,
            opt_text(session.current_path),
        ),
        session_fields_of(r@) == Some(
            written_fields(
                paths_view(session.queue@),
                session.selected_queue_index,
                session.current_queue_index,
                opt_text(session.current_path),
            ),
        ),
{
    match session_json(
        &session.queue,
        session.selected_queue_index,
        session.current_queue_index,
        &session.current_path,
    ) {
        Some(t) => t,
        None => String::new(),
    }
}

proof fn lemma_strings_of_all_strings(q: Seq<Seq<char>>)
    ensures
        strings_only(q.map_values(|p: Seq<char>| Some(p))) == q,
    decreases q.len(),
{
    if q.len() > 0 {
        lemma_strings_of_all_strings(q.drop_last());
        assert(q.map_values(|p: Seq<char>| Some(p)).drop_last() =~= q.drop_last().map_values(
            |p: Seq<char>| Some(p),
        ));
        assert(q.drop_last().push(q.last()) =~= q);
    } else {
        assert(q.map_values(|p: Seq<char>| Some(p)) =~= Seq::<Option<Seq<char>>>::empty());
        assert(q =~= Seq::<Seq<char>>::empty());
    }
}

/// Reading back a written session file gives the session that was written.
pub proof fn law_session_file_round_trip(s: SessionSnapshot, text: Seq<char>)
    requires
        text == session_json_of(
            paths_view(s.queue@),
            s.selected_queue_index,
            s.current_queue_index,
            opt_text(s.current_path),
        ),
        session_fields_of(text) == Some(
            written_fields(
                paths_view(s.queue@),
                s.selected_queue_index,
                s.current_queue_index,
                opt_text(s.current_path),
            ),
        ),
    ensures
        session_from_fields(session_fields_of(text)) == Some(session_view(s)),
{
    lemma_strings_of_all_strings(paths_view(s.queue@));
}

/// Whether `path` names a place in the queue.
fn queued(queue: &Vec<String>, path: &String) -> (r: bool)
    ensures
        r == exists|i: int| 0 <= i < queue@.len() && pkey(#[trigger] queue@[i]@) == pkey(path@),
{
    let mut i: usize = 0;
    while i < queue.len()
        invariant
            i <= queue@.len(),
            forall|j: int| 0 <= j < i ==> pkey(#[trigger] queue@[j]@) != pkey(path@),
        decreases queue@.len() - i,
    {
        if same_place(queue[i].as_str(), path.as_str()) {
            return true;
        }
        i += 1;
    }
    false
}

/// The path playing, kept when it names a place in the queue.
pub open spec fn kept_current(queue: Seq<String>, current: Option<String>) -> Option<Seq<char>> {
    match current {
        Some(p) => if exists|i: int| 0 <= i < queue.len() && pkey(#[trigger] queue[i]@) == pkey(p@) {
            Some(p@)
        } else {
            None
        },
        None => None,
    }
}

/// The session saved for the player's state: the queue and selection as
/// they are; the path playing only when it is in the queue; and the index
/// playing resolved as a restore would (see `resolve_spec`).
pub fn session_snapshot(
    queue: &Vec<String>,
    selected: Option<usize>,
    current: Option<String>,
    current_index: Option<usize>,
) -> (r: SessionSnapshot)
    ensures
        paths_view(r.queue@) == paths_view(queue@),
        r.selected_queue_index == selected,
        opt_text(r.current_path) == kept_current(queue@, current),
        ({
            let path = match kept_current(queue@, current) {
                Some(p) => Some(pkey(p)),
                None => None,
            };
            match resolve_spec(places_view(queue@), current_index, path) {
                Some(i) => r.current_queue_index == Some(i as usize),
                None => r.current_queue_index is None,
            }
        }),
{
    let current_path = match current {
        Some(p) => if queued(queue, &p) {
            Some(p)
        } else {
            None
        },
        None => None,
    };
    let cp: Option<&String> = match &current_path {
        Some(p) => Some(p),
        None => None,
    };
    let current_queue_index = resolve_session_current_index(queue, current_index, cp);
    SessionSnapshot {
        queue: copy_paths(queue),
        selected_queue_index: selected,
        current_queue_index,
        current_path,
    }
}

} // verus!
