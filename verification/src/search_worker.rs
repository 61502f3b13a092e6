//! The search worker's choices: which waiting request runs next, when a
//! running search gives way to a newer one, and when the prepared search
//! data can be used again. Receiving requests and running searches stay
//! with the caller.
use vstd::prelude::*;

use crate::search_finalize::{limit_setting, limit_setting_spec};

verus! {

/// How many tracks a search walks between looks for a newer query (see
/// `continue_search`): the configured number, 64 by default, held between
/// 16 and 4096.
pub fn search_cancel_poll_rows(raw: Option<&str>) -> (r: usize)
    ensures
        r == limit_setting_spec(
            match raw {
                Some(t) => Some(t@),
                None => None,
            },
            64,
            16,
            4096,
        ),
        16 <= r <= 4096,
{
    limit_setting(raw, 64, 16, 4096)
}

/// A search request: its number and text. Number 0 with no text only
/// warms the prepared data after the library changed.
#[derive(Debug, Clone)]
pub struct SearchRequest {
    pub seq: u32,
    pub query: String,
}

pub open spec fn warmup(r: SearchRequest) -> bool {
    r.seq == 0 && r.query@.len() == 0
}

/// Whether a request only warms the prepared data.
pub fn is_cache_warmup(r: &SearchRequest) -> (b: bool)
    ensures
        b == warmup(*r),
{
    r.seq == 0 && crate::text::chars_of(r.query.as_str()).len() == 0
}

/// The request that runs after the first `n` waiting ones were taken in:
/// each replaces the one that would run, except a warm-up while an
/// interactive request (number not 0) would run. `None` keeps `current`.
pub open spec fn coalesce_upto(current: SearchRequest, waiting: Seq<SearchRequest>, n: int) -> Option<int>
    decreases n,
{
    if n <= 0 {
        None
    } else {
        let prev = coalesce_upto(current, waiting, n - 1);
        let running_seq = match prev {
            Some(i) => waiting[i].seq,
            None => current.seq,
        };
        if warmup(waiting[n - 1]) && running_seq != 0 {
            prev
        } else {
            Some(n - 1)
        }
    }
}

/// Which waiting request runs next, if any replaces `current` (see
/// `coalesce_upto`).
pub fn next_query(current: &SearchRequest, waiting: &Vec<SearchRequest>) -> (r: Option<usize>)
    ensures
        match r {
            Some(i) => coalesce_upto(*current, waiting@, waiting@.len() as int) == Some(i as int),
            None => coalesce_upto(*current, waiting@, waiting@.len() as int) is None,
        },
{
    let mut chosen: Option<usize> = None;
    let mut running_seq: u32 = current.seq;
    let mut i: usize = 0;
    while i < waiting.len()
        invariant
            i <= waiting@.len(),
            match chosen {
                Some(c) => coalesce_upto(*current, waiting@, i as int) == Some(c as int) && c < i && running_seq
                    == waiting@[c as int].seq,
                None => coalesce_upto(*current, waiting@, i as int) is None && running_seq == current.seq,
            },
        decreases waiting@.len() - i,
    {
        if !(is_cache_warmup(&waiting[i]) && running_seq != 0) {
            chosen = Some(i);
            running_seq = waiting[i].seq;
        }
        i += 1;
    }
    chosen
}

/// The last of the first `n` waiting requests that is not a warm-up.
pub open spec fn latest_interactive_upto(waiting: Seq<SearchRequest>, n: int) -> Option<int>
    decreases n,
{
    if n <= 0 {
        None
    } else if !warmup(waiting[n - 1]) {
        Some(n - 1)
    } else {
        latest_interactive_upto(waiting, n - 1)
    }
}

/// The newest waiting request that is not a warm-up: a running search
/// gives way to it. Warm-ups never cancel a search.
pub fn latest_interactive_query(waiting: &Vec<SearchRequest>) -> (r: Option<usize>)
    ensures
        match r {
            Some(i) => latest_interactive_upto(waiting@, waiting@.len() as int) == Some(i as int),
            None => latest_interactive_upto(waiting@, waiting@.len() as int) is None,
        },
{
    let mut latest: Option<usize> = None;
    let mut i: usize = 0;
    while i < waiting.len()
        invariant
            i <= waiting@.len(),
            match latest {
                Some(c) => latest_interactive_upto(waiting@, i as int) == Some(c as int),
                None => latest_interactive_upto(waiting@, i as int) is None,
            },
        decreases waiting@.len() - i,
    {
        if !is_cache_warmup(&waiting[i]) {
            latest = Some(i);
        }
        i += 1;
    }
    latest
}

/// What the worker remembers of the library its prepared data was made
/// from: whether there is any, and its search revision (none for 0).
#[derive(Debug, Clone, Copy, PartialEq, Eq, Structural)]
pub struct PreparedCacheState {
    pub has_prepared: bool,
    pub source_revision: Option<u64>,
}

/// Prepared data can be used again for a library with a nonzero search
/// revision equal to the one it was made for, or, with revision 0, for the
/// very library it was made from (`same_library`, which the caller tells
/// by identity).
pub open spec fn cache_reusable(s: PreparedCacheState, revision: u64, same_library: bool) -> bool {
    s.has_prepared && ((revision != 0 && s.source_revision == Some(revision)) || (revision == 0 && same_library))
}

impl PreparedCacheState {
    /// Nothing prepared yet.
    pub fn new() -> (r: PreparedCacheState)
        ensures
            !r.has_prepared,
            r.source_revision is None,
    {
        PreparedCacheState { has_prepared: false, source_revision: None }
    }

    /// Whether the prepared data can be used for a library (see
    /// `cache_reusable`); otherwise it is to be prepared anew.
    pub fn reusable(&self, revision: u64, same_library: bool) -> (r: bool)
        ensures
            r == cache_reusable(*self, revision, same_library),
    {
        if !self.has_prepared {
            return false;
        }
        if revision != 0 {
            match self.source_revision {
                Some(s) => s == revision,
                None => false,
            }
        } else {
            same_library
        }
    }

    /// Data was prepared for a library with the given search revision.
    pub fn prepared(&mut self, revision: u64)
        ensures
            final(self).has_prepared,
            final(self).source_revision == (if revision != 0 {
                Some(revision)
            } else {
                None
            }),
    {
        self.has_prepared = true;
        self.source_revision = if revision != 0 {
            Some(revision)
        } else {
            None
        };
    }
}

/// A warm-up never takes the place of an interactive request that waits to
/// run, and an interactive request that arrives last always runs next.
pub proof fn law_warmups_never_displace_interactive_requests(current: SearchRequest, waiting: Seq<SearchRequest>)
    ensures
        waiting.len() > 0 && !warmup(waiting.last()) ==> coalesce_upto(current, waiting, waiting.len() as int) == Some(
            waiting.len() - 1,
        ),
        current.seq != 0 && (forall|i: int| 0 <= i < waiting.len() ==> warmup(#[trigger] waiting[i]))
            ==> coalesce_upto(current, waiting, waiting.len() as int) is None,
{
    if current.seq != 0 && (forall|i: int| 0 <= i < waiting.len() ==> warmup(#[trigger] waiting[i])) {
        lemma_all_warmups_keep_current(current, waiting, waiting.len() as int);
    }
}

proof fn lemma_all_warmups_keep_current(current: SearchRequest, waiting: Seq<SearchRequest>, n: int)
    requires
        current.seq != 0,
        0 <= n <= waiting.len(),
        forall|i: int| 0 <= i < waiting.len() ==> warmup(#[trigger] waiting[i]),
    ensures
        coalesce_upto(current, waiting, n) is None,
    decreases n,
{
    if n > 0 {
        lemma_all_warmups_keep_current(current, waiting, n - 1);
        assert(warmup(waiting[n - 1]));
    }
}

/// A search gives way only to a request that is no warm-up, and to the
/// newest such.
pub proof fn law_only_interactive_requests_cancel(waiting: Seq<SearchRequest>, n: int)
    requires
        0 <= n <= waiting.len(),
    ensures
        match latest_interactive_upto(waiting, n) {
            Some(i) => 0 <= i < n && !warmup(waiting[i]) && forall|j: int| i < j < n ==> warmup(#[trigger] waiting[j]),
            None => forall|j: int| 0 <= j < n ==> warmup(#[trigger] waiting[j]),
        },
    decreases n,
{
    if n > 0 {
        law_only_interactive_requests_cancel(waiting, n - 1);
    }
}

} // verus!
