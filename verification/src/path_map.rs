//! A map keyed by file paths, where two paths are the same key when they
//! name the same place (equal components, as `PathBuf` compares them).
use vstd::prelude::*;

use crate::search_context::{comps_view, path_components, path_components_of};
use crate::text::chars_eq;

verus! {

/// The key a path stands for: its components.
pub open spec fn pkey(p: Seq<char>) -> Seq<Seq<char>> {
    path_components(p)
}

/// No two entries name the same place.
pub open spec fn distinct_paths<V>(e: Seq<(String, V)>) -> bool {
    forall|i: int, j: int|
        0 <= i < e.len() && 0 <= j < e.len() && i != j ==> pkey(#[trigger] e[i].0@) != pkey(#[trigger] e[j].0@)
}

/// The map that the entries stand for.
pub open spec fn entries_map<V>(e: Seq<(String, V)>) -> Map<Seq<Seq<char>>, V>
    decreases e.len(),
{
    if e.len() == 0 {
        Map::empty()
    } else {
        entries_map(e.drop_last()).insert(pkey(e.last().0@), e.last().1)
    }
}

/// A map from paths to values.
pub struct PathMap<V> {
    pub entries: Vec<(String, V)>,
}

impl<V> PathMap<V> {
    pub open spec fn wf(&self) -> bool {
        distinct_paths(self.entries@)
    }

    pub open spec fn map(&self) -> Map<Seq<Seq<char>>, V> {
        entries_map(self.entries@)
    }
}

pub proof fn lemma_entries_map_domain<V>(e: Seq<(String, V)>, k: Seq<Seq<char>>)
    ensures
        entries_map(e).dom().contains(k) <==> exists|i: int| 0 <= i < e.len() && pkey(#[trigger] e[i].0@) == k,
    decreases e.len(),
{
    if e.len() > 0 {
        lemma_entries_map_domain(e.drop_last(), k);
        if exists|i: int| 0 <= i < e.len() && pkey(#[trigger] e[i].0@) == k {
            let i = choose|i: int| 0 <= i < e.len() && pkey(#[trigger] e[i].0@) == k;
            if i < e.len() - 1 {
                assert(e.drop_last()[i] == e[i]);
            }
        }
        if exists|i: int| 0 <= i < e.drop_last().len() && pkey(#[trigger] e.drop_last()[i].0@) == k {
            let i = choose|i: int| 0 <= i < e.drop_last().len() && pkey(#[trigger] e.drop_last()[i].0@) == k;
            assert(e[i] == e.drop_last()[i]);
        }
    }
}

pub proof fn lemma_entries_map_finite<V>(e: Seq<(String, V)>)
    ensures
        entries_map(e).dom().finite(),
    decreases e.len(),
{
    if e.len() > 0 {
        lemma_entries_map_finite(e.drop_last());
    }
}

pub proof fn lemma_entries_map_value<V>(e: Seq<(String, V)>, i: int)
    requires
        distinct_paths(e),
        0 <= i < e.len(),
    ensures
        entries_map(e).dom().contains(pkey(e[i].0@)),
        entries_map(e)[pkey(e[i].0@)] == e[i].1,
    decreases e.len(),
{
    if i < e.len() - 1 {
        let d = e.drop_last();
        assert(d[i] == e[i]);
        assert(distinct_paths(d)) by {
            assert forall|a: int, b: int| 0 <= a < d.len() && 0 <= b < d.len() && a != b implies pkey(
                #[trigger] d[a].0@,
            ) != pkey(#[trigger] d[b].0@) by {
                assert(d[a] == e[a] && d[b] == e[b]);
            }
        }
        lemma_entries_map_value(d, i);
        assert(pkey(e.last().0@) != pkey(e[i].0@));
    }
}

/// Keeping the entries whose key satisfies `keep` keeps the map's values
/// on those keys only.
pub proof fn lemma_entries_map_filter<V>(e: Seq<(String, V)>, keep: spec_fn(Seq<Seq<char>>) -> bool)
    ensures
        entries_map(e.filter(|x: (String, V)| keep(pkey(x.0@)))) == entries_map(e).restrict(
            entries_map(e).dom().filter(keep),
        ),
    decreases e.len(),
{
    let pred = |x: (String, V)| keep(pkey(x.0@));
    if e.len() == 0 {
        assert(e.filter(pred) =~= e);
        assert(entries_map(e).restrict(entries_map(e).dom().filter(keep)) =~= Map::<Seq<Seq<char>>, V>::empty());
    } else {
        let d = e.drop_last();
        lemma_entries_map_filter(d, keep);
        assert(e =~= d.push(e.last()));
        d.lemma_filter_push(e.last(), pred);
        let m = entries_map(d);
        let mf = entries_map(d.filter(pred));
        let x = e.last();
        let k = pkey(x.0@);
        if keep(k) {
            let f = d.filter(pred).push(x);
            assert(e.filter(pred) =~= f);
            assert(f.drop_last() =~= d.filter(pred));
            assert(f.last() == x);
            assert(entries_map(f) == mf.insert(k, x.1));
            assert(entries_map(e.filter(pred)) =~= mf.insert(k, x.1));
            assert(mf.insert(k, x.1) =~= m.insert(k, x.1).restrict(m.insert(k, x.1).dom().filter(keep)));
        } else {
            assert(e.filter(pred) =~= d.filter(pred));
            assert(mf =~= m.insert(k, x.1).restrict(m.insert(k, x.1).dom().filter(keep)));
        }
    }
}

proof fn lemma_filter_distinct<V>(e: Seq<(String, V)>, p: spec_fn((String, V)) -> bool)
    requires
        distinct_paths(e),
    ensures
        distinct_paths(e.filter(p)),
    decreases e.len(),
{
    let f = e.filter(p);
    assert forall|i: int, j: int| 0 <= i < f.len() && 0 <= j < f.len() && i != j implies pkey(#[trigger] f[i].0@)
        != pkey(#[trigger] f[j].0@) by {
        e.filter_lemma(p);
        lemma_filter_index(e, p, i);
        lemma_filter_index(e, p, j);
        let a = choose|a: int| 0 <= a < e.len() && e[a] == f[i] && filter_rank(e, p, a) == i;
        let b = choose|b: int| 0 <= b < e.len() && e[b] == f[j] && filter_rank(e, p, b) == j;
        assert(a != b);
    }
}

/// How many entries before `a` pass `p`.
pub open spec fn filter_rank<V>(e: Seq<(String, V)>, p: spec_fn((String, V)) -> bool, a: int) -> int {
    e.take(a).filter(p).len() as int
}

proof fn lemma_filter_index<V>(e: Seq<(String, V)>, p: spec_fn((String, V)) -> bool, i: int)
    requires
        0 <= i < e.filter(p).len(),
    ensures
        exists|a: int| 0 <= a < e.len() && e[a] == e.filter(p)[i] && filter_rank(e, p, a) == i,
    decreases e.len(),
{
    let d = e.drop_last();
    assert(e =~= d.push(e.last()));
    d.lemma_filter_push(e.last(), p);
    assert(e.take(e.len() - 1) =~= d);
    if i < d.filter(p).len() {
        lemma_filter_index(d, p, i);
        let a = choose|a: int| 0 <= a < d.len() && d[a] == d.filter(p)[i] && filter_rank(d, p, a) == i;
        assert(e.take(a) =~= d.take(a));
        assert(e[a] == d[a]);
        assert(e.filter(p)[i] == d.filter(p)[i]);
    } else {
        assert(e.filter(p)[i] == e.last());
        assert(filter_rank(e, p, e.len() - 1) == d.filter(p).len());
    }
}

impl<V> PathMap<V> {
    pub fn new() -> (r: Self)
        ensures
            r.wf(),
            r.map() == Map::<Seq<Seq<char>>, V>::empty(),
    {
        PathMap { entries: Vec::new() }
    }

    fn index_of(&self, path: &str) -> (r: Option<usize>)
        ensures
            match r {
                Some(i) => i < self.entries@.len() && pkey(self.entries@[i as int].0@) == pkey(path@),
                None => forall|j: int| 0 <= j < self.entries@.len() ==> pkey(#[trigger] self.entries@[j].0@) != pkey(path@),
            },
    {
        let target = path_components_of(path);
        let mut i: usize = 0;
        while i < self.entries.len()
            invariant
                i <= self.entries@.len(),
                comps_view(target@) == pkey(path@),
                forall|j: int| 0 <= j < i ==> pkey(#[trigger] self.entries@[j].0@) != pkey(path@),
            decreases self.entries@.len() - i,
        {
            let c = path_components_of(self.entries[i].0.as_str());
            if comps_same(&c, &target) {
                return Some(i);
            }
            i += 1;
        }
        None
    }

    /// Whether some entry names the place `path` names.
    pub fn contains(&self, path: &str) -> (r: bool)
        ensures
            r == self.map().dom().contains(pkey(path@)),
    {
        proof {
            lemma_entries_map_domain(self.entries@, pkey(path@));
        }
        self.index_of(path).is_some()
    }

    /// The value stored for `path`.
    pub fn get(&self, path: &str) -> (r: Option<&V>)
        requires
            self.wf(),
        ensures
            match r {
                Some(v) => self.map().dom().contains(pkey(path@)) && self.map()[pkey(path@)] == *v,
                None => !self.map().dom().contains(pkey(path@)),
            },
    {
        proof {
            lemma_entries_map_domain(self.entries@, pkey(path@));
        }
        match self.index_of(path) {
            Some(i) => {
                proof {
                    lemma_entries_map_value(self.entries@, i as int);
                }
                Some(&self.entries[i].1)
            },
            None => None,
        }
    }

    /// Keeps the entries whose keys satisfy `keep`.
    fn retain_keys(&mut self, keep: Ghost<spec_fn(Seq<Seq<char>>) -> bool>, mask: Vec<bool>)
        requires
            old(self).wf(),
            mask@.len() == old(self).entries@.len(),
            forall|i: int| 0 <= i < mask@.len() ==> #[trigger] mask@[i] == keep@(pkey(old(self).entries@[i].0@)),
        ensures
            final(self).wf(),
            final(self).map() == old(self).map().restrict(old(self).map().dom().filter(keep@)),
    {
        let ghost e = self.entries@;
        let ghost pred = |x: (String, V)| keep@(pkey(x.0@));
        let mut old_entries: Vec<(String, V)> = Vec::new();
        std::mem::swap(&mut old_entries, &mut self.entries);
        let mut kept: Vec<(String, V)> = Vec::new();
        let mut i: usize = 0;
        let mut rest = old_entries;
        let total = rest.len();
        assert(e.take(0).filter(pred) =~= Seq::<(String, V)>::empty());
        assert(rest@ =~= e.skip(0));
        while rest.len() > 0
            invariant
                i + rest@.len() == e.len(),
                e.len() == total,
                rest@ == e.skip(i as int),
                mask@.len() == e.len(),
                forall|j: int| 0 <= j < mask@.len() ==> #[trigger] mask@[j] == keep@(pkey(e[j].0@)),
                pred == (|x: (String, V)| keep@(pkey(x.0@))),
                kept@ == e.take(i as int).filter(pred),
            decreases rest@.len(),
        {
            let x = rest.remove(0);
            assert(x == e[i as int]);
            assert(rest@ =~= e.skip(i + 1));
            proof {
                assert(e.take(i + 1) =~= e.take(i as int).push(e[i as int]));
                e.take(i as int).lemma_filter_push(e[i as int], pred);
            }
            if mask[i] {
                kept.push(x);
            }
            i += 1;
        }
        assert(e.take(e.len() as int) =~= e);
        proof {
            lemma_entries_map_filter(e, keep@);
            lemma_filter_distinct(e, pred);
        }
        self.entries = kept;
    }

    /// Drops the entry for `path`, if any.
    pub fn remove(&mut self, path: &str) -> (r: bool)
        requires
            old(self).wf(),
        ensures
            final(self).wf(),
            final(self).map() == old(self).map().remove(pkey(path@)),
            r == old(self).map().dom().contains(pkey(path@)),
    {
        let target = path_components_of(path);
        let ghost k = pkey(path@);
        let ghost keep = |c: Seq<Seq<char>>| c != k;
        let mut mask: Vec<bool> = Vec::new();
        let mut found = false;
        let mut i: usize = 0;
        while i < self.entries.len()
            invariant
                i <= self.entries@.len(),
                comps_view(target@) == k,
                keep == (|c: Seq<Seq<char>>| c != k),
                mask@.len() == i,
                forall|j: int| 0 <= j < i ==> #[trigger] mask@[j] == keep(pkey(self.entries@[j].0@)),
                found == exists|j: int| 0 <= j < i && pkey(#[trigger] self.entries@[j].0@) == k,
            decreases self.entries@.len() - i,
        {
            let c = path_components_of(self.entries[i].0.as_str());
            let same = comps_same(&c, &target);
            mask.push(!same);
            assert(mask@[i as int] == keep(pkey(self.entries@[i as int].0@)));
            if same {
                found = true;
            }
            i += 1;
        }
        proof {
            lemma_entries_map_domain(self.entries@, k);
        }
        let ghost before = self.map();
        self.retain_keys(Ghost(keep), mask);
        assert(before.restrict(before.dom().filter(keep)) =~= before.remove(k));
        found
    }

    /// Keeps only the entries whose paths name a place among `paths`; says
    /// whether any entry went.
    pub fn retain_paths(&mut self, paths: &Vec<String>) -> (r: bool)
        requires
            old(self).wf(),
        ensures
            final(self).wf(),
            final(self).map() == old(self).map().restrict(old(self).map().dom().filter(|k: Seq<Seq<char>>| in_paths(paths@, k))),
            r == (final(self).map().dom() != old(self).map().dom()),
    {
        let ghost keep = |k: Seq<Seq<char>>| in_paths(paths@, k);
        let mut keys: Vec<Vec<Vec<char>>> = Vec::new();
        let mut p: usize = 0;
        while p < paths.len()
            invariant
                p <= paths@.len(),
                keys@.len() == p,
                forall|j: int| 0 <= j < p ==> comps_view(#[trigger] keys@[j]@) == pkey(paths@[j]@),
            decreases paths@.len() - p,
        {
            keys.push(path_components_of(paths[p].as_str()));
            p += 1;
        }
        let mut mask: Vec<bool> = Vec::new();
        let mut dropped = false;
        let mut i: usize = 0;
        while i < self.entries.len()
            invariant
                i <= self.entries@.len(),
                keep == (|k: Seq<Seq<char>>| in_paths(paths@, k)),
                keys@.len() == paths@.len(),
                forall|j: int| 0 <= j < paths@.len() ==> comps_view(#[trigger] keys@[j]@) == pkey(paths@[j]@),
                mask@.len() == i,
                forall|j: int| 0 <= j < i ==> #[trigger] mask@[j] == keep(pkey(self.entries@[j].0@)),
                dropped == exists|j: int| 0 <= j < i && !keep(pkey(#[trigger] self.entries@[j].0@)),
            decreases self.entries@.len() - i,
        {
            let c = path_components_of(self.entries[i].0.as_str());
            let mut hit = false;
            let mut q: usize = 0;
            while q < keys.len()
                invariant
                    q <= keys@.len(),
                    i < self.entries@.len(),
                    keys@.len() == paths@.len(),
                    forall|j: int| 0 <= j < paths@.len() ==> comps_view(#[trigger] keys@[j]@) == pkey(paths@[j]@),
                    comps_view(c@) == pkey(self.entries@[i as int].0@),
                    hit == exists|j: int| 0 <= j < q && pkey(#[trigger] paths@[j]@) == comps_view(c@),
                decreases keys@.len() - q,
            {
                if comps_same(&keys[q], &c) {
                    hit = true;
                }
                q += 1;
            }
            assert(hit == keep(pkey(self.entries@[i as int].0@)));
            mask.push(hit);
            assert(mask@[i as int] == keep(pkey(self.entries@[i as int].0@)));
            if !hit {
                dropped = true;
            }
            i += 1;
        }
        let ghost before = self.map();
        proof {
            if dropped {
                let j = choose|j: int| 0 <= j < self.entries@.len() && !keep(pkey(#[trigger] self.entries@[j].0@));
                lemma_entries_map_domain(self.entries@, pkey(self.entries@[j].0@));
            }
        }
        self.retain_keys(Ghost(keep), mask);
        proof {
            let after = self.map();
            if !dropped {
                assert(after.dom() =~= before.dom()) by {
                    assert forall|k: Seq<Seq<char>>| before.dom().contains(k) implies after.dom().contains(k) by {
                        lemma_entries_map_domain(old(self).entries@, k);
                        let j = choose|j: int| 0 <= j < old(self).entries@.len() && pkey(#[trigger] old(self).entries@[j].0@) == k;
                        assert(keep(pkey(old(self).entries@[j].0@)));
                    }
                }
            } else {
                let j = choose|j: int| 0 <= j < old(self).entries@.len() && !keep(pkey(#[trigger] old(self).entries@[j].0@));
                assert(!after.dom().contains(pkey(old(self).entries@[j].0@)));
            }
        }
        dropped
    }

    /// Stores `v` for `path` (an entry for the same place keeps its path
    /// text and takes the value).
    pub fn insert(&mut self, path: String, v: V)
        requires
            old(self).wf(),
        ensures
            final(self).wf(),
            final(self).map() == old(self).map().insert(pkey(path@), v),
    {
        let ghost e = self.entries@;
        let ghost k = pkey(path@);
        match self.index_of(path.as_str()) {
            Some(i) => {
                let mut entries: Vec<(String, V)> = Vec::new();
                std::mem::swap(&mut entries, &mut self.entries);
                let (key, _) = entries.remove(i);
                entries.insert(i, (key, v));
                let ghost e2 = entries@;
                assert(e2 =~= e.update(i as int, (e[i as int].0, v)));
                proof {
                    lemma_update_same_key(e, i as int, v);
                }
                self.entries = entries;
            },
            None => {
                self.entries.push((path, v));
                proof {
                    assert(self.entries@ =~= e.push((path, v)));
                    assert(self.entries@.drop_last() =~= e);
                    assert forall|a: int, b: int| 0 <= a < self.entries@.len() && 0 <= b < self.entries@.len() && a != b implies pkey(
                        #[trigger] self.entries@[a].0@,
                    ) != pkey(#[trigger] self.entries@[b].0@) by {
                        if a < e.len() && b < e.len() {
                            assert(self.entries@[a] == e[a] && self.entries@[b] == e[b]);
                        } else if a < e.len() {
                            assert(self.entries@[a] == e[a]);
                        } else {
                            assert(self.entries@[b] == e[b]);
                        }
                    }
                }
            },
        }
    }
}

/// Some path among `paths` names the place `k`.
pub open spec fn in_paths(paths: Seq<String>, k: Seq<Seq<char>>) -> bool {
    exists|j: int| 0 <= j < paths.len() && pkey(#[trigger] paths[j]@) == k
}

proof fn lemma_update_same_key<V>(e: Seq<(String, V)>, i: int, v: V)
    requires
        distinct_paths(e),
        0 <= i < e.len(),
    ensures
        distinct_paths(e.update(i, (e[i].0, v))),
        entries_map(e.update(i, (e[i].0, v))) == entries_map(e).insert(pkey(e[i].0@), v),
    decreases e.len(),
{
    let u = e.update(i, (e[i].0, v));
    assert forall|a: int, b: int| 0 <= a < u.len() && 0 <= b < u.len() && a != b implies pkey(#[trigger] u[a].0@) != pkey(
        #[trigger] u[b].0@,
    ) by {
        assert(u[a].0 == e[a].0 && u[b].0 == e[b].0);
    }
    let d = e.drop_last();
    if i == e.len() - 1 {
        assert(u.drop_last() =~= d);
    } else {
        assert(distinct_paths(d)) by {
            assert forall|a: int, b: int| 0 <= a < d.len() && 0 <= b < d.len() && a != b implies pkey(
                #[trigger] d[a].0@,
            ) != pkey(#[trigger] d[b].0@) by {
                assert(d[a] == e[a] && d[b] == e[b]);
            }
        }
        lemma_update_same_key(d, i, v);
        assert(u.drop_last() =~= d.update(i, (d[i].0, v)));
        assert(u.last() == e.last());
        assert(pkey(e.last().0@) != pkey(e[i].0@));
        assert(entries_map(u) =~= entries_map(e).insert(pkey(e[i].0@), v));
    }
}

/// Whether two paths name the same place.
pub fn same_place(a: &str, b: &str) -> (r: bool)
    ensures
        r == (pkey(a@) == pkey(b@)),
{
    comps_same(&path_components_of(a), &path_components_of(b))
}

fn comps_same(a: &Vec<Vec<char>>, b: &Vec<Vec<char>>) -> (r: bool)
    ensures
        r == (comps_view(a@) == comps_view(b@)),
{
    let ghost av = comps_view(a@);
    let ghost bv = comps_view(b@);
    if a.len() != b.len() {
        assert(av.len() != bv.len());
        return false;
    }
    let mut i: usize = 0;
    while i < a.len()
        invariant
            a@.len() == b@.len(),
            i <= a@.len(),
            av == comps_view(a@),
            bv == comps_view(b@),
            forall|k: int| 0 <= k < i ==> av[k] == bv[k],
        decreases a@.len() - i,
    {
        if !chars_eq(&a[i], &b[i]) {
            assert(av[i as int] != bv[i as int]);
            return false;
        }
        i += 1;
    }
    assert(av =~= bv);
    true
}

} // verus!
