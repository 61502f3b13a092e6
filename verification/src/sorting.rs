//! A stable insertion sort over values that carry a total preorder.
use vstd::prelude::*;

verus! {

/// A total preorder on a type, with an executable test.
pub trait TotalPreorder: Sized {
    /// `a` may come before `b`.
    spec fn before(a: Self, b: Self) -> bool;

    /// Any two values are related one way or the other.
    proof fn lemma_total(a: Self, b: Self)
        ensures
            Self::before(a, b) || Self::before(b, a),
    ;

    fn exec_before(a: &Self, b: &Self) -> (r: bool)
        ensures
            r == Self::before(*a, *b),
    ;
}

/// Each value may come before its successor.
pub open spec fn adjacent_sorted<T: TotalPreorder>(s: Seq<T>) -> bool {
    forall|k: int| 0 <= k < s.len() - 1 ==> T::before(#[trigger] s[k], s[k + 1])
}

/// Where `x` goes when inserted into `s[..j]`: after the last value that may
/// come before it.
pub open spec fn scan_pos<T: TotalPreorder>(s: Seq<T>, x: T, j: int) -> int
    decreases j,
{
    if j > 0 && !T::before(s[j - 1], x) {
        scan_pos(s, x, j - 1)
    } else {
        j
    }
}

/// Inserts `x` after the last value of `s` that may come before it.
pub open spec fn insert_sorted<T: TotalPreorder>(s: Seq<T>, x: T) -> Seq<T> {
    s.insert(scan_pos(s, x, s.len() as int), x)
}

/// Stable insertion sort, by value.
pub open spec fn sort_seq<T: TotalPreorder>(s: Seq<T>) -> Seq<T>
    decreases s.len(),
{
    if s.len() == 0 {
        s
    } else {
        insert_sorted(sort_seq(s.drop_last()), s.last())
    }
}

pub proof fn lemma_scan_pos_range<T: TotalPreorder>(s: Seq<T>, x: T, j: int)
    requires
        0 <= j <= s.len(),
    ensures
        0 <= scan_pos(s, x, j) <= j,
    decreases j,
{
    if j > 0 && !T::before(s[j - 1], x) {
        lemma_scan_pos_range(s, x, j - 1);
    }
}

/// Sorts by `T::before`, keeping equal values in their original order.
pub fn sort_stable<T: TotalPreorder>(v: Vec<T>) -> (out: Vec<T>)
    ensures
        out@ == sort_seq(v@),
        out@.to_multiset() == v@.to_multiset(),
        out@.len() == v@.len(),
        adjacent_sorted(out@),
{
    broadcast use vstd::seq_lib::group_to_multiset_ensures;

    let ghost orig = v@;
    let mut rest = v;
    let mut out: Vec<T> = Vec::new();
    let ghost mut taken: int = 0;
    while rest.len() > 0
        invariant
            0 <= taken <= orig.len(),
            rest@ == orig.skip(taken),
            out@.to_multiset() == orig.take(taken).to_multiset(),
            out@ == sort_seq(orig.take(taken)),
            out@.len() == taken,
            adjacent_sorted(out@),
        decreases rest.len(),
    {
        let x = rest.remove(0);
        proof {
            assert(orig.take(taken + 1) =~= orig.take(taken).push(x));
            assert(rest@ =~= orig.skip(taken + 1));
        }
        let mut j = out.len();
        while j > 0 && !T::exec_before(&out[j - 1], &x)
            invariant
                j <= out@.len(),
                forall|k: int| j <= k < out@.len() ==> !T::before(#[trigger] out@[k], x),
                scan_pos(out@, x, j as int) == scan_pos(out@, x, out@.len() as int),
            decreases j,
        {
            j -= 1;
        }
        let ghost before = out@;
        proof {
            if j < before.len() {
                T::lemma_total(before[j as int], x);
            }
        }
        out.insert(j, x);
        proof {
            assert(out@ == before.insert(j as int, x));
            vstd::seq_lib::to_multiset_insert(before, j as int, x);
            vstd::seq_lib::to_multiset_build(orig.take(taken), x);
            assert(orig.take(taken + 1).drop_last() =~= orig.take(taken));
            assert(orig.take(taken + 1).last() == x);
            assert forall|k: int| 0 <= k < out@.len() - 1 implies T::before(
                #[trigger] out@[k],
                out@[k + 1],
            ) by {
                if k < j - 1 {
                    assert(out@[k] == before[k] && out@[k + 1] == before[k + 1]);
                } else if k == j - 1 {
                    assert(out@[k + 1] == x);
                } else if k == j {
                    assert(out@[k + 1] == before[j as int]);
                } else {
                    assert(out@[k] == before[k - 1] && out@[k + 1] == before[k]);
                }
            }
            taken = taken + 1;
        }
    }
    proof {
        assert(orig.take(taken) =~= orig);
    }
    out
}

} // verus!
