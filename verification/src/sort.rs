//! Stable ordering of records by an integer key.
use vstd::prelude::*;

verus! {

/// A record that is ordered by an integer key.
pub trait SortKey: Sized {
    spec fn sort_key(&self) -> int;

    fn key(&self) -> (k: u64)
        ensures
            k as int == self.sort_key(),
    ;
}

/// The records of `s` are in non-decreasing key order.
pub open spec fn sorted_by_key<T: SortKey>(s: Seq<T>) -> bool {
    forall|i: int, j: int| 0 <= i <= j < s.len() ==> s[i].sort_key() <= s[j].sort_key()
}

/// Number of leading records whose key is at most `k` (for a sorted sequence:
/// the position right after the last record with key `<= k`).
pub open spec fn upper_bound<T: SortKey>(s: Seq<T>, k: int) -> nat
    decreases s.len(),
{
    if s.len() == 0 {
        0
    } else if s.last().sort_key() <= k {
        s.len()
    } else {
        upper_bound(s.drop_last(), k)
    }
}

/// The stable sort of `s` by key: each record is placed after every earlier
/// record whose key is not greater than its own.
pub open spec fn stable_sort<T: SortKey>(s: Seq<T>) -> Seq<T>
    decreases s.len(),
{
    if s.len() == 0 {
        Seq::empty()
    } else {
        let r = stable_sort(s.drop_last());
        r.insert(upper_bound(r, s.last().sort_key()) as int, s.last())
    }
}

pub proof fn lemma_upper_bound<T: SortKey>(s: Seq<T>, k: int)
    requires
        sorted_by_key(s),
    ensures
        upper_bound(s, k) <= s.len(),
        forall|i: int| 0 <= i < upper_bound(s, k) ==> s[i].sort_key() <= k,
        forall|i: int| upper_bound(s, k) <= i < s.len() ==> s[i].sort_key() > k,
    decreases s.len(),
{
    if s.len() > 0 {
        if s.last().sort_key() > k {
            let d = s.drop_last();
            assert(sorted_by_key(d));
            lemma_upper_bound(d, k);
            assert forall|i: int| upper_bound(s, k) <= i < s.len() implies s[i].sort_key() > k by {
                if i < d.len() {
                    assert(s[i] == d[i]);
                }
            }
            assert forall|i: int| 0 <= i < upper_bound(s, k) implies s[i].sort_key() <= k by {
                assert(s[i] == d[i]);
            }
        } else {
            assert forall|i: int| 0 <= i < upper_bound(s, k) implies s[i].sort_key() <= k by {
                assert(s[i].sort_key() <= s[s.len() - 1].sort_key());
            }
        }
    }
}

/// The stable sort is ordered by key and holds exactly the records it was given.
pub proof fn lemma_stable_sort<T: SortKey>(s: Seq<T>)
    ensures
        sorted_by_key(stable_sort(s)),
        stable_sort(s).to_multiset() =~= s.to_multiset(),
        stable_sort(s).len() == s.len(),
    decreases s.len(),
{
    broadcast use vstd::seq_lib::group_to_multiset_ensures;
    if s.len() > 0 {
        let r = stable_sort(s.drop_last());
        lemma_stable_sort(s.drop_last());
        let x = s.last();
        let p = upper_bound(r, x.sort_key());
        lemma_upper_bound(r, x.sort_key());
        let q = r.insert(p as int, x);
        assert forall|i: int, j: int| 0 <= i <= j < q.len() implies q[i].sort_key()
            <= q[j].sort_key() by {
            if i < p && j < p {
            } else if i < p && j == p {
            } else if i < p {
                assert(q[j] == r[j - 1]);
            } else if i == p && j == p {
            } else if i == p {
                assert(q[j] == r[j - 1]);
            } else {
                assert(q[i] == r[i - 1]);
                assert(q[j] == r[j - 1]);
            }
        }
        vstd::seq_lib::to_multiset_insert(r, p as int, x);
        assert(s == s.drop_last().push(x));
        vstd::seq_lib::to_multiset_build(s.drop_last(), x);
    }
}

/// Sorts the records by key; records with equal keys keep their order.
pub fn sort_stable_by_key<T: SortKey>(v: Vec<T>) -> (r: Vec<T>)
    ensures
        r@ == stable_sort(v@),
        sorted_by_key(r@),
        r@.to_multiset() =~= v@.to_multiset(),
{
    let ghost orig = v@;
    let mut rest = v;
    let mut out: Vec<T> = Vec::new();
    let n = rest.len();
    let mut i: usize = 0;
    while i < n
        invariant
            0 <= i <= n,
            n == orig.len(),
            rest@ == orig.skip(i as int),
            out@ == stable_sort(orig.take(i as int)),
        decreases n - i,
    {
        let x = rest.remove(0);
        proof {
            lemma_stable_sort(orig.take(i as int));
            assert(orig.take(i as int + 1).drop_last() =~= orig.take(i as int));
            assert(orig.take(i as int + 1).last() == x);
            assert(rest@ =~= orig.skip(i as int + 1));
        }
        let k = x.key();
        let mut j = out.len();
        while j > 0 && out[j - 1].key() > k
            invariant
                0 <= j <= out.len(),
                sorted_by_key(out@),
                forall|t: int| j <= t < out.len() ==> out@[t].sort_key() > k,
            decreases j,
        {
            j = j - 1;
        }
        proof {
            lemma_upper_bound(out@, k as int);
            let ub = upper_bound(out@, k as int);
            if j > 0 {
                assert(out@[j - 1].sort_key() <= k);
            }
            if (j as int) < ub {
                assert(out@[j as int].sort_key() > k);
            }
            if (j as int) > ub {
                assert(out@[ub as int].sort_key() > k);
                assert(out@[j - 1].sort_key() <= k);
                assert(out@[ub as int].sort_key() <= out@[j - 1].sort_key());
            }
        }
        out.insert(j, x);
        i = i + 1;
    }
    proof {
        assert(orig.take(n as int) =~= orig);
        lemma_stable_sort(orig);
    }
    out
}

proof fn lemma_upper_bound_map<T: SortKey, U: SortKey>(s: Seq<T>, f: spec_fn(T) -> U, k: int)
    requires
        forall|x: T| #[trigger] f(x).sort_key() == x.sort_key(),
    ensures
        upper_bound(s.map_values(f), k) == upper_bound(s, k),
    decreases s.len(),
{
    if s.len() > 0 {
        assert(s.map_values(f).drop_last() =~= s.drop_last().map_values(f));
        assert(s.map_values(f).last() == f(s.last()));
        lemma_upper_bound_map(s.drop_last(), f, k);
    }
}

/// Sorting commutes with a map that keeps keys.
pub proof fn lemma_stable_sort_map<T: SortKey, U: SortKey>(s: Seq<T>, f: spec_fn(T) -> U)
    requires
        forall|x: T| #[trigger] f(x).sort_key() == x.sort_key(),
    ensures
        stable_sort(s).map_values(f) == stable_sort(s.map_values(f)),
    decreases s.len(),
{
    if s.len() == 0 {
        assert(stable_sort(s).map_values(f) =~= stable_sort(s.map_values(f)));
    } else {
        let m = s.map_values(f);
        assert(m.drop_last() =~= s.drop_last().map_values(f));
        assert(m.last() == f(s.last()));
        lemma_stable_sort_map(s.drop_last(), f);
        let r = stable_sort(s.drop_last());
        lemma_stable_sort(s.drop_last());
        lemma_upper_bound_map(r, f, s.last().sort_key());
        let p = upper_bound(r, s.last().sort_key()) as int;
        crate::sort::lemma_upper_bound_le(r, s.last().sort_key());
        assert(r.insert(p, s.last()).map_values(f) =~= r.map_values(f).insert(p, f(s.last())));
    }
}

/// The upper bound never passes the end.
pub proof fn lemma_upper_bound_le<T: SortKey>(s: Seq<T>, k: int)
    ensures
        upper_bound(s, k) <= s.len(),
    decreases s.len(),
{
    if s.len() > 0 {
        lemma_upper_bound_le(s.drop_last(), k);
    }
}

} // verus!
