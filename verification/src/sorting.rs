//! Stable insertion sort and adjacent deduplication over a total
//! preorder, used to bring every declared collection into canonical
//! order.

use vstd::prelude::*;

verus! {

broadcast use vstd::seq_lib::group_to_multiset_ensures;

/// A total preorder with an executable comparison.
pub trait Ordered: Sized {
    /// `self` sorts no later than `other`.
    spec fn spec_le(&self, other: &Self) -> bool;

    /// Any two members are comparable.
    proof fn lemma_total(a: &Self, b: &Self)
        ensures
            a.spec_le(b) || b.spec_le(a),
    ;

    /// The order is transitive.
    proof fn lemma_transitive(a: &Self, b: &Self, c: &Self)
        requires
            a.spec_le(b),
            b.spec_le(c),
        ensures
            a.spec_le(c),
    ;

    /// Compare two members.
    fn le(&self, other: &Self) -> (r: bool)
        ensures
            r == self.spec_le(other),
    ;
}

/// Non-decreasing order.
pub open spec fn sorted<T: Ordered>(s: Seq<T>) -> bool {
    forall|i: int, j: int| 0 <= i < j < s.len() ==> #[trigger] s[i].spec_le(&#[trigger] s[j])
}

/// Sort stably into non-decreasing order; the result is a permutation
/// of the input.
pub fn sort<T: Ordered>(v: Vec<T>) -> (r: Vec<T>)
    ensures
        sorted(r@),
        r@.to_multiset() == v@.to_multiset(),
        r@.len() == v@.len(),
{
    let mut out: Vec<T> = Vec::new();
    let mut rest = v;
    let ghost original = rest@;
    let mut taken: usize = 0;
    let total = rest.len();
    proof {
        assert(original.subrange(0, 0) =~= Seq::<T>::empty());
    }
    while rest.len() > 0
        invariant
            taken + rest@.len() == original.len(),
            original.len() == total,
            rest@ == original.subrange(taken as int, original.len() as int),
            sorted(out@),
            out@.to_multiset() == original.subrange(0, taken as int).to_multiset(),
            out@.len() == taken,
        decreases rest@.len(),
    {
        let x = rest.remove(0);
        proof {
            assert(original[taken as int] == x);
            assert(rest@ =~= original.subrange(taken + 1, original.len() as int));
        }
        let mut p: usize = 0;
        while p < out.len() && out[p].le(&x)
            invariant
                p <= out@.len(),
                sorted(out@),
                forall|q: int| 0 <= q < p ==> #[trigger] out@[q].spec_le(&x),
            decreases out@.len() - p,
        {
            p = p + 1;
        }
        proof {
            if p < out@.len() {
                T::lemma_total(&out@[p as int], &x);
            }
            assert forall|q: int| p <= q < out@.len() implies x.spec_le(&#[trigger] out@[q]) by {
                T::lemma_total(&out@[p as int], &x);
                if q > p {
                    T::lemma_transitive(&x, &out@[p as int], &out@[q]);
                }
            }
        }
        let ghost before = out@;
        out.insert(p, x);
        proof {
            assert(out@ =~= before.insert(p as int, x));
            assert forall|i: int, j: int| 0 <= i < j < out@.len() implies #[trigger] out@[i].spec_le(&#[trigger] out@[j]) by {
                if i < p && j < p {
                    assert(out@[i] == before[i] && out@[j] == before[j]);
                } else if i < p && j == p {
                    assert(out@[i] == before[i]);
                } else if i < p && j > p {
                    assert(out@[i] == before[i] && out@[j] == before[j - 1]);
                    assert(before[i].spec_le(&x));
                    assert(x.spec_le(&before[j - 1]));
                    T::lemma_transitive(&before[i], &x, &before[j - 1]);
                } else if i == p {
                    assert(out@[j] == before[j - 1]);
                } else {
                    assert(out@[i] == before[i - 1] && out@[j] == before[j - 1]);
                }
            }
            assert(original.subrange(0, taken + 1) =~= original.subrange(0, taken as int).push(x));
        }
        taken = taken + 1;
    }
    proof {
        assert(original.subrange(0, original.len() as int) =~= original);
    }
    out
}


/// Strictly increasing order: no two members are equivalent.
pub open spec fn strictly_sorted<T: Ordered>(s: Seq<T>) -> bool {
    forall|i: int, j: int| 0 <= i < j < s.len() ==> #[trigger] s[i].spec_le(&#[trigger] s[j]) && !s[j].spec_le(&s[i])
}

/// Two members sort together.
pub open spec fn equivalent<T: Ordered>(a: T, b: T) -> bool {
    a.spec_le(&b) && b.spec_le(&a)
}

/// `x` is equivalent to some member of `out`.
pub open spec fn covered<T: Ordered>(out: Seq<T>, x: T) -> bool {
    exists|i: int| 0 <= i < out.len() && #[trigger] equivalent(out[i], x)
}

/// Every member of `input` is equivalent to some member of `out`.
pub open spec fn covers<T: Ordered>(out: Seq<T>, input: Seq<T>) -> bool {
    forall|j: int| 0 <= j < input.len() ==> #[trigger] covered(out, input[j])
}

/// Two positions of a sorted list are in order.
pub proof fn lemma_sorted_at<T: Ordered>(s: Seq<T>, a: int, b: int)
    requires
        sorted(s),
        0 <= a < b < s.len(),
    ensures
        s[a].spec_le(&s[b]),
{
}

/// Two positions of a strictly sorted list are strictly in order.
pub proof fn lemma_strictly_sorted_at<T: Ordered>(s: Seq<T>, a: int, b: int)
    requires
        strictly_sorted(s),
        0 <= a < b < s.len(),
    ensures
        s[a].spec_le(&s[b]),
        !s[b].spec_le(&s[a]),
{
    assert(s[a].spec_le(&s[b]));
}

/// Keep the first of each run of equivalent members of a sorted list.
pub fn dedup<T: Ordered>(v: Vec<T>) -> (r: Vec<T>)
    requires
        sorted(v@),
    ensures
        strictly_sorted(r@),
        forall|i: int| 0 <= i < r@.len() ==> v@.contains(#[trigger] r@[i]),
        covers(r@, v@),
        r@.len() <= v@.len(),
{
    let mut out: Vec<T> = Vec::new();
    let mut rest = v;
    let ghost original = rest@;
    let total = rest.len();
    let mut taken: usize = 0;
    while rest.len() > 0
        invariant
            taken + rest@.len() == original.len(),
            original.len() == total,
            rest@ == original.subrange(taken as int, original.len() as int),
            sorted(original),
            strictly_sorted(out@),
            out@.len() <= taken,
            forall|i: int| 0 <= i < out@.len() ==> original.contains(#[trigger] out@[i]),
            forall|j: int| 0 <= j < taken ==> #[trigger] covered(out@, original[j]),
            taken > 0 ==> out@.len() > 0 && equivalent(out@.last(), original[taken - 1]),
            out@.len() > 0 ==> taken > 0,
        decreases rest@.len(),
    {
        let x = rest.remove(0);
        proof {
            assert(original[taken as int] == x);
            assert(rest@ =~= original.subrange(taken + 1, original.len() as int));
        }
        let n = out.len();
        let fresh = n == 0 || !x.le(&out[n - 1]);
        if fresh {
            let ghost before = out@;
            proof {
                if n > 0 {
                    let last = before.last();
                    assert(original[taken - 1].spec_le(&x));
                    T::lemma_total(&x, &last);
                    T::lemma_transitive(&last, &original[taken - 1], &x);
                    assert forall|i: int| 0 <= i < n implies before[i].spec_le(&x) && !x.spec_le(&before[i]) by {
                        if i < n - 1 {
                            T::lemma_transitive(&before[i], &last, &x);
                            if x.spec_le(&before[i]) {
                                T::lemma_transitive(&x, &before[i], &last);
                            }
                        }
                    }
                }
            }
            out.push(x);
            proof {
                T::lemma_total(&x, &x);
                assert(out@[n as int] == x);
                assert forall|i: int, j: int| 0 <= i < j < out@.len() implies #[trigger] out@[i].spec_le(&#[trigger] out@[j]) && !out@[j].spec_le(&out@[i]) by {
                    if j < n {
                        assert(out@[i] == before[i] && out@[j] == before[j]);
                    } else {
                        assert(out@[i] == before[i]);
                    }
                }
                assert forall|i: int| 0 <= i < out@.len() implies original.contains(#[trigger] out@[i]) by {
                    if i < n {
                        assert(out@[i] == before[i]);
                    } else {
                        assert(original[taken as int] == out@[i]);
                    }
                }
                assert forall|j: int| 0 <= j < taken + 1 implies #[trigger] covered(out@, original[j]) by {
                    if j < taken {
                        assert(covered(before, original[j]));
                        let i = choose|i: int| 0 <= i < before.len() && #[trigger] equivalent(before[i], original[j]);
                        assert(out@[i] == before[i]);
                        assert(equivalent(out@[i], original[j]));
                    } else {
                        T::lemma_total(&x, &x);
                        assert(equivalent(out@[n as int], original[j]));
                    }
                }
            }
        } else {
            proof {
                let last = out@.last();
                assert(original[taken - 1].spec_le(&x));
                T::lemma_transitive(&last, &original[taken - 1], &x);
                assert(equivalent(last, x));
                assert forall|j: int| 0 <= j < taken + 1 implies #[trigger] covered(out@, original[j]) by {
                    if j == taken {
                        assert(equivalent(out@[n - 1], original[j]));
                    }
                }
            }
        }
        taken = taken + 1;
    }
    out
}


/// Covering carries over to any permutation of the covered list.
pub proof fn lemma_covers_permutation<T: Ordered>(out: Seq<T>, a: Seq<T>, b: Seq<T>)
    requires
        covers(out, a),
        a.to_multiset() == b.to_multiset(),
    ensures
        covers(out, b),
{
    assert forall|j: int| 0 <= j < b.len() implies #[trigger] covered(out, b[j]) by {
        assert(b.contains(b[j]));
        assert(b.to_multiset().count(b[j]) > 0);
        assert(a.contains(b[j]));
        let k = choose|k: int| 0 <= k < a.len() && a[k] == b[j];
        assert(covered(out, a[k]));
    }
}

/// Sort, then keep one member of each run of equivalent members.
pub fn sort_dedup<T: Ordered>(v: Vec<T>) -> (r: Vec<T>)
    ensures
        strictly_sorted(r@),
        forall|i: int| 0 <= i < r@.len() ==> v@.contains(#[trigger] r@[i]),
        covers(r@, v@),
        r@.len() <= v@.len(),
{
    let ghost original = v@;
    let s = sort(v);
    let ghost sorted_view = s@;
    let r = dedup(s);
    proof {
        assert forall|i: int| 0 <= i < r@.len() implies original.contains(#[trigger] r@[i]) by {
            assert(sorted_view.contains(r@[i]));
            assert(sorted_view.to_multiset().count(r@[i]) > 0);
        }
        lemma_covers_permutation(r@, sorted_view, original);
    }
    r
}


/// Two distinct positions of `s` hold members equivalent to `x`.
pub open spec fn pair_like<T: Ordered>(s: Seq<T>, x: T) -> bool {
    exists|i: int, j: int| 0 <= i < j < s.len() && #[trigger] equivalent(s[i], x) && #[trigger] equivalent(s[j], x)
}

/// A member occurring at two distinct positions occurs twice in the
/// multiset.
pub(crate) proof fn lemma_two_positions_count<T>(s: Seq<T>, i: int, j: int)
    requires
        0 <= i < j < s.len(),
        s[i] == s[j],
    ensures
        s.to_multiset().count(s[i]) >= 2,
{
    broadcast use vstd::multiset::group_multiset_axioms;
    let s0 = s.subrange(0, j);
    let s1 = s.subrange(j, s.len() as int);
    assert(s =~= s0 + s1);
    vstd::seq_lib::lemma_multiset_commutative(s0, s1);
    assert(s0[i] == s[i]);
    assert(s0.contains(s[i]));
    assert(s1[0] == s[j]);
    assert(s1.contains(s[i]));
}

/// A member occurring twice in the multiset occurs at two distinct
/// positions.
pub(crate) proof fn lemma_count_two_positions<T>(s: Seq<T>, x: T) -> (ij: (int, int))
    requires
        s.to_multiset().count(x) >= 2,
    ensures
        0 <= ij.0 < ij.1 < s.len(),
        s[ij.0] == x,
        s[ij.1] == x,
{
    broadcast use vstd::multiset::group_multiset_axioms;
    assert(s.contains(x));
    let k = choose|k: int| 0 <= k < s.len() && s[k] == x;
    let r = s.remove(k);
    assert(r.to_multiset() =~= s.to_multiset().remove(s[k]));
    assert(r.to_multiset().count(x) >= 1);
    assert(r.contains(x));
    let m = choose|m: int| 0 <= m < r.len() && r[m] == x;
    if m < k {
        assert(s[m] == r[m]);
        (m, k)
    } else {
        assert(s[m + 1] == r[m]);
        (k, m + 1)
    }
}

/// Pairs of members equivalent to `x` survive any permutation.
pub proof fn lemma_pair_like_permutation<T: Ordered>(a: Seq<T>, b: Seq<T>, x: T)
    requires
        a.to_multiset() == b.to_multiset(),
        pair_like(a, x),
    ensures
        pair_like(b, x),
{
    let (i, j) = choose|i: int, j: int| 0 <= i < j < a.len() && #[trigger] equivalent(a[i], x) && #[trigger] equivalent(a[j], x);
    assert(a.contains(a[i]));
    assert(a.contains(a[j]));
    assert(a.to_multiset().count(a[i]) > 0);
    assert(a.to_multiset().count(a[j]) > 0);
    assert(b.contains(a[i]));
    assert(b.contains(a[j]));
    if a[i] == a[j] {
        lemma_two_positions_count(a, i, j);
        let (p, q) = lemma_count_two_positions(b, a[i]);
        assert(equivalent(b[p], x) && equivalent(b[q], x));
    } else {
        let p = choose|p: int| 0 <= p < b.len() && b[p] == a[i];
        let q = choose|q: int| 0 <= q < b.len() && b[q] == a[j];
        assert(p != q);
        if p < q {
            assert(equivalent(b[p], x) && equivalent(b[q], x));
        } else {
            assert(equivalent(b[q], x) && equivalent(b[p], x));
        }
    }
}

/// A strictly sorted list has no two equivalent members.
pub proof fn lemma_strictly_sorted_no_pair<T: Ordered>(s: Seq<T>, x: T)
    requires
        strictly_sorted(s),
    ensures
        !pair_like(s, x),
{
    if pair_like(s, x) {
        let (i, j) = choose|i: int, j: int| 0 <= i < j < s.len() && #[trigger] equivalent(s[i], x) && #[trigger] equivalent(s[j], x);
        assert(s[i].spec_le(&s[j]) && !s[j].spec_le(&s[i]));
        T::lemma_transitive(&s[j], &x, &s[i]);
    }
}


/// The first position `p` of a sorted list where `s[p]` and `s[p + 1]`
/// are equivalent; `None` when the list is strictly sorted.
pub fn first_adjacent_pair<T: Ordered>(s: &Vec<T>) -> (r: Option<usize>)
    requires
        sorted(s@),
    ensures
        match r {
            Some(p) => p + 1 < s@.len() && equivalent(s@[p as int], s@[p + 1]),
            None => strictly_sorted(s@),
        },
{
    if s.len() < 2 {
        return None;
    }
    let mut p: usize = 0;
    while p < s.len() - 1
        invariant
            s@.len() >= 2,
            sorted(s@),
            forall|k: int| 0 <= k < p && k + 1 < s@.len() ==> !#[trigger] s@[k + 1].spec_le(&s@[k]),
        decreases s@.len() - p,
    {
        if s[p + 1].le(&s[p]) {
            assert(s@[p as int].spec_le(&s@[p + 1]));
            return Some(p);
        }
        p = p + 1;
    }
    proof {
        assert forall|i: int, j: int| 0 <= i < j < s@.len() implies #[trigger] s@[i].spec_le(&#[trigger] s@[j]) && !s@[j].spec_le(&s@[i]) by {
            if s@[j].spec_le(&s@[i]) {
                if i + 1 < j {
                    T::lemma_transitive(&s@[i + 1], &s@[j], &s@[i]);
                }
                assert(s@[i + 1].spec_le(&s@[i]));
            }
        }
    }
    None
}

} // verus!
