//! Stable insertion sort. The canonical forms of the contract sort names,
//! claims and policies; a stable sort keeps declaration order among equal
//! keys, which is what `slice::sort` / `sort_by` do.
use vstd::prelude::*;
use crate::text::{seq_le, str_le};
use vstd::relations::{sorted_by, total_ordering};

verus! {

/// A type sorted by a key order over its view.
pub trait Ordered: View + Sized {
    spec fn spec_le(a: Self::V, b: Self::V) -> bool;

    fn le(&self, other: &Self) -> (r: bool)
        ensures
            r == Self::spec_le(self@, other@);
}

impl Ordered for String {
    open spec fn spec_le(a: Seq<char>, b: Seq<char>) -> bool {
        seq_le(a, b)
    }

    fn le(&self, other: &Self) -> (r: bool) {
        str_le(self.as_str(), other.as_str())
    }
}

/// `x` placed after every element of `s` (read from the back) that it does
/// not precede: into a sorted `s`, after its last element `<= x`.
pub open spec fn insert_by<T>(s: Seq<T>, x: T, le: spec_fn(T, T) -> bool) -> Seq<T>
    decreases s.len(),
{
    if s.len() == 0 {
        seq![x]
    } else if le(s.last(), x) {
        s.push(x)
    } else {
        insert_by(s.drop_last(), x, le).push(s.last())
    }
}

/// Insertion sort: each element in turn inserted into the sorted prefix.
pub open spec fn isort_by<T>(s: Seq<T>, le: spec_fn(T, T) -> bool) -> Seq<T>
    decreases s.len(),
{
    if s.len() == 0 {
        s
    } else {
        insert_by(isort_by(s.drop_last(), le), s.last(), le)
    }
}

pub open spec fn views_of<T: View>(s: Seq<T>) -> Seq<T::V> {
    s.map_values(|x: T| x@)
}

pub open spec fn le_of<T: Ordered>() -> spec_fn(T::V, T::V) -> bool {
    |a: T::V, b: T::V| T::spec_le(a, b)
}

proof fn lemma_insert_by_at<T>(s: Seq<T>, x: T, le: spec_fn(T, T) -> bool, j: int)
    requires
        0 <= j <= s.len(),
        forall|k: int| j <= k < s.len() ==> !le(#[trigger] s[k], x),
        j == 0 || le(s[j - 1], x),
    ensures
        insert_by(s, x, le) == s.insert(j, x),
    decreases s.len(),
{
    if s.len() == 0 {
        assert(s.insert(j, x) =~= seq![x]);
    } else if le(s.last(), x) {
        assert(j == s.len());
        assert(s.insert(j, x) =~= s.push(x));
    } else {
        let t = s.drop_last();
        assert forall|k: int| j <= k < t.len() implies !le(#[trigger] t[k], x) by {
            assert(t[k] == s[k]);
        }
        if j > 0 {
            assert(t[j - 1] == s[j - 1]);
        }
        lemma_insert_by_at(t, x, le, j);
        assert(t.insert(j, x).push(s.last()) =~= s.insert(j, x));
    }
}

/// The elements of `v`, sorted stably by `T`'s order.
pub fn insertion_sort<T: Ordered>(v: Vec<T>) -> (r: Vec<T>)
    ensures
        views_of(r@) == isort_by(views_of(v@), le_of::<T>()),
{
    let ghost input = views_of(v@);
    let mut out: Vec<T> = Vec::new();
    let mut rest = v;
    let ghost total = rest@;
    assert(total.len() == rest.len());
    let mut taken: usize = 0;
    // Consume `rest` from the front by reversing it once.
    let mut rev: Vec<T> = Vec::new();
    while rest.len() > 0
        invariant
            views_of(rev@) + views_of(rest@).reverse() == views_of(total).reverse(),
        decreases rest@.len(),
    {
        let ghost before_rest = rest@;
        let ghost before_rev = rev@;
        let x = rest.pop().unwrap();
        proof {
            assert(before_rest == rest@.push(x));
            assert(views_of(before_rest) =~= views_of(rest@).push(x@));
            assert(views_of(rest@).push(x@).reverse() =~= seq![x@] + views_of(rest@).reverse());
            assert(views_of(before_rev.push(x)) =~= views_of(before_rev).push(x@));
            assert(views_of(before_rev).push(x@) + views_of(rest@).reverse() =~= views_of(before_rev) + (seq![x@] + views_of(rest@).reverse()));
        }
        rev.push(x);
    }
    assert(views_of(rest@).reverse() =~= Seq::<T::V>::empty());
    assert(views_of(rev@) =~= views_of(total).reverse());
    // `rev` holds the input back to front; pop yields it front to back.
    while rev.len() > 0
        invariant
            total.len() <= usize::MAX,
            taken + rev@.len() == total.len(),
            views_of(rev@) == views_of(total).reverse().subrange(0, rev@.len() as int),
            views_of(out@) == isort_by(views_of(total).take(taken as int), le_of::<T>()),
            input == views_of(total),
        decreases rev@.len(),
    {
        let ghost before_rev = rev@;
        let x = rev.pop().unwrap();
        proof {
            assert(before_rev == rev@.push(x));
            let n = total.len();
            assert(views_of(before_rev)[rev@.len() as int] == x@);
            assert(views_of(total).reverse()[rev@.len() as int] == views_of(total)[n - 1 - rev@.len()]);
            assert(x@ == views_of(total)[taken as int]);
            assert(views_of(rev@) =~= views_of(total).reverse().subrange(0, rev@.len() as int));
        }
        let mut j: usize = out.len();
        while j > 0 && !out[j - 1].le(&x)
            invariant
                j <= out@.len(),
                forall|k: int| j <= k < out@.len() ==> !T::spec_le(#[trigger] views_of(out@)[k], x@),
            decreases j,
        {
            j = j - 1;
        }
        let ghost before_out = out@;
        proof {
            let le = le_of::<T>();
            assert forall|k: int| j <= k < views_of(before_out).len() implies !le(#[trigger] views_of(before_out)[k], x@) by {}
            lemma_insert_by_at(views_of(before_out), x@, le, j as int);
        }
        out.insert(j, x);
        proof {
            assert(views_of(out@) =~= views_of(before_out).insert(j as int, x@));
            let t = views_of(total).take(taken + 1);
            assert(t.drop_last() =~= views_of(total).take(taken as int));
            assert(t.last() == x@);
        }
        taken = taken + 1;
    }
    assert(views_of(total).take(taken as int) =~= views_of(total));
    out
}

/// Inserting into a sorted sequence keeps it sorted, adds exactly `x`, and
/// adds nothing else.
pub proof fn lemma_insert_by<T>(s: Seq<T>, x: T, le: spec_fn(T, T) -> bool)
    requires
        sorted_by(s, le),
        forall|a: T, b: T| #[trigger] le(a, b) || le(b, a),
        forall|a: T, b: T, c: T| #[trigger] le(a, b) && #[trigger] le(b, c) ==> le(a, c),
    ensures
        sorted_by(insert_by(s, x, le), le),
        insert_by(s, x, le).to_multiset() == s.to_multiset().insert(x),
        insert_by(s, x, le).len() == s.len() + 1,
        forall|k: int| 0 <= k < insert_by(s, x, le).len() ==> #[trigger] insert_by(s, x, le)[k] == x || s.contains(insert_by(s, x, le)[k]),
    decreases s.len(),
{
    broadcast use vstd::seq_lib::group_to_multiset_ensures;
    if s.len() == 0 {
        assert(seq![x] =~= Seq::<T>::empty().push(x));
    } else if le(s.last(), x) {
        let r = s.push(x);
        assert forall|i: int, j: int| 0 <= i < j < r.len() implies #[trigger] le(r[i], r[j]) by {
            if j == r.len() - 1 && i < s.len() - 1 {
                assert(le(s[i], s[s.len() - 1]));
            }
        }
        assert forall|k: int| 0 <= k < r.len() implies #[trigger] r[k] == x || s.contains(r[k]) by {
            if k < s.len() {
                assert(s[k] == r[k]);
            }
        }
    } else {
        let d = s.drop_last();
        let last = s.last();
        assert(le(x, last));
        assert(sorted_by(d, le)) by {
            assert forall|i: int, j: int| 0 <= i < j < d.len() implies #[trigger] le(d[i], d[j]) by {
                assert(d[i] == s[i] && d[j] == s[j]);
            }
        }
        lemma_insert_by(d, x, le);
        let t = insert_by(d, x, le);
        let r = t.push(last);
        assert forall|k: int| 0 <= k < t.len() implies #[trigger] le(t[k], last) by {
            if t[k] != x {
                assert(d.contains(t[k]));
                let m = choose|m: int| 0 <= m < d.len() && d[m] == t[k];
                assert(d[m] == s[m]);
                assert(le(s[m], s[s.len() - 1]));
            }
        }
        assert forall|i: int, j: int| 0 <= i < j < r.len() implies #[trigger] le(r[i], r[j]) by {
            if j == r.len() - 1 {
                assert(le(t[i], last));
            } else {
                assert(le(t[i], t[j]));
            }
        }
        assert(d.push(last) =~= s);
        assert forall|k: int| 0 <= k < r.len() implies #[trigger] r[k] == x || s.contains(r[k]) by {
            if k < t.len() {
                if t[k] != x {
                    let m = choose|m: int| 0 <= m < d.len() && d[m] == t[k];
                    assert(s[m] == d[m]);
                }
            } else {
                assert(s[s.len() - 1] == last);
            }
        }
        assert(r.to_multiset() =~= t.to_multiset().insert(last));
        assert(s.to_multiset() =~= d.to_multiset().insert(last));
    }
}

/// Insertion sort sorts, and keeps exactly the elements it was given.
pub proof fn lemma_isort_by<T>(s: Seq<T>, le: spec_fn(T, T) -> bool)
    requires
        forall|a: T, b: T| #[trigger] le(a, b) || le(b, a),
        forall|a: T, b: T, c: T| #[trigger] le(a, b) && #[trigger] le(b, c) ==> le(a, c),
    ensures
        sorted_by(isort_by(s, le), le),
        isort_by(s, le).to_multiset() == s.to_multiset(),
    decreases s.len(),
{
    broadcast use vstd::seq_lib::group_to_multiset_ensures;
    if s.len() > 0 {
        lemma_isort_by(s.drop_last(), le);
        lemma_insert_by(isort_by(s.drop_last(), le), s.last(), le);
        assert(s.drop_last().push(s.last()) =~= s);
    }
}

/// Two sequences with the same elements sort to the same sequence under a
/// total order.
pub proof fn lemma_isort_by_permutation<T>(a: Seq<T>, b: Seq<T>, le: spec_fn(T, T) -> bool)
    requires
        total_ordering(le),
        a.to_multiset() == b.to_multiset(),
    ensures
        isort_by(a, le) == isort_by(b, le),
{
    lemma_isort_by(a, le);
    lemma_isort_by(b, le);
    vstd::seq_lib::lemma_sorted_unique(isort_by(a, le), isort_by(b, le), le);
}

/// String order is a total order.
pub proof fn lemma_string_order_total()
    ensures
        total_ordering(le_of::<String>()),
{
    let le = le_of::<String>();
    assert forall|a: Seq<char>| #[trigger] le(a, a) by {
        crate::text::lemma_seq_le_total(a, a);
    }
    assert forall|a: Seq<char>, b: Seq<char>| #[trigger] le(a, b) && #[trigger] le(b, a) implies a == b by {
        crate::text::lemma_seq_le_total(a, b);
    }
    assert forall|a: Seq<char>, b: Seq<char>, c: Seq<char>| #[trigger] le(a, b) && #[trigger] le(b, c) implies le(a, c) by {
        crate::text::lemma_seq_le_transitive(a, b, c);
    }
    assert forall|a: Seq<char>, b: Seq<char>| #[trigger] le(a, b) || #[trigger] le(b, a) by {
        crate::text::lemma_seq_le_total(a, b);
    }
}

/// Sorted sequences with the same elements are equal where the order is
/// antisymmetric on those elements.
pub proof fn lemma_sorted_unique_on<T>(x: Seq<T>, y: Seq<T>, le: spec_fn(T, T) -> bool)
    requires
        sorted_by(x, le),
        sorted_by(y, le),
        x.to_multiset() == y.to_multiset(),
        forall|a: T, b: T| x.contains(a) && x.contains(b) && #[trigger] le(a, b) && #[trigger] le(b, a) ==> a == b,
    ensures
        x == y,
    decreases x.len(),
{
    broadcast use vstd::seq_lib::group_to_multiset_ensures;
    broadcast use vstd::multiset::group_multiset_axioms;
    vstd::seq_lib::to_multiset_len(x);
    vstd::seq_lib::to_multiset_len(y);
    if x.len() == 0 || y.len() == 0 {
        assert(x.len() == y.len());
        assert(x =~= y);
    } else {
        assert(y.to_multiset().count(y[0]) > 0);
        assert(x.contains(y[0]));
        assert(x.to_multiset().count(x[0]) > 0);
        assert(y.contains(x[0]));
        let i = choose|i: int| 0 <= i < x.len() && x[i] == y[0];
        let j = choose|j: int| 0 <= j < y.len() && y[j] == x[0];
        if i != 0 && j != 0 {
            assert(le(x[0], x[i]));
            assert(le(y[0], y[j]));
            assert(x.contains(x[0]));
        }
        assert(x[0] == y[0]);
        assert(x.drop_first().to_multiset() =~= x.to_multiset().remove(x[0])) by {
            assert(x.remove(0) =~= x.drop_first());
        }
        assert(y.drop_first().to_multiset() =~= y.to_multiset().remove(y[0])) by {
            assert(y.remove(0) =~= y.drop_first());
        }
        let xd = x.drop_first();
        assert forall|a: T, b: T| xd.contains(a) && xd.contains(b) && #[trigger] le(a, b) && #[trigger] le(b, a) implies a == b by {
            let p = choose|p: int| 0 <= p < xd.len() && xd[p] == a;
            let q = choose|q: int| 0 <= q < xd.len() && xd[q] == b;
            assert(x[p + 1] == a && x[q + 1] == b);
        }
        assert(sorted_by(xd, le)) by {
            assert forall|p: int, q: int| 0 <= p < q < xd.len() implies #[trigger] le(xd[p], xd[q]) by {
                assert(le(x[p + 1], x[q + 1]));
            }
        }
        assert(sorted_by(y.drop_first(), le)) by {
            assert forall|p: int, q: int| 0 <= p < q < y.drop_first().len() implies #[trigger] le(y.drop_first()[p], y.drop_first()[q]) by {
                assert(le(y[p + 1], y[q + 1]));
            }
        }
        lemma_sorted_unique_on(xd, y.drop_first(), le);
        assert(x.len() == y.len());
        assert forall|k: int| 0 <= k < x.len() implies x[k] == y[k] by {
            if k > 0 {
                assert(x[k] == xd[k - 1]);
                assert(y[k] == y.drop_first()[k - 1]);
            }
        }
        assert(x =~= y);
    }
}

/// Sorting commutes with a map that keeps the order.
pub proof fn lemma_isort_by_map<T, U>(s: Seq<T>, f: spec_fn(T) -> U, le: spec_fn(T, T) -> bool, le2: spec_fn(U, U) -> bool)
    requires
        forall|a: T, b: T| #[trigger] le(a, b) == le2(f(a), f(b)),
    ensures
        isort_by(s, le).map_values(f) == isort_by(s.map_values(f), le2),
    decreases s.len(),
{
    if s.len() > 0 {
        lemma_isort_by_map(s.drop_last(), f, le, le2);
        assert(s.map_values(f).drop_last() =~= s.drop_last().map_values(f));
        lemma_insert_by_map(isort_by(s.drop_last(), le), s.last(), f, le, le2);
    } else {
        assert(s.map_values(f) =~= Seq::<U>::empty());
        assert(isort_by(s, le).map_values(f) =~= Seq::<U>::empty());
    }
}

proof fn lemma_insert_by_map<T, U>(s: Seq<T>, x: T, f: spec_fn(T) -> U, le: spec_fn(T, T) -> bool, le2: spec_fn(U, U) -> bool)
    requires
        forall|a: T, b: T| #[trigger] le(a, b) == le2(f(a), f(b)),
    ensures
        insert_by(s, x, le).map_values(f) == insert_by(s.map_values(f), f(x), le2),
    decreases s.len(),
{
    if s.len() == 0 {
        assert(seq![x].map_values(f) =~= seq![f(x)]);
    } else {
        assert(s.map_values(f).last() == f(s.last()));
        assert(le(s.last(), x) == le2(f(s.last()), f(x)));
        assert(s.map_values(f).drop_last() =~= s.drop_last().map_values(f));
        if le(s.last(), x) {
            assert(s.push(x).map_values(f) =~= s.map_values(f).push(f(x)));
        } else {
            lemma_insert_by_map(s.drop_last(), x, f, le, le2);
            assert(insert_by(s.drop_last(), x, le).push(s.last()).map_values(f) =~= insert_by(s.drop_last(), x, le).map_values(f).push(f(s.last())));
        }
    }
}

/// Permutations sort to the same sequence where the order is total on keys
/// and no two of the elements share a key.
pub proof fn lemma_isort_by_unique_keys<T>(a: Seq<T>, b: Seq<T>, le: spec_fn(T, T) -> bool)
    requires
        forall|x: T, y: T| #[trigger] le(x, y) || le(y, x),
        forall|x: T, y: T, z: T| #[trigger] le(x, y) && #[trigger] le(y, z) ==> le(x, z),
        a.to_multiset() == b.to_multiset(),
        forall|x: T, y: T| a.contains(x) && a.contains(y) && #[trigger] le(x, y) && #[trigger] le(y, x) ==> x == y,
    ensures
        isort_by(a, le) == isort_by(b, le),
{
    broadcast use vstd::seq_lib::group_to_multiset_ensures;
    lemma_isort_by(a, le);
    lemma_isort_by(b, le);
    let x = isort_by(a, le);
    assert forall|u: T, v: T| x.contains(u) && x.contains(v) && #[trigger] le(u, v) && #[trigger] le(v, u) implies u == v by {
        assert(x.to_multiset().count(u) > 0);
        assert(x.to_multiset().count(v) > 0);
        assert(a.contains(u));
        assert(a.contains(v));
    }
    lemma_sorted_unique_on(x, isort_by(b, le), le);
}

/// Sorting what is already sorted changes nothing.
pub proof fn lemma_isort_by_sorted<T>(s: Seq<T>, le: spec_fn(T, T) -> bool)
    requires
        sorted_by(s, le),
    ensures
        isort_by(s, le) == s,
    decreases s.len(),
{
    if s.len() > 0 {
        let d = s.drop_last();
        assert forall|i: int, j: int| 0 <= i < j < d.len() implies le(d[i], d[j]) by {
            assert(d[i] == s[i] && d[j] == s[j]);
        }
        lemma_isort_by_sorted(d, le);
        if d.len() > 0 {
            assert(le(s[d.len() - 1], s[s.len() - 1]));
            assert(d.last() == s[d.len() - 1]);
        } else {
            assert(seq![s.last()] =~= s);
        }
        assert(d.push(s.last()) =~= s);
    }
}

/// Sorting twice sorts once, for a total preorder.
pub proof fn lemma_isort_by_twice<T>(s: Seq<T>, le: spec_fn(T, T) -> bool)
    requires
        forall|a: T, b: T| #[trigger] le(a, b) || le(b, a),
        forall|a: T, b: T, c: T| #[trigger] le(a, b) && #[trigger] le(b, c) ==> le(a, c),
    ensures
        isort_by(isort_by(s, le), le) == isort_by(s, le),
{
    lemma_isort_by(s, le);
    lemma_isort_by_sorted(isort_by(s, le), le);
}

} // verus!
