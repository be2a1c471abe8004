//! A stable sort over any total preorder.

use vstd::prelude::*;

verus! {

/// A type whose values are ranked by a total preorder.
pub trait Ranked: Sized {
    /// `self` may stand before `other`.
    spec fn at_most(self, other: Self) -> bool;

    /// Any two values are comparable.
    proof fn at_most_total(a: Self, b: Self)
        ensures
            a.at_most(b) || b.at_most(a),
    ;

    /// The order is transitive.
    proof fn at_most_transitive(a: Self, b: Self, c: Self)
        requires
            a.at_most(b),
            b.at_most(c),
        ensures
            a.at_most(c),
    ;

    /// Whether `self` may stand before `other`.
    fn is_at_most(&self, other: &Self) -> (r: bool)
        ensures
            r == self.at_most(*other),
    ;
}

/// `s` with `x` placed behind the last element that may stand before it.
pub open spec fn placed<T: Ranked>(s: Seq<T>, x: T) -> Seq<T>
    decreases s.len(),
{
    if s.len() == 0 || s.last().at_most(x) {
        s.push(x)
    } else {
        placed(s.drop_last(), x).push(s.last())
    }
}

/// The elements of `s` in rank order; elements of one rank keep the order they had.
pub open spec fn ranked<T: Ranked>(s: Seq<T>) -> Seq<T>
    decreases s.len(),
{
    if s.len() == 0 {
        s
    } else {
        placed(ranked(s.drop_last()), s.last())
    }
}

/// Every element may stand before each one behind it.
pub open spec fn in_rank_order<T: Ranked>(s: Seq<T>) -> bool {
    forall|i: int, j: int| 0 <= i < j < s.len() ==> (#[trigger] s[i]).at_most(#[trigger] s[j])
}

/// Placing an element keeps the multiset of the others.
proof fn lemma_placed_multiset<T: Ranked>(s: Seq<T>, x: T)
    ensures
        placed(s, x).len() == s.len() + 1,
        placed(s, x).to_multiset() == s.to_multiset().insert(x),
    decreases s.len(),
{
    broadcast use vstd::seq_lib::group_to_multiset_ensures;

    if s.len() == 0 || s.last().at_most(x) {
    } else {
        lemma_placed_multiset(s.drop_last(), x);
        assert(s =~= s.drop_last().push(s.last()));
        assert(placed(s, x).to_multiset() =~= s.to_multiset().insert(x));
    }
}

/// Placing an element in a sequence that is in order leaves it in order.
proof fn lemma_placed_in_order<T: Ranked>(s: Seq<T>, x: T)
    requires
        in_rank_order(s),
    ensures
        in_rank_order(placed(s, x)),
        forall|i: int|
            0 <= i <= s.len() ==> #[trigger] placed(s, x)[i] == x || s.contains(placed(s, x)[i]),
    decreases s.len(),
{
    lemma_placed_multiset(s, x);
    if s.len() == 0 || s.last().at_most(x) {
        assert forall|i: int, j: int| 0 <= i < j < s.push(x).len() implies (#[trigger] s.push(
            x,
        )[i]).at_most(#[trigger] s.push(x)[j]) by {
            if j == s.len() && i < s.len() - 1 {
                T::at_most_transitive(s[i], s.last(), x);
            }
        }
        assert forall|i: int| 0 <= i <= s.len() implies #[trigger] placed(s, x)[i] == x
            || s.contains(placed(s, x)[i]) by {
            if i < s.len() {
                assert(s[i] == placed(s, x)[i]);
            }
        }
    } else {
        let t = s.drop_last();
        let p = placed(t, x);
        lemma_placed_in_order(t, x);
        lemma_placed_multiset(t, x);
        let q = p.push(s.last());
        assert forall|i: int| 0 <= i < p.len() implies (#[trigger] p[i]).at_most(s.last()) by {
            if p[i] == x {
                T::at_most_total(s.last(), x);
            } else {
                let k = choose|k: int| 0 <= k < t.len() && t[k] == p[i];
                assert(s[k] == p[i]);
                assert(s[k].at_most(s[s.len() - 1]));
            }
        }
        assert forall|i: int| 0 <= i <= s.len() implies #[trigger] q[i] == x || s.contains(q[i]) by {
            if i < p.len() {
                assert(q[i] == p[i]);
                if p[i] != x {
                    let k = choose|k: int| 0 <= k < t.len() && t[k] == p[i];
                    assert(s[k] == p[i]);
                }
            } else {
                assert(s[s.len() - 1] == q[i]);
            }
        }
    }
}

/// Ranking changes neither how many elements there are nor which.
pub proof fn ranked_is_permutation<T: Ranked>(s: Seq<T>)
    ensures
        ranked(s).len() == s.len(),
        ranked(s).to_multiset() == s.to_multiset(),
    decreases s.len(),
{
    broadcast use vstd::seq_lib::group_to_multiset_ensures;

    if s.len() > 0 {
        ranked_is_permutation(s.drop_last());
        lemma_placed_multiset(ranked(s.drop_last()), s.last());
        assert(s =~= s.drop_last().push(s.last()));
    }
}

/// Ranking puts every element before those it precedes.
pub proof fn ranked_is_in_order<T: Ranked>(s: Seq<T>)
    ensures
        in_rank_order(ranked(s)),
    decreases s.len(),
{
    if s.len() > 0 {
        ranked_is_in_order(s.drop_last());
        lemma_placed_in_order(ranked(s.drop_last()), s.last());
    }
}

/// An element stands in the ranked sequence exactly where it stands in the given one.
pub proof fn ranked_contains<T: Ranked>(s: Seq<T>, x: T)
    ensures
        ranked(s).contains(x) == s.contains(x),
{
    broadcast use vstd::seq_lib::group_to_multiset_ensures;

    ranked_is_permutation(s);
    assert(ranked(s).contains(x) == (ranked(s).to_multiset().count(x) > 0));
    assert(s.contains(x) == (s.to_multiset().count(x) > 0));
}

/// Where `placed` puts the element.
proof fn lemma_placed_at<T: Ranked>(s: Seq<T>, x: T, k: int)
    requires
        0 <= k <= s.len(),
        k > 0 ==> s[k - 1].at_most(x),
        forall|j: int| k <= j < s.len() ==> !(#[trigger] s[j]).at_most(x),
    ensures
        placed(s, x) == s.insert(k, x),
    decreases s.len(),
{
    if k == s.len() {
        assert(s.insert(k, x) =~= s.push(x));
    } else {
        let t = s.drop_last();
        assert forall|j: int| k <= j < t.len() implies !(#[trigger] t[j]).at_most(x) by {
            assert(t[j] == s[j]);
        }
        lemma_placed_at(t, x, k);
        assert(!s[s.len() - 1].at_most(x));
        assert(t.insert(k, x).push(s.last()) =~= s.insert(k, x));
    }
}

/// Sorts by rank; elements of one rank keep the order they had.
pub fn stable_sort<T: Ranked>(items: Vec<T>) -> (r: Vec<T>)
    ensures
        r@ == ranked(items@),
{
    let ghost all = items@;
    let mut r: Vec<T> = Vec::new();
    for x in it: items
        invariant
            it.seq() == all,
            r@ == ranked(all.take(it.index())),
    {
        let mut k: usize = r.len();
        while k > 0 && !r[k - 1].is_at_most(&x)
            invariant
                k <= r@.len(),
                forall|j: int| k <= j < r@.len() ==> !(#[trigger] r@[j]).at_most(x),
            decreases k,
        {
            k -= 1;
        }
        proof {
            lemma_placed_at(r@, x, k as int);
            assert(all.take(it.index() + 1).drop_last() =~= all.take(it.index()));
            assert(all.take(it.index() + 1).last() == x);
        }
        r.insert(k, x);
    }
    assert(all.take(all.len() as int) =~= all);
    r
}

/// `s` with `x` placed behind the last element that may stand before it.
pub open spec fn placed_by<A>(s: Seq<A>, x: A, at_most: spec_fn(A, A) -> bool) -> Seq<A>
    decreases s.len(),
{
    if s.len() == 0 || at_most(s.last(), x) {
        s.push(x)
    } else {
        placed_by(s.drop_last(), x, at_most).push(s.last())
    }
}

/// The elements of `s` in the order of a preorder; equal elements keep the order they had.
pub open spec fn ranked_by<A>(s: Seq<A>, at_most: spec_fn(A, A) -> bool) -> Seq<A>
    decreases s.len(),
{
    if s.len() == 0 {
        s
    } else {
        placed_by(ranked_by(s.drop_last(), at_most), s.last(), at_most)
    }
}

proof fn lemma_placed_view<T: Ranked, A>(
    s: Seq<T>,
    x: T,
    f: spec_fn(T) -> A,
    at_most: spec_fn(A, A) -> bool,
)
    requires
        forall|a: T, b: T| #[trigger] at_most(f(a), f(b)) == a.at_most(b),
    ensures
        placed(s, x).map_values(f) == placed_by(s.map_values(f), f(x), at_most),
    decreases s.len(),
{
    let t = s.map_values(f);
    if s.len() == 0 || s.last().at_most(x) {
        if s.len() > 0 {
            assert(t.last() == f(s.last()));
            assert(at_most(f(s.last()), f(x)));
        }
        assert(s.push(x).map_values(f) =~= t.push(f(x)));
    } else {
        assert(t.last() == f(s.last()));
        assert(!at_most(f(s.last()), f(x)));
        lemma_placed_view(s.drop_last(), x, f, at_most);
        assert(s.drop_last().map_values(f) =~= t.drop_last());
        let p = placed(s.drop_last(), x);
        assert(p.push(s.last()).map_values(f) =~= p.map_values(f).push(t.last()));
    }
}

/// Sorting and then looking is looking and then sorting.
pub proof fn lemma_ranked_view<T: Ranked, A>(
    s: Seq<T>,
    f: spec_fn(T) -> A,
    at_most: spec_fn(A, A) -> bool,
)
    requires
        forall|a: T, b: T| #[trigger] at_most(f(a), f(b)) == a.at_most(b),
    ensures
        ranked(s).map_values(f) == ranked_by(s.map_values(f), at_most),
    decreases s.len(),
{
    if s.len() == 0 {
        assert(s.map_values(f) =~= Seq::<A>::empty());
    } else {
        lemma_ranked_view(s.drop_last(), f, at_most);
        lemma_placed_view(ranked(s.drop_last()), s.last(), f, at_most);
        assert(s.map_values(f).drop_last() =~= s.drop_last().map_values(f));
        assert(s.map_values(f).last() == f(s.last()));
    }
}

proof fn lemma_placed_by_holds<A>(s: Seq<A>, x: A, at_most: spec_fn(A, A) -> bool, y: A)
    ensures
        placed_by(s, x, at_most).len() == s.len() + 1,
        placed_by(s, x, at_most).contains(y) <==> y == x || s.contains(y),
    decreases s.len(),
{
    let r = placed_by(s, x, at_most);
    if s.len() == 0 || at_most(s.last(), x) {
        assert(r[s.len() as int] == x);
        if s.contains(y) {
            let i = choose|i: int| 0 <= i < s.len() && s[i] == y;
            assert(r[i] == y);
        }
        if r.contains(y) {
            let i = choose|i: int| 0 <= i < r.len() && r[i] == y;
            if i < s.len() {
                assert(s[i] == y);
            }
        }
    } else {
        let front = s.drop_last();
        let inner = placed_by(front, x, at_most);
        lemma_placed_by_holds(front, x, at_most, y);
        if r.contains(y) {
            let i = choose|i: int| 0 <= i < r.len() && r[i] == y;
            if i < inner.len() {
                assert(inner[i] == y);
                if y != x {
                    let j = choose|j: int| 0 <= j < front.len() && front[j] == y;
                    assert(s[j] == y);
                }
            } else {
                assert(s[s.len() - 1] == y);
            }
        }
        if y == x || s.contains(y) {
            if y == x || front.contains(y) {
                let i = choose|i: int| 0 <= i < inner.len() && inner[i] == y;
                assert(r[i] == y);
            } else {
                let i = choose|i: int| 0 <= i < s.len() && s[i] == y;
                assert(i == s.len() - 1) by {
                    if i < s.len() - 1 {
                        assert(front[i] == y);
                    }
                }
                assert(r[inner.len() as int] == y);
            }
        }
    }
}

/// Sorting keeps what is sorted: no element is lost, and none is added.
pub proof fn ranked_by_contains<A>(s: Seq<A>, at_most: spec_fn(A, A) -> bool, y: A)
    ensures
        ranked_by(s, at_most).len() == s.len(),
        ranked_by(s, at_most).contains(y) == s.contains(y),
    decreases s.len(),
{
    if s.len() > 0 {
        let front = s.drop_last();
        ranked_by_contains(front, at_most, y);
        lemma_placed_by_holds(ranked_by(front, at_most), s.last(), at_most, y);
        if s.contains(y) {
            let i = choose|i: int| 0 <= i < s.len() && s[i] == y;
            if i < front.len() {
                assert(front[i] == y);
            }
        }
        if front.contains(y) {
            let i = choose|i: int| 0 <= i < front.len() && front[i] == y;
            assert(s[i] == y);
        }
        assert(s[s.len() - 1] == s.last());
    }
}

proof fn lemma_placed_by_in_order<A>(s: Seq<A>, x: A, at_most: spec_fn(A, A) -> bool)
    requires
        forall|a: A, b: A| #[trigger] at_most(a, b) || at_most(b, a),
        forall|a: A, b: A, c: A|
            #[trigger] at_most(a, b) && #[trigger] at_most(b, c) ==> at_most(a, c),
        forall|i: int, j: int| 0 <= i < j < s.len() ==> at_most(#[trigger] s[i], #[trigger] s[j]),
    ensures
        ({
            let r = placed_by(s, x, at_most);
            forall|i: int, j: int|
                0 <= i < j < r.len() ==> at_most(#[trigger] r[i], #[trigger] r[j])
        }),
    decreases s.len(),
{
    let r = placed_by(s, x, at_most);
    if s.len() == 0 || at_most(s.last(), x) {
        assert forall|i: int, j: int| 0 <= i < j < r.len() implies at_most(
            #[trigger] r[i],
            #[trigger] r[j],
        ) by {
            if j == s.len() && i < s.len() - 1 {
                assert(at_most(s[i], s[s.len() - 1]));
                assert(at_most(s.last(), x));
            }
        }
    } else {
        let front = s.drop_last();
        let inner = placed_by(front, x, at_most);
        assert forall|i: int, j: int| 0 <= i < j < front.len() implies at_most(
            #[trigger] front[i],
            #[trigger] front[j],
        ) by {
            assert(at_most(s[i], s[j]));
        }
        lemma_placed_by_in_order(front, x, at_most);
        assert forall|i: int, j: int| 0 <= i < j < r.len() implies at_most(
            #[trigger] r[i],
            #[trigger] r[j],
        ) by {
            assert(r[i] == inner[i]);
            if j < inner.len() {
                assert(at_most(inner[i], inner[j]));
            } else {
                lemma_placed_by_holds(front, x, at_most, inner[i]);
                assert(inner.contains(inner[i]));
                if inner[i] == x {
                    assert(at_most(s.last(), x) || at_most(x, s.last()));
                } else {
                    let k = choose|k: int| 0 <= k < front.len() && front[k] == inner[i];
                    assert(at_most(s[k], s[s.len() - 1]));
                }
            }
        }
    }
}

/// Under a total and transitive order each element of what is sorted may stand before every one
/// behind it.
pub proof fn ranked_by_is_in_order<A>(s: Seq<A>, at_most: spec_fn(A, A) -> bool, i: int, j: int)
    requires
        forall|a: A, b: A| #[trigger] at_most(a, b) || at_most(b, a),
        forall|a: A, b: A, c: A|
            #[trigger] at_most(a, b) && #[trigger] at_most(b, c) ==> at_most(a, c),
        0 <= i < j < ranked_by(s, at_most).len(),
    ensures
        at_most(ranked_by(s, at_most)[i], ranked_by(s, at_most)[j]),
{
    lemma_ranked_by_in_order(s, at_most);
}

proof fn lemma_ranked_by_in_order<A>(s: Seq<A>, at_most: spec_fn(A, A) -> bool)
    requires
        forall|a: A, b: A| #[trigger] at_most(a, b) || at_most(b, a),
        forall|a: A, b: A, c: A|
            #[trigger] at_most(a, b) && #[trigger] at_most(b, c) ==> at_most(a, c),
    ensures
        ({
            let r = ranked_by(s, at_most);
            forall|i: int, j: int|
                0 <= i < j < r.len() ==> at_most(#[trigger] r[i], #[trigger] r[j])
        }),
    decreases s.len(),
{
    if s.len() > 0 {
        lemma_ranked_by_in_order(s.drop_last(), at_most);
        lemma_placed_by_in_order(ranked_by(s.drop_last(), at_most), s.last(), at_most);
    }
}

} // verus!
