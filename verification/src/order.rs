//! Stable sorting and ordered sets of texts.

use crate::text;
use crate::text::text_at_most;
use vstd::prelude::*;

verus! {

// ---------------------------------------------------------------------------
// Stable sorting
// ---------------------------------------------------------------------------

/// A type whose values have a rank. The order is a total preorder on the views:
/// two different values may rank alike.
pub trait Ranked: View + Sized {
    /// `a` ranks no later than `b`.
    spec fn rank_le(a: Self::V, b: Self::V) -> bool;

    fn ranks_at_most(&self, other: &Self) -> (r: bool)
        ensures
            r == Self::rank_le(self@, other@),
    ;

    proof fn rank_total(a: Self::V, b: Self::V)
        ensures
            Self::rank_le(a, b) || Self::rank_le(b, a),
    ;

    proof fn rank_transitive(a: Self::V, b: Self::V, c: Self::V)
        requires
            Self::rank_le(a, b),
            Self::rank_le(b, c),
        ensures
            Self::rank_le(a, c),
    ;
}

/// The views of a list.
pub open spec fn views<T: View>(v: Seq<T>) -> Seq<T::V> {
    v.map_values(|t: T| t@)
}

/// `s` with `x` placed behind everything that ranks no later than it.
pub open spec fn placed<A>(s: Seq<A>, x: A, le: spec_fn(A, A) -> bool) -> Seq<A>
    decreases s.len(),
{
    if s.len() == 0 || le(s.last(), x) {
        s.push(x)
    } else {
        placed(s.drop_last(), x, le).push(s.last())
    }
}

/// `s` in the order `le`; what ranks alike stays in the order of `s`.
pub open spec fn stable_sorted<A>(s: Seq<A>, le: spec_fn(A, A) -> bool) -> Seq<A>
    decreases s.len(),
{
    if s.len() == 0 {
        s
    } else {
        placed(stable_sorted(s.drop_last(), le), s.last(), le)
    }
}

/// Every item ranks no later than those behind it.
pub open spec fn in_order<A>(s: Seq<A>, le: spec_fn(A, A) -> bool) -> bool {
    forall|i: int, j: int| 0 <= i < j < s.len() ==> le(#[trigger] s[i], #[trigger] s[j])
}

pub open spec fn total_preorder<A>(le: spec_fn(A, A) -> bool) -> bool {
    &&& forall|a: A, b: A| #[trigger] le(a, b) || le(b, a)
    &&& forall|a: A, b: A, c: A| #[trigger] le(a, b) && #[trigger] le(b, c) ==> le(a, c)
}

proof fn lemma_placed<A>(s: Seq<A>, x: A, le: spec_fn(A, A) -> bool)
    requires
        total_preorder(le),
        in_order(s, le),
    ensures
        in_order(placed(s, x, le), le),
        placed(s, x, le).to_multiset() == s.to_multiset().insert(x),
        placed(s, x, le).len() == s.len() + 1,
    decreases s.len(),
{
    broadcast use vstd::seq_lib::group_to_multiset_ensures;

    let r = placed(s, x, le);
    if s.len() == 0 || le(s.last(), x) {
        assert forall|i: int, j: int| 0 <= i < j < r.len() implies le(
            #[trigger] r[i],
            #[trigger] r[j],
        ) by {
            if j == s.len() && i < s.len() - 1 {
                assert(le(s[i], s[s.len() - 1]));
            }
        }
    } else {
        let front = s.drop_last();
        lemma_placed(front, x, le);
        let inner = placed(front, x, le);
        assert(s =~= front.push(s.last()));
        assert(r.to_multiset() == inner.to_multiset().insert(s.last()));
        assert(s.to_multiset() == front.to_multiset().insert(s.last()));
        assert(front.to_multiset().insert(x).insert(s.last()) =~= front.to_multiset().insert(
            s.last(),
        ).insert(x));
        assert forall|i: int, j: int| 0 <= i < j < r.len() implies le(
            #[trigger] r[i],
            #[trigger] r[j],
        ) by {
            if j == r.len() - 1 {
                assert(inner.to_multiset().contains(inner[i]));
                assert(front.to_multiset().insert(x).contains(inner[i]));
                if inner[i] != x {
                    assert(front.to_multiset().contains(inner[i]));
                    let k = choose|k: int| 0 <= k < front.len() && front[k] == inner[i];
                    assert(le(s[k], s[s.len() - 1]));
                }
            }
        }
    }
}

/// A sorted list is in order and holds exactly what it was made from.
pub proof fn lemma_stable_sorted<A>(s: Seq<A>, le: spec_fn(A, A) -> bool)
    requires
        total_preorder(le),
    ensures
        in_order(stable_sorted(s, le), le),
        stable_sorted(s, le).to_multiset() == s.to_multiset(),
        stable_sorted(s, le).len() == s.len(),
    decreases s.len(),
{
    broadcast use vstd::seq_lib::group_to_multiset_ensures;

    if s.len() > 0 {
        lemma_stable_sorted(s.drop_last(), le);
        lemma_placed(stable_sorted(s.drop_last(), le), s.last(), le);
        assert(s =~= s.drop_last().push(s.last()));
    }
}

proof fn lemma_placed_keeps<A>(s: Seq<A>, x: A, le: spec_fn(A, A) -> bool, p: spec_fn(A) -> bool)
    requires
        p(x),
        forall|i: int| 0 <= i < s.len() ==> p(#[trigger] s[i]),
    ensures
        forall|i: int| 0 <= i < placed(s, x, le).len() ==> p(#[trigger] placed(s, x, le)[i]),
    decreases s.len(),
{
    let r = placed(s, x, le);
    if !(s.len() == 0 || le(s.last(), x)) {
        let inner = placed(s.drop_last(), x, le);
        lemma_placed_keeps(s.drop_last(), x, le, p);
        assert forall|i: int| 0 <= i < r.len() implies p(#[trigger] r[i]) by {
            if i < inner.len() {
                assert(r[i] == inner[i]);
            } else {
                assert(r[i] == s[s.len() - 1]);
            }
        }
    }
}

/// What holds of every item holds of every item of the sorted list.
pub proof fn lemma_sorted_keeps<A>(s: Seq<A>, le: spec_fn(A, A) -> bool, p: spec_fn(A) -> bool)
    requires
        forall|i: int| 0 <= i < s.len() ==> p(#[trigger] s[i]),
    ensures
        forall|i: int| 0 <= i < stable_sorted(s, le).len() ==> p(#[trigger] stable_sorted(s, le)[i]),
    decreases s.len(),
{
    if s.len() > 0 {
        lemma_sorted_keeps(s.drop_last(), le, p);
        lemma_placed_keeps(stable_sorted(s.drop_last(), le), s.last(), le, p);
    }
}

/// Sorting what is in order already changes nothing.
pub proof fn lemma_sorted_unchanged<A>(s: Seq<A>, le: spec_fn(A, A) -> bool)
    requires
        in_order(s, le),
    ensures
        stable_sorted(s, le) == s,
    decreases s.len(),
{
    if s.len() > 0 {
        let front = s.drop_last();
        assert forall|i: int, j: int| 0 <= i < j < front.len() implies le(
            #[trigger] front[i],
            #[trigger] front[j],
        ) by {
            assert(le(s[i], s[j]));
        }
        lemma_sorted_unchanged(front, le);
        if front.len() > 0 {
            assert(le(s[s.len() - 2], s[s.len() - 1]));
        }
        assert(placed(front, s.last(), le) =~= s);
    }
}

/// Places `x` behind everything in `v` that ranks no later than it.
fn place<T: Ranked>(v: &mut Vec<T>, x: T)
    ensures
        views(final(v)@) == placed(views(old(v)@), x@, |a: T::V, b: T::V| T::rank_le(a, b)),
{
    let ghost le = |a: T::V, b: T::V| T::rank_le(a, b);
    let ghost before = v@;
    let ghost all = views(v@);
    let mut i: usize = v.len();
    assert(all.take(i as int) =~= all);
    assert(all.skip(i as int) =~= Seq::<T::V>::empty());
    while i > 0 && !v[i - 1].ranks_at_most(&x)
        invariant
            v@ == before,
            all == views(before),
            i <= v.len(),
            le == |a: T::V, b: T::V| T::rank_le(a, b),
            placed(all, x@, le) == placed(all.take(i as int), x@, le) + all.skip(i as int),
        decreases i,
    {
        proof {
            let part = all.take(i as int);
            assert(part.last() == v@[i - 1]@);
            assert(part.drop_last() =~= all.take(i - 1));
            assert(placed(part, x@, le) == placed(all.take(i - 1), x@, le).push(part.last()));
            assert(placed(all.take(i - 1), x@, le).push(part.last()) + all.skip(i as int)
                =~= placed(all.take(i - 1), x@, le) + all.skip(i - 1));
        }
        i -= 1;
    }
    proof {
        let part = all.take(i as int);
        if i > 0 {
            assert(part.last() == v@[i - 1]@);
        }
        assert(placed(part, x@, le) == part.push(x@));
        assert(views(v@.insert(i as int, x)) =~= part.push(x@) + all.skip(i as int));
    }
    v.insert(i, x);
}

/// Sorts a list by rank; what ranks alike keeps its order.
pub fn sort_ranked<T: Ranked>(v: Vec<T>) -> (r: Vec<T>)
    ensures
        views(r@) == stable_sorted(views(v@), |a: T::V, b: T::V| T::rank_le(a, b)),
        r@.len() == v@.len(),
{
    let ghost le = |a: T::V, b: T::V| T::rank_le(a, b);
    let ghost all = views(v@);
    let mut out: Vec<T> = Vec::new();
    proof {
        assert forall|a: T::V, b: T::V| #[trigger] le(a, b) || le(b, a) by {
            T::rank_total(a, b);
        }
        assert forall|a: T::V, b: T::V, c: T::V| #[trigger]
            le(a, b) && #[trigger] le(b, c) implies le(a, c) by {
            T::rank_transitive(a, b, c);
        }
        lemma_stable_sorted(all, le);
        assert(all.take(0) =~= Seq::<T::V>::empty());
        assert(views(out@) =~= Seq::<T::V>::empty());
    }
    for x in it: v
        invariant
            all == views(it.seq()),
            le == |a: T::V, b: T::V| T::rank_le(a, b),
            views(out@) == stable_sorted(all.take(it.index()), le),
    {
        proof {
            assert(all.take(it.index() + 1).drop_last() =~= all.take(it.index()));
            assert(all.take(it.index() + 1).last() == x@);
        }
        place(&mut out, x);
    }
    assert(all.take(all.len() as int) =~= all);
    assert(views(out@).len() == out@.len());
    out
}

impl Ranked for String {
    open spec fn rank_le(a: Seq<char>, b: Seq<char>) -> bool {
        text::text_le(a, b)
    }

    fn ranks_at_most(&self, other: &Self) -> (r: bool) {
        text_at_most(self.as_str(), other.as_str())
    }

    proof fn rank_total(a: Seq<char>, b: Seq<char>) {
        text::lemma_text_le_total(a, b);
    }

    proof fn rank_transitive(a: Seq<char>, b: Seq<char>, c: Seq<char>) {
        text::lemma_text_le_transitive(a, b, c);
    }
}

/// The texts of `s` in lexicographic order.
pub open spec fn sorted_texts(s: Seq<Seq<char>>) -> Seq<Seq<char>> {
    stable_sorted(s, |a: Seq<char>, b: Seq<char>| text::text_le(a, b))
}

/// Sorting texts puts them in order and keeps each of them.
pub proof fn lemma_sorted_texts(s: Seq<Seq<char>>)
    ensures
        in_order(sorted_texts(s), |a: Seq<char>, b: Seq<char>| text::text_le(a, b)),
        sorted_texts(s).to_multiset() == s.to_multiset(),
        sorted_texts(s).len() == s.len(),
{
    let le = |x: Seq<char>, y: Seq<char>| text::text_le(x, y);
    assert forall|x: Seq<char>, y: Seq<char>| #[trigger] le(x, y) || le(y, x) by {
        text::lemma_text_le_total(x, y);
    }
    assert forall|x: Seq<char>, y: Seq<char>, z: Seq<char>| #[trigger]
        le(x, y) && #[trigger] le(y, z) implies le(x, z) by {
        text::lemma_text_le_transitive(x, y, z);
    }
    lemma_stable_sorted(s, le);
}

/// Sorted texts do not tell in which order they came.
pub proof fn law_sorting_forgets_the_order(a: Seq<Seq<char>>, b: Seq<Seq<char>>)
    requires
        a.to_multiset() == b.to_multiset(),
    ensures
        sorted_texts(a) == sorted_texts(b),
{
    lemma_sorted_texts(a);
    lemma_sorted_texts(b);
    lemma_sorted_is_unique(sorted_texts(a), sorted_texts(b));
}

/// Two sorted lists of the same texts are one.
proof fn lemma_sorted_is_unique(a: Seq<Seq<char>>, b: Seq<Seq<char>>)
    requires
        a.to_multiset() == b.to_multiset(),
        in_order(a, |x: Seq<char>, y: Seq<char>| text::text_le(x, y)),
        in_order(b, |x: Seq<char>, y: Seq<char>| text::text_le(x, y)),
    ensures
        a == b,
    decreases a.len(),
{
    broadcast use vstd::seq_lib::group_to_multiset_ensures;

    assert(a.len() == a.to_multiset().len());
    assert(b.len() == b.to_multiset().len());
    if a.len() > 0 {
        let x = a.last();
        let y = b.last();
        assert(a.to_multiset().count(x) > 0) by {
            assert(a.contains(x));
        }
        assert(b.to_multiset().count(y) > 0) by {
            assert(b.contains(y));
        }
        assert(b.contains(x));
        assert(a.contains(y));
        let i = choose|i: int| 0 <= i < b.len() && b[i] == x;
        let j = choose|j: int| 0 <= j < a.len() && a[j] == y;
        text::lemma_text_le_reflexive(x);
        text::lemma_text_le_reflexive(y);
        assert(text::text_le(x, y)) by {
            if i < b.len() - 1 {
                assert(text::text_le(b[i], b[b.len() - 1]));
            }
        }
        assert(text::text_le(y, x)) by {
            if j < a.len() - 1 {
                assert(text::text_le(a[j], a[a.len() - 1]));
            }
        }
        text::lemma_text_le_antisymmetric(x, y);
        let ra = a.drop_last();
        let rb = b.drop_last();
        assert(a =~= ra.push(x));
        assert(b =~= rb.push(x));
        assert(ra.to_multiset() =~= a.to_multiset().remove(x));
        assert(rb.to_multiset() =~= b.to_multiset().remove(x));
        assert forall|p: int, q: int| 0 <= p < q < ra.len() implies text::text_le(
            #[trigger] ra[p],
            #[trigger] ra[q],
        ) by {
            assert(text::text_le(a[p], a[q]));
        }
        assert forall|p: int, q: int| 0 <= p < q < rb.len() implies text::text_le(
            #[trigger] rb[p],
            #[trigger] rb[q],
        ) by {
            assert(text::text_le(b[p], b[q]));
        }
        lemma_sorted_is_unique(ra, rb);
    } else {
        assert(a =~= b);
    }
}

/// Sorts texts lexicographically.
pub fn sort_texts(v: Vec<String>) -> (r: Vec<String>)
    ensures
        text::texts(r@) == sorted_texts(text::texts(v@)),
        r@.len() == v@.len(),
{
    let ghost before = v@;
    let out = sort_ranked(v);
    assert(text::texts(before) =~= views(before));
    assert(text::texts(out@) =~= views(out@));
    assert((|a: Seq<char>, b: Seq<char>| String::rank_le(a, b)) =~= (|
        a: Seq<char>,
        b: Seq<char>,
    | text::text_le(a, b)));
    out
}

} // verus!
