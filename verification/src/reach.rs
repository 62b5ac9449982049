//! Which names a graph leads to, and how large its strong components are.

use crate::groups;
use vstd::prelude::*;

verus! {

/// `b` is reached from `a` over `n` edges.
pub open spec fn reached_in(
    es: Seq<(Seq<char>, Seq<char>)>,
    a: Seq<char>,
    b: Seq<char>,
    n: nat,
) -> bool
    decreases n,
{
    if n == 0 {
        a == b
    } else {
        exists|m: Seq<char>|
            reached_in(es, a, m, (n - 1) as nat) && #[trigger] es.contains((m, b))
    }
}

/// `b` is reached from `a` over any number of edges.
pub open spec fn reaches(es: Seq<(Seq<char>, Seq<char>)>, a: Seq<char>, b: Seq<char>) -> bool {
    exists|n: nat| reached_in(es, a, b, n)
}

/// Each of the two is reached from the other.
pub open spec fn mutual(es: Seq<(Seq<char>, Seq<char>)>, a: Seq<char>, b: Seq<char>) -> bool {
    reaches(es, a, b) && reaches(es, b, a)
}

/// The names that the edges join and those of a list, each once.
pub open spec fn names_of(es: Seq<(Seq<char>, Seq<char>)>, more: Seq<Seq<char>>) -> Seq<Seq<char>> {
    groups::distinct(more + groups::firsts(es) + groups::seconds(es))
}

/// The size of the strong component of `a`: how many names it reaches that reach
/// it, itself among them.
pub open spec fn component_size(
    es: Seq<(Seq<char>, Seq<char>)>,
    names: Seq<Seq<char>>,
    a: Seq<char>,
) -> nat {
    names.filter(|b: Seq<char>| mutual(es, a, b)).len()
}

/// Reaching goes on over one more edge in front.
proof fn lemma_prepend(
    es: Seq<(Seq<char>, Seq<char>)>,
    a: Seq<char>,
    m: Seq<char>,
    b: Seq<char>,
    n: nat,
)
    requires
        es.contains((a, m)),
        reached_in(es, m, b, n),
    ensures
        reached_in(es, a, b, n + 1),
    decreases n,
{
    if n == 0 {
        assert(reached_in(es, a, a, 0));
    } else {
        let k = choose|k: Seq<char>|
            reached_in(es, m, k, (n - 1) as nat) && #[trigger] es.contains((k, b));
        lemma_prepend(es, a, m, k, (n - 1) as nat);
        assert(reached_in(es, a, k, n));
    }
}

/// What is reached over the flipped edges reaches over the edges.
proof fn lemma_flipped_in(es: Seq<(Seq<char>, Seq<char>)>, a: Seq<char>, b: Seq<char>, n: nat)
    requires
        reached_in(groups::flipped(es), a, b, n),
    ensures
        reached_in(es, b, a, n),
    decreases n,
{
    if n > 0 {
        let fs = groups::flipped(es);
        let m = choose|m: Seq<char>|
            reached_in(fs, a, m, (n - 1) as nat) && #[trigger] fs.contains((m, b));
        lemma_flipped_in(es, a, m, (n - 1) as nat);
        let i = choose|i: int| 0 <= i < fs.len() && fs[i] == (m, b);
        assert(es[i] == (b, m));
        lemma_prepend(es, b, m, a, (n - 1) as nat);
    }
}

/// Reaching over the flipped edges is being reached over the edges.
pub proof fn law_flipped_edges_reach_backwards(
    es: Seq<(Seq<char>, Seq<char>)>,
    a: Seq<char>,
    b: Seq<char>,
)
    ensures
        reaches(groups::flipped(es), a, b) <==> reaches(es, b, a),
{
    let fs = groups::flipped(es);
    if reaches(fs, a, b) {
        let n = choose|n: nat| reached_in(fs, a, b, n);
        lemma_flipped_in(es, a, b, n);
    }
    if reaches(es, b, a) {
        assert(groups::flipped(fs) =~= es);
        let n = choose|n: nat| reached_in(es, b, a, n);
        lemma_flipped_in(fs, b, a, n);
    }
}

/// Reaching is transitive.
pub proof fn law_reaching_is_transitive(
    es: Seq<(Seq<char>, Seq<char>)>,
    a: Seq<char>,
    b: Seq<char>,
    c: Seq<char>,
)
    requires
        reaches(es, a, b),
        reaches(es, b, c),
    ensures
        reaches(es, a, c),
{
    let m = choose|m: nat| reached_in(es, a, b, m);
    let n = choose|n: nat| reached_in(es, b, c, n);
    lemma_chain(es, a, b, c, m, n);
}

proof fn lemma_chain(
    es: Seq<(Seq<char>, Seq<char>)>,
    a: Seq<char>,
    b: Seq<char>,
    c: Seq<char>,
    m: nat,
    n: nat,
)
    requires
        reached_in(es, a, b, m),
        reached_in(es, b, c, n),
    ensures
        reached_in(es, a, c, m + n),
    decreases n,
{
    if n > 0 {
        let k = choose|k: Seq<char>|
            reached_in(es, b, k, (n - 1) as nat) && #[trigger] es.contains((k, c));
        lemma_chain(es, a, b, k, m, (n - 1) as nat);
        assert((m + n - 1) as nat == m + (n - 1) as nat);
    }
}

/// Names in one strong component have components of one size.
pub proof fn law_a_component_has_one_size(
    es: Seq<(Seq<char>, Seq<char>)>,
    names: Seq<Seq<char>>,
    a: Seq<char>,
    b: Seq<char>,
)
    requires
        mutual(es, a, b),
    ensures
        component_size(es, names, a) == component_size(es, names, b),
{
    let of_a = |x: Seq<char>| mutual(es, a, x);
    let of_b = |x: Seq<char>| mutual(es, b, x);
    assert forall|x: Seq<char>| #[trigger] of_a(x) == of_b(x) by {
        if of_a(x) {
            law_reaching_is_transitive(es, b, a, x);
            law_reaching_is_transitive(es, x, a, b);
        }
        if of_b(x) {
            law_reaching_is_transitive(es, a, b, x);
            law_reaching_is_transitive(es, x, b, a);
        }
    }
    assert(of_a =~= of_b);
}

} // verus!
