//! The components of a call graph, found by a walk along the calls and a second one
//! against them.

use crate::groups;
use crate::groups::{distinct_texts, ends, starts};
use crate::reach;
use crate::semantic;
use crate::semantic::Edge;
use crate::text;
use vstd::hash_map::StringHashMap;
use vstd::hash_set::StringHashSet;
use vstd::prelude::*;

verus! {

// ---------------------------------------------------------------------------
// The walk along the calls
// ---------------------------------------------------------------------------

/// How many of the names were not entered yet.
pub open spec fn unseen(names: Seq<Seq<char>>, seen: Set<Seq<char>>) -> nat
    decreases names.len(),
{
    if names.len() == 0 {
        0
    } else {
        unseen(names.drop_last(), seen) + if seen.contains(names.last()) {
            0nat
        } else {
            1nat
        }
    }
}

/// Fewer names are left where one more was entered.
pub proof fn lemma_unseen_falls(names: Seq<Seq<char>>, seen: Set<Seq<char>>, x: Seq<char>)
    requires
        !seen.contains(x),
    ensures
        unseen(names, seen.insert(x)) <= unseen(names, seen),
        names.contains(x) ==> unseen(names, seen.insert(x)) < unseen(names, seen),
    decreases names.len(),
{
    if names.len() > 0 {
        lemma_unseen_falls(names.drop_last(), seen, x);
        if names.contains(x) && names.last() != x {
            let i = choose|i: int| 0 <= i < names.len() && names[i] == x;
            assert(names.drop_last()[i] == x);
        }
    }
}

/// Names that are still to be entered: the first one on top.
pub open spec fn to_enter(xs: Seq<Seq<char>>) -> Seq<(Seq<char>, bool)> {
    Seq::new(xs.len(), |i: int| (xs[xs.len() - 1 - i], false))
}

/// The names in the order in which a walk in depth leaves them. A name is entered
/// once; what it leads to is entered before it is left. On top of the stack stands what
/// is next; its mark says whether the name is to be left or to be entered.
pub open spec fn left_by(
    es: Seq<(Seq<char>, Seq<char>)>,
    names: Seq<Seq<char>>,
    stack: Seq<(Seq<char>, bool)>,
    seen: Set<Seq<char>>,
    left: Seq<Seq<char>>,
) -> Seq<Seq<char>>
    decreases unseen(names, seen), stack.len(),
{
    if stack.len() == 0 {
        left
    } else {
        let x = stack.last().0;
        let rest = stack.drop_last();
        if stack.last().1 {
            left_by(es, names, rest, seen, left.push(x))
        } else if seen.contains(x) || !names.contains(x) {
            left_by(es, names, rest, seen, left)
        } else {
            proof {
                lemma_unseen_falls(names, seen, x);
            }
            left_by(
                es,
                names,
                rest.push((x, true)) + to_enter(groups::seconds_of(es, x)),
                seen.insert(x),
                left,
            )
        }
    }
}

/// The order in which the walk from the symbols leaves the names.
pub open spec fn leaving_order(es: Seq<(Seq<char>, Seq<char>)>, symbols: Seq<Seq<char>>) -> Seq<
    Seq<char>,
> {
    left_by(
        es,
        reach::names_of(es, symbols),
        to_enter(symbols),
        Set::empty(),
        Seq::empty(),
    )
}

// ---------------------------------------------------------------------------
// The walk against the calls
// ---------------------------------------------------------------------------

/// From each of the symbols to its callers.
pub open spec fn callers(es: Seq<(Seq<char>, Seq<char>)>, symbols: Seq<Seq<char>>) -> Seq<
    (Seq<char>, Seq<char>),
> {
    groups::flipped(es.filter(|e: (Seq<char>, Seq<char>)| symbols.contains(e.1)))
}

/// The edges that touch none of the names that were taken.
pub open spec fn untaken(es: Seq<(Seq<char>, Seq<char>)>, taken: Set<Seq<char>>) -> Seq<
    (Seq<char>, Seq<char>),
> {
    es.filter(|e: (Seq<char>, Seq<char>)| !taken.contains(e.0) && !taken.contains(e.1))
}

/// The component of a name that was not taken: what it reaches without touching a name
/// that was.
pub open spec fn component(
    es: Seq<(Seq<char>, Seq<char>)>,
    names: Seq<Seq<char>>,
    taken: Set<Seq<char>>,
    root: Seq<char>,
) -> Seq<Seq<char>> {
    names.filter(|x: Seq<char>| reach::reaches(untaken(es, taken), root, x))
}

/// The sizes with that of a component for each of its names.
pub open spec fn with_component(sizes: Map<Seq<char>, nat>, part: Seq<Seq<char>>) -> Map<
    Seq<char>,
    nat,
> {
    sizes.union_prefer_right(Map::new(|x: Seq<char>| part.contains(x), |x: Seq<char>| part.len()))
}

/// The sizes of the components, taken in turn from the names of `order`, the last one
/// first.
pub open spec fn sized(
    es: Seq<(Seq<char>, Seq<char>)>,
    names: Seq<Seq<char>>,
    order: Seq<Seq<char>>,
    sizes: Map<Seq<char>, nat>,
) -> Map<Seq<char>, nat>
    decreases order.len(),
{
    if order.len() == 0 {
        sizes
    } else if sizes.dom().contains(order.last()) {
        sized(es, names, order.drop_last(), sizes)
    } else {
        sized(
            es,
            names,
            order.drop_last(),
            with_component(sizes, component(es, names, sizes.dom(), order.last())),
        )
    }
}

/// The size of the component of each name that a call path from the symbols leads to,
/// and of each caller that was counted with them: the names are left by a walk along the
/// calls, and the last one left that has no component yet takes what leads to it over
/// symbols and has none.
pub open spec fn sizes_of(es: Seq<(Seq<char>, Seq<char>)>, symbols: Seq<Seq<char>>) -> Map<
    Seq<char>,
    nat,
> {
    sized(
        callers(es, symbols),
        reach::names_of(es, symbols),
        leaving_order(es, symbols),
        Map::empty(),
    )
}

// ---------------------------------------------------------------------------
// The graph over indices
// ---------------------------------------------------------------------------

/// The names that stand at the indices.
spec fn named(v: Seq<usize>, names: Seq<Seq<char>>) -> Seq<Seq<char>> {
    v.map_values(|i: usize| names[i as int])
}

/// The names of a graph and the indices that the edges of each lead to.
struct Numbered {
    names: Vec<String>,
    next: Vec<Vec<usize>>,
}

impl Numbered {
    spec fn of(self, es: Seq<(Seq<char>, Seq<char>)>, names: Seq<Seq<char>>) -> bool {
        &&& text::texts(self.names@) == names
        &&& names.no_duplicates()
        &&& self.next@.len() == names.len()
        &&& forall|i: int, k: int|
            0 <= i < self.next@.len() && 0 <= k < self.next@[i]@.len() ==> (
            #[trigger] self.next@[i]@[k]) < names.len()
        &&& forall|i: int|
            0 <= i < names.len() ==> named((#[trigger] self.next@[i])@, names)
                == groups::seconds_of(es, names[i])
    }
}

/// Where each name of a list stands, where none stands twice.
fn index_names(names: &Vec<String>) -> (r: StringHashMap<usize>)
    requires
        text::texts(names@).no_duplicates(),
    ensures
        forall|i: int|
            0 <= i < names@.len() ==> r@.contains_key(#[trigger] names@[i]@) && r@[names@[i]@] == i,
{
    let mut index: StringHashMap<usize> = StringHashMap::new();
    let mut i: usize = 0;
    while i < names.len()
        invariant
            i <= names.len(),
            text::texts(names@).no_duplicates(),
            forall|k: int|
                0 <= k < i ==> index@.contains_key(#[trigger] names@[k]@) && index@[names@[k]@]
                    == k,
        decreases names.len() - i,
    {
        proof {
            let ts = text::texts(names@);
            assert forall|k: int| 0 <= k < i implies #[trigger] names@[k]@ != names@[i as int]@ by {
                assert(ts[k] != ts[i as int]);
            }
        }
        index.insert(names[i].clone(), i);
        i += 1;
    }
    index
}

/// The indices of texts that all stand in the list.
fn find_all(names: &Vec<String>, xs: &Vec<String>) -> (r: Vec<usize>)
    requires
        text::texts(names@).no_duplicates(),
        forall|k: int| 0 <= k < xs@.len() ==> text::texts(names@).contains((#[trigger] xs@[k])@),
    ensures
        named(r@, text::texts(names@)) == text::texts(xs@),
        forall|k: int| 0 <= k < r@.len() ==> (#[trigger] r@[k]) < names@.len(),
{
    let ghost ns = text::texts(names@);
    let index = index_names(names);
    let mut out: Vec<usize> = Vec::new();
    let mut i: usize = 0;
    while i < xs.len()
        invariant
            i <= xs@.len(),
            ns == text::texts(names@),
            forall|k: int| 0 <= k < xs@.len() ==> ns.contains((#[trigger] xs@[k])@),
            forall|i: int|
                0 <= i < names@.len() ==> index@.contains_key(#[trigger] names@[i]@)
                    && index@[names@[i]@] == i,
            out@.len() == i,
            forall|k: int|
                0 <= k < i ==> (#[trigger] out@[k]) < names@.len() && ns[out@[k] as int] == xs@[k]@,
        decreases xs@.len() - i,
    {
        proof {
            let a = choose|a: int| 0 <= a < ns.len() && ns[a] == xs@[i as int]@;
            assert(names@[a]@ == xs@[i as int]@);
        }
        if let Some(k) = index.get(xs[i].as_str()) {
            out.push(*k);
        }
        i += 1;
    }
    assert(named(out@, ns) =~= text::texts(xs@));
    out
}

/// Numbers the names of a graph.
fn number(edges: &Vec<Edge>, names: Vec<String>) -> (r: Numbered)
    requires
        text::texts(names@).no_duplicates(),
        forall|e: int|
            0 <= e < edges@.len() ==> {
                &&& text::texts(names@).contains((#[trigger] edges@[e]).from@)
                &&& text::texts(names@).contains(edges@[e].to@)
            },
    ensures
        r.names@ == names@,
        r.of(semantic::edges_of(edges@), text::texts(names@)),
{
    let ghost es = semantic::edges_of(edges@);
    let ghost ns = text::texts(names@);
    let index = index_names(&names);
    let mut next: Vec<Vec<usize>> = Vec::new();
    let mut i: usize = 0;
    while i < names.len()
        invariant
            i <= names.len(),
            next@.len() == i,
            forall|k: int| 0 <= k < i ==> (#[trigger] next@[k])@.len() == 0,
        decreases names.len() - i,
    {
        next.push(Vec::new());
        i += 1;
    }
    let ghost listed = names@;
    let mut graph = Numbered { names, next };
    let mut e: usize = 0;
    proof {
        assert forall|i: int| 0 <= i < ns.len() implies named((#[trigger] graph.next@[i])@, ns)
            == groups::seconds_of(es.take(0), ns[i]) by {
            assert(named(graph.next@[i]@, ns) =~= Seq::<Seq<char>>::empty());
        }
    }
    while e < edges.len()
        invariant
            e <= edges.len(),
            es == semantic::edges_of(edges@),
            graph.names@ == listed,
            ns == text::texts(listed),
            graph.of(es.take(e as int), ns),
            forall|i: int|
                0 <= i < listed.len() ==> index@.contains_key(#[trigger] listed[i]@)
                    && index@[listed[i]@] == i,
            forall|d: int|
                0 <= d < edges@.len() ==> {
                    &&& ns.contains((#[trigger] edges@[d]).from@)
                    &&& ns.contains(edges@[d].to@)
                },
        decreases edges.len() - e,
    {
        let ghost edge = edges@[e as int];
        proof {
            let a = choose|a: int| 0 <= a < ns.len() && ns[a] == edge.from@;
            let b = choose|b: int| 0 <= b < ns.len() && ns[b] == edge.to@;
            assert(listed[a]@ == edge.from@);
            assert(listed[b]@ == edge.to@);
            assert(es[e as int] == (edge.from@, edge.to@));
            assert(es.take(e + 1).drop_last() =~= es.take(e as int));
        }
        if let (Some(f), Some(t)) = (
            index.get(edges[e].from.as_str()),
            index.get(edges[e].to.as_str()),
        ) {
            let f: usize = *f;
            let t: usize = *t;
            let ghost was = graph;
            graph.next[f].push(t);
            proof {
                assert(graph.next@ =~= was.next@.update(f as int, graph.next@[f as int]));
                assert(graph.next@[f as int]@ =~= was.next@[f as int]@.push(t));
                assert(ns[f as int] == edge.from@ && ns[t as int] == edge.to@);
                assert forall|i: int, k: int|
                    0 <= i < graph.next@.len() && 0 <= k < graph.next@[i]@.len() implies (
                #[trigger] graph.next@[i]@[k]) < ns.len() by {
                    if i != f || k < was.next@[f as int]@.len() {
                        assert(graph.next@[i]@[k] == was.next@[i]@[k]);
                    }
                }
                assert forall|i: int| 0 <= i < ns.len() implies named(
                    (#[trigger] graph.next@[i])@,
                    ns,
                ) == groups::seconds_of(es.take(e + 1), ns[i]) by {
                    assert(named(was.next@[i]@, ns) == groups::seconds_of(
                        es.take(e as int),
                        ns[i],
                    ));
                    if i == f {
                        assert(named(graph.next@[i]@, ns) =~= named(was.next@[i]@, ns).push(
                            ns[t as int],
                        ));
                    } else {
                        assert(ns[i] != ns[f as int]);
                        assert(graph.next@[i] == was.next@[i]);
                    }
                }
            }
        }
        e += 1;
    }
    assert(es.take(e as int) =~= es);
    graph
}

/// Flags that are not set.
fn clear_flags(n: usize) -> (r: Vec<bool>)
    ensures
        r@.len() == n,
        forall|k: int| 0 <= k < n ==> !(#[trigger] r@[k]),
{
    let mut flags: Vec<bool> = Vec::new();
    let mut i: usize = 0;
    while i < n
        invariant
            i <= n,
            flags@.len() == i,
            forall|k: int| 0 <= k < i ==> !(#[trigger] flags@[k]),
        decreases n - i,
    {
        flags.push(false);
        i += 1;
    }
    flags
}

// ---------------------------------------------------------------------------
// Walking
// ---------------------------------------------------------------------------

/// The stack of a walk with names in place of indices.
spec fn stack_of(v: Seq<(usize, bool)>, names: Seq<Seq<char>>) -> Seq<(Seq<char>, bool)> {
    v.map_values(|p: (usize, bool)| (names[p.0 as int], p.1))
}

/// Puts names on the stack that are to be entered, the first one on top.
fn push_to_enter(stack: &mut Vec<(usize, bool)>, row: &Vec<usize>, Ghost(names): Ghost<Seq<Seq<char>>>)
    requires
        forall|k: int| 0 <= k < row@.len() ==> (#[trigger] row@[k]) < names.len(),
        forall|k: int| 0 <= k < old(stack)@.len() ==> (#[trigger] old(stack)@[k]).0 < names.len(),
    ensures
        stack_of(final(stack)@, names) == stack_of(old(stack)@, names) + to_enter(named(row@, names)),
        forall|k: int| 0 <= k < final(stack)@.len() ==> (#[trigger] final(stack)@[k]).0 < names.len(),
{
    let ghost before = stack@;
    let mut j: usize = row.len();
    while j > 0
        invariant
            j <= row@.len(),
            stack@.len() == before.len() + row@.len() - j,
            forall|k: int| 0 <= k < row@.len() ==> (#[trigger] row@[k]) < names.len(),
            forall|k: int| 0 <= k < before.len() ==> (#[trigger] before[k]).0 < names.len(),
            forall|k: int| 0 <= k < before.len() ==> #[trigger] stack@[k] == before[k],
            forall|k: int|
                before.len() <= k < stack@.len() ==> #[trigger] stack@[k] == (
                    row@[row@.len() - 1 - (k - before.len())],
                    false,
                ),
        decreases j,
    {
        j -= 1;
        stack.push((row[j], false));
    }
    assert(stack_of(stack@, names) =~= stack_of(before, names) + to_enter(named(row@, names)));
}

/// The order in which the walk from the roots leaves the names.
fn walk(graph: &Numbered, roots: &Vec<usize>, Ghost(es): Ghost<Seq<(Seq<char>, Seq<char>)>>) -> (r:
    Vec<usize>)
    requires
        graph.of(es, text::texts(graph.names@)),
        forall|k: int| 0 <= k < roots@.len() ==> (#[trigger] roots@[k]) < graph.names@.len(),
    ensures
        forall|k: int| 0 <= k < r@.len() ==> (#[trigger] r@[k]) < graph.names@.len(),
        ({
            let names = text::texts(graph.names@);
            named(r@, names) == left_by(
                es,
                names,
                to_enter(named(roots@, names)),
                Set::empty(),
                Seq::empty(),
            )
        }),
{
    let ghost ns = text::texts(graph.names@);
    let ghost goal = left_by(es, ns, to_enter(named(roots@, ns)), Set::empty(), Seq::empty());
    let n: usize = graph.names.len();
    let mut marks = clear_flags(n);
    let mut stack: Vec<(usize, bool)> = Vec::new();
    push_to_enter(&mut stack, roots, Ghost(ns));
    let mut left: Vec<usize> = Vec::new();
    let ghost mut seen: Set<Seq<char>> = Set::empty();
    proof {
        assert(stack_of(Seq::empty(), ns) + to_enter(named(roots@, ns)) =~= to_enter(
            named(roots@, ns),
        ));
        assert(named(left@, ns) =~= Seq::<Seq<char>>::empty());
    }
    while stack.len() > 0
        invariant
            n == ns.len(),
            ns == text::texts(graph.names@),
            graph.of(es, ns),
            marks@.len() == n,
            forall|i: int| 0 <= i < n ==> (#[trigger] marks@[i] <==> seen.contains(ns[i])),
            forall|k: int| 0 <= k < stack@.len() ==> (#[trigger] stack@[k]).0 < n,
            forall|k: int| 0 <= k < left@.len() ==> (#[trigger] left@[k]) < n,
            left_by(es, ns, stack_of(stack@, ns), seen, named(left@, ns)) == goal,
        decreases unseen(ns, seen), stack@.len(),
    {
        let ghost was = stack@;
        let ghost left0 = left@;
        let ghost staged = stack_of(was, ns);
        let top = stack.pop();
        proof {
            assert(stack_of(stack@, ns) =~= staged.drop_last());
            assert(staged.last() == (ns[was.last().0 as int], was.last().1));
        }
        if let Some((at, leaving)) = top {
            proof {
                assert(was.last() == (at, leaving));
                assert(at < n) by {
                    assert(was[was.len() - 1].0 < n);
                }
                assert forall|k: int| 0 <= k < stack@.len() implies (#[trigger] stack@[k]).0 < n by {
                    assert(stack@[k] == was[k]);
                }
                assert(ns.contains(ns[at as int]));
            }
            if leaving {
                left.push(at);
                assert(named(left@, ns) =~= named(left0, ns).push(ns[at as int]));
            } else if !marks[at] {
                let ghost marks0 = marks@;
                marks.set(at, true);
                proof {
                    lemma_unseen_falls(ns, seen, ns[at as int]);
                    seen = seen.insert(ns[at as int]);
                    assert forall|i: int| 0 <= i < n implies (#[trigger] marks@[i]
                        <==> seen.contains(ns[i])) by {
                        if i != at {
                            assert(marks@[i] == marks0[i]);
                            assert(ns[i] != ns[at as int]);
                        }
                    }
                }
                let ghost below = stack@;
                stack.push((at, true));
                proof {
                    assert(stack_of(stack@, ns) =~= stack_of(below, ns).push((ns[at as int], true)));
                    assert forall|k: int| 0 <= k < graph.next@[at as int]@.len() implies (
                    #[trigger] graph.next@[at as int]@[k]) < ns.len() by {}
                }
                push_to_enter(&mut stack, &graph.next[at], Ghost(ns));
            }
        }
    }
    left
}

// ---------------------------------------------------------------------------
// Taking components
// ---------------------------------------------------------------------------

/// What is reached from a name over the edges between names that were not taken, and
/// only that, is marked.
spec fn marks_reached(
    marks: Seq<bool>,
    names: Seq<Seq<char>>,
    free: Seq<(Seq<char>, Seq<char>)>,
    origin: Seq<char>,
) -> bool {
    &&& marks.len() == names.len()
    &&& forall|i: int|
        0 <= i < marks.len() ==> (#[trigger] marks[i] <==> reach::reaches(free, origin, names[i]))
}

/// What an edge leads to follows its start.
pub proof fn lemma_seconds_of(es: Seq<(Seq<char>, Seq<char>)>, a: Seq<char>, b: Seq<char>)
    ensures
        groups::seconds_of(es, a).contains(b) <==> es.contains((a, b)),
    decreases es.len(),
{
    if es.len() > 0 {
        let before = es.drop_last();
        lemma_seconds_of(before, a, b);
        let all = groups::seconds_of(es, a);
        let some = groups::seconds_of(before, a);
        if es.contains((a, b)) {
            let i = choose|i: int| 0 <= i < es.len() && es[i] == (a, b);
            if i < before.len() {
                assert(before[i] == (a, b));
                let k = choose|k: int| 0 <= k < some.len() && some[k] == b;
                assert(all[k] == b);
            } else {
                assert(all[some.len() as int] == b);
            }
        }
        if all.contains(b) {
            let k = choose|k: int| 0 <= k < all.len() && all[k] == b;
            if k < some.len() {
                assert(some[k] == b);
                let i = choose|i: int| 0 <= i < before.len() && before[i] == (a, b);
                assert(es[i] == (a, b));
            } else {
                assert(es[es.len() - 1] == (a, b));
            }
        }
    }
}

/// An edge between names that were not taken.
pub proof fn lemma_untaken(
    es: Seq<(Seq<char>, Seq<char>)>,
    taken: Set<Seq<char>>,
    e: (Seq<char>, Seq<char>),
)
    ensures
        untaken(es, taken).contains(e) <==> es.contains(e) && !taken.contains(e.0)
            && !taken.contains(e.1),
{
    lemma_filter_contains(
        es,
        |e: (Seq<char>, Seq<char>)| !taken.contains(e.0) && !taken.contains(e.1),
        e,
    );
}

/// Marks what is reached from `start` without touching a blocked name.
fn mark_reached(
    graph: &Numbered,
    start: usize,
    blocked: &Vec<bool>,
    Ghost(es): Ghost<Seq<(Seq<char>, Seq<char>)>>,
    Ghost(taken): Ghost<Set<Seq<char>>>,
) -> (r: Vec<bool>)
    requires
        graph.of(es, text::texts(graph.names@)),
        start < graph.names@.len(),
        blocked@.len() == graph.names@.len(),
        forall|i: int|
            0 <= i < blocked@.len() ==> (#[trigger] blocked@[i] <==> taken.contains(
                graph.names@[i]@,
            )),
        !blocked@[start as int],
    ensures
        marks_reached(
            r@,
            text::texts(graph.names@),
            untaken(es, taken),
            graph.names@[start as int]@,
        ),
{
    let ghost ns = text::texts(graph.names@);
    let ghost free = untaken(es, taken);
    let ghost origin = graph.names@[start as int]@;
    let n: usize = graph.names.len();
    let mut marks = clear_flags(n);
    let mut queue: Vec<usize> = Vec::new();
    marks.set(start, true);
    queue.push(start);
    let mut head: usize = 0;
    proof {
        assert(reach::reached_in(free, origin, origin, 0));
        assert(ns[start as int] == origin);
        assert(queue@[0] == start);
        assert forall|i: int| 0 <= i < n implies (#[trigger] blocked@[i] <==> taken.contains(
            ns[i],
        )) by {
            assert(ns[i] == graph.names@[i]@);
        }
    }
    while head < queue.len()
        invariant
            head <= queue@.len(),
            n == ns.len(),
            start < n,
            ns == text::texts(graph.names@),
            origin == ns[start as int],
            graph.of(es, ns),
            free == untaken(es, taken),
            blocked@.len() == n,
            forall|i: int| 0 <= i < n ==> (#[trigger] blocked@[i] <==> taken.contains(ns[i])),
            marks@.len() == n,
            marks@[start as int],
            forall|k: int| 0 <= k < queue@.len() ==> (#[trigger] queue@[k]) < n,
            forall|k: int| 0 <= k < queue@.len() ==> marks@[#[trigger] queue@[k] as int],
            forall|i: int|
                0 <= i < n && #[trigger] marks@[i] ==> reach::reaches(free, origin, ns[i])
                    && !blocked@[i],
            forall|i: int|
                0 <= i < n && #[trigger] marks@[i] ==> exists|k: int|
                    0 <= k < queue@.len() && #[trigger] queue@[k] == i,
            forall|k: int, j: int|
                0 <= k < head && 0 <= j < graph.next@[queue@[k] as int]@.len() ==> {
                    let t = #[trigger] graph.next@[#[trigger] queue@[k] as int]@[j] as int;
                    marks@[t] || blocked@[t]
                },
        decreases clear_count(marks@) + (queue@.len() - head),
    {
        let cur: usize = queue[head];
        let row = &graph.next[cur];
        let ghost measure = clear_count(marks@) + (queue@.len() - head);
        let mut j: usize = 0;
        while j < row.len()
            invariant
                j <= row@.len(),
                head < queue@.len(),
                n == ns.len(),
                start < n,
                cur < n,
                ns == text::texts(graph.names@),
                origin == ns[start as int],
                graph.of(es, ns),
                free == untaken(es, taken),
                blocked@.len() == n,
                forall|i: int| 0 <= i < n ==> (#[trigger] blocked@[i] <==> taken.contains(ns[i])),
                row@ == graph.next@[cur as int]@,
                queue@[head as int] == cur,
                marks@.len() == n,
                marks@[start as int],
                marks@[cur as int],
                forall|k: int| 0 <= k < queue@.len() ==> (#[trigger] queue@[k]) < n,
                forall|k: int| 0 <= k < queue@.len() ==> marks@[#[trigger] queue@[k] as int],
                forall|i: int|
                    0 <= i < n && #[trigger] marks@[i] ==> reach::reaches(free, origin, ns[i])
                        && !blocked@[i],
                forall|i: int|
                    0 <= i < n && #[trigger] marks@[i] ==> exists|k: int|
                        0 <= k < queue@.len() && #[trigger] queue@[k] == i,
                forall|k: int, j: int|
                    0 <= k < head && 0 <= j < graph.next@[queue@[k] as int]@.len() ==> {
                        let t = #[trigger] graph.next@[#[trigger] queue@[k] as int]@[j] as int;
                        marks@[t] || blocked@[t]
                    },
                forall|m: int|
                    0 <= m < j ==> marks@[#[trigger] row@[m] as int] || blocked@[row@[m] as int],
                clear_count(marks@) + (queue@.len() - head) == measure,
            decreases row@.len() - j,
        {
            let t: usize = row[j];
            assert(graph.next@[cur as int]@[j as int] == t);
            if !marks[t] && !blocked[t] {
                proof {
                    lemma_clear_count_falls(marks@, t as int);
                    lemma_seconds_of(es, ns[cur as int], ns[t as int]);
                    assert(named(row@, ns)[j as int] == ns[t as int]);
                    assert(es.contains((ns[cur as int], ns[t as int])));
                    lemma_untaken(es, taken, (ns[cur as int], ns[t as int]));
                    let d = choose|d: nat| reach::reached_in(free, origin, ns[cur as int], d);
                    assert(reach::reached_in(free, origin, ns[cur as int], ((d + 1) - 1) as nat));
                    assert(reach::reached_in(free, origin, ns[t as int], d + 1));
                }
                let ghost was = queue@;
                let ghost was_marks = marks@;
                marks.set(t, true);
                queue.push(t);
                proof {
                    assert forall|i: int| 0 <= i < n && #[trigger] marks@[i] implies exists|k: int|
                        0 <= k < queue@.len() && #[trigger] queue@[k] == i by {
                        if i == t {
                            assert(queue@[was.len() as int] == i);
                        } else {
                            assert(was_marks[i]);
                            let k = choose|k: int| 0 <= k < was.len() && #[trigger] was[k] == i;
                            assert(queue@[k] == i);
                        }
                    }
                    assert forall|k: int, j: int|
                        0 <= k < head && 0 <= j < graph.next@[queue@[k] as int]@.len() implies {
                        let t = #[trigger] graph.next@[#[trigger] queue@[k] as int]@[j] as int;
                        marks@[t] || blocked@[t]
                    } by {
                        assert(queue@[k] == was[k]);
                        let u = graph.next@[was[k] as int]@[j] as int;
                        assert(was_marks[u] || blocked@[u]);
                    }
                    assert forall|m: int| 0 <= m < j implies marks@[#[trigger] row@[m] as int]
                        || blocked@[row@[m] as int] by {
                        assert(was_marks[row@[m] as int] || blocked@[row@[m] as int]);
                    }
                }
            }
            j += 1;
        }
        head += 1;
        proof {
            assert forall|k: int, j: int|
                0 <= k < head && 0 <= j < graph.next@[queue@[k] as int]@.len() implies {
                let t = #[trigger] graph.next@[#[trigger] queue@[k] as int]@[j] as int;
                marks@[t] || blocked@[t]
            } by {
                if k == head - 1 {
                    assert(queue@[k] == cur);
                    assert(row@[j] == graph.next@[queue@[k] as int]@[j]);
                }
            }
        }
    }
    proof {
        assert forall|i: int, j: int|
            0 <= i < n && marks@[i] && 0 <= j < graph.next@[i]@.len() implies marks@[
        #[trigger] graph.next@[i]@[j] as int] || blocked@[graph.next@[i]@[j] as int] by {
            let k = choose|k: int| 0 <= k < queue@.len() && #[trigger] queue@[k] == i;
            let t = graph.next@[queue@[k] as int]@[j] as int;
            assert(marks@[t] || blocked@[t]);
        }
        assert forall|i: int| 0 <= i < n && reach::reaches(free, origin, ns[i]) implies
            #[trigger] marks@[i] by {
            let d = choose|d: nat| reach::reached_in(free, origin, ns[i], d);
            lemma_marks_complete(*graph, es, ns, taken, origin, marks@, blocked@, ns[i], d);
            let k = choose|k: int| 0 <= k < ns.len() && marks@[k] && ns[k] == ns[i];
            assert(k == i);
        }
    }
    marks
}

proof fn lemma_marks_complete(
    graph: Numbered,
    es: Seq<(Seq<char>, Seq<char>)>,
    ns: Seq<Seq<char>>,
    taken: Set<Seq<char>>,
    origin: Seq<char>,
    marks: Seq<bool>,
    blocked: Seq<bool>,
    b: Seq<char>,
    d: nat,
)
    requires
        graph.of(es, ns),
        marks.len() == ns.len(),
        blocked.len() == ns.len(),
        forall|i: int| 0 <= i < ns.len() ==> (#[trigger] blocked[i] <==> taken.contains(ns[i])),
        exists|k: int| 0 <= k < ns.len() && marks[k] && ns[k] == origin,
        forall|i: int, j: int|
            0 <= i < ns.len() && marks[i] && 0 <= j < graph.next@[i]@.len() ==> marks[
            #[trigger] graph.next@[i]@[j] as int] || blocked[graph.next@[i]@[j] as int],
        reach::reached_in(untaken(es, taken), origin, b, d),
    ensures
        exists|k: int| 0 <= k < ns.len() && marks[k] && ns[k] == b,
    decreases d,
{
    if d > 0 {
        let free = untaken(es, taken);
        let m = choose|m: Seq<char>|
            reach::reached_in(free, origin, m, (d - 1) as nat) && #[trigger] free.contains((m, b));
        lemma_marks_complete(
            graph,
            es,
            ns,
            taken,
            origin,
            marks,
            blocked,
            m,
            (d - 1) as nat,
        );
        let a = choose|k: int| 0 <= k < ns.len() && marks[k] && ns[k] == m;
        lemma_untaken(es, taken, (m, b));
        lemma_seconds_of(es, m, b);
        let row = graph.next@[a]@;
        assert(named(row, ns) == groups::seconds_of(es, ns[a]));
        let k = choose|k: int| 0 <= k < named(row, ns).len() && named(row, ns)[k] == b;
        assert(graph.next@[a]@[k] == row[k]);
        let j = row[k] as int;
        assert(marks[j] || blocked[j]);
        assert(ns[j] == b && !blocked[j]);
    }
}

/// How many flags are not set.
spec fn clear_count(flags: Seq<bool>) -> nat
    decreases flags.len(),
{
    if flags.len() == 0 {
        0
    } else {
        clear_count(flags.drop_last()) + if flags.last() {
            0nat
        } else {
            1nat
        }
    }
}

proof fn lemma_clear_count_falls(flags: Seq<bool>, i: int)
    requires
        0 <= i < flags.len(),
        !flags[i],
    ensures
        clear_count(flags.update(i, true)) + 1 == clear_count(flags),
    decreases flags.len(),
{
    let after = flags.update(i, true);
    if i == flags.len() - 1 {
        assert(after.drop_last() =~= flags.drop_last());
    } else {
        lemma_clear_count_falls(flags.drop_last(), i);
        assert(after.drop_last() =~= flags.drop_last().update(i, true));
    }
}

/// The names that the edges join and those of a list, each once.
fn list_names(edges: &Vec<Edge>, more: &Vec<String>) -> (r: Vec<String>)
    ensures
        text::texts(r@) == reach::names_of(semantic::edges_of(edges@), text::texts(more@)),
{
    let ghost es = semantic::edges_of(edges@);
    let ghost listed = text::texts(more@) + groups::firsts(es) + groups::seconds(es);
    let mut all: Vec<String> = text::copy_texts(more);
    let mut from = starts(edges);
    let mut to = ends(edges);
    let ghost all0 = all@;
    let ghost from0 = from@;
    let ghost to0 = to@;
    all.append(&mut from);
    all.append(&mut to);
    proof {
        assert(all@ =~= all0 + from0 + to0);
        assert(text::texts(all@) =~= text::texts(all0) + text::texts(from0) + text::texts(to0));
        assert(text::texts(all@) == listed);
    }
    distinct_texts(&all)
}

/// The listed names: those of the edges, those of the list, and none twice.
pub proof fn lemma_names_of(es: Seq<(Seq<char>, Seq<char>)>, more: Seq<Seq<char>>)
    ensures
        reach::names_of(es, more).no_duplicates(),
        forall|x: Seq<char>| more.contains(x) ==> #[trigger] reach::names_of(es, more).contains(x),
        forall|i: int|
            0 <= i < es.len() ==> {
                &&& reach::names_of(es, more).contains((#[trigger] es[i]).0)
                &&& reach::names_of(es, more).contains(es[i].1)
            },
{
    let listed = more + groups::firsts(es) + groups::seconds(es);
    groups::lemma_distinct(listed);
    assert forall|x: Seq<char>| more.contains(x) implies #[trigger] reach::names_of(
        es,
        more,
    ).contains(x) by {
        let i = choose|i: int| 0 <= i < more.len() && more[i] == x;
        assert(listed[i] == x);
    }
    assert forall|i: int| 0 <= i < es.len() implies {
        &&& reach::names_of(es, more).contains((#[trigger] es[i]).0)
        &&& reach::names_of(es, more).contains(es[i].1)
    } by {
        let m = more.len() as int;
        assert(listed[m + i] == groups::firsts(es)[i]);
        assert(listed[m + es.len() + i] == groups::seconds(es)[i]);
        assert(listed.contains(es[i].0));
        assert(listed.contains(es[i].1));
    }
}

/// The edges from each of the symbols to its callers.
fn list_callers(edges: &Vec<Edge>, symbols: &Vec<String>) -> (r: Vec<Edge>)
    ensures
        semantic::edges_of(r@) == callers(semantic::edges_of(edges@), text::texts(symbols@)),
{
    let ghost es = semantic::edges_of(edges@);
    let ghost ss = text::texts(symbols@);
    let ghost p = |e: (Seq<char>, Seq<char>)| ss.contains(e.1);
    let mut known: StringHashSet = StringHashSet::new();
    let mut i: usize = 0;
    while i < symbols.len()
        invariant
            i <= symbols@.len(),
            ss == text::texts(symbols@),
            forall|x: Seq<char>| #[trigger] known@.contains(x) <==> ss.take(i as int).contains(x),
        decreases symbols@.len() - i,
    {
        let ghost was = known@;
        known.insert(symbols[i].clone());
        proof {
            assert(ss.take(i + 1) =~= ss.take(i as int).push(symbols@[i as int]@));
            assert forall|x: Seq<char>| #[trigger] known@.contains(x) <==> ss.take(
                i + 1,
            ).contains(x) by {
                let before = ss.take(i as int);
                assert(known@.contains(x) <==> was.contains(x) || x == symbols@[i as int]@);
                if before.contains(x) {
                    let k = choose|k: int| 0 <= k < before.len() && before[k] == x;
                    assert(ss.take(i + 1)[k] == x);
                }
                if x == symbols@[i as int]@ {
                    assert(ss.take(i + 1)[i as int] == x);
                }
            }
        }
        i += 1;
    }
    assert(ss.take(i as int) =~= ss);
    let mut out: Vec<Edge> = Vec::new();
    let mut e: usize = 0;
    proof {
        reveal(Seq::filter);
        assert(es.take(0).filter(p) =~= Seq::<(Seq<char>, Seq<char>)>::empty());
        assert(semantic::edges_of(out@) =~= groups::flipped(es.take(0).filter(p)));
    }
    while e < edges.len()
        invariant
            e <= edges@.len(),
            es == semantic::edges_of(edges@),
            p == (|e: (Seq<char>, Seq<char>)| ss.contains(e.1)),
            forall|x: Seq<char>| #[trigger] known@.contains(x) <==> ss.contains(x),
            semantic::edges_of(out@) == groups::flipped(es.take(e as int).filter(p)),
        decreases edges@.len() - e,
    {
        let ghost was = out@;
        proof {
            reveal(Seq::filter);
            assert(es.take(e + 1).drop_last() =~= es.take(e as int));
            assert(es.take(e + 1).last() == edges@[e as int]@);
        }
        if known.contains(edges[e].to.as_str()) {
            out.push(Edge { from: edges[e].to.clone(), to: edges[e].from.clone() });
            proof {
                let kept = es.take(e as int).filter(p);
                assert(es.take(e + 1).filter(p) == kept.push(edges@[e as int]@));
                assert(semantic::edges_of(out@) =~= semantic::edges_of(was).push(
                    (edges@[e as int].to@, edges@[e as int].from@),
                ));
                assert(groups::flipped(kept.push(edges@[e as int]@)) =~= groups::flipped(kept).push(
                    (edges@[e as int].to@, edges@[e as int].from@),
                ));
            }
        }
        e += 1;
    }
    assert(es.take(e as int) =~= es);
    out
}

/// Sizes that the map holds as the model has them.
spec fn holds(map: Map<Seq<char>, usize>, sizes: Map<Seq<char>, nat>) -> bool {
    &&& map.dom() == sizes.dom()
    &&& forall|x: Seq<char>| #[trigger] map.contains_key(x) ==> map[x] == sizes[x]
}

/// How many names a component holds.
fn count_marks(marks: &Vec<bool>, Ghost(names): Ghost<Seq<Seq<char>>>, Ghost(p): Ghost<
    spec_fn(Seq<char>) -> bool,
>) -> (r: usize)
    requires
        marks@.len() == names.len(),
        forall|i: int| 0 <= i < marks@.len() ==> (#[trigger] marks@[i] <==> p(names[i])),
    ensures
        r == names.filter(p).len(),
{
    let mut size: usize = 0;
    let mut k: usize = 0;
    proof {
        reveal(Seq::filter);
        assert(names.take(0).filter(p) =~= Seq::<Seq<char>>::empty());
    }
    while k < marks.len()
        invariant
            k <= marks@.len(),
            marks@.len() == names.len(),
            forall|i: int| 0 <= i < marks@.len() ==> (#[trigger] marks@[i] <==> p(names[i])),
            size <= k,
            size == names.take(k as int).filter(p).len(),
        decreases marks@.len() - k,
    {
        proof {
            reveal(Seq::filter);
            assert(names.take(k + 1).drop_last() =~= names.take(k as int));
            assert(names.take(k + 1).last() == names[k as int]);
        }
        if marks[k] {
            size += 1;
        }
        k += 1;
    }
    assert(names.take(k as int) =~= names);
    size
}

/// The size of the component of each name that a call path from the symbols leads to,
/// and of each caller that was counted with them.
pub fn component_sizes(edges: &Vec<Edge>, symbols: &Vec<String>) -> (r: StringHashMap<usize>)
    ensures
        ({
            let sizes = sizes_of(semantic::edges_of(edges@), text::texts(symbols@));
            &&& r@.dom() == sizes.dom()
            &&& forall|x: Seq<char>| #[trigger] r@.contains_key(x) ==> r@[x] == sizes[x]
        }),
{
    let ghost es = semantic::edges_of(edges@);
    let ghost ss = text::texts(symbols@);
    let names = list_names(edges, symbols);
    let ghost ns = text::texts(names@);
    let back = list_callers(edges, symbols);
    let ghost bs = semantic::edges_of(back@);
    proof {
        lemma_names_of(es, ss);
        assert forall|k: int| 0 <= k < symbols@.len() implies ns.contains(
            (#[trigger] symbols@[k])@,
        ) by {
            assert(ss[k] == symbols@[k]@);
            assert(ss.contains(ss[k]));
        }
        assert forall|e: int| 0 <= e < edges@.len() implies {
            &&& ns.contains((#[trigger] edges@[e]).from@)
            &&& ns.contains(edges@[e].to@)
        } by {
            assert(es[e] == (edges@[e].from@, edges@[e].to@));
        }
        assert forall|e: int| 0 <= e < back@.len() implies {
            &&& ns.contains((#[trigger] back@[e]).from@)
            &&& ns.contains(back@[e].to@)
        } by {
            assert(bs[e] == (back@[e].from@, back@[e].to@));
            lemma_callers(es, ss, bs[e].0, bs[e].1);
            assert(bs.contains(bs[e]));
            let i = choose|i: int| 0 <= i < es.len() && es[i] == (bs[e].1, bs[e].0);
            assert(ns.contains(es[i].0) && ns.contains(es[i].1));
        }
    }
    let roots = find_all(&names, symbols);
    let names_again = text::copy_texts(&names);
    let forward = number(edges, names);
    let backward = number(&back, names_again);
    let order = walk(&forward, &roots, Ghost(es));
    let ghost all = named(order@, ns);
    let n: usize = forward.names.len();
    let mut taken = clear_flags(n);
    let mut map: StringHashMap<usize> = StringHashMap::new();
    let ghost mut sizes: Map<Seq<char>, nat> = Map::empty();
    let mut at: usize = order.len();
    proof {
        assert(all == leaving_order(es, ss));
        assert(all.take(at as int) =~= all);
        assert(map@.dom() =~= sizes.dom());
    }
    while at > 0
        invariant
            at <= order@.len(),
            n == ns.len(),
            ns == text::texts(backward.names@),
            all == named(order@, ns),
            backward.of(bs, ns),
            forall|k: int| 0 <= k < order@.len() ==> (#[trigger] order@[k]) < n,
            taken@.len() == n,
            forall|i: int|
                0 <= i < n ==> (#[trigger] taken@[i] <==> sizes.dom().contains(ns[i])),
            holds(map@, sizes),
            sized(bs, ns, all.take(at as int), sizes) == sized(bs, ns, all, Map::empty()),
        decreases at,
    {
        at -= 1;
        let root: usize = order[at];
        proof {
            assert(all.take(at + 1).drop_last() =~= all.take(at as int));
            assert(all.take(at + 1).last() == ns[root as int]);
        }
        if !taken[root] {
            let ghost dom = sizes.dom();
            let ghost free = untaken(bs, dom);
            let ghost origin = ns[root as int];
            let ghost p = |x: Seq<char>| reach::reaches(free, origin, x);
            let ghost part = component(bs, ns, dom, origin);
            proof {
                assert(backward.names@.len() == n);
                assert forall|i: int| 0 <= i < n implies (#[trigger] taken@[i] <==> dom.contains(
                    backward.names@[i]@,
                )) by {
                    assert(ns[i] == backward.names@[i]@);
                }
                assert(backward.names@[root as int]@ == origin);
            }
            let marks = mark_reached(&backward, root, &taken, Ghost(bs), Ghost(dom));
            let size = count_marks(&marks, Ghost(ns), Ghost(p));
            proof {
                assert(part == ns.filter(p));
            }
            take_component(
                &backward.names,
                &marks,
                size,
                &mut taken,
                &mut map,
                Ghost(sizes),
                Ghost(p),
            );
            proof {
                sizes = with_component(sizes, part);
            }
        }
    }
    proof {
        assert(all.take(0) =~= Seq::<Seq<char>>::empty());
        assert(sized(bs, ns, all.take(0), sizes) == sizes);
    }
    map
}

/// Gives each name of a component its size.
fn take_component(
    names: &Vec<String>,
    marks: &Vec<bool>,
    size: usize,
    taken: &mut Vec<bool>,
    map: &mut StringHashMap<usize>,
    Ghost(sizes): Ghost<Map<Seq<char>, nat>>,
    Ghost(p): Ghost<spec_fn(Seq<char>) -> bool>,
)
    requires
        text::texts(names@).no_duplicates(),
        marks@.len() == names@.len(),
        old(taken)@.len() == names@.len(),
        forall|i: int| 0 <= i < marks@.len() ==> (#[trigger] marks@[i] <==> p(names@[i]@)),
        forall|i: int|
            0 <= i < names@.len() ==> (#[trigger] old(taken)@[i] <==> sizes.dom().contains(
                names@[i]@,
            )),
        holds(old(map)@, sizes),
        size == text::texts(names@).filter(p).len(),
    ensures
        ({
            let sized = with_component(sizes, text::texts(names@).filter(p));
            &&& final(taken)@.len() == names@.len()
            &&& forall|i: int|
                0 <= i < names@.len() ==> (#[trigger] final(taken)@[i] <==> sized.dom().contains(
                    text::texts(names@)[i],
                ))
            &&& holds(final(map)@, sized)
        }),
{
    let ghost ns = text::texts(names@);
    let ghost part = ns.filter(p);
    let ghost sized = with_component(sizes, part);
    proof {
        assert forall|x: Seq<char>| #[trigger] part.contains(x) <==> ns.contains(x) && p(x) by {
            lemma_filter_contains(ns, p, x);
        }
    }
    let mut i: usize = 0;
    while i < names.len()
        invariant
            i <= names@.len(),
            ns == text::texts(names@),
            ns.no_duplicates(),
            part == ns.filter(p),
            size == part.len(),
            sized == with_component(sizes, part),
            marks@.len() == names@.len(),
            taken@.len() == names@.len(),
            forall|x: Seq<char>| #[trigger] part.contains(x) <==> ns.contains(x) && p(x),
            forall|k: int| 0 <= k < marks@.len() ==> (#[trigger] marks@[k] <==> p(names@[k]@)),
            forall|k: int|
                0 <= k < i ==> (#[trigger] taken@[k] <==> sized.dom().contains(ns[k])),
            forall|k: int|
                i <= k < names@.len() ==> (#[trigger] taken@[k] <==> sizes.dom().contains(ns[k])),
            forall|x: Seq<char>| #[trigger]
                map@.contains_key(x) <==> sizes.dom().contains(x) || (ns.take(i as int).contains(x)
                    && p(x)),
            forall|x: Seq<char>| #[trigger]
                map@.contains_key(x) ==> map@[x] == (if ns.take(i as int).contains(x) && p(x) {
                    part.len()
                } else {
                    sizes[x]
                }),
        decreases names@.len() - i,
    {
        let ghost before = ns.take(i as int);
        let ghost x0 = ns[i as int];
        let ghost was = map@;
        let ghost was_taken = taken@;
        proof {
            assert(names@[i as int]@ == x0);
            assert(ns.contains(x0));
            assert(ns.take(i + 1) =~= before.push(x0));
            assert forall|x: Seq<char>| #[trigger] ns.take(i + 1).contains(x) <==> before.contains(x)
                || x == x0 by {
                if before.contains(x) {
                    let k = choose|k: int| 0 <= k < before.len() && before[k] == x;
                    assert(ns.take(i + 1)[k] == x);
                }
                if x == x0 {
                    assert(ns.take(i + 1)[i as int] == x);
                }
            }
        }
        if marks[i] {
            taken.set(i, true);
            map.insert(names[i].clone(), size);
        }
        proof {
            assert(sized.dom().contains(x0) <==> sizes.dom().contains(x0) || part.contains(x0));
            assert forall|k: int| 0 <= k < i + 1 implies (#[trigger] taken@[k]
                <==> sized.dom().contains(ns[k])) by {
                if k < i {
                    assert(taken@[k] == was_taken[k]);
                }
            }
        }
        i += 1;
    }
    proof {
        assert(ns.take(i as int) =~= ns);
        assert forall|x: Seq<char>| map@.dom().contains(x) == sized.dom().contains(x) by {
            assert(map@.contains_key(x) == map@.dom().contains(x));
        }
        assert(map@.dom() =~= sized.dom());
        assert forall|x: Seq<char>| #[trigger] map@.contains_key(x) implies map@[x] == sized[x] by {
            assert(part.contains(x) <==> ns.contains(x) && p(x));
        }
    }
}

/// What a filtered list holds.
pub proof fn lemma_filter_contains<A>(s: Seq<A>, p: spec_fn(A) -> bool, x: A)
    ensures
        s.filter(p).contains(x) <==> s.contains(x) && p(x),
    decreases s.len(),
{
    s.filter_lemma(p);
    if s.contains(x) && p(x) {
        let i = choose|i: int| 0 <= i < s.len() && s[i] == x;
        assert(s.filter(p).contains(s[i]));
    }
    if s.len() > 0 {
        reveal(Seq::filter);
        let before = s.drop_last();
        lemma_filter_contains(before, p, x);
        if s.filter(p).contains(x) {
            let i = choose|i: int| 0 <= i < s.filter(p).len() && s.filter(p)[i] == x;
            if i < before.filter(p).len() {
                assert(before.filter(p)[i] == x);
                let k = choose|k: int| 0 <= k < before.len() && before[k] == x;
                assert(s[k] == x);
            } else {
                assert(s[s.len() - 1] == x);
            }
        }
    } else {
        reveal(Seq::filter);
    }
}

/// An edge to a caller is a call of a symbol.
pub proof fn lemma_callers(
    es: Seq<(Seq<char>, Seq<char>)>,
    symbols: Seq<Seq<char>>,
    callee: Seq<char>,
    caller: Seq<char>,
)
    ensures
        callers(es, symbols).contains((callee, caller)) <==> es.contains((caller, callee))
            && symbols.contains(callee),
{
    let p = |e: (Seq<char>, Seq<char>)| symbols.contains(e.1);
    let kept = es.filter(p);
    let bs = callers(es, symbols);
    lemma_filter_contains(es, p, (caller, callee));
    if kept.contains((caller, callee)) {
        let i = choose|i: int| 0 <= i < kept.len() && kept[i] == (caller, callee);
        assert(bs[i] == (callee, caller));
    }
    if bs.contains((callee, caller)) {
        let i = choose|i: int| 0 <= i < bs.len() && bs[i] == (callee, caller);
        assert(kept[i] == (caller, callee));
    }
}

} // verus!
