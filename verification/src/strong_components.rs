//! Where every caller of a symbol is a symbol itself, the components that the two walks
//! over a call graph take are its strong components.

use crate::components;
use crate::groups;
use crate::reach;
use vstd::prelude::*;

verus! {

// ---------------------------------------------------------------------------
// What the walk along the calls keeps
// ---------------------------------------------------------------------------

/// `v` is still to be entered, above the place `p` of the stack.
spec fn awaits(stack: Seq<(Seq<char>, bool)>, p: int, v: Seq<char>) -> bool {
    exists|q: int| p < q < stack.len() && 0 <= q && #[trigger] stack[q] == (v, false)
}

/// What a name leads to that was left no later than another was left no later either,
/// or reaches that other name.
spec fn settled(es: Seq<(Seq<char>, Seq<char>)>, left: Seq<Seq<char>>) -> bool {
    forall|k: int, i: int, v: Seq<char>|
        #![trigger es.contains((left[k], v)), left[i]]
        0 <= k <= i < left.len() && es.contains((left[k], v)) ==> left.take(i + 1).contains(v)
            || reach::reaches(es, v, left[i])
}

/// What was entered was left or stands open on the stack, and nothing is both.
spec fn entered_once(
    stack: Seq<(Seq<char>, bool)>,
    seen: Set<Seq<char>>,
    left: Seq<Seq<char>>,
) -> bool {
    &&& forall|v: Seq<char>| #[trigger]
        seen.contains(v) ==> left.contains(v) || stack.contains((v, true))
    &&& forall|k: int| 0 <= k < left.len() ==> seen.contains(#[trigger] left[k])
    &&& forall|p: int|
        0 <= p < stack.len() && (#[trigger] stack[p]).1 ==> seen.contains(stack[p].0)
            && !left.contains(stack[p].0)
    &&& forall|p: int, q: int|
        0 <= p < q < stack.len() && (#[trigger] stack[p]).1 && (#[trigger] stack[q]).1
            ==> stack[p].0 != stack[q].0
    &&& left.no_duplicates()
}

/// What an open name leads to was entered or will be before it is left, and what a name
/// leads to that was left was entered.
spec fn led_to(
    es: Seq<(Seq<char>, Seq<char>)>,
    stack: Seq<(Seq<char>, bool)>,
    seen: Set<Seq<char>>,
    left: Seq<Seq<char>>,
) -> bool {
    &&& forall|p: int, v: Seq<char>|
        #![trigger es.contains((stack[p].0, v))]
        0 <= p < stack.len() && stack[p].1 && es.contains((stack[p].0, v)) ==> seen.contains(v)
            || awaits(stack, p, v)
    &&& forall|k: int, v: Seq<char>| #[trigger]
        es.contains((left[k], v)) && 0 <= k < left.len() ==> seen.contains(v)
}

/// What holds between any two steps of the walk.
spec fn walking(
    es: Seq<(Seq<char>, Seq<char>)>,
    symbols: Seq<Seq<char>>,
    names: Seq<Seq<char>>,
    stack: Seq<(Seq<char>, bool)>,
    seen: Set<Seq<char>>,
    left: Seq<Seq<char>>,
) -> bool {
    &&& entered_once(stack, seen, left)
    &&& led_to(es, stack, seen, left)
    &&& settled(es, left)
    &&& forall|p: int, q: int|
        0 <= p < q < stack.len() && (#[trigger] stack[p]).1 ==> reach::reaches(
            es,
            stack[p].0,
            (#[trigger] stack[q]).0,
        )
    &&& forall|p: int| 0 <= p < stack.len() ==> names.contains((#[trigger] stack[p]).0)
    &&& forall|k: int| 0 <= k < left.len() ==> names.contains(#[trigger] left[k])
    &&& forall|s: Seq<char>| #[trigger]
        symbols.contains(s) ==> seen.contains(s) || awaits(stack, -1, s)
}

/// Edges join names of the graph.
spec fn within(es: Seq<(Seq<char>, Seq<char>)>, names: Seq<Seq<char>>) -> bool {
    forall|a: Seq<char>, b: Seq<char>| #[trigger] es.contains((a, b)) ==> names.contains(b)
}

/// One name is left.
proof fn lemma_leave(
    es: Seq<(Seq<char>, Seq<char>)>,
    symbols: Seq<Seq<char>>,
    names: Seq<Seq<char>>,
    stack: Seq<(Seq<char>, bool)>,
    seen: Set<Seq<char>>,
    left: Seq<Seq<char>>,
)
    requires
        walking(es, symbols, names, stack, seen, left),
        stack.len() > 0,
        stack.last().1,
    ensures
        walking(es, symbols, names, stack.drop_last(), seen, left.push(stack.last().0)),
{
    let top = stack.len() - 1;
    let x = stack[top].0;
    let rest = stack.drop_last();
    let after = left.push(x);
    assert(stack[top].1);
    assert forall|v: Seq<char>| #[trigger] seen.contains(v) implies after.contains(v)
        || rest.contains((v, true)) by {
        if left.contains(v) {
            let k = choose|k: int| 0 <= k < left.len() && left[k] == v;
            assert(after[k] == v);
        } else {
            let p = choose|p: int| 0 <= p < stack.len() && stack[p] == (v, true);
            if p == top {
                assert(after[left.len() as int] == v);
            } else {
                assert(rest[p] == (v, true));
            }
        }
    }
    assert forall|k: int| 0 <= k < after.len() implies seen.contains(#[trigger] after[k]) by {
        if k < left.len() {
            assert(after[k] == left[k]);
        }
    }
    assert forall|p: int| 0 <= p < rest.len() && (#[trigger] rest[p]).1 implies seen.contains(
        rest[p].0,
    ) && !after.contains(rest[p].0) by {
        assert(rest[p] == stack[p]);
        assert(stack[p].0 != stack[top].0);
        if after.contains(rest[p].0) {
            let k = choose|k: int| 0 <= k < after.len() && after[k] == rest[p].0;
            assert(left[k] == rest[p].0);
        }
    }
    assert forall|p: int, q: int|
        0 <= p < q < rest.len() && (#[trigger] rest[p]).1 && (#[trigger] rest[q]).1 implies rest[p].0
        != rest[q].0 by {
        assert(rest[p] == stack[p] && rest[q] == stack[q]);
    }
    assert forall|k: int| 0 <= k < after.len() implies names.contains(#[trigger] after[k]) by {
        if k < left.len() {
            assert(after[k] == left[k]);
        } else {
            assert(names.contains(stack[top].0));
        }
    }
    assert(after.no_duplicates()) by {
        assert(!left.contains(x));
    }
    assert(entered_once(rest, seen, after));
    // What the name leads to was entered by now.
    assert forall|v: Seq<char>| #[trigger] es.contains((x, v)) implies seen.contains(v) by {
        assert(es.contains((stack[top].0, v)));
        assert(!awaits(stack, top, v));
    }
    assert forall|p: int, v: Seq<char>|
        #![trigger es.contains((rest[p].0, v))]
        0 <= p < rest.len() && rest[p].1 && es.contains((rest[p].0, v)) implies seen.contains(v)
        || awaits(rest, p, v) by {
        assert(rest[p] == stack[p]);
        assert(es.contains((stack[p].0, v)));
        if !seen.contains(v) {
            let q = choose|q: int| p < q < stack.len() && 0 <= q && #[trigger] stack[q] == (v, false);
            assert(rest[q] == (v, false));
        }
    }
    assert forall|k: int, v: Seq<char>| #[trigger]
        es.contains((after[k], v)) && 0 <= k < after.len() implies seen.contains(v) by {
        if k < left.len() {
            assert(es.contains((left[k], v)));
        }
    }
    assert(led_to(es, rest, seen, after));
    assert forall|k: int, i: int, v: Seq<char>|
        #![trigger es.contains((after[k], v)), after[i]]
        0 <= k <= i < after.len() && es.contains((after[k], v)) implies after.take(i + 1).contains(v)
        || reach::reaches(es, v, after[i]) by {
        if i < left.len() {
            assert(after[k] == left[k] && after[i] == left[i]);
            assert(es.contains((left[k], v)));
            assert(after.take(i + 1) =~= left.take(i + 1));
        } else {
            assert(seen.contains(v));
            assert(after.take(i + 1) =~= after);
            if !after.contains(v) {
                let p = choose|p: int| 0 <= p < rest.len() && rest[p] == (v, true);
                assert(stack[p] == (v, true));
                assert(reach::reaches(es, stack[p].0, stack[top].0));
            }
        }
    }
    assert forall|p: int, q: int| 0 <= p < q < rest.len() && (#[trigger] rest[p]).1 implies
        reach::reaches(es, rest[p].0, (#[trigger] rest[q]).0) by {
        assert(rest[p] == stack[p] && rest[q] == stack[q]);
    }
    assert forall|p: int| 0 <= p < rest.len() implies names.contains((#[trigger] rest[p]).0) by {
        assert(rest[p] == stack[p]);
    }
    assert forall|s: Seq<char>| #[trigger] symbols.contains(s) implies seen.contains(s) || awaits(
        rest,
        -1,
        s,
    ) by {
        if !seen.contains(s) {
            let q = choose|q: int| -1 < q < stack.len() && 0 <= q && #[trigger] stack[q] == (s, false);
            assert(rest[q] == (s, false));
        }
    }
}

/// A name that was entered before is passed over.
proof fn lemma_skip(
    es: Seq<(Seq<char>, Seq<char>)>,
    symbols: Seq<Seq<char>>,
    names: Seq<Seq<char>>,
    stack: Seq<(Seq<char>, bool)>,
    seen: Set<Seq<char>>,
    left: Seq<Seq<char>>,
)
    requires
        walking(es, symbols, names, stack, seen, left),
        stack.len() > 0,
        !stack.last().1,
        seen.contains(stack.last().0),
    ensures
        walking(es, symbols, names, stack.drop_last(), seen, left),
{
    let top = stack.len() - 1;
    let rest = stack.drop_last();
    assert forall|v: Seq<char>| #[trigger] seen.contains(v) implies left.contains(v)
        || rest.contains((v, true)) by {
        if !left.contains(v) {
            let p = choose|p: int| 0 <= p < stack.len() && stack[p] == (v, true);
            assert(rest[p] == (v, true));
        }
    }
    assert forall|p: int| 0 <= p < rest.len() && (#[trigger] rest[p]).1 implies seen.contains(
        rest[p].0,
    ) && !left.contains(rest[p].0) by {
        assert(rest[p] == stack[p]);
    }
    assert forall|p: int, q: int|
        0 <= p < q < rest.len() && (#[trigger] rest[p]).1 && (#[trigger] rest[q]).1 implies rest[p].0
        != rest[q].0 by {
        assert(rest[p] == stack[p] && rest[q] == stack[q]);
    }
    assert forall|p: int, v: Seq<char>|
        #![trigger es.contains((rest[p].0, v))]
        0 <= p < rest.len() && rest[p].1 && es.contains((rest[p].0, v)) implies seen.contains(v)
        || awaits(rest, p, v) by {
        assert(rest[p] == stack[p]);
        assert(es.contains((stack[p].0, v)));
        if !seen.contains(v) {
            let q = choose|q: int| p < q < stack.len() && 0 <= q && #[trigger] stack[q] == (v, false);
            assert(rest[q] == (v, false));
        }
    }
    assert forall|p: int, q: int| 0 <= p < q < rest.len() && (#[trigger] rest[p]).1 implies
        reach::reaches(es, rest[p].0, (#[trigger] rest[q]).0) by {
        assert(rest[p] == stack[p] && rest[q] == stack[q]);
    }
    assert forall|p: int| 0 <= p < rest.len() implies names.contains((#[trigger] rest[p]).0) by {
        assert(rest[p] == stack[p]);
    }
    assert forall|s: Seq<char>| #[trigger] symbols.contains(s) implies seen.contains(s) || awaits(
        rest,
        -1,
        s,
    ) by {
        if !seen.contains(s) {
            let q = choose|q: int| -1 < q < stack.len() && 0 <= q && #[trigger] stack[q] == (s, false);
            assert(rest[q] == (s, false));
        }
    }
}

/// A name is entered.
proof fn lemma_enter(
    es: Seq<(Seq<char>, Seq<char>)>,
    symbols: Seq<Seq<char>>,
    names: Seq<Seq<char>>,
    stack: Seq<(Seq<char>, bool)>,
    seen: Set<Seq<char>>,
    left: Seq<Seq<char>>,
)
    requires
        walking(es, symbols, names, stack, seen, left),
        within(es, names),
        stack.len() > 0,
        !stack.last().1,
        !seen.contains(stack.last().0),
    ensures
        ({
            let x = stack.last().0;
            walking(
                es,
                symbols,
                names,
                stack.drop_last().push((x, true)) + components::to_enter(
                    groups::seconds_of(es, x),
                ),
                seen.insert(x),
                left,
            )
        }),
{
    let top = stack.len() - 1;
    let x = stack[top].0;
    let next = groups::seconds_of(es, x);
    let above = components::to_enter(next);
    let rest = stack.drop_last();
    let grown = rest.push((x, true)) + above;
    let now = seen.insert(x);
    assert(grown[top] == (x, true));
    assert forall|p: int| 0 <= p < top implies #[trigger] grown[p] == stack[p] by {
        assert(grown[p] == rest[p]);
    }
    assert forall|p: int| top < p < grown.len() implies !(#[trigger] grown[p]).1 && es.contains(
        (x, grown[p].0),
    ) by {
        assert(grown[p] == above[p - top - 1]);
        assert(next.contains(grown[p].0));
        components::lemma_seconds_of(es, x, grown[p].0);
    }
    assert(reach::reached_in(es, x, x, 0));
    assert forall|p: int| top < p < grown.len() implies reach::reaches(
        es,
        x,
        (#[trigger] grown[p]).0,
    ) by {
        assert(es.contains((x, grown[p].0)));
        assert(reach::reached_in(es, x, x, (1 - 1) as nat));
        assert(reach::reached_in(es, x, grown[p].0, 1));
    }
    // An entry to be entered is there as before, or was the one just entered.
    assert forall|p: int, v: Seq<char>| p < top && #[trigger] awaits(stack, p, v) implies now.contains(
        v,
    ) || awaits(grown, p, v) by {
        let q = choose|q: int| p < q < stack.len() && 0 <= q && #[trigger] stack[q] == (v, false);
        if q < top {
            assert(grown[q] == (v, false));
        }
    }
    assert forall|v: Seq<char>| #[trigger] now.contains(v) implies left.contains(v)
        || grown.contains((v, true)) by {
        if v == x {
            assert(grown[top] == (v, true));
        } else if !left.contains(v) {
            assert(seen.contains(v));
            let p = choose|p: int| 0 <= p < stack.len() && stack[p] == (v, true);
            assert(grown[p] == (v, true));
        }
    }
    assert(!left.contains(x)) by {
        if left.contains(x) {
            let k = choose|k: int| 0 <= k < left.len() && left[k] == x;
            assert(seen.contains(left[k]));
        }
    }
    assert forall|p: int| 0 <= p < grown.len() && (#[trigger] grown[p]).1 implies now.contains(
        grown[p].0,
    ) && !left.contains(grown[p].0) by {
        if p < top {
            assert(stack[p].1);
        }
    }
    assert forall|p: int, q: int|
        0 <= p < q < grown.len() && (#[trigger] grown[p]).1 && (#[trigger] grown[q]).1 implies grown[p].0
        != grown[q].0 by {
        assert(q <= top);
        assert(grown[p] == stack[p]);
        assert(seen.contains(stack[p].0));
        if q < top {
            assert(grown[q] == stack[q]);
        }
    }
    assert(entered_once(grown, now, left));
    assert forall|p: int, v: Seq<char>|
        #![trigger es.contains((grown[p].0, v))]
        0 <= p < grown.len() && grown[p].1 && es.contains((grown[p].0, v)) implies now.contains(v)
        || awaits(grown, p, v) by {
        if p < top {
            assert(grown[p] == stack[p]);
            assert(es.contains((stack[p].0, v)));
        } else {
            assert(p == top);
            components::lemma_seconds_of(es, x, v);
            let k = choose|k: int| 0 <= k < next.len() && next[k] == v;
            assert(above[next.len() - 1 - k] == (v, false));
            assert(grown[top + 1 + next.len() - 1 - k] == (v, false));
        }
    }
    assert(led_to(es, grown, now, left));
    assert forall|p: int, q: int| 0 <= p < q < grown.len() && (#[trigger] grown[p]).1 implies
        reach::reaches(es, grown[p].0, (#[trigger] grown[q]).0) by {
        if p < top {
            assert(grown[p] == stack[p]);
            if q < top {
                assert(grown[q] == stack[q]);
                assert(reach::reaches(es, stack[p].0, stack[q].0));
            } else {
                assert(reach::reaches(es, stack[p].0, stack[top].0));
                if q > top {
                    reach::law_reaching_is_transitive(es, stack[p].0, x, grown[q].0);
                }
            }
        } else {
            assert(p == top);
        }
    }
    assert forall|p: int| 0 <= p < grown.len() implies names.contains((#[trigger] grown[p]).0) by {
        if p < top {
            assert(grown[p] == stack[p]);
        } else if p == top {
            assert(names.contains(stack[top].0));
        } else {
            assert(es.contains((x, grown[p].0)));
        }
    }
    assert forall|s: Seq<char>| #[trigger] symbols.contains(s) implies now.contains(s) || awaits(
        grown,
        -1,
        s,
    ) by {
        if !seen.contains(s) {
            assert(awaits(stack, -1, s));
        }
    }
}

/// The walk leaves each symbol, no name twice, and settles what it leaves.
proof fn lemma_walk(
    es: Seq<(Seq<char>, Seq<char>)>,
    symbols: Seq<Seq<char>>,
    names: Seq<Seq<char>>,
    stack: Seq<(Seq<char>, bool)>,
    seen: Set<Seq<char>>,
    left: Seq<Seq<char>>,
)
    requires
        walking(es, symbols, names, stack, seen, left),
        within(es, names),
    ensures
        ({
            let order = components::left_by(es, names, stack, seen, left);
            &&& order.no_duplicates()
            &&& settled(es, order)
            &&& forall|s: Seq<char>| #[trigger] symbols.contains(s) ==> order.contains(s)
            &&& forall|k: int| 0 <= k < order.len() ==> names.contains(#[trigger] order[k])
        }),
    decreases components::unseen(names, seen), stack.len(),
{
    if stack.len() == 0 {
        assert forall|s: Seq<char>| #[trigger] symbols.contains(s) implies left.contains(s) by {
            assert(!awaits(stack, -1, s));
            assert(seen.contains(s));
            assert(!stack.contains((s, true)));
        }
    } else {
        let x = stack.last().0;
        assert(names.contains(stack[stack.len() - 1].0));
        if stack.last().1 {
            lemma_leave(es, symbols, names, stack, seen, left);
            lemma_walk(es, symbols, names, stack.drop_last(), seen, left.push(x));
        } else if seen.contains(x) {
            lemma_skip(es, symbols, names, stack, seen, left);
            lemma_walk(es, symbols, names, stack.drop_last(), seen, left);
        } else {
            lemma_enter(es, symbols, names, stack, seen, left);
            components::lemma_unseen_falls(names, seen, x);
            lemma_walk(
                es,
                symbols,
                names,
                stack.drop_last().push((x, true)) + components::to_enter(groups::seconds_of(es, x)),
                seen.insert(x),
                left,
            );
        }
    }
}

/// The order in which the walk from the symbols leaves the names.
proof fn lemma_leaving_order(es: Seq<(Seq<char>, Seq<char>)>, symbols: Seq<Seq<char>>)
    ensures
        ({
            let order = components::leaving_order(es, symbols);
            &&& order.no_duplicates()
            &&& settled(es, order)
            &&& forall|s: Seq<char>| #[trigger] symbols.contains(s) ==> order.contains(s)
            &&& forall|k: int| 0 <= k < order.len() ==> reach::names_of(es, symbols).contains(#[trigger] order[k])
        }),
{
    let names = reach::names_of(es, symbols);
    let stack = components::to_enter(symbols);
    components::lemma_names_of(es, symbols);
    assert(within(es, names)) by {
        assert forall|a: Seq<char>, b: Seq<char>| #[trigger] es.contains((a, b)) implies names.contains(
            b,
        ) by {
            let i = choose|i: int| 0 <= i < es.len() && es[i] == (a, b);
            assert(names.contains(es[i].1));
        }
    }
    assert forall|p: int| 0 <= p < stack.len() implies names.contains((#[trigger] stack[p]).0) by {
        assert(symbols.contains(symbols[symbols.len() - 1 - p]));
    }
    assert forall|s: Seq<char>| #[trigger] symbols.contains(s) implies awaits(stack, -1, s) by {
        let i = choose|i: int| 0 <= i < symbols.len() && symbols[i] == s;
        assert(stack[symbols.len() - 1 - i] == (s, false));
    }
    lemma_walk(es, symbols, names, stack, Set::empty(), Seq::empty());
}

// ---------------------------------------------------------------------------
// What the walk against the calls takes
// ---------------------------------------------------------------------------

/// Whoever calls a symbol is a symbol.
pub open spec fn callers_are_symbols(
    es: Seq<(Seq<char>, Seq<char>)>,
    symbols: Seq<Seq<char>>,
) -> bool {
    forall|a: Seq<char>, b: Seq<char>| #[trigger]
        es.contains((a, b)) && symbols.contains(b) ==> symbols.contains(a)
}

/// What reaches a symbol is a symbol.
proof fn lemma_reaching_a_symbol(
    es: Seq<(Seq<char>, Seq<char>)>,
    symbols: Seq<Seq<char>>,
    y: Seq<char>,
    x: Seq<char>,
    n: nat,
)
    requires
        callers_are_symbols(es, symbols),
        symbols.contains(x),
        reach::reached_in(es, y, x, n),
    ensures
        symbols.contains(y),
    decreases n,
{
    if n > 0 {
        let m = choose|m: Seq<char>|
            reach::reached_in(es, y, m, (n - 1) as nat) && #[trigger] es.contains((m, x));
        lemma_reaching_a_symbol(es, symbols, y, m, (n - 1) as nat);
    }
}

/// One edge is enough to reach its end.
proof fn lemma_one_edge(es: Seq<(Seq<char>, Seq<char>)>, a: Seq<char>, b: Seq<char>)
    requires
        es.contains((a, b)),
    ensures
        reach::reaches(es, a, b),
{
    assert(reach::reached_in(es, a, a, (1 - 1) as nat));
    assert(reach::reached_in(es, a, b, 1));
}

/// What a symbol takes are symbols that reach it and were not taken.
proof fn lemma_taken_reach_root(
    es: Seq<(Seq<char>, Seq<char>)>,
    symbols: Seq<Seq<char>>,
    taken: Set<Seq<char>>,
    root: Seq<char>,
    y: Seq<char>,
    n: nat,
)
    requires
        callers_are_symbols(es, symbols),
        symbols.contains(root),
        !taken.contains(root),
        reach::reached_in(
            components::untaken(components::callers(es, symbols), taken),
            root,
            y,
            n,
        ),
    ensures
        reach::reaches(es, y, root),
        symbols.contains(y),
        !taken.contains(y),
    decreases n,
{
    if n == 0 {
        assert(reach::reached_in(es, root, root, 0));
    } else {
        let back = components::callers(es, symbols);
        let free = components::untaken(back, taken);
        let m = choose|m: Seq<char>|
            reach::reached_in(free, root, m, (n - 1) as nat) && #[trigger] free.contains((m, y));
        lemma_taken_reach_root(es, symbols, taken, root, m, (n - 1) as nat);
        components::lemma_untaken(back, taken, (m, y));
        components::lemma_callers(es, symbols, m, y);
        lemma_one_edge(es, y, m);
        reach::law_reaching_is_transitive(es, y, m, root);
    }
}

/// Of the symbols, whole strong components were taken.
spec fn whole(
    es: Seq<(Seq<char>, Seq<char>)>,
    symbols: Seq<Seq<char>>,
    taken: Set<Seq<char>>,
) -> bool {
    forall|x: Seq<char>, y: Seq<char>|
        #![trigger taken.contains(x), reach::mutual(es, x, y)]
        symbols.contains(x) && taken.contains(x) && reach::mutual(es, x, y) ==> taken.contains(y)
}

/// A symbol takes the names of its strong component.
proof fn lemma_root_takes_mutual(
    es: Seq<(Seq<char>, Seq<char>)>,
    symbols: Seq<Seq<char>>,
    taken: Set<Seq<char>>,
    root: Seq<char>,
    y: Seq<char>,
    n: nat,
)
    requires
        callers_are_symbols(es, symbols),
        symbols.contains(root),
        !taken.contains(root),
        whole(es, symbols, taken),
        reach::reached_in(groups::flipped(es), root, y, n),
        reach::reaches(es, root, y),
    ensures
        reach::reaches(
            components::untaken(components::callers(es, symbols), taken),
            root,
            y,
        ),
    decreases n,
{
    let back = components::callers(es, symbols);
    let free = components::untaken(back, taken);
    if n == 0 {
        assert(reach::reached_in(free, root, root, 0));
    } else {
        let fs = groups::flipped(es);
        let m = choose|m: Seq<char>|
            reach::reached_in(fs, root, m, (n - 1) as nat) && #[trigger] fs.contains((m, y));
        let i = choose|i: int| 0 <= i < fs.len() && fs[i] == (m, y);
        assert(es[i] == (y, m));
        lemma_one_edge(es, y, m);
        reach::law_reaching_is_transitive(es, root, y, m);
        lemma_root_takes_mutual(es, symbols, taken, root, m, (n - 1) as nat);
        reach::law_flipped_edges_reach_backwards(es, root, m);
        reach::law_flipped_edges_reach_backwards(es, root, y);
        let dm = choose|d: nat| reach::reached_in(es, m, root, d);
        lemma_reaching_a_symbol(es, symbols, m, root, dm);
        let dy = choose|d: nat| reach::reached_in(es, y, root, d);
        lemma_reaching_a_symbol(es, symbols, y, root, dy);
        assert(reach::mutual(es, m, root) && reach::mutual(es, y, root));
        components::lemma_callers(es, symbols, m, y);
        components::lemma_untaken(back, taken, (m, y));
        lemma_one_edge(free, m, y);
        reach::law_reaching_is_transitive(free, root, m, y);
    }
}

/// On its way to the root a call path from a name that was left earlier passes one that
/// was left later and reaches it.
proof fn lemma_leaves_prefix(
    es: Seq<(Seq<char>, Seq<char>)>,
    symbols: Seq<Seq<char>>,
    taken: Set<Seq<char>>,
    order: Seq<Seq<char>>,
    root: Seq<char>,
    a: int,
    y: Seq<char>,
    n: nat,
) -> (z: Seq<char>)
    requires
        settled(es, order),
        0 <= a < order.len(),
        !order.take(a + 1).contains(root),
        order.take(a + 1).contains(y),
        reach::reached_in(
            components::untaken(components::callers(es, symbols), taken),
            root,
            y,
            n,
        ),
    ensures
        !order.take(a + 1).contains(z),
        reach::reaches(es, z, order[a]),
        reach::reaches(
            components::untaken(components::callers(es, symbols), taken),
            root,
            z,
        ),
    decreases n,
{
    let back = components::callers(es, symbols);
    let free = components::untaken(back, taken);
    let m = choose|m: Seq<char>|
        reach::reached_in(free, root, m, (n - 1) as nat) && #[trigger] free.contains((m, y));
    components::lemma_untaken(back, taken, (m, y));
    components::lemma_callers(es, symbols, m, y);
    if order.take(a + 1).contains(m) {
        lemma_leaves_prefix(es, symbols, taken, order, root, a, m, (n - 1) as nat)
    } else {
        let first = order.take(a + 1);
        let k = choose|k: int| 0 <= k < first.len() && first[k] == y;
        assert(order[k] == y);
        assert(es.contains((order[k], m)));
        assert(order[a] == order[a]);
        m
    }
}

/// The root reaches what it takes.
proof fn lemma_root_reaches(
    es: Seq<(Seq<char>, Seq<char>)>,
    symbols: Seq<Seq<char>>,
    taken: Set<Seq<char>>,
    order: Seq<Seq<char>>,
    i: int,
    a: int,
)
    requires
        settled(es, order),
        order.no_duplicates(),
        0 <= a <= i < order.len(),
        forall|z: Seq<char>| #[trigger]
            reach::reaches(
                components::untaken(components::callers(es, symbols), taken),
                order[i],
                z,
            ) ==> order.take(i + 1).contains(z),
        reach::reaches(
            components::untaken(components::callers(es, symbols), taken),
            order[i],
            order[a],
        ),
    ensures
        reach::reaches(es, order[i], order[a]),
    decreases i - a,
{
    if a == i {
        assert(reach::reached_in(es, order[i], order[i], 0));
    } else {
        let free = components::untaken(components::callers(es, symbols), taken);
        let first = order.take(a + 1);
        if first.contains(order[i]) {
            let k = choose|k: int| 0 <= k < first.len() && first[k] == order[i];
            assert(order[k] == order[i]);
        }
        assert(first[a] == order[a]);
        let n = choose|n: nat| reach::reached_in(free, order[i], order[a], n);
        let z = lemma_leaves_prefix(es, symbols, taken, order, order[i], a, order[a], n);
        let all = order.take(i + 1);
        let b = choose|b: int| 0 <= b < all.len() && all[b] == z;
        assert(order[b] == z);
        if b <= a {
            assert(first[b] == z);
        }
        lemma_root_reaches(es, symbols, taken, order, i, b);
        reach::law_reaching_is_transitive(es, order[i], z, order[a]);
    }
}

/// The sizes taken so far are those of strong components.
spec fn taking(
    es: Seq<(Seq<char>, Seq<char>)>,
    symbols: Seq<Seq<char>>,
    order: Seq<Seq<char>>,
    i: int,
    sizes: Map<Seq<char>, nat>,
) -> bool {
    &&& 0 <= i <= order.len()
    &&& forall|k: int| i <= k < order.len() ==> sizes.dom().contains(#[trigger] order[k])
    &&& whole(es, symbols, sizes.dom())
    &&& forall|x: Seq<char>|
        symbols.contains(x) && #[trigger] sizes.dom().contains(x) ==> sizes[x]
            == reach::component_size(es, reach::names_of(es, symbols), x)
}

/// A symbol takes its strong component, and nothing else.
proof fn lemma_root_takes(
    es: Seq<(Seq<char>, Seq<char>)>,
    symbols: Seq<Seq<char>>,
    order: Seq<Seq<char>>,
    i: int,
    sizes: Map<Seq<char>, nat>,
    y: Seq<char>,
)
    requires
        callers_are_symbols(es, symbols),
        settled(es, order),
        order.no_duplicates(),
        forall|s: Seq<char>| #[trigger] symbols.contains(s) ==> order.contains(s),
        0 <= i < order.len(),
        taking(es, symbols, order, i + 1, sizes),
        symbols.contains(order[i]),
        !sizes.dom().contains(order[i]),
    ensures
        reach::reaches(
            components::untaken(components::callers(es, symbols), sizes.dom()),
            order[i],
            y,
        ) <==> reach::mutual(es, order[i], y),
{
    let taken = sizes.dom();
    let root = order[i];
    let free = components::untaken(components::callers(es, symbols), taken);
    if reach::mutual(es, root, y) {
        reach::law_flipped_edges_reach_backwards(es, root, y);
        let fs = groups::flipped(es);
        let n = choose|n: nat| reach::reached_in(fs, root, y, n);
        lemma_root_takes_mutual(es, symbols, taken, root, y, n);
    }
    if reach::reaches(free, root, y) {
        assert forall|z: Seq<char>| #[trigger] reach::reaches(free, root, z) implies order.take(
            i + 1,
        ).contains(z) by {
            let n = choose|n: nat| reach::reached_in(free, root, z, n);
            lemma_taken_reach_root(es, symbols, taken, root, z, n);
            let k = choose|k: int| 0 <= k < order.len() && order[k] == z;
            assert(!taken.contains(order[k]));
            assert(order.take(i + 1)[k] == z);
        }
        let n = choose|n: nat| reach::reached_in(free, root, y, n);
        lemma_taken_reach_root(es, symbols, taken, root, y, n);
        let all = order.take(i + 1);
        let a = choose|a: int| 0 <= a < all.len() && all[a] == y;
        assert(order[a] == y);
        lemma_root_reaches(es, symbols, taken, order, i, a);
    }
}

/// A name that is no symbol takes itself alone.
proof fn lemma_outsider_takes(
    es: Seq<(Seq<char>, Seq<char>)>,
    symbols: Seq<Seq<char>>,
    taken: Set<Seq<char>>,
    root: Seq<char>,
    y: Seq<char>,
    n: nat,
)
    requires
        !symbols.contains(root),
        reach::reached_in(
            components::untaken(components::callers(es, symbols), taken),
            root,
            y,
            n,
        ),
    ensures
        y == root,
    decreases n,
{
    if n > 0 {
        let back = components::callers(es, symbols);
        let free = components::untaken(back, taken);
        let m = choose|m: Seq<char>|
            reach::reached_in(free, root, m, (n - 1) as nat) && #[trigger] free.contains((m, y));
        lemma_outsider_takes(es, symbols, taken, root, m, (n - 1) as nat);
        components::lemma_untaken(back, taken, (m, y));
        components::lemma_callers(es, symbols, m, y);
    }
}

/// One more component is taken.
proof fn lemma_take(
    es: Seq<(Seq<char>, Seq<char>)>,
    symbols: Seq<Seq<char>>,
    order: Seq<Seq<char>>,
    i: int,
    sizes: Map<Seq<char>, nat>,
)
    requires
        callers_are_symbols(es, symbols),
        settled(es, order),
        order.no_duplicates(),
        forall|s: Seq<char>| #[trigger] symbols.contains(s) ==> order.contains(s),
        forall|k: int|
            0 <= k < order.len() ==> reach::names_of(es, symbols).contains(#[trigger] order[k]),
        0 <= i < order.len(),
        taking(es, symbols, order, i + 1, sizes),
        !sizes.dom().contains(order[i]),
    ensures
        taking(
            es,
            symbols,
            order,
            i,
            components::with_component(
                sizes,
                components::component(
                    components::callers(es, symbols),
                    reach::names_of(es, symbols),
                    sizes.dom(),
                    order[i],
                ),
            ),
        ),
{
    let root = order[i];
    let names = reach::names_of(es, symbols);
    let back = components::callers(es, symbols);
    let free = components::untaken(back, sizes.dom());
    let p = |x: Seq<char>| reach::reaches(free, root, x);
    let part = components::component(back, names, sizes.dom(), root);
    let more = components::with_component(sizes, part);
    assert forall|x: Seq<char>| #[trigger] part.contains(x) <==> names.contains(x) && p(x) by {
        components::lemma_filter_contains(names, p, x);
    }
    assert forall|x: Seq<char>| #[trigger] more.dom().contains(x) <==> sizes.dom().contains(x)
        || part.contains(x) by {}
    assert(reach::reached_in(free, root, root, 0));
    assert(p(root));
    assert(part.contains(root));
    assert forall|k: int| i <= k < order.len() implies more.dom().contains(#[trigger] order[k]) by {}
    if symbols.contains(root) {
        let q = |x: Seq<char>| reach::mutual(es, root, x);
        assert forall|x: Seq<char>| #[trigger] p(x) == q(x) by {
            lemma_root_takes(es, symbols, order, i, sizes, x);
        }
        assert(p =~= q);
        assert(part.len() == reach::component_size(es, names, root));
        assert forall|x: Seq<char>|
            symbols.contains(x) && #[trigger] more.dom().contains(x) implies more[x]
            == reach::component_size(es, names, x) by {
            if part.contains(x) {
                assert(q(x));
                reach::law_a_component_has_one_size(es, names, root, x);
            }
        }
        assert forall|x: Seq<char>, y: Seq<char>|
            #![trigger more.dom().contains(x), reach::mutual(es, x, y)]
            symbols.contains(x) && more.dom().contains(x) && reach::mutual(es, x, y) implies more.dom().contains(
            y,
        ) by {
            if sizes.dom().contains(x) {
                assert(sizes.dom().contains(y));
            } else {
                assert(q(x));
                reach::law_reaching_is_transitive(es, root, x, y);
                reach::law_reaching_is_transitive(es, y, x, root);
                assert(q(y) && p(y));
                let d = choose|d: nat| reach::reached_in(es, y, root, d);
                lemma_reaching_a_symbol(es, symbols, y, root, d);
                assert(order.contains(y));
                let k = choose|k: int| 0 <= k < order.len() && order[k] == y;
                assert(names.contains(order[k]));
                assert(part.contains(y));
            }
        }
    } else {
        assert forall|x: Seq<char>| #[trigger] part.contains(x) implies x == root by {
            assert(p(x));
            let n = choose|n: nat| reach::reached_in(free, root, x, n);
            lemma_outsider_takes(es, symbols, sizes.dom(), root, x, n);
        }
        assert forall|x: Seq<char>|
            symbols.contains(x) && #[trigger] more.dom().contains(x) implies more[x]
            == reach::component_size(es, names, x) by {
            assert(!part.contains(x));
            assert(sizes.dom().contains(x));
        }
        assert forall|x: Seq<char>, y: Seq<char>|
            #![trigger more.dom().contains(x), reach::mutual(es, x, y)]
            symbols.contains(x) && more.dom().contains(x) && reach::mutual(es, x, y) implies more.dom().contains(
            y,
        ) by {
            assert(!part.contains(x));
            assert(sizes.dom().contains(x));
        }
    }
}

/// The rest of the components is taken.
proof fn lemma_sized(
    es: Seq<(Seq<char>, Seq<char>)>,
    symbols: Seq<Seq<char>>,
    order: Seq<Seq<char>>,
    i: int,
    sizes: Map<Seq<char>, nat>,
)
    requires
        callers_are_symbols(es, symbols),
        settled(es, order),
        order.no_duplicates(),
        forall|s: Seq<char>| #[trigger] symbols.contains(s) ==> order.contains(s),
        forall|k: int|
            0 <= k < order.len() ==> reach::names_of(es, symbols).contains(#[trigger] order[k]),
        taking(es, symbols, order, i, sizes),
    ensures
        taking(
            es,
            symbols,
            order,
            0,
            components::sized(
                components::callers(es, symbols),
                reach::names_of(es, symbols),
                order.take(i),
                sizes,
            ),
        ),
    decreases i,
{
    if i > 0 {
        let back = components::callers(es, symbols);
        let names = reach::names_of(es, symbols);
        let rest = order.take(i);
        assert(rest.last() == order[i - 1]);
        assert(rest.drop_last() =~= order.take(i - 1));
        if sizes.dom().contains(order[i - 1]) {
            assert(taking(es, symbols, order, i - 1, sizes));
            lemma_sized(es, symbols, order, i - 1, sizes);
        } else {
            lemma_take(es, symbols, order, i - 1, sizes);
            lemma_sized(
                es,
                symbols,
                order,
                i - 1,
                components::with_component(
                    sizes,
                    components::component(back, names, sizes.dom(), order[i - 1]),
                ),
            );
        }
    }
}

/// Where every caller of a symbol is a symbol, each symbol has the size of its strong
/// component: how many names it reaches that reach it, itself among them.
pub proof fn law_sizes_are_those_of_strong_components(
    es: Seq<(Seq<char>, Seq<char>)>,
    symbols: Seq<Seq<char>>,
    x: Seq<char>,
)
    requires
        callers_are_symbols(es, symbols),
        symbols.contains(x),
    ensures
        components::sizes_of(es, symbols).dom().contains(x),
        components::sizes_of(es, symbols)[x] == reach::component_size(
            es,
            reach::names_of(es, symbols),
            x,
        ),
{
    let order = components::leaving_order(es, symbols);
    lemma_leaving_order(es, symbols);
    let sizes = Map::<Seq<char>, nat>::empty();
    assert(taking(es, symbols, order, order.len() as int, sizes));
    lemma_sized(es, symbols, order, order.len() as int, sizes);
    assert(order.take(order.len() as int) =~= order);
    let k = choose|k: int| 0 <= k < order.len() && order[k] == x;
    assert(components::sizes_of(es, symbols).dom().contains(order[k]));
}

} // verus!
