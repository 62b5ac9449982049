//! Modules through which effects may pass: those of a workflow, and those that
//! only such modules call.

use crate::graph_issues;
use crate::graph_issues::symbol_module;
use crate::groups;
use crate::groups::{group_edges, starts, Group};
use crate::semantic;
use crate::semantic::{Edge, SemanticGraph};
use crate::text;
use crate::text::same;
use vstd::hash_set::StringHashSet;
use vstd::prelude::*;

verus! {

/// The symbols of a workflow.
pub open spec fn workflow_symbols(g: SemanticGraph) -> Seq<Seq<char>> {
    groups::firsts(semantic::edges_of(g.workflow_domains@))
}

/// The modules of some symbols.
pub open spec fn modules_of(symbols: Seq<Seq<char>>) -> Seq<Seq<char>> {
    symbols.map_values(|s: Seq<char>| graph_issues::module_of(s))
}

/// A module that can become a boundary: one of the candidates or of a workflow.
pub open spec fn candidate_module(g: SemanticGraph, cands: Seq<Seq<char>>, m: Seq<char>) -> bool {
    modules_of(cands).contains(m) || modules_of(workflow_symbols(g)).contains(m)
}

/// Call `i` leads into the module `m` from another one.
pub open spec fn enters(g: SemanticGraph, i: int, m: Seq<char>) -> bool {
    let calls = semantic::edges_of(g.call_edges@);
    &&& 0 <= i < calls.len()
    &&& graph_issues::module_of(calls[i].1) == m
    &&& graph_issues::module_of(calls[i].0) != m
}

/// The module that makes call `i`.
pub open spec fn caller_module(g: SemanticGraph, i: int) -> Seq<char> {
    graph_issues::module_of(semantic::edges_of(g.call_edges@)[i].0)
}

/// Other modules call into `m`, and all that do are in `s`.
pub open spec fn only_called_from(g: SemanticGraph, m: Seq<char>, s: Set<Seq<char>>) -> bool {
    &&& exists|i: int| enters(g, i, m)
    &&& forall|i: int| #[trigger] enters(g, i, m) ==> s.contains(caller_module(g, i))
}

/// The set holds the modules of the workflow and every candidate that is only
/// called from the set.
pub open spec fn boundary_closed(
    g: SemanticGraph,
    cands: Seq<Seq<char>>,
    s: Set<Seq<char>>,
) -> bool {
    &&& forall|m: Seq<char>| #[trigger]
        modules_of(workflow_symbols(g)).contains(m) ==> s.contains(m)
    &&& forall|m: Seq<char>| #[trigger]
        candidate_module(g, cands, m) && only_called_from(g, m, s) ==> s.contains(m)
}

/// A boundary module: in every such set.
pub open spec fn boundary(g: SemanticGraph, cands: Seq<Seq<char>>, m: Seq<char>) -> bool {
    forall|s: Set<Seq<char>>| #[trigger] boundary_closed(g, cands, s) ==> s.contains(m)
}

/// A symbol of a boundary module.
pub open spec fn boundary_symbol(
    g: SemanticGraph,
    cands: Seq<Seq<char>>,
    symbol: Seq<char>,
) -> bool {
    boundary(g, cands, graph_issues::module_of(symbol))
}

/// The modules of a workflow are boundary modules.
pub proof fn law_workflow_modules_are_boundaries(
    g: SemanticGraph,
    cands: Seq<Seq<char>>,
    symbol: Seq<char>,
)
    requires
        workflow_symbols(g).contains(symbol),
    ensures
        boundary_symbol(g, cands, symbol),
{
    let ws = workflow_symbols(g);
    let i = choose|i: int| 0 <= i < ws.len() && ws[i] == symbol;
    assert(modules_of(ws)[i] == graph_issues::module_of(symbol));
    assert(modules_of(ws).contains(graph_issues::module_of(symbol)));
}

/// A candidate that only boundary modules call is a boundary module.
pub proof fn law_what_only_boundaries_call_is_one(
    g: SemanticGraph,
    cands: Seq<Seq<char>>,
    m: Seq<char>,
)
    requires
        candidate_module(g, cands, m),
        exists|i: int| enters(g, i, m),
        forall|i: int| #[trigger] enters(g, i, m) ==> boundary(g, cands, caller_module(g, i)),
    ensures
        boundary(g, cands, m),
{
    assert forall|s: Set<Seq<char>>| #[trigger] boundary_closed(g, cands, s) implies s.contains(
        m,
    ) by {
        assert(only_called_from(g, m, s));
    }
}

/// The set of the modules of some symbols.
fn collect_modules(symbols: &Vec<String>, into: &mut StringHashSet)
    ensures
        forall|m: Seq<char>| #[trigger]
            final(into)@.contains(m) <==> old(into)@.contains(m) || modules_of(
                text::texts(symbols@),
            ).contains(m),
{
    let ghost before = into@;
    let ghost ms = modules_of(text::texts(symbols@));
    let mut i: usize = 0;
    while i < symbols.len()
        invariant
            i <= symbols@.len(),
            ms == modules_of(text::texts(symbols@)),
            forall|m: Seq<char>| #[trigger]
                into@.contains(m) <==> before.contains(m) || exists|k: int|
                    0 <= k < i && #[trigger] ms[k] == m,
        decreases symbols@.len() - i,
    {
        let ghost was = into@;
        let module = symbol_module(symbols[i].as_str());
        let ghost name = module@;
        assert(ms[i as int] == name);
        into.insert(module);
        proof {
            assert forall|m: Seq<char>| #[trigger] into@.contains(m) <==> before.contains(m)
                || exists|k: int| 0 <= k < i + 1 && #[trigger] ms[k] == m by {
                if was.contains(m) && !before.contains(m) {
                    let k = choose|k: int| 0 <= k < i && #[trigger] ms[k] == m;
                    assert(ms[k] == m);
                }
                if m == name {
                    assert(ms[i as int] == m);
                }
                if exists|k: int| 0 <= k < i + 1 && #[trigger] ms[k] == m {
                    let k = choose|k: int| 0 <= k < i + 1 && #[trigger] ms[k] == m;
                    if k < i {
                        assert(was.contains(m));
                    }
                }
            }
        }
        i += 1;
    }
    proof {
        assert forall|m: Seq<char>| #[trigger] into@.contains(m) <==> before.contains(m)
            || ms.contains(m) by {
            if ms.contains(m) {
                let k = choose|k: int| 0 <= k < ms.len() && ms[k] == m;
                assert(ms[k] == m);
            }
        }
    }
}

/// Some call leads into the first module from the second.
spec fn is_entry(g: SemanticGraph, e: (Seq<char>, Seq<char>)) -> bool {
    exists|i: int| #[trigger] enters(g, i, e.0) && caller_module(g, i) == e.1
}

/// The calls that lead into a module of `into`, by module: which other modules
/// make them.
spec fn entry_edges(g: SemanticGraph, into: Set<Seq<char>>, es: Seq<(Seq<char>, Seq<char>)>) -> bool {
    &&& forall|e: int| 0 <= e < es.len() ==> is_entry(g, #[trigger] es[e])
    &&& forall|e: int| 0 <= e < es.len() ==> into.contains((#[trigger] es[e]).0)
    &&& forall|i: int, m: Seq<char>| #[trigger]
        enters(g, i, m) && into.contains(m) ==> es.contains((m, caller_module(g, i)))
}

fn collect_entries(g: &SemanticGraph, into: &StringHashSet) -> (r: Vec<Edge>)
    ensures
        entry_edges(*g, into@, semantic::edges_of(r@)),
{
    let ghost calls = semantic::edges_of(g.call_edges@);
    let mut out: Vec<Edge> = Vec::new();
    let mut i: usize = 0;
    while i < g.call_edges.len()
        invariant
            i <= g.call_edges@.len(),
            calls == semantic::edges_of(g.call_edges@),
            forall|e: int| 0 <= e < out@.len() ==> is_entry(*g, (#[trigger] out@[e])@),
            forall|e: int| 0 <= e < out@.len() ==> into@.contains((#[trigger] out@[e])@.0),
            forall|k: int, m: Seq<char>|
                k < i && #[trigger] enters(*g, k, m) && into@.contains(m)
                    ==> semantic::edges_of(out@).contains((m, caller_module(*g, k))),
        decreases g.call_edges@.len() - i,
    {
        let edge = &g.call_edges[i];
        let callee = symbol_module(edge.to.as_str());
        let caller = symbol_module(edge.from.as_str());
        assert(calls[i as int] == edge@);
        let ghost was = semantic::edges_of(out@);
        let ghost was_out = out@;
        let ghost here = callee@;
        let ghost there = caller@;
        if !same(callee.as_str(), caller.as_str()) && into.contains(callee.as_str()) {
            out.push(Edge { from: callee, to: caller });
            proof {
                assert(enters(*g, i as int, here));
                assert(semantic::edges_of(out@) =~= was.push((here, there)));
                assert(semantic::edges_of(out@)[was.len() as int] == (here, there));
                let entry = (here, there);
                assert(enters(*g, i as int, entry.0) && caller_module(*g, i as int) == entry.1);
                assert(is_entry(*g, entry));
                assert forall|e: int| 0 <= e < out@.len() implies is_entry(
                    *g,
                    (#[trigger] out@[e])@,
                ) by {
                    if e < was_out.len() {
                        assert(out@[e] == was_out[e]);
                    }
                }
                assert forall|e: int| 0 <= e < out@.len() implies into@.contains(
                    (#[trigger] out@[e])@.0,
                ) by {
                    if e < was_out.len() {
                        assert(out@[e] == was_out[e]);
                    }
                }
            }
        }
        proof {
            assert forall|k: int, m: Seq<char>|
                k < i + 1 && #[trigger] enters(*g, k, m) && into@.contains(m) implies semantic::edges_of(
            out@).contains((m, caller_module(*g, k))) by {
                if k < i {
                    assert(was.contains((m, caller_module(*g, k))));
                    let j = choose|j: int|
                        0 <= j < was.len() && was[j] == (m, caller_module(*g, k));
                    assert(semantic::edges_of(out@)[j] == was[j]);
                } else {
                    assert(m == here);
                }
            }
        }
        i += 1;
    }
    proof {
        let es = semantic::edges_of(out@);
        assert forall|e: int| 0 <= e < es.len() implies is_entry(*g, #[trigger] es[e]) by {
            assert(es[e] == out@[e]@);
        }
        assert forall|e: int| 0 <= e < es.len() implies into@.contains((#[trigger] es[e]).0) by {
            assert(es[e] == out@[e]@);
        }
    }
    out
}

/// All texts of a list are in a set.
fn all_in(list: &Vec<String>, set: &StringHashSet) -> (r: bool)
    ensures
        r == (forall|x: Seq<char>| #[trigger] text::texts(list@).contains(x) ==> set@.contains(x)),
{
    let ghost ts = text::texts(list@);
    let mut i: usize = 0;
    while i < list.len()
        invariant
            i <= list@.len(),
            ts == text::texts(list@),
            forall|k: int| 0 <= k < i ==> set@.contains(#[trigger] ts[k]),
        decreases list@.len() - i,
    {
        assert(ts[i as int] == list@[i as int]@);
        if !set.contains(list[i].as_str()) {
            assert(ts.contains(ts[i as int]));
            return false;
        }
        i += 1;
    }
    true
}

/// How many groups have a key outside a set.
spec fn outside(gs: Seq<(Seq<char>, Seq<Seq<char>>)>, s: Set<Seq<char>>) -> nat {
    gs.filter(|g: (Seq<char>, Seq<Seq<char>>)| !s.contains(g.0)).len()
}

proof fn lemma_outside_falls(
    gs: Seq<(Seq<char>, Seq<Seq<char>>)>,
    s: Set<Seq<char>>,
    x: Seq<char>,
    at: int,
)
    requires
        0 <= at < gs.len(),
        gs[at].0 == x,
        !s.contains(x),
    ensures
        outside(gs, s.insert(x)) < outside(gs, s),
    decreases gs.len(),
{
    reveal(Seq::filter);
    let rest = gs.drop_last();
    if at < rest.len() {
        lemma_outside_falls(rest, s, x, at);
    } else {
        lemma_outside_shrinks(rest, s, x);
    }
}

proof fn lemma_outside_shrinks(
    gs: Seq<(Seq<char>, Seq<Seq<char>>)>,
    s: Set<Seq<char>>,
    x: Seq<char>,
)
    ensures
        outside(gs, s.insert(x)) <= outside(gs, s),
    decreases gs.len(),
{
    reveal(Seq::filter);
    if gs.len() > 0 {
        lemma_outside_shrinks(gs.drop_last(), s, x);
    }
}

/// A group gives no reason to add its key to the set.
spec fn at_rest(g: (Seq<char>, Seq<Seq<char>>), s: Set<Seq<char>>) -> bool {
    s.contains(g.0) || exists|x: Seq<char>| #[trigger] g.1.contains(x) && !s.contains(x)
}

/// Adds the keys of groups to a set as long as one has all its members in it.
fn close_under(gs: &Vec<Group>, set: &mut StringHashSet)
    ensures
        forall|x: Seq<char>| #[trigger] old(set)@.contains(x) ==> final(set)@.contains(x),
        forall|i: int|
            0 <= i < gs@.len() ==> at_rest(#[trigger] groups::groups_of(gs@)[i], final(set)@),
        forall|s: Set<Seq<char>>|
            (forall|x: Seq<char>| #[trigger] old(set)@.contains(x) ==> s.contains(x)) && (forall|
                i: int,
            |
                0 <= i < gs@.len() ==> at_rest(#[trigger] groups::groups_of(gs@)[i], s)) ==> #[trigger] final(
            set)@.subset_of(s),
{
    let ghost first = set@;
    let ghost all = groups::groups_of(gs@);
    let mut changed: bool = true;
    while changed
        invariant
            all == groups::groups_of(gs@),
            forall|x: Seq<char>| #[trigger] first.contains(x) ==> set@.contains(x),
            !changed ==> forall|i: int| 0 <= i < all.len() ==> at_rest(#[trigger] all[i], set@),
            forall|s: Set<Seq<char>>|
                (forall|x: Seq<char>| #[trigger] first.contains(x) ==> s.contains(x)) && (forall|
                    i: int,
                |
                    0 <= i < all.len() ==> at_rest(#[trigger] all[i], s)) ==> #[trigger] set@.subset_of(
                    s,
                ),
        decreases
                outside(all, set@) + if changed {
                    1nat
                } else {
                    0nat
                },
    {
        changed = false;
        let ghost start = outside(all, set@);
        let mut i: usize = 0;
        while i < gs.len()
            invariant
                i <= gs@.len(),
                all == groups::groups_of(gs@),
                forall|x: Seq<char>| #[trigger] first.contains(x) ==> set@.contains(x),
                outside(all, set@) <= start,
                changed ==> outside(all, set@) < start,
                !changed ==> forall|k: int| 0 <= k < i ==> at_rest(#[trigger] all[k], set@),
                forall|s: Set<Seq<char>>|
                    (forall|x: Seq<char>| #[trigger] first.contains(x) ==> s.contains(x)) && (
                    forall|k: int|
                        0 <= k < all.len() ==> at_rest(#[trigger] all[k], s)) ==> #[trigger] set@.subset_of(
                        s,
                    ),
            decreases gs@.len() - i,
        {
            let group = &gs[i];
            assert(all[i as int] == group@);
            if !set.contains(group.key.as_str()) && all_in(&group.members, set) {
                let ghost was = set@;
                let ghost x = group.key@;
                proof {
                    lemma_outside_falls(all, was, x, i as int);
                }
                set.insert(group.key.clone());
                changed = true;
                proof {
                    assert forall|s: Set<Seq<char>>|
                        (forall|y: Seq<char>| #[trigger] first.contains(y) ==> s.contains(y)) && (
                        forall|k: int|
                            0 <= k < all.len() ==> at_rest(
                                #[trigger] all[k],
                                s,
                            )) implies #[trigger] set@.subset_of(s) by {
                        assert(was.subset_of(s));
                        assert(at_rest(all[i as int], s));
                        if !s.contains(x) {
                            let y = choose|y: Seq<char>| #[trigger]
                                all[i as int].1.contains(y) && !s.contains(y);
                            assert(was.contains(y));
                        }
                    }
                }
            } else {
                proof {
                    if !set@.contains(group.key@) {
                        let y = choose|y: Seq<char>| #[trigger]
                            text::texts(group.members@).contains(y) && !set@.contains(y);
                        assert(all[i as int].1.contains(y));
                    }
                }
            }
            i += 1;
        }
    }
}

/// The boundary modules of a graph. `candidates` are symbols whose modules can
/// become boundaries.
pub fn derive_canonical_effect_boundary_modules(g: &SemanticGraph, candidates: &Vec<String>) -> (r:
    StringHashSet)
    ensures
        forall|m: Seq<char>| #[trigger]
            r@.contains(m) <==> boundary(*g, text::texts(candidates@), m),
{
    let ghost cands = text::texts(candidates@);
    let workflow = starts(&g.workflow_domains);
    let mut possible = StringHashSet::new();
    collect_modules(candidates, &mut possible);
    collect_modules(&workflow, &mut possible);
    let mut canonical = StringHashSet::new();
    collect_modules(&workflow, &mut canonical);
    let ghost first = canonical@;
    let entries = collect_entries(g, &possible);
    let ghost es = semantic::edges_of(entries@);
    let groups = group_edges(&entries);
    let ghost gs = groups::grouped(es);
    close_under(&groups, &mut canonical);
    proof {
        let set = canonical@;
        assert forall|m: Seq<char>| possible@.contains(m) == #[trigger] candidate_module(
            *g,
            cands,
            m,
        ) by {}
        assert forall|s: Set<Seq<char>>| #[trigger] boundary_closed(
            *g,
            cands,
            s,
        ) implies set.subset_of(s) by {
            assert forall|i: int| 0 <= i < gs.len() implies at_rest(#[trigger] gs[i], s) by {
                lemma_group_at_rest(*g, cands, possible@, es, s, i);
            }
            assert forall|x: Seq<char>| #[trigger] first.contains(x) implies s.contains(x) by {
                assert(modules_of(workflow_symbols(*g)).contains(x));
            }
        }
        assert(boundary_closed(*g, cands, set)) by {
            assert forall|m: Seq<char>| #[trigger]
                modules_of(workflow_symbols(*g)).contains(m) implies set.contains(m) by {
                assert(first.contains(m));
            }
            assert forall|m: Seq<char>| #[trigger]
                candidate_module(*g, cands, m) && only_called_from(
                    *g,
                    m,
                    set,
                ) implies set.contains(m) by {
                lemma_closed_at(*g, possible@, es, set, m);
            }
        }
        assert forall|m: Seq<char>| #[trigger] set.contains(m) <==> boundary(*g, cands, m) by {
            if set.contains(m) {
                assert forall|s: Set<Seq<char>>| #[trigger] boundary_closed(
                    *g,
                    cands,
                    s,
                ) implies s.contains(m) by {
                    assert(set.subset_of(s));
                }
            }
        }
    }
    canonical
}

/// A closed set leaves every group at rest.
proof fn lemma_group_at_rest(
    g: SemanticGraph,
    cands: Seq<Seq<char>>,
    possible: Set<Seq<char>>,
    es: Seq<(Seq<char>, Seq<char>)>,
    s: Set<Seq<char>>,
    i: int,
)
    requires
        entry_edges(g, possible, es),
        forall|m: Seq<char>| possible.contains(m) == #[trigger] candidate_module(g, cands, m),
        boundary_closed(g, cands, s),
        0 <= i < groups::grouped(es).len(),
    ensures
        at_rest(groups::grouped(es)[i], s),
{
    let keys = groups::sorted_set(groups::firsts(es));
    let m = keys[i];
    let group = groups::grouped(es)[i];
    assert(group == (m, groups::members(es, m)));
    assert(keys.contains(m));
    groups::law_groups_hold_the_edges(es, m, m);
    let first = choose|x: Seq<char>| es.contains((m, x));
    let e = choose|e: int| 0 <= e < es.len() && es[e] == (m, first);
    assert(possible.contains(es[e].0));
    assert(candidate_module(g, cands, m));
    if !s.contains(m) {
        assert(!only_called_from(g, m, s));
        assert(is_entry(g, es[e]));
        let k = choose|k: int| #[trigger]
            enters(g, k, es[e].0) && caller_module(g, k) == es[e].1;
        assert(enters(g, k, m));
        let j = choose|j: int| #[trigger] enters(g, j, m) && !s.contains(caller_module(g, j));
        assert(enters(g, j, m));
        assert(es.contains((m, caller_module(g, j))));
        groups::law_groups_hold_the_edges(es, m, caller_module(g, j));
        assert(group.1.contains(caller_module(g, j)));
    }
}

/// A set that leaves every group at rest is closed at each candidate.
proof fn lemma_closed_at(
    g: SemanticGraph,
    possible: Set<Seq<char>>,
    es: Seq<(Seq<char>, Seq<char>)>,
    s: Set<Seq<char>>,
    m: Seq<char>,
)
    requires
        entry_edges(g, possible, es),
        possible.contains(m),
        only_called_from(g, m, s),
        forall|i: int|
            0 <= i < groups::grouped(es).len() ==> at_rest(#[trigger] groups::grouped(es)[i], s),
    ensures
        s.contains(m),
{
    let i = choose|i: int| enters(g, i, m);
    assert(es.contains((m, caller_module(g, i))));
    groups::law_groups_hold_the_edges(es, m, caller_module(g, i));
    let keys = groups::sorted_set(groups::firsts(es));
    assert(keys.contains(m));
    let at = choose|at: int| 0 <= at < keys.len() && keys[at] == m;
    let group = groups::grouped(es)[at];
    assert(group == (m, groups::members(es, m)));
    assert(at_rest(group, s));
    if !s.contains(m) {
        let x = choose|x: Seq<char>| #[trigger] group.1.contains(x) && !s.contains(x);
        groups::law_groups_hold_the_edges(es, m, x);
        let e = choose|e: int| 0 <= e < es.len() && es[e] == (m, x);
        assert(is_entry(g, es[e]));
        let k = choose|k: int| #[trigger]
            enters(g, k, es[e].0) && caller_module(g, k) == es[e].1;
        assert(enters(g, k, m));
        assert(s.contains(caller_module(g, k)));
    }
}

} // verus!
