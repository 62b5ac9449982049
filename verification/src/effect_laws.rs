//! What the detectors of effects and of translations have to say, in terms of the
//! graph.

use crate::boundary;
use crate::components;
use crate::complexity;
use crate::detector_laws;
use crate::graph_issues;
use crate::graph_issues::RowView;
use crate::graph_metrics;
use crate::graph_metrics::Detector;
use crate::groups;
use crate::groups::Group;
use crate::issues::IssueView;
use crate::order::Ranked;
use crate::order;
use crate::semantic;
use crate::semantic::{Edge, SemanticGraph};
use crate::text;
use vstd::prelude::*;

verus! {

// ---------------------------------------------------------------------------
// Counting
// ---------------------------------------------------------------------------

pub open spec fn all_of<A>(xs: Seq<A>, p: spec_fn(A) -> bool) -> bool {
    forall|i: int| 0 <= i < xs.len() ==> p(#[trigger] xs[i])
}

/// At least `n` different things have the property.
pub open spec fn at_least<A>(p: spec_fn(A) -> bool, n: nat) -> bool {
    exists|xs: Seq<A>| xs.no_duplicates() && xs.len() == n && #[trigger] all_of(xs, p)
}

pub proof fn lemma_at_least<A>(members: Seq<A>, p: spec_fn(A) -> bool, n: nat)
    requires
        members.no_duplicates(),
        forall|x: A| #[trigger] members.contains(x) <==> p(x),
    ensures
        members.len() >= n <==> at_least(p, n),
{
    if members.len() >= n {
        let some = members.take(n as int);
        assert forall|i: int| 0 <= i < some.len() implies p(#[trigger] some[i]) by {
            assert(members.contains(members[i]));
        }
        assert(all_of(some, p));
    }
    if at_least(p, n) {
        let some = choose|some: Seq<A>|
            some.no_duplicates() && some.len() == n && #[trigger] all_of(some, p);
        some.unique_seq_to_set();
        members.unique_seq_to_set();
        assert forall|x: A| some.to_set().contains(x) implies members.to_set().contains(x) by {
            let i = choose|i: int| 0 <= i < some.len() && some[i] == x;
            assert(p(some[i]));
            assert(members.contains(x));
        }
        assert(some.to_set().subset_of(members.to_set()));
        vstd::set_lib::lemma_len_subset(some.to_set(), members.to_set());
    }
}

pub proof fn lemma_filtered_once<A>(s: Seq<A>, p: spec_fn(A) -> bool)
    requires
        s.no_duplicates(),
    ensures
        s.filter(p).no_duplicates(),
    decreases s.len(),
{
    reveal(Seq::filter);
    if s.len() > 0 {
        let front = s.drop_last();
        lemma_filtered_once(front, p);
        components::lemma_filter_contains(front, p, s.last());
        if p(s.last()) {
            assert(!front.contains(s.last()));
            assert(!front.filter(p).contains(s.last()));
        }
    }
}

/// The keys of the groups that are kept are the keys that are kept.
pub proof fn lemma_kept_groups(
    keys: Seq<Seq<char>>,
    f: spec_fn(Seq<char>) -> (Seq<char>, Seq<Seq<char>>),
    p: spec_fn(Seq<char>) -> bool,
    q: spec_fn((Seq<char>, Seq<Seq<char>>)) -> bool,
)
    requires
        forall|k: Seq<char>| q(#[trigger] f(k)) == p(k),
    ensures
        keys.map_values(f).filter(q) == keys.filter(p).map_values(f),
    decreases keys.len(),
{
    reveal(Seq::filter);
    if keys.len() > 0 {
        let front = keys.drop_last();
        lemma_kept_groups(front, f, p, q);
        assert(keys.map_values(f).drop_last() =~= front.map_values(f));
        assert(keys.map_values(f).last() == f(keys.last()));
        assert(q(f(keys.last())) == p(keys.last()));
        if p(keys.last()) {
            assert(keys.filter(p) =~= front.filter(p).push(keys.last()));
        }
        assert(keys.map_values(f).filter(q) =~= keys.filter(p).map_values(f));
    } else {
        assert(keys.map_values(f).filter(q) =~= keys.filter(p).map_values(f));
    }
}

/// How many edges start at something with the property.
pub open spec fn starting(
    es: Seq<(Seq<char>, Seq<char>)>,
    p: spec_fn(Seq<char>) -> bool,
) -> nat
    decreases es.len(),
{
    if es.len() == 0 {
        0
    } else {
        starting(es.drop_last(), p) + if p(es.last().0) {
            1nat
        } else {
            0nat
        }
    }
}

proof fn lemma_one_more(
    es: Seq<(Seq<char>, Seq<char>)>,
    keys: Seq<Seq<char>>,
    f: spec_fn(Seq<char>) -> (Seq<char>, Seq<Seq<char>>),
    g: spec_fn(Seq<char>) -> (Seq<char>, Seq<Seq<char>>),
)
    requires
        es.len() > 0,
        keys.no_duplicates(),
        forall|k: Seq<char>| (#[trigger] f(k)).1.len() == groups::seconds_of(es, k).len(),
        forall|k: Seq<char>| (#[trigger] g(k)).1.len() == groups::seconds_of(
            es.drop_last(),
            k,
        ).len(),
    ensures
        groups::size_sum(keys.map_values(f)) == groups::size_sum(keys.map_values(g))
            + if keys.contains(es.last().0) { 1nat } else { 0nat },
    decreases keys.len(),
{
    if keys.len() > 0 {
        let front = keys.drop_last();
        lemma_one_more(es, front, f, g);
        assert(keys.map_values(f).drop_last() =~= front.map_values(f));
        assert(keys.map_values(g).drop_last() =~= front.map_values(g));
        assert(keys.map_values(f).last() == f(keys.last()));
        assert(keys.map_values(g).last() == g(keys.last()));
        let k = es.last().0;
        if keys.contains(k) {
            let i = choose|i: int| 0 <= i < keys.len() && keys[i] == k;
            if i < front.len() {
                assert(front[i] == k);
                assert(keys.last() != k);
            } else {
                assert(!front.contains(k)) by {
                    if front.contains(k) {
                        let j = choose|j: int| 0 <= j < front.len() && front[j] == k;
                        assert(keys[j] == k);
                    }
                }
            }
        } else {
            assert(keys.last() != k) by {
                assert(keys[keys.len() - 1] == keys.last());
            }
            assert(!front.contains(k)) by {
                if front.contains(k) {
                    let j = choose|j: int| 0 <= j < front.len() && front[j] == k;
                    assert(keys[j] == k);
                }
            }
        }
    }
}

proof fn lemma_sum_over_keys(
    es: Seq<(Seq<char>, Seq<char>)>,
    keys: Seq<Seq<char>>,
    f: spec_fn(Seq<char>) -> (Seq<char>, Seq<Seq<char>>),
)
    requires
        keys.no_duplicates(),
        forall|k: Seq<char>| (#[trigger] f(k)).1.len() == groups::seconds_of(es, k).len(),
    ensures
        groups::size_sum(keys.map_values(f)) == starting(es, |k: Seq<char>| keys.contains(k)),
    decreases es.len(),
{
    if es.len() == 0 {
        lemma_empty_sum(keys, f);
    } else {
        let less = es.drop_last();
        let g = |k: Seq<char>| (k, groups::seconds_of(less, k));
        lemma_sum_over_keys(less, keys, g);
        lemma_one_more(es, keys, f, g);
    }
}

proof fn lemma_empty_sum(
    keys: Seq<Seq<char>>,
    f: spec_fn(Seq<char>) -> (Seq<char>, Seq<Seq<char>>),
)
    requires
        forall|k: Seq<char>| (#[trigger] f(k)).1.len() == 0,
    ensures
        groups::size_sum(keys.map_values(f)) == 0,
    decreases keys.len(),
{
    if keys.len() > 0 {
        lemma_empty_sum(keys.drop_last(), f);
        assert(keys.map_values(f).drop_last() =~= keys.drop_last().map_values(f));
    }
}

proof fn lemma_starting_agrees(
    es: Seq<(Seq<char>, Seq<char>)>,
    p: spec_fn(Seq<char>) -> bool,
    q: spec_fn(Seq<char>) -> bool,
)
    requires
        forall|i: int| 0 <= i < es.len() ==> p((#[trigger] es[i]).0) == q(es[i].0),
    ensures
        starting(es, p) == starting(es, q),
    decreases es.len(),
{
    if es.len() > 0 {
        let less = es.drop_last();
        assert forall|i: int| 0 <= i < less.len() implies p((#[trigger] less[i]).0) == q(
            less[i].0,
        ) by {
            assert(less[i] == es[i]);
        }
        lemma_starting_agrees(less, p, q);
        assert(es.last() == es[es.len() - 1]);
    }
}

/// The groups with a property of their keys: how many they hold, and how many
/// they are.
proof fn lemma_bags_with(
    es: Seq<(Seq<char>, Seq<char>)>,
    p: spec_fn(Seq<char>) -> bool,
    q: spec_fn((Seq<char>, Seq<Seq<char>>)) -> bool,
)
    requires
        forall|g: (Seq<char>, Seq<Seq<char>>)| #[trigger] q(g) == p(g.0),
    ensures
        groups::size_sum(groups::bags(es).filter(q)) == starting(es, p),
        groups::bags(es).filter(q).len() == groups::sorted_set(groups::firsts(es)).filter(p).len(),
{
    let keys = groups::sorted_set(groups::firsts(es));
    let f = |k: Seq<char>| (k, order::sorted_texts(groups::seconds_of(es, k)));
    groups::lemma_sorted_set(groups::firsts(es));
    lemma_kept_groups(keys, f, p, q);
    let kept = keys.filter(p);
    lemma_filtered_once(keys, p);
    assert forall|k: Seq<char>| (#[trigger] f(k)).1.len() == groups::seconds_of(es, k).len() by {
        order::lemma_sorted_texts(groups::seconds_of(es, k));
    }
    lemma_sum_over_keys(es, kept, f);
    let r = |k: Seq<char>| kept.contains(k);
    assert forall|i: int| 0 <= i < es.len() implies r((#[trigger] es[i]).0) == p(es[i].0) by {
        components::lemma_filter_contains(keys, p, es[i].0);
        assert(groups::firsts(es)[i] == es[i].0);
        assert(groups::firsts(es).contains(es[i].0));
    }
    lemma_starting_agrees(es, r, p);
    assert(groups::bags(es) =~= keys.map_values(f));
}

proof fn lemma_placed_sum(
    s: Seq<(Seq<char>, Seq<Seq<char>>)>,
    x: (Seq<char>, Seq<Seq<char>>),
    le: spec_fn((Seq<char>, Seq<Seq<char>>), (Seq<char>, Seq<Seq<char>>)) -> bool,
)
    ensures
        groups::size_sum(order::placed(s, x, le)) == groups::size_sum(s) + x.1.len(),
        order::placed(s, x, le).len() == s.len() + 1,
    decreases s.len(),
{
    if s.len() == 0 || le(s.last(), x) {
        assert(s.push(x).drop_last() =~= s);
    } else {
        lemma_placed_sum(s.drop_last(), x, le);
        let inner = order::placed(s.drop_last(), x, le);
        assert(inner.push(s.last()).drop_last() =~= inner);
    }
}

proof fn lemma_sorted_sum(
    s: Seq<(Seq<char>, Seq<Seq<char>>)>,
    le: spec_fn((Seq<char>, Seq<Seq<char>>), (Seq<char>, Seq<Seq<char>>)) -> bool,
)
    ensures
        groups::size_sum(order::stable_sorted(s, le)) == groups::size_sum(s),
        order::stable_sorted(s, le).len() == s.len(),
    decreases s.len(),
{
    if s.len() > 0 {
        lemma_sorted_sum(s.drop_last(), le);
        lemma_placed_sum(order::stable_sorted(s.drop_last(), le), s.last(), le);
    }
}

/// Sorting groups by size keeps how many they are and what they hold.
proof fn lemma_by_size_sum(gs: Seq<(Seq<char>, Seq<Seq<char>>)>)
    ensures
        groups::size_sum(groups::by_size(gs)) == groups::size_sum(gs),
        groups::by_size(gs).len() == gs.len(),
{
    lemma_sorted_sum(
        gs,
        |a: (Seq<char>, Seq<Seq<char>>), b: (Seq<char>, Seq<Seq<char>>)| Group::rank_le(a, b),
    );
}

// ---------------------------------------------------------------------------
// Sites of one effect
// ---------------------------------------------------------------------------

/// How many edges start at symbols whose module has the property.
pub open spec fn sites(v: Seq<Edge>, p: spec_fn(Seq<char>) -> bool) -> nat
    decreases v.len(),
{
    if v.len() == 0 {
        0
    } else {
        let from = v.last().from@;
        sites(v.drop_last(), p) + if detector_laws::is_symbol(from) && p(
            text::before_last(from, "::"@),
        ) {
            1nat
        } else {
            0nat
        }
    }
}

/// A symbol of the module starts an edge.
pub open spec fn site_in(v: Seq<Edge>, m: Seq<char>) -> bool {
    exists|i: int|
        0 <= i < v.len() && detector_laws::is_symbol((#[trigger] v[i]).from@) && text::before_last(
            v[i].from@,
            "::"@,
        ) == m
}

proof fn lemma_sites(v: Seq<Edge>, p: spec_fn(Seq<char>) -> bool)
    ensures
        starting(graph_metrics::by_module(semantic::edges_of(v)), p) == sites(v, p),
    decreases v.len(),
{
    let es = semantic::edges_of(v);
    if v.len() > 0 {
        lemma_sites(v.drop_last(), p);
        assert(es.drop_last() =~= semantic::edges_of(v.drop_last()));
        assert(es.last() == v.last()@);
        let before = graph_metrics::by_module(es.drop_last());
        if graph_metrics::symbol_like(es.last().0) {
            let x = (graph_issues::module_of(es.last().0), es.last().0);
            assert(before.push(x).drop_last() =~= before);
        }
    }
}

proof fn lemma_site_in(v: Seq<Edge>, m: Seq<char>)
    ensures
        groups::firsts(graph_metrics::by_module(semantic::edges_of(v))).contains(m) <==> site_in(
            v,
            m,
        ),
    decreases v.len(),
{
    let es = semantic::edges_of(v);
    if v.len() > 0 {
        let front = v.drop_last();
        lemma_site_in(front, m);
        assert(es.drop_last() =~= semantic::edges_of(front));
        assert(es.last() == v.last()@);
        let before = graph_metrics::by_module(es.drop_last());
        let all = graph_metrics::by_module(es);
        let was = groups::firsts(before);
        let now = groups::firsts(all);
        if now.contains(m) {
            let k = choose|k: int| 0 <= k < now.len() && now[k] == m;
            if k < was.len() {
                assert(was[k] == m);
                let i = choose|i: int|
                    0 <= i < front.len() && detector_laws::is_symbol((#[trigger] front[i]).from@)
                        && text::before_last(front[i].from@, "::"@) == m;
                assert(v[i] == front[i]);
            } else {
                assert(v[v.len() - 1] == v.last());
            }
        }
        if site_in(v, m) {
            let i = choose|i: int|
                0 <= i < v.len() && detector_laws::is_symbol((#[trigger] v[i]).from@)
                    && text::before_last(v[i].from@, "::"@) == m;
            if i < front.len() {
                assert(front[i] == v[i]);
                assert(site_in(front, m));
                let k = choose|k: int| 0 <= k < was.len() && was[k] == m;
                assert(now[k] == m);
            } else {
                assert(now[was.len() as int] == m);
            }
        }
    }
}

/// A module of logging: `logging` or below it.
pub open spec fn logs_for_all(m: Seq<char>) -> bool {
    m == "logging"@ || text::has_prefix(m, "logging::"@)
}

/// A module that spawns for all: `process` or `tools` or below them.
pub open spec fn spawns_for_all(m: Seq<char>) -> bool {
    m == "process"@ || m == "tools"@ || text::has_prefix(m, "process::"@) || text::has_prefix(
        m,
        "tools::"@,
    )
}

/// The one report on logging is active and open where more than ten sites outside
/// of the logging module log, and urgent from twenty such sites.
pub proof fn law_logging_is_told_by_its_sites(name: Seq<char>, g: SemanticGraph)
    ensures
        ({
            let ps = graph_metrics::reports(Detector::Logging, name, g);
            let n = sites(g.loggers@, |m: Seq<char>| !logs_for_all(m));
            &&& ps.len() == 1
            &&& ps[0].0.id == "auto_logging_dispersion_"@ + text::identifier_fragment(name)
            &&& ps[0].1 <==> n > 10
            &&& ps[0].0.status == if n > 10 { "open"@ } else { "resolved"@ }
            &&& ps[0].0.priority == if n >= 20 { "high"@ } else { "medium"@ }
        }),
{
    let v = g.loggers@;
    let es = graph_metrics::by_module(semantic::edges_of(v));
    let p = |m: Seq<char>| !logs_for_all(m);
    let q = |g: (Seq<char>, Seq<Seq<char>>)| graph_metrics::logging_boundary(g.0) == false;
    lemma_bags_with(es, p, q);
    lemma_sites(v, p);
    lemma_by_size_sum(groups::bags(es).filter(q));
    assert(usize::MAX >= 0xffff);
}

/// The one report on spawned processes is active and open where at least two
/// modules outside of the boundary spawn them, and urgent where three do.
pub proof fn law_spawning_is_told_by_its_modules(name: Seq<char>, g: SemanticGraph)
    ensures
        ({
            let ps = graph_metrics::reports(Detector::ProcessSpawns, name, g);
            let outside = |m: Seq<char>| site_in(g.process_spawners@, m) && !spawns_for_all(m);
            &&& ps.len() == 1
            &&& ps[0].0.id == "auto_process_spawn_dispersion_"@ + text::identifier_fragment(name)
            &&& ps[0].1 <==> at_least(outside, 2)
            &&& ps[0].0.status == if at_least(outside, 2) { "open"@ } else { "resolved"@ }
            &&& ps[0].0.priority == if at_least(outside, 3) { "high"@ } else { "medium"@ }
        }),
{
    let v = g.process_spawners@;
    let es = graph_metrics::by_module(semantic::edges_of(v));
    let p = |m: Seq<char>| !spawns_for_all(m);
    let q = |g: (Seq<char>, Seq<Seq<char>>)| graph_issues::process_boundary(g.0) == false;
    let outside = |m: Seq<char>| site_in(v, m) && !spawns_for_all(m);
    let keys = groups::sorted_set(groups::firsts(es));
    groups::lemma_sorted_set(groups::firsts(es));
    lemma_bags_with(es, p, q);
    lemma_by_size_sum(groups::bags(es).filter(q));
    lemma_filtered_once(keys, p);
    assert forall|m: Seq<char>| #[trigger] keys.filter(p).contains(m) <==> outside(m) by {
        components::lemma_filter_contains(keys, p, m);
        lemma_site_in(v, m);
    }
    lemma_at_least(keys.filter(p), outside, 2);
    lemma_at_least(keys.filter(p), outside, 3);
    let others = graph_metrics::process_side(groups::bags(es), false);
    assert(others == groups::bags(es).filter(q));
    assert(graph_metrics::reports(Detector::ProcessSpawns, name, g)[0].1 <==> groups::by_size(
        others,
    ).len() > 1);
}

/// The one report on the network is active and open where a symbol uses it, and
/// urgent where symbols of three modules do.
pub proof fn law_network_use_is_told_by_its_sites(name: Seq<char>, g: SemanticGraph)
    ensures
        ({
            let ps = graph_metrics::reports(Detector::NetworkUsage, name, g);
            let using = |m: Seq<char>| site_in(g.network_users@, m);
            let used = sites(g.network_users@, |m: Seq<char>| true) > 0;
            &&& ps.len() == 1
            &&& ps[0].0.id == "auto_network_usage_dispersion_"@ + text::identifier_fragment(name)
            &&& ps[0].1 <==> used
            &&& ps[0].0.status == if used { "open"@ } else { "resolved"@ }
            &&& ps[0].0.priority == if at_least(using, 3) { "high"@ } else { "medium"@ }
        }),
{
    let v = g.network_users@;
    let es = graph_metrics::by_module(semantic::edges_of(v));
    let p = |m: Seq<char>| true;
    let q = |g: (Seq<char>, Seq<Seq<char>>)| true;
    let using = |m: Seq<char>| site_in(v, m);
    let keys = groups::sorted_set(groups::firsts(es));
    let all = groups::bags(es);
    groups::lemma_sorted_set(groups::firsts(es));
    lemma_bags_with(es, p, q);
    lemma_all_kept(all, q);
    lemma_all_kept(keys, p);
    lemma_sites(v, p);
    lemma_by_size_sum(all);
    assert forall|m: Seq<char>| #[trigger] keys.contains(m) <==> using(m) by {
        lemma_site_in(v, m);
    }
    lemma_at_least(keys, using, 3);
}

proof fn lemma_all_kept<A>(s: Seq<A>, p: spec_fn(A) -> bool)
    requires
        forall|x: A| #[trigger] p(x),
    ensures
        s.filter(p) == s,
    decreases s.len(),
{
    reveal(Seq::filter);
    if s.len() > 0 {
        lemma_all_kept(s.drop_last(), p);
        assert(s.drop_last().push(s.last()) =~= s);
        assert(p(s.last()));
    } else {
        assert(s.filter(p) =~= s);
    }
}

// ---------------------------------------------------------------------------
// Symbols that mix effects
// ---------------------------------------------------------------------------

/// The symbol starts an edge of the list.
pub open spec fn begins(v: Seq<Edge>, symbol: Seq<char>) -> bool {
    exists|i: int| 0 <= i < v.len() && (#[trigger] v[i]).from@ == symbol
}

/// The symbol has the effect.
pub open spec fn has_effect(g: SemanticGraph, symbol: Seq<char>, effect: Seq<char>) -> bool {
    ||| effect == "artifact_write"@ && begins(g.artifact_writes@, symbol)
    ||| effect == "artifact_read"@ && begins(g.artifact_reads@, symbol)
    ||| effect == "state_write"@ && begins(g.state_writes@, symbol)
    ||| effect == "state_read"@ && begins(g.state_reads@, symbol)
    ||| effect == "state_transition"@ && begins(g.state_transitions@, symbol)
    ||| effect == "error_shape"@ && begins(g.error_shapes@, symbol)
    ||| effect == "logging"@ && begins(g.loggers@, symbol)
    ||| effect == "process_spawn"@ && begins(g.process_spawners@, symbol)
    ||| effect == "network"@ && begins(g.network_users@, symbol)
}

proof fn lemma_tagged(v: Seq<Edge>, label: Seq<char>, symbol: Seq<char>, effect: Seq<char>)
    ensures
        graph_metrics::tagged(semantic::edges_of(v), label).contains((symbol, effect)) <==> effect
            == label && begins(v, symbol),
{
    let ts = graph_metrics::tagged(semantic::edges_of(v), label);
    if ts.contains((symbol, effect)) {
        let i = choose|i: int| 0 <= i < ts.len() && ts[i] == (symbol, effect);
        assert(v[i].from@ == symbol);
    }
    if effect == label && begins(v, symbol) {
        let i = choose|i: int| 0 <= i < v.len() && (#[trigger] v[i]).from@ == symbol;
        assert(ts[i] == (symbol, effect));
    }
}

proof fn lemma_either<A>(a: Seq<A>, b: Seq<A>, x: A)
    ensures
        (a + b).contains(x) <==> a.contains(x) || b.contains(x),
{
    let c = a + b;
    if c.contains(x) {
        let i = choose|i: int| 0 <= i < c.len() && c[i] == x;
        if i < a.len() {
            assert(a[i] == x);
        } else {
            assert(b[i - a.len()] == x);
        }
    }
    if a.contains(x) {
        let i = choose|i: int| 0 <= i < a.len() && a[i] == x;
        assert(c[i] == x);
    }
    if b.contains(x) {
        let i = choose|i: int| 0 <= i < b.len() && b[i] == x;
        assert(c[a.len() + i] == x);
    }
}

/// The effects of a symbol are the lists of the graph in which it starts an edge.
pub proof fn law_effects_are_the_edges_of_a_symbol(
    g: SemanticGraph,
    symbol: Seq<char>,
    effect: Seq<char>,
)
    ensures
        graph_metrics::effects(g).contains((symbol, effect)) <==> has_effect(g, symbol, effect),
{
    let x = (symbol, effect);
    let e0 = Seq::<(Seq<char>, Seq<char>)>::empty();
    let t1 = graph_metrics::tagged(semantic::edges_of(g.artifact_writes@), "artifact_write"@);
    let t2 = graph_metrics::tagged(semantic::edges_of(g.artifact_reads@), "artifact_read"@);
    let t3 = graph_metrics::tagged(semantic::edges_of(g.state_writes@), "state_write"@);
    let t4 = graph_metrics::tagged(semantic::edges_of(g.state_reads@), "state_read"@);
    let t5 = graph_metrics::tagged(semantic::edges_of(g.state_transitions@), "state_transition"@);
    let t6 = graph_metrics::tagged(semantic::edges_of(g.error_shapes@), "error_shape"@);
    let t7 = graph_metrics::tagged(semantic::edges_of(g.loggers@), "logging"@);
    let t8 = graph_metrics::tagged(semantic::edges_of(g.process_spawners@), "process_spawn"@);
    let t9 = graph_metrics::tagged(semantic::edges_of(g.network_users@), "network"@);
    lemma_tagged(g.artifact_writes@, "artifact_write"@, symbol, effect);
    lemma_tagged(g.artifact_reads@, "artifact_read"@, symbol, effect);
    lemma_tagged(g.state_writes@, "state_write"@, symbol, effect);
    lemma_tagged(g.state_reads@, "state_read"@, symbol, effect);
    lemma_tagged(g.state_transitions@, "state_transition"@, symbol, effect);
    lemma_tagged(g.error_shapes@, "error_shape"@, symbol, effect);
    lemma_tagged(g.loggers@, "logging"@, symbol, effect);
    lemma_tagged(g.process_spawners@, "process_spawn"@, symbol, effect);
    lemma_tagged(g.network_users@, "network"@, symbol, effect);
    lemma_either(e0, t1, x);
    lemma_either(e0 + t1, t2, x);
    lemma_either(e0 + t1 + t2, t3, x);
    lemma_either(e0 + t1 + t2 + t3, t4, x);
    lemma_either(e0 + t1 + t2 + t3 + t4, t5, x);
    lemma_either(e0 + t1 + t2 + t3 + t4 + t5, t6, x);
    lemma_either(e0 + t1 + t2 + t3 + t4 + t5 + t6, t7, x);
    lemma_either(e0 + t1 + t2 + t3 + t4 + t5 + t6 + t7, t8, x);
    lemma_either(e0 + t1 + t2 + t3 + t4 + t5 + t6 + t7 + t8, t9, x);
}

/// A symbol leaks: it has three different effects, and its module is no boundary.
pub open spec fn leaks(g: SemanticGraph, symbol: Seq<char>) -> bool {
    &&& at_least(|effect: Seq<char>| has_effect(g, symbol, effect), 3)
    &&& !boundary::boundary_symbol(g, groups::firsts(graph_metrics::effects(g)), symbol)
}

proof fn lemma_leaking(g: SemanticGraph, symbol: Seq<char>)
    ensures
        (exists|i: int|
            0 <= i < graph_metrics::leaking(g).len() && (#[trigger] graph_metrics::leaking(g)[i]).0
                == symbol) <==> leaks(g, symbol),
{
    let es = graph_metrics::effects(g);
    let cands = groups::firsts(es);
    let q = |row: (Seq<char>, Seq<Seq<char>>)|
        !boundary::boundary_symbol(g, cands, row.0) && row.1.len() >= 3;
    let rows = groups::grouped(es);
    let kept = graph_metrics::leaking(g);
    let keys = groups::sorted_set(groups::firsts(es));
    let has = |effect: Seq<char>| has_effect(g, symbol, effect);
    let mine = groups::members(es, symbol);
    let row = (symbol, mine);
    groups::lemma_sorted_set(groups::firsts(es));
    groups::lemma_sorted_set(groups::seconds_of(es, symbol));
    assert forall|effect: Seq<char>| #[trigger] mine.contains(effect) <==> has(effect) by {
        groups::law_groups_hold_the_edges(es, symbol, effect);
        law_effects_are_the_edges_of_a_symbol(g, symbol, effect);
    }
    lemma_at_least(mine, has, 3);
    components::lemma_filter_contains(rows, q, row);
    if exists|i: int| 0 <= i < kept.len() && (#[trigger] kept[i]).0 == symbol {
        let i = choose|i: int| 0 <= i < kept.len() && (#[trigger] kept[i]).0 == symbol;
        components::lemma_filter_contains(rows, q, kept[i]);
        assert(kept.contains(kept[i]));
        let k = choose|k: int| 0 <= k < rows.len() && rows[k] == kept[i];
        assert(rows[k] == (keys[k], groups::members(es, keys[k])));
    }
    if leaks(g, symbol) {
        assert(mine.contains(mine[0]));
        groups::law_groups_hold_the_edges(es, symbol, mine[0]);
        assert(keys.contains(symbol));
        let k = choose|k: int| 0 <= k < keys.len() && keys[k] == symbol;
        assert(rows[k] == row);
        let i = choose|i: int| 0 <= i < kept.len() && kept[i] == row;
        assert(kept[i].0 == symbol);
    }
}

/// The id of the issue on a module that leaks.
pub open spec fn leak_id(name: Seq<char>, m: Seq<char>) -> Seq<char> {
    "auto_effect_boundary_leak_"@ + text::identifier_fragment(name) + "_"@ + text::dec(
        text::text_hash(name + ":"@ + m) as nat,
    )
}

/// A module is reported exactly where one of its symbols leaks, and every such
/// report is active and open.
pub proof fn law_a_module_is_reported_where_it_leaks(name: Seq<char>, g: SemanticGraph)
    ensures
        ({
            let ps = graph_metrics::reports(Detector::EffectBoundaries, name, g);
            &&& forall|i: int|
                0 <= i < ps.len() ==> (#[trigger] ps[i]).1 && ps[i].0.status == "open"@ && exists|
                    s: Seq<char>,
                | #[trigger] leaks(g, s) && ps[i].0.id == leak_id(name, text::before_last(s, "::"@))
            &&& forall|s: Seq<char>| #[trigger]
                leaks(g, s) ==> exists|i: int|
                    0 <= i < ps.len() && (#[trigger] ps[i]).0.id == leak_id(
                        name,
                        text::before_last(s, "::"@),
                    )
        }),
{
    let ps = graph_metrics::reports(Detector::EffectBoundaries, name, g);
    let kept = graph_metrics::leaking(g);
    let mods = graph_metrics::row_modules(kept);
    let set = groups::sorted_set(mods);
    groups::lemma_sorted_set(mods);
    assert forall|i: int| 0 <= i < ps.len() implies (#[trigger] ps[i]).1 && ps[i].0.status
        == "open"@ && exists|s: Seq<char>| #[trigger]
        leaks(g, s) && ps[i].0.id == leak_id(name, text::before_last(s, "::"@)) by {
        let m = set[i];
        assert(set.contains(m));
        let k = choose|k: int| 0 <= k < mods.len() && mods[k] == m;
        let s = kept[k].0;
        lemma_leaking(g, s);
        assert(leaks(g, s));
        let q = |r: (Seq<char>, Seq<Seq<char>>)| graph_issues::module_of(r.0) == m;
        components::lemma_filter_contains(kept, q, kept[k]);
        lemma_by_size_sum(kept.filter(q));
        assert(ps[i] == graph_metrics::leak_report(name, kept, m));
    }
    assert forall|s: Seq<char>| #[trigger] leaks(g, s) implies exists|i: int|
        0 <= i < ps.len() && (#[trigger] ps[i]).0.id == leak_id(
            name,
            text::before_last(s, "::"@),
        ) by {
        lemma_leaking(g, s);
        let k = choose|k: int| 0 <= k < kept.len() && (#[trigger] kept[k]).0 == s;
        assert(mods[k] == graph_issues::module_of(s));
        assert(mods.contains(mods[k]));
        assert(set.contains(mods[k]));
        let i = choose|i: int| 0 <= i < set.len() && set[i] == mods[k];
        assert(ps[i] == graph_metrics::leak_report(name, kept, set[i]));
    }
}

// ---------------------------------------------------------------------------
// Translations
// ---------------------------------------------------------------------------

proof fn lemma_written_by(
    writes: Seq<(Seq<char>, Seq<char>)>,
    symbol: Seq<char>,
    source: Seq<char>,
    target: Seq<char>,
    s: Seq<char>,
)
    ensures
        complexity::written_by(writes, symbol, source).contains((target, s)) <==> s == symbol
            && target != source && writes.contains((symbol, target)),
    decreases writes.len(),
{
    let all = complexity::written_by(writes, symbol, source);
    if writes.len() > 0 {
        let front = writes.drop_last();
        lemma_written_by(front, symbol, source, target, s);
        let was = complexity::written_by(front, symbol, source);
        if all.contains((target, s)) {
            let k = choose|k: int| 0 <= k < all.len() && all[k] == (target, s);
            if k < was.len() {
                assert(was[k] == (target, s));
                let i = choose|i: int| 0 <= i < front.len() && front[i] == (symbol, target);
                assert(writes[i] == (symbol, target));
            } else {
                assert(writes[writes.len() - 1] == (symbol, target));
            }
        }
        if s == symbol && target != source && writes.contains((symbol, target)) {
            let i = choose|i: int| 0 <= i < writes.len() && writes[i] == (symbol, target);
            if i < front.len() {
                assert(front[i] == (symbol, target));
                let k = choose|k: int| 0 <= k < was.len() && was[k] == (target, s);
                assert(all[k] == (target, s));
            } else {
                assert(all[was.len() as int] == (target, s));
            }
        }
    }
}

/// The symbols that lead from one domain to another are those that read the
/// one and write the other.
pub proof fn law_translators_read_and_write(
    reads: Seq<(Seq<char>, Seq<char>)>,
    writes: Seq<(Seq<char>, Seq<char>)>,
    source: Seq<char>,
    target: Seq<char>,
    s: Seq<char>,
)
    ensures
        complexity::derived_from(reads, writes, source).contains((target, s)) <==> target != source
            && reads.contains((s, source)) && writes.contains((s, target)),
    decreases reads.len(),
{
    let all = complexity::derived_from(reads, writes, source);
    if reads.len() > 0 {
        let front = reads.drop_last();
        law_translators_read_and_write(front, writes, source, target, s);
        let was = complexity::derived_from(front, writes, source);
        let more = complexity::written_by(writes, reads.last().0, source);
        lemma_written_by(writes, reads.last().0, source, target, s);
        lemma_either(was, more, (target, s));
        if reads.contains((s, source)) {
            let i = choose|i: int| 0 <= i < reads.len() && reads[i] == (s, source);
            if i < front.len() {
                assert(front[i] == (s, source));
            } else {
                assert(reads.last() == (s, source));
            }
        }
        if front.contains((s, source)) {
            let i = choose|i: int| 0 <= i < front.len() && front[i] == (s, source);
            assert(reads[i] == (s, source));
        }
        if reads.last() == (s, source) {
            assert(reads[reads.len() - 1] == (s, source));
        }
    }
}

/// The report on a translation is active and open where two different symbols do
/// it, and urgent where three do.
pub proof fn law_a_translation_is_told_by_its_symbols(
    name: Seq<char>,
    g: SemanticGraph,
    source: Seq<char>,
    i: int,
)
    requires
        0 <= i < graph_metrics::fanout_reports_from(name, g, source).len(),
    ensures
        exists|target: Seq<char>| #[trigger] tells_of_translation(
            graph_metrics::fanout_reports_from(name, g, source)[i],
            name,
            g,
            source,
            target,
        ),
{
    let reads = graph_metrics::read_domains(g);
    let writes = graph_metrics::written_domains(g);
    let es = complexity::derived_from(reads, writes, source);
    let x = groups::grouped(es)[i];
    let does = |s: Seq<char>|
        source != x.0 && reads.contains((s, source)) && writes.contains((s, x.0));
    groups::lemma_sorted_set(groups::seconds_of(es, x.0));
    groups::lemma_sorted_set(groups::firsts(es));
    assert(groups::sorted_set(groups::firsts(es))[i] == x.0);
    assert(x.1 == groups::members(es, x.0));
    assert forall|s: Seq<char>| #[trigger] x.1.contains(s) <==> does(s) by {
        groups::law_groups_hold_the_edges(es, x.0, s);
        law_translators_read_and_write(reads, writes, source, x.0, s);
    }
    lemma_at_least(x.1, does, 2);
    lemma_at_least(x.1, does, 3);
    assert(tells_of_translation(
        graph_metrics::fanout_reports_from(name, g, source)[i],
        name,
        g,
        source,
        x.0,
    ));
}

/// The report tells who translates.
pub open spec fn tells_of_translation(
    p: (IssueView, bool),
    name: Seq<char>,
    g: SemanticGraph,
    source: Seq<char>,
    target: Seq<char>,
) -> bool {
    let does = |s: Seq<char>|
        source != target && graph_metrics::read_domains(g).contains((s, source))
            && graph_metrics::written_domains(g).contains((s, target));
    &&& p.1 <==> at_least(does, 2)
    &&& p.0.status == if at_least(does, 2) { "open"@ } else { "resolved"@ }
    &&& p.0.priority == if at_least(does, 3) { "high"@ } else { "medium"@ }
    &&& p.0.id == "auto_representation_fanout_"@ + text::identifier_fragment(name) + "_"@
        + text::dec(text::text_hash(name + ":"@ + source + "->"@ + target) as nat)
}

// ---------------------------------------------------------------------------
// The planner loop
// ---------------------------------------------------------------------------

/// The row of a symbol that leads a workflow: at least four calls within the
/// workflow, a branch score of at least two, and no caller within the workflow or
/// two phases that it touches or reaches.
pub open spec fn is_leading(row: RowView, points: nat) -> bool {
    row.outgoing >= 4 && points >= 4 && (row.incoming == 0 || row.direct.len() >= 2
        || row.reached.len() >= 2)
}

/// The row of a symbol that could own the loop.
pub open spec fn is_owning(row: RowView) -> bool {
    row.incoming == 0 && row.outgoing >= 4 && row.direct.len() >= 3 && row.reached.len() >= 3
}

/// A symbol is a leader where its row says so, and no other is.
pub proof fn law_leaders_make_workflow_calls(
    phases: Seq<(Seq<char>, Seq<char>)>,
    wcalls: Seq<(Seq<char>, Seq<char>)>,
    ss: Seq<semantic::SymbolSummary>,
    symbols: Seq<Seq<char>>,
    s: Seq<char>,
)
    ensures
        ({
            let before = graph_metrics::leading_rows(phases, wcalls, ss, symbols);
            let after = graph_metrics::leading_rows(phases, wcalls, ss, symbols.push(s));
            let row = graph_metrics::row_of(phases, wcalls, s);
            let points = match semantic::last_of(ss, s) {
                Some(i) => match ss[i].branch_half_points {
                    Some(p) => p as nat,
                    None => 0,
                },
                None => 0,
            };
            after == if is_leading(row, points) {
                before.push(row)
            } else {
                before
            }
        }),
{
    assert(symbols.push(s).drop_last() =~= symbols);
}

/// A row names the phases that its symbol touches, those that what it calls
/// touches, and how many calls within the workflow lead to it and from it.
pub proof fn law_a_row_tells_its_symbol(
    phases: Seq<(Seq<char>, Seq<char>)>,
    wcalls: Seq<(Seq<char>, Seq<char>)>,
    s: Seq<char>,
    phase: Seq<char>,
)
    ensures
        ({
            let row = graph_metrics::row_of(phases, wcalls, s);
            &&& row.symbol == s
            &&& row.direct.contains(phase) <==> phases.contains((s, phase))
            &&& row.direct.no_duplicates() && row.reached.no_duplicates()
            &&& row.reached.contains(phase) <==> exists|t: Seq<char>|
                wcalls.contains((s, t)) && #[trigger] phases.contains((t, phase))
        }),
{
    let called = groups::seconds_of(wcalls, s);
    groups::law_groups_hold_the_edges(phases, s, phase);
    groups::lemma_sorted_set(groups::seconds_of(phases, s));
    groups::lemma_sorted_set(graph_metrics::phases_over(called, phases));
    lemma_phases_over(called, phases, phase);
    let row = graph_metrics::row_of(phases, wcalls, s);
    if row.reached.contains(phase) {
        let t = choose|t: Seq<char>| called.contains(t) && #[trigger] phases.contains((t, phase));
        groups::lemma_seconds_of(wcalls, s, t);
    }
    if exists|t: Seq<char>| wcalls.contains((s, t)) && #[trigger] phases.contains((t, phase)) {
        let t = choose|t: Seq<char>|
            wcalls.contains((s, t)) && #[trigger] phases.contains((t, phase));
        groups::lemma_seconds_of(wcalls, s, t);
    }
}

proof fn lemma_phases_over(
    symbols: Seq<Seq<char>>,
    phases: Seq<(Seq<char>, Seq<char>)>,
    phase: Seq<char>,
)
    ensures
        graph_metrics::phases_over(symbols, phases).contains(phase) <==> exists|t: Seq<char>|
            symbols.contains(t) && #[trigger] phases.contains((t, phase)),
    decreases symbols.len(),
{
    if symbols.len() > 0 {
        let front = symbols.drop_last();
        lemma_phases_over(front, phases, phase);
        let was = graph_metrics::phases_over(front, phases);
        let more = groups::seconds_of(phases, symbols.last());
        lemma_either(was, more, phase);
        groups::lemma_seconds_of(phases, symbols.last(), phase);
        if was.contains(phase) {
            let t = choose|t: Seq<char>| front.contains(t) && #[trigger] phases.contains((t, phase));
            let i = choose|i: int| 0 <= i < front.len() && front[i] == t;
            assert(symbols[i] == t);
        }
        if more.contains(phase) {
            assert(symbols[symbols.len() - 1] == symbols.last());
            assert(phases.contains((symbols.last(), phase)));
        }
        if exists|t: Seq<char>| symbols.contains(t) && #[trigger] phases.contains((t, phase)) {
            let t = choose|t: Seq<char>|
                symbols.contains(t) && #[trigger] phases.contains((t, phase));
            let i = choose|i: int| 0 <= i < symbols.len() && symbols[i] == t;
            if i < front.len() {
                assert(front[i] == t);
                assert(front.contains(t));
            }
        }
    }
}

/// The one report on the planner loop is active and open where two of the leaders
/// could own it, and urgent where four could.
pub proof fn law_a_loop_with_two_owners_is_reported(name: Seq<char>, g: SemanticGraph)
    ensures
        ({
            let ps = graph_metrics::reports(Detector::PlannerLoop, name, g);
            let n = owning(graph_metrics::orchestrators(g));
            &&& ps.len() == 1
            &&& ps[0].0.id == "auto_planner_loop_fragmentation_"@ + text::identifier_fragment(name)
            &&& ps[0].1 <==> n >= 2
            &&& ps[0].0.status == if n >= 2 { "open"@ } else { "resolved"@ }
            &&& ps[0].0.priority == if n >= 4 { "high"@ } else { "medium"@ }
        }),
{
    lemma_owning(graph_metrics::orchestrators(g));
}

/// How many of the rows could own the loop.
pub open spec fn owning(rows: Seq<RowView>) -> nat
    decreases rows.len(),
{
    if rows.len() == 0 {
        0
    } else {
        owning(rows.drop_last()) + if is_owning(rows.last()) {
            1nat
        } else {
            0nat
        }
    }
}

proof fn lemma_owning(rows: Seq<RowView>)
    ensures
        graph_metrics::owners(rows).len() == owning(rows),
    decreases rows.len(),
{
    reveal(Seq::filter);
    if rows.len() > 0 {
        lemma_owning(rows.drop_last());
    }
}

} // verus!
