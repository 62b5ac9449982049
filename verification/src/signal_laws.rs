//! When each graph detector has something to say, in terms of the graph.

use crate::detector_laws;
use crate::graph_issues;
use crate::graph_issues::{BridgeConnectivityStats, RankedName};
use crate::graph_metrics;
use crate::graph_metrics::{CohesionView, CrateGraph, Detector, RegionCandidate, RegionReductionMode};
use crate::groups;
use crate::groups::Group;
use crate::issues;
use crate::issues::IssueView;
use crate::order::Ranked;
use crate::order;
use crate::proposals;
use crate::semantic;
use crate::semantic::{Edge, SemanticGraph, SymbolSummary};
use crate::text;
use vstd::prelude::*;

verus! {

// ---------------------------------------------------------------------------
// States that several symbols move
// ---------------------------------------------------------------------------

/// The id of the issue on the symbols that move a state.
pub open spec fn state_id(name: Seq<char>, state: Seq<char>) -> Seq<char> {
    "auto_state_transition_dispersion_"@ + text::identifier_fragment(name) + "_"@ + text::dec(
        text::text_hash(name + ":"@ + state) as nat,
    )
}

/// The report tells who moves the state: it is active and open where two symbols
/// do, and urgent where four do.
pub open spec fn tells_of_state(
    p: (IssueView, bool),
    name: Seq<char>,
    moves: Seq<Edge>,
    state: Seq<char>,
) -> bool {
    &&& p.0.id == state_id(name, state)
    &&& p.1 <==> detector_laws::shared(moves, state)
    &&& p.0.status == if detector_laws::shared(moves, state) { "open"@ } else { "resolved"@ }
    &&& p.0.priority == if detector_laws::crowded(moves, state, 4) { "high"@ } else { "medium"@ }
}

/// Each report tells of a state that a symbol moves.
pub proof fn law_transition_reports_tell_who_moves(name: Seq<char>, g: SemanticGraph, i: int)
    requires
        0 <= i < graph_metrics::reports(Detector::StateTransitions, name, g).len(),
    ensures
        exists|state: Seq<char>| #[trigger]
            tells_of_state(
                graph_metrics::reports(Detector::StateTransitions, name, g)[i],
                name,
                g.state_transitions@,
                state,
            ),
{
    let v = g.state_transitions@;
    let x = graph_metrics::observers(semantic::edges_of(v))[i];
    detector_laws::lemma_observers(v, i);
    detector_laws::lemma_crowd(v, x.0, x.1, 4);
    assert(tells_of_state(
        graph_metrics::reports(Detector::StateTransitions, name, g)[i],
        name,
        v,
        x.0,
    ));
}

/// Where no state of any crate is moved by two different symbols, the detector of
/// state transitions opens no issue.
pub proof fn law_single_movers_open_nothing(fs: Seq<IssueView>, cs: Seq<CrateGraph>)
    requires
        forall|j: int, state: Seq<char>|
            0 <= j < cs.len() ==> !#[trigger] detector_laws::shared(
                cs[j].graph.state_transitions@,
                state,
            ),
    ensures
        detector_laws::opens_nothing(
            fs,
            graph_metrics::detected(Detector::StateTransitions, fs, cs),
        ),
{
    let d = Detector::StateTransitions;
    assert forall|j: int, i: int|
        #![trigger graph_metrics::reports(d, graph_metrics::crate_id(cs[j].name@), cs[j].graph)[i]]
        0 <= j < cs.len() && 0 <= i < graph_metrics::reports(
            d,
            graph_metrics::crate_id(cs[j].name@),
            cs[j].graph,
        ).len() implies !graph_metrics::reports(
        d,
        graph_metrics::crate_id(cs[j].name@),
        cs[j].graph,
    )[i].1 by {
        law_transition_reports_tell_who_moves(
            graph_metrics::crate_id(cs[j].name@),
            cs[j].graph,
            i,
        );
    }
    detector_laws::law_no_active_report_opens_nothing(d, fs, cs);
}

/// A state that two different symbols move is left with exactly one issue, which is
/// open, where no two states of the crate share an id.
pub proof fn law_several_movers_are_opened_once(
    fs: Seq<IssueView>,
    name: Seq<char>,
    g: SemanticGraph,
    state: Seq<char>,
)
    requires
        issues::distinct_ids(fs),
        proposals::reports_once(graph_metrics::reports(Detector::StateTransitions, name, g)),
        detector_laws::shared(g.state_transitions@, state),
    ensures
        detector_laws::opened_once(
            graph_metrics::detected_in(Detector::StateTransitions, fs, name, g),
            state_id(name, state),
        ),
{
    let v = g.state_transitions@;
    let (a, b) = choose|a: Seq<char>, b: Seq<char>|
        a != b && #[trigger] detector_laws::leads(v, a, state) && #[trigger] detector_laws::leads(
            v,
            b,
            state,
        );
    let i = detector_laws::lemma_observed_somewhere(v, a, state);
    let x = graph_metrics::observers(semantic::edges_of(v))[i];
    detector_laws::lemma_observers(v, i);
    detector_laws::lemma_crowd(v, x.0, x.1, 4);
    detector_laws::law_an_active_report_is_open_once(Detector::StateTransitions, fs, name, g, i);
}

// ---------------------------------------------------------------------------
// Groups by size
// ---------------------------------------------------------------------------

proof fn lemma_size_order()
    ensures
        order::total_preorder(
            |a: (Seq<char>, Seq<Seq<char>>), b: (Seq<char>, Seq<Seq<char>>)| Group::rank_le(a, b),
        ),
{
    let le = |a: (Seq<char>, Seq<Seq<char>>), b: (Seq<char>, Seq<Seq<char>>)| Group::rank_le(a, b);
    assert forall|a: (Seq<char>, Seq<Seq<char>>), b: (Seq<char>, Seq<Seq<char>>)| #[trigger]
        le(a, b) || le(b, a) by {
        Group::rank_total(a, b);
    }
    assert forall|
        a: (Seq<char>, Seq<Seq<char>>),
        b: (Seq<char>, Seq<Seq<char>>),
        c: (Seq<char>, Seq<Seq<char>>),
    | #[trigger] le(a, b) && #[trigger] le(b, c) implies le(a, c) by {
        Group::rank_transitive(a, b, c);
    }
}

/// Groups by size are the groups, the larger before the smaller, and groups of one
/// size by their keys.
pub proof fn law_larger_groups_come_first(gs: Seq<(Seq<char>, Seq<Seq<char>>)>, i: int, j: int)
    requires
        0 <= i < j < groups::by_size(gs).len(),
    ensures
        groups::by_size(gs).to_multiset() == gs.to_multiset(),
        groups::by_size(gs)[i].1.len() >= groups::by_size(gs)[j].1.len(),
        groups::by_size(gs)[i].1.len() == groups::by_size(gs)[j].1.len() ==> text::text_le(
            groups::by_size(gs)[i].0,
            groups::by_size(gs)[j].0,
        ),
{
    let le = |a: (Seq<char>, Seq<Seq<char>>), b: (Seq<char>, Seq<Seq<char>>)| Group::rank_le(a, b);
    lemma_size_order();
    order::lemma_stable_sorted(gs, le);
    assert(le(groups::by_size(gs)[i], groups::by_size(gs)[j]));
}

proof fn lemma_by_size_contains(
    gs: Seq<(Seq<char>, Seq<Seq<char>>)>,
    x: (Seq<char>, Seq<Seq<char>>),
)
    ensures
        groups::by_size(gs).contains(x) <==> gs.contains(x),
        groups::by_size(gs).len() == gs.len(),
{
    broadcast use vstd::seq_lib::group_to_multiset_ensures;

    let le = |a: (Seq<char>, Seq<Seq<char>>), b: (Seq<char>, Seq<Seq<char>>)| Group::rank_le(a, b);
    lemma_size_order();
    order::lemma_stable_sorted(gs, le);
    assert(groups::by_size(gs).contains(x) <==> groups::by_size(gs).to_multiset().count(x) > 0);
    assert(gs.contains(x) <==> gs.to_multiset().count(x) > 0);
}

proof fn lemma_joined(gs: Seq<(Seq<char>, Seq<Seq<char>>)>, s: Seq<char>)
    ensures
        groups::joined_members(gs).contains(s) <==> exists|i: int|
            0 <= i < gs.len() && (#[trigger] gs[i]).1.contains(s),
    decreases gs.len(),
{
    if gs.len() > 0 {
        let front = gs.drop_last();
        lemma_joined(front, s);
        let was = groups::joined_members(front);
        let all = groups::joined_members(gs);
        if all.contains(s) {
            let k = choose|k: int| 0 <= k < all.len() && all[k] == s;
            if k < was.len() {
                assert(was[k] == s);
                let i = choose|i: int| 0 <= i < front.len() && (#[trigger] front[i]).1.contains(s);
                assert(gs[i].1.contains(s));
            } else {
                assert(gs.last().1[k - was.len()] == s);
                assert(gs[gs.len() - 1].1.contains(s));
            }
        }
        if exists|i: int| 0 <= i < gs.len() && (#[trigger] gs[i]).1.contains(s) {
            let i = choose|i: int| 0 <= i < gs.len() && (#[trigger] gs[i]).1.contains(s);
            if i < front.len() {
                assert(front[i].1.contains(s));
                let k = choose|k: int| 0 <= k < was.len() && was[k] == s;
                assert(all[k] == s);
            } else {
                let k = choose|k: int| 0 <= k < gs.last().1.len() && gs.last().1[k] == s;
                assert(all[was.len() + k] == s);
            }
        }
    }
}

// ---------------------------------------------------------------------------
// Errors shaped by many symbols
// ---------------------------------------------------------------------------

/// The symbol is the start of an edge to something with a name.
pub open spec fn starts_one(v: Seq<Edge>, s: Seq<char>) -> bool {
    exists|to: Seq<char>| #[trigger] detector_laws::leads(v, s, to)
}

pub open spec fn all_start(v: Seq<Edge>, from: Seq<Seq<char>>) -> bool {
    forall|i: int| 0 <= i < from.len() ==> starts_one(v, #[trigger] from[i])
}

/// At least `n` different symbols start edges.
pub open spec fn starters(v: Seq<Edge>, n: nat) -> bool {
    exists|from: Seq<Seq<char>>|
        from.no_duplicates() && from.len() == n && #[trigger] all_start(v, from)
}

proof fn lemma_starters(v: Seq<Edge>, n: nat)
    ensures
        groups::all_members(
            groups::by_size(graph_metrics::observers(semantic::edges_of(v))),
        ).len() >= n <==> starters(v, n),
{
    let gs = graph_metrics::observers(semantic::edges_of(v));
    let sorted = groups::by_size(gs);
    let members = groups::all_members(sorted);
    groups::lemma_sorted_set(groups::joined_members(sorted));
    assert forall|s: Seq<char>| #[trigger] members.contains(s) <==> starts_one(v, s) by {
        lemma_joined(sorted, s);
        if members.contains(s) {
            let i = choose|i: int| 0 <= i < sorted.len() && (#[trigger] sorted[i]).1.contains(s);
            lemma_by_size_contains(gs, sorted[i]);
            assert(sorted.contains(sorted[i]));
            let k = choose|k: int| 0 <= k < gs.len() && gs[k] == sorted[i];
            detector_laws::lemma_observers(v, k);
            assert(detector_laws::leads(v, s, gs[k].0));
        }
        if starts_one(v, s) {
            let to = choose|to: Seq<char>| #[trigger] detector_laws::leads(v, s, to);
            let k = detector_laws::lemma_observed_somewhere(v, s, to);
            detector_laws::lemma_observers(v, k);
            assert(gs[k].1.contains(s));
            lemma_by_size_contains(gs, gs[k]);
            assert(gs.contains(gs[k]));
            let i = choose|i: int| 0 <= i < sorted.len() && sorted[i] == gs[k];
            assert(sorted[i].1.contains(s));
        }
    }
    if members.len() >= n {
        let some = members.take(n as int);
        assert forall|i: int| 0 <= i < some.len() implies starts_one(v, #[trigger] some[i]) by {
            assert(members.contains(members[i]));
        }
        assert(all_start(v, some));
    }
    if starters(v, n) {
        let some = choose|some: Seq<Seq<char>>|
            some.no_duplicates() && some.len() == n && #[trigger] all_start(v, some);
        some.unique_seq_to_set();
        members.unique_seq_to_set();
        assert forall|s: Seq<char>| some.to_set().contains(s) implies members.to_set().contains(
            s,
        ) by {
            let i = choose|i: int| 0 <= i < some.len() && some[i] == s;
            assert(starts_one(v, some[i]));
        }
        assert(some.to_set().subset_of(members.to_set()));
        vstd::set_lib::lemma_len_subset(some.to_set(), members.to_set());
    }
}

/// The one report on shaped errors is active and open where at least four different
/// symbols shape errors, and urgent where eight do.
pub proof fn law_error_shaping_is_told_by_its_symbols(name: Seq<char>, g: SemanticGraph)
    ensures
        ({
            let ps = graph_metrics::reports(Detector::ErrorShaping, name, g);
            let many = starters(g.error_shapes@, 4);
            &&& ps.len() == 1
            &&& ps[0].0.id == "auto_error_shaping_dispersion_"@ + text::identifier_fragment(name)
            &&& ps[0].1 <==> many
            &&& ps[0].0.status == if many { "open"@ } else { "resolved"@ }
            &&& ps[0].0.priority == if starters(g.error_shapes@, 8) { "high"@ } else { "medium"@ }
        }),
{
    lemma_starters(g.error_shapes@, 4);
    lemma_starters(g.error_shapes@, 8);
}

// ---------------------------------------------------------------------------
// Functions that are state machines
// ---------------------------------------------------------------------------

/// The symbol keeps state: it is in one of the modules that do, and its name does
/// not say that it only writes.
pub open spec fn keeps_state(symbol: Seq<char>) -> bool {
    let kept = text::has_prefix(symbol, "app::"@) || text::has_prefix(symbol, "tools::"@)
        || text::has_prefix(symbol, "system_state::"@) || text::has_prefix(
        symbol,
        "transition_policy::"@,
    ) || text::has_prefix(symbol, "canonical_writer::"@) || text::has_prefix(
        symbol,
        "supervisor::"@,
    );
    let writes = text::has_text(symbol, "persist_"@) || text::has_text(symbol, "write_"@)
        || text::has_text(symbol, "save_"@) || text::has_text(symbol, "append_"@)
        || text::has_text(symbol, "record_"@);
    kept && !writes
}

/// The symbol moves two different states.
pub open spec fn moves_two(v: Seq<Edge>, symbol: Seq<char>) -> bool {
    exists|a: Seq<char>, b: Seq<char>|
        a != b && #[trigger] detector_laws::joins(v, symbol, a) && #[trigger] detector_laws::joins(
            v,
            symbol,
            b,
        )
}

/// A function is reported on where it moves a state, and only functions are. The
/// report is active where the function keeps state, its branch score is at least
/// four, and it loops, switches twice or moves two states.
pub proof fn law_a_state_machine_moves_and_branches(
    name: Seq<char>,
    v: Seq<Edge>,
    ss: Seq<SymbolSummary>,
    s: SymbolSummary,
)
    ensures
        ({
            let es = semantic::edges_of(v);
            let before = graph_metrics::machine_reports_over(name, es, ss);
            let after = graph_metrics::machine_reports_over(name, es, ss.push(s));
            let moves = exists|a: Seq<char>| #[trigger] detector_laws::joins(v, s.symbol@, a);
            let points = match s.branch_half_points {
                Some(p) => p as int,
                None => 0,
            };
            let branches = s.has_back_edges || s.switchint_count >= 2 || moves_two(v, s.symbol@);
            let urgent = s.has_back_edges || moves_two(v, s.symbol@);
            if s.kind@ == "fn"@ && moves {
                &&& after.len() == before.len() + 1
                &&& after.drop_last() == before
                &&& after.last().1 <==> keeps_state(s.symbol@) && points >= 8 && branches
                &&& after.last().0.status == "open"@
                &&& after.last().0.priority == if urgent { "high"@ } else { "medium"@ }
                &&& after.last().0.id == "auto_implicit_state_machine_"@
                    + text::identifier_fragment(name) + "_"@ + text::dec(
                    text::text_hash(name + ":"@ + s.symbol@) as nat,
                )
            } else {
                after == before
            }
        }),
{
    let es = semantic::edges_of(v);
    let symbol = s.symbol@;
    let states = groups::members(es, symbol);
    let before = graph_metrics::machine_reports_over(name, es, ss);
    let after = graph_metrics::machine_reports_over(name, es, ss.push(s));
    assert(ss.push(s).drop_last() =~= ss);
    groups::lemma_sorted_set(groups::seconds_of(es, symbol));
    assert forall|a: Seq<char>| #[trigger] states.contains(a) <==> detector_laws::joins(
        v,
        symbol,
        a,
    ) by {
        groups::law_groups_hold_the_edges(es, symbol, a);
        detector_laws::lemma_joins(v, symbol, a);
    }
    if states.len() > 0 {
        assert(states.contains(states[0]));
    }
    if states.len() >= 2 {
        assert(states.contains(states[0]) && states.contains(states[1]));
        assert(detector_laws::joins(v, symbol, states[0]) && detector_laws::joins(
            v,
            symbol,
            states[1],
        ));
    }
    if moves_two(v, symbol) {
        let (a, b) = choose|a: Seq<char>, b: Seq<char>|
            a != b && #[trigger] detector_laws::joins(v, symbol, a)
                && #[trigger] detector_laws::joins(v, symbol, b);
        assert(states.contains(a) && states.contains(b));
        let i = choose|i: int| 0 <= i < states.len() && states[i] == a;
        let j = choose|j: int| 0 <= j < states.len() && states[j] == b;
        assert(i != j);
    }
    if exists|a: Seq<char>| #[trigger] detector_laws::joins(v, symbol, a) {
        let a = choose|a: Seq<char>| #[trigger] detector_laws::joins(v, symbol, a);
        assert(states.contains(a));
    }
    if s.kind@ == "fn"@ && states.len() > 0 {
        assert(after.drop_last() =~= before);
    }
}

/// What is reported of a graph is what is reported of its functions.
pub proof fn law_state_machines_are_those_of_the_graph(name: Seq<char>, g: SemanticGraph)
    ensures
        graph_metrics::reports(Detector::ImplicitStateMachines, name, g)
            == graph_metrics::machine_reports_over(
            name,
            semantic::edges_of(g.state_transitions@),
            g.summaries@,
        ),
        graph_metrics::machine_reports_over(
            name,
            semantic::edges_of(g.state_transitions@),
            Seq::empty(),
        ).len() == 0,
{
}

// ---------------------------------------------------------------------------
// Regions
// ---------------------------------------------------------------------------

/// A loop is worth reducing from a branch score of four, where it has back edges.
/// A dispatch is worth reducing from the same score, where it has none but two
/// switches or a redundant path.
pub proof fn law_a_region_is_worth_reducing(
    name: Seq<char>,
    s: SymbolSummary,
    back: usize,
    redundant: usize,
)
    ensures
        ({
            let points = match s.branch_half_points {
                Some(p) => p as int,
                None => 0,
            };
            let scc = graph_metrics::region_of(
                name,
                s,
                back,
                redundant,
                RegionReductionMode::Scc,
            );
            let dominator = graph_metrics::region_of(
                name,
                s,
                back,
                redundant,
                RegionReductionMode::Dominator,
            );
            let width = s.switchint_count as int;
            &&& scc is Some <==> points >= 8 && back >= 1
            &&& dominator is Some <==> points >= 8 && back == 0 && (width >= 2 || redundant >= 1)
            &&& scc matches Some(c) ==> {
                &&& c.0.id == "auto_scc_region_reduction_"@ + text::identifier_fragment(name)
                    + "_"@ + text::dec(text::text_hash(name + ":"@ + s.symbol@) as nat)
                &&& c.0.status == "open"@
                &&& c.0.priority == if back >= 2 || redundant >= 2 { "high"@ } else { "medium"@ }
                &&& c.1 == points + 8 * back + 4 * redundant + 2 * width
            }
            &&& dominator matches Some(c) ==> {
                &&& c.0.id == "auto_dominator_region_reduction_"@ + text::identifier_fragment(name)
                    + "_"@ + text::dec(text::text_hash(name + ":"@ + s.symbol@) as nat)
                &&& c.0.status == "open"@
                &&& c.0.priority == if redundant >= 2 || width >= 3 { "high"@ } else { "medium"@ }
                &&& c.1 == points + 4 * redundant + 2 * width
            }
        }),
{
}

/// No more than twenty five regions are reported, the higher score before the
/// lower, and none that is left out has a higher score than one that is reported.
pub proof fn law_the_best_regions_are_reported(
    name: Seq<char>,
    g: SemanticGraph,
    mode: RegionReductionMode,
)
    ensures
        ({
            let all = graph_metrics::regions_over(name, g, mode, g.summaries@);
            let top = graph_metrics::top_regions(name, g, mode);
            let ps = graph_metrics::region_reports(name, g, mode);
            &&& top.len() <= 25
            &&& all.len() <= 25 ==> top.len() == all.len()
            &&& all.len() > 25 ==> top.len() == 25
            &&& forall|i: int, j: int|
                0 <= i < j < top.len() ==> (#[trigger] top[i]).1 >= (#[trigger] top[j]).1
            &&& forall|i: int| 0 <= i < top.len() ==> all.contains(#[trigger] top[i])
            &&& forall|i: int, j: int|
                0 <= i < all.len() && 0 <= j < top.len() && !top.contains(#[trigger] all[i])
                    ==> all[i].1 <= (#[trigger] top[j]).1
            &&& ps.len() == top.len()
            &&& forall|i: int|
                0 <= i < ps.len() ==> (#[trigger] ps[i]).1 && ps[i].0 == top[i].0
        }),
{
    broadcast use vstd::seq_lib::group_to_multiset_ensures;

    let all = graph_metrics::regions_over(name, g, mode, g.summaries@);
    let le = |a: (IssueView, u128), b: (IssueView, u128)| RegionCandidate::rank_le(a, b);
    let sorted = order::stable_sorted(all, le);
    let top = graph_metrics::top_regions(name, g, mode);
    assert forall|a: (IssueView, u128), b: (IssueView, u128)| #[trigger] le(a, b) || le(b, a) by {
        RegionCandidate::rank_total(a, b);
    }
    assert forall|a: (IssueView, u128), b: (IssueView, u128), c: (IssueView, u128)| #[trigger]
        le(a, b) && #[trigger] le(b, c) implies le(a, c) by {
        RegionCandidate::rank_transitive(a, b, c);
    }
    order::lemma_stable_sorted(all, le);
    assert forall|i: int, j: int| 0 <= i < j < top.len() implies (#[trigger] top[i]).1 >= (
    #[trigger] top[j]).1 by {
        assert(top[i] == sorted[i] && top[j] == sorted[j]);
        assert(le(sorted[i], sorted[j]));
    }
    assert forall|i: int| 0 <= i < top.len() implies all.contains(#[trigger] top[i]) by {
        assert(top[i] == sorted[i]);
        assert(sorted.contains(sorted[i]));
        assert(sorted.to_multiset().count(sorted[i]) > 0);
    }
    assert forall|i: int, j: int|
        0 <= i < all.len() && 0 <= j < top.len() && !top.contains(
            #[trigger] all[i],
        ) implies all[i].1 <= (#[trigger] top[j]).1 by {
        assert(all.contains(all[i]));
        assert(all.to_multiset().count(all[i]) > 0);
        assert(sorted.contains(all[i]));
        let k = choose|k: int| 0 <= k < sorted.len() && sorted[k] == all[i];
        if k < top.len() {
            assert(top[k] == all[i]);
        }
        assert(top[j] == sorted[j]);
        assert(le(sorted[j], sorted[k]));
    }
}

/// Only functions have regions, and each that is worth reducing has one.
pub proof fn law_functions_have_regions(
    name: Seq<char>,
    g: SemanticGraph,
    mode: RegionReductionMode,
    ss: Seq<SymbolSummary>,
    s: SymbolSummary,
)
    ensures
        ({
            let before = graph_metrics::regions_over(name, g, mode, ss);
            let after = graph_metrics::regions_over(name, g, mode, ss.push(s));
            let r = graph_metrics::region_of(
                name,
                s,
                graph_metrics::back_edges_of(g.back_edges@, s.symbol@),
                crate::complexity::occurrences(text::texts(g.redundant_path_owners@), s.symbol@)
                    as usize,
                mode,
            );
            if s.kind@ != "fn"@ {
                after == before
            } else {
                match r {
                    Some(c) => after == before.push(c),
                    None => after == before,
                }
            }
        }),
{
    assert(ss.push(s).drop_last() =~= ss);
}

/// The last number of back edges that is known of a symbol counts, none else.
pub proof fn law_the_last_back_edges_count(
    v: Seq<semantic::BackEdges>,
    b: semantic::BackEdges,
    symbol: Seq<char>,
)
    ensures
        graph_metrics::back_edges_of(Seq::empty(), symbol) == 0,
        b.symbol@ == symbol ==> graph_metrics::back_edges_of(v.push(b), symbol) == b.count,
        b.symbol@ != symbol ==> graph_metrics::back_edges_of(v.push(b), symbol)
            == graph_metrics::back_edges_of(v, symbol),
{
    assert(v.push(b).drop_last() =~= v);
}

// ---------------------------------------------------------------------------
// Bridges
// ---------------------------------------------------------------------------

/// A graph is reported for its bridges where they exceed the threshold that was
/// set, or ten for each node where none was; a graph of less than thirty two nodes
/// whose bridges call no function is not.
pub proof fn law_bridges_are_reported_over_the_threshold(stats: BridgeConnectivityStats)
    ensures
        ({
            let p = graph_metrics::bridge_report(stats);
            let nodes = if stats.node_count == 0 { 1int } else { stats.node_count as int };
            let over = match stats.threshold {
                Some(t) => t.exceeded,
                None => stats.bridge_edge_count > 10 * nodes,
            };
            let edges = stats.bridge_edge_count as int;
            &&& p.0.id == "graph_bridge_connectivity_"@ + text::identifier_fragment(
                stats.crate_name@,
            )
            &&& !over ==> !p.1
            &&& over && stats.node_count >= 32 ==> p.1
            &&& over && stats.candidate_functions@.len() >= 1 ==> p.1
            &&& stats.node_count < 32 && stats.candidate_functions@.len() == 0 ==> !p.1
            &&& p.0.status == if over { "open"@ } else { "resolved"@ }
            &&& edges >= 20 * nodes ==> p.0.priority == "high"@
            &&& 10 * nodes <= edges < 20 * nodes ==> p.0.priority == "medium"@
            &&& edges < 10 * nodes ==> p.0.priority == "low"@
        }),
{
}

/// A call over a bridge to a symbol counts for that symbol; other edges do not.
pub proof fn law_bridge_calls_are_calls(es: Seq<semantic::RelationEdge>, e: semantic::RelationEdge)
    ensures
        ({
            let before = graph_metrics::bridge_calls(es);
            let after = graph_metrics::bridge_calls(es.push(e));
            if e.relation@ == "Call"@ && detector_laws::is_symbol(e.to@) {
                after == before.push((e.to@, e.from@))
            } else {
                after == before
            }
        }),
{
    assert(es.push(e).drop_last() =~= es);
}

/// At most five functions are named, the most called first, and none that is left
/// out is called more often than one that is named.
pub proof fn law_the_most_called_are_named(es: Seq<semantic::RelationEdge>)
    ensures
        ({
            let all = groups::bags(graph_metrics::bridge_calls(es));
            let top = graph_metrics::bridge_candidates(es);
            &&& top.len() == if all.len() <= 5 { all.len() } else { 5 }
            &&& forall|i: int|
                0 <= i < top.len() ==> exists|k: int|
                    0 <= k < all.len() && (#[trigger] all[k]).0 == (#[trigger] top[i]).0
                        && top[i].1 == all[k].1.len() as usize
        }),
{
    let all = groups::bags(graph_metrics::bridge_calls(es));
    let sorted = groups::by_size(all);
    let top = graph_metrics::bridge_candidates(es);
    lemma_by_size_contains(all, sorted[0]);
    assert forall|i: int| 0 <= i < top.len() implies exists|k: int|
        0 <= k < all.len() && (#[trigger] all[k]).0 == (#[trigger] top[i]).0 && top[i].1
            == all[k].1.len() as usize by {
        lemma_by_size_contains(all, sorted[i]);
        assert(sorted.contains(sorted[i]));
        let k = choose|k: int| 0 <= k < all.len() && all[k] == sorted[i];
        assert(all[k].0 == top[i].0);
    }
}

// ---------------------------------------------------------------------------
// Modules
// ---------------------------------------------------------------------------

/// A module of more than five symbols with less than a fifth of its calls inside
/// is dissolved. One with more than four fifths inside and more than ten outside
/// gets a boundary. Nothing is done with any other, nor with one without calls.
pub proof fn law_a_module_is_dissolved_or_bounded(c: CohesionView)
    ensures
        ({
            let task = graph_metrics::cohesion_task(c);
            let inside = c.internal as int;
            let outside = c.external as int;
            &&& inside + outside == 0 ==> task is None
            &&& c.symbol_count > 5 && 4 * inside < outside ==> task == Some("DissolveModule"@)
            &&& outside > 10 && inside > 4 * outside ==> task == Some("FormalizeBoundary"@)
            &&& !(c.symbol_count > 5 && 4 * inside < outside) && !(outside > 10 && inside > 4
                * outside) ==> task is None
        }),
{
}

/// A call counts for the module of its caller, inside where the module of what is
/// called is the same; a call to or from what is in no module counts for none.
pub proof fn law_a_call_counts_for_its_caller(
    calls: Seq<(Seq<char>, Seq<char>)>,
    parts: Seq<(Seq<char>, Seq<char>)>,
    m: Seq<char>,
    e: (Seq<char>, Seq<char>),
)
    ensures
        ({
            let before = graph_metrics::calls_of_module(calls, parts, m);
            let after = graph_metrics::calls_of_module(calls.push(e), parts, m);
            let from = groups::last_end(parts, e.0);
            let to = groups::last_end(parts, e.1);
            &&& graph_metrics::calls_of_module(Seq::empty(), parts, m) == (0nat, 0nat)
            &&& from is None || to is None ==> after == before
            &&& from != Some(m) ==> after == before
            &&& from == Some(m) && to == Some(m) ==> after == (before.0 + 1, before.1)
            &&& from == Some(m) && to is Some && to != Some(m) ==> after == (
                before.0,
                before.1 + 1,
            )
        }),
{
    assert(calls.push(e).drop_last() =~= calls);
    match (groups::last_end(parts, e.0), groups::last_end(parts, e.1)) {
        (Some(a), Some(b)) => {},
        _ => {},
    }
}

// ---------------------------------------------------------------------------
// The best of some names
// ---------------------------------------------------------------------------

proof fn lemma_best(names: Seq<(Seq<char>, u64)>, default: Seq<char>) -> (b: int)
    requires
        names.len() > 0,
    ensures
        0 <= b < names.len(),
        graph_issues::best_of(names, default) == names[b].0,
        forall|i: int| 0 <= i < names.len() ==> names[b].1 <= (#[trigger] names[i]).1,
{
    broadcast use vstd::seq_lib::group_to_multiset_ensures;

    let le = |a: (Seq<char>, u64), b: (Seq<char>, u64)| RankedName::rank_le(a, b);
    assert forall|a: (Seq<char>, u64), b: (Seq<char>, u64)| #[trigger] le(a, b) || le(b, a) by {
        RankedName::rank_total(a, b);
    }
    assert forall|a: (Seq<char>, u64), b: (Seq<char>, u64), c: (Seq<char>, u64)| #[trigger]
        le(a, b) && #[trigger] le(b, c) implies le(a, c) by {
        RankedName::rank_transitive(a, b, c);
    }
    order::lemma_stable_sorted(names, le);
    let sorted = order::stable_sorted(names, le);
    assert(sorted.contains(sorted[0]));
    assert(sorted.to_multiset().count(sorted[0]) > 0);
    assert(names.contains(sorted[0]));
    let b = choose|b: int| 0 <= b < names.len() && names[b] == sorted[0];
    assert forall|i: int| 0 <= i < names.len() implies names[b].1 <= (#[trigger] names[i]).1 by {
        assert(names.contains(names[i]));
        assert(names.to_multiset().count(names[i]) > 0);
        assert(sorted.contains(names[i]));
        let k = choose|k: int| 0 <= k < sorted.len() && sorted[k] == names[i];
        if k > 0 {
            assert(le(sorted[0], sorted[k]));
        }
    }
    b
}

/// The writer that is proposed is one of the writers. Where one of them persists,
/// it does; where all or none persist and one names the artifact, it does; and a
/// projection is preferred after that.
pub proof fn law_the_best_writer_persists(artifact: Seq<char>, writers: Seq<Seq<char>>, other: int)
    requires
        0 <= other < writers.len(),
    ensures
        ({
            let best = text::lower_ascii(graph_issues::canonical_writer(artifact, writers));
            let its = text::lower_ascii(writers[other]);
            let hint = text::lower_ascii(graph_issues::artifact_display(artifact));
            &&& writers.contains(graph_issues::canonical_writer(artifact, writers))
            &&& text::has_text(its, "persist"@) ==> text::has_text(best, "persist"@)
            &&& text::has_text(its, "persist"@) == text::has_text(best, "persist"@)
                && text::has_text(its, hint) ==> text::has_text(best, hint)
            &&& text::has_text(its, "persist"@) == text::has_text(best, "persist"@)
                && text::has_text(its, hint) == text::has_text(best, hint) && text::has_text(
                its,
                "projection"@,
            ) ==> text::has_text(best, "projection"@)
        }),
{
    let hint = text::lower_ascii(graph_issues::artifact_display(artifact));
    let names = writers.map_values(|w: Seq<char>| (w, graph_issues::writer_rank(w, hint)));
    let b = lemma_best(names, ""@);
    assert(names[b].0 == writers[b]);
    assert(names[b].1 <= names[other].1);
    assert(names[b].1 == graph_issues::writer_rank(writers[b], hint));
    assert(names[other].1 == graph_issues::writer_rank(writers[other], hint));
}

} // verus!
