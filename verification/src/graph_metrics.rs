//! Detectors on program graphs. Each reports issues from what a graph shows, and
//! brings a list of issues up to date with its reports.

use crate::boundary;
use crate::boundary::derive_canonical_effect_boundary_modules;
use crate::complexity;
use crate::complexity::collect_derived;
use crate::graph_issues;
use crate::graph_issues::{
    build_artifact_writer_dispersion_issue, build_bridge_connectivity_issue,
    build_dominator_region_reduction_issue, build_effect_boundary_leak_issue,
    build_error_shaping_dispersion_issue, build_implicit_state_machine_issue,
    build_logging_dispersion_issue, build_module_cohesion_issue,
    build_network_usage_dispersion_issue, build_planner_loop_fragmentation_issue,
    build_process_spawn_dispersion_issue, build_representation_fanout_issue,
    build_scc_region_reduction_issue, build_state_transition_dispersion_issue,
    canonical_representation_target, display_artifact_domain, display_state_domain,
    exceeds_threshold, is_canonical_process_boundary, symbol_module, BridgeConnectivityStats,
    CalledFunction, OrchestratorRow, RowView, SetThreshold,
};
use crate::groups;
use crate::groups::{
    bag_edges, collect_members, count_total, flip, group_edges, members_of, sort_by_size,
    sorted_distinct, starts, ends, ends_of, Group,
};
use crate::issues;
use crate::issues::{holds_text, resolve_stale, Issue, IssueView};
use crate::order;
use crate::order::{sort_ranked, Ranked};
use crate::proposals;
use crate::proposals::{and_proposal, apply_proposals, sync_family, Proposal};
use crate::semantic;
use crate::semantic::{index_by_symbol, Edge, RatioText, SemanticGraph, SymbolSummary};
use crate::tally;
use crate::text;
use crate::text::{
    contains, is_blank, join, replace_char, same, starts_with,
    text_after_first, text_after_last, text_at_most, text_before_last, trim,
    trim_end_matches,
};
use vstd::hash_map::StringHashMap;
use vstd::hash_set::StringHashSet;
use vstd::prelude::*;
use vstd::string::*;

verus! {

/// The graph of one crate. The ratios are those of its modules, in the order of
/// [`module_cohesion`].
#[derive(Debug)]
pub struct CrateGraph {
    pub name: String,
    pub graph: SemanticGraph,
    pub cohesion_ratios: Vec<RatioText>,
}

/// The name of a crate as an identifier.
pub open spec fn crate_id(name: Seq<char>) -> Seq<char> {
    text::with_char_replaced(name, '-', "_"@)
}

/// The text names a symbol: a path that is neither a place in a control flow nor
/// in a file.
pub open spec fn symbol_like(raw: Seq<char>) -> bool {
    &&& !text::has_prefix(raw, "cfg::"@)
    &&& !text::has_prefix(raw, "path::"@)
    &&& text::has_text(raw, "::"@)
}

/// The text names a symbol.
pub fn looks_like_symbol(raw: &str) -> (r: bool)
    ensures
        r == symbol_like(raw@),
{
    !starts_with(raw, "cfg::") && !starts_with(raw, "path::") && contains(raw, "::")
}

/// The edges from symbols to something that has a name.
pub open spec fn observed(es: Seq<(Seq<char>, Seq<char>)>) -> Seq<(Seq<char>, Seq<char>)> {
    es.filter(|e: (Seq<char>, Seq<char>)| symbol_like(e.0) && !text::blank(e.1))
}

fn observe(edges: &Vec<Edge>) -> (r: Vec<Edge>)
    ensures
        semantic::edges_of(r@) == observed(semantic::edges_of(edges@)),
{
    let ghost es = semantic::edges_of(edges@);
    let mut out: Vec<Edge> = Vec::new();
    let mut i: usize = 0;
    proof {
        reveal(Seq::filter);
        assert(es.take(0) =~= Seq::<(Seq<char>, Seq<char>)>::empty());
        assert(semantic::edges_of(out@) =~= Seq::<(Seq<char>, Seq<char>)>::empty());
    }
    while i < edges.len()
        invariant
            i <= edges@.len(),
            es == semantic::edges_of(edges@),
            semantic::edges_of(out@) == observed(es.take(i as int)),
        decreases edges@.len() - i,
    {
        let ghost before = semantic::edges_of(out@);
        proof {
            reveal(Seq::filter);
            assert(es.take(i + 1).drop_last() =~= es.take(i as int));
            assert(es.take(i + 1).last() == edges@[i as int]@);
        }
        if looks_like_symbol(edges[i].from.as_str()) && !is_blank(edges[i].to.as_str()) {
            out.push(Edge { from: edges[i].from.clone(), to: edges[i].to.clone() });
            assert(semantic::edges_of(out@) =~= before.push(edges@[i as int]@));
        }
        i += 1;
    }
    assert(es.take(i as int) =~= es);
    out
}

/// What symbols lead to, each with the set of the symbols that lead to it.
pub open spec fn observers(es: Seq<(Seq<char>, Seq<char>)>) -> Seq<(Seq<char>, Seq<Seq<char>>)> {
    groups::grouped(groups::flipped(observed(es)))
}

fn group_observers(edges: &Vec<Edge>) -> (r: Vec<Group>)
    ensures
        groups::groups_of(r@) == observers(semantic::edges_of(edges@)),
{
    let seen = observe(edges);
    let back = flip(&seen);
    group_edges(&back)
}

fn no_proposals() -> (r: Vec<Proposal>)
    ensures
        proposals::proposals_of(r@) == Seq::<(IssueView, bool)>::empty(),
{
    let r: Vec<Proposal> = Vec::new();
    assert(proposals::proposals_of(r@) =~= Seq::<(IssueView, bool)>::empty());
    r
}

// ---------------------------------------------------------------------------
// Artifacts with several writers
// ---------------------------------------------------------------------------

/// The report on one artifact.
pub open spec fn artifact_report(crate_name: Seq<char>, g: (Seq<char>, Seq<Seq<char>>)) -> (
    IssueView,
    bool,
) {
    (graph_issues::artifact_writer_dispersion_issue(crate_name, g.0, g.1), g.1.len() > 1)
}

/// A report on each artifact that is written.
pub open spec fn artifact_reports(crate_name: Seq<char>, g: SemanticGraph) -> Seq<
    (IssueView, bool),
> {
    observers(semantic::edges_of(g.artifact_writes@)).map_values(
        |x: (Seq<char>, Seq<Seq<char>>)| artifact_report(crate_name, x),
    )
}

fn propose_artifact_issues(crate_name: &str, g: &SemanticGraph) -> (r: Vec<Proposal>)
    ensures
        proposals::proposals_of(r@) == artifact_reports(crate_name@, *g),
{
    let found = group_observers(&g.artifact_writes);
    let mut out: Vec<Proposal> = Vec::new();
    let mut i: usize = 0;
    while i < found.len()
        invariant
            i <= found@.len(),
            out@.len() == i,
            forall|k: int|
                0 <= k < i ==> (#[trigger] out@[k])@ == artifact_report(crate_name@, found@[k]@),
        decreases found@.len() - i,
    {
        let group = &found[i];
        let issue = build_artifact_writer_dispersion_issue(
            crate_name,
            group.key.as_str(),
            &group.members,
        );
        assert(group@.1.len() == group.members@.len());
        out.push(Proposal { issue, active: group.members.len() > 1 });
        i += 1;
    }
    proof {
        let gs = observers(semantic::edges_of(g.artifact_writes@));
        assert(gs == groups::groups_of(found@));
        assert(proposals::proposals_of(out@) =~= artifact_reports(crate_name@, *g));
    }
    out
}

// ---------------------------------------------------------------------------
// Errors shaped in many places
// ---------------------------------------------------------------------------

/// The styles of shaping errors, the most used first.
pub open spec fn error_styles(g: SemanticGraph) -> Seq<(Seq<char>, Seq<Seq<char>>)> {
    groups::by_size(observers(semantic::edges_of(g.error_shapes@)))
}

/// The report on how errors are shaped.
pub open spec fn error_reports(crate_name: Seq<char>, g: SemanticGraph) -> Seq<(IssueView, bool)> {
    Seq::empty().push(
        (
            graph_issues::error_shaping_dispersion_issue(crate_name, error_styles(g)),
            groups::all_members(error_styles(g)).len() >= 4,
        ),
    )
}

fn propose_error_issues(crate_name: &str, g: &SemanticGraph) -> (r: Vec<Proposal>)
    ensures
        proposals::proposals_of(r@) == error_reports(crate_name@, *g),
{
    let styles = sort_by_size(group_observers(&g.error_shapes));
    let functions = collect_members(&styles);
    assert(text::texts(functions@).len() == functions@.len());
    let issue = build_error_shaping_dispersion_issue(crate_name, &styles);
    and_proposal(no_proposals(), issue, functions.len() >= 4)
}

// ---------------------------------------------------------------------------
// States moved in many places
// ---------------------------------------------------------------------------

/// The report on one state.
pub open spec fn transition_report(
    crate_name: Seq<char>,
    proofs: Seq<(Seq<char>, Seq<char>)>,
    g: (Seq<char>, Seq<Seq<char>>),
) -> (IssueView, bool) {
    (
        graph_issues::state_transition_dispersion_issue(crate_name, g.0, g.1, proofs),
        g.1.len() > 1,
    )
}

/// A report on each state that is moved.
pub open spec fn transition_reports(crate_name: Seq<char>, g: SemanticGraph) -> Seq<
    (IssueView, bool),
> {
    let proofs = semantic::edges_of(g.transition_coordinators@);
    observers(semantic::edges_of(g.state_transitions@)).map_values(
        |x: (Seq<char>, Seq<Seq<char>>)| transition_report(crate_name, proofs, x),
    )
}

fn propose_transition_issues(crate_name: &str, g: &SemanticGraph) -> (r: Vec<Proposal>)
    ensures
        proposals::proposals_of(r@) == transition_reports(crate_name@, *g),
{
    let found = group_observers(&g.state_transitions);
    let ghost proofs = semantic::edges_of(g.transition_coordinators@);
    let mut out: Vec<Proposal> = Vec::new();
    let mut i: usize = 0;
    while i < found.len()
        invariant
            i <= found@.len(),
            proofs == semantic::edges_of(g.transition_coordinators@),
            out@.len() == i,
            forall|k: int|
                0 <= k < i ==> (#[trigger] out@[k])@ == transition_report(
                    crate_name@,
                    proofs,
                    found@[k]@,
                ),
        decreases found@.len() - i,
    {
        let group = &found[i];
        let issue = build_state_transition_dispersion_issue(
            crate_name,
            group.key.as_str(),
            &group.members,
            &g.transition_coordinators,
        );
        assert(group@.1.len() == group.members@.len());
        out.push(Proposal { issue, active: group.members.len() > 1 });
        i += 1;
    }
    proof {
        let gs = observers(semantic::edges_of(g.state_transitions@));
        assert(gs == groups::groups_of(found@));
        assert(proposals::proposals_of(out@) =~= transition_reports(crate_name@, *g));
    }
    out
}

// ---------------------------------------------------------------------------
// A planner loop with several owners
// ---------------------------------------------------------------------------

/// The phase that a workflow domain names, where it names one.
pub open spec fn phase_of(raw: Seq<char>) -> Option<Seq<char>> {
    let phase = text::trimmed(text::after_last(raw, "workflow::"@));
    if phase.len() == 0 || phase == raw {
        None
    } else {
        Some(phase)
    }
}

/// The phase that a workflow domain names, where it names one.
pub fn workflow_phase_from_domain(raw: &str) -> (r: Option<String>)
    ensures
        text::optional(r) == phase_of(raw@),
{
    let last = text_after_last(raw, "workflow::");
    let phase = trim(last.as_str());
    if text::to_chars(phase.as_str()).len() == 0 || same(phase.as_str(), raw) {
        None
    } else {
        Some(phase)
    }
}

/// Each symbol with the phases that it touches.
pub open spec fn phase_edges(es: Seq<(Seq<char>, Seq<char>)>) -> Seq<(Seq<char>, Seq<char>)>
    decreases es.len(),
{
    if es.len() == 0 {
        Seq::empty()
    } else {
        let before = phase_edges(es.drop_last());
        match phase_of(es.last().1) {
            Some(phase) => before.push((es.last().0, phase)),
            None => before,
        }
    }
}

fn collect_phases(edges: &Vec<Edge>) -> (r: Vec<Edge>)
    ensures
        semantic::edges_of(r@) == phase_edges(semantic::edges_of(edges@)),
{
    let ghost es = semantic::edges_of(edges@);
    let mut out: Vec<Edge> = Vec::new();
    let mut i: usize = 0;
    proof {
        assert(es.take(0) =~= Seq::<(Seq<char>, Seq<char>)>::empty());
        assert(semantic::edges_of(out@) =~= Seq::<(Seq<char>, Seq<char>)>::empty());
    }
    while i < edges.len()
        invariant
            i <= edges@.len(),
            es == semantic::edges_of(edges@),
            semantic::edges_of(out@) == phase_edges(es.take(i as int)),
        decreases edges@.len() - i,
    {
        let ghost before = semantic::edges_of(out@);
        proof {
            assert(es.take(i + 1).drop_last() =~= es.take(i as int));
            assert(es.take(i + 1).last() == edges@[i as int]@);
        }
        match workflow_phase_from_domain(edges[i].to.as_str()) {
            Some(phase) => {
                let ghost name = phase@;
                out.push(Edge { from: edges[i].from.clone(), to: phase });
                assert(semantic::edges_of(out@) =~= before.push((edges@[i as int].from@, name)));
            },
            None => {},
        }
        i += 1;
    }
    assert(es.take(i as int) =~= es);
    out
}

/// The calls between symbols that touch phases.
pub open spec fn workflow_calls(
    calls: Seq<(Seq<char>, Seq<char>)>,
    phases: Seq<(Seq<char>, Seq<char>)>,
) -> Seq<(Seq<char>, Seq<char>)> {
    let known = groups::firsts(phases);
    calls.filter(|e: (Seq<char>, Seq<char>)| known.contains(e.0) && known.contains(e.1))
}

fn collect_workflow_calls(calls: &Vec<Edge>, phases: &Vec<Edge>) -> (r: Vec<Edge>)
    ensures
        semantic::edges_of(r@) == workflow_calls(
            semantic::edges_of(calls@),
            semantic::edges_of(phases@),
        ),
{
    let ghost es = semantic::edges_of(calls@);
    let ghost ps = semantic::edges_of(phases@);
    let ghost known = groups::firsts(ps);
    let ghost keep = |e: (Seq<char>, Seq<char>)| known.contains(e.0) && known.contains(e.1);
    let touching = starts(phases);
    let mut set = StringHashSet::new();
    let mut t: usize = 0;
    assert(text::texts(touching@) == known);
    while t < touching.len()
        invariant
            t <= touching@.len(),
            known == text::texts(touching@),
            forall|x: Seq<char>| #[trigger]
                set@.contains(x) <==> exists|k: int| 0 <= k < t && #[trigger] known[k] == x,
        decreases touching@.len() - t,
    {
        let ghost was = set@;
        let ghost name = touching@[t as int]@;
        assert(known[t as int] == name);
        set.insert(touching[t].clone());
        proof {
            assert forall|x: Seq<char>| #[trigger] set@.contains(x) <==> exists|k: int|
                0 <= k < t + 1 && #[trigger] known[k] == x by {
                if was.contains(x) {
                    let k = choose|k: int| 0 <= k < t && #[trigger] known[k] == x;
                    assert(known[k] == x);
                }
                if x == name {
                    assert(known[t as int] == x);
                }
                if exists|k: int| 0 <= k < t + 1 && #[trigger] known[k] == x {
                    let k = choose|k: int| 0 <= k < t + 1 && #[trigger] known[k] == x;
                    if k < t {
                        assert(was.contains(x));
                    }
                }
            }
        }
        t += 1;
    }
    proof {
        assert forall|x: Seq<char>| #[trigger] set@.contains(x) <==> known.contains(x) by {
            if known.contains(x) {
                let k = choose|k: int| 0 <= k < known.len() && known[k] == x;
                assert(known[k] == x);
            }
        }
    }
    let mut out: Vec<Edge> = Vec::new();
    let mut i: usize = 0;
    proof {
        reveal(Seq::filter);
        assert(es.take(0) =~= Seq::<(Seq<char>, Seq<char>)>::empty());
        assert(semantic::edges_of(out@) =~= Seq::<(Seq<char>, Seq<char>)>::empty());
    }
    while i < calls.len()
        invariant
            i <= calls@.len(),
            es == semantic::edges_of(calls@),
            keep == (|e: (Seq<char>, Seq<char>)| known.contains(e.0) && known.contains(e.1)),
            forall|x: Seq<char>| #[trigger] set@.contains(x) <==> known.contains(x),
            semantic::edges_of(out@) == es.take(i as int).filter(keep),
        decreases calls@.len() - i,
    {
        let ghost before = semantic::edges_of(out@);
        proof {
            reveal(Seq::filter);
            assert(es.take(i + 1).drop_last() =~= es.take(i as int));
            assert(es.take(i + 1).last() == calls@[i as int]@);
        }
        if set.contains(calls[i].from.as_str()) && set.contains(calls[i].to.as_str()) {
            out.push(Edge { from: calls[i].from.clone(), to: calls[i].to.clone() });
            assert(semantic::edges_of(out@) =~= before.push(calls@[i as int]@));
        }
        i += 1;
    }
    assert(es.take(i as int) =~= es);
    out
}

/// The phases that some symbols touch, in a row.
pub open spec fn phases_over(
    symbols: Seq<Seq<char>>,
    phases: Seq<(Seq<char>, Seq<char>)>,
) -> Seq<Seq<char>>
    decreases symbols.len(),
{
    if symbols.len() == 0 {
        Seq::empty()
    } else {
        phases_over(symbols.drop_last(), phases) + groups::seconds_of(phases, symbols.last())
    }
}

fn collect_phases_over(symbols: &Vec<String>, phases: &Vec<Edge>) -> (r: Vec<String>)
    ensures
        text::texts(r@) == phases_over(text::texts(symbols@), semantic::edges_of(phases@)),
{
    let ghost ss = text::texts(symbols@);
    let ghost ps = semantic::edges_of(phases@);
    let mut out: Vec<String> = Vec::new();
    let mut i: usize = 0;
    proof {
        assert(ss.take(0) =~= Seq::<Seq<char>>::empty());
        assert(text::texts(out@) =~= Seq::<Seq<char>>::empty());
    }
    while i < symbols.len()
        invariant
            i <= symbols@.len(),
            ss == text::texts(symbols@),
            ps == semantic::edges_of(phases@),
            text::texts(out@) == phases_over(ss.take(i as int), ps),
        decreases symbols@.len() - i,
    {
        proof {
            assert(ss.take(i + 1).drop_last() =~= ss.take(i as int));
            assert(ss.take(i + 1).last() == symbols@[i as int]@);
        }
        let ghost before = out@;
        let mut more = ends_of(phases, symbols[i].as_str());
        let ghost added = more@;
        out.append(&mut more);
        assert(text::texts(out@) =~= text::texts(before) + text::texts(added));
        i += 1;
    }
    assert(ss.take(i as int) =~= ss);
    out
}

/// The row of a symbol that touches phases.
pub open spec fn row_of(
    phases: Seq<(Seq<char>, Seq<char>)>,
    wcalls: Seq<(Seq<char>, Seq<char>)>,
    symbol: Seq<char>,
) -> RowView {
    RowView {
        symbol,
        direct: groups::members(phases, symbol),
        reached: groups::sorted_set(
            phases_over(groups::seconds_of(wcalls, symbol), phases),
        ),
        incoming: groups::seconds_of(groups::flipped(wcalls), symbol).len() as usize,
        outgoing: groups::seconds_of(wcalls, symbol).len() as usize,
    }
}

/// The half points of the branch score of a symbol.
pub open spec fn symbol_points(ss: Seq<SymbolSummary>, symbol: Seq<char>) -> nat {
    match semantic::last_of(ss, symbol) {
        Some(i) => semantic::known_points(ss[i].branch_half_points),
        None => 0,
    }
}

/// The symbol leads a workflow: it makes at least four workflow calls, branches,
/// and starts a workflow or joins several phases.
pub open spec fn leads(row: RowView, points: nat) -> bool {
    &&& row.outgoing >= 4
    &&& points >= 4
    &&& row.incoming == 0 || row.reached.len() >= 2 || row.direct.len() >= 2
}

/// The rows of the symbols that lead a workflow, in the order of the symbols.
pub open spec fn leading_rows(
    phases: Seq<(Seq<char>, Seq<char>)>,
    wcalls: Seq<(Seq<char>, Seq<char>)>,
    ss: Seq<SymbolSummary>,
    symbols: Seq<Seq<char>>,
) -> Seq<RowView>
    decreases symbols.len(),
{
    if symbols.len() == 0 {
        Seq::empty()
    } else {
        let before = leading_rows(phases, wcalls, ss, symbols.drop_last());
        let row = row_of(phases, wcalls, symbols.last());
        if leads(row, symbol_points(ss, symbols.last())) {
            before.push(row)
        } else {
            before
        }
    }
}

/// The symbols that lead a workflow, the broadest first.
pub open spec fn orchestrators(g: SemanticGraph) -> Seq<RowView> {
    let phases = phase_edges(semantic::edges_of(g.workflow_domains@));
    let wcalls = workflow_calls(semantic::edges_of(g.call_edges@), phases);
    order::stable_sorted(
        leading_rows(phases, wcalls, g.summaries@, groups::sorted_set(groups::firsts(phases))),
        |a: RowView, b: RowView| OrchestratorRow::rank_le(a, b),
    )
}

/// The symbol could own the loop: nothing in the workflow calls it, and it
/// touches and reaches all of at least three phases.
pub open spec fn owns(row: RowView) -> bool {
    row.incoming == 0 && row.outgoing >= 4 && row.direct.len() >= 3 && row.reached.len() >= 3
}

/// The symbols that could own the loop.
pub open spec fn owners(rows: Seq<RowView>) -> Seq<RowView> {
    rows.filter(|r: RowView| owns(r))
}

fn known_half_points(g: &SemanticGraph, index: &StringHashMap<usize>, symbol: &str) -> (r: u64)
    requires
        forall|k: Seq<char>| #[trigger]
            index@.contains_key(k) <==> semantic::last_of(g.summaries@, k) is Some,
        forall|k: Seq<char>| #[trigger]
            index@.contains_key(k) ==> semantic::last_of(g.summaries@, k) == Some(
                index@[k] as int,
            ),
        forall|k: Seq<char>| #[trigger] index@.contains_key(k) ==> index@[k] < g.summaries@.len(),
    ensures
        r == symbol_points(g.summaries@, symbol@),
{
    match index.get(symbol) {
        Some(i) => match g.summaries[*i].branch_half_points {
            Some(h) => h,
            None => 0,
        },
        None => 0,
    }
}

/// The symbols that lead a workflow, the broadest first.
pub fn collect_workflow_orchestrators(g: &SemanticGraph) -> (r: Vec<OrchestratorRow>)
    ensures
        graph_issues::rows_of(r@) == orchestrators(*g),
{
    let phase_list = collect_phases(&g.workflow_domains);
    let calls = collect_workflow_calls(&g.call_edges, &phase_list);
    let back = flip(&calls);
    let index = index_by_symbol(&g.summaries);
    let touching = starts(&phase_list);
    let symbols = sorted_distinct(&touching);
    let ghost phases = semantic::edges_of(phase_list@);
    let ghost wcalls = semantic::edges_of(calls@);
    let ghost ss = g.summaries@;
    let ghost names = text::texts(symbols@);
    let mut rows: Vec<OrchestratorRow> = Vec::new();
    let mut i: usize = 0;
    proof {
        assert(names.take(0) =~= Seq::<Seq<char>>::empty());
        assert(graph_issues::rows_of(rows@) =~= Seq::<RowView>::empty());
    }
    while i < symbols.len()
        invariant
            i <= symbols@.len(),
            phases == semantic::edges_of(phase_list@),
            wcalls == semantic::edges_of(calls@),
            semantic::edges_of(back@) == groups::flipped(wcalls),
            ss == g.summaries@,
            names == text::texts(symbols@),
            forall|k: Seq<char>| #[trigger]
                index@.contains_key(k) <==> semantic::last_of(ss, k) is Some,
            forall|k: Seq<char>| #[trigger]
                index@.contains_key(k) ==> semantic::last_of(ss, k) == Some(index@[k] as int),
            forall|k: Seq<char>| #[trigger] index@.contains_key(k) ==> index@[k] < ss.len(),
            graph_issues::rows_of(rows@) == leading_rows(phases, wcalls, ss, names.take(i as int)),
        decreases symbols@.len() - i,
    {
        let ghost before = graph_issues::rows_of(rows@);
        let ghost name = symbols@[i as int]@;
        proof {
            assert(names.take(i + 1).drop_last() =~= names.take(i as int));
            assert(names.take(i + 1).last() == name);
        }
        let symbol = symbols[i].as_str();
        let called = ends_of(&calls, symbol);
        let callers = ends_of(&back, symbol);
        let over = collect_phases_over(&called, &phase_list);
        let row = OrchestratorRow {
            symbol: symbols[i].clone(),
            direct: members_of(&phase_list, symbol),
            reached: sorted_distinct(&over),
            incoming: callers.len(),
            outgoing: called.len(),
        };
        proof {
            assert(text::texts(called@).len() == called@.len());
            assert(text::texts(callers@).len() == callers@.len());
            assert(row@ == row_of(phases, wcalls, name));
            assert(row@.reached.len() == row.reached@.len());
            assert(row@.direct.len() == row.direct@.len());
        }
        let points: u64 = known_half_points(g, &index, symbol);
        if row.outgoing >= 4 && points >= 4 && (row.incoming == 0 || row.reached.len() >= 2
            || row.direct.len() >= 2) {
            let ghost view = row@;
            rows.push(row);
            assert(graph_issues::rows_of(rows@) =~= before.push(view));
        }
        i += 1;
    }
    assert(names.take(i as int) =~= names);
    let ghost unsorted = rows@;
    let sorted = sort_ranked(rows);
    proof {
        assert(graph_issues::rows_of(unsorted) =~= order::views(unsorted));
        assert(graph_issues::rows_of(sorted@) =~= order::views(sorted@));
    }
    sorted
}

fn copy_row(row: &OrchestratorRow) -> (r: OrchestratorRow)
    ensures
        r@ == row@,
{
    OrchestratorRow {
        symbol: row.symbol.clone(),
        direct: text::copy_texts(&row.direct),
        reached: text::copy_texts(&row.reached),
        incoming: row.incoming,
        outgoing: row.outgoing,
    }
}

fn select_owners(rows: &Vec<OrchestratorRow>) -> (r: Vec<OrchestratorRow>)
    ensures
        graph_issues::rows_of(r@) == owners(graph_issues::rows_of(rows@)),
{
    let ghost all = graph_issues::rows_of(rows@);
    let mut out: Vec<OrchestratorRow> = Vec::new();
    let mut i: usize = 0;
    proof {
        reveal(Seq::filter);
        assert(all.take(0) =~= Seq::<RowView>::empty());
        assert(graph_issues::rows_of(out@) =~= Seq::<RowView>::empty());
    }
    while i < rows.len()
        invariant
            i <= rows@.len(),
            all == graph_issues::rows_of(rows@),
            graph_issues::rows_of(out@) == owners(all.take(i as int)),
        decreases rows@.len() - i,
    {
        let row = &rows[i];
        let ghost before = graph_issues::rows_of(out@);
        proof {
            reveal(Seq::filter);
            assert(all.take(i + 1).drop_last() =~= all.take(i as int));
            assert(all.take(i + 1).last() == row@);
            assert(row@.reached.len() == row.reached@.len());
            assert(row@.direct.len() == row.direct@.len());
        }
        if row.incoming == 0 && row.outgoing >= 4 && row.direct.len() >= 3 && row.reached.len()
            >= 3 {
            out.push(copy_row(row));
            assert(graph_issues::rows_of(out@) =~= before.push(row@));
        }
        i += 1;
    }
    assert(all.take(i as int) =~= all);
    out
}

/// The report on the planner loop.
pub open spec fn loop_reports(crate_name: Seq<char>, g: SemanticGraph) -> Seq<(IssueView, bool)> {
    let by_phase = groups::flipped(phase_edges(semantic::edges_of(g.workflow_domains@)));
    let leaders = orchestrators(g);
    Seq::empty().push(
        (
            graph_issues::planner_loop_fragmentation_issue(
                crate_name,
                groups::grouped(by_phase).len() as usize,
                groups::members(by_phase, "planner"@).len() as usize,
                groups::members(by_phase, "apply"@).len() as usize,
                groups::members(by_phase, "verify"@).len() as usize,
                owners(leaders),
                leaders,
            ),
            owners(leaders).len() > 1,
        ),
    )
}

fn propose_loop_issues(crate_name: &str, g: &SemanticGraph) -> (r: Vec<Proposal>)
    ensures
        proposals::proposals_of(r@) == loop_reports(crate_name@, *g),
{
    let phases = collect_phases(&g.workflow_domains);
    let by_phase = flip(&phases);
    let found = group_edges(&by_phase);
    let planner = members_of(&by_phase, "planner");
    let apply = members_of(&by_phase, "apply");
    let verify = members_of(&by_phase, "verify");
    let leaders = collect_workflow_orchestrators(g);
    let chosen = select_owners(&leaders);
    proof {
        assert(groups::groups_of(found@).len() == found@.len());
        assert(text::texts(planner@).len() == planner@.len());
        assert(text::texts(apply@).len() == apply@.len());
        assert(text::texts(verify@).len() == verify@.len());
        assert(graph_issues::rows_of(chosen@).len() == chosen@.len());
    }
    let issue = build_planner_loop_fragmentation_issue(
        crate_name,
        found.len(),
        planner.len(),
        apply.len(),
        verify.len(),
        &chosen,
        &leaders,
    );
    and_proposal(no_proposals(), issue, chosen.len() > 1)
}

// ---------------------------------------------------------------------------
// Functions that hide state machines
// ---------------------------------------------------------------------------

/// The symbol belongs to a module that keeps state, and does not only write.
pub open spec fn workflow_like(symbol: Seq<char>) -> bool {
    &&& text::has_prefix(symbol, "app::"@) || text::has_prefix(symbol, "tools::"@)
        || text::has_prefix(symbol, "system_state::"@) || text::has_prefix(
        symbol,
        "transition_policy::"@,
    ) || text::has_prefix(symbol, "canonical_writer::"@) || text::has_prefix(
        symbol,
        "supervisor::"@,
    )
    &&& !text::has_text(symbol, "persist_"@)
    &&& !text::has_text(symbol, "write_"@)
    &&& !text::has_text(symbol, "save_"@)
    &&& !text::has_text(symbol, "append_"@)
    &&& !text::has_text(symbol, "record_"@)
}

/// The symbol belongs to a module that keeps state, and does not only write.
pub fn implicit_state_machine_candidate_symbol(symbol: &str) -> (r: bool)
    ensures
        r == workflow_like(symbol@),
{
    (starts_with(symbol, "app::") || starts_with(symbol, "tools::") || starts_with(
        symbol,
        "system_state::",
    ) || starts_with(symbol, "transition_policy::") || starts_with(symbol, "canonical_writer::")
        || starts_with(symbol, "supervisor::")) && !contains(symbol, "persist_") && !contains(
        symbol,
        "write_",
    ) && !contains(symbol, "save_") && !contains(symbol, "append_") && !contains(symbol, "record_")
}

/// The function moves states and branches enough to be a state machine.
pub open spec fn hides_machine(s: SymbolSummary, states: Seq<Seq<char>>) -> bool {
    &&& workflow_like(s.symbol@)
    &&& semantic::known_points(s.branch_half_points) >= 8
    &&& s.has_back_edges || s.switchint_count >= 2 || states.len() >= 2
}

/// A report on each function that moves states.
pub open spec fn machine_reports_over(
    crate_name: Seq<char>,
    moves: Seq<(Seq<char>, Seq<char>)>,
    ss: Seq<SymbolSummary>,
) -> Seq<(IssueView, bool)>
    decreases ss.len(),
{
    if ss.len() == 0 {
        Seq::empty()
    } else {
        let before = machine_reports_over(crate_name, moves, ss.drop_last());
        let s = ss.last();
        let states = groups::members(moves, s.symbol@);
        if s.kind@ == "fn"@ && states.len() > 0 {
            before.push(
                (
                    graph_issues::implicit_state_machine_issue(crate_name, s, states),
                    hides_machine(s, states),
                ),
            )
        } else {
            before
        }
    }
}

/// A report on each function that moves states.
pub open spec fn machine_reports(crate_name: Seq<char>, g: SemanticGraph) -> Seq<
    (IssueView, bool),
> {
    machine_reports_over(crate_name, semantic::edges_of(g.state_transitions@), g.summaries@)
}

fn propose_machine_issues(crate_name: &str, g: &SemanticGraph) -> (r: Vec<Proposal>)
    ensures
        proposals::proposals_of(r@) == machine_reports(crate_name@, *g),
{
    let ghost moves = semantic::edges_of(g.state_transitions@);
    let ghost ss = g.summaries@;
    let mut out = no_proposals();
    let mut i: usize = 0;
    assert(ss.take(0) =~= Seq::<SymbolSummary>::empty());
    while i < g.summaries.len()
        invariant
            i <= g.summaries@.len(),
            moves == semantic::edges_of(g.state_transitions@),
            ss == g.summaries@,
            proposals::proposals_of(out@) == machine_reports_over(
                crate_name@,
                moves,
                ss.take(i as int),
            ),
        decreases g.summaries@.len() - i,
    {
        let s = &g.summaries[i];
        proof {
            assert(ss.take(i + 1).drop_last() =~= ss.take(i as int));
            assert(ss.take(i + 1).last() == *s);
        }
        if same(s.kind.as_str(), "fn") {
            let states = members_of(&g.state_transitions, s.symbol.as_str());
            assert(text::texts(states@).len() == states@.len());
            if states.len() > 0 {
                let points: u64 = match s.branch_half_points {
                    Some(h) => h,
                    None => 0,
                };
                let hides = implicit_state_machine_candidate_symbol(s.symbol.as_str()) && points
                    >= 8 && (s.has_back_edges || s.switchint_count >= 2 || states.len() >= 2);
                let issue = build_implicit_state_machine_issue(crate_name, s, &states);
                out = and_proposal(out, issue, hides);
            }
        }
        i += 1;
    }
    assert(ss.take(i as int) =~= ss);
    out
}

// ---------------------------------------------------------------------------
// Effects outside their boundaries
// ---------------------------------------------------------------------------

/// The starts of edges, each with a label.
pub open spec fn tagged(es: Seq<(Seq<char>, Seq<char>)>, label: Seq<char>) -> Seq<
    (Seq<char>, Seq<char>),
> {
    es.map_values(|e: (Seq<char>, Seq<char>)| (e.0, label))
}

fn insert_effect_labels(out: Vec<Edge>, edges: &Vec<Edge>, label: &str) -> (r: Vec<Edge>)
    ensures
        semantic::edges_of(r@) == semantic::edges_of(out@) + tagged(
            semantic::edges_of(edges@),
            label@,
        ),
{
    let ghost before = semantic::edges_of(out@);
    let ghost tags = tagged(semantic::edges_of(edges@), label@);
    let mut out = out;
    let mut i: usize = 0;
    assert(semantic::edges_of(out@) =~= before + tags.take(0));
    while i < edges.len()
        invariant
            i <= edges@.len(),
            tags == tagged(semantic::edges_of(edges@), label@),
            semantic::edges_of(out@) == before + tags.take(i as int),
        decreases edges@.len() - i,
    {
        let ghost was = semantic::edges_of(out@);
        out.push(Edge { from: edges[i].from.clone(), to: label.to_owned() });
        proof {
            assert(tags[i as int] == (edges@[i as int].from@, label@));
            assert(semantic::edges_of(out@) =~= was.push(tags[i as int]));
            assert(tags.take(i + 1) =~= tags.take(i as int).push(tags[i as int]));
            assert(semantic::edges_of(out@) =~= before + tags.take(i + 1));
        }
        i += 1;
    }
    assert(tags.take(i as int) =~= tags);
    out
}

/// The effects of all symbols.
pub open spec fn effects(g: SemanticGraph) -> Seq<(Seq<char>, Seq<char>)> {
    Seq::<(Seq<char>, Seq<char>)>::empty() + tagged(
        semantic::edges_of(g.artifact_writes@),
        "artifact_write"@,
    ) + tagged(semantic::edges_of(g.artifact_reads@), "artifact_read"@) + tagged(
        semantic::edges_of(g.state_writes@),
        "state_write"@,
    ) + tagged(semantic::edges_of(g.state_reads@), "state_read"@) + tagged(
        semantic::edges_of(g.state_transitions@),
        "state_transition"@,
    ) + tagged(semantic::edges_of(g.error_shapes@), "error_shape"@) + tagged(
        semantic::edges_of(g.loggers@),
        "logging"@,
    ) + tagged(semantic::edges_of(g.process_spawners@), "process_spawn"@) + tagged(
        semantic::edges_of(g.network_users@),
        "network"@,
    )
}

fn collect_effects(g: &SemanticGraph) -> (r: Vec<Edge>)
    ensures
        semantic::edges_of(r@) == effects(*g),
{
    let out: Vec<Edge> = Vec::new();
    assert(semantic::edges_of(out@) =~= Seq::<(Seq<char>, Seq<char>)>::empty());
    let out = insert_effect_labels(out, &g.artifact_writes, "artifact_write");
    let out = insert_effect_labels(out, &g.artifact_reads, "artifact_read");
    let out = insert_effect_labels(out, &g.state_writes, "state_write");
    let out = insert_effect_labels(out, &g.state_reads, "state_read");
    let out = insert_effect_labels(out, &g.state_transitions, "state_transition");
    let out = insert_effect_labels(out, &g.error_shapes, "error_shape");
    let out = insert_effect_labels(out, &g.loggers, "logging");
    let out = insert_effect_labels(out, &g.process_spawners, "process_spawn");
    insert_effect_labels(out, &g.network_users, "network")
}

/// The symbols outside the boundaries with at least three kinds of effects.
pub open spec fn leaking(g: SemanticGraph) -> Seq<(Seq<char>, Seq<Seq<char>>)> {
    let cands = groups::firsts(effects(g));
    groups::grouped(effects(g)).filter(
        |row: (Seq<char>, Seq<Seq<char>>)|
            !boundary::boundary_symbol(g, cands, row.0) && row.1.len() >= 3,
    )
}

/// The modules of some rows.
pub open spec fn row_modules(rows: Seq<(Seq<char>, Seq<Seq<char>>)>) -> Seq<Seq<char>> {
    rows.map_values(|r: (Seq<char>, Seq<Seq<char>>)| graph_issues::module_of(r.0))
}

/// The rows of one module, those with the most effects first.
pub open spec fn rows_in(rows: Seq<(Seq<char>, Seq<Seq<char>>)>, module: Seq<char>) -> Seq<
    (Seq<char>, Seq<Seq<char>>),
> {
    groups::by_size(
        rows.filter(
            |r: (Seq<char>, Seq<Seq<char>>)| graph_issues::module_of(r.0) == module,
        ),
    )
}

/// The report on one module.
pub open spec fn leak_report(
    crate_name: Seq<char>,
    rows: Seq<(Seq<char>, Seq<Seq<char>>)>,
    module: Seq<char>,
) -> (IssueView, bool) {
    (
        graph_issues::effect_boundary_leak_issue(crate_name, module, rows_in(rows, module)),
        rows_in(rows, module).len() > 0,
    )
}

/// A report on each module whose symbols mix effects.
pub open spec fn leak_reports(crate_name: Seq<char>, g: SemanticGraph) -> Seq<(IssueView, bool)> {
    groups::sorted_set(row_modules(leaking(g))).map_values(
        |m: Seq<char>| leak_report(crate_name, leaking(g), m),
    )
}

fn copy_group(group: &Group) -> (r: Group)
    ensures
        r@ == group@,
{
    Group { key: group.key.clone(), members: text::copy_texts(&group.members) }
}

fn collect_leaks(g: &SemanticGraph) -> (r: Vec<Group>)
    ensures
        groups::groups_of(r@) == leaking(*g),
{
    let done = collect_effects(g);
    let effectful = starts(&done);
    let canonical = derive_canonical_effect_boundary_modules(g, &effectful);
    let found = group_edges(&done);
    let ghost all = groups::grouped(effects(*g));
    let ghost cands = groups::firsts(effects(*g));
    let ghost keep = |row: (Seq<char>, Seq<Seq<char>>)|
        !boundary::boundary_symbol(*g, cands, row.0) && row.1.len() >= 3;
    let mut out: Vec<Group> = Vec::new();
    let mut i: usize = 0;
    proof {
        reveal(Seq::filter);
        assert(all.take(0) =~= Seq::<(Seq<char>, Seq<Seq<char>>)>::empty());
        assert(groups::groups_of(out@) =~= Seq::<(Seq<char>, Seq<Seq<char>>)>::empty());
    }
    while i < found.len()
        invariant
            i <= found@.len(),
            all == groups::groups_of(found@),
            keep == (|row: (Seq<char>, Seq<Seq<char>>)|
                !boundary::boundary_symbol(*g, cands, row.0) && row.1.len() >= 3),
            forall|m: Seq<char>| #[trigger]
                canonical@.contains(m) <==> boundary::boundary(*g, cands, m),
            groups::groups_of(out@) == all.take(i as int).filter(keep),
        decreases found@.len() - i,
    {
        let row = &found[i];
        let ghost before = groups::groups_of(out@);
        proof {
            reveal(Seq::filter);
            assert(all.take(i + 1).drop_last() =~= all.take(i as int));
            assert(all.take(i + 1).last() == row@);
            assert(row@.1.len() == row.members@.len());
        }
        let module = symbol_module(row.key.as_str());
        let inside = canonical.contains(module.as_str());
        assert(inside == boundary::boundary_symbol(*g, cands, row@.0));
        if !inside && row.members.len() >= 3 {
            out.push(copy_group(row));
            assert(groups::groups_of(out@) =~= before.push(row@));
        }
        i += 1;
    }
    assert(all.take(i as int) =~= all);
    out
}

fn collect_rows_in(rows: &Vec<Group>, module: &str) -> (r: Vec<Group>)
    ensures
        groups::groups_of(r@) == rows_in(groups::groups_of(rows@), module@),
{
    let ghost all = groups::groups_of(rows@);
    let ghost keep = |r: (Seq<char>, Seq<Seq<char>>)| graph_issues::module_of(r.0) == module@;
    let mut out: Vec<Group> = Vec::new();
    let mut i: usize = 0;
    proof {
        reveal(Seq::filter);
        assert(all.take(0) =~= Seq::<(Seq<char>, Seq<Seq<char>>)>::empty());
        assert(groups::groups_of(out@) =~= Seq::<(Seq<char>, Seq<Seq<char>>)>::empty());
    }
    while i < rows.len()
        invariant
            i <= rows@.len(),
            all == groups::groups_of(rows@),
            keep == (|r: (Seq<char>, Seq<Seq<char>>)| graph_issues::module_of(r.0) == module@),
            groups::groups_of(out@) == all.take(i as int).filter(keep),
        decreases rows@.len() - i,
    {
        let ghost before = groups::groups_of(out@);
        proof {
            reveal(Seq::filter);
            assert(all.take(i + 1).drop_last() =~= all.take(i as int));
            assert(all.take(i + 1).last() == rows@[i as int]@);
        }
        let own = symbol_module(rows[i].key.as_str());
        if same(own.as_str(), module) {
            out.push(copy_group(&rows[i]));
            assert(groups::groups_of(out@) =~= before.push(rows@[i as int]@));
        }
        i += 1;
    }
    assert(all.take(i as int) =~= all);
    sort_by_size(out)
}

fn collect_row_modules(rows: &Vec<Group>) -> (r: Vec<String>)
    ensures
        text::texts(r@) == groups::sorted_set(row_modules(groups::groups_of(rows@))),
{
    let mut modules: Vec<String> = Vec::new();
    let mut i: usize = 0;
    while i < rows.len()
        invariant
            i <= rows@.len(),
            modules@.len() == i,
            forall|k: int|
                0 <= k < i ==> (#[trigger] modules@[k])@ == graph_issues::module_of(rows@[k]@.0),
        decreases rows@.len() - i,
    {
        modules.push(symbol_module(rows[i].key.as_str()));
        i += 1;
    }
    assert(text::texts(modules@) =~= row_modules(groups::groups_of(rows@)));
    sorted_distinct(&modules)
}

fn propose_leak_issues(crate_name: &str, g: &SemanticGraph) -> (r: Vec<Proposal>)
    ensures
        proposals::proposals_of(r@) == leak_reports(crate_name@, *g),
{
    let rows = collect_leaks(g);
    let modules = collect_row_modules(&rows);
    let ghost all = leaking(*g);
    let mut out: Vec<Proposal> = Vec::new();
    let mut i: usize = 0;
    while i < modules.len()
        invariant
            i <= modules@.len(),
            all == groups::groups_of(rows@),
            out@.len() == i,
            forall|k: int|
                0 <= k < i ==> (#[trigger] out@[k])@ == leak_report(
                    crate_name@,
                    all,
                    modules@[k]@,
                ),
        decreases modules@.len() - i,
    {
        let module = modules[i].as_str();
        let inside = collect_rows_in(&rows, module);
        assert(groups::groups_of(inside@).len() == inside@.len());
        let issue = build_effect_boundary_leak_issue(crate_name, module, &inside);
        out.push(Proposal { issue, active: inside.len() > 0 });
        i += 1;
    }
    proof {
        let ms = groups::sorted_set(row_modules(all));
        assert(ms == text::texts(modules@));
        assert forall|k: int| 0 <= k < modules@.len() implies #[trigger] modules@[k]@ == ms[k] by {
            assert(text::texts(modules@)[k] == modules@[k]@);
        }
        assert(ms.len() == modules@.len());
        assert(proposals::proposals_of(out@) =~= leak_reports(crate_name@, *g));
    }
    out
}

// ---------------------------------------------------------------------------
// Effects of one kind
// ---------------------------------------------------------------------------

/// The module of each symbol that starts an edge, with the symbol.
pub open spec fn by_module(es: Seq<(Seq<char>, Seq<char>)>) -> Seq<(Seq<char>, Seq<char>)>
    decreases es.len(),
{
    if es.len() == 0 {
        Seq::empty()
    } else {
        let before = by_module(es.drop_last());
        if symbol_like(es.last().0) {
            before.push((graph_issues::module_of(es.last().0), es.last().0))
        } else {
            before
        }
    }
}

/// The symbols of each module that start edges, a symbol as often as it does.
pub open spec fn effect_modules(es: Seq<(Seq<char>, Seq<char>)>) -> Seq<
    (Seq<char>, Seq<Seq<char>>),
> {
    groups::bags(by_module(es))
}

fn collect_effect_modules(edges: &Vec<Edge>) -> (r: Vec<Group>)
    ensures
        groups::groups_of(r@) == effect_modules(semantic::edges_of(edges@)),
{
    let ghost es = semantic::edges_of(edges@);
    let mut out: Vec<Edge> = Vec::new();
    let mut i: usize = 0;
    proof {
        assert(es.take(0) =~= Seq::<(Seq<char>, Seq<char>)>::empty());
        assert(semantic::edges_of(out@) =~= Seq::<(Seq<char>, Seq<char>)>::empty());
    }
    while i < edges.len()
        invariant
            i <= edges@.len(),
            es == semantic::edges_of(edges@),
            semantic::edges_of(out@) == by_module(es.take(i as int)),
        decreases edges@.len() - i,
    {
        let ghost before = semantic::edges_of(out@);
        proof {
            assert(es.take(i + 1).drop_last() =~= es.take(i as int));
            assert(es.take(i + 1).last() == edges@[i as int]@);
        }
        if looks_like_symbol(edges[i].from.as_str()) {
            let module = symbol_module(edges[i].from.as_str());
            let ghost name = module@;
            out.push(Edge { from: module, to: edges[i].from.clone() });
            assert(semantic::edges_of(out@) =~= before.push((name, edges@[i as int].from@)));
        }
        i += 1;
    }
    assert(es.take(i as int) =~= es);
    bag_edges(&out)
}

/// A module that may log.
pub open spec fn logging_boundary(module: Seq<char>) -> bool {
    module == "logging"@ || text::has_prefix(module, "logging::"@)
}

/// A module that may log.
pub fn is_canonical_logging_module(module: &str) -> (r: bool)
    ensures
        r == logging_boundary(module@),
{
    same(module, "logging") || starts_with(module, "logging::")
}

/// The groups whose key is a boundary of logging, or those whose key is none.
pub open spec fn logging_side(gs: Seq<(Seq<char>, Seq<Seq<char>>)>, inside: bool) -> Seq<
    (Seq<char>, Seq<Seq<char>>),
> {
    gs.filter(|g: (Seq<char>, Seq<Seq<char>>)| logging_boundary(g.0) == inside)
}

/// The groups whose key is a boundary of processes, or those whose key is none.
pub open spec fn process_side(gs: Seq<(Seq<char>, Seq<Seq<char>>)>, inside: bool) -> Seq<
    (Seq<char>, Seq<Seq<char>>),
> {
    gs.filter(|g: (Seq<char>, Seq<Seq<char>>)| graph_issues::process_boundary(g.0) == inside)
}

fn select_logging(gs: &Vec<Group>, inside: bool) -> (r: Vec<Group>)
    ensures
        groups::groups_of(r@) == logging_side(groups::groups_of(gs@), inside),
{
    let ghost all = groups::groups_of(gs@);
    let mut out: Vec<Group> = Vec::new();
    let mut i: usize = 0;
    proof {
        reveal(Seq::filter);
        assert(all.take(0) =~= Seq::<(Seq<char>, Seq<Seq<char>>)>::empty());
        assert(groups::groups_of(out@) =~= Seq::<(Seq<char>, Seq<Seq<char>>)>::empty());
    }
    while i < gs.len()
        invariant
            i <= gs@.len(),
            all == groups::groups_of(gs@),
            groups::groups_of(out@) == logging_side(all.take(i as int), inside),
        decreases gs@.len() - i,
    {
        let ghost before = groups::groups_of(out@);
        proof {
            reveal(Seq::filter);
            assert(all.take(i + 1).drop_last() =~= all.take(i as int));
            assert(all.take(i + 1).last() == gs@[i as int]@);
        }
        if is_canonical_logging_module(gs[i].key.as_str()) == inside {
            out.push(copy_group(&gs[i]));
            assert(groups::groups_of(out@) =~= before.push(gs@[i as int]@));
        }
        i += 1;
    }
    assert(all.take(i as int) =~= all);
    out
}

fn select_process(gs: &Vec<Group>, inside: bool) -> (r: Vec<Group>)
    ensures
        groups::groups_of(r@) == process_side(groups::groups_of(gs@), inside),
{
    let ghost all = groups::groups_of(gs@);
    let mut out: Vec<Group> = Vec::new();
    let mut i: usize = 0;
    proof {
        reveal(Seq::filter);
        assert(all.take(0) =~= Seq::<(Seq<char>, Seq<Seq<char>>)>::empty());
        assert(groups::groups_of(out@) =~= Seq::<(Seq<char>, Seq<Seq<char>>)>::empty());
    }
    while i < gs.len()
        invariant
            i <= gs@.len(),
            all == groups::groups_of(gs@),
            groups::groups_of(out@) == process_side(all.take(i as int), inside),
        decreases gs@.len() - i,
    {
        let ghost before = groups::groups_of(out@);
        proof {
            reveal(Seq::filter);
            assert(all.take(i + 1).drop_last() =~= all.take(i as int));
            assert(all.take(i + 1).last() == gs@[i as int]@);
        }
        if is_canonical_process_boundary(gs[i].key.as_str()) == inside {
            out.push(copy_group(&gs[i]));
            assert(groups::groups_of(out@) =~= before.push(gs@[i as int]@));
        }
        i += 1;
    }
    assert(all.take(i as int) =~= all);
    out
}

/// The report on logging: active where more than ten sites outside the logging
/// module log.
pub open spec fn logging_reports(crate_name: Seq<char>, g: SemanticGraph) -> Seq<
    (IssueView, bool),
> {
    let modules = effect_modules(semantic::edges_of(g.loggers@));
    let others = groups::by_size(logging_side(modules, false));
    Seq::empty().push(
        (
            graph_issues::logging_dispersion_issue(
                crate_name,
                others,
                groups::total_of(logging_side(modules, true)),
            ),
            groups::total_of(others) > 10,
        ),
    )
}

fn propose_logging_issues(crate_name: &str, g: &SemanticGraph) -> (r: Vec<Proposal>)
    ensures
        proposals::proposals_of(r@) == logging_reports(crate_name@, *g),
{
    let modules = collect_effect_modules(&g.loggers);
    let others = sort_by_size(select_logging(&modules, false));
    let canonical = select_logging(&modules, true);
    let issue = build_logging_dispersion_issue(crate_name, &others, count_total(&canonical));
    let sites: usize = count_total(&others);
    and_proposal(no_proposals(), issue, sites > 10)
}

/// The report on processes: active where more than one module outside the
/// boundary spawns them.
pub open spec fn process_reports(crate_name: Seq<char>, g: SemanticGraph) -> Seq<
    (IssueView, bool),
> {
    let modules = effect_modules(semantic::edges_of(g.process_spawners@));
    let others = groups::by_size(process_side(modules, false));
    Seq::empty().push(
        (
            graph_issues::process_spawn_dispersion_issue(
                crate_name,
                groups::by_size(modules),
                others,
                groups::by_size(process_side(modules, true)),
            ),
            others.len() > 1,
        ),
    )
}

fn propose_process_issues(crate_name: &str, g: &SemanticGraph) -> (r: Vec<Proposal>)
    ensures
        proposals::proposals_of(r@) == process_reports(crate_name@, *g),
{
    let modules = collect_effect_modules(&g.process_spawners);
    let others = sort_by_size(select_process(&modules, false));
    let canonical = sort_by_size(select_process(&modules, true));
    let all = sort_by_size(modules);
    assert(groups::groups_of(others@).len() == others@.len());
    let issue = build_process_spawn_dispersion_issue(crate_name, &all, &others, &canonical);
    and_proposal(no_proposals(), issue, others.len() > 1)
}

/// The report on the network: active where anything uses it.
pub open spec fn network_reports(crate_name: Seq<char>, g: SemanticGraph) -> Seq<
    (IssueView, bool),
> {
    let modules = groups::by_size(effect_modules(semantic::edges_of(g.network_users@)));
    Seq::empty().push(
        (
            graph_issues::network_usage_dispersion_issue(crate_name, modules),
            groups::total_of(modules) > 0,
        ),
    )
}

fn propose_network_issues(crate_name: &str, g: &SemanticGraph) -> (r: Vec<Proposal>)
    ensures
        proposals::proposals_of(r@) == network_reports(crate_name@, *g),
{
    let modules = sort_by_size(collect_effect_modules(&g.network_users));
    let issue = build_network_usage_dispersion_issue(crate_name, &modules);
    let sites: usize = count_total(&modules);
    and_proposal(no_proposals(), issue, sites > 0)
}

// ---------------------------------------------------------------------------
// Detectors over all crates
// ---------------------------------------------------------------------------

/// The detectors that report on each crate by itself.
#[derive(Debug, Clone, Copy, PartialEq, Eq, Structural)]
pub enum Detector {
    ArtifactWriters,
    ErrorShaping,
    StateTransitions,
    PlannerLoop,
    ImplicitStateMachines,
    EffectBoundaries,
    Logging,
    ProcessSpawns,
    NetworkUsage,
}

/// What a detector reports of one crate.
pub open spec fn reports(d: Detector, crate_name: Seq<char>, g: SemanticGraph) -> Seq<
    (IssueView, bool),
> {
    match d {
        Detector::ArtifactWriters => artifact_reports(crate_name, g),
        Detector::ErrorShaping => error_reports(crate_name, g),
        Detector::StateTransitions => transition_reports(crate_name, g),
        Detector::PlannerLoop => loop_reports(crate_name, g),
        Detector::ImplicitStateMachines => machine_reports(crate_name, g),
        Detector::EffectBoundaries => leak_reports(crate_name, g),
        Detector::Logging => logging_reports(crate_name, g),
        Detector::ProcessSpawns => process_reports(crate_name, g),
        Detector::NetworkUsage => network_reports(crate_name, g),
    }
}

/// The family of a detector in one crate, where it reports many issues: those that
/// it no longer reports are resolved.
pub open spec fn family(d: Detector, crate_name: Seq<char>) -> Option<Seq<char>> {
    match d {
        Detector::ArtifactWriters => Some(
            "auto_artifact_writer_dispersion_"@ + crate_name + "_"@,
        ),
        Detector::StateTransitions => Some(
            "auto_state_transition_dispersion_"@ + crate_name + "_"@,
        ),
        Detector::ImplicitStateMachines => Some(
            "auto_implicit_state_machine_"@ + crate_name + "_"@,
        ),
        Detector::EffectBoundaries => Some("auto_effect_boundary_leak_"@ + crate_name + "_"@),
        _ => None,
    }
}

/// The issues after a detector has reported on one crate.
pub open spec fn detected_in(
    d: Detector,
    fs: Seq<IssueView>,
    crate_name: Seq<char>,
    g: SemanticGraph,
) -> Seq<IssueView> {
    match family(d, crate_name) {
        Some(prefix) => proposals::synced(fs, reports(d, crate_name, g), prefix),
        None => proposals::upserted_all(fs, reports(d, crate_name, g)),
    }
}

/// How many changes that makes.
pub open spec fn changes_in(
    d: Detector,
    fs: Seq<IssueView>,
    crate_name: Seq<char>,
    g: SemanticGraph,
) -> nat {
    match family(d, crate_name) {
        Some(prefix) => proposals::sync_changes(fs, reports(d, crate_name, g), prefix),
        None => proposals::changes_all(fs, reports(d, crate_name, g)),
    }
}

/// The issues after a detector has reported on all crates, one after the other.
pub open spec fn detected(d: Detector, fs: Seq<IssueView>, cs: Seq<CrateGraph>) -> Seq<IssueView>
    decreases cs.len(),
{
    if cs.len() == 0 {
        fs
    } else {
        detected_in(
            d,
            detected(d, fs, cs.drop_last()),
            crate_id(cs.last().name@),
            cs.last().graph,
        )
    }
}

/// How many changes that makes.
pub open spec fn detected_changes(d: Detector, fs: Seq<IssueView>, cs: Seq<CrateGraph>) -> nat
    decreases cs.len(),
{
    if cs.len() == 0 {
        0
    } else {
        detected_changes(d, fs, cs.drop_last()) + changes_in(
            d,
            detected(d, fs, cs.drop_last()),
            crate_id(cs.last().name@),
            cs.last().graph,
        )
    }
}

fn propose(d: Detector, crate_name: &str, g: &SemanticGraph) -> (r: Vec<Proposal>)
    ensures
        proposals::proposals_of(r@) == reports(d, crate_name@, *g),
{
    match d {
        Detector::ArtifactWriters => propose_artifact_issues(crate_name, g),
        Detector::ErrorShaping => propose_error_issues(crate_name, g),
        Detector::StateTransitions => propose_transition_issues(crate_name, g),
        Detector::PlannerLoop => propose_loop_issues(crate_name, g),
        Detector::ImplicitStateMachines => propose_machine_issues(crate_name, g),
        Detector::EffectBoundaries => propose_leak_issues(crate_name, g),
        Detector::Logging => propose_logging_issues(crate_name, g),
        Detector::ProcessSpawns => propose_process_issues(crate_name, g),
        Detector::NetworkUsage => propose_network_issues(crate_name, g),
    }
}

fn prefixed(prefix: &str, crate_name: &str) -> (r: String)
    ensures
        r@ == prefix@ + crate_name@ + "_"@,
{
    let mut t = prefix.to_owned();
    t.append(crate_name);
    t.append("_");
    t
}

fn family_prefix(d: Detector, crate_name: &str) -> (r: Option<String>)
    ensures
        text::optional(r) == family(d, crate_name@),
{
    match d {
        Detector::ArtifactWriters => Some(
            prefixed("auto_artifact_writer_dispersion_", crate_name),
        ),
        Detector::StateTransitions => Some(
            prefixed("auto_state_transition_dispersion_", crate_name),
        ),
        Detector::ImplicitStateMachines => Some(
            prefixed("auto_implicit_state_machine_", crate_name),
        ),
        Detector::EffectBoundaries => Some(prefixed("auto_effect_boundary_leak_", crate_name)),
        _ => None,
    }
}

/// Runs a detector over all crates; tells how many changes that made.
pub fn run_detector(d: Detector, issues: &mut Vec<Issue>, crates: &Vec<CrateGraph>) -> (r: usize)
    ensures
        issues::findings(final(issues)@) == detected(d, issues::findings(old(issues)@), crates@),
        r == tally::capped_count(
            detected_changes(d, issues::findings(old(issues)@), crates@),
        ),
{
    let ghost fs = issues::findings(issues@);
    let ghost cs = crates@;
    let mut changes: usize = 0;
    let mut i: usize = 0;
    assert(cs.take(0) =~= Seq::<CrateGraph>::empty());
    while i < crates.len()
        invariant
            i <= crates@.len(),
            cs == crates@,
            issues::findings(issues@) == detected(d, fs, cs.take(i as int)),
            changes == tally::capped_count(detected_changes(d, fs, cs.take(i as int))),
        decreases crates@.len() - i,
    {
        let one = &crates[i];
        proof {
            assert(cs.take(i + 1).drop_last() =~= cs.take(i as int));
            assert(cs.take(i + 1).last() == *one);
        }
        let name = replace_char(one.name.as_str(), '-', "_");
        let proposed = propose(d, name.as_str(), &one.graph);
        let made: usize = match family_prefix(d, name.as_str()) {
            Some(prefix) => sync_family(issues, proposed, prefix.as_str()),
            None => apply_proposals(issues, proposed),
        };
        changes = changes.saturating_add(made);
        i += 1;
    }
    assert(cs.take(i as int) =~= cs);
    changes
}

/// Reports artifacts with several writers; tells how many changes that made.
pub fn generate_artifact_writer_dispersion_issues(issues: &mut Vec<Issue>, crates: &Vec<CrateGraph>) -> (r: usize)
    ensures
        issues::findings(final(issues)@) == detected(
            Detector::ArtifactWriters,
            issues::findings(old(issues)@),
            crates@,
        ),
        r == tally::capped_count(
            detected_changes(Detector::ArtifactWriters, issues::findings(old(issues)@), crates@),
        ),
{
    run_detector(Detector::ArtifactWriters, issues, crates)
}

/// Reports errors that are shaped in many places; tells how many changes that made.
pub fn generate_error_shaping_dispersion_issues(issues: &mut Vec<Issue>, crates: &Vec<CrateGraph>) -> (r: usize)
    ensures
        issues::findings(final(issues)@) == detected(
            Detector::ErrorShaping,
            issues::findings(old(issues)@),
            crates@,
        ),
        r == tally::capped_count(
            detected_changes(Detector::ErrorShaping, issues::findings(old(issues)@), crates@),
        ),
{
    run_detector(Detector::ErrorShaping, issues, crates)
}

/// Reports states that are moved in many places; tells how many changes that made.
pub fn generate_state_transition_dispersion_issues(issues: &mut Vec<Issue>, crates: &Vec<CrateGraph>) -> (r: usize)
    ensures
        issues::findings(final(issues)@) == detected(
            Detector::StateTransitions,
            issues::findings(old(issues)@),
            crates@,
        ),
        r == tally::capped_count(
            detected_changes(Detector::StateTransitions, issues::findings(old(issues)@), crates@),
        ),
{
    run_detector(Detector::StateTransitions, issues, crates)
}

/// Reports a planner loop with several owners; tells how many changes that made.
pub fn generate_planner_loop_fragmentation_issues(issues: &mut Vec<Issue>, crates: &Vec<CrateGraph>) -> (r: usize)
    ensures
        issues::findings(final(issues)@) == detected(
            Detector::PlannerLoop,
            issues::findings(old(issues)@),
            crates@,
        ),
        r == tally::capped_count(
            detected_changes(Detector::PlannerLoop, issues::findings(old(issues)@), crates@),
        ),
{
    run_detector(Detector::PlannerLoop, issues, crates)
}

/// Reports functions that hide state machines; tells how many changes that made.
pub fn generate_implicit_state_machine_issues(issues: &mut Vec<Issue>, crates: &Vec<CrateGraph>) -> (r: usize)
    ensures
        issues::findings(final(issues)@) == detected(
            Detector::ImplicitStateMachines,
            issues::findings(old(issues)@),
            crates@,
        ),
        r == tally::capped_count(
            detected_changes(Detector::ImplicitStateMachines, issues::findings(old(issues)@), crates@),
        ),
{
    run_detector(Detector::ImplicitStateMachines, issues, crates)
}

/// Reports modules that mix effects outside the boundaries; tells how many changes that made.
pub fn generate_effect_boundary_leak_issues(issues: &mut Vec<Issue>, crates: &Vec<CrateGraph>) -> (r: usize)
    ensures
        issues::findings(final(issues)@) == detected(
            Detector::EffectBoundaries,
            issues::findings(old(issues)@),
            crates@,
        ),
        r == tally::capped_count(
            detected_changes(Detector::EffectBoundaries, issues::findings(old(issues)@), crates@),
        ),
{
    run_detector(Detector::EffectBoundaries, issues, crates)
}

/// Reports logging outside the logging module; tells how many changes that made.
pub fn generate_logging_dispersion_issues(issues: &mut Vec<Issue>, crates: &Vec<CrateGraph>) -> (r: usize)
    ensures
        issues::findings(final(issues)@) == detected(
            Detector::Logging,
            issues::findings(old(issues)@),
            crates@,
        ),
        r == tally::capped_count(
            detected_changes(Detector::Logging, issues::findings(old(issues)@), crates@),
        ),
{
    run_detector(Detector::Logging, issues, crates)
}

/// Reports processes that are spawned outside their boundary; tells how many changes that made.
pub fn generate_process_spawn_dispersion_issues(issues: &mut Vec<Issue>, crates: &Vec<CrateGraph>) -> (r: usize)
    ensures
        issues::findings(final(issues)@) == detected(
            Detector::ProcessSpawns,
            issues::findings(old(issues)@),
            crates@,
        ),
        r == tally::capped_count(
            detected_changes(Detector::ProcessSpawns, issues::findings(old(issues)@), crates@),
        ),
{
    run_detector(Detector::ProcessSpawns, issues, crates)
}

/// Reports network use; tells how many changes that made.
pub fn generate_network_usage_dispersion_issues(issues: &mut Vec<Issue>, crates: &Vec<CrateGraph>) -> (r: usize)
    ensures
        issues::findings(final(issues)@) == detected(
            Detector::NetworkUsage,
            issues::findings(old(issues)@),
            crates@,
        ),
        r == tally::capped_count(
            detected_changes(Detector::NetworkUsage, issues::findings(old(issues)@), crates@),
        ),
{
    run_detector(Detector::NetworkUsage, issues, crates)
}

// ---------------------------------------------------------------------------
// Domains that many functions translate
// ---------------------------------------------------------------------------

/// The ends of edges to artifacts, as they are shown.
pub open spec fn artifact_domains(es: Seq<(Seq<char>, Seq<char>)>) -> Seq<(Seq<char>, Seq<char>)> {
    es.map_values(
        |e: (Seq<char>, Seq<char>)| (e.0, "artifact::"@ + graph_issues::artifact_display(e.1)),
    )
}

/// The ends of edges to states, as they are shown.
pub open spec fn state_domains(es: Seq<(Seq<char>, Seq<char>)>) -> Seq<(Seq<char>, Seq<char>)> {
    es.map_values(
        |e: (Seq<char>, Seq<char>)| (e.0, "state::"@ + graph_issues::state_display(e.1)),
    )
}

/// The domains that each symbol reads.
pub open spec fn read_domains(g: SemanticGraph) -> Seq<(Seq<char>, Seq<char>)> {
    artifact_domains(semantic::edges_of(g.artifact_reads@)) + state_domains(
        semantic::edges_of(g.state_reads@),
    )
}

/// The domains that each symbol writes.
pub open spec fn written_domains(g: SemanticGraph) -> Seq<(Seq<char>, Seq<char>)> {
    artifact_domains(semantic::edges_of(g.artifact_writes@)) + state_domains(
        semantic::edges_of(g.state_writes@),
    )
}

/// A domain as it is compared with others.
pub fn normalize_representation_domain(artifact: bool, raw: &str) -> (r: String)
    ensures
        r@ == (if artifact {
            "artifact::"@ + graph_issues::artifact_display(raw@)
        } else {
            "state::"@ + graph_issues::state_display(raw@)
        }),
{
    if artifact {
        let mut t = "artifact::".to_owned();
        t.append(display_artifact_domain(raw).as_str());
        t
    } else {
        let mut t = "state::".to_owned();
        t.append(display_state_domain(raw).as_str());
        t
    }
}

fn collect_domains(artifacts: &Vec<Edge>, states: &Vec<Edge>) -> (r: Vec<Edge>)
    ensures
        semantic::edges_of(r@) == artifact_domains(semantic::edges_of(artifacts@))
            + state_domains(semantic::edges_of(states@)),
{
    let mut out: Vec<Edge> = Vec::new();
    let mut i: usize = 0;
    while i < artifacts.len()
        invariant
            i <= artifacts@.len(),
            out@.len() == i,
            forall|k: int|
                0 <= k < i ==> (#[trigger] out@[k])@ == (
                    artifacts@[k].from@,
                    "artifact::"@ + graph_issues::artifact_display(artifacts@[k].to@),
                ),
        decreases artifacts@.len() - i,
    {
        let to = normalize_representation_domain(true, artifacts[i].to.as_str());
        out.push(Edge { from: artifacts[i].from.clone(), to });
        i += 1;
    }
    let ghost n = out@.len();
    let mut j: usize = 0;
    while j < states.len()
        invariant
            j <= states@.len(),
            n == artifacts@.len(),
            out@.len() == n + j,
            forall|k: int|
                0 <= k < n ==> (#[trigger] out@[k])@ == (
                    artifacts@[k].from@,
                    "artifact::"@ + graph_issues::artifact_display(artifacts@[k].to@),
                ),
            forall|k: int|
                n <= k < n + j ==> (#[trigger] out@[k])@ == (
                    states@[k - n].from@,
                    "state::"@ + graph_issues::state_display(states@[k - n].to@),
                ),
        decreases states@.len() - j,
    {
        let to = normalize_representation_domain(false, states[j].to.as_str());
        out.push(Edge { from: states[j].from.clone(), to });
        j += 1;
    }
    assert(semantic::edges_of(out@) =~= artifact_domains(semantic::edges_of(artifacts@))
        + state_domains(semantic::edges_of(states@)));
    out
}

/// The symbols that read or write a domain.
pub open spec fn domain_symbols(g: SemanticGraph) -> Seq<Seq<char>> {
    groups::firsts(read_domains(g)) + groups::firsts(written_domains(g))
}

/// The report on one source and one target.
pub open spec fn fanout_report(
    crate_name: Seq<char>,
    g: SemanticGraph,
    source: Seq<char>,
    x: (Seq<char>, Seq<Seq<char>>),
) -> (IssueView, bool) {
    let canonical = |s: Seq<char>| boundary::boundary_symbol(g, domain_symbols(g), s);
    (
        graph_issues::representation_fanout_issue(
            crate_name,
            source,
            x.0,
            x.1,
            graph_issues::canonical_translator(x.1, canonical),
        ),
        x.1.len() > 1,
    )
}

/// The reports on one source.
pub open spec fn fanout_reports_from(
    crate_name: Seq<char>,
    g: SemanticGraph,
    source: Seq<char>,
) -> Seq<(IssueView, bool)> {
    groups::grouped(
        complexity::derived_from(read_domains(g), written_domains(g), source),
    ).map_values(|x: (Seq<char>, Seq<Seq<char>>)| fanout_report(crate_name, g, source, x))
}

/// The reports on some sources.
pub open spec fn fanout_reports_over(
    crate_name: Seq<char>,
    g: SemanticGraph,
    from: Seq<Seq<char>>,
) -> Seq<(IssueView, bool)>
    decreases from.len(),
{
    if from.len() == 0 {
        Seq::empty()
    } else {
        fanout_reports_over(crate_name, g, from.drop_last()) + fanout_reports_from(
            crate_name,
            g,
            from.last(),
        )
    }
}

/// A report on each pair of a domain that is read and another that is written by
/// the same symbol.
pub open spec fn fanout_reports(crate_name: Seq<char>, g: SemanticGraph) -> Seq<(IssueView, bool)> {
    fanout_reports_over(
        crate_name,
        g,
        groups::sorted_set(groups::seconds(read_domains(g))),
    )
}

fn flag_boundaries(
    symbols: &Vec<String>,
    canonical: &StringHashSet,
    Ghost(g): Ghost<SemanticGraph>,
    Ghost(cands): Ghost<Seq<Seq<char>>>,
) -> (r: Vec<bool>)
    requires
        forall|m: Seq<char>| #[trigger]
            canonical@.contains(m) <==> boundary::boundary(g, cands, m),
    ensures
        r@.len() == symbols@.len(),
        forall|i: int|
            0 <= i < r@.len() ==> #[trigger] r@[i] == boundary::boundary_symbol(
                g,
                cands,
                symbols@[i]@,
            ),
{
    let mut flags: Vec<bool> = Vec::new();
    let mut i: usize = 0;
    while i < symbols.len()
        invariant
            i <= symbols@.len(),
            forall|m: Seq<char>| #[trigger]
                canonical@.contains(m) <==> boundary::boundary(g, cands, m),
            flags@.len() == i,
            forall|k: int|
                0 <= k < i ==> #[trigger] flags@[k] == boundary::boundary_symbol(
                    g,
                    cands,
                    symbols@[k]@,
                ),
        decreases symbols@.len() - i,
    {
        let module = symbol_module(symbols[i].as_str());
        flags.push(canonical.contains(module.as_str()));
        i += 1;
    }
    flags
}

fn propose_fanout_from(
    crate_name: &str,
    g: &SemanticGraph,
    reads: &Vec<Edge>,
    writes: &Vec<Edge>,
    canonical: &StringHashSet,
    source: &str,
) -> (r: Vec<Proposal>)
    requires
        semantic::edges_of(reads@) == read_domains(*g),
        semantic::edges_of(writes@) == written_domains(*g),
        forall|m: Seq<char>| #[trigger]
            canonical@.contains(m) <==> boundary::boundary(*g, domain_symbols(*g), m),
    ensures
        proposals::proposals_of(r@) == fanout_reports_from(crate_name@, *g, source@),
{
    let derived = collect_derived(reads, writes, source);
    let found = group_edges(&derived);
    let ghost cands = domain_symbols(*g);
    let ghost inside = |s: Seq<char>| boundary::boundary_symbol(*g, domain_symbols(*g), s);
    let mut out: Vec<Proposal> = Vec::new();
    let mut i: usize = 0;
    while i < found.len()
        invariant
            i <= found@.len(),
            cands == domain_symbols(*g),
            inside == (|s: Seq<char>| boundary::boundary_symbol(*g, domain_symbols(*g), s)),
            forall|m: Seq<char>| #[trigger]
                canonical@.contains(m) <==> boundary::boundary(*g, cands, m),
            out@.len() == i,
            forall|k: int|
                0 <= k < i ==> (#[trigger] out@[k])@ == fanout_report(
                    crate_name@,
                    *g,
                    source@,
                    found@[k]@,
                ),
        decreases found@.len() - i,
    {
        let group = &found[i];
        let flags = flag_boundaries(&group.members, canonical, Ghost(*g), Ghost(cands));
        let best = canonical_representation_target(&group.members, &flags, Ghost(inside));
        let issue = build_representation_fanout_issue(
            crate_name,
            source,
            group.key.as_str(),
            &group.members,
            best.as_str(),
        );
        assert(group@.1.len() == group.members@.len());
        out.push(Proposal { issue, active: group.members.len() > 1 });
        i += 1;
    }
    proof {
        let gs = groups::grouped(
            complexity::derived_from(read_domains(*g), written_domains(*g), source@),
        );
        assert(gs == groups::groups_of(found@));
        assert(proposals::proposals_of(out@) =~= fanout_reports_from(crate_name@, *g, source@));
    }
    out
}

fn propose_fanout_issues(crate_name: &str, g: &SemanticGraph) -> (r: Vec<Proposal>)
    ensures
        proposals::proposals_of(r@) == fanout_reports(crate_name@, *g),
{
    let reads = collect_domains(&g.artifact_reads, &g.state_reads);
    let writes = collect_domains(&g.artifact_writes, &g.state_writes);
    let mut symbols = starts(&reads);
    let mut writers = starts(&writes);
    let ghost readers0 = symbols@;
    let ghost writers0 = writers@;
    symbols.append(&mut writers);
    assert(text::texts(symbols@) =~= text::texts(readers0) + text::texts(writers0));
    let canonical = derive_canonical_effect_boundary_modules(g, &symbols);
    let read_ends = ends(&reads);
    let from = sorted_distinct(&read_ends);
    let ghost fs = text::texts(from@);
    let mut out = no_proposals();
    let mut i: usize = 0;
    assert(fs.take(0) =~= Seq::<Seq<char>>::empty());
    while i < from.len()
        invariant
            i <= from@.len(),
            fs == text::texts(from@),
            semantic::edges_of(reads@) == read_domains(*g),
            semantic::edges_of(writes@) == written_domains(*g),
            forall|m: Seq<char>| #[trigger]
                canonical@.contains(m) <==> boundary::boundary(*g, domain_symbols(*g), m),
            proposals::proposals_of(out@) == fanout_reports_over(
                crate_name@,
                *g,
                fs.take(i as int),
            ),
        decreases from@.len() - i,
    {
        proof {
            assert(fs.take(i + 1).drop_last() =~= fs.take(i as int));
            assert(fs.take(i + 1).last() == from@[i as int]@);
        }
        let mut more = propose_fanout_from(
            crate_name,
            g,
            &reads,
            &writes,
            &canonical,
            from[i].as_str(),
        );
        let ghost before = out@;
        let ghost added = more@;
        out.append(&mut more);
        assert(proposals::proposals_of(out@) =~= proposals::proposals_of(before)
            + proposals::proposals_of(added));
        i += 1;
    }
    assert(fs.take(i as int) =~= fs);
    out
}

// ---------------------------------------------------------------------------
// Regions that should be reduced
// ---------------------------------------------------------------------------

/// Which regions of control flow are looked for.
#[derive(Debug, Clone, Copy, PartialEq, Eq, Structural)]
pub enum RegionReductionMode {
    Scc,
    Dominator,
}

/// The back edges of a symbol.
pub open spec fn back_edges_of(v: Seq<semantic::BackEdges>, symbol: Seq<char>) -> usize
    decreases v.len(),
{
    if v.len() == 0 {
        0
    } else if v.last().symbol@ == symbol {
        v.last().count
    } else {
        back_edges_of(v.drop_last(), symbol)
    }
}

fn count_back_edges(v: &Vec<semantic::BackEdges>, symbol: &str) -> (r: usize)
    ensures
        r == back_edges_of(v@, symbol@),
{
    let mut i: usize = v.len();
    assert(v@.take(i as int) =~= v@);
    while i > 0
        invariant
            i <= v@.len(),
            back_edges_of(v@.take(i as int), symbol@) == back_edges_of(v@, symbol@),
        decreases i,
    {
        assert(v@.take(i as int).drop_last() =~= v@.take(i - 1));
        if same(v[i - 1].symbol.as_str(), symbol) {
            return v[i - 1].count;
        }
        i -= 1;
    }
    0
}

/// A region to reduce: its issue, and its score in half points.
#[derive(Debug)]
pub struct RegionCandidate {
    pub issue: Issue,
    pub score: u128,
}

impl View for RegionCandidate {
    type V = (IssueView, u128);

    open spec fn view(&self) -> (IssueView, u128) {
        (self.issue@, self.score)
    }
}

/// The higher score comes first, then the id that is first in the order of texts.
impl Ranked for RegionCandidate {
    open spec fn rank_le(a: (IssueView, u128), b: (IssueView, u128)) -> bool {
        if a.1 != b.1 {
            a.1 > b.1
        } else {
            text::text_le(a.0.id, b.0.id)
        }
    }

    fn ranks_at_most(&self, other: &Self) -> (r: bool) {
        if self.score != other.score {
            self.score > other.score
        } else {
            text_at_most(self.issue.id.as_str(), other.issue.id.as_str())
        }
    }

    proof fn rank_total(a: (IssueView, u128), b: (IssueView, u128)) {
        text::lemma_text_le_total(a.0.id, b.0.id);
    }

    proof fn rank_transitive(
        a: (IssueView, u128),
        b: (IssueView, u128),
        c: (IssueView, u128),
    ) {
        if text::text_le(a.0.id, b.0.id) && text::text_le(b.0.id, c.0.id) {
            text::lemma_text_le_transitive(a.0.id, b.0.id, c.0.id);
        }
    }
}

/// The region of a function, where it should be reduced: a loop-heavy one has back
/// edges, a dispatching one has none but many switches or redundant paths.
pub open spec fn region_of(
    crate_name: Seq<char>,
    s: SymbolSummary,
    back: usize,
    redundant: usize,
    mode: RegionReductionMode,
) -> Option<(IssueView, u128)> {
    let points = semantic::known_points(s.branch_half_points);
    match mode {
        RegionReductionMode::Scc => if points >= 8 && back > 0 {
            Some(
                (
                    graph_issues::scc_region_reduction_issue(crate_name, s, back, redundant),
                    (points + 8 * back + 4 * redundant + 2 * s.switchint_count) as u128,
                ),
            )
        } else {
            None
        },
        RegionReductionMode::Dominator => if points >= 8 && back == 0 && (s.switchint_count >= 2
            || redundant > 0) {
            Some(
                (
                    graph_issues::dominator_region_reduction_issue(crate_name, s, redundant),
                    (points + 4 * redundant + 2 * s.switchint_count) as u128,
                ),
            )
        } else {
            None
        },
    }
}

fn qualifying_region_reduction_issue(
    crate_name: &str,
    s: &SymbolSummary,
    back: usize,
    redundant: usize,
    mode: RegionReductionMode,
) -> (r: Option<RegionCandidate>)
    ensures
        match (r, region_of(crate_name@, *s, back, redundant, mode)) {
            (Some(c), Some(v)) => c@ == v,
            (None, None) => true,
            _ => false,
        },
{
    let points: u64 = match s.branch_half_points {
        Some(h) => h,
        None => 0,
    };
    match mode {
        RegionReductionMode::Scc => {
            if points >= 8 && back > 0 {
                let issue = build_scc_region_reduction_issue(crate_name, s, back, redundant);
                let score: u128 = (points as u128) + 8 * (back as u128) + 4 * (redundant as u128)
                    + 2 * (s.switchint_count as u128);
                Some(RegionCandidate { issue, score })
            } else {
                None
            }
        },
        RegionReductionMode::Dominator => {
            if points >= 8 && back == 0 && (s.switchint_count >= 2 || redundant > 0) {
                let issue = build_dominator_region_reduction_issue(crate_name, s, redundant);
                let score: u128 = (points as u128) + 4 * (redundant as u128) + 2 * (
                s.switchint_count as u128);
                Some(RegionCandidate { issue, score })
            } else {
                None
            }
        },
    }
}

/// The regions of the functions of a graph that should be reduced.
pub open spec fn regions_over(
    crate_name: Seq<char>,
    g: SemanticGraph,
    mode: RegionReductionMode,
    ss: Seq<SymbolSummary>,
) -> Seq<(IssueView, u128)>
    decreases ss.len(),
{
    if ss.len() == 0 {
        Seq::empty()
    } else {
        let before = regions_over(crate_name, g, mode, ss.drop_last());
        let s = ss.last();
        let back = back_edges_of(g.back_edges@, s.symbol@);
        let redundant = complexity::occurrences(
            text::texts(g.redundant_path_owners@),
            s.symbol@,
        ) as usize;
        if s.kind@ == "fn"@ {
            match region_of(crate_name, s, back, redundant, mode) {
                Some(c) => before.push(c),
                None => before,
            }
        } else {
            before
        }
    }
}

/// At most this many regions of one crate are reported.
pub const REGION_LIMIT: usize = 25;

/// The regions with the highest scores.
pub open spec fn top_regions(
    crate_name: Seq<char>,
    g: SemanticGraph,
    mode: RegionReductionMode,
) -> Seq<(IssueView, u128)> {
    let sorted = order::stable_sorted(
        regions_over(crate_name, g, mode, g.summaries@),
        |a: (IssueView, u128), b: (IssueView, u128)| RegionCandidate::rank_le(a, b),
    );
    if sorted.len() <= REGION_LIMIT {
        sorted
    } else {
        sorted.take(REGION_LIMIT as int)
    }
}

/// A report on each region with one of the highest scores.
pub open spec fn region_reports(
    crate_name: Seq<char>,
    g: SemanticGraph,
    mode: RegionReductionMode,
) -> Seq<(IssueView, bool)> {
    top_regions(crate_name, g, mode).map_values(|c: (IssueView, u128)| (c.0, true))
}

fn propose_region_issues(crate_name: &str, g: &SemanticGraph, mode: RegionReductionMode) -> (r: Vec<
    Proposal,
>)
    ensures
        proposals::proposals_of(r@) == region_reports(crate_name@, *g, mode),
{
    let ghost ss = g.summaries@;
    let mut candidates: Vec<RegionCandidate> = Vec::new();
    let mut i: usize = 0;
    let owners: usize = g.redundant_path_owners.len();
    proof {
        assert(ss.take(0) =~= Seq::<SymbolSummary>::empty());
        assert(order::views(candidates@) =~= Seq::<(IssueView, u128)>::empty());
    }
    while i < g.summaries.len()
        invariant
            i <= g.summaries@.len(),
            ss == g.summaries@,
            owners == g.redundant_path_owners@.len(),
            order::views(candidates@) == regions_over(crate_name@, *g, mode, ss.take(i as int)),
        decreases g.summaries@.len() - i,
    {
        let s = &g.summaries[i];
        let ghost before = order::views(candidates@);
        proof {
            assert(ss.take(i + 1).drop_last() =~= ss.take(i as int));
            assert(ss.take(i + 1).last() == *s);
            let all = text::texts(g.redundant_path_owners@);
            assert(all.take(owners as int) =~= all);
        }
        if same(s.kind.as_str(), "fn") {
            let back: usize = count_back_edges(&g.back_edges, s.symbol.as_str());
            let redundant: usize = complexity::count_occurrences(
                &g.redundant_path_owners,
                owners,
                s.symbol.as_str(),
            );
            match qualifying_region_reduction_issue(crate_name, s, back, redundant, mode) {
                Some(c) => {
                    let ghost view = c@;
                    candidates.push(c);
                    assert(order::views(candidates@) =~= before.push(view));
                },
                None => {},
            }
        }
        i += 1;
    }
    assert(ss.take(i as int) =~= ss);
    let mut sorted = sort_ranked(candidates);
    let ghost ranked = order::views(sorted@);
    assert(ranked.len() == sorted@.len());
    sorted.truncate(REGION_LIMIT);
    let ghost top = top_regions(crate_name@, *g, mode);
    assert(order::views(sorted@) =~= top);
    let mut out = no_proposals();
    assert(top.take(0).map_values(|c: (IssueView, u128)| (c.0, true)) =~= Seq::<
        (IssueView, bool),
    >::empty());
    for c in it: sorted
        invariant
            top == order::views(it.seq()),
            proposals::proposals_of(out@) == top.take(it.index()).map_values(
                |c: (IssueView, u128)| (c.0, true),
            ),
    {
        proof {
            assert(top[it.index()] == c@);
            assert(top.take(it.index() + 1).map_values(|c: (IssueView, u128)| (c.0, true))
                =~= top.take(it.index()).map_values(|c: (IssueView, u128)| (c.0, true)).push(
                (c@.0, true),
            ));
        }
        out = and_proposal(out, c.issue, true);
    }
    assert(top.take(top.len() as int) =~= top);
    out
}

/// The family of the regions in one crate.
pub open spec fn region_family(crate_name: Seq<char>, mode: RegionReductionMode) -> Seq<char> {
    match mode {
        RegionReductionMode::Scc => "auto_scc_region_reduction_"@ + crate_name + "_"@,
        RegionReductionMode::Dominator => "auto_dominator_region_reduction_"@ + crate_name
            + "_"@,
    }
}

/// The family of the regions in one crate.
pub fn region_reduction_prefix(crate_name: &str, mode: RegionReductionMode) -> (r: String)
    ensures
        r@ == region_family(crate_name@, mode),
{
    match mode {
        RegionReductionMode::Scc => prefixed("auto_scc_region_reduction_", crate_name),
        RegionReductionMode::Dominator => prefixed("auto_dominator_region_reduction_", crate_name),
    }
}

/// The issues after one crate, the ids that were reported so far, and the changes
/// made so far. An id that any crate reported is not resolved by another.
pub struct Progress {
    pub found: Seq<IssueView>,
    pub kept: Seq<Seq<char>>,
    pub changes: nat,
}

/// One more family of reports.
pub open spec fn progressed(p: Progress, ps: Seq<(IssueView, bool)>, prefix: Seq<char>) -> Progress {
    let kept = p.kept + proposals::ids_of(ps);
    let applied = proposals::upserted_all(p.found, ps);
    Progress {
        found: issues::stale_resolved(applied, prefix, kept),
        kept,
        changes: p.changes + proposals::changes_all(p.found, ps) + issues::stale_count(
            applied,
            prefix,
            kept,
        ),
    }
}

fn progress(issues: &mut Vec<Issue>, kept: &mut Vec<String>, ps: Vec<Proposal>, prefix: &str) -> (r:
    usize)
    ensures
        ({
            let p = progressed(
                (Progress {
                    found: issues::findings(old(issues)@),
                    kept: text::texts(old(kept)@),
                    changes: 0,
                }),
                proposals::proposals_of(ps@),
                prefix@,
            );
            &&& issues::findings(final(issues)@) == p.found
            &&& text::texts(final(kept)@) == p.kept
            &&& r == tally::capped_count(p.changes)
        }),
{
    let mut ids = proposals::proposed_ids(&ps);
    let ghost before = kept@;
    let ghost added = ids@;
    kept.append(&mut ids);
    assert(text::texts(kept@) =~= text::texts(before) + text::texts(added));
    let changed: usize = apply_proposals(issues, ps);
    let resolved: usize = resolve_stale(issues, prefix, kept);
    changed.saturating_add(resolved)
}

/// The issues after all crates have been searched for regions.
pub open spec fn regions_reported(
    fs: Seq<IssueView>,
    cs: Seq<CrateGraph>,
    mode: RegionReductionMode,
) -> Progress
    decreases cs.len(),
{
    if cs.len() == 0 {
        Progress { found: fs, kept: Seq::empty(), changes: 0 }
    } else {
        let before = regions_reported(fs, cs.drop_last(), mode);
        let name = crate_id(cs.last().name@);
        let p = progressed(
            before,
            region_reports(name, cs.last().graph, mode),
            region_family(name, mode),
        );
        let legacy = "auto_cfg_region_reduction_"@ + name + "_"@;
        Progress {
            found: issues::stale_resolved(p.found, legacy, Seq::empty()),
            kept: p.kept,
            changes: p.changes + issues::stale_count(p.found, legacy, Seq::empty()),
        }
    }
}

/// Reports the regions of all crates; tells how many changes that made. Issues
/// under the former name of the family are resolved.
pub fn generate_region_reduction_issues(
    issues: &mut Vec<Issue>,
    crates: &Vec<CrateGraph>,
    mode: RegionReductionMode,
) -> (r: usize)
    ensures
        ({
            let p = regions_reported(issues::findings(old(issues)@), crates@, mode);
            &&& issues::findings(final(issues)@) == p.found
            &&& r == tally::capped_count(p.changes)
        }),
{
    let ghost fs = issues::findings(issues@);
    let ghost cs = crates@;
    let mut kept = text::empty_list();
    let nothing = text::empty_list();
    let mut changes: usize = 0;
    let mut i: usize = 0;
    assert(cs.take(0) =~= Seq::<CrateGraph>::empty());
    while i < crates.len()
        invariant
            i <= crates@.len(),
            cs == crates@,
            text::texts(nothing@) == text::no_texts(),
            issues::findings(issues@) == regions_reported(fs, cs.take(i as int), mode).found,
            text::texts(kept@) == regions_reported(fs, cs.take(i as int), mode).kept,
            changes == tally::capped_count(
                regions_reported(fs, cs.take(i as int), mode).changes,
            ),
        decreases crates@.len() - i,
    {
        let one = &crates[i];
        proof {
            assert(cs.take(i + 1).drop_last() =~= cs.take(i as int));
            assert(cs.take(i + 1).last() == *one);
        }
        let name = replace_char(one.name.as_str(), '-', "_");
        let ps = propose_region_issues(name.as_str(), &one.graph, mode);
        let prefix = region_reduction_prefix(name.as_str(), mode);
        let made: usize = progress(issues, &mut kept, ps, prefix.as_str());
        let legacy = prefixed("auto_cfg_region_reduction_", name.as_str());
        let resolved: usize = resolve_stale(issues, legacy.as_str(), &nothing);
        changes = changes.saturating_add(made).saturating_add(resolved);
        i += 1;
    }
    assert(cs.take(i as int) =~= cs);
    changes
}

/// Reports loop-heavy regions.
pub fn generate_scc_region_reduction_issues(
    issues: &mut Vec<Issue>,
    crates: &Vec<CrateGraph>,
) -> (r: usize)
    ensures
        ({
            let p = regions_reported(
                issues::findings(old(issues)@),
                crates@,
                RegionReductionMode::Scc,
            );
            &&& issues::findings(final(issues)@) == p.found
            &&& r == tally::capped_count(p.changes)
        }),
{
    generate_region_reduction_issues(issues, crates, RegionReductionMode::Scc)
}

/// Reports loop-free regions that dispatch.
pub fn generate_dominator_region_reduction_issues(
    issues: &mut Vec<Issue>,
    crates: &Vec<CrateGraph>,
) -> (r: usize)
    ensures
        ({
            let p = regions_reported(
                issues::findings(old(issues)@),
                crates@,
                RegionReductionMode::Dominator,
            );
            &&& issues::findings(final(issues)@) == p.found
            &&& r == tally::capped_count(p.changes)
        }),
{
    generate_region_reduction_issues(issues, crates, RegionReductionMode::Dominator)
}

/// The issues after all crates have been searched for repeated translations.
pub open spec fn fanouts_reported(fs: Seq<IssueView>, cs: Seq<CrateGraph>) -> Progress
    decreases cs.len(),
{
    if cs.len() == 0 {
        Progress { found: fs, kept: Seq::empty(), changes: 0 }
    } else {
        let name = crate_id(cs.last().name@);
        progressed(
            fanouts_reported(fs, cs.drop_last()),
            fanout_reports(name, cs.last().graph),
            "auto_representation_fanout_"@ + name + "_"@,
        )
    }
}

/// Reports the domains that many functions translate; tells how many changes that
/// made.
pub fn generate_representation_fanout_issues(
    issues: &mut Vec<Issue>,
    crates: &Vec<CrateGraph>,
) -> (r: usize)
    ensures
        ({
            let p = fanouts_reported(issues::findings(old(issues)@), crates@);
            &&& issues::findings(final(issues)@) == p.found
            &&& r == tally::capped_count(p.changes)
        }),
{
    let ghost fs = issues::findings(issues@);
    let ghost cs = crates@;
    let mut kept = text::empty_list();
    let mut changes: usize = 0;
    let mut i: usize = 0;
    assert(cs.take(0) =~= Seq::<CrateGraph>::empty());
    while i < crates.len()
        invariant
            i <= crates@.len(),
            cs == crates@,
            issues::findings(issues@) == fanouts_reported(fs, cs.take(i as int)).found,
            text::texts(kept@) == fanouts_reported(fs, cs.take(i as int)).kept,
            changes == tally::capped_count(fanouts_reported(fs, cs.take(i as int)).changes),
        decreases crates@.len() - i,
    {
        let one = &crates[i];
        proof {
            assert(cs.take(i + 1).drop_last() =~= cs.take(i as int));
            assert(cs.take(i + 1).last() == *one);
        }
        let name = replace_char(one.name.as_str(), '-', "_");
        let ps = propose_fanout_issues(name.as_str(), &one.graph);
        let prefix = prefixed("auto_representation_fanout_", name.as_str());
        let made: usize = progress(issues, &mut kept, ps, prefix.as_str());
        changes = changes.saturating_add(made);
        i += 1;
    }
    assert(cs.take(i as int) =~= cs);
    changes
}

// ---------------------------------------------------------------------------
// Bridges
// ---------------------------------------------------------------------------

/// The functions that bridges call, each with where it is called from.
pub open spec fn bridge_calls(es: Seq<semantic::RelationEdge>) -> Seq<(Seq<char>, Seq<char>)>
    decreases es.len(),
{
    if es.len() == 0 {
        Seq::empty()
    } else {
        let before = bridge_calls(es.drop_last());
        if es.last().relation@ == "Call"@ && symbol_like(es.last().to@) {
            before.push((es.last().to@, es.last().from@))
        } else {
            before
        }
    }
}

/// At most this many functions are shown.
pub const CANDIDATE_FUNCTION_LIMIT: usize = 5;

/// A group as a function and how often it is called.
pub open spec fn called_in(x: (Seq<char>, Seq<Seq<char>>)) -> (Seq<char>, usize) {
    (x.0, x.1.len() as usize)
}

/// The functions that bridges call most.
pub open spec fn bridge_candidates(es: Seq<semantic::RelationEdge>) -> Seq<(Seq<char>, usize)> {
    let sorted = groups::by_size(groups::bags(bridge_calls(es)));
    let top = if sorted.len() <= CANDIDATE_FUNCTION_LIMIT {
        sorted
    } else {
        sorted.take(CANDIDATE_FUNCTION_LIMIT as int)
    };
    top.map_values(|x: (Seq<char>, Seq<Seq<char>>)| called_in(x))
}

/// The functions that bridges call most.
pub fn top_bridge_candidate_functions(edges: &Vec<semantic::RelationEdge>) -> (r: Vec<
    CalledFunction,
>)
    ensures
        graph_issues::called_of(r@) == bridge_candidates(edges@),
{
    let ghost es = edges@;
    let mut calls: Vec<Edge> = Vec::new();
    let mut i: usize = 0;
    proof {
        assert(es.take(0) =~= Seq::<semantic::RelationEdge>::empty());
        assert(semantic::edges_of(calls@) =~= Seq::<(Seq<char>, Seq<char>)>::empty());
    }
    while i < edges.len()
        invariant
            i <= edges@.len(),
            es == edges@,
            semantic::edges_of(calls@) == bridge_calls(es.take(i as int)),
        decreases edges@.len() - i,
    {
        let edge = &edges[i];
        let ghost before = semantic::edges_of(calls@);
        proof {
            assert(es.take(i + 1).drop_last() =~= es.take(i as int));
            assert(es.take(i + 1).last() == *edge);
        }
        if same(edge.relation.as_str(), "Call") && looks_like_symbol(edge.to.as_str()) {
            calls.push(Edge { from: edge.to.clone(), to: edge.from.clone() });
            assert(semantic::edges_of(calls@) =~= before.push((edge.to@, edge.from@)));
        }
        i += 1;
    }
    assert(es.take(i as int) =~= es);
    let mut sorted = sort_by_size(bag_edges(&calls));
    let ghost all = groups::groups_of(sorted@);
    assert(all.len() == sorted@.len());
    sorted.truncate(CANDIDATE_FUNCTION_LIMIT);
    let mut out: Vec<CalledFunction> = Vec::new();
    let mut k: usize = 0;
    while k < sorted.len()
        invariant
            k <= sorted@.len(),
            out@.len() == k,
            forall|j: int| 0 <= j < k ==> (#[trigger] out@[j])@ == called_in(sorted@[j]@),
        decreases sorted@.len() - k,
    {
        assert(sorted@[k as int]@.1.len() == sorted@[k as int].members@.len());
        out.push(
            CalledFunction { symbol: sorted[k].key.clone(), calls: sorted[k].members.len() },
        );
        k += 1;
    }
    assert(graph_issues::called_of(out@) =~= bridge_candidates(es));
    out
}

/// How densely bridges join a graph. `bridge_ratio` is the ratio of the bridge
/// edges to the nodes as it is written.
pub fn analyze_bridge_connectivity(
    crate_name: &str,
    g: &SemanticGraph,
    bridge_ratio: RatioText,
    threshold: Option<SetThreshold>,
) -> (r: BridgeConnectivityStats)
    ensures
        r.crate_name@ == crate_id(crate_name@),
        r.node_count == g.counts.nodes,
        r.bridge_edge_count == g.counts.bridge_edges,
        r.semantic_edge_count == g.counts.semantic_edges,
        r.cfg_node_count == g.counts.cfg_nodes,
        r.cfg_edge_count == g.counts.cfg_edges,
        r.bridge_ratio == bridge_ratio,
        r.threshold == threshold,
        graph_issues::called_of(r.candidate_functions@) == bridge_candidates(g.bridge_edges@),
{
    BridgeConnectivityStats {
        crate_name: replace_char(crate_name, '-', "_"),
        node_count: g.counts.nodes,
        bridge_edge_count: g.counts.bridge_edges,
        semantic_edge_count: g.counts.semantic_edges,
        cfg_node_count: g.counts.cfg_nodes,
        cfg_edge_count: g.counts.cfg_edges,
        bridge_ratio,
        threshold,
        candidate_functions: top_bridge_candidate_functions(&g.bridge_edges),
    }
}

/// A smaller graph tells nothing where bridges call no function.
pub const MIN_ACTIONABLE_BRIDGE_GRAPH_NODES: usize = 32;

/// The report on one graph.
pub open spec fn bridge_report(stats: BridgeConnectivityStats) -> (IssueView, bool) {
    (
        graph_issues::bridge_connectivity_issue(stats),
        !(stats.node_count < MIN_ACTIONABLE_BRIDGE_GRAPH_NODES
            && stats.candidate_functions@.len() == 0) && graph_issues::over_threshold(stats),
    )
}

/// The bridges of a graph tell something.
pub fn bridge_signal_is_actionable(stats: &BridgeConnectivityStats) -> (r: bool)
    ensures
        r == !(stats.node_count < MIN_ACTIONABLE_BRIDGE_GRAPH_NODES
            && stats.candidate_functions@.len() == 0),
{
    !(stats.node_count < MIN_ACTIONABLE_BRIDGE_GRAPH_NODES && stats.candidate_functions.len() == 0)
}

/// Reports graphs with too many bridges; tells how many changes that made.
pub fn generate_bridge_connectivity_issues(
    issues: &mut Vec<Issue>,
    stats: &Vec<BridgeConnectivityStats>,
) -> (r: usize)
    ensures
        ({
            let ps = stats@.map_values(|s: BridgeConnectivityStats| bridge_report(s));
            let fs = issues::findings(old(issues)@);
            &&& issues::findings(final(issues)@) == proposals::upserted_all(fs, ps)
            &&& r == tally::capped_count(proposals::changes_all(fs, ps))
        }),
{
    let mut out: Vec<Proposal> = Vec::new();
    let mut i: usize = 0;
    while i < stats.len()
        invariant
            i <= stats@.len(),
            out@.len() == i,
            forall|k: int| 0 <= k < i ==> (#[trigger] out@[k])@ == bridge_report(stats@[k]),
        decreases stats@.len() - i,
    {
        let one = &stats[i];
        let issue = build_bridge_connectivity_issue(one);
        let active = bridge_signal_is_actionable(one) && exceeds_threshold(one);
        out.push(Proposal { issue, active });
        i += 1;
    }
    assert(proposals::proposals_of(out@) =~= stats@.map_values(
        |s: BridgeConnectivityStats| bridge_report(s),
    ));
    apply_proposals(issues, out)
}

// ---------------------------------------------------------------------------
// How modules hang together
// ---------------------------------------------------------------------------

/// Where a file stands in its crate, as a path of modules.
pub open spec fn file_scope(file: Seq<char>) -> Seq<char> {
    match text::after_first(file, "/src/"@) {
        Some(path) => text::with_char_replaced(
            text::trim_suffixes(path, ".rs"@),
            '/',
            "::"@,
        ),
        None => Seq::empty(),
    }
}

/// The module that a symbol is counted to: that of its file, with that of its name
/// behind it where the name does not tell the file.
pub open spec fn partition_of(s: SymbolSummary) -> Seq<char> {
    let named = text::before_last(s.symbol@, "::"@);
    let scope = file_scope(s.file@);
    if scope.len() > 0 && text::has_text(named, scope) {
        scope
    } else if scope.len() > 0 {
        scope + "::"@ + named
    } else {
        named
    }
}

/// The module that a symbol is counted to.
pub fn module_partition_key(s: &SymbolSummary) -> (r: String)
    ensures
        r@ == partition_of(*s),
{
    let named = text_before_last(s.symbol.as_str(), "::");
    let scope = match text_after_first(s.file.as_str(), "/src/") {
        Some(path) => {
            let stem = trim_end_matches(path.as_str(), ".rs");
            replace_char(stem.as_str(), '/', "::")
        },
        None => String::new(),
    };
    let known = text::to_chars(scope.as_str()).len() > 0;
    if known && contains(named.as_str(), scope.as_str()) {
        scope
    } else if known {
        let mut t = scope;
        t.append("::");
        t.append(named.as_str());
        t
    } else {
        named
    }
}

/// Each function with the module that it is counted to.
pub open spec fn partitions(ss: Seq<SymbolSummary>) -> Seq<(Seq<char>, Seq<char>)>
    decreases ss.len(),
{
    if ss.len() == 0 {
        Seq::empty()
    } else {
        let before = partitions(ss.drop_last());
        if ss.last().kind@ == "fn"@ {
            before.push((ss.last().symbol@, partition_of(ss.last())))
        } else {
            before
        }
    }
}

fn collect_partitions(summaries: &Vec<SymbolSummary>) -> (r: Vec<Edge>)
    ensures
        semantic::edges_of(r@) == partitions(summaries@),
{
    let ghost ss = summaries@;
    let mut out: Vec<Edge> = Vec::new();
    let mut i: usize = 0;
    proof {
        assert(ss.take(0) =~= Seq::<SymbolSummary>::empty());
        assert(semantic::edges_of(out@) =~= Seq::<(Seq<char>, Seq<char>)>::empty());
    }
    while i < summaries.len()
        invariant
            i <= summaries@.len(),
            ss == summaries@,
            semantic::edges_of(out@) == partitions(ss.take(i as int)),
        decreases summaries@.len() - i,
    {
        let s = &summaries[i];
        let ghost before = semantic::edges_of(out@);
        proof {
            assert(ss.take(i + 1).drop_last() =~= ss.take(i as int));
            assert(ss.take(i + 1).last() == *s);
        }
        if same(s.kind.as_str(), "fn") {
            let module = module_partition_key(s);
            let ghost name = module@;
            out.push(Edge { from: s.symbol.clone(), to: module });
            assert(semantic::edges_of(out@) =~= before.push((s.symbol@, name)));
        }
        i += 1;
    }
    assert(ss.take(i as int) =~= ss);
    out
}

/// How many calls stay in the module `m`, and how many lead from it to another
/// one. Calls to and from what is in no module do not count.
pub open spec fn calls_of_module(
    calls: Seq<(Seq<char>, Seq<char>)>,
    parts: Seq<(Seq<char>, Seq<char>)>,
    m: Seq<char>,
) -> (nat, nat)
    decreases calls.len(),
{
    if calls.len() == 0 {
        (0, 0)
    } else {
        let before = calls_of_module(calls.drop_last(), parts, m);
        match (
            groups::last_end(parts, calls.last().0),
            groups::last_end(parts, calls.last().1),
        ) {
            (Some(a), Some(b)) => if a == m && b == m {
                (before.0 + 1, before.1)
            } else if a == m {
                (before.0, before.1 + 1)
            } else {
                before
            },
            _ => before,
        }
    }
}

/// How a module hangs together.
#[derive(Debug)]
pub struct ModuleCohesion {
    pub module: String,
    pub internal: usize,
    pub external: usize,
    pub symbol_count: usize,
}

/// How a module hangs together, as a mathematical value.
pub struct CohesionView {
    pub module: Seq<char>,
    pub internal: usize,
    pub external: usize,
    pub symbol_count: usize,
}

impl View for ModuleCohesion {
    type V = CohesionView;

    open spec fn view(&self) -> CohesionView {
        CohesionView {
            module: self.module@,
            internal: self.internal,
            external: self.external,
            symbol_count: self.symbol_count,
        }
    }
}

/// How one module hangs together.
pub open spec fn cohesion_of(
    g: SemanticGraph,
    x: (Seq<char>, Seq<Seq<char>>),
) -> CohesionView {
    let counts = calls_of_module(
        semantic::edges_of(g.call_edges@),
        partitions(g.summaries@),
        x.0,
    );
    CohesionView {
        module: x.0,
        internal: counts.0 as usize,
        external: counts.1 as usize,
        symbol_count: x.1.len() as usize,
    }
}

/// How the modules of a graph hang together, in the order of their names.
pub open spec fn cohesions(g: SemanticGraph) -> Seq<CohesionView> {
    groups::grouped(groups::flipped(partitions(g.summaries@))).map_values(
        |x: (Seq<char>, Seq<Seq<char>>)| cohesion_of(g, x),
    )
}

fn count_module_calls(
    calls: &Vec<Edge>,
    parts: &Vec<Edge>,
    index: &StringHashMap<usize>,
    m: &str,
) -> (r: (usize, usize))
    requires
        groups::indexes_last(index@, semantic::edges_of(parts@)),
    ensures
        ({
            let counts = calls_of_module(
                semantic::edges_of(calls@),
                semantic::edges_of(parts@),
                m@,
            );
            &&& r.0 == counts.0
            &&& r.1 == counts.1
        }),
{
    let ghost es = semantic::edges_of(calls@);
    let ghost ps = semantic::edges_of(parts@);
    let mut internal: usize = 0;
    let mut external: usize = 0;
    let mut i: usize = 0;
    assert(es.take(0) =~= Seq::<(Seq<char>, Seq<char>)>::empty());
    while i < calls.len()
        invariant
            i <= calls@.len(),
            es == semantic::edges_of(calls@),
            ps == semantic::edges_of(parts@),
            groups::indexes_last(index@, ps),
            internal + external <= i,
            internal == calls_of_module(es.take(i as int), ps, m@).0,
            external == calls_of_module(es.take(i as int), ps, m@).1,
        decreases calls@.len() - i,
    {
        proof {
            assert(es.take(i + 1).drop_last() =~= es.take(i as int));
            assert(es.take(i + 1).last() == calls@[i as int]@);
        }
        let from = groups::find_last_end(parts, index, calls[i].from.as_str());
        let to = groups::find_last_end(parts, index, calls[i].to.as_str());
        if let (Some(a), Some(b)) = (from, to) {
            if same(a, m) && same(b, m) {
                internal += 1;
            } else if same(a, m) {
                external += 1;
            }
        }
        i += 1;
    }
    assert(es.take(i as int) =~= es);
    (internal, external)
}

/// How the modules of a graph hang together, in the order of their names.
pub fn module_cohesion(g: &SemanticGraph) -> (r: Vec<ModuleCohesion>)
    ensures
        order::views(r@) == cohesions(*g),
{
    let parts = collect_partitions(&g.summaries);
    let index = groups::index_last(&parts);
    let by_module = flip(&parts);
    let found = group_edges(&by_module);
    let mut out: Vec<ModuleCohesion> = Vec::new();
    let mut i: usize = 0;
    while i < found.len()
        invariant
            i <= found@.len(),
            semantic::edges_of(parts@) == partitions(g.summaries@),
            groups::indexes_last(index@, semantic::edges_of(parts@)),
            out@.len() == i,
            forall|k: int| 0 <= k < i ==> (#[trigger] out@[k])@ == cohesion_of(*g, found@[k]@),
        decreases found@.len() - i,
    {
        let group = &found[i];
        let counts = count_module_calls(&g.call_edges, &parts, &index, group.key.as_str());
        assert(group@.1.len() == group.members@.len());
        out.push(
            ModuleCohesion {
                module: group.key.clone(),
                internal: counts.0,
                external: counts.1,
                symbol_count: group.members.len(),
            },
        );
        i += 1;
    }
    assert(order::views(out@) =~= cohesions(*g));
    out
}

/// What should be done with a module: one of more than five symbols with less than
/// a fifth of its calls inside is dissolved; one with more than four fifths inside
/// and more than ten outside gets a boundary.
pub open spec fn cohesion_task(c: CohesionView) -> Option<Seq<char>> {
    let total = c.internal + c.external;
    if total == 0 {
        None
    } else if 5 * c.internal < total && c.symbol_count > 5 {
        Some("DissolveModule"@)
    } else if 5 * c.internal > 4 * total && c.external > 10 {
        Some("FormalizeBoundary"@)
    } else {
        None
    }
}

/// What should be done with a module.
pub fn module_task(c: &ModuleCohesion) -> (r: Option<&'static str>)
    ensures
        text::optional_ref(r) == cohesion_task(c@),
{
    let internal: u128 = c.internal as u128;
    let total: u128 = internal + (c.external as u128);
    if total == 0 {
        None
    } else if 5 * internal < total && c.symbol_count > 5 {
        Some("DissolveModule")
    } else if 5 * internal > 4 * total && c.external > 10 {
        Some("FormalizeBoundary")
    } else {
        None
    }
}

/// The ratio of a module as it is written, empty where it was not given.
pub open spec fn ratio_at(rs: Seq<RatioText>, i: int) -> (Seq<char>, Seq<char>) {
    if 0 <= i < rs.len() {
        (rs[i].two_places@, rs[i].number@)
    } else {
        (""@, ""@)
    }
}

/// The issue on module `i`, where it has one.
pub open spec fn cohesion_issue(
    crate_name: Seq<char>,
    c: CohesionView,
    ratio: (Seq<char>, Seq<char>),
) -> Option<IssueView> {
    match cohesion_task(c) {
        Some(task) => Some(
            graph_issues::module_cohesion_issue(
                crate_name,
                c.module,
                task,
                c.internal,
                c.external,
                c.symbol_count,
                ratio.0,
                ratio.1,
            ),
        ),
        None => None,
    }
}

/// The issues on the first `n` modules whose ids are not known yet.
pub open spec fn cohesion_issues(
    crate_name: Seq<char>,
    known: Seq<Seq<char>>,
    cs: Seq<CohesionView>,
    ratios: Seq<RatioText>,
    n: int,
) -> Seq<IssueView>
    decreases n,
{
    if n <= 0 {
        Seq::empty()
    } else {
        let before = cohesion_issues(crate_name, known, cs, ratios, n - 1);
        match cohesion_issue(crate_name, cs[n - 1], ratio_at(ratios, n - 1)) {
            Some(issue) => if known.contains(issue.id) {
                before
            } else {
                before.push(issue)
            },
            None => before,
        }
    }
}

/// The issues on the modules of all crates.
pub open spec fn cohesion_found(known: Seq<Seq<char>>, cs: Seq<CrateGraph>) -> Seq<IssueView>
    decreases cs.len(),
{
    if cs.len() == 0 {
        Seq::empty()
    } else {
        cohesion_found(known, cs.drop_last()) + cohesion_issues(
            crate_id(cs.last().name@),
            known,
            cohesions(cs.last().graph),
            cs.last().cohesion_ratios@,
            cohesions(cs.last().graph).len() as int,
        )
    }
}

/// The ids of some issues.
pub open spec fn ids(fs: Seq<IssueView>) -> Seq<Seq<char>> {
    fs.map_values(|f: IssueView| f.id)
}

/// The ids of some issues.
pub fn collect_ids(issues: &Vec<Issue>) -> (r: Vec<String>)
    ensures
        text::texts(r@) == ids(issues::findings(issues@)),
{
    let mut out: Vec<String> = Vec::new();
    let mut i: usize = 0;
    while i < issues.len()
        invariant
            i <= issues@.len(),
            out@.len() == i,
            forall|k: int| 0 <= k < i ==> (#[trigger] out@[k])@ == issues@[k].id@,
        decreases issues@.len() - i,
    {
        out.push(issues[i].id.clone());
        i += 1;
    }
    assert(text::texts(out@) =~= ids(issues::findings(issues@)));
    out
}

fn push_cohesion_issues(issues: &mut Vec<Issue>, known: &Vec<String>, one: &CrateGraph) -> (r:
    usize)
    ensures
        ({
            let new = cohesion_issues(
                crate_id(one.name@),
                text::texts(known@),
                cohesions(one.graph),
                one.cohesion_ratios@,
                cohesions(one.graph).len() as int,
            );
            &&& issues::findings(final(issues)@) == issues::findings(old(issues)@) + new
            &&& r == new.len()
        }),
{
    let ghost fs = issues::findings(issues@);
    let ghost ks = text::texts(known@);
    let name = replace_char(one.name.as_str(), '-', "_");
    let rows = module_cohesion(&one.graph);
    let ghost cs = cohesions(one.graph);
    let ghost rs = one.cohesion_ratios@;
    let mut created: usize = 0;
    let mut i: usize = 0;
    assert(issues::findings(issues@) =~= fs + cohesion_issues(name@, ks, cs, rs, 0));
    while i < rows.len()
        invariant
            i <= rows@.len(),
            cs == order::views(rows@),
            ks == text::texts(known@),
            rs == one.cohesion_ratios@,
            created <= i,
            created == cohesion_issues(name@, ks, cs, rs, i as int).len(),
            issues::findings(issues@) == fs + cohesion_issues(name@, ks, cs, rs, i as int),
        decreases rows@.len() - i,
    {
        let row = &rows[i];
        assert(cs[i as int] == row@);
        match module_task(row) {
            Some(task) => {
                let two = if i < one.cohesion_ratios.len() {
                    one.cohesion_ratios[i].two_places.as_str()
                } else {
                    ""
                };
                let number = if i < one.cohesion_ratios.len() {
                    one.cohesion_ratios[i].number.as_str()
                } else {
                    ""
                };
                let issue = build_module_cohesion_issue(
                    name.as_str(),
                    row.module.as_str(),
                    task,
                    row.internal,
                    row.external,
                    row.symbol_count,
                    two,
                    number,
                );
                if !holds_text(known, issue.id.as_str()) {
                    let ghost before = issues::findings(issues@);
                    let ghost view = issue@;
                    issues.push(issue);
                    created += 1;
                    assert(issues::findings(issues@) =~= before.push(view));
                    assert(issues::findings(issues@) =~= fs + cohesion_issues(
                        name@,
                        ks,
                        cs,
                        rs,
                        i + 1,
                    ));
                }
            },
            None => {},
        }
        i += 1;
    }
    assert(cs.len() == rows@.len());
    created
}

/// Reports on modules that hang together badly or well, each once; tells how many
/// issues were added. What is known already stays as it is.
pub fn generate_module_cohesion_issues(issues: &mut Vec<Issue>, crates: &Vec<CrateGraph>) -> (r:
    usize)
    ensures
        ({
            let fs = issues::findings(old(issues)@);
            let new = cohesion_found(ids(fs), crates@);
            &&& issues::findings(final(issues)@) == fs + new
            &&& r == tally::capped_count(new.len())
        }),
{
    let ghost fs = issues::findings(issues@);
    let ghost cs = crates@;
    let known = collect_ids(issues);
    let ghost ks = ids(fs);
    let mut created: usize = 0;
    let mut i: usize = 0;
    proof {
        assert(cs.take(0) =~= Seq::<CrateGraph>::empty());
        assert(issues::findings(issues@) =~= fs + cohesion_found(ks, cs.take(0)));
    }
    while i < crates.len()
        invariant
            i <= crates@.len(),
            cs == crates@,
            ks == text::texts(known@),
            issues::findings(issues@) == fs + cohesion_found(ks, cs.take(i as int)),
            created == tally::capped_count(cohesion_found(ks, cs.take(i as int)).len()),
        decreases crates@.len() - i,
    {
        proof {
            assert(cs.take(i + 1).drop_last() =~= cs.take(i as int));
            assert(cs.take(i + 1).last() == crates@[i as int]);
        }
        let made: usize = push_cohesion_issues(issues, &known, &crates[i]);
        created = created.saturating_add(made);
        proof {
            assert(issues::findings(issues@) =~= fs + cohesion_found(ks, cs.take(i + 1)));
        }
        i += 1;
    }
    assert(cs.take(i as int) =~= cs);
    created
}

} // verus!
