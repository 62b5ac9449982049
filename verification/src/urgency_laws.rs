//! How urgent a report is, whom it names, and what a completion carries.

use crate::drift_analysis;
use crate::graph_issues;
use crate::graph_issues::BridgeConnectivityStats;
use crate::graph_issues::RowView;
use crate::groups;
use crate::grpo;
use crate::inter_complexity;
use crate::inter_complexity::ScoredInterEntry;
use crate::issues::IssueView;
use crate::semantic::SymbolSummary;
use vstd::prelude::*;

verus! {

/// The report names its crate and the graph that it was found in.
pub open spec fn of_crate(i: IssueView, crate_name: Seq<char>) -> bool {
    &&& i.scope == "crate:"@ + crate_name
    &&& i.location == "state/rustc/"@ + crate_name + "/graph.json"@
    &&& i.kind == "logic"@
    &&& i.discovered_by == "graph_metrics_detector"@
}

/// The report names its crate and the place of a symbol.
pub open spec fn of_symbol(i: IssueView, crate_name: Seq<char>, s: SymbolSummary) -> bool {
    &&& i.scope == "crate:"@ + crate_name
    &&& i.location == s.display_file@ + ":"@ + crate::text::dec(s.line as nat)
    &&& i.kind == "logic"@
    &&& i.status == "open"@
    &&& i.discovered_by == "graph_metrics_detector"@
}

/// The report is high from a limit on, and medium below it.
pub open spec fn high_from(i: IssueView, n: int, limit: int) -> bool {
    &&& n >= limit ==> i.priority == "high"@
    &&& n < limit ==> i.priority == "medium"@
}

/// Four writers of one artifact are urgent, and from two on the report is open.
pub proof fn law_writers_make_a_report_urgent(
    crate_name: Seq<char>,
    artifact: Seq<char>,
    writers: Seq<Seq<char>>,
)
    ensures
        ({
            let i = graph_issues::artifact_writer_dispersion_issue(crate_name, artifact, writers);
            &&& of_crate(i, crate_name)
            &&& high_from(i, writers.len() as int, 4)
            &&& writers.len() >= 2 ==> i.status == "open"@
            &&& writers.len() <= 1 ==> i.status == "resolved"@
        }),
{
}

/// Eight functions that shape errors are urgent, and from four on the report is open.
pub proof fn law_error_shaping_makes_a_report_urgent(
    crate_name: Seq<char>,
    styles: Seq<(Seq<char>, Seq<Seq<char>>)>,
)
    ensures
        ({
            let i = graph_issues::error_shaping_dispersion_issue(crate_name, styles);
            let n = groups::all_members(styles).len();
            &&& of_crate(i, crate_name)
            &&& high_from(i, n as int, 8)
            &&& n >= 4 ==> i.status == "open"@
            &&& n <= 3 ==> i.status == "resolved"@
        }),
{
}

/// Four transitions of one state are urgent, and from two on the report is open.
pub proof fn law_transitions_make_a_report_urgent(
    crate_name: Seq<char>,
    domain: Seq<char>,
    transitions: Seq<Seq<char>>,
    proofs: Seq<(Seq<char>, Seq<char>)>,
)
    ensures
        ({
            let i = graph_issues::state_transition_dispersion_issue(
                crate_name,
                domain,
                transitions,
                proofs,
            );
            &&& of_crate(i, crate_name)
            &&& high_from(i, transitions.len() as int, 4)
            &&& transitions.len() >= 2 ==> i.status == "open"@
            &&& transitions.len() <= 1 ==> i.status == "resolved"@
        }),
{
}

/// Four owners of the planner loop are urgent, and from two on the report is open.
pub proof fn law_loop_owners_make_a_report_urgent(
    crate_name: Seq<char>,
    counts: (usize, usize, usize, usize),
    owners: Seq<RowView>,
    orchestrators: Seq<RowView>,
)
    ensures
        ({
            let i = graph_issues::planner_loop_fragmentation_issue(
                crate_name,
                counts.0,
                counts.1,
                counts.2,
                counts.3,
                owners,
                orchestrators,
            );
            &&& of_crate(i, crate_name)
            &&& high_from(i, owners.len() as int, 4)
            &&& owners.len() >= 2 ==> i.status == "open"@
            &&& owners.len() <= 1 ==> i.status == "resolved"@
        }),
{
}

/// A hidden state machine is urgent where it loops or touches two states.
pub proof fn law_a_looping_machine_is_urgent(
    crate_name: Seq<char>,
    s: SymbolSummary,
    states: Seq<Seq<char>>,
)
    ensures
        ({
            let i = graph_issues::implicit_state_machine_issue(crate_name, s, states);
            &&& of_symbol(i, crate_name, s)
            &&& s.has_back_edges ==> i.priority == "high"@
            &&& !s.has_back_edges ==> high_from(i, states.len() as int, 2)
        }),
{
}

/// Two functions that leak effects are urgent, and any leak is open.
pub proof fn law_leaks_make_a_report_urgent(
    crate_name: Seq<char>,
    module: Seq<char>,
    rows: Seq<(Seq<char>, Seq<Seq<char>>)>,
)
    ensures
        ({
            let i = graph_issues::effect_boundary_leak_issue(crate_name, module, rows);
            &&& of_crate(i, crate_name)
            &&& high_from(i, rows.len() as int, 2)
            &&& rows.len() >= 1 ==> i.status == "open"@
            &&& rows.len() == 0 ==> i.status == "resolved"@
        }),
{
}

/// Three places that lead from one domain to another are urgent, and from two on the
/// report is open.
pub proof fn law_fanout_makes_a_report_urgent(
    crate_name: Seq<char>,
    source: Seq<char>,
    target: Seq<char>,
    symbols: Seq<Seq<char>>,
    canonical: Seq<char>,
)
    ensures
        ({
            let i = graph_issues::representation_fanout_issue(
                crate_name,
                source,
                target,
                symbols,
                canonical,
            );
            &&& of_crate(i, crate_name)
            &&& high_from(i, symbols.len() as int, 3)
            &&& symbols.len() >= 2 ==> i.status == "open"@
            &&& symbols.len() <= 1 ==> i.status == "resolved"@
        }),
{
}

/// A region is urgent by its back edges, redundant paths or switches.
pub proof fn law_regions_are_urgent(
    crate_name: Seq<char>,
    s: SymbolSummary,
    back_edges: usize,
    redundant: usize,
)
    ensures
        ({
            let i = graph_issues::scc_region_reduction_issue(crate_name, s, back_edges, redundant);
            let j = graph_issues::dominator_region_reduction_issue(crate_name, s, redundant);
            &&& of_symbol(i, crate_name, s)
            &&& of_symbol(j, crate_name, s)
            &&& redundant >= 2 ==> i.priority == "high"@ && j.priority == "high"@
            &&& redundant < 2 ==> high_from(i, back_edges as int, 2)
            &&& redundant < 2 ==> high_from(j, s.switchint_count as int, 3)
        }),
{
}

/// Bridges are urgent from twenty for each node, medium from ten, and low below; a
/// graph without nodes counts as one of a single node.
pub proof fn law_bridges_are_urgent_by_their_density(stats: BridgeConnectivityStats)
    ensures
        ({
            let i = graph_issues::bridge_connectivity_issue(stats);
            let edges = stats.bridge_edge_count;
            let nodes = stats.node_count;
            &&& nodes > 0 && edges >= 20 * nodes ==> i.priority == "high"@
            &&& nodes > 0 && 10 * nodes <= edges && edges < 20 * nodes ==> i.priority == "medium"@
            &&& nodes > 0 && edges < 10 * nodes ==> i.priority == "low"@
            &&& nodes == 0 && edges >= 20 ==> i.priority == "high"@
            &&& nodes == 0 && 10 <= edges < 20 ==> i.priority == "medium"@
            &&& nodes == 0 && edges < 10 ==> i.priority == "low"@
            &&& i.kind == "performance"@
        }),
{
}

/// Logging outside its module is open from eleven places on, urgent from twenty; the
/// start of processes from two modules on, urgent from three; the network from one
/// place on, urgent from three modules.
pub proof fn law_dispersed_effects_are_urgent(
    crate_name: Seq<char>,
    all: Seq<(Seq<char>, Seq<Seq<char>>)>,
    others: Seq<(Seq<char>, Seq<Seq<char>>)>,
    canonical: Seq<(Seq<char>, Seq<Seq<char>>)>,
    count: usize,
)
    ensures
        ({
            let l = graph_issues::logging_dispersion_issue(crate_name, others, count);
            let p = graph_issues::process_spawn_dispersion_issue(crate_name, all, others, canonical);
            let n = graph_issues::network_usage_dispersion_issue(crate_name, others);
            let places = groups::size_sum(others);
            &&& of_crate(l, crate_name) && of_crate(p, crate_name) && of_crate(n, crate_name)
            &&& high_from(l, places as int, 20)
            &&& places > 10 ==> l.status == "open"@
            &&& places <= 10 ==> l.status == "resolved"@
            &&& high_from(p, others.len() as int, 3)
            &&& others.len() > 1 ==> p.status == "open"@
            &&& others.len() <= 1 ==> p.status == "resolved"@
            &&& high_from(n, others.len() as int, 3)
            &&& places > 0 ==> n.status == "open"@
            &&& places == 0 ==> n.status == "resolved"@
        }),
{
}

/// A recursive function is urgent from ten points on; a hotspot is no less urgent than
/// one with a lower score.
pub proof fn law_hotspots_are_urgent_by_their_score(
    crate_name: Seq<char>,
    a: ScoredInterEntry,
    b: ScoredInterEntry,
)
    requires
        a.objective >= b.objective,
    ensures
        ({
            let x = inter_complexity::hotspot_issue(crate_name, a);
            let y = inter_complexity::hotspot_issue(crate_name, b);
            let r = inter_complexity::recursive_issue(crate_name, a);
            &&& y.priority == "high"@ ==> x.priority == "high"@
            &&& x.priority == "low"@ ==> y.priority == "low"@
            &&& x.priority == "high"@ || x.priority == "medium"@ || x.priority == "low"@
            &&& x.status == "open"@ && r.status == "open"@
            &&& high_from(r, a.entry.branch_half_points as int, 20)
        }),
{
    reveal_strlit("high");
    reveal_strlit("medium");
    reveal_strlit("low");
    assert("high"@[0] == 'h' && "medium"@[0] == 'm' && "low"@[0] == 'l');
}

// ---------------------------------------------------------------------------
// Completions
// ---------------------------------------------------------------------------

/// What a completion carries in braces reaches from the first opening brace to the
/// last closing one.
pub proof fn law_braces_enclose(a: Seq<char>, inner: Seq<char>, b: Seq<char>)
    requires
        !a.contains('{'),
        !b.contains('}'),
    ensures
        grpo::braced(a + (seq!['{'] + inner + seq!['}']) + b) == Some(seq!['{'] + inner + seq!['}']),
{
    let m = seq!['{'] + inner + seq!['}'];
    let t = a + m + b;
    let end = a.len() + m.len() - 1;
    assert(m[0] == '{' && m[m.len() - 1] == '}');
    assert(t[a.len() as int] == '{');
    assert(t[end] == '}');
    t.index_of_first_ensures('{');
    t.index_of_last_ensures('}');
    let i = t.index_of_first('{')->0;
    let j = t.index_of_last('}')->0;
    if i < a.len() {
        assert(a[i] == '{');
    }
    if j > end {
        assert(b[j - a.len() - m.len()] == '}');
    }
    assert(t.subrange(i, j + 1) =~= m);
}

/// A completion without an opening or without a closing brace carries nothing in
/// braces.
pub proof fn law_nothing_is_carried_without_braces(t: Seq<char>)
    ensures
        !t.contains('{') ==> grpo::braced(t) is None,
        !t.contains('}') ==> grpo::braced(t) is None,
{
    t.index_of_first_ensures('{');
    t.index_of_last_ensures('}');
}

// ---------------------------------------------------------------------------
// Complexity
// ---------------------------------------------------------------------------

/// The complexity of a symbol grows by five tenths for each half point, by one for
/// each block and by a tenth for each statement.
pub proof fn law_complexity_adds_up(s: SymbolSummary, h: u64, b: u64, n: u64)
    requires
        s.branch_half_points matches Some(x) ==> x == h,
        s.branch_half_points is Some,
        s.mir_blocks matches Some(x) ==> x == b,
        s.mir_blocks is Some,
        s.mir_stmts matches Some(x) ==> x == n,
        s.mir_stmts is Some,
    ensures
        drift_analysis::complexity_tenths(s) == h * 5 + b * 10 + n,
{
}

} // verus!
