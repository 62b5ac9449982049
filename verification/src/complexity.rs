//! Structural complexity of a workspace, measured on its program graphs alone.

use crate::graph_issues::BridgeConnectivityStats;
use crate::graph_metrics;
use crate::graph_metrics::{generate_bridge_connectivity_issues, generate_module_cohesion_issues, generate_region_reduction_issues, generate_representation_fanout_issues, run_detector, CrateGraph, Detector, RegionReductionMode};
use crate::components;
use crate::components::component_sizes;
use crate::groups;
use crate::inter_complexity;
use crate::inter_complexity::{generate_hotspot_issues, CrateAnalysis};
use crate::issues;
use crate::issues::{Issue, IssueView};
use crate::proposals;
use crate::groups::{count_wide, drop_blank_ends, flip, group_edges, sorted_distinct, starts, ends};
use crate::order;
use crate::order::{sort_ranked, Ranked};
use crate::reach;
use crate::semantic;
use crate::semantic::{index_by_symbol, Edge, SemanticGraph, SymbolSummary};
use crate::strong_components;
use crate::tally;
use crate::text;
use crate::text::{decimal, join_path, push_text_if, same, text_at_most};
use vstd::hash_map::StringHashMap;
use vstd::hash_set::StringHashSet;
use vstd::prelude::*;
use vstd::string::*;

verus! {

// ---------------------------------------------------------------------------
// Where reports are kept
// ---------------------------------------------------------------------------

/// The directory of the complexity reports.
pub open spec fn reports_path(workspace: Seq<char>) -> Seq<char> {
    text::below(
        text::below(text::below(workspace, "agent_state"@), "reports"@),
        "complexity"@,
    )
}

/// The directory of the complexity reports.
pub fn reports_dir(workspace: &str) -> (r: String)
    ensures
        r@ == reports_path(workspace@),
{
    let state = join_path(workspace, "agent_state");
    let reports = join_path(state.as_str(), "reports");
    join_path(reports.as_str(), "complexity")
}

/// A report of the given name.
fn report_path(workspace: &str, name: &str) -> (r: String)
    ensures
        r@ == text::below(reports_path(workspace@), name@),
{
    let dir = reports_dir(workspace);
    join_path(dir.as_str(), name)
}

/// The latest graph-only report.
pub fn graph_only_report_path(workspace: &str) -> (r: String)
    ensures
        r@ == text::below(reports_path(workspace@), "graph_only_latest.json"@),
{
    report_path(workspace, "graph_only_latest.json")
}

/// The latest verification snapshot.
pub fn graph_verification_snapshot_latest_path(workspace: &str) -> (r: String)
    ensures
        r@ == text::below(reports_path(workspace@), "graph_verification_snapshot_latest.json"@),
{
    report_path(workspace, "graph_verification_snapshot_latest.json")
}

/// The latest delta report.
pub fn graph_delta_report_latest_path(workspace: &str) -> (r: String)
    ensures
        r@ == text::below(reports_path(workspace@), "graph_delta_latest.json"@),
{
    report_path(workspace, "graph_delta_latest.json")
}

/// Where a report is written: under its time, and as the latest.
#[derive(Debug)]
pub struct ReportPaths {
    pub stamped: String,
    pub latest: String,
}

/// The report `prefix` of the time `ts`.
pub open spec fn stamped_path(workspace: Seq<char>, prefix: Seq<char>, ts: u64) -> Seq<char> {
    text::below(reports_path(workspace), prefix + text::dec(ts as nat) + ".json"@)
}

fn stamped(workspace: &str, prefix: &str, ts: u64) -> (r: String)
    ensures
        r@ == stamped_path(workspace@, prefix@, ts),
{
    let mut name = prefix.to_owned();
    name.append(decimal(ts).as_str());
    name.append(".json");
    report_path(workspace, name.as_str())
}

/// Where a verification snapshot is written; the latest is the one handed back.
pub fn write_graph_verification_snapshot(workspace: &str, ts: u64) -> (r: ReportPaths)
    ensures
        r.stamped@ == stamped_path(workspace@, "graph_verification_snapshot_"@, ts),
        r.latest@ == text::below(
            reports_path(workspace@),
            "graph_verification_snapshot_latest.json"@,
        ),
{
    ReportPaths {
        stamped: stamped(workspace, "graph_verification_snapshot_", ts),
        latest: graph_verification_snapshot_latest_path(workspace),
    }
}

/// Where a delta report is written.
pub fn graph_delta_paths(workspace: &str, ts: u64) -> (r: ReportPaths)
    ensures
        r.stamped@ == stamped_path(workspace@, "graph_delta_"@, ts),
        r.latest@ == text::below(reports_path(workspace@), "graph_delta_latest.json"@),
{
    ReportPaths {
        stamped: stamped(workspace, "graph_delta_", ts),
        latest: graph_delta_report_latest_path(workspace),
    }
}

/// Where a complexity report is written.
pub fn complexity_report_paths(workspace: &str, ts: u64) -> (r: ReportPaths)
    ensures
        r.stamped@ == stamped_path(workspace@, ""@, ts),
        r.latest@ == text::below(reports_path(workspace@), "latest.json"@),
{
    ReportPaths {
        stamped: stamped(workspace, "", ts),
        latest: report_path(workspace, "latest.json"),
    }
}

// ---------------------------------------------------------------------------
// Symbols
// ---------------------------------------------------------------------------

/// The blocks of a symbol, none where they are not known.
pub open spec fn blocks_of(s: SymbolSummary) -> usize {
    match s.mir_blocks {
        Some(b) => b,
        None => 0,
    }
}

/// The statements of a symbol, none where they are not known.
pub open spec fn stmts_of(s: SymbolSummary) -> usize {
    match s.mir_stmts {
        Some(n) => n,
        None => 0,
    }
}

/// The branch score of a symbol in half points; its blocks stand for it where it
/// is not known.
pub open spec fn points_of(s: SymbolSummary) -> nat {
    match s.branch_half_points {
        Some(h) => h as nat,
        None => 2 * blocks_of(s) as nat,
    }
}

/// The graph knows something of the body of a symbol.
pub open spec fn has_body(s: SymbolSummary) -> bool {
    blocks_of(s) > 0 || stmts_of(s) > 0
}

/// The blocks of a symbol, none where they are not known.
pub fn block_count(s: &SymbolSummary) -> (r: usize)
    ensures
        r == blocks_of(*s),
{
    match s.mir_blocks {
        Some(b) => b,
        None => 0,
    }
}

/// The statements of a symbol, none where they are not known.
pub fn stmt_count(s: &SymbolSummary) -> (r: usize)
    ensures
        r == stmts_of(*s),
{
    match s.mir_stmts {
        Some(n) => n,
        None => 0,
    }
}

/// What stands for the complexity of a symbol: its branch score in half points,
/// or its blocks where that is not known.
pub fn complexity_proxy(s: &SymbolSummary) -> (r: u128)
    ensures
        r == points_of(*s),
{
    match s.branch_half_points {
        Some(h) => h as u128,
        None => 2 * (block_count(s) as u128),
    }
}

/// The symbols that a complexity report lists, in the order of the graph.
pub open spec fn listed(ss: Seq<SymbolSummary>) -> Seq<SymbolSummary> {
    ss.filter(|s: SymbolSummary| has_body(s))
}

/// Where the symbols that a complexity report lists stand.
pub fn collect_complexity_items(summaries: &Vec<SymbolSummary>) -> (r: Vec<usize>)
    ensures
        r@.len() == listed(summaries@).len(),
        forall|i: int|
            0 <= i < r@.len() ==> {
                &&& (#[trigger] r@[i]) < summaries@.len()
                &&& summaries@[r@[i] as int] == listed(summaries@)[i]
            },
{
    let ghost ss = summaries@;
    let mut out: Vec<usize> = Vec::new();
    let mut i: usize = 0;
    proof {
        reveal(Seq::filter);
        assert(ss.take(0) =~= Seq::<SymbolSummary>::empty());
    }
    while i < summaries.len()
        invariant
            i <= summaries@.len(),
            ss == summaries@,
            out@.len() == listed(ss.take(i as int)).len(),
            forall|k: int|
                0 <= k < out@.len() ==> {
                    &&& (#[trigger] out@[k]) < i
                    &&& ss[out@[k] as int] == listed(ss.take(i as int))[k]
                },
        decreases summaries@.len() - i,
    {
        proof {
            reveal(Seq::filter);
            assert(ss.take(i + 1).drop_last() =~= ss.take(i as int));
            assert(ss.take(i + 1).last() == ss[i as int]);
        }
        if block_count(&summaries[i]) > 0 || stmt_count(&summaries[i]) > 0 {
            out.push(i);
        }
        i += 1;
    }
    assert(ss.take(i as int) =~= ss);
    out
}

/// A report lists at most this many symbols of one crate.
pub const TOP_ITEMS: usize = 50;

/// The symbols at the head of a complexity report: the first of those listed.
pub fn top_complexity_items(summaries: &Vec<SymbolSummary>) -> (r: Vec<usize>)
    ensures
        r@.len() == (if listed(summaries@).len() < TOP_ITEMS {
            listed(summaries@).len() as int
        } else {
            TOP_ITEMS as int
        }),
        forall|i: int|
            0 <= i < r@.len() ==> {
                &&& (#[trigger] r@[i]) < summaries@.len()
                &&& summaries@[r@[i] as int] == listed(summaries@)[i]
            },
{
    let mut items = collect_complexity_items(summaries);
    items.truncate(TOP_ITEMS);
    items
}

// ---------------------------------------------------------------------------
// Counts over a graph
// ---------------------------------------------------------------------------

/// How often a text occurs in a list.
pub open spec fn occurrences(s: Seq<Seq<char>>, x: Seq<char>) -> nat
    decreases s.len(),
{
    if s.len() == 0 {
        0
    } else {
        occurrences(s.drop_last(), x) + if s.last() == x {
            1nat
        } else {
            0nat
        }
    }
}

/// How often a text occurs among the first `n` of a list.
pub fn count_occurrences(v: &Vec<String>, n: usize, x: &str) -> (r: usize)
    requires
        n <= v@.len(),
    ensures
        r == occurrences(text::texts(v@).take(n as int), x@),
        r <= n,
{
    let ghost all = text::texts(v@);
    let mut count: usize = 0;
    let mut i: usize = 0;
    assert(all.take(0) =~= Seq::<Seq<char>>::empty());
    while i < n
        invariant
            i <= n <= v@.len(),
            all == text::texts(v@),
            count <= i,
            count == occurrences(all.take(i as int), x@),
        decreases n - i,
    {
        proof {
            assert(all.take(i + 1).drop_last() =~= all.take(i as int));
            assert(all.take(i + 1).last() == v@[i as int]@);
        }
        if same(v[i].as_str(), x) {
            count += 1;
        }
        i += 1;
    }
    count
}

/// How often a symbol occurs in the chains of all pathways.
pub open spec fn memberships(chains: Seq<Vec<String>>, x: Seq<char>) -> nat
    decreases chains.len(),
{
    if chains.len() == 0 {
        0
    } else {
        memberships(chains.drop_last(), x) + occurrences(text::texts(chains.last()@), x)
    }
}

/// A chain without its end: what wraps what the pathway leads to.
pub open spec fn wrapping(chain: Seq<Seq<char>>) -> Seq<Seq<char>> {
    if chain.len() == 0 {
        chain
    } else {
        chain.drop_last()
    }
}

/// How often a symbol wraps in the chains of all pathways.
pub open spec fn wrappers(chains: Seq<Vec<String>>, x: Seq<char>) -> nat
    decreases chains.len(),
{
    if chains.len() == 0 {
        0
    } else {
        wrappers(chains.drop_last(), x) + occurrences(wrapping(text::texts(chains.last()@)), x)
    }
}

fn count_memberships(chains: &Vec<Vec<String>>, x: &str) -> (r: (usize, usize))
    ensures
        r.0 == tally::capped_count(memberships(chains@, x@)),
        r.1 == tally::capped_count(wrappers(chains@, x@)),
{
    let ghost cs = chains@;
    let mut member: usize = 0;
    let mut wrapper: usize = 0;
    let mut i: usize = 0;
    assert(cs.take(0) =~= Seq::<Vec<String>>::empty());
    while i < chains.len()
        invariant
            i <= chains@.len(),
            cs == chains@,
            member == tally::capped_count(memberships(cs.take(i as int), x@)),
            wrapper == tally::capped_count(wrappers(cs.take(i as int), x@)),
        decreases chains@.len() - i,
    {
        let chain = &chains[i];
        let ghost links = text::texts(chain@);
        proof {
            assert(cs.take(i + 1).drop_last() =~= cs.take(i as int));
            assert(cs.take(i + 1).last() == chain);
            assert(links.take(links.len() as int) =~= links);
            if links.len() > 0 {
                assert(links.take(links.len() - 1) =~= links.drop_last());
            } else {
                assert(links.take(0) =~= links);
            }
        }
        let all: usize = chain.len();
        let inner: usize = all.saturating_sub(1);
        member = member.saturating_add(count_occurrences(chain, all, x));
        wrapper = wrapper.saturating_add(count_occurrences(chain, inner, x));
        i += 1;
    }
    assert(cs.take(i as int) =~= cs);
    (member, wrapper)
}

/// The fingerprint of a symbol with the symbol, where it has one.
pub open spec fn fingerprints(ss: Seq<SymbolSummary>) -> Seq<(Seq<char>, Seq<char>)>
    decreases ss.len(),
{
    if ss.len() == 0 {
        Seq::empty()
    } else {
        let before = fingerprints(ss.drop_last());
        match ss.last().mir_fingerprint {
            Some(fp) => before.push((fp@, ss.last().symbol@)),
            None => before,
        }
    }
}

fn fingerprint_edges(summaries: &Vec<SymbolSummary>) -> (r: Vec<Edge>)
    ensures
        semantic::edges_of(r@) == fingerprints(summaries@),
{
    let ghost ss = summaries@;
    let mut out: Vec<Edge> = Vec::new();
    let mut i: usize = 0;
    proof {
        assert(ss.take(0) =~= Seq::<SymbolSummary>::empty());
        assert(semantic::edges_of(out@) =~= Seq::<(Seq<char>, Seq<char>)>::empty());
    }
    while i < summaries.len()
        invariant
            i <= summaries@.len(),
            ss == summaries@,
            semantic::edges_of(out@) == fingerprints(ss.take(i as int)),
        decreases summaries@.len() - i,
    {
        let ghost before = semantic::edges_of(out@);
        proof {
            assert(ss.take(i + 1).drop_last() =~= ss.take(i as int));
            assert(ss.take(i + 1).last() == ss[i as int]);
        }
        match &summaries[i].mir_fingerprint {
            Some(fp) => {
                out.push(Edge { from: fp.clone(), to: summaries[i].symbol.clone() });
                assert(semantic::edges_of(out@) =~= before.push((fp@, ss[i as int].symbol@)));
            },
            None => {},
        }
        i += 1;
    }
    assert(ss.take(i as int) =~= ss);
    out
}

/// How many other bodies share the fingerprint of a symbol. Where summaries of
/// one symbol have several fingerprints, the last shared one counts.
pub open spec fn duplicate_bodies(
    es: Seq<(Seq<char>, Seq<char>)>,
    fps: Seq<Seq<char>>,
    symbol: Seq<char>,
) -> nat
    decreases fps.len(),
{
    if fps.len() == 0 {
        0
    } else {
        let group = groups::seconds_of(es, fps.last());
        if group.len() >= 2 && group.contains(symbol) {
            (group.len() - 1) as nat
        } else {
            duplicate_bodies(es, fps.drop_last(), symbol)
        }
    }
}

/// How many other bodies share the fingerprint of each symbol that shares one.
fn duplicate_body_counts(edges: &Vec<Edge>) -> (r: StringHashMap<usize>)
    ensures
        ({
            let es = semantic::edges_of(edges@);
            let fps = groups::sorted_set(groups::firsts(es));
            forall|x: Seq<char>|
                (if #[trigger] r@.contains_key(x) {
                    r@[x] as nat
                } else {
                    0
                }) == duplicate_bodies(es, fps, x)
        }),
{
    let ghost es = semantic::edges_of(edges@);
    let all_starts = starts(edges);
    let keys = sorted_distinct(&all_starts);
    let ghost fps = text::texts(keys@);
    let mut counts: StringHashMap<usize> = StringHashMap::new();
    let mut i: usize = 0;
    assert(fps.take(0) =~= Seq::<Seq<char>>::empty());
    while i < keys.len()
        invariant
            i <= keys@.len(),
            es == semantic::edges_of(edges@),
            fps == text::texts(keys@),
            forall|x: Seq<char>|
                (if #[trigger] counts@.contains_key(x) {
                    counts@[x] as nat
                } else {
                    0
                }) == duplicate_bodies(es, fps.take(i as int), x),
        decreases keys@.len() - i,
    {
        proof {
            assert(fps.take(i + 1).drop_last() =~= fps.take(i as int));
            assert(fps.take(i + 1).last() == keys@[i as int]@);
        }
        let group = groups::ends_of(edges, keys[i].as_str());
        let ghost ms = text::texts(group@);
        let ghost was = counts@;
        if group.len() >= 2 {
            let others: usize = group.len() - 1;
            let mut k: usize = 0;
            while k < group.len()
                invariant
                    k <= group@.len(),
                    ms == text::texts(group@),
                    others == group@.len() - 1,
                    forall|x: Seq<char>| #[trigger]
                        counts@.contains_key(x) <==> was.contains_key(x) || ms.take(
                            k as int,
                        ).contains(x),
                    forall|x: Seq<char>| #[trigger]
                        counts@.contains_key(x) ==> counts@[x] == (if ms.take(
                            k as int,
                        ).contains(x) {
                            others
                        } else {
                            was[x]
                        }),
                decreases group@.len() - k,
            {
                let ghost head = ms.take(k as int);
                let ghost name = group@[k as int]@;
                counts.insert(group[k].clone(), others);
                proof {
                    assert(ms.take(k + 1) =~= head.push(name));
                    assert forall|x: Seq<char>| #[trigger] ms.take(k + 1).contains(x) <==> (
                    head.contains(x) || x == name) by {
                        let longer = head.push(name);
                        if head.contains(x) {
                            let j = choose|j: int| 0 <= j < head.len() && head[j] == x;
                            assert(longer[j] == x);
                        }
                        if longer.contains(x) {
                            let j = choose|j: int| 0 <= j < longer.len() && longer[j] == x;
                            if j < head.len() {
                                assert(head[j] == x);
                            }
                        }
                        assert(longer[head.len() as int] == name);
                    }
                }
                k += 1;
            }
            assert(ms.take(k as int) =~= ms);
        }
        i += 1;
    }
    assert(fps.take(i as int) =~= fps);
    counts
}

/// The artifacts that more than one symbol writes.
pub open spec fn artifact_writer_dispersion(g: SemanticGraph) -> nat {
    groups::wide(
        groups::grouped(
            groups::flipped(groups::with_ends(semantic::edges_of(g.artifact_writes@))),
        ),
        2,
    ).len()
}

/// Counts the artifacts that more than one symbol writes.
pub fn count_artifact_writer_dispersion(g: &SemanticGraph) -> (r: usize)
    ensures
        r == artifact_writer_dispersion(*g),
{
    let named = drop_blank_ends(&g.artifact_writes);
    let by_artifact = flip(&named);
    let found = group_edges(&by_artifact);
    count_wide(&found, 2)
}

/// One where at least four functions shape errors, else none.
pub open spec fn error_shaping_dispersion(g: SemanticGraph) -> nat {
    if groups::sorted_set(
        groups::firsts(groups::with_ends(semantic::edges_of(g.error_shapes@))),
    ).len() >= 4 {
        1
    } else {
        0
    }
}

/// One where at least four functions shape errors, else none.
pub fn count_error_shaping_dispersion(g: &SemanticGraph) -> (r: usize)
    ensures
        r == error_shaping_dispersion(*g),
{
    let named = drop_blank_ends(&g.error_shapes);
    let shapers = starts(&named);
    let functions = sorted_distinct(&shapers);
    assert(text::texts(functions@).len() == functions@.len());
    if functions.len() >= 4 {
        1
    } else {
        0
    }
}

/// The states into which more than one symbol moves.
pub open spec fn state_transition_dispersion(g: SemanticGraph) -> nat {
    groups::wide(
        groups::grouped(
            groups::flipped(groups::with_ends(semantic::edges_of(g.state_transitions@))),
        ),
        2,
    ).len()
}

/// Counts the states into which more than one symbol moves.
pub fn count_state_transition_dispersion(g: &SemanticGraph) -> (r: usize)
    ensures
        r == state_transition_dispersion(*g),
{
    let named = drop_blank_ends(&g.state_transitions);
    let by_state = flip(&named);
    let found = group_edges(&by_state);
    count_wide(&found, 2)
}

/// The edges with a label in front of their ends.
pub open spec fn labelled(es: Seq<(Seq<char>, Seq<char>)>, label: Seq<char>) -> Seq<
    (Seq<char>, Seq<char>),
> {
    es.map_values(|e: (Seq<char>, Seq<char>)| (e.0, label + e.1))
}

fn label_ends(edges: &Vec<Edge>, label: &str, out: &mut Vec<Edge>)
    ensures
        semantic::edges_of(final(out)@) == semantic::edges_of(old(out)@) + labelled(
            semantic::edges_of(edges@),
            label@,
        ),
{
    let ghost before = semantic::edges_of(out@);
    let ghost es = semantic::edges_of(edges@);
    let mut i: usize = 0;
    assert(semantic::edges_of(out@) =~= before + labelled(es, label@).take(0));
    while i < edges.len()
        invariant
            i <= edges@.len(),
            es == semantic::edges_of(edges@),
            semantic::edges_of(out@) == before + labelled(es, label@).take(i as int),
        decreases edges@.len() - i,
    {
        let ghost was = semantic::edges_of(out@);
        let mut end = label.to_owned();
        end.append(edges[i].to.as_str());
        out.push(Edge { from: edges[i].from.clone(), to: end });
        proof {
            assert(labelled(es, label@)[i as int] == (edges@[i as int].from@, label@
                + edges@[i as int].to@));
            assert(semantic::edges_of(out@) =~= was.push(labelled(es, label@)[i as int]));
            assert(labelled(es, label@).take(i + 1) =~= labelled(es, label@).take(i as int).push(
                labelled(es, label@)[i as int],
            ));
            assert(semantic::edges_of(out@) =~= before + labelled(es, label@).take(i + 1));
        }
        i += 1;
    }
    assert(labelled(es, label@).take(i as int) =~= labelled(es, label@));
}

/// What each symbol reads, artifacts and states.
pub open spec fn sources(g: SemanticGraph) -> Seq<(Seq<char>, Seq<char>)> {
    labelled(semantic::edges_of(g.artifact_reads@), "artifact::"@) + labelled(
        semantic::edges_of(g.state_reads@),
        "state::"@,
    )
}

/// What each symbol writes, artifacts and states.
pub open spec fn targets(g: SemanticGraph) -> Seq<(Seq<char>, Seq<char>)> {
    labelled(semantic::edges_of(g.artifact_writes@), "artifact::"@) + labelled(
        semantic::edges_of(g.state_writes@),
        "state::"@,
    )
}

/// What each symbol reads, artifacts and states.
pub fn collect_sources(g: &SemanticGraph) -> (r: Vec<Edge>)
    ensures
        semantic::edges_of(r@) == sources(*g),
{
    let mut out: Vec<Edge> = Vec::new();
    assert(semantic::edges_of(out@) =~= Seq::<(Seq<char>, Seq<char>)>::empty());
    label_ends(&g.artifact_reads, "artifact::", &mut out);
    label_ends(&g.state_reads, "state::", &mut out);
    assert(semantic::edges_of(out@) =~= sources(*g));
    out
}

/// What each symbol writes, artifacts and states.
pub fn collect_targets(g: &SemanticGraph) -> (r: Vec<Edge>)
    ensures
        semantic::edges_of(r@) == targets(*g),
{
    let mut out: Vec<Edge> = Vec::new();
    assert(semantic::edges_of(out@) =~= Seq::<(Seq<char>, Seq<char>)>::empty());
    label_ends(&g.artifact_writes, "artifact::", &mut out);
    label_ends(&g.state_writes, "state::", &mut out);
    assert(semantic::edges_of(out@) =~= targets(*g));
    out
}

/// What a symbol writes besides `source`, each with the symbol.
pub open spec fn written_by(
    writes: Seq<(Seq<char>, Seq<char>)>,
    symbol: Seq<char>,
    source: Seq<char>,
) -> Seq<(Seq<char>, Seq<char>)>
    decreases writes.len(),
{
    if writes.len() == 0 {
        Seq::empty()
    } else {
        let before = written_by(writes.drop_last(), symbol, source);
        if writes.last().0 == symbol && writes.last().1 != source {
            before.push((writes.last().1, symbol))
        } else {
            before
        }
    }
}

/// What the readers of `source` write besides it, each with its writer.
pub open spec fn derived_from(
    reads: Seq<(Seq<char>, Seq<char>)>,
    writes: Seq<(Seq<char>, Seq<char>)>,
    source: Seq<char>,
) -> Seq<(Seq<char>, Seq<char>)>
    decreases reads.len(),
{
    if reads.len() == 0 {
        Seq::empty()
    } else {
        let before = derived_from(reads.drop_last(), writes, source);
        if reads.last().1 == source {
            before + written_by(writes, reads.last().0, source)
        } else {
            before
        }
    }
}

fn push_written_by(writes: &Vec<Edge>, symbol: &str, source: &str, out: &mut Vec<Edge>)
    ensures
        semantic::edges_of(final(out)@) == semantic::edges_of(old(out)@) + written_by(
            semantic::edges_of(writes@),
            symbol@,
            source@,
        ),
{
    let ghost before = semantic::edges_of(out@);
    let ghost ws = semantic::edges_of(writes@);
    let mut i: usize = 0;
    proof {
        assert(ws.take(0) =~= Seq::<(Seq<char>, Seq<char>)>::empty());
        assert(semantic::edges_of(out@) =~= before + written_by(ws.take(0), symbol@, source@));
    }
    while i < writes.len()
        invariant
            i <= writes@.len(),
            ws == semantic::edges_of(writes@),
            semantic::edges_of(out@) == before + written_by(ws.take(i as int), symbol@, source@),
        decreases writes@.len() - i,
    {
        let ghost was = semantic::edges_of(out@);
        proof {
            assert(ws.take(i + 1).drop_last() =~= ws.take(i as int));
            assert(ws.take(i + 1).last() == writes@[i as int]@);
        }
        if same(writes[i].from.as_str(), symbol) && !same(writes[i].to.as_str(), source) {
            out.push(Edge { from: writes[i].to.clone(), to: symbol.to_owned() });
            proof {
                assert(semantic::edges_of(out@) =~= was.push((writes@[i as int].to@, symbol@)));
                assert(semantic::edges_of(out@) =~= before + written_by(
                    ws.take(i + 1),
                    symbol@,
                    source@,
                ));
            }
        }
        i += 1;
    }
    assert(ws.take(i as int) =~= ws);
}

/// What the readers of `source` write besides it, each with its writer.
pub fn collect_derived(reads: &Vec<Edge>, writes: &Vec<Edge>, source: &str) -> (r: Vec<Edge>)
    ensures
        semantic::edges_of(r@) == derived_from(
            semantic::edges_of(reads@),
            semantic::edges_of(writes@),
            source@,
        ),
{
    let ghost rs = semantic::edges_of(reads@);
    let ghost ws = semantic::edges_of(writes@);
    let mut out: Vec<Edge> = Vec::new();
    let mut i: usize = 0;
    proof {
        assert(rs.take(0) =~= Seq::<(Seq<char>, Seq<char>)>::empty());
        assert(semantic::edges_of(out@) =~= Seq::<(Seq<char>, Seq<char>)>::empty());
    }
    while i < reads.len()
        invariant
            i <= reads@.len(),
            rs == semantic::edges_of(reads@),
            ws == semantic::edges_of(writes@),
            semantic::edges_of(out@) == derived_from(rs.take(i as int), ws, source@),
        decreases reads@.len() - i,
    {
        proof {
            assert(rs.take(i + 1).drop_last() =~= rs.take(i as int));
            assert(rs.take(i + 1).last() == reads@[i as int]@);
        }
        if same(reads[i].to.as_str(), source) {
            push_written_by(writes, reads[i].from.as_str(), source, &mut out);
        }
        i += 1;
    }
    assert(rs.take(i as int) =~= rs);
    out
}

/// How many pairs of a source and a target more than one symbol joins, over the
/// sources of a list.
pub open spec fn fanout_over(
    reads: Seq<(Seq<char>, Seq<char>)>,
    writes: Seq<(Seq<char>, Seq<char>)>,
    from: Seq<Seq<char>>,
) -> nat
    decreases from.len(),
{
    if from.len() == 0 {
        0
    } else {
        fanout_over(reads, writes, from.drop_last()) + groups::wide(
            groups::grouped(derived_from(reads, writes, from.last())),
            2,
        ).len()
    }
}

/// How many pairs of a source and a target more than one symbol joins: it reads
/// the one and writes the other.
pub open spec fn representation_fanout(g: SemanticGraph) -> nat {
    fanout_over(
        sources(g),
        targets(g),
        groups::sorted_set(groups::seconds(sources(g))),
    )
}

/// Counts the pairs of a source and a target that more than one symbol joins.
pub fn count_representation_fanout(g: &SemanticGraph) -> (r: u64)
    ensures
        r == tally::capped(representation_fanout(*g)),
{
    let reads = collect_sources(g);
    let writes = collect_targets(g);
    let read_ends = ends(&reads);
    let from = sorted_distinct(&read_ends);
    let ghost rs = sources(*g);
    let ghost ws = targets(*g);
    let ghost fs = text::texts(from@);
    let mut count: u64 = 0;
    let mut i: usize = 0;
    assert(fs.take(0) =~= Seq::<Seq<char>>::empty());
    while i < from.len()
        invariant
            i <= from@.len(),
            fs == text::texts(from@),
            rs == semantic::edges_of(reads@),
            ws == semantic::edges_of(writes@),
            count == tally::capped(fanout_over(rs, ws, fs.take(i as int))),
        decreases from@.len() - i,
    {
        proof {
            assert(fs.take(i + 1).drop_last() =~= fs.take(i as int));
            assert(fs.take(i + 1).last() == from@[i as int]@);
        }
        let derived = collect_derived(&reads, &writes, from[i].as_str());
        let found = group_edges(&derived);
        count = count.saturating_add(count_wide(&found, 2) as u64);
        i += 1;
    }
    assert(fs.take(i as int) =~= fs);
    count
}

// ---------------------------------------------------------------------------
// Entries of the graph-only report
// ---------------------------------------------------------------------------

/// What a graph says of one symbol and its place among the others.
///
/// Scores are left out that are no whole numbers of half points: they are
/// computed from these counts.
#[derive(Debug)]
pub struct GraphOnlyEntry {
    pub crate_name: String,
    pub symbol: String,
    pub file: String,
    pub display_file: String,
    pub line: u32,
    pub mir_blocks: usize,
    pub mir_stmts: usize,
    pub branch_half_points: u128,
    /// The half points of the called symbols that the graph knows, together.
    pub callee_half_points: u128,
    pub callee_count: usize,
    pub call_in: usize,
    pub call_out: usize,
    pub duplicate_body_count: usize,
    pub redundant_path_count: usize,
    pub pathway_membership_count: usize,
    pub pathway_wrapper_count: usize,
    pub scc_size: usize,
    pub is_directly_recursive: bool,
}

/// The half points of the last summary of a symbol.
pub open spec fn points_by_symbol(ss: Seq<SymbolSummary>, symbol: Seq<char>) -> Option<nat> {
    match semantic::last_of(ss, symbol) {
        Some(i) => Some(points_of(ss[i])),
        None => None,
    }
}

/// The half points of what `symbol` calls and how many of these are known.
pub open spec fn callee_points(
    es: Seq<(Seq<char>, Seq<char>)>,
    ss: Seq<SymbolSummary>,
    symbol: Seq<char>,
) -> (nat, nat)
    decreases es.len(),
{
    if es.len() == 0 {
        (0, 0)
    } else {
        let before = callee_points(es.drop_last(), ss, symbol);
        if es.last().0 == symbol {
            match points_by_symbol(ss, es.last().1) {
                Some(p) => (before.0 + p, before.1 + 1),
                None => before,
            }
        } else {
            before
        }
    }
}

/// A number, at most the largest of 128 bits.
pub open spec fn capped_total(n: nat) -> u128 {
    if n > u128::MAX {
        u128::MAX
    } else {
        n as u128
    }
}

/// The size that a name has, or that of a component of its own.
pub open spec fn size_or_one(sizes: Map<Seq<char>, nat>, symbol: Seq<char>) -> nat {
    if sizes.dom().contains(symbol) {
        sizes[symbol]
    } else {
        1
    }
}

impl GraphOnlyEntry {
    /// The entry of the summary `s` in the graph `g`.
    pub open spec fn of(self, g: SemanticGraph, crate_name: Seq<char>, s: SymbolSummary) -> bool {
        let ss = g.summaries@;
        let calls = semantic::edges_of(g.call_edges@);
        let fps = fingerprints(ss);
        let called = callee_points(calls, ss, s.symbol@);
        &&& self.crate_name@ == crate_name
        &&& self.symbol@ == s.symbol@
        &&& self.file@ == s.file@
        &&& self.display_file@ == s.display_file@
        &&& self.line == s.line
        &&& self.mir_blocks == blocks_of(s)
        &&& self.mir_stmts == stmts_of(s)
        &&& Some(self.branch_half_points as nat) == points_by_symbol(ss, s.symbol@)
        &&& self.callee_half_points == capped_total(called.0)
        &&& self.callee_count == called.1
        &&& self.call_in == s.call_in
        &&& self.call_out == s.call_out
        &&& self.duplicate_body_count == duplicate_bodies(
            fps,
            groups::sorted_set(groups::firsts(fps)),
            s.symbol@,
        )
        &&& self.redundant_path_count == occurrences(
            text::texts(g.redundant_path_owners@),
            s.symbol@,
        )
        &&& self.pathway_membership_count == tally::capped_count(
            memberships(g.alpha_pathways@, s.symbol@),
        )
        &&& self.pathway_wrapper_count == tally::capped_count(
            wrappers(g.alpha_pathways@, s.symbol@),
        )
        &&& self.scc_size == size_or_one(components::sizes_of(calls, symbols_of(ss)), s.symbol@)
        &&& self.is_directly_recursive == s.is_directly_recursive
    }
}

/// The symbols of a list of summaries.
pub open spec fn symbols_of(ss: Seq<SymbolSummary>) -> Seq<Seq<char>> {
    ss.map_values(|s: SymbolSummary| s.symbol@)
}

fn symbol_names(summaries: &Vec<SymbolSummary>) -> (r: Vec<String>)
    ensures
        text::texts(r@) == symbols_of(summaries@),
{
    let mut out: Vec<String> = Vec::new();
    let mut i: usize = 0;
    while i < summaries.len()
        invariant
            i <= summaries@.len(),
            out@.len() == i,
            forall|k: int| 0 <= k < i ==> (#[trigger] out@[k])@ == summaries@[k].symbol@,
        decreases summaries@.len() - i,
    {
        out.push(summaries[i].symbol.clone());
        i += 1;
    }
    assert(text::texts(out@) =~= symbols_of(summaries@));
    out
}

/// The size of the component of each symbol in the call graph: of its strong component,
/// where every caller of a symbol is a symbol.
pub fn compute_call_scc_sizes(summaries: &Vec<SymbolSummary>, call_edges: &Vec<Edge>) -> (r:
    StringHashMap<usize>)
    ensures
        ({
            let sizes = components::sizes_of(
                semantic::edges_of(call_edges@),
                symbols_of(summaries@),
            );
            &&& r@.dom() == sizes.dom()
            &&& forall|x: Seq<char>| #[trigger] r@.contains_key(x) ==> r@[x] == sizes[x]
        }),
        ({
            let calls = semantic::edges_of(call_edges@);
            let symbols = symbols_of(summaries@);
            strong_components::callers_are_symbols(calls, symbols) ==> forall|x: Seq<char>|
                #[trigger] symbols.contains(x) ==> r@.contains_key(x) && r@[x]
                    == reach::component_size(calls, reach::names_of(calls, symbols), x)
        }),
{
    let symbols = symbol_names(summaries);
    let sizes = component_sizes(call_edges, &symbols);
    proof {
        let calls = semantic::edges_of(call_edges@);
        let listed = symbols_of(summaries@);
        if strong_components::callers_are_symbols(calls, listed) {
            assert forall|x: Seq<char>| #[trigger] listed.contains(x) implies
                sizes@.contains_key(x) && sizes@[x] == reach::component_size(
                calls,
                reach::names_of(calls, listed),
                x,
            ) by {
                strong_components::law_sizes_are_those_of_strong_components(calls, listed, x);
                assert(sizes@.dom().contains(x));
            }
        }
    }
    sizes
}

/// The half points of what `symbol` calls and how many of these are known.
fn sum_callee_points(
    g: &SemanticGraph,
    index: &StringHashMap<usize>,
    symbol: &str,
) -> (r: (u128, usize))
    requires
        forall|k: Seq<char>| #[trigger]
            index@.contains_key(k) <==> semantic::last_of(g.summaries@, k) is Some,
        forall|k: Seq<char>| #[trigger]
            index@.contains_key(k) ==> semantic::last_of(g.summaries@, k) == Some(
                index@[k] as int,
            ),
        forall|k: Seq<char>| #[trigger] index@.contains_key(k) ==> index@[k] < g.summaries@.len(),
    ensures
        ({
            let called = callee_points(semantic::edges_of(g.call_edges@), g.summaries@, symbol@);
            &&& r.0 == capped_total(called.0)
            &&& r.1 == called.1
        }),
{
    let ghost es = semantic::edges_of(g.call_edges@);
    let ghost ss = g.summaries@;
    let mut total: u128 = 0;
    let mut count: usize = 0;
    let mut i: usize = 0;
    assert(es.take(0) =~= Seq::<(Seq<char>, Seq<char>)>::empty());
    while i < g.call_edges.len()
        invariant
            i <= g.call_edges@.len(),
            es == semantic::edges_of(g.call_edges@),
            ss == g.summaries@,
            forall|k: Seq<char>| #[trigger]
                index@.contains_key(k) <==> semantic::last_of(ss, k) is Some,
            forall|k: Seq<char>| #[trigger]
                index@.contains_key(k) ==> semantic::last_of(ss, k) == Some(index@[k] as int),
            forall|k: Seq<char>| #[trigger] index@.contains_key(k) ==> index@[k] < ss.len(),
            total == capped_total(callee_points(es.take(i as int), ss, symbol@).0),
            count == callee_points(es.take(i as int), ss, symbol@).1,
            count <= i,
        decreases g.call_edges@.len() - i,
    {
        let edge = &g.call_edges[i];
        proof {
            assert(es.take(i + 1).drop_last() =~= es.take(i as int));
            assert(es.take(i + 1).last() == edge@);
        }
        if same(edge.from.as_str(), symbol) {
            match index.get(edge.to.as_str()) {
                Some(k) => {
                    total = total.saturating_add(complexity_proxy(&g.summaries[*k]));
                    count += 1;
                },
                None => {},
            }
        }
        i += 1;
    }
    assert(es.take(i as int) =~= es);
    (total, count)
}

fn count_or(map: &StringHashMap<usize>, key: &str, default: usize) -> (r: usize)
    ensures
        r == (if map@.contains_key(key@) {
            map@[key@]
        } else {
            default
        }),
{
    match map.get(key) {
        Some(n) => *n,
        None => default,
    }
}

/// The entries of a graph: one for each summary with a body, in the order of the
/// graph.
pub fn build_graph_only_entries(g: &SemanticGraph, crate_name: &str) -> (r: Vec<GraphOnlyEntry>)
    ensures
        r@.len() == listed(g.summaries@).len(),
        forall|i: int|
            0 <= i < r@.len() ==> (#[trigger] r@[i]).of(*g, crate_name@, listed(g.summaries@)[i]),
{
    let index = index_by_symbol(&g.summaries);
    let edges = fingerprint_edges(&g.summaries);
    let duplicates = duplicate_body_counts(&edges);
    let scc_sizes = compute_call_scc_sizes(&g.summaries, &g.call_edges);
    let items = collect_complexity_items(&g.summaries);
    let ghost ss = g.summaries@;
    let ghost calls = semantic::edges_of(g.call_edges@);
    let ghost fps = fingerprints(ss);
    let ghost sizes = components::sizes_of(calls, symbols_of(ss));
    let mut entries: Vec<GraphOnlyEntry> = Vec::new();
    let mut i: usize = 0;
    while i < items.len()
        invariant
            i <= items@.len(),
            ss == g.summaries@,
            calls == semantic::edges_of(g.call_edges@),
            fps == fingerprints(ss),
            sizes == components::sizes_of(calls, symbols_of(ss)),
            items@.len() == listed(ss).len(),
            forall|k: int|
                0 <= k < items@.len() ==> {
                    &&& (#[trigger] items@[k]) < ss.len()
                    &&& ss[items@[k] as int] == listed(ss)[k]
                },
            forall|k: Seq<char>| #[trigger]
                index@.contains_key(k) <==> semantic::last_of(ss, k) is Some,
            forall|k: Seq<char>| #[trigger]
                index@.contains_key(k) ==> semantic::last_of(ss, k) == Some(index@[k] as int),
            forall|k: Seq<char>| #[trigger] index@.contains_key(k) ==> index@[k] < ss.len(),
            forall|x: Seq<char>|
                (if #[trigger] duplicates@.contains_key(x) {
                    duplicates@[x] as nat
                } else {
                    0
                }) == duplicate_bodies(fps, groups::sorted_set(groups::firsts(fps)), x),
            scc_sizes@.dom() == sizes.dom(),
            forall|x: Seq<char>| #[trigger] scc_sizes@.contains_key(x) ==> scc_sizes@[x] == sizes[x],
            entries@.len() == i,
            forall|k: int|
                0 <= k < i ==> (#[trigger] entries@[k]).of(*g, crate_name@, listed(ss)[k]),
        decreases items@.len() - i,
    {
        let at: usize = items[i];
        let s = &g.summaries[at];
        let symbol = s.symbol.as_str();
        proof {
            lemma_symbol_is_known(ss, at as int);
        }
        let branch_half_points: u128 = match index.get(symbol) {
            Some(k) => complexity_proxy(&g.summaries[*k]),
            None => 0,
        };
        let called = sum_callee_points(g, &index, symbol);
        let paths = count_memberships(&g.alpha_pathways, symbol);
        let owners: usize = g.redundant_path_owners.len();
        proof {
            let all = text::texts(g.redundant_path_owners@);
            assert(all.take(owners as int) =~= all);
        }
        let entry = GraphOnlyEntry {
            crate_name: crate_name.to_owned(),
            symbol: s.symbol.clone(),
            file: s.file.clone(),
            display_file: s.display_file.clone(),
            line: s.line,
            mir_blocks: block_count(s),
            mir_stmts: stmt_count(s),
            branch_half_points,
            callee_half_points: called.0,
            callee_count: called.1,
            call_in: s.call_in,
            call_out: s.call_out,
            duplicate_body_count: count_or(&duplicates, symbol, 0),
            redundant_path_count: count_occurrences(&g.redundant_path_owners, owners, symbol),
            pathway_membership_count: paths.0,
            pathway_wrapper_count: paths.1,
            scc_size: count_or(&scc_sizes, symbol, 1),
            is_directly_recursive: s.is_directly_recursive,
        };
        assert(entry.of(*g, crate_name@, ss[at as int]));
        entries.push(entry);
        i += 1;
    }
    entries
}

proof fn lemma_symbol_is_known(ss: Seq<SymbolSummary>, i: int)
    requires
        0 <= i < ss.len(),
    ensures
        semantic::last_of(ss, ss[i].symbol@) is Some,
    decreases ss.len(),
{
    if i < ss.len() - 1 {
        lemma_symbol_is_known(ss.drop_last(), i);
    }
}

/// An entry with the score that was computed for it, as a number that orders as
/// the scores do.
#[derive(Debug)]
pub struct ScoredEntry {
    pub entry: GraphOnlyEntry,
    pub score: u64,
}

impl View for ScoredEntry {
    type V = ScoredEntry;

    open spec fn view(&self) -> ScoredEntry {
        *self
    }
}

/// The higher score comes first, then the higher branch score, then the symbol
/// that is first in the order of texts.
impl Ranked for ScoredEntry {
    open spec fn rank_le(a: ScoredEntry, b: ScoredEntry) -> bool {
        if a.score != b.score {
            a.score > b.score
        } else if a.entry.branch_half_points != b.entry.branch_half_points {
            a.entry.branch_half_points > b.entry.branch_half_points
        } else {
            text::text_le(a.entry.symbol@, b.entry.symbol@)
        }
    }

    fn ranks_at_most(&self, other: &Self) -> (r: bool) {
        if self.score != other.score {
            self.score > other.score
        } else if self.entry.branch_half_points != other.entry.branch_half_points {
            self.entry.branch_half_points > other.entry.branch_half_points
        } else {
            text_at_most(self.entry.symbol.as_str(), other.entry.symbol.as_str())
        }
    }

    proof fn rank_total(a: ScoredEntry, b: ScoredEntry) {
        text::lemma_text_le_total(a.entry.symbol@, b.entry.symbol@);
    }

    proof fn rank_transitive(a: ScoredEntry, b: ScoredEntry, c: ScoredEntry) {
        if a.score == b.score && b.score == c.score && a.entry.branch_half_points
            == b.entry.branch_half_points && b.entry.branch_half_points
            == c.entry.branch_half_points {
            text::lemma_text_le_transitive(a.entry.symbol@, b.entry.symbol@, c.entry.symbol@);
        }
    }
}

/// The entries by score, the highest first.
pub open spec fn ranked(s: Seq<ScoredEntry>) -> Seq<ScoredEntry> {
    order::stable_sorted(s, |a: ScoredEntry, b: ScoredEntry| ScoredEntry::rank_le(a, b))
}

/// Sorts entries by score and keeps the first `limit`.
pub fn top_entries(entries: Vec<ScoredEntry>, limit: usize) -> (r: Vec<ScoredEntry>)
    ensures
        r@ == (if entries@.len() <= limit {
            ranked(entries@)
        } else {
            ranked(entries@).take(limit as int)
        }),
{
    let ghost before = entries@;
    let mut sorted = sort_ranked(entries);
    proof {
        assert(order::views(before) =~= before);
        assert(order::views(sorted@) =~= sorted@);
        assert((|a: ScoredEntry, b: ScoredEntry| ScoredEntry::rank_le(a, b)) =~= (|
            a: ScoredEntry,
            b: ScoredEntry,
        | ScoredEntry::rank_le(a@, b@)));
    }
    sorted.truncate(limit);
    assert(before.len() > limit ==> sorted@ =~= ranked(before).take(limit as int));
    sorted
}

// ---------------------------------------------------------------------------
// What a graph is verified by
// ---------------------------------------------------------------------------

/// The metrics that are watched between two captures of a graph.
///
/// The entropy score is no natural number: a number stands for it that orders as
/// the scores do.
#[derive(Debug, Clone, Copy, PartialEq, Eq, Structural)]
pub struct GraphMetrics {
    pub entropy: u64,
    pub pathway_count: u64,
    pub redundant_path_count: u64,
    pub artifact_writer_dispersion_count: u64,
    pub error_shaping_dispersion_count: u64,
    pub state_transition_dispersion_count: u64,
    pub representation_fanout_count: u64,
}

/// The counts of one graph, under the entropy that was computed for it.
pub open spec fn metrics_of(g: SemanticGraph, entropy: u64) -> GraphMetrics {
    GraphMetrics {
        entropy,
        pathway_count: g.alpha_pathways@.len() as u64,
        redundant_path_count: g.redundant_path_owners@.len() as u64,
        artifact_writer_dispersion_count: artifact_writer_dispersion(g) as u64,
        error_shaping_dispersion_count: error_shaping_dispersion(g) as u64,
        state_transition_dispersion_count: state_transition_dispersion(g) as u64,
        representation_fanout_count: tally::capped(representation_fanout(g)),
    }
}

/// Counts what a graph is verified by.
pub fn measure_graph(g: &SemanticGraph, entropy: u64) -> (r: GraphMetrics)
    ensures
        r == metrics_of(*g, entropy),
{
    GraphMetrics {
        entropy,
        pathway_count: g.alpha_pathways.len() as u64,
        redundant_path_count: g.redundant_path_owners.len() as u64,
        artifact_writer_dispersion_count: count_artifact_writer_dispersion(g) as u64,
        error_shaping_dispersion_count: count_error_shaping_dispersion(g) as u64,
        state_transition_dispersion_count: count_state_transition_dispersion(g) as u64,
        representation_fanout_count: count_representation_fanout(g),
    }
}

/// No metric counted yet.
pub open spec fn no_metrics() -> GraphMetrics {
    GraphMetrics {
        entropy: 0,
        pathway_count: 0,
        redundant_path_count: 0,
        artifact_writer_dispersion_count: 0,
        error_shaping_dispersion_count: 0,
        state_transition_dispersion_count: 0,
        representation_fanout_count: 0,
    }
}

/// One crate of a snapshot: its metrics, or why its graph could not be loaded.
#[derive(Debug)]
pub enum CrateSnapshot {
    Counted { name: String, metrics: GraphMetrics, call_edge_count: usize },
    Failed { name: String, error: String },
}

/// What was loaded of one crate: its graph and the entropy that was computed for
/// it, or why it could not be loaded.
#[derive(Debug)]
pub enum CrateLoad {
    Loaded { name: String, graph: SemanticGraph, entropy: u64 },
    Failed { name: String, error: String },
}

/// The snapshot of a crate is that of what was loaded of it.
pub open spec fn snapshot_of(s: CrateSnapshot, l: CrateLoad) -> bool {
    match (s, l) {
        (
            CrateSnapshot::Counted { name, metrics, call_edge_count },
            CrateLoad::Loaded { name: loaded, graph, entropy },
        ) => {
            &&& name@ == loaded@
            &&& metrics == metrics_of(graph, entropy)
            &&& call_edge_count == graph.call_edges@.len()
        },
        (
            CrateSnapshot::Failed { name, error },
            CrateLoad::Failed { name: loaded, error: reason },
        ) => {
            &&& name@ == loaded@
            &&& error@ == reason@
        },
        _ => false,
    }
}

/// The sum of one count over the crates that could be loaded.
pub open spec fn total_over(ls: Seq<CrateLoad>, count: spec_fn(GraphMetrics) -> u64) -> nat
    decreases ls.len(),
{
    if ls.len() == 0 {
        0
    } else {
        total_over(ls.drop_last(), count) + match ls.last() {
            CrateLoad::Loaded { graph, entropy, .. } => count(metrics_of(graph, entropy)) as nat,
            CrateLoad::Failed { .. } => 0nat,
        }
    }
}

/// The totals over all crates, each at most the largest number of 64 bits. The
/// entropy of the whole is computed over all entries and not here.
pub open spec fn totals_over(ls: Seq<CrateLoad>, entropy: u64) -> GraphMetrics {
    GraphMetrics {
        entropy,
        pathway_count: tally::capped(total_over(ls, |m: GraphMetrics| m.pathway_count)),
        redundant_path_count: tally::capped(total_over(ls, |m: GraphMetrics| m.redundant_path_count)),
        artifact_writer_dispersion_count: tally::capped(total_over(ls, |m: GraphMetrics| m.artifact_writer_dispersion_count)),
        error_shaping_dispersion_count: tally::capped(total_over(ls, |m: GraphMetrics| m.error_shaping_dispersion_count)),
        state_transition_dispersion_count: tally::capped(total_over(ls, |m: GraphMetrics| m.state_transition_dispersion_count)),
        representation_fanout_count: tally::capped(total_over(ls, |m: GraphMetrics| m.representation_fanout_count)),
    }
}

/// What is verified of a workspace: the totals and each crate.
#[derive(Debug)]
pub struct GraphVerificationSnapshot {
    pub totals: GraphMetrics,
    pub crates: Vec<CrateSnapshot>,
}

/// Counts what the graphs of a workspace are verified by.
pub fn build_graph_verification_snapshot(loads: &Vec<CrateLoad>, entropy: u64) -> (r:
    GraphVerificationSnapshot)
    ensures
        r.totals == totals_over(loads@, entropy),
        r.crates@.len() == loads@.len(),
        forall|i: int| 0 <= i < r.crates@.len() ==> snapshot_of(#[trigger] r.crates@[i], loads@[i]),
{
    let ghost ls = loads@;
    let ghost pathway_count_of = |m: GraphMetrics| m.pathway_count;
    let ghost redundant_path_count_of = |m: GraphMetrics| m.redundant_path_count;
    let ghost artifact_writer_dispersion_count_of = |m: GraphMetrics| m.artifact_writer_dispersion_count;
    let ghost error_shaping_dispersion_count_of = |m: GraphMetrics| m.error_shaping_dispersion_count;
    let ghost state_transition_dispersion_count_of = |m: GraphMetrics| m.state_transition_dispersion_count;
    let ghost representation_fanout_count_of = |m: GraphMetrics| m.representation_fanout_count;
    let mut crates: Vec<CrateSnapshot> = Vec::new();
    let mut pathway_count: u64 = 0;
    let mut redundant_path_count: u64 = 0;
    let mut artifact_writer_dispersion_count: u64 = 0;
    let mut error_shaping_dispersion_count: u64 = 0;
    let mut state_transition_dispersion_count: u64 = 0;
    let mut representation_fanout_count: u64 = 0;
    let mut i: usize = 0;
    assert(ls.take(0) =~= Seq::<CrateLoad>::empty());
    while i < loads.len()
        invariant
            i <= loads@.len(),
            ls == loads@,
            crates@.len() == i,
            forall|k: int| 0 <= k < i ==> snapshot_of(#[trigger] crates@[k], ls[k]),
            pathway_count_of == (|m: GraphMetrics| m.pathway_count),
            pathway_count == tally::capped(total_over(ls.take(i as int), pathway_count_of)),
            redundant_path_count_of == (|m: GraphMetrics| m.redundant_path_count),
            redundant_path_count == tally::capped(total_over(ls.take(i as int), redundant_path_count_of)),
            artifact_writer_dispersion_count_of == (|m: GraphMetrics| m.artifact_writer_dispersion_count),
            artifact_writer_dispersion_count == tally::capped(total_over(ls.take(i as int), artifact_writer_dispersion_count_of)),
            error_shaping_dispersion_count_of == (|m: GraphMetrics| m.error_shaping_dispersion_count),
            error_shaping_dispersion_count == tally::capped(total_over(ls.take(i as int), error_shaping_dispersion_count_of)),
            state_transition_dispersion_count_of == (|m: GraphMetrics| m.state_transition_dispersion_count),
            state_transition_dispersion_count == tally::capped(total_over(ls.take(i as int), state_transition_dispersion_count_of)),
            representation_fanout_count_of == (|m: GraphMetrics| m.representation_fanout_count),
            representation_fanout_count == tally::capped(total_over(ls.take(i as int), representation_fanout_count_of)),
        decreases loads@.len() - i,
    {
        proof {
            assert(ls.take(i + 1).drop_last() =~= ls.take(i as int));
            assert(ls.take(i + 1).last() == ls[i as int]);
        }
        match &loads[i] {
            CrateLoad::Loaded { name, graph, entropy } => {
                let metrics = measure_graph(graph, *entropy);
                pathway_count = pathway_count.saturating_add(metrics.pathway_count);
                redundant_path_count = redundant_path_count.saturating_add(metrics.redundant_path_count);
                artifact_writer_dispersion_count = artifact_writer_dispersion_count.saturating_add(metrics.artifact_writer_dispersion_count);
                error_shaping_dispersion_count = error_shaping_dispersion_count.saturating_add(metrics.error_shaping_dispersion_count);
                state_transition_dispersion_count = state_transition_dispersion_count.saturating_add(metrics.state_transition_dispersion_count);
                representation_fanout_count = representation_fanout_count.saturating_add(metrics.representation_fanout_count);
                crates.push(
                    CrateSnapshot::Counted {
                        name: name.clone(),
                        metrics,
                        call_edge_count: graph.call_edges.len(),
                    },
                );
            },
            CrateLoad::Failed { name, error } => {
                crates.push(CrateSnapshot::Failed { name: name.clone(), error: error.clone() });
            },
        }
        i += 1;
    }
    assert(ls.take(i as int) =~= ls);
    GraphVerificationSnapshot {
        totals: GraphMetrics {
            entropy,
            pathway_count,
            redundant_path_count,
            artifact_writer_dispersion_count,
            error_shaping_dispersion_count,
            state_transition_dispersion_count,
            representation_fanout_count,
        },
        crates,
    }
}

// ---------------------------------------------------------------------------
// How a graph changed
// ---------------------------------------------------------------------------

/// One metric before and after. Less is better.
#[derive(Debug, Clone, Copy, PartialEq, Eq, Structural)]
pub struct MetricDelta {
    pub before: u64,
    pub after: u64,
    pub delta: i128,
    pub improved: bool,
}

/// A metric before and after.
pub open spec fn delta_of(before: u64, after: u64) -> MetricDelta {
    MetricDelta {
        before,
        after,
        delta: (after - before) as i128,
        improved: after < before,
    }
}

fn metric_delta(before: u64, after: u64) -> (r: MetricDelta)
    ensures
        r == delta_of(before, after),
{
    let delta: i128 = (after as i128) - (before as i128);
    MetricDelta { before, after, delta, improved: delta < 0 }
}

/// Every metric before and after.
#[derive(Debug, Clone, Copy, PartialEq, Eq, Structural)]
pub struct MetricDeltas {
    pub entropy: MetricDelta,
    pub pathway_count: MetricDelta,
    pub redundant_path_count: MetricDelta,
    pub artifact_writer_dispersion_count: MetricDelta,
    pub error_shaping_dispersion_count: MetricDelta,
    pub state_transition_dispersion_count: MetricDelta,
    pub representation_fanout_count: MetricDelta,
}

/// Every metric before and after.
pub open spec fn deltas_of(before: GraphMetrics, after: GraphMetrics) -> MetricDeltas {
    MetricDeltas {
        entropy: delta_of(before.entropy, after.entropy),
        pathway_count: delta_of(before.pathway_count, after.pathway_count),
        redundant_path_count: delta_of(before.redundant_path_count, after.redundant_path_count),
        artifact_writer_dispersion_count: delta_of(before.artifact_writer_dispersion_count, after.artifact_writer_dispersion_count),
        error_shaping_dispersion_count: delta_of(before.error_shaping_dispersion_count, after.error_shaping_dispersion_count),
        state_transition_dispersion_count: delta_of(before.state_transition_dispersion_count, after.state_transition_dispersion_count),
        representation_fanout_count: delta_of(before.representation_fanout_count, after.representation_fanout_count),
    }
}

/// Every metric before and after.
pub fn metric_deltas(before: &GraphMetrics, after: &GraphMetrics) -> (r: MetricDeltas)
    ensures
        r == deltas_of(*before, *after),
{
    MetricDeltas {
        entropy: metric_delta(before.entropy, after.entropy),
        pathway_count: metric_delta(before.pathway_count, after.pathway_count),
        redundant_path_count: metric_delta(before.redundant_path_count, after.redundant_path_count),
        artifact_writer_dispersion_count: metric_delta(before.artifact_writer_dispersion_count, after.artifact_writer_dispersion_count),
        error_shaping_dispersion_count: metric_delta(before.error_shaping_dispersion_count, after.error_shaping_dispersion_count),
        state_transition_dispersion_count: metric_delta(before.state_transition_dispersion_count, after.state_transition_dispersion_count),
        representation_fanout_count: metric_delta(before.representation_fanout_count, after.representation_fanout_count),
    }
}

/// The names of the metrics that improved.
pub open spec fn improved_names(m: MetricDeltas) -> Seq<Seq<char>> {
    let s = Seq::<Seq<char>>::empty();
    let s = text::with_text_if(s, m.entropy.improved, "overall_graph_entropy_score"@);
    let s = text::with_text_if(s, m.pathway_count.improved, "pathway_count"@);
    let s = text::with_text_if(s, m.redundant_path_count.improved, "redundant_path_count"@);
    let s = text::with_text_if(s, m.artifact_writer_dispersion_count.improved, "artifact_writer_dispersion_count"@);
    let s = text::with_text_if(s, m.error_shaping_dispersion_count.improved, "error_shaping_dispersion_count"@);
    let s = text::with_text_if(s, m.state_transition_dispersion_count.improved, "state_transition_dispersion_count"@);
    let s = text::with_text_if(s, m.representation_fanout_count.improved, "representation_fanout_count"@);
    s
}

/// The names of the metrics that improved.
pub fn improved_metrics(m: &MetricDeltas) -> (r: Vec<String>)
    ensures
        text::texts(r@) == improved_names(*m),
{
    let mut names: Vec<String> = Vec::new();
    assert(text::texts(names@) =~= Seq::<Seq<char>>::empty());
    push_text_if(&mut names, m.entropy.improved, "overall_graph_entropy_score");
    push_text_if(&mut names, m.pathway_count.improved, "pathway_count");
    push_text_if(&mut names, m.redundant_path_count.improved, "redundant_path_count");
    push_text_if(&mut names, m.artifact_writer_dispersion_count.improved, "artifact_writer_dispersion_count");
    push_text_if(&mut names, m.error_shaping_dispersion_count.improved, "error_shaping_dispersion_count");
    push_text_if(&mut names, m.state_transition_dispersion_count.improved, "state_transition_dispersion_count");
    push_text_if(&mut names, m.representation_fanout_count.improved, "representation_fanout_count");
    names
}

/// The names of the metrics that got worse.
pub open spec fn regressed_names(m: MetricDeltas) -> Seq<Seq<char>> {
    let s = Seq::<Seq<char>>::empty();
    let s = text::with_text_if(s, m.entropy.delta > 0, "overall_graph_entropy_score"@);
    let s = text::with_text_if(s, m.pathway_count.delta > 0, "pathway_count"@);
    let s = text::with_text_if(s, m.redundant_path_count.delta > 0, "redundant_path_count"@);
    let s = text::with_text_if(s, m.artifact_writer_dispersion_count.delta > 0, "artifact_writer_dispersion_count"@);
    let s = text::with_text_if(s, m.error_shaping_dispersion_count.delta > 0, "error_shaping_dispersion_count"@);
    let s = text::with_text_if(s, m.state_transition_dispersion_count.delta > 0, "state_transition_dispersion_count"@);
    let s = text::with_text_if(s, m.representation_fanout_count.delta > 0, "representation_fanout_count"@);
    s
}

/// The names of the metrics that got worse.
pub fn regressed_metrics(m: &MetricDeltas) -> (r: Vec<String>)
    ensures
        text::texts(r@) == regressed_names(*m),
{
    let mut names: Vec<String> = Vec::new();
    assert(text::texts(names@) =~= Seq::<Seq<char>>::empty());
    push_text_if(&mut names, m.entropy.delta > 0, "overall_graph_entropy_score");
    push_text_if(&mut names, m.pathway_count.delta > 0, "pathway_count");
    push_text_if(&mut names, m.redundant_path_count.delta > 0, "redundant_path_count");
    push_text_if(&mut names, m.artifact_writer_dispersion_count.delta > 0, "artifact_writer_dispersion_count");
    push_text_if(&mut names, m.error_shaping_dispersion_count.delta > 0, "error_shaping_dispersion_count");
    push_text_if(&mut names, m.state_transition_dispersion_count.delta > 0, "state_transition_dispersion_count");
    push_text_if(&mut names, m.representation_fanout_count.delta > 0, "representation_fanout_count");
    names
}

/// The metrics of one crate under its name.
#[derive(Debug)]
pub struct NamedMetrics {
    pub name: String,
    pub metrics: GraphMetrics,
}

/// The last metrics under a name; none counted where there are none.
pub open spec fn last_metrics(v: Seq<NamedMetrics>, name: Seq<char>) -> GraphMetrics
    decreases v.len(),
{
    if v.len() == 0 {
        no_metrics()
    } else if v.last().name@ == name {
        v.last().metrics
    } else {
        last_metrics(v.drop_last(), name)
    }
}

fn find_metrics(v: &Vec<NamedMetrics>, name: &str) -> (r: GraphMetrics)
    ensures
        r == last_metrics(v@, name@),
{
    let mut i: usize = v.len();
    assert(v@.take(i as int) =~= v@);
    while i > 0
        invariant
            i <= v@.len(),
            last_metrics(v@.take(i as int), name@) == last_metrics(v@, name@),
        decreases i,
    {
        assert(v@.take(i as int).drop_last() =~= v@.take(i - 1));
        if same(v[i - 1].name.as_str(), name) {
            return v[i - 1].metrics;
        }
        i -= 1;
    }
    GraphMetrics {
        entropy: 0,
        pathway_count: 0,
        redundant_path_count: 0,
        artifact_writer_dispersion_count: 0,
        error_shaping_dispersion_count: 0,
        state_transition_dispersion_count: 0,
        representation_fanout_count: 0,
    }
}

/// What was captured of a workspace at one time.
#[derive(Debug)]
pub struct GraphCapture {
    pub totals: GraphMetrics,
    pub crates: Vec<NamedMetrics>,
}

/// One crate before and after.
#[derive(Debug)]
pub struct CrateDelta {
    pub name: String,
    pub metrics: MetricDeltas,
}

/// How a workspace changed between two captures. It passes where no metric grew.
#[derive(Debug)]
pub struct GraphDeltaReport {
    pub metrics: MetricDeltas,
    pub improved_metrics: Vec<String>,
    pub regressed_metrics: Vec<String>,
    pub verification_passed: bool,
    pub per_crate: Vec<CrateDelta>,
}

/// Compares two captures. The crates are those of the later one; one that the
/// earlier one lacks is compared with nothing.
pub fn build_graph_delta_report(before: &GraphCapture, after: &GraphCapture) -> (r:
    GraphDeltaReport)
    ensures
        r.metrics == deltas_of(before.totals, after.totals),
        text::texts(r.improved_metrics@) == improved_names(r.metrics),
        text::texts(r.regressed_metrics@) == regressed_names(r.metrics),
        r.verification_passed == (regressed_names(r.metrics).len() == 0),
        r.per_crate@.len() == after.crates@.len(),
        forall|i: int|
            0 <= i < r.per_crate@.len() ==> {
                &&& (#[trigger] r.per_crate@[i]).name@ == after.crates@[i].name@
                &&& r.per_crate@[i].metrics == deltas_of(
                    last_metrics(before.crates@, after.crates@[i].name@),
                    after.crates@[i].metrics,
                )
            },
{
    let metrics = metric_deltas(&before.totals, &after.totals);
    let improved = improved_metrics(&metrics);
    let regressed = regressed_metrics(&metrics);
    assert(text::texts(regressed@).len() == regressed@.len());
    let mut per_crate: Vec<CrateDelta> = Vec::new();
    let mut i: usize = 0;
    while i < after.crates.len()
        invariant
            i <= after.crates@.len(),
            per_crate@.len() == i,
            forall|k: int|
                0 <= k < i ==> {
                    &&& (#[trigger] per_crate@[k]).name@ == after.crates@[k].name@
                    &&& per_crate@[k].metrics == deltas_of(
                        last_metrics(before.crates@, after.crates@[k].name@),
                        after.crates@[k].metrics,
                    )
                },
        decreases after.crates@.len() - i,
    {
        let now = &after.crates[i];
        let was = find_metrics(&before.crates, now.name.as_str());
        per_crate.push(
            CrateDelta { name: now.name.clone(), metrics: metric_deltas(&was, &now.metrics) },
        );
        i += 1;
    }
    GraphDeltaReport {
        metrics,
        improved_metrics: improved,
        verification_passed: regressed.len() == 0,
        regressed_metrics: regressed,
        per_crate,
    }
}

/// A change passes exactly where no metric grew.
pub proof fn law_a_change_passes_where_no_metric_grew(before: GraphMetrics, after: GraphMetrics)
    ensures
        (regressed_names(deltas_of(before, after)).len() == 0) <==> (after.entropy <= before.entropy && after.pathway_count <= before.pathway_count && after.redundant_path_count <= before.redundant_path_count && after.artifact_writer_dispersion_count <= before.artifact_writer_dispersion_count && after.error_shaping_dispersion_count <= before.error_shaping_dispersion_count && after.state_transition_dispersion_count <= before.state_transition_dispersion_count && after.representation_fanout_count <= before.representation_fanout_count),
{
}

/// Against itself a capture shows neither improvement nor regression.
pub proof fn law_nothing_changed_shows_nothing(m: GraphMetrics)
    ensures
        improved_names(deltas_of(m, m)) == Seq::<Seq<char>>::empty(),
        regressed_names(deltas_of(m, m)) == Seq::<Seq<char>>::empty(),
{
}

/// What one change improves, the change back makes worse, and the other way
/// round.
pub proof fn law_a_change_back_undoes_improvements(before: GraphMetrics, after: GraphMetrics)
    ensures
        improved_names(deltas_of(before, after)) == regressed_names(deltas_of(after, before)),
        regressed_names(deltas_of(before, after)) == improved_names(deltas_of(after, before)),
{
}

// ---------------------------------------------------------------------------
// Refreshing issues in the background
// ---------------------------------------------------------------------------

/// The issues after one more detector.
pub open spec fn after(d: Detector, fs: Seq<IssueView>, cs: Seq<CrateGraph>) -> Seq<IssueView> {
    graph_metrics::detected(d, fs, cs)
}

/// How many hotspots of a crate become issues.
pub const HOTSPOT_LIMIT: usize = 5;

/// The issues after all detectors, one after the other.
pub open spec fn refreshed(
    fs: Seq<IssueView>,
    stats: Seq<BridgeConnectivityStats>,
    analyses: Seq<CrateAnalysis>,
    cs: Seq<CrateGraph>,
) -> Seq<IssueView> {
    let bridged = proposals::upserted_all(
        fs,
        stats.map_values(|s: BridgeConnectivityStats| graph_metrics::bridge_report(s)),
    );
    let hot = bridged + inter_complexity::found_over(
        analyses,
        bridged,
        HOTSPOT_LIMIT,
    );
    let cohesive = hot + graph_metrics::cohesion_found(graph_metrics::ids(hot), cs);
    let f = after(Detector::ArtifactWriters, cohesive, cs);
    let f = after(Detector::ErrorShaping, f, cs);
    let f = after(Detector::StateTransitions, f, cs);
    let f = after(Detector::PlannerLoop, f, cs);
    let f = after(Detector::ImplicitStateMachines, f, cs);
    let f = after(Detector::EffectBoundaries, f, cs);
    let f = after(Detector::Logging, f, cs);
    let f = after(Detector::ProcessSpawns, f, cs);
    let f = after(Detector::NetworkUsage, f, cs);
    let f = graph_metrics::fanouts_reported(f, cs).found;
    let f = graph_metrics::regions_reported(f, cs, RegionReductionMode::Scc).found;
    graph_metrics::regions_reported(f, cs, RegionReductionMode::Dominator).found
}

/// Brings the issues up to date with all detectors on graphs.
pub fn refresh_issue_artifacts(
    issues: &mut Vec<Issue>,
    stats: &Vec<BridgeConnectivityStats>,
    analyses: &Vec<CrateAnalysis>,
    crates: &Vec<CrateGraph>,
)
    ensures
        issues::findings(final(issues)@) == refreshed(
            issues::findings(old(issues)@),
            stats@,
            analyses@,
            crates@,
        ),
{
    let _ = generate_bridge_connectivity_issues(issues, stats);
    let _ = generate_hotspot_issues(issues, analyses, HOTSPOT_LIMIT);
    let _ = generate_module_cohesion_issues(issues, crates);
    let _ = run_detector(Detector::ArtifactWriters, issues, crates);
    let _ = run_detector(Detector::ErrorShaping, issues, crates);
    let _ = run_detector(Detector::StateTransitions, issues, crates);
    let _ = run_detector(Detector::PlannerLoop, issues, crates);
    let _ = run_detector(Detector::ImplicitStateMachines, issues, crates);
    let _ = run_detector(Detector::EffectBoundaries, issues, crates);
    let _ = run_detector(Detector::Logging, issues, crates);
    let _ = run_detector(Detector::ProcessSpawns, issues, crates);
    let _ = run_detector(Detector::NetworkUsage, issues, crates);
    let _ = generate_representation_fanout_issues(issues, crates);
    let _ = generate_region_reduction_issues(issues, crates, RegionReductionMode::Scc);
    let _ = generate_region_reduction_issues(issues, crates, RegionReductionMode::Dominator);
}

/// The workspaces whose issues are being refreshed.
pub struct InFlight {
    paths: StringHashSet,
}

impl InFlight {
    /// The workspaces being refreshed.
    pub closed spec fn running(&self) -> Set<Seq<char>> {
        self.paths@
    }

    /// No workspace is being refreshed.
    pub fn new() -> (r: Self)
        ensures
            r.running() == Set::<Seq<char>>::empty(),
    {
        InFlight { paths: StringHashSet::new() }
    }

    /// Begins to refresh a workspace. Says no where one is being refreshed
    /// already.
    pub fn begin(&mut self, workspace: &str) -> (r: bool)
        ensures
            r == !old(self).running().contains(workspace@),
            final(self).running() == old(self).running().insert(workspace@),
    {
        self.paths.insert(workspace.to_owned())
    }

    /// Ends refreshing a workspace.
    pub fn finish(&mut self, workspace: &str)
        ensures
            final(self).running() == old(self).running().remove(workspace@),
    {
        let _ = self.paths.remove(workspace);
    }
}

} // verus!
