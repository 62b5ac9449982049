//! What a run of the detectors keeps, and that a second one changes nothing.

use crate::complexity;
use crate::generate_issues;
use crate::generate_issues::SelectedMode;
use crate::graph_issues::BridgeConnectivityStats;
use crate::graph_metrics;
use crate::graph_metrics::{CrateGraph, Detector, RegionReductionMode};
use crate::groups;
use crate::inter_complexity;
use crate::inter_complexity::{CrateAnalysis, ScoredInterEntry};
use crate::issues;
use crate::issues::IssueView;
use crate::order;
use crate::order::Ranked;
use crate::proposals;
use crate::rounds;
use crate::rounds::Step;
use crate::semantic::{SemanticGraph, SymbolSummary};
use crate::text;
use vstd::prelude::*;

verus! {

/// Every active report says that it is open.
pub open spec fn open_reports(ps: Seq<(IssueView, bool)>) -> bool {
    forall|i: int| 0 <= i < ps.len() ==> proposals::opens_when_active(#[trigger] ps[i])
}

// ---------------------------------------------------------------------------
// Reports say what they are
// ---------------------------------------------------------------------------

proof fn lemma_machine_reports_are_open(
    name: Seq<char>,
    moves: Seq<(Seq<char>, Seq<char>)>,
    ss: Seq<SymbolSummary>,
)
    ensures
        open_reports(graph_metrics::machine_reports_over(name, moves, ss)),
    decreases ss.len(),
{
    if ss.len() > 0 {
        lemma_machine_reports_are_open(name, moves, ss.drop_last());
    }
}

proof fn lemma_fanout_reports_are_open(name: Seq<char>, g: SemanticGraph, from: Seq<Seq<char>>)
    ensures
        open_reports(graph_metrics::fanout_reports_over(name, g, from)),
    decreases from.len(),
{
    if from.len() > 0 {
        lemma_fanout_reports_are_open(name, g, from.drop_last());
        let before = graph_metrics::fanout_reports_over(name, g, from.drop_last());
        let found = groups::grouped(
            complexity::derived_from(
                graph_metrics::read_domains(g),
                graph_metrics::written_domains(g),
                from.last(),
            ),
        );
        let more = graph_metrics::fanout_reports_from(name, g, from.last());
        let all = graph_metrics::fanout_reports_over(name, g, from);
        assert forall|i: int| 0 <= i < all.len() implies proposals::opens_when_active(
            #[trigger] all[i],
        ) by {
            if i < before.len() {
                assert(all[i] == before[i]);
            } else {
                let k = i - before.len();
                assert(all[i] == more[k]);
                assert(more[k] == graph_metrics::fanout_report(name, g, from.last(), found[k]));
            }
        }
    }
}

proof fn lemma_regions_are_open(
    name: Seq<char>,
    g: SemanticGraph,
    mode: RegionReductionMode,
    ss: Seq<SymbolSummary>,
)
    ensures
        forall|i: int|
            0 <= i < graph_metrics::regions_over(name, g, mode, ss).len() ==> (
            #[trigger] graph_metrics::regions_over(name, g, mode, ss)[i]).0.status == "open"@,
    decreases ss.len(),
{
    if ss.len() > 0 {
        lemma_regions_are_open(name, g, mode, ss.drop_last());
    }
}

proof fn lemma_region_reports_are_open(name: Seq<char>, g: SemanticGraph, mode: RegionReductionMode)
    ensures
        open_reports(graph_metrics::region_reports(name, g, mode)),
{
    let found = graph_metrics::regions_over(name, g, mode, g.summaries@);
    let le = |a: (IssueView, u128), b: (IssueView, u128)|
        graph_metrics::RegionCandidate::rank_le(a, b);
    let open = |c: (IssueView, u128)| c.0.status == "open"@;
    lemma_regions_are_open(name, g, mode, g.summaries@);
    assert forall|i: int| 0 <= i < found.len() implies open(#[trigger] found[i]) by {}
    order::lemma_sorted_keeps(found, le, open);
    let top = graph_metrics::top_regions(name, g, mode);
    let ps = graph_metrics::region_reports(name, g, mode);
    assert forall|i: int| 0 <= i < ps.len() implies proposals::opens_when_active(
        #[trigger] ps[i],
    ) by {
        assert(ps[i] == (top[i].0, true));
        assert(top[i] == order::stable_sorted(found, le)[i]);
        assert(open(order::stable_sorted(found, le)[i]));
    }
}

proof fn lemma_reports_are_open(d: Detector, name: Seq<char>, g: SemanticGraph)
    ensures
        open_reports(graph_metrics::reports(d, name, g)),
{
    match d {
        Detector::ImplicitStateMachines => {
            lemma_machine_reports_are_open(
                name,
                crate::semantic::edges_of(g.state_transitions@),
                g.summaries@,
            );
        },
        _ => {},
    }
}

// ---------------------------------------------------------------------------
// Detectors as rounds
// ---------------------------------------------------------------------------

/// The steps of a family of reports, after which what is not kept is resolved.
pub open spec fn family_steps(
    ps: Seq<(IssueView, bool)>,
    prefix: Seq<char>,
    kept: Seq<Seq<char>>,
) -> Seq<Step> {
    rounds::report_steps(ps) + seq![Step::Resolve(prefix, kept)]
}

proof fn lemma_family(
    fs: Seq<IssueView>,
    ps: Seq<(IssueView, bool)>,
    prefix: Seq<char>,
    kept: Seq<Seq<char>>,
)
    requires
        open_reports(ps),
    ensures
        rounds::round(fs, family_steps(ps, prefix, kept)) == crate::issues::stale_resolved(
            proposals::upserted_all(fs, ps),
            prefix,
            kept,
        ),
        rounds::all_say_open(family_steps(ps, prefix, kept)),
{
    let a = rounds::report_steps(ps);
    let b = seq![Step::Resolve(prefix, kept)];
    rounds::lemma_reports_are_a_round(fs, ps);
    rounds::lemma_round_in_parts(fs, a, b);
    let middle = rounds::round(fs, a);
    assert(b.drop_last() =~= Seq::<Step>::empty());
    assert(rounds::round(middle, b.drop_last()) == middle);
    assert(rounds::round(middle, b) == rounds::stepped(middle, b.last()));
    rounds::lemma_reports_say_open(ps);
    rounds::lemma_parts_say_open(a, b);
}

/// The steps of a detector in one crate.
pub open spec fn crate_steps(d: Detector, name: Seq<char>, g: SemanticGraph) -> Seq<Step> {
    let ps = graph_metrics::reports(d, name, g);
    match graph_metrics::family(d, name) {
        Some(prefix) => family_steps(ps, prefix, proposals::ids_of(ps)),
        None => rounds::report_steps(ps),
    }
}

/// The steps of a detector in all crates.
pub open spec fn detector_steps(d: Detector, cs: Seq<CrateGraph>) -> Seq<Step>
    decreases cs.len(),
{
    if cs.len() == 0 {
        Seq::empty()
    } else {
        detector_steps(d, cs.drop_last()) + crate_steps(
            d,
            graph_metrics::crate_id(cs.last().name@),
            cs.last().graph,
        )
    }
}

proof fn lemma_detected(d: Detector, fs: Seq<IssueView>, cs: Seq<CrateGraph>)
    ensures
        graph_metrics::detected(d, fs, cs) == rounds::round(fs, detector_steps(d, cs)),
        rounds::all_say_open(detector_steps(d, cs)),
    decreases cs.len(),
{
    if cs.len() > 0 {
        lemma_detected(d, fs, cs.drop_last());
        let name = graph_metrics::crate_id(cs.last().name@);
        let g = cs.last().graph;
        let ps = graph_metrics::reports(d, name, g);
        let before = graph_metrics::detected(d, fs, cs.drop_last());
        lemma_reports_are_open(d, name, g);
        match graph_metrics::family(d, name) {
            Some(prefix) => {
                lemma_family(before, ps, prefix, proposals::ids_of(ps));
            },
            None => {
                rounds::lemma_reports_are_a_round(before, ps);
                rounds::lemma_reports_say_open(ps);
            },
        }
        let a = detector_steps(d, cs.drop_last());
        let b = crate_steps(d, name, g);
        rounds::lemma_round_in_parts(fs, a, b);
        rounds::lemma_parts_say_open(a, b);
    }
}

/// The steps of the search for repeated translations.
pub open spec fn fanout_steps(cs: Seq<CrateGraph>) -> Seq<Step>
    decreases cs.len(),
{
    if cs.len() == 0 {
        Seq::empty()
    } else {
        let name = graph_metrics::crate_id(cs.last().name@);
        fanout_steps(cs.drop_last()) + family_steps(
            graph_metrics::fanout_reports(name, cs.last().graph),
            "auto_representation_fanout_"@ + name + "_"@,
            fanout_kept(cs),
        )
    }
}

/// The ids that the search for repeated translations reports.
pub open spec fn fanout_kept(cs: Seq<CrateGraph>) -> Seq<Seq<char>>
    decreases cs.len(),
{
    if cs.len() == 0 {
        Seq::empty()
    } else {
        fanout_kept(cs.drop_last()) + proposals::ids_of(
            graph_metrics::fanout_reports(
                graph_metrics::crate_id(cs.last().name@),
                cs.last().graph,
            ),
        )
    }
}

proof fn lemma_fanouts(fs: Seq<IssueView>, cs: Seq<CrateGraph>)
    ensures
        graph_metrics::fanouts_reported(fs, cs).found == rounds::round(fs, fanout_steps(cs)),
        graph_metrics::fanouts_reported(fs, cs).kept == fanout_kept(cs),
        rounds::all_say_open(fanout_steps(cs)),
    decreases cs.len(),
{
    if cs.len() > 0 {
        lemma_fanouts(fs, cs.drop_last());
        let name = graph_metrics::crate_id(cs.last().name@);
        let g = cs.last().graph;
        let ps = graph_metrics::fanout_reports(name, g);
        let prefix = "auto_representation_fanout_"@ + name + "_"@;
        let before = graph_metrics::fanouts_reported(fs, cs.drop_last()).found;
        lemma_fanout_reports_are_open(
            name,
            g,
            groups::sorted_set(groups::seconds(graph_metrics::read_domains(g))),
        );
        lemma_family(before, ps, prefix, fanout_kept(cs));
        let a = fanout_steps(cs.drop_last());
        let b = family_steps(ps, prefix, fanout_kept(cs));
        rounds::lemma_round_in_parts(fs, a, b);
        rounds::lemma_parts_say_open(a, b);
    }
}

/// The steps of the search for regions.
pub open spec fn region_steps(cs: Seq<CrateGraph>, mode: RegionReductionMode) -> Seq<Step>
    decreases cs.len(),
{
    if cs.len() == 0 {
        Seq::empty()
    } else {
        let name = graph_metrics::crate_id(cs.last().name@);
        region_steps(cs.drop_last(), mode) + family_steps(
            graph_metrics::region_reports(name, cs.last().graph, mode),
            graph_metrics::region_family(name, mode),
            region_kept(cs, mode),
        ) + seq![Step::Resolve("auto_cfg_region_reduction_"@ + name + "_"@, Seq::empty())]
    }
}

/// The ids that the search for regions reports.
pub open spec fn region_kept(cs: Seq<CrateGraph>, mode: RegionReductionMode) -> Seq<Seq<char>>
    decreases cs.len(),
{
    if cs.len() == 0 {
        Seq::empty()
    } else {
        region_kept(cs.drop_last(), mode) + proposals::ids_of(
            graph_metrics::region_reports(
                graph_metrics::crate_id(cs.last().name@),
                cs.last().graph,
                mode,
            ),
        )
    }
}

proof fn lemma_regions(fs: Seq<IssueView>, cs: Seq<CrateGraph>, mode: RegionReductionMode)
    ensures
        graph_metrics::regions_reported(fs, cs, mode).found == rounds::round(
            fs,
            region_steps(cs, mode),
        ),
        graph_metrics::regions_reported(fs, cs, mode).kept == region_kept(cs, mode),
        rounds::all_say_open(region_steps(cs, mode)),
    decreases cs.len(),
{
    if cs.len() > 0 {
        lemma_regions(fs, cs.drop_last(), mode);
        let name = graph_metrics::crate_id(cs.last().name@);
        let g = cs.last().graph;
        let ps = graph_metrics::region_reports(name, g, mode);
        let prefix = graph_metrics::region_family(name, mode);
        let kept = region_kept(cs, mode);
        let before = graph_metrics::regions_reported(fs, cs.drop_last(), mode).found;
        lemma_region_reports_are_open(name, g, mode);
        lemma_family(before, ps, prefix, kept);
        let a = region_steps(cs.drop_last(), mode);
        let b = family_steps(ps, prefix, kept);
        let c = seq![Step::Resolve("auto_cfg_region_reduction_"@ + name + "_"@, Seq::empty())];
        rounds::lemma_round_in_parts(fs, a, b);
        rounds::lemma_parts_say_open(a, b);
        rounds::lemma_round_in_parts(fs, a + b, c);
        rounds::lemma_parts_say_open(a + b, c);
        let middle = rounds::round(fs, a + b);
        assert(c.drop_last() =~= Seq::<Step>::empty());
        assert(rounds::round(middle, c.drop_last()) == middle);
        assert(rounds::round(middle, c) == rounds::stepped(middle, c.last()));
    }
}

// ---------------------------------------------------------------------------
// Laws
// ---------------------------------------------------------------------------

/// A detector that runs again over the same graphs changes no issue.
pub proof fn law_a_detector_settles(d: Detector, fs: Seq<IssueView>, cs: Seq<CrateGraph>)
    ensures
        graph_metrics::detected(d, graph_metrics::detected(d, fs, cs), cs)
            == graph_metrics::detected(d, fs, cs),
{
    lemma_detected(d, fs, cs);
    lemma_detected(d, graph_metrics::detected(d, fs, cs), cs);
    rounds::law_a_second_round_changes_nothing(fs, detector_steps(d, cs));
}

/// A run over the same graphs with the same flags changes no issue the second time. The
/// run without flags is left out: what another issue hid from it may show once that
/// issue is resolved.
pub proof fn law_a_second_run_changes_nothing(
    mode: SelectedMode,
    fs: Seq<IssueView>,
    stats: Seq<BridgeConnectivityStats>,
    analyses: Seq<CrateAnalysis>,
    cs: Seq<CrateGraph>,
)
    requires
        mode != SelectedMode::Everything,
    ensures
        ({
            let once = generate_issues::after_run(mode, fs, stats, analyses, cs);
            generate_issues::after_run(mode, once, stats, analyses, cs) == once
        }),
{
    let once = generate_issues::after_run(mode, fs, stats, analyses, cs);
    match mode {
        SelectedMode::One(d) => {
            law_a_detector_settles(d, fs, cs);
        },
        SelectedMode::RepresentationFanout => {
            lemma_fanouts(fs, cs);
            lemma_fanouts(once, cs);
            rounds::law_a_second_round_changes_nothing(fs, fanout_steps(cs));
        },
        SelectedMode::SccRegions => {
            lemma_regions(fs, cs, RegionReductionMode::Scc);
            lemma_regions(once, cs, RegionReductionMode::Scc);
            rounds::law_a_second_round_changes_nothing(
                fs,
                region_steps(cs, RegionReductionMode::Scc),
            );
        },
        SelectedMode::DominatorRegions => {
            lemma_regions(fs, cs, RegionReductionMode::Dominator);
            lemma_regions(once, cs, RegionReductionMode::Dominator);
            rounds::law_a_second_round_changes_nothing(
                fs,
                region_steps(cs, RegionReductionMode::Dominator),
            );
        },
        SelectedMode::CfgRegions => {
            let a = region_steps(cs, RegionReductionMode::Scc);
            let b = region_steps(cs, RegionReductionMode::Dominator);
            let half = graph_metrics::regions_reported(fs, cs, RegionReductionMode::Scc).found;
            lemma_regions(fs, cs, RegionReductionMode::Scc);
            lemma_regions(half, cs, RegionReductionMode::Dominator);
            rounds::lemma_round_in_parts(fs, a, b);
            let again = graph_metrics::regions_reported(once, cs, RegionReductionMode::Scc).found;
            lemma_regions(once, cs, RegionReductionMode::Scc);
            lemma_regions(again, cs, RegionReductionMode::Dominator);
            rounds::lemma_round_in_parts(once, a, b);
            rounds::lemma_parts_say_open(a, b);
            rounds::law_a_second_round_changes_nothing(fs, a + b);
        },
        _ => {},
    }
}

proof fn lemma_ids_go_on(a: Seq<IssueView>, b: Seq<IssueView>, c: Seq<IssueView>)
    requires
        rounds::same_ids(a, b),
        rounds::same_ids(b, c),
    ensures
        rounds::same_ids(a, c),
{
    assert forall|j: int| 0 <= j < a.len() implies (#[trigger] a[j]).id == c[j].id by {
        assert(a[j].id == b[j].id);
        assert(b[j].id == c[j].id);
    }
}

proof fn lemma_detector_keeps_ids(
    first: Seq<IssueView>,
    d: Detector,
    fs: Seq<IssueView>,
    cs: Seq<CrateGraph>,
)
    requires
        rounds::same_ids(first, fs),
    ensures
        rounds::same_ids(first, graph_metrics::detected(d, fs, cs)),
{
    lemma_detected(d, fs, cs);
    rounds::law_a_round_takes_no_issue_away(fs, detector_steps(d, cs));
    lemma_ids_go_on(first, fs, graph_metrics::detected(d, fs, cs));
}

proof fn lemma_fanouts_keep_ids(first: Seq<IssueView>, fs: Seq<IssueView>, cs: Seq<CrateGraph>)
    requires
        rounds::same_ids(first, fs),
    ensures
        rounds::same_ids(first, graph_metrics::fanouts_reported(fs, cs).found),
{
    lemma_fanouts(fs, cs);
    rounds::law_a_round_takes_no_issue_away(fs, fanout_steps(cs));
    lemma_ids_go_on(first, fs, graph_metrics::fanouts_reported(fs, cs).found);
}

proof fn lemma_regions_keep_ids(
    first: Seq<IssueView>,
    fs: Seq<IssueView>,
    cs: Seq<CrateGraph>,
    mode: RegionReductionMode,
)
    requires
        rounds::same_ids(first, fs),
    ensures
        rounds::same_ids(first, graph_metrics::regions_reported(fs, cs, mode).found),
{
    lemma_regions(fs, cs, mode);
    rounds::law_a_round_takes_no_issue_away(fs, region_steps(cs, mode));
    lemma_ids_go_on(first, fs, graph_metrics::regions_reported(fs, cs, mode).found);
}

proof fn lemma_refresh_keeps_ids(
    fs: Seq<IssueView>,
    stats: Seq<BridgeConnectivityStats>,
    analyses: Seq<CrateAnalysis>,
    cs: Seq<CrateGraph>,
)
    ensures
        rounds::same_ids(fs, complexity::refreshed(fs, stats, analyses, cs)),
{
    let ps = stats.map_values(|s: BridgeConnectivityStats| graph_metrics::bridge_report(s));
    let bridged = proposals::upserted_all(fs, ps);
    rounds::lemma_reports_are_a_round(fs, ps);
    rounds::law_a_round_takes_no_issue_away(fs, rounds::report_steps(ps));
    let hot = bridged + inter_complexity::found_over(
        analyses,
        bridged,
        complexity::HOTSPOT_LIMIT,
    );
    let f0 = hot + graph_metrics::cohesion_found(graph_metrics::ids(hot), cs);
    assert forall|j: int| 0 <= j < fs.len() implies (#[trigger] fs[j]).id == f0[j].id by {
        assert(f0[j] == bridged[j]);
    }
    lemma_detector_keeps_ids(fs, Detector::ArtifactWriters, f0, cs);
    let f1 = graph_metrics::detected(Detector::ArtifactWriters, f0, cs);
    lemma_detector_keeps_ids(fs, Detector::ErrorShaping, f1, cs);
    let f2 = graph_metrics::detected(Detector::ErrorShaping, f1, cs);
    lemma_detector_keeps_ids(fs, Detector::StateTransitions, f2, cs);
    let f3 = graph_metrics::detected(Detector::StateTransitions, f2, cs);
    lemma_detector_keeps_ids(fs, Detector::PlannerLoop, f3, cs);
    let f4 = graph_metrics::detected(Detector::PlannerLoop, f3, cs);
    lemma_detector_keeps_ids(fs, Detector::ImplicitStateMachines, f4, cs);
    let f5 = graph_metrics::detected(Detector::ImplicitStateMachines, f4, cs);
    lemma_detector_keeps_ids(fs, Detector::EffectBoundaries, f5, cs);
    let f6 = graph_metrics::detected(Detector::EffectBoundaries, f5, cs);
    lemma_detector_keeps_ids(fs, Detector::Logging, f6, cs);
    let f7 = graph_metrics::detected(Detector::Logging, f6, cs);
    lemma_detector_keeps_ids(fs, Detector::ProcessSpawns, f7, cs);
    let f8 = graph_metrics::detected(Detector::ProcessSpawns, f7, cs);
    lemma_detector_keeps_ids(fs, Detector::NetworkUsage, f8, cs);
    let f9 = graph_metrics::detected(Detector::NetworkUsage, f8, cs);
    lemma_fanouts_keep_ids(fs, f9, cs);
    let f10 = graph_metrics::fanouts_reported(f9, cs).found;
    lemma_regions_keep_ids(fs, f10, cs, RegionReductionMode::Scc);
    let f11 = graph_metrics::regions_reported(f10, cs, RegionReductionMode::Scc).found;
    lemma_regions_keep_ids(fs, f11, cs, RegionReductionMode::Dominator);
}

/// A run takes no issue away: what had a place keeps it, under the same id, whatever the
/// flags are.
pub proof fn law_a_run_takes_no_issue_away(
    mode: SelectedMode,
    fs: Seq<IssueView>,
    stats: Seq<BridgeConnectivityStats>,
    analyses: Seq<CrateAnalysis>,
    cs: Seq<CrateGraph>,
)
    ensures
        rounds::same_ids(fs, generate_issues::after_run(mode, fs, stats, analyses, cs)),
{
    match mode {
        SelectedMode::One(d) => {
            lemma_detector_keeps_ids(fs, d, fs, cs);
        },
        SelectedMode::RepresentationFanout => {
            lemma_fanouts_keep_ids(fs, fs, cs);
        },
        SelectedMode::SccRegions => {
            lemma_regions_keep_ids(fs, fs, cs, RegionReductionMode::Scc);
        },
        SelectedMode::DominatorRegions => {
            lemma_regions_keep_ids(fs, fs, cs, RegionReductionMode::Dominator);
        },
        SelectedMode::CfgRegions => {
            lemma_regions_keep_ids(fs, fs, cs, RegionReductionMode::Scc);
            let half = graph_metrics::regions_reported(fs, cs, RegionReductionMode::Scc).found;
            lemma_regions_keep_ids(fs, half, cs, RegionReductionMode::Dominator);
        },
        SelectedMode::Everything => {
            lemma_refresh_keeps_ids(fs, stats, analyses, cs);
        },
        _ => {},
    }
}

// ---------------------------------------------------------------------------
// Hotspots
// ---------------------------------------------------------------------------

/// The id of an open issue is among those of open issues, and its place among theirs.
proof fn lemma_open_is_listed(fs: Seq<IssueView>, j: int)
    requires
        0 <= j < fs.len(),
        issues::open_issue(fs[j]),
    ensures
        inter_complexity::open_ids(fs).contains(fs[j].id),
        inter_complexity::open_places(fs).contains(fs[j].location),
{
    let open = |f: IssueView| issues::open_issue(f);
    fs.lemma_filter_contains(open, j);
    let kept = fs.filter(open);
    let k = choose|k: int| 0 <= k < kept.len() && kept[k] == fs[j];
    assert(inter_complexity::open_ids(fs)[k] == fs[j].id);
    assert(inter_complexity::open_places(fs)[k] == fs[j].location);
}

/// What is listed of open issues comes from one.
proof fn lemma_listed_is_open(fs: Seq<IssueView>, k: int) -> (j: int)
    requires
        0 <= k < inter_complexity::open_ids(fs).len(),
    ensures
        0 <= j < fs.len(),
        issues::open_issue(fs[j]),
        fs[j].id == inter_complexity::open_ids(fs)[k],
        fs[j].location == inter_complexity::open_places(fs)[k],
    decreases fs.len(),
{
    reveal(Seq::filter);
    let open = |f: IssueView| issues::open_issue(f);
    let before = fs.drop_last().filter(open);
    if k < before.len() {
        let j = lemma_listed_is_open(fs.drop_last(), k);
        assert(fs.filter(open)[k] == before[k]);
        j
    } else {
        fs.len() - 1
    }
}

/// Issues behind others hide no id of an open issue and no place.
proof fn lemma_more_stays_listed(fs: Seq<IssueView>, new: Seq<IssueView>)
    ensures
        forall|id: Seq<char>|
            inter_complexity::open_ids(fs).contains(id) ==> #[trigger] inter_complexity::open_ids(
                fs + new,
            ).contains(id),
        forall|t: Seq<char>|
            inter_complexity::any_holds(inter_complexity::open_places(fs), t)
                ==> #[trigger] inter_complexity::any_holds(
                inter_complexity::open_places(fs + new),
                t,
            ),
        forall|id: Seq<char>|
            graph_metrics::ids(fs).contains(id) ==> #[trigger] graph_metrics::ids(
                fs + new,
            ).contains(id),
{
    let all = fs + new;
    assert forall|id: Seq<char>| inter_complexity::open_ids(fs).contains(
        id,
    ) implies #[trigger] inter_complexity::open_ids(all).contains(id) by {
        let ids = inter_complexity::open_ids(fs);
        let k = choose|k: int| 0 <= k < ids.len() && ids[k] == id;
        let j = lemma_listed_is_open(fs, k);
        assert(all[j] == fs[j]);
        lemma_open_is_listed(all, j);
    }
    assert forall|t: Seq<char>| inter_complexity::any_holds(
        inter_complexity::open_places(fs),
        t,
    ) implies #[trigger] inter_complexity::any_holds(inter_complexity::open_places(all), t) by {
        let places = inter_complexity::open_places(fs);
        let k = choose|k: int| 0 <= k < places.len() && text::has_text(#[trigger] places[k], t);
        let j = lemma_listed_is_open(fs, k);
        assert(all[j] == fs[j]);
        lemma_open_is_listed(all, j);
        let more = inter_complexity::open_places(all);
        let h = choose|h: int| 0 <= h < more.len() && more[h] == fs[j].location;
        assert(text::has_text(more[h], t));
    }
    assert forall|id: Seq<char>| graph_metrics::ids(fs).contains(
        id,
    ) implies #[trigger] graph_metrics::ids(all).contains(id) by {
        let ids = graph_metrics::ids(fs);
        let k = choose|k: int| 0 <= k < ids.len() && ids[k] == id;
        assert(graph_metrics::ids(all)[k] == id);
    }
}

/// What is new is known from then on, by its id.
proof fn lemma_new_is_known(fs: Seq<IssueView>, new: Seq<IssueView>, issue: IssueView)
    requires
        new.contains(issue),
    ensures
        graph_metrics::ids(fs + new).contains(issue.id),
        issues::open_issue(issue) ==> inter_complexity::open_ids(fs + new).contains(issue.id),
{
    let k = choose|k: int| 0 <= k < new.len() && new[k] == issue;
    let all = fs + new;
    assert(all[fs.len() + k] == issue);
    assert(graph_metrics::ids(all)[fs.len() + k] == issue.id);
    if issues::open_issue(issue) {
        lemma_open_is_listed(all, fs.len() + k);
    }
}

/// Nothing is found among hotspots a second time.
proof fn lemma_hotspots_are_known(
    es: Seq<ScoredInterEntry>,
    name: Seq<char>,
    fs: Seq<IssueView>,
    new: Seq<IssueView>,
    n: int,
)
    requires
        0 <= n <= es.len(),
        forall|issue: IssueView|
            inter_complexity::hotspots(
                es,
                name,
                inter_complexity::open_ids(fs),
                inter_complexity::open_places(fs),
                n,
            ).contains(issue) ==> #[trigger] new.contains(issue),
    ensures
        inter_complexity::hotspots(
            es,
            name,
            inter_complexity::open_ids(fs + new),
            inter_complexity::open_places(fs + new),
            n,
        ) == Seq::<IssueView>::empty(),
    decreases n,
{
    if n > 0 {
        let ids = inter_complexity::open_ids(fs);
        let places = inter_complexity::open_places(fs);
        let before = inter_complexity::hotspots(es, name, ids, places, n - 1);
        let found = inter_complexity::hotspots(es, name, ids, places, n);
        assert forall|issue: IssueView| before.contains(issue) implies #[trigger] new.contains(
            issue,
        ) by {
            let k = choose|k: int| 0 <= k < before.len() && before[k] == issue;
            assert(found[k] == issue);
        }
        lemma_hotspots_are_known(es, name, fs, new, n - 1);
        lemma_more_stays_listed(fs, new);
        match inter_complexity::hotspot(es[n - 1], name, ids, places) {
            Some(issue) => {
                assert(found.last() == issue);
                assert(found.contains(issue));
                reveal_strlit("open");
                reveal_strlit("resolved");
                reveal_strlit("wontfix");
                reveal_strlit("closed");
                assert("open"@.len() == 4 && "resolved"@.len() == 8 && "wontfix"@.len() == 7
                    && "closed"@.len() == 6);
                assert(issues::open_issue(issue));
                lemma_new_is_known(fs, new, issue);
            },
            None => {},
        }
    }
}

/// Nothing is found among functions that call themselves a second time.
proof fn lemma_recursions_are_known(
    es: Seq<ScoredInterEntry>,
    name: Seq<char>,
    fs: Seq<IssueView>,
    new: Seq<IssueView>,
    n: int,
)
    requires
        0 <= n <= es.len(),
        forall|issue: IssueView|
            inter_complexity::recursions(es, name, graph_metrics::ids(fs), n).contains(issue)
                ==> #[trigger] new.contains(issue),
    ensures
        inter_complexity::recursions(es, name, graph_metrics::ids(fs + new), n) == Seq::<
            IssueView,
        >::empty(),
    decreases n,
{
    if n > 0 {
        let ids = graph_metrics::ids(fs);
        let before = inter_complexity::recursions(es, name, ids, n - 1);
        let found = inter_complexity::recursions(es, name, ids, n);
        assert forall|issue: IssueView| before.contains(issue) implies #[trigger] new.contains(
            issue,
        ) by {
            let k = choose|k: int| 0 <= k < before.len() && before[k] == issue;
            assert(found[k] == issue);
        }
        lemma_recursions_are_known(es, name, fs, new, n - 1);
        lemma_more_stays_listed(fs, new);
        match inter_complexity::recursion(es[n - 1], name, ids) {
            Some(issue) => {
                assert(found.last() == issue);
                assert(found.contains(issue));
                lemma_new_is_known(fs, new, issue);
            },
            None => {},
        }
    }
}

/// Nothing is found among bodies that occur twice a second time.
proof fn lemma_duplications_are_known(
    gs: Seq<Seq<Seq<char>>>,
    fs: Seq<IssueView>,
    new: Seq<IssueView>,
    n: int,
)
    requires
        0 <= n <= gs.len(),
        forall|issue: IssueView|
            inter_complexity::duplications(gs, graph_metrics::ids(fs), n).contains(issue)
                ==> #[trigger] new.contains(issue),
    ensures
        inter_complexity::duplications(gs, graph_metrics::ids(fs + new), n) == Seq::<
            IssueView,
        >::empty(),
    decreases n,
{
    if n > 0 {
        let ids = graph_metrics::ids(fs);
        let before = inter_complexity::duplications(gs, ids, n - 1);
        let found = inter_complexity::duplications(gs, ids, n);
        assert forall|issue: IssueView| before.contains(issue) implies #[trigger] new.contains(
            issue,
        ) by {
            let k = choose|k: int| 0 <= k < before.len() && before[k] == issue;
            assert(found[k] == issue);
        }
        lemma_duplications_are_known(gs, fs, new, n - 1);
        lemma_more_stays_listed(fs, new);
        match inter_complexity::duplication(gs[n - 1], ids) {
            Some(issue) => {
                assert(found.last() == issue);
                assert(found.contains(issue));
                lemma_new_is_known(fs, new, issue);
            },
            None => {},
        }
    }
}

/// What is found in some crates is known once all of it was added.
proof fn lemma_found_is_known(
    cs: Seq<CrateAnalysis>,
    fs: Seq<IssueView>,
    new: Seq<IssueView>,
    top: usize,
)
    requires
        forall|issue: IssueView|
            inter_complexity::found_over(cs, fs, top).contains(issue) ==> #[trigger] new.contains(
                issue,
            ),
    ensures
        inter_complexity::found_over(cs, fs + new, top) == Seq::<IssueView>::empty(),
    decreases cs.len(),
{
    if cs.len() > 0 {
        let a = cs.last();
        let es = a.entries@;
        let gs = inter_complexity::lists(a.duplicate_groups@);
        let n = if es.len() <= top {
            es.len() as int
        } else {
            top as int
        };
        let before = inter_complexity::found_over(cs.drop_last(), fs, top);
        let hot = inter_complexity::hotspots(
            es,
            a.name@,
            inter_complexity::open_ids(fs),
            inter_complexity::open_places(fs),
            n,
        );
        let known = graph_metrics::ids(fs);
        let loops = inter_complexity::recursions(es, a.name@, known, es.len() as int);
        let twins = inter_complexity::duplications(gs, known, gs.len() as int);
        let found = inter_complexity::found_over(cs, fs, top);
        assert(found =~= before + (hot + loops + twins));
        assert forall|issue: IssueView|
            before.contains(issue) || hot.contains(issue) || loops.contains(issue)
                || twins.contains(issue) implies #[trigger] new.contains(issue) by {
            if before.contains(issue) {
                let k = choose|k: int| 0 <= k < before.len() && before[k] == issue;
                assert(found[k] == issue);
            } else if hot.contains(issue) {
                let k = choose|k: int| 0 <= k < hot.len() && hot[k] == issue;
                assert(found[before.len() + k] == issue);
            } else if loops.contains(issue) {
                let k = choose|k: int| 0 <= k < loops.len() && loops[k] == issue;
                assert(found[before.len() + hot.len() + k] == issue);
            } else {
                let k = choose|k: int| 0 <= k < twins.len() && twins[k] == issue;
                assert(found[before.len() + hot.len() + loops.len() + k] == issue);
            }
        }
        lemma_found_is_known(cs.drop_last(), fs, new, top);
        lemma_hotspots_are_known(es, a.name@, fs, new, n);
        lemma_recursions_are_known(es, a.name@, fs, new, es.len() as int);
        lemma_duplications_are_known(gs, fs, new, gs.len() as int);
        assert(inter_complexity::found_over(cs, fs + new, top) =~= Seq::<IssueView>::empty());
    }
}

/// What the analyses show is reported once: a second run over them adds no issue.
pub proof fn law_hotspots_are_reported_once(
    fs: Seq<IssueView>,
    analyses: Seq<CrateAnalysis>,
    top: usize,
)
    ensures
        ({
            let once = fs + inter_complexity::found_over(analyses, fs, top);
            once + inter_complexity::found_over(analyses, once, top) == once
        }),
{
    let new = inter_complexity::found_over(analyses, fs, top);
    lemma_found_is_known(analyses, fs, new, top);
    assert(fs + new + Seq::<IssueView>::empty() =~= fs + new);
}

// ---------------------------------------------------------------------------
// Regions of two kinds
// ---------------------------------------------------------------------------

/// The id of the issue on a function's region.
pub open spec fn region_id(crate_name: Seq<char>, symbol: Seq<char>, mode: RegionReductionMode) -> Seq<
    char,
> {
    let hash = text::text_hash(crate_name + ":"@ + symbol);
    (match mode {
        RegionReductionMode::Scc => "auto_scc_region_reduction_"@,
        RegionReductionMode::Dominator => "auto_dominator_region_reduction_"@,
    }) + text::identifier_fragment(crate_name) + "_"@ + text::dec(hash as nat)
}

/// The region of a function should be reduced.
pub open spec fn qualifies(c: CrateGraph, s: SymbolSummary, mode: RegionReductionMode) -> bool {
    &&& s.kind@ == "fn"@
    &&& graph_metrics::region_of(
        graph_metrics::crate_id(c.name@),
        s,
        graph_metrics::back_edges_of(c.graph.back_edges@, s.symbol@),
        complexity::occurrences(text::texts(c.graph.redundant_path_owners@), s.symbol@) as usize,
        mode,
    ) is Some
}

/// The region of the function at `i` should be reduced, and the id is that of its issue.
pub open spec fn bears(c: CrateGraph, i: int, mode: RegionReductionMode, id: Seq<char>) -> bool {
    let s = c.graph.summaries@[i];
    &&& 0 <= i < c.graph.summaries@.len()
    &&& qualifies(c, s, mode)
    &&& id == region_id(graph_metrics::crate_id(c.name@), s.symbol@, mode)
}

/// A function of one of the crates bears the id.
pub open spec fn borne(cs: Seq<CrateGraph>, mode: RegionReductionMode, id: Seq<char>) -> bool {
    exists|a: int, i: int| 0 <= a < cs.len() && #[trigger] bears(cs[a], i, mode, id)
}

/// A function of a crate bears the id.
spec fn borne_in(c: CrateGraph, mode: RegionReductionMode, id: Seq<char>) -> bool {
    exists|i: int| #[trigger] bears(c, i, mode, id)
}

proof fn lemma_regions_are_borne(c: CrateGraph, mode: RegionReductionMode, n: int)
    requires
        0 <= n <= c.graph.summaries@.len(),
    ensures
        ({
            let found = graph_metrics::regions_over(
                graph_metrics::crate_id(c.name@),
                c.graph,
                mode,
                c.graph.summaries@.take(n),
            );
            forall|k: int|
                0 <= k < found.len() ==> borne_in(c, mode, (#[trigger] found[k]).0.id)
        }),
    decreases n,
{
    if n > 0 {
        let name = graph_metrics::crate_id(c.name@);
        let ss = c.graph.summaries@;
        lemma_regions_are_borne(c, mode, n - 1);
        assert(ss.take(n).drop_last() =~= ss.take(n - 1));
        assert(ss.take(n).last() == ss[n - 1]);
        let before = graph_metrics::regions_over(name, c.graph, mode, ss.take(n - 1));
        let found = graph_metrics::regions_over(name, c.graph, mode, ss.take(n));
        assert forall|k: int| 0 <= k < found.len() implies borne_in(
            c,
            mode,
            (#[trigger] found[k]).0.id,
        ) by {
            if k < before.len() {
                assert(found[k] == before[k]);
            } else {
                assert(bears(c, n - 1, mode, found[k].0.id));
            }
        }
    }
}

proof fn lemma_region_reports_are_borne(c: CrateGraph, mode: RegionReductionMode)
    ensures
        ({
            let ps = graph_metrics::region_reports(
                graph_metrics::crate_id(c.name@),
                c.graph,
                mode,
            );
            forall|k: int| 0 <= k < ps.len() ==> borne_in(c, mode, (#[trigger] ps[k]).0.id)
        }),
{
    let name = graph_metrics::crate_id(c.name@);
    let ss = c.graph.summaries@;
    let found = graph_metrics::regions_over(name, c.graph, mode, ss);
    let le = |a: (IssueView, u128), b: (IssueView, u128)|
        graph_metrics::RegionCandidate::rank_le(a, b);
    let held = |p: (IssueView, u128)| borne_in(c, mode, p.0.id);
    lemma_regions_are_borne(c, mode, ss.len() as int);
    assert(ss.take(ss.len() as int) =~= ss);
    assert forall|i: int| 0 <= i < found.len() implies held(#[trigger] found[i]) by {}
    order::lemma_sorted_keeps(found, le, held);
    let top = graph_metrics::top_regions(name, c.graph, mode);
    let ps = graph_metrics::region_reports(name, c.graph, mode);
    assert forall|k: int| 0 <= k < ps.len() implies borne_in(c, mode, (#[trigger] ps[k]).0.id) by {
        assert(ps[k] == (top[k].0, true));
        assert(top[k] == order::stable_sorted(found, le)[k]);
        assert(held(order::stable_sorted(found, le)[k]));
    }
}

proof fn lemma_borne_by_more(cs: Seq<CrateGraph>, mode: RegionReductionMode, id: Seq<char>)
    requires
        cs.len() > 0,
        borne(cs.drop_last(), mode, id) || borne_in(cs.last(), mode, id),
    ensures
        borne(cs, mode, id),
{
    let front = cs.drop_last();
    if borne(front, mode, id) {
        let (a, i) = choose|a: int, i: int|
            0 <= a < front.len() && #[trigger] bears(front[a], i, mode, id);
        assert(bears(cs[a], i, mode, id));
    } else {
        let i = choose|i: int| #[trigger] bears(cs.last(), i, mode, id);
        assert(bears(cs[cs.len() - 1], i, mode, id));
    }
}

/// What a search for regions reports and keeps is borne.
proof fn lemma_reported_is_borne(cs: Seq<CrateGraph>, mode: RegionReductionMode, id: Seq<char>)
    requires
        !borne(cs, mode, id),
    ensures
        rounds::unreported(region_steps(cs, mode), id),
        !region_kept(cs, mode).contains(id),
    decreases cs.len(),
{
    if cs.len() > 0 {
        let c = cs.last();
        let name = graph_metrics::crate_id(c.name@);
        let ps = graph_metrics::region_reports(name, c.graph, mode);
        if borne(cs.drop_last(), mode, id) || borne_in(c, mode, id) {
            lemma_borne_by_more(cs, mode, id);
        }
        lemma_reported_is_borne(cs.drop_last(), mode, id);
        lemma_region_reports_are_borne(c, mode);
        let a = region_steps(cs.drop_last(), mode);
        let b = rounds::report_steps(ps);
        let steps = region_steps(cs, mode);
        assert forall|i: int| 0 <= i < steps.len() implies ((
        #[trigger] steps[i]) matches Step::Report(issue, _) ==> issue.id != id) by {
            if i < a.len() {
                assert(steps[i] == a[i]);
            } else if i < a.len() + b.len() {
                let k = i - a.len();
                assert(steps[i] == b[k]);
                assert(b[k] == Step::Report(ps[k].0, ps[k].1));
            }
        }
        let before = region_kept(cs.drop_last(), mode);
        let kept = region_kept(cs, mode);
        if kept.contains(id) {
            let k = choose|k: int| 0 <= k < kept.len() && kept[k] == id;
            if k < before.len() {
                assert(before[k] == id);
            } else {
                assert(ps[k - before.len()].0.id == id);
            }
            assert(false);
        }
    }
}

/// The family of a crate is resolved at one step of a search for regions.
proof fn lemma_family_is_resolved(cs: Seq<CrateGraph>, mode: RegionReductionMode, k: int) -> (p: int)
    requires
        0 <= k < cs.len(),
    ensures
        0 <= p < region_steps(cs, mode).len(),
        region_steps(cs, mode)[p] == Step::Resolve(
            graph_metrics::region_family(graph_metrics::crate_id(cs[k].name@), mode),
            region_kept(cs.take(k + 1), mode),
        ),
    decreases cs.len(),
{
    let a = region_steps(cs.drop_last(), mode);
    if k == cs.len() - 1 {
        let ps = graph_metrics::region_reports(
            graph_metrics::crate_id(cs.last().name@),
            cs.last().graph,
            mode,
        );
        assert(cs.take(k + 1) =~= cs);
        (a.len() + rounds::report_steps(ps).len()) as int
    } else {
        let p = lemma_family_is_resolved(cs.drop_last(), mode, k);
        assert(cs.drop_last().take(k + 1) =~= cs.take(k + 1));
        assert(region_steps(cs, mode)[p] == a[p]);
        p
    }
}

proof fn lemma_borne_by_fewer(cs: Seq<CrateGraph>, mode: RegionReductionMode, id: Seq<char>, n: int)
    requires
        0 <= n <= cs.len(),
        borne(cs.take(n), mode, id),
    ensures
        borne(cs, mode, id),
{
    let (a, i) = choose|a: int, i: int|
        0 <= a < cs.take(n).len() && #[trigger] bears(cs.take(n)[a], i, mode, id);
    assert(bears(cs[a], i, mode, id));
}

/// After a search for regions no issue is open under an id that no function whose region
/// should be reduced bears: what stopped qualifying is resolved. The name of the crate is
/// one that ids keep as it is.
pub proof fn law_what_stopped_qualifying_is_resolved(
    fs: Seq<IssueView>,
    cs: Seq<CrateGraph>,
    mode: RegionReductionMode,
    k: int,
    symbol: Seq<char>,
)
    requires
        0 <= k < cs.len(),
        ({
            let name = graph_metrics::crate_id(cs[k].name@);
            &&& text::identifier_fragment(name) == name
            &&& !borne(cs, mode, region_id(name, symbol, mode))
        }),
    ensures
        rounds::none_open(
            graph_metrics::regions_reported(fs, cs, mode).found,
            region_id(graph_metrics::crate_id(cs[k].name@), symbol, mode),
        ),
{
    let name = graph_metrics::crate_id(cs[k].name@);
    let id = region_id(name, symbol, mode);
    let prefix = graph_metrics::region_family(name, mode);
    lemma_regions(fs, cs, mode);
    let p = lemma_family_is_resolved(cs, mode, k);
    lemma_reported_is_borne(cs, mode, id);
    if borne(cs.take(k + 1), mode, id) {
        lemma_borne_by_fewer(cs, mode, id, k + 1);
    }
    lemma_reported_is_borne(cs.take(k + 1), mode, id);
    assert(id.take(prefix.len() as int) =~= prefix);
    assert(id.subrange(0, prefix.len() as int) =~= prefix);
    rounds::lemma_family_is_closed(fs, region_steps(cs, mode), p, id);
}

/// No function but the given one, of the crate at `k`, bears its id: no two names of crates
/// and no two hashes fall together.
pub open spec fn told_apart(
    cs: Seq<CrateGraph>,
    k: int,
    symbol: Seq<char>,
    mode: RegionReductionMode,
) -> bool {
    let id = region_id(graph_metrics::crate_id(cs[k].name@), symbol, mode);
    forall|a: int, i: int|
        0 <= a < cs.len() && 0 <= i < cs[a].graph.summaries@.len() && region_id(
            graph_metrics::crate_id(cs[a].name@),
            (#[trigger] cs[a].graph.summaries@[i]).symbol@,
            mode,
        ) == id ==> a == k && cs[a].graph.summaries@[i].symbol@ == symbol
}

/// After both searches for regions, no function has an open issue of both kinds, whatever
/// issues there were before: a loop-heavy region has back edges, a dispatching one has
/// none. The name of the crate is one that ids keep as it is, and the ids tell functions
/// apart.
pub proof fn law_no_function_has_regions_of_both_kinds(
    fs: Seq<IssueView>,
    cs: Seq<CrateGraph>,
    k: int,
    symbol: Seq<char>,
)
    requires
        0 <= k < cs.len(),
        text::identifier_fragment(graph_metrics::crate_id(cs[k].name@))
            == graph_metrics::crate_id(cs[k].name@),
        told_apart(cs, k, symbol, RegionReductionMode::Scc),
        told_apart(cs, k, symbol, RegionReductionMode::Dominator),
    ensures
        ({
            let name = graph_metrics::crate_id(cs[k].name@);
            let half = graph_metrics::regions_reported(fs, cs, RegionReductionMode::Scc).found;
            let end = graph_metrics::regions_reported(
                half,
                cs,
                RegionReductionMode::Dominator,
            ).found;
            ||| rounds::none_open(end, region_id(name, symbol, RegionReductionMode::Scc))
            ||| rounds::none_open(end, region_id(name, symbol, RegionReductionMode::Dominator))
        }),
{
    let name = graph_metrics::crate_id(cs[k].name@);
    let half = graph_metrics::regions_reported(fs, cs, RegionReductionMode::Scc).found;
    let scc = region_id(name, symbol, RegionReductionMode::Scc);
    let dominator = region_id(name, symbol, RegionReductionMode::Dominator);
    if !borne(cs, RegionReductionMode::Dominator, dominator) {
        law_what_stopped_qualifying_is_resolved(half, cs, RegionReductionMode::Dominator, k, symbol);
    } else {
        let (a, i) = choose|a: int, i: int|
            0 <= a < cs.len() && #[trigger] bears(cs[a], i, RegionReductionMode::Dominator, dominator);
        assert(cs[a].graph.summaries@[i].symbol@ == symbol);
        if borne(cs, RegionReductionMode::Scc, scc) {
            let (b, j) = choose|b: int, j: int|
                0 <= b < cs.len() && #[trigger] bears(cs[b], j, RegionReductionMode::Scc, scc);
            assert(cs[b].graph.summaries@[j].symbol@ == symbol);
            assert(false);
        }
        law_what_stopped_qualifying_is_resolved(fs, cs, RegionReductionMode::Scc, k, symbol);
        reveal_strlit("auto_scc_region_reduction_");
        reveal_strlit("auto_dominator_region_reduction_");
        assert(scc[5] == 's');
        if borne(cs, RegionReductionMode::Dominator, scc) {
            let (b, j) = choose|b: int, j: int|
                0 <= b < cs.len() && #[trigger] bears(cs[b], j, RegionReductionMode::Dominator, scc);
            let other = region_id(
                graph_metrics::crate_id(cs[b].name@),
                cs[b].graph.summaries@[j].symbol@,
                RegionReductionMode::Dominator,
            );
            assert(other[5] == 'd');
            assert(false);
        }
        lemma_reported_is_borne(cs, RegionReductionMode::Dominator, scc);
        lemma_regions(half, cs, RegionReductionMode::Dominator);
        rounds::lemma_none_opens(half, region_steps(cs, RegionReductionMode::Dominator), scc);
    }
}

} // verus!
