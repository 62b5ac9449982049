//! Which detectors a run of the issue generator goes through.

use crate::complexity;
use crate::complexity::refresh_issue_artifacts;
use crate::flags::has_flag;
use crate::graph_issues::BridgeConnectivityStats;
use crate::graph_metrics;
use crate::graph_metrics::{
    generate_dominator_region_reduction_issues, generate_representation_fanout_issues,
    generate_scc_region_reduction_issues, run_detector, CrateGraph, Detector, RegionReductionMode,
};
use crate::inter_complexity::CrateAnalysis;
use crate::issues;
use crate::issues::{Issue, IssueView};
use crate::text;
use vstd::prelude::*;

verus! {

/// What a run does.
#[derive(Debug, Clone, Copy, PartialEq, Eq, Structural)]
pub enum SelectedMode {
    GraphComplexityReport,
    GraphSnapshot,
    GraphDelta,
    One(Detector),
    RepresentationFanout,
    CfgRegions,
    SccRegions,
    DominatorRegions,
    AlphaPathways,
    Everything,
}

/// What a run does, by the first of its flags that counts.
pub open spec fn mode_of(args: Seq<Seq<char>>) -> SelectedMode {
    if args.contains("--graph-complexity-only"@) {
        SelectedMode::GraphComplexityReport
    } else if args.contains("--graph-verify-snapshot"@) {
        SelectedMode::GraphSnapshot
    } else if args.contains("--graph-verify-delta"@) {
        SelectedMode::GraphDelta
    } else if args.contains("--artifact-writer-only"@) {
        SelectedMode::One(Detector::ArtifactWriters)
    } else if args.contains("--error-shaping-only"@) {
        SelectedMode::One(Detector::ErrorShaping)
    } else if args.contains("--state-transition-only"@) {
        SelectedMode::One(Detector::StateTransitions)
    } else if args.contains("--planner-loop-only"@) {
        SelectedMode::One(Detector::PlannerLoop)
    } else if args.contains("--implicit-state-machine-only"@) {
        SelectedMode::One(Detector::ImplicitStateMachines)
    } else if args.contains("--effect-boundary-only"@) {
        SelectedMode::One(Detector::EffectBoundaries)
    } else if args.contains("--logging-dispersion-only"@) {
        SelectedMode::One(Detector::Logging)
    } else if args.contains("--process-spawn-only"@) {
        SelectedMode::One(Detector::ProcessSpawns)
    } else if args.contains("--network-usage-only"@) {
        SelectedMode::One(Detector::NetworkUsage)
    } else if args.contains("--representation-fanout-only"@) {
        SelectedMode::RepresentationFanout
    } else if args.contains("--cfg-region-only"@) {
        SelectedMode::CfgRegions
    } else if args.contains("--scc-region-only"@) {
        SelectedMode::SccRegions
    } else if args.contains("--dominator-region-only"@) {
        SelectedMode::DominatorRegions
    } else if args.contains("--alpha-only"@) {
        SelectedMode::AlphaPathways
    } else {
        SelectedMode::Everything
    }
}

/// What a run does, by the first of its flags that counts.
pub fn select_mode(args: &Vec<String>) -> (r: SelectedMode)
    ensures
        r == mode_of(text::texts(args@)),
{
    if has_flag(args, "--graph-complexity-only") {
        SelectedMode::GraphComplexityReport
    } else if has_flag(args, "--graph-verify-snapshot") {
        SelectedMode::GraphSnapshot
    } else if has_flag(args, "--graph-verify-delta") {
        SelectedMode::GraphDelta
    } else if has_flag(args, "--artifact-writer-only") {
        SelectedMode::One(Detector::ArtifactWriters)
    } else if has_flag(args, "--error-shaping-only") {
        SelectedMode::One(Detector::ErrorShaping)
    } else if has_flag(args, "--state-transition-only") {
        SelectedMode::One(Detector::StateTransitions)
    } else if has_flag(args, "--planner-loop-only") {
        SelectedMode::One(Detector::PlannerLoop)
    } else if has_flag(args, "--implicit-state-machine-only") {
        SelectedMode::One(Detector::ImplicitStateMachines)
    } else if has_flag(args, "--effect-boundary-only") {
        SelectedMode::One(Detector::EffectBoundaries)
    } else if has_flag(args, "--logging-dispersion-only") {
        SelectedMode::One(Detector::Logging)
    } else if has_flag(args, "--process-spawn-only") {
        SelectedMode::One(Detector::ProcessSpawns)
    } else if has_flag(args, "--network-usage-only") {
        SelectedMode::One(Detector::NetworkUsage)
    } else if has_flag(args, "--representation-fanout-only") {
        SelectedMode::RepresentationFanout
    } else if has_flag(args, "--cfg-region-only") {
        SelectedMode::CfgRegions
    } else if has_flag(args, "--scc-region-only") {
        SelectedMode::SccRegions
    } else if has_flag(args, "--dominator-region-only") {
        SelectedMode::DominatorRegions
    } else if has_flag(args, "--alpha-only") {
        SelectedMode::AlphaPathways
    } else {
        SelectedMode::Everything
    }
}

/// The issues after a run. Reports and the analysis of pathways leave them to
/// others.
pub open spec fn after_run(
    mode: SelectedMode,
    fs: Seq<IssueView>,
    stats: Seq<BridgeConnectivityStats>,
    analyses: Seq<CrateAnalysis>,
    cs: Seq<CrateGraph>,
) -> Seq<IssueView> {
    match mode {
        SelectedMode::One(d) => graph_metrics::detected(d, fs, cs),
        SelectedMode::RepresentationFanout => graph_metrics::fanouts_reported(fs, cs).found,
        SelectedMode::CfgRegions => {
            let f = graph_metrics::regions_reported(fs, cs, RegionReductionMode::Scc).found;
            graph_metrics::regions_reported(f, cs, RegionReductionMode::Dominator).found
        },
        SelectedMode::SccRegions => graph_metrics::regions_reported(
            fs,
            cs,
            RegionReductionMode::Scc,
        ).found,
        SelectedMode::DominatorRegions => graph_metrics::regions_reported(
            fs,
            cs,
            RegionReductionMode::Dominator,
        ).found,
        SelectedMode::Everything => complexity::refreshed(fs, stats, analyses, cs),
        _ => fs,
    }
}

/// Runs the detectors that a mode names.
pub fn run_mode(
    mode: SelectedMode,
    issues: &mut Vec<Issue>,
    stats: &Vec<BridgeConnectivityStats>,
    analyses: &Vec<CrateAnalysis>,
    crates: &Vec<CrateGraph>,
)
    ensures
        issues::findings(final(issues)@) == after_run(
            mode,
            issues::findings(old(issues)@),
            stats@,
            analyses@,
            crates@,
        ),
{
    match mode {
        SelectedMode::One(d) => {
            let _ = run_detector(d, issues, crates);
        },
        SelectedMode::RepresentationFanout => {
            let _ = generate_representation_fanout_issues(issues, crates);
        },
        SelectedMode::CfgRegions => {
            let _ = generate_scc_region_reduction_issues(issues, crates);
            let _ = generate_dominator_region_reduction_issues(issues, crates);
        },
        SelectedMode::SccRegions => {
            let _ = generate_scc_region_reduction_issues(issues, crates);
        },
        SelectedMode::DominatorRegions => {
            let _ = generate_dominator_region_reduction_issues(issues, crates);
        },
        SelectedMode::Everything => {
            refresh_issue_artifacts(issues, stats, analyses, crates);
        },
        _ => {},
    }
}

/// Does what the flags of a run ask for. Says which mode that is.
pub fn run_selected_mode(
    args: &Vec<String>,
    issues: &mut Vec<Issue>,
    stats: &Vec<BridgeConnectivityStats>,
    analyses: &Vec<CrateAnalysis>,
    crates: &Vec<CrateGraph>,
) -> (r: SelectedMode)
    ensures
        r == mode_of(text::texts(args@)),
        issues::findings(final(issues)@) == after_run(
            mode_of(text::texts(args@)),
            issues::findings(old(issues)@),
            stats@,
            analyses@,
            crates@,
        ),
{
    let mode = select_mode(args);
    run_mode(mode, issues, stats, analyses, crates);
    mode
}

/// A report leaves the issues as they are, whatever other flags are given.
pub proof fn law_a_report_changes_no_issue(
    args: Seq<Seq<char>>,
    fs: Seq<IssueView>,
    stats: Seq<BridgeConnectivityStats>,
    analyses: Seq<CrateAnalysis>,
    cs: Seq<CrateGraph>,
)
    requires
        args.contains("--graph-complexity-only"@) || args.contains("--graph-verify-snapshot"@)
            || args.contains("--graph-verify-delta"@),
    ensures
        after_run(mode_of(args), fs, stats, analyses, cs) == fs,
{
}

} // verus!
