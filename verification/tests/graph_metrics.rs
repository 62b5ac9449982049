use canon_mini_agent::graph_issues::{
    issue_id, priority_from_ratio, BridgeConnectivityStats,
};
use canon_mini_agent::graph_metrics::{
    analyze_bridge_connectivity, generate_artifact_writer_dispersion_issues,
    generate_bridge_connectivity_issues, generate_dominator_region_reduction_issues,
    generate_effect_boundary_leak_issues, generate_error_shaping_dispersion_issues,
    generate_implicit_state_machine_issues, generate_logging_dispersion_issues,
    generate_module_cohesion_issues, generate_network_usage_dispersion_issues,
    generate_planner_loop_fragmentation_issues, generate_process_spawn_dispersion_issues,
    generate_representation_fanout_issues, generate_scc_region_reduction_issues,
    generate_state_transition_dispersion_issues, module_cohesion, CrateGraph,
};
use canon_mini_agent::issues::Issue;
use canon_mini_agent::json::{get, get_text, Json};
use canon_mini_agent::semantic::{
    BackEdges, Edge, GraphCounts, RatioText, RelationEdge, SemanticGraph, SymbolSummary,
};
use canon_mini_agent::text::sanitize_fragment;

fn ratio_text(value: f64) -> RatioText {
    RatioText { two_places: format!("{value:.2}"), number: format!("{value}") }
}

fn summary(symbol: &str) -> SymbolSummary {
    SymbolSummary {
        symbol: symbol.to_string(),
        kind: "fn".to_string(),
        file: format!("src/{}.rs", symbol.replace("::", "_")),
        display_file: format!("src/{}.rs", symbol.replace("::", "_")),
        line: 1,
        signature: Some("()".to_string()),
        mir_fingerprint: Some(format!("fp_{symbol}")),
        mir_blocks: Some(1),
        mir_stmts: Some(1),
        call_in: 0,
        call_out: 0,
        branch_half_points: Some(0),
        is_directly_recursive: false,
        switchint_count: 0,
        has_back_edges: false,
        switchint_density: ratio_text(0.0),
        non_cleanup_fraction: ratio_text(1.0),
    }
}

fn edge(from: &str, to: &str) -> Edge {
    Edge { from: from.to_string(), to: to.strip_prefix("path::").unwrap_or(to).to_string() }
}

fn graph(symbols: &[&str], edges: &[(&str, &str, &str)]) -> SemanticGraph {
    let of = |relation: &str| -> Vec<Edge> {
        edges.iter().filter(|e| e.0.eq_ignore_ascii_case(relation)).map(|e| edge(e.1, e.2)).collect()
    };
    let mut call_edges = of("call");
    call_edges.extend(of("calls"));
    let mut summaries: Vec<SymbolSummary> = symbols.iter().map(|s| summary(s)).collect();
    for s in summaries.iter_mut() {
        s.call_in = call_edges.iter().filter(|e| e.to == s.symbol).count();
        s.call_out = call_edges.iter().filter(|e| e.from == s.symbol).count();
    }
    SemanticGraph {
        summaries,
        call_edges,
        bridge_edges: Vec::new(),
        artifact_writes: of("WritesArtifact"),
        artifact_reads: of("ReadsArtifact"),
        state_writes: of("WritesState"),
        state_reads: of("ReadsState"),
        state_transitions: of("TransitionsState"),
        workflow_domains: of("TouchesWorkflowDomain"),
        error_shapes: of("ShapesError"),
        loggers: of("PerformsLogging"),
        process_spawners: of("SpawnsProcess"),
        network_users: of("UsesNetwork"),
        transition_coordinators: of("CoordinatesTransition"),
        redundant_path_owners: Vec::new(),
        alpha_pathways: Vec::new(),
        back_edges: Vec::new(),
        counts: GraphCounts {
            nodes: symbols.len(),
            bridge_edges: 0,
            semantic_edges: edges.len(),
            cfg_nodes: 0,
            cfg_edges: 0,
        },
    }
}

fn crates(graph: SemanticGraph) -> Vec<CrateGraph> {
    vec![CrateGraph { name: "canon_mini_agent".to_string(), graph, cohesion_ratios: Vec::new() }]
}

fn bridged(symbols: &[&str], calls: &[(&str, &str)]) -> SemanticGraph {
    let mut g = graph(symbols, &[]);
    g.bridge_edges = calls
        .iter()
        .enumerate()
        .map(|(idx, (from, to))| RelationEdge {
            relation: "Call".to_string(),
            from: format!("{from}::{idx}"),
            to: to.to_string(),
        })
        .collect();
    g.counts.bridge_edges = calls.len();
    g
}

fn stats(crate_name: &str, g: &SemanticGraph) -> BridgeConnectivityStats {
    let ratio = g.counts.bridge_edges as f64 / g.counts.nodes.max(1) as f64;
    analyze_bridge_connectivity(crate_name, g, ratio_text(ratio), None)
}

fn many<'a>(from: &'a [String], to: &'a str) -> Vec<(&'a str, &'a str)> {
    from.iter().map(|f| (f.as_str(), to)).collect()
}

fn blocks(module: &str, n: usize) -> Vec<String> {
    (0..n).map(|i| format!("cfg::{module}::bb{i}")).collect()
}

fn find<'a>(issues: &'a [Issue], prefix: &str) -> &'a Issue {
    issues.iter().find(|issue| issue.id.starts_with(prefix)).expect("issue")
}

fn count(issue: &Issue, key: &str) -> Option<u64> {
    match get(&issue.metrics, key) {
        Some(Json::Uint(n)) => Some(*n),
        _ => None,
    }
}

fn text<'a>(issue: &'a Issue, key: &str) -> Option<&'a str> {
    get_text(&issue.metrics, key)
}

fn flag(issue: &Issue, key: &str) -> Option<bool> {
    match get(&issue.metrics, key) {
        Some(Json::Bool(b)) => Some(*b),
        _ => None,
    }
}

#[test]
fn issue_id_is_stable_and_sanitized() {
    assert_eq!(
        issue_id("canon-mini-agent"),
        "graph_bridge_connectivity_canon_mini_agent"
    );
    assert_eq!(sanitize_fragment("a/b:c"), "a_b_c");
}

#[test]
fn ratio_threshold_bands_are_reasonable() {
    assert_eq!(priority_from_ratio(22, 1), "high");
    assert_eq!(priority_from_ratio(10, 1), "medium");
    assert_eq!(priority_from_ratio(2, 1), "low");
}

#[test]
fn analyze_uses_bridge_call_edges_for_candidate_ranking() {
    let g = bridged(
        &["foo::hot", "foo::cool"],
        &[
            ("cfg::foo::bb0", "foo::hot"),
            ("cfg::foo::bb1", "foo::hot"),
            ("cfg::foo::bb2", "foo::hot"),
            ("cfg::foo::bb3", "foo::cool"),
        ],
    );

    let stats = stats("canon_mini_agent", &g);
    assert_eq!(stats.bridge_edge_count, 4);
    let ranked: Vec<(&str, usize)> =
        stats.candidate_functions.iter().map(|c| (c.symbol.as_str(), c.calls)).collect();
    assert_eq!(ranked[0], ("foo::hot", 3));
    assert_eq!(ranked[1], ("foo::cool", 1));
}

#[test]
fn generator_opens_and_resolves_without_duplication() {
    let mut issues: Vec<Issue> = Vec::new();
    let from = blocks("foo", 12);
    let dense = bridged(&["foo::hot"], &many(&from, "foo::hot"));

    assert!(generate_bridge_connectivity_issues(&mut issues, &vec![stats("canon_mini_agent", &dense)]) > 0);
    assert_eq!(issues.len(), 1);
    assert_eq!(issues[0].status, "open");

    let sparse = bridged(&["foo::hot"], &[]);
    assert!(generate_bridge_connectivity_issues(&mut issues, &vec![stats("canon_mini_agent", &sparse)]) > 0);
    assert_eq!(issues.len(), 1);
    assert_eq!(issues[0].status, "resolved");

    assert_eq!(
        generate_bridge_connectivity_issues(&mut issues, &vec![stats("canon_mini_agent", &sparse)]),
        0
    );
    assert_eq!(issues.len(), 1);
    assert_eq!(issues[0].status, "resolved");
}

#[test]
fn missing_graph_is_a_noop() {
    let mut issues: Vec<Issue> = Vec::new();
    assert_eq!(generate_bridge_connectivity_issues(&mut issues, &Vec::new()), 0);
    assert!(issues.is_empty(), "no issues should be written when the graph is missing");
}

#[test]
fn artifact_writer_dispersion_emits_issue_for_shared_artifact_domain() {
    let g = graph(
        &["logging::persist_prompt_overflow_report", "tools::save_violations"],
        &[
            ("WritesArtifact", "logging::persist_prompt_overflow_report", "path::artifact::VIOLATIONS_FILE"),
            ("WritesArtifact", "tools::save_violations", "path::artifact::VIOLATIONS_FILE"),
        ],
    );
    let mut issues: Vec<Issue> = Vec::new();

    assert!(generate_artifact_writer_dispersion_issues(&mut issues, &crates(g)) > 0);
    let issue = find(&issues, "auto_artifact_writer_dispersion_");
    assert_eq!(issue.status, "open");
    assert_eq!(count(issue, "writer_count"), Some(2));
    assert_eq!(text(issue, "display_artifact"), Some("VIOLATIONS_FILE"));
}

#[test]
fn error_shaping_dispersion_emits_issue_for_shared_styles() {
    let g = graph(
        &["semantic::SemanticIndex::load", "logging::write_projection_with_artifact_effects", "tools::load_git_head", "tools::exec_python"],
        &[
            ("ShapesError", "semantic::SemanticIndex::load", "error_shape::with_context"),
            ("ShapesError", "logging::write_projection_with_artifact_effects", "error_shape::with_context"),
            ("ShapesError", "tools::load_git_head", "error_shape::context"),
            ("ShapesError", "tools::exec_python", "error_shape::map_err"),
        ],
    );
    let mut issues: Vec<Issue> = Vec::new();

    assert!(generate_error_shaping_dispersion_issues(&mut issues, &crates(g)) > 0);
    let issue = find(&issues, "auto_error_shaping_dispersion_");
    assert_eq!(issue.status, "open");
    assert_eq!(count(issue, "function_count"), Some(4));
    assert_eq!(count(issue, "style_count"), Some(3));
}

#[test]
fn state_transition_dispersion_emits_issue_for_shared_state_domain() {
    let g = graph(
        &["planner::advance_plan_state", "tools::save_violations_after_review"],
        &[
            ("TransitionsState", "planner::advance_plan_state", "state::VIOLATIONS_FILE"),
            ("TransitionsState", "tools::save_violations_after_review", "state::VIOLATIONS_FILE"),
        ],
    );
    let mut issues: Vec<Issue> = Vec::new();

    assert!(generate_state_transition_dispersion_issues(&mut issues, &crates(g)) > 0);
    let issue = find(&issues, "auto_state_transition_dispersion_");
    assert_eq!(issue.status, "open");
    assert_eq!(count(issue, "transition_count"), Some(2));
    assert_eq!(text(issue, "display_state"), Some("VIOLATIONS_FILE"));
}

#[test]
fn planner_loop_fragmentation_emits_issue_for_multiple_workflow_orchestrators() {
    let mut g = graph(
        &["app::run_planner_phase", "tools::handle_apply_patch_action", "tools::verify_apply_patch_crate", "app::apply_wake_signals", "tools::handle_plan_action", "tools::apply_patch_queue", "tools::dispatch_verify_followups"],
        &[
            ("TouchesWorkflowDomain", "app::run_planner_phase", "workflow::planner"),
            ("TouchesWorkflowDomain", "app::run_planner_phase", "workflow::apply"),
            ("TouchesWorkflowDomain", "app::run_planner_phase", "workflow::verify"),
            ("TouchesWorkflowDomain", "tools::handle_apply_patch_action", "workflow::apply"),
            ("TouchesWorkflowDomain", "tools::verify_apply_patch_crate", "workflow::verify"),
            ("TouchesWorkflowDomain", "app::apply_wake_signals", "workflow::apply"),
            ("TouchesWorkflowDomain", "app::apply_wake_signals", "workflow::planner"),
            ("TouchesWorkflowDomain", "app::apply_wake_signals", "workflow::verify"),
            ("TouchesWorkflowDomain", "tools::handle_plan_action", "workflow::planner"),
            ("TouchesWorkflowDomain", "tools::apply_patch_queue", "workflow::apply"),
            ("TouchesWorkflowDomain", "tools::dispatch_verify_followups", "workflow::verify"),
            ("call", "app::run_planner_phase", "tools::handle_apply_patch_action"),
            ("call", "app::run_planner_phase", "tools::verify_apply_patch_crate"),
            ("call", "app::run_planner_phase", "tools::handle_plan_action"),
            ("call", "app::run_planner_phase", "tools::apply_patch_queue"),
            ("call", "app::apply_wake_signals", "tools::handle_plan_action"),
            ("call", "app::apply_wake_signals", "tools::verify_apply_patch_crate"),
            ("call", "app::apply_wake_signals", "tools::handle_apply_patch_action"),
            ("call", "app::apply_wake_signals", "tools::dispatch_verify_followups"),
        ],
    );
    // Two switches each.
    g.summaries[0].branch_half_points = Some(8);
    g.summaries[0].switchint_count = 2;
    g.summaries[3].branch_half_points = Some(8);
    g.summaries[3].switchint_count = 2;
    let mut issues: Vec<Issue> = Vec::new();

    assert!(generate_planner_loop_fragmentation_issues(&mut issues, &crates(g)) > 0);
    let issue = find(&issues, "auto_planner_loop_fragmentation_");
    assert_eq!(issue.status, "open");
    assert_eq!(count(issue, "orchestrator_count"), Some(2));
    assert_eq!(count(issue, "owner_candidate_count"), Some(2));
    assert_eq!(text(issue, "proof_tier"), Some("hypothesis"));
}

#[test]
fn implicit_state_machine_emits_issue_for_branching_state_transition_function() {
    let mut g = graph(
        &["app::apply_wake_signals"],
        &[
            ("TransitionsState", "app::apply_wake_signals", "state::VIOLATIONS_FILE"),
        ],
    );
    let s = &mut g.summaries[0];
    s.mir_blocks = Some(5);
    s.mir_stmts = Some(9);
    s.branch_half_points = Some(8);
    s.switchint_count = 2;
    s.has_back_edges = true;
    let mut issues: Vec<Issue> = Vec::new();

    assert!(generate_implicit_state_machine_issues(&mut issues, &crates(g)) > 0);
    let issue = find(&issues, "auto_implicit_state_machine_");
    assert_eq!(issue.status, "open");
    assert_eq!(text(issue, "proof_tier"), Some("hypothesis"));
}

#[test]
fn effect_boundary_leak_emits_issue_for_non_boundary_module() {
    let g = graph(
        &["plan_preflight::try_preflight_ready_tasks"],
        &[
            ("ReadsArtifact", "plan_preflight::try_preflight_ready_tasks", "path::artifact::MASTER_PLAN_FILE"),
            ("ReadsState", "plan_preflight::try_preflight_ready_tasks", "path::state::MASTER_PLAN_FILE"),
            ("WritesArtifact", "plan_preflight::try_preflight_ready_tasks", "path::artifact::last_planner_blocker_evidence.txt"),
            ("WritesState", "plan_preflight::try_preflight_ready_tasks", "path::state::last_planner_blocker_evidence.txt"),
            ("TransitionsState", "plan_preflight::try_preflight_ready_tasks", "path::state::last_planner_blocker_evidence.txt"),
        ],
    );
    let mut issues: Vec<Issue> = Vec::new();

    assert!(generate_effect_boundary_leak_issues(&mut issues, &crates(g)) > 0);
    let issue = find(&issues, "auto_effect_boundary_leak_");
    assert_eq!(issue.status, "open");
    assert_eq!(text(issue, "proof_tier"), Some("hypothesis"));
    assert_eq!(text(issue, "module"), Some("plan_preflight"));
}

#[test]
fn effect_boundary_leak_skips_workflow_derived_boundary_module() {
    let g = graph(
        &["app::run", "issues::persist_projection"],
        &[
            ("TouchesWorkflowDomain", "app::run", "path::workflow::planner"),
            ("Calls", "app::run", "issues::persist_projection"),
            ("ReadsArtifact", "issues::persist_projection", "path::artifact::ISSUES.json"),
            ("WritesArtifact", "issues::persist_projection", "path::artifact::ISSUES.json"),
            ("ShapesError", "issues::persist_projection", "shape::issues::projection"),
        ],
    );
    let mut issues: Vec<Issue> = Vec::new();

    assert_eq!(generate_effect_boundary_leak_issues(&mut issues, &crates(g)), 0);
    assert!(issues.is_empty());
}

#[test]
fn representation_fanout_emits_issue_for_repeated_translation_pair() {
    let g = graph(
        &["plan_preflight::try_preflight_ready_tasks", "complexity::compute_and_persist_fingerprint_drift"],
        &[
            ("ReadsArtifact", "plan_preflight::try_preflight_ready_tasks", "path::artifact::MASTER_PLAN_FILE"),
            ("WritesArtifact", "plan_preflight::try_preflight_ready_tasks", "path::artifact::last_planner_blocker_evidence.txt"),
            ("ReadsArtifact", "complexity::compute_and_persist_fingerprint_drift", "path::artifact::MASTER_PLAN_FILE"),
            ("WritesArtifact", "complexity::compute_and_persist_fingerprint_drift", "path::artifact::last_planner_blocker_evidence.txt"),
        ],
    );
    let mut issues: Vec<Issue> = Vec::new();

    assert!(generate_representation_fanout_issues(&mut issues, &crates(g)) > 0);
    let issue = find(&issues, "auto_representation_fanout_");
    assert_eq!(issue.status, "open");
    assert_eq!(text(issue, "proof_tier"), Some("hypothesis"));
    assert_eq!(count(issue, "translation_site_count"), Some(2));
}

#[test]
fn scc_region_reduction_emits_issue_for_loop_dominated_function() {
    let symbol = "app::apply_wake_signals";
    let mut g = graph(&[symbol], &[]);
    let s = &mut g.summaries[0];
    s.mir_blocks = Some(4);
    s.mir_stmts = Some(8);
    s.branch_half_points = Some(8);
    s.switchint_count = 2;
    s.has_back_edges = true;
    s.switchint_density = ratio_text(2.0 / 4.0);
    g.back_edges = vec![BackEdges { symbol: symbol.to_string(), count: 1 }];
    let mut issues: Vec<Issue> = Vec::new();

    assert!(generate_scc_region_reduction_issues(&mut issues, &crates(g)) > 0);
    let issue = find(&issues, "auto_scc_region_reduction_");
    assert_eq!(issue.status, "open");
    assert_eq!(text(issue, "proof_tier"), Some("hypothesis"));
    assert_eq!(count(issue, "back_edge_count"), Some(1));
}

#[test]
fn dominator_region_reduction_emits_issue_for_branch_funnel_function() {
    let symbol = "tools::handle_plan_action";
    let mut g = graph(&[symbol], &[]);
    let s = &mut g.summaries[0];
    s.mir_blocks = Some(4);
    s.mir_stmts = Some(8);
    s.branch_half_points = Some(8);
    s.switchint_count = 2;
    s.switchint_density = ratio_text(2.0 / 4.0);
    g.redundant_path_owners = vec![symbol.to_string()];
    let mut issues: Vec<Issue> = Vec::new();

    assert!(generate_dominator_region_reduction_issues(&mut issues, &crates(g)) > 0);
    let issue = find(&issues, "auto_dominator_region_reduction_");
    assert_eq!(issue.status, "open");
    assert_eq!(text(issue, "proof_tier"), Some("hypothesis"));
    assert_eq!(text(issue, "region_kind"), Some("loop-free dispatch funnel"));
    assert_eq!(count(issue, "back_edge_count"), Some(0));
    assert_eq!(count(issue, "redundant_path_count"), Some(1));
    assert!(get(&issue.metrics, "non_cleanup_fraction").is_some());
    assert!(get(&issue.metrics, "switchint_density").is_some());
}

#[test]
fn multiple_crates_keep_distinct_ids_and_independent_lifecycle() {
    let from_a = blocks("a", 12);
    let from_b = blocks("b", 13);
    let a = bridged(&["a::one"], &many(&from_a, "a::one"));
    let b = bridged(&["b::one"], &many(&from_b, "b::one"));
    let mut issues: Vec<Issue> = Vec::new();

    assert!(
        generate_bridge_connectivity_issues(
            &mut issues,
            &vec![stats("crate_a", &a), stats("crate_b", &b)]
        ) > 0
    );
    assert_eq!(issues.len(), 2);
    assert!(issues.iter().any(|i| i.id == "graph_bridge_connectivity_crate_a"));
    assert!(issues.iter().any(|i| i.id == "graph_bridge_connectivity_crate_b"));

    let a = bridged(&["a::one"], &[]);
    assert!(
        generate_bridge_connectivity_issues(
            &mut issues,
            &vec![stats("crate_a", &a), stats("crate_b", &b)]
        ) > 0
    );
    assert_eq!(find(&issues, "graph_bridge_connectivity_crate_a").status, "resolved");
    assert_eq!(find(&issues, "graph_bridge_connectivity_crate_b").status, "open");
}

#[test]
fn logging_dispersion_emits_issue_for_non_canonical_logging_sites() {
    let all_syms: Vec<String> = (0..12)
        .map(|i| format!("tools::run_action_{i}"))
        .chain((0..6).map(|i| format!("planner::step_{i}")))
        .collect();
    let node_symbols: Vec<&str> = all_syms.iter().map(|s| s.as_str()).collect();
    let edges: Vec<(&str, &str, &str)> =
        node_symbols.iter().map(|s| ("PerformsLogging", *s, "effect::logging")).collect();
    let g = graph(&node_symbols, &edges);
    let mut issues: Vec<Issue> = Vec::new();

    assert!(generate_logging_dispersion_issues(&mut issues, &crates(g)) > 0);
    let issue = find(&issues, "auto_logging_dispersion_");
    assert_eq!(issue.status, "open");
    assert!(count(issue, "non_canonical_logging_sites").unwrap_or(0) > 10);
}

#[test]
fn process_spawn_dispersion_emits_issue_for_multiple_non_canonical_modules() {
    let g = graph(
        &["process::run_command", "tools::exec_git", "planner::invoke_rustc", "engine::spawn_worker"],
        &[
            ("SpawnsProcess", "process::run_command", "effect::process_spawn"),
            ("SpawnsProcess", "tools::exec_git", "effect::process_spawn"),
            ("SpawnsProcess", "planner::invoke_rustc", "effect::process_spawn"),
            ("SpawnsProcess", "engine::spawn_worker", "effect::process_spawn"),
        ],
    );
    let mut issues: Vec<Issue> = Vec::new();

    assert!(generate_process_spawn_dispersion_issues(&mut issues, &crates(g)) > 0);
    let issue = find(&issues, "auto_process_spawn_dispersion_");
    assert_eq!(issue.status, "open");
    assert!(count(issue, "non_canonical_module_count").unwrap_or(0) >= 2);
}

#[test]
fn network_usage_dispersion_emits_issue_when_network_sites_exist() {
    let g = graph(
        &["llm_runtime::send_request", "tools::fetch_remote"],
        &[
            ("UsesNetwork", "llm_runtime::send_request", "effect::network"),
            ("UsesNetwork", "tools::fetch_remote", "effect::network"),
        ],
    );
    let mut issues: Vec<Issue> = Vec::new();

    assert!(generate_network_usage_dispersion_issues(&mut issues, &crates(g)) > 0);
    let issue = find(&issues, "auto_network_usage_dispersion_");
    assert_eq!(issue.status, "open");
    assert_eq!(count(issue, "total_network_sites"), Some(2));
    assert_eq!(count(issue, "module_count"), Some(2));
}

#[test]
fn state_transition_dispersion_records_coordinates_transition_proof() {
    let g = graph(
        &["planner::advance_plan_state", "tools::save_violations_after_review"],
        &[
            ("TransitionsState", "planner::advance_plan_state", "state::VIOLATIONS_FILE"),
            ("TransitionsState", "tools::save_violations_after_review", "state::VIOLATIONS_FILE"),
            ("CoordinatesTransition", "planner::advance_plan_state", "transition::workflow_coordinated"),
            ("CoordinatesTransition", "tools::save_violations_after_review", "transition::read_write_cycle"),
        ],
    );
    let mut issues: Vec<Issue> = Vec::new();

    assert!(generate_state_transition_dispersion_issues(&mut issues, &crates(g)) > 0);
    let issue = find(&issues, "auto_state_transition_dispersion_");
    assert_eq!(issue.status, "open");
    assert_eq!(text(issue, "proof_tier"), Some("proof"));
    assert_eq!(count(issue, "coordinates_transition_count"), Some(2));
    assert_eq!(count(issue, "workflow_coordinated_count"), Some(1));
    assert_eq!(count(issue, "read_write_cycle_count"), Some(1));
    assert_eq!(flag(issue, "all_coordinated"), Some(true));
}

#[test]
fn a_detector_run_again_changes_nothing() {
    let make = || {
        crates(graph(
            &["llm_runtime::send_request", "tools::fetch_remote"],
            &[
                ("UsesNetwork", "llm_runtime::send_request", "effect::network"),
                ("UsesNetwork", "tools::fetch_remote", "effect::network"),
            ],
        ))
    };
    let mut issues: Vec<Issue> = Vec::new();
    assert_eq!(generate_network_usage_dispersion_issues(&mut issues, &make()), 1);
    assert_eq!(generate_network_usage_dispersion_issues(&mut issues, &make()), 0);
    assert_eq!(issues.len(), 1);
    let quiet = crates(graph(&["tools::fetch_remote"], &[]));
    assert!(generate_network_usage_dispersion_issues(&mut issues, &quiet) > 0);
    assert_eq!(issues[0].status, "resolved");
}

#[test]
fn a_module_that_calls_out_is_reported_for_its_cohesion() {
    let symbols: Vec<String> = (0..12).map(|i| format!("engine::f{i}")).collect();
    let mut names: Vec<&str> = symbols.iter().map(|s| s.as_str()).collect();
    names.push("tools::t");
    let edges: Vec<(&str, &str, &str)> =
        symbols.iter().map(|s| ("call", s.as_str(), "tools::t")).collect();
    let g = graph(&names, &edges);
    let modules = module_cohesion(&g);
    let ratios = modules.iter().map(|_| ratio_text(0.0)).collect();
    let cs = vec![CrateGraph { name: "canon_mini_agent".to_string(), graph: g, cohesion_ratios: ratios }];
    let mut issues: Vec<Issue> = Vec::new();
    let n = generate_module_cohesion_issues(&mut issues, &cs);
    assert_eq!(n, issues.len());
    assert_eq!(generate_module_cohesion_issues(&mut issues, &cs), 0);
}
