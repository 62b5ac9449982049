use canon_mini_agent::boundary::derive_canonical_effect_boundary_modules;
use canon_mini_agent::canonical_writer::CanonicalWriter;
use canon_mini_agent::constants::{
    planner_projection_file, planner_projection_file_for_instance, RuntimeContext,
};
use canon_mini_agent::drift_analysis::compute_fingerprint_drift;
use canon_mini_agent::error_class::{classify_blocker_summary, classify_result, ErrorClass};
use canon_mini_agent::events::ControlEvent;
use canon_mini_agent::evolution::{advance_for_successful_build, EvolutionSnapshot};
use canon_mini_agent::generate_issues::{run_mode, SelectedMode};
use canon_mini_agent::graph_metrics::{
    generate_dominator_region_reduction_issues, generate_scc_region_reduction_issues, CrateGraph,
    Detector,
};
use canon_mini_agent::groups::{flip, group_edges};
use canon_mini_agent::grpo::{drift_reward_fraction, DriftCounts};
use canon_mini_agent::invalid_action::auto_fill_message_fields;
use canon_mini_agent::issues::{upsert_bridge_issue, Issue};
use canon_mini_agent::json::{get, get_text, set_member, string, Json};
use canon_mini_agent::json_text::parse_json;
use canon_mini_agent::components::component_sizes;
use canon_mini_agent::semantic::{BackEdges, Edge, GraphCounts, RatioText, SemanticGraph, SymbolSummary};
use canon_mini_agent::text::{join, split};

fn ratio() -> RatioText {
    RatioText { two_places: "0.00".to_string(), number: "0.0".to_string() }
}

fn edges(pairs: &[(&str, &str)]) -> Vec<Edge> {
    pairs.iter().map(|(a, b)| Edge { from: a.to_string(), to: b.to_string() }).collect()
}

fn summary(symbol: &str) -> SymbolSummary {
    SymbolSummary {
        symbol: symbol.to_string(),
        kind: "fn".to_string(),
        file: "src/lib.rs".to_string(),
        display_file: "src/lib.rs".to_string(),
        line: 1,
        signature: None,
        mir_fingerprint: None,
        mir_blocks: Some(3),
        mir_stmts: Some(9),
        call_in: 0,
        call_out: 0,
        branch_half_points: Some(20),
        is_directly_recursive: false,
        switchint_count: 4,
        has_back_edges: false,
        switchint_density: ratio(),
        non_cleanup_fraction: ratio(),
    }
}

fn graph(symbols: &[&str], calls: &[(&str, &str)]) -> SemanticGraph {
    SemanticGraph {
        counts: GraphCounts {
            nodes: symbols.len(),
            bridge_edges: 0,
            semantic_edges: calls.len(),
            cfg_nodes: 0,
            cfg_edges: 0,
        },
        summaries: symbols.iter().map(|s| summary(s)).collect(),
        call_edges: edges(calls),
        bridge_edges: Vec::new(),
        artifact_writes: Vec::new(),
        artifact_reads: Vec::new(),
        state_writes: Vec::new(),
        state_reads: Vec::new(),
        state_transitions: Vec::new(),
        workflow_domains: Vec::new(),
        error_shapes: Vec::new(),
        loggers: Vec::new(),
        process_spawners: Vec::new(),
        network_users: Vec::new(),
        transition_coordinators: Vec::new(),
        redundant_path_owners: Vec::new(),
        alpha_pathways: Vec::new(),
        back_edges: Vec::new(),
    }
}

#[test]
fn what_only_boundaries_call_is_one() {
    let mut g = graph(
        &["flow::run", "io::write", "other::f", "mixed::g"],
        &[("flow::run", "io::write"), ("flow::run", "mixed::g"), ("other::f", "mixed::g")],
    );
    g.workflow_domains = edges(&[("flow::run", "workflow::planner")]);
    let candidates: Vec<String> =
        ["io::write", "other::f", "mixed::g"].iter().map(|s| s.to_string()).collect();
    let found = derive_canonical_effect_boundary_modules(&g, &candidates);
    assert!(found.contains("flow"));
    assert!(found.contains("io"));
    assert!(!found.contains("mixed"));
    assert!(!found.contains("other"));
}

#[test]
fn class_keys_are_distinct() {
    let classes = [
        ErrorClass::SecondMutationPath,
        ErrorClass::RuntimeControlBypass,
        ErrorClass::MissingTarget,
        ErrorClass::InvalidSchema,
        ErrorClass::CompileError,
        ErrorClass::LlmTimeout,
        ErrorClass::ReactionOnly,
        ErrorClass::Unknown,
    ];
    for a in &classes {
        for b in &classes {
            assert_eq!(a == b, a.as_key() == b.as_key());
        }
    }
}

#[test]
fn success_is_unclassified_and_blockers_are_not() {
    assert_eq!(classify_result("cargo_test", "error[E0425]", true), ErrorClass::Unknown);
    assert_ne!(classify_blocker_summary("nothing that is known"), ErrorClass::Unknown);
}

#[test]
fn the_default_projection_is_that_of_the_default_instance() {
    let ctx = RuntimeContext::new();
    assert_eq!(planner_projection_file(&ctx), planner_projection_file_for_instance("default"));
}

#[test]
fn the_evolution_never_goes_back() {
    let mut snapshot = EvolutionSnapshot { evolution: u64::MAX - 1, ..EvolutionSnapshot::default() };
    let first = advance_for_successful_build(&mut snapshot, "b", 1, None, None).evolution;
    let second = advance_for_successful_build(&mut snapshot, "b", 2, None, None).evolution;
    assert_eq!((first, second), (u64::MAX, u64::MAX));
}

#[test]
fn a_drift_is_worth_at_most_one() {
    for (improved, regressed) in [(0, 0), (5, 0), (0, 5), (3, 4)] {
        let (num, den) = drift_reward_fraction(Some(DriftCounts { improved, regressed }));
        let worth = num as f64 / den as f64;
        assert!((-1.5..=1.0).contains(&worth), "{worth}");
    }
}

#[test]
fn groups_hold_the_edges() {
    let found = group_edges(&edges(&[("b", "1"), ("a", "2"), ("b", "0"), ("b", "1")]));
    let shown: Vec<(&str, Vec<&str>)> = found
        .iter()
        .map(|g| (g.key.as_str(), g.members.iter().map(|m| m.as_str()).collect()))
        .collect();
    assert_eq!(shown, vec![("a", vec!["2"]), ("b", vec!["0", "1"])]);
}

#[test]
fn flipped_edges_have_the_same_components() {
    let there = edges(&[("a", "b"), ("b", "a"), ("b", "c")]);
    let back = flip(&there);
    let symbols: Vec<String> = ["a", "b", "c"].iter().map(|s| s.to_string()).collect();
    let sizes = |e: &Vec<Edge>| {
        let found = component_sizes(e, &symbols);
        symbols.iter().map(|s| found.get(s.as_str()).copied()).collect::<Vec<Option<usize>>>()
    };
    assert_eq!(sizes(&there), vec![Some(2), Some(2), Some(1)]);
    assert_eq!(sizes(&back), sizes(&there));
}

#[test]
fn what_is_written_under_a_key_is_read_back() {
    let mut ms: Vec<(String, Json)> = Vec::new();
    set_member(&mut ms, "b", string("1"));
    set_member(&mut ms, "a", string("2"));
    set_member(&mut ms, "b", string("3"));
    let value = Json::Object(ms);
    assert_eq!(get_text(&value, "b"), Some("3"));
    assert_eq!(get_text(&value, "a"), Some("2"));
    assert!(get(&value, "c").is_none());
}

#[test]
fn parts_are_found_again_in_what_they_make() {
    let parts: Vec<String> = ["a", "", "b c"].iter().map(|s| s.to_string()).collect();
    assert_eq!(split(&join(&parts, ","), ','), parts);
}

fn issue(id: &str) -> Issue {
    Issue { id: id.to_string(), status: "open".to_string(), ..Issue::default() }
}

#[test]
fn a_report_touches_no_other_finding() {
    let mut issues = vec![issue("a"), issue("b")];
    upsert_bridge_issue(&mut issues, Issue { title: "new".to_string(), ..issue("b") }, false);
    assert_eq!(issues.len(), 2);
    assert_eq!((issues[0].title.as_str(), issues[0].status.as_str()), ("", "open"));
    assert_eq!((issues[1].title.as_str(), issues[1].status.as_str()), ("new", "resolved"));
}

#[test]
fn a_second_run_changes_nothing() {
    let mut g = graph(&["net::send", "app::get", "io::write_a"], &[("net::send", "app::get")]);
    g.network_users = edges(&[("net::send", "effect::network"), ("app::get", "effect::network")]);
    g.artifact_writes = edges(&[("net::send", "PLAN"), ("app::get", "PLAN")]);
    g.artifact_reads = edges(&[("net::send", "TLOG"), ("app::get", "TLOG")]);
    let crates = vec![CrateGraph { name: "app".to_string(), graph: g, cohesion_ratios: Vec::new() }];
    for mode in [
        SelectedMode::One(Detector::NetworkUsage),
        SelectedMode::One(Detector::ArtifactWriters),
        SelectedMode::RepresentationFanout,
        SelectedMode::CfgRegions,
        SelectedMode::DominatorRegions,
    ] {
        let mut issues = vec![issue("auto_artifact_writer_dispersion_app_1"), issue("own")];
        run_mode(mode, &mut issues, &Vec::new(), &Vec::new(), &crates);
        assert!(issues.len() > 2, "{mode:?}");
        assert_eq!(issues[0].id, "auto_artifact_writer_dispersion_app_1");
        assert_eq!(issues[1].id, "own");
        let once = format!("{issues:?}");
        run_mode(mode, &mut issues, &Vec::new(), &Vec::new(), &crates);
        assert_eq!(format!("{issues:?}"), once, "{mode:?}");
    }
}

#[test]
fn a_function_has_a_region_of_one_kind() {
    let crates = |back: usize| {
        let mut g = graph(&["m::f"], &[]);
        g.back_edges = vec![BackEdges { symbol: "m::f".to_string(), count: back }];
        vec![CrateGraph { name: "app".to_string(), graph: g, cohesion_ratios: Vec::new() }]
    };
    let open = |issues: &[Issue]| -> Vec<String> {
        issues.iter().filter(|i| i.status == "open").map(|i| i.id.clone()).collect()
    };
    let mut issues: Vec<Issue> = Vec::new();
    generate_scc_region_reduction_issues(&mut issues, &crates(1));
    generate_dominator_region_reduction_issues(&mut issues, &crates(1));
    assert_eq!(open(&issues).len(), 1);
    assert!(open(&issues)[0].starts_with("auto_scc_region_reduction_app_"));
    generate_scc_region_reduction_issues(&mut issues, &crates(0));
    generate_dominator_region_reduction_issues(&mut issues, &crates(0));
    assert_eq!(issues.len(), 2);
    assert_eq!(open(&issues).len(), 1);
    assert!(open(&issues)[0].starts_with("auto_dominator_region_reduction_app_"));
}

#[test]
fn the_order_of_summaries_does_not_matter_to_a_drift() {
    let moved = |symbol: &str, fingerprint: &str, points: u64| SymbolSummary {
        mir_fingerprint: Some(fingerprint.to_string()),
        branch_half_points: Some(points),
        ..summary(symbol)
    };
    let mut prev =
        vec![moved("a", "1", 8), moved("b", "1", 8), moved("c", "1", 8), moved("d", "1", 8)];
    let mut curr = vec![
        moved("d", "2", 9),
        moved("c", "1", 9),
        moved("b", "2", 4),
        moved("a", "2", 4),
        moved("new", "1", 1),
    ];
    let drift = compute_fingerprint_drift(&prev, &curr);
    assert_eq!(drift.improved, vec!["a".to_string(), "b".to_string()]);
    assert_eq!(drift.regressed, vec!["d".to_string()]);
    assert_eq!((drift.stable.len(), drift.stable_count), (0, 1));
    assert_eq!(drift.reward_half_points(), 1);
    prev.reverse();
    curr.swap(0, 3);
    let other = compute_fingerprint_drift(&prev, &curr);
    assert_eq!(format!("{other:?}"), format!("{drift:?}"));
}

#[test]
fn a_refused_change_leaves_a_valid_state() {
    let mut writer = CanonicalWriter::new(4u32, Ok(()), 0, 0, "/ws".to_string());
    let event = || ControlEvent::PlannerPendingSet { pending: true };
    let odd = || Err("odd".to_string());
    assert!(writer.try_apply(event(), Ok(()), 5, odd(), None).is_err());
    assert!(writer.try_restore_from_checkpoint(7, odd()).is_err());
    assert_eq!(*writer.state(), 4);
    assert!(writer.try_apply(event(), Ok(()), 6, Ok(()), Some(Ok(1))).is_ok());
    assert_eq!(*writer.state(), 6);
}

#[test]
fn a_completed_message_keeps_what_is_written() {
    let mut action = parse_json(
        r#"{"action": "message", "rationale": "why", "payload": {"evidence": "log", "note": "n"}}"#,
    )
    .unwrap();
    assert!(auto_fill_message_fields(&mut action, "executor"));
    assert_eq!(get_text(&action, "rationale"), Some("why"));
    let payload = get(&action, "payload").unwrap();
    assert_eq!(get_text(payload, "summary"), Some("auto-filled message fields"));
    assert_eq!(get_text(payload, "evidence"), Some("log"));
    assert_eq!(get_text(payload, "note"), Some("n"));
}
