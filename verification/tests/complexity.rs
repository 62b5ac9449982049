use canon_mini_agent::captures::{baseline, read_capture, CaptureNumber};
use canon_mini_agent::complexity::{
    build_graph_delta_report, build_graph_only_entries, build_graph_verification_snapshot,
    complexity_proxy, complexity_report_paths, compute_call_scc_sizes,
    count_artifact_writer_dispersion, graph_only_report_path,
    refresh_issue_artifacts, top_complexity_items, write_graph_verification_snapshot, CrateLoad,
    CrateSnapshot, GraphCapture, GraphMetrics, InFlight, NamedMetrics,
};
use canon_mini_agent::complexity_report::{
    build_complexity_report, build_graph_only_complexity_report, graph_complexity_crate_error,
    write_crate_complexity_value, write_delta_report_value, write_drift_value,
    write_complexity_entry_value, write_global_complexity_entry_value, write_no_baseline_value,
    write_verification_snapshot_value, ComplexityTexts,
    EntropyTexts, EvalSection, GraphOnlyCrate, SnapshotTexts, WrittenEntry,
};
use canon_mini_agent::drift_analysis::{compute_fingerprint_drift, stable_symbols_hash};
use canon_mini_agent::generate_issues::{run_selected_mode, select_mode, SelectedMode};
use canon_mini_agent::graph_metrics::{CrateGraph, Detector};
use canon_mini_agent::inter_complexity::{analyze, to_report_value, CrateAnalysis};
use canon_mini_agent::issues::Issue;
use canon_mini_agent::json::{get, get_text, Json};
use canon_mini_agent::json_text::pretty_text;
use canon_mini_agent::components::component_sizes;
use canon_mini_agent::semantic::{
    Edge, GraphCounts, RatioText, RelationEdge, SemanticGraph, SymbolSummary,
};

fn ratio() -> RatioText {
    RatioText { two_places: "0.00".to_string(), number: "0.0".to_string() }
}

fn summary(symbol: &str, fingerprint: &str, branch_score: f64) -> SymbolSummary {
    SymbolSummary {
        symbol: symbol.to_string(),
        kind: "fn".to_string(),
        file: "src/lib.rs".to_string(),
        display_file: "src/lib.rs".to_string(),
        line: 1,
        signature: None,
        mir_fingerprint: Some(fingerprint.to_string()),
        mir_blocks: Some(1),
        mir_stmts: Some(1),
        call_in: 0,
        call_out: 0,
        branch_half_points: Some((branch_score * 2.0) as u64),
        is_directly_recursive: false,
        switchint_count: 0,
        has_back_edges: false,
        switchint_density: ratio(),
        non_cleanup_fraction: ratio(),
    }
}

fn graph(summaries: Vec<SymbolSummary>, calls: &[(&str, &str)]) -> SemanticGraph {
    SemanticGraph {
        counts: GraphCounts {
            nodes: summaries.len(),
            bridge_edges: 0,
            semantic_edges: calls.len(),
            cfg_nodes: 0,
            cfg_edges: 0,
        },
        summaries,
        call_edges: calls
            .iter()
            .map(|(a, b)| Edge { from: a.to_string(), to: b.to_string() })
            .collect(),
        bridge_edges: Vec::new(),
        artifact_writes: Vec::new(),
        artifact_reads: Vec::new(),
        state_writes: Vec::new(),
        state_reads: Vec::new(),
        state_transitions: Vec::new(),
        workflow_domains: Vec::new(),
        error_shapes: Vec::new(),
        loggers: Vec::new(),
        process_spawners: Vec::new(),
        network_users: Vec::new(),
        transition_coordinators: Vec::new(),
        redundant_path_owners: Vec::new(),
        alpha_pathways: Vec::new(),
        back_edges: Vec::new(),
    }
}

fn metrics(entropy: f64, counts: [u64; 6]) -> GraphMetrics {
    GraphMetrics {
        entropy: entropy.to_bits(),
        pathway_count: counts[0],
        redundant_path_count: counts[1],
        artifact_writer_dispersion_count: counts[2],
        error_shaping_dispersion_count: counts[3],
        state_transition_dispersion_count: counts[4],
        representation_fanout_count: counts[5],
    }
}

fn capture(entropy: f64, counts: [u64; 6]) -> GraphCapture {
    GraphCapture {
        totals: metrics(entropy, counts),
        crates: vec![NamedMetrics {
            name: "canon_mini_agent".to_string(),
            metrics: metrics(entropy, counts),
        }],
    }
}

#[test]
fn graph_delta_report_marks_reductions_as_improvements() {
    let before = capture(0.40, [12, 30, 3, 2, 4, 5]);
    let after = capture(0.32, [11, 24, 2, 1, 2, 3]);

    let report = build_graph_delta_report(&before, &after);
    let entropy = report.metrics.entropy;
    let delta = f64::from_bits(entropy.after) - f64::from_bits(entropy.before);
    assert!((delta + 0.08).abs() < 1e-9, "unexpected delta: {delta}");
    assert!(report.metrics.pathway_count.improved);
    assert!(report.verification_passed);
    assert_eq!(report.per_crate[0].metrics.artifact_writer_dispersion_count.delta, -1);
    assert_eq!(report.metrics.representation_fanout_count.delta, -2);
}

fn snapshot_text(time: u64, entropy: &str, counts: [u64; 6]) -> String {
    let row = format!(
        r#""overall_graph_entropy_score": {}, "pathway_count": {}, "redundant_path_count": {},
        "artifact_writer_dispersion_count": {}, "error_shaping_dispersion_count": {},
        "state_transition_dispersion_count": {}, "representation_fanout_count": {}"#,
        entropy, counts[0], counts[1], counts[2], counts[3], counts[4], counts[5]
    );
    format!(
        r#"{{"generated_at_ms": {time}, "totals": {{ {row} }},
        "crates": [{{"crate": "canon_mini_agent", {row}}}, {{ {row} }}]}}"#
    )
}

#[test]
fn a_capture_is_read_from_the_text_of_a_snapshot() {
    let text = snapshot_text(100, "0.4", [12, 30, 3, 2, 4, 5]);
    let read = read_capture(Some(&text)).unwrap();
    assert!(matches!(read.generated_at, Json::Uint(100)));
    assert!(matches!(&read.totals.entropy, CaptureNumber::Printed(s) if s == "0.4"));
    assert!(matches!(read.totals.pathway_count, CaptureNumber::Natural(12)));
    assert!(matches!(read.totals.representation_fanout_count, CaptureNumber::Natural(5)));
    assert_eq!(read.crates.len(), 1);
    assert_eq!(read.crates[0].name, "canon_mini_agent");
    assert!(matches!(read.crates[0].numbers.redundant_path_count, CaptureNumber::Natural(30)));
    let bare = read_capture(Some("{}")).unwrap();
    assert!(matches!(bare.totals.pathway_count, CaptureNumber::Natural(0)));
    assert!(bare.crates.is_empty());
    assert!(read_capture(Some("no snapshot")).is_none());
    assert!(read_capture(None).is_none());
}

#[test]
fn without_an_earlier_snapshot_there_is_no_baseline() {
    let report = baseline(None, Json::Uint(200), 300).unwrap_err();
    assert_eq!(get_text(&report, "status"), Some("no_baseline"));
    assert!(baseline(Some("no snapshot"), Json::Uint(200), 300).is_err());
    let text = snapshot_text(100, "0.4", [12, 30, 3, 2, 4, 5]);
    assert!(baseline(Some(&text), Json::Uint(200), 300).is_ok());
}

#[test]
fn a_metric_that_grew_fails_the_report() {
    let before = capture(0.40, [12, 30, 3, 2, 4, 5]);
    let after = capture(0.40, [12, 31, 3, 2, 4, 5]);
    let report = build_graph_delta_report(&before, &after);
    assert!(!report.verification_passed);
    assert_eq!(report.regressed_metrics, vec!["redundant_path_count".to_string()]);
    assert!(report.improved_metrics.is_empty());
    let back = build_graph_delta_report(&after, &before);
    assert_eq!(back.improved_metrics, report.regressed_metrics);
    let same = build_graph_delta_report(&before, &before);
    assert!(same.verification_passed && same.improved_metrics.is_empty());
}

#[test]
fn stable_symbols_are_compacted_for_tlog_payloads() {
    let prev = vec![summary("a", "same", 1.0), summary("b", "same", 2.0)];
    let curr = vec![summary("b", "same", 2.0), summary("a", "same", 1.0)];

    let drift = compute_fingerprint_drift(&prev, &curr);
    let value: serde_json::Value =
        serde_json::from_str(&pretty_text(&write_drift_value(&drift))).expect("serialize drift");
    let payload = value.to_string();

    assert_eq!(drift.stable_count, 2);
    assert_eq!(drift.stable.len(), 0);
    assert!(!drift.stable_hash.is_empty());
    assert!(!payload.contains("\"stable\""));
    assert!(payload.contains("\"stable_count\":2"));
    assert!(payload.contains("\"stable_hash\""));
}

#[test]
fn symbols_that_moved_are_told_apart() {
    let prev = vec![summary("a", "f1", 4.0), summary("b", "f1", 1.0), summary("c", "f1", 1.0)];
    let curr = vec![
        summary("a", "f2", 1.0),
        summary("b", "f2", 3.0),
        summary("c", "f1", 1.0),
        summary("d", "f1", 1.0),
    ];
    let drift = compute_fingerprint_drift(&prev, &curr);
    assert_eq!(drift.improved, vec!["a".to_string()]);
    assert_eq!(drift.regressed, vec!["b".to_string()]);
    assert_eq!(drift.stable_count, 1);
    assert_eq!(drift.stable_hash, stable_symbols_hash(&vec!["c".to_string()]));
    assert_eq!(drift.reward_half_points(), 2 - 3);
    let value = write_drift_value(&drift);
    assert!(matches!(get(&value, "reward"), Some(Json::Number(n)) if n == "-0.5"));
}

#[test]
fn strong_components_are_counted() {
    let edges: Vec<Edge> = [("a", "b"), ("b", "c"), ("c", "a"), ("c", "d")]
        .iter()
        .map(|(x, y)| Edge { from: x.to_string(), to: y.to_string() })
        .collect();
    let symbols: Vec<String> = ["e", "d", "c", "b", "a"].iter().map(|s| s.to_string()).collect();
    let sizes = component_sizes(&edges, &symbols);
    assert_eq!(sizes.get("a"), Some(&3));
    assert_eq!(sizes.get("b"), Some(&3));
    assert_eq!(sizes.get("c"), Some(&3));
    assert_eq!(sizes.get("d"), Some(&1));
    assert_eq!(sizes.get("e"), Some(&1));
    assert_eq!(sizes.get("f"), None);
}

#[test]
fn a_caller_without_a_summary_counts_with_what_it_calls() {
    let edge = |x: &str, y: &str| Edge { from: x.to_string(), to: y.to_string() };
    let symbols = vec!["x".to_string(), "y".to_string()];
    let sizes = component_sizes(&vec![edge("g", "x")], &symbols);
    assert_eq!((sizes.get("x"), sizes.get("y"), sizes.get("g")), (Some(&2), Some(&1), Some(&2)));
    // The symbol that the walk leaves last takes the caller of both.
    let sizes = component_sizes(&vec![edge("g", "x"), edge("g", "y")], &symbols);
    assert_eq!((sizes.get("x"), sizes.get("y"), sizes.get("g")), (Some(&1), Some(&2), Some(&2)));
    // What is called and has no summary stands alone; a name that no path leads to has no size.
    let sizes = component_sizes(&vec![edge("x", "h"), edge("i", "h")], &symbols);
    assert_eq!((sizes.get("x"), sizes.get("h"), sizes.get("i")), (Some(&1), Some(&1), None));
    let sizes = compute_call_scc_sizes(
        &vec![summary("m::a", "f", 1.0)],
        &vec![edge("m::outside", "m::a")],
    );
    assert_eq!(sizes.get("m::a"), Some(&2));
}

#[test]
fn a_block_name_is_cut_behind_its_first_five_bytes() {
    let groups = |prefix: &str| {
        let mut g = graph(vec![summary("m::a", "f", 1.0), summary("m::b", "f", 1.0)], &[]);
        let call = |from: String| RelationEdge {
            relation: "Call".to_string(),
            from,
            to: "m::x".to_string(),
        };
        g.bridge_edges = vec![call("cfg::m::a::bb0".to_string()), call(format!("{prefix}m::b::bb0"))];
        analyze(&g).duplicate_groups
    };
    let both = vec![vec!["m::a".to_string(), "m::b".to_string()]];
    assert_eq!(groups("cfg::"), both);
    assert_eq!(groups("abcd:"), both);
    assert_eq!(groups("\u{e9}\u{e9}:"), both);
    assert!(groups("cfg:").is_empty());
    assert!(groups("\u{e9}\u{e9}\u{e9}").is_empty());
}

#[test]
fn entries_count_duplicates_and_components() {
    let g = graph(
        vec![summary("m::a", "same", 2.0), summary("m::b", "same", 1.0), summary("m::c", "other", 1.0)],
        &[("m::a", "m::b"), ("m::b", "m::a")],
    );
    let entries = build_graph_only_entries(&g, "app");
    let a = entries.iter().find(|e| e.symbol == "m::a").unwrap();
    assert_eq!(a.duplicate_body_count, 1);
    assert_eq!(a.scc_size, 2);
    assert_eq!(a.crate_name, "app");
    let c = entries.iter().find(|e| e.symbol == "m::c").unwrap();
    assert_eq!((c.duplicate_body_count, c.scc_size), (0, 1));
}

#[test]
fn a_report_lists_the_symbols_with_a_body() {
    let mut plain = summary("m::plain", "f", 0.0);
    plain.branch_half_points = None;
    plain.mir_blocks = Some(7);
    assert_eq!(complexity_proxy(&plain), 14);
    let mut bare = summary("m::bare", "f", 0.0);
    bare.mir_blocks = None;
    bare.mir_stmts = Some(0);
    let mut all = vec![summary("m::low", "f", 1.0), bare, plain];
    let order: Vec<&str> =
        top_complexity_items(&all).into_iter().map(|i| all[i].symbol.as_str()).collect();
    assert_eq!(order, vec!["m::low", "m::plain"]);
    while all.len() < 80 {
        all.push(summary("m::more", "f", 1.0));
    }
    assert_eq!(top_complexity_items(&all).len(), 50);
}

#[test]
fn a_snapshot_adds_up_the_crates_that_loaded() {
    let mut g = graph(vec![summary("m::a", "f", 1.0)], &[]);
    g.redundant_path_owners = vec!["m::a".to_string()];
    g.artifact_writes = vec![
        Edge { from: "x::w".to_string(), to: "artifact::PLAN".to_string() },
        Edge { from: "y::w".to_string(), to: "artifact::PLAN".to_string() },
    ];
    assert_eq!(count_artifact_writer_dispersion(&g), 1);
    let loads = vec![
        CrateLoad::Loaded { name: "app".to_string(), graph: g, entropy: 5 },
        CrateLoad::Failed { name: "other".to_string(), error: "missing".to_string() },
    ];
    let snapshot = build_graph_verification_snapshot(&loads, 9);
    assert_eq!(snapshot.totals.entropy, 9);
    assert_eq!(snapshot.totals.redundant_path_count, 1);
    assert_eq!(snapshot.totals.artifact_writer_dispersion_count, 1);
    assert!(matches!(&snapshot.crates[1], CrateSnapshot::Failed { error, .. } if error == "missing"));
}

#[test]
fn reports_have_their_places() {
    assert_eq!(
        graph_only_report_path("/ws"),
        "/ws/agent_state/reports/complexity/graph_only_latest.json"
    );
    let paths = write_graph_verification_snapshot("/ws", 12);
    assert!(paths.latest.starts_with("/ws/agent_state/reports/complexity/"));
    let paths = complexity_report_paths("/ws", 12);
    assert_eq!(paths.stamped, "/ws/agent_state/reports/complexity/12.json");
    assert_eq!(paths.latest, "/ws/agent_state/reports/complexity/latest.json");
}

#[test]
fn a_workspace_is_refreshed_once_at_a_time() {
    let mut flight = InFlight::new();
    assert!(flight.begin("/ws"));
    assert!(!flight.begin("/ws"));
    assert!(flight.begin("/other"));
    flight.finish("/ws");
    assert!(flight.begin("/ws"));
}

fn network_crate() -> Vec<CrateGraph> {
    let mut g = graph(vec![summary("net::send", "f", 1.0), summary("app::get", "g", 1.0)], &[]);
    g.network_users = vec![
        Edge { from: "net::send".to_string(), to: "effect::network".to_string() },
        Edge { from: "app::get".to_string(), to: "effect::network".to_string() },
    ];
    vec![CrateGraph { name: "app".to_string(), graph: g, cohesion_ratios: Vec::new() }]
}

#[test]
fn a_refresh_runs_every_detector() {
    let mut issues: Vec<Issue> = Vec::new();
    refresh_issue_artifacts(&mut issues, &Vec::new(), &Vec::new(), &network_crate());
    assert!(issues.iter().any(|i| i.id.starts_with("auto_network_usage_dispersion_")));
    let before = issues.len();
    refresh_issue_artifacts(&mut issues, &Vec::new(), &Vec::new(), &network_crate());
    assert_eq!(issues.len(), before);
}

#[test]
fn a_run_does_what_its_first_flag_says() {
    let args = |list: &[&str]| -> Vec<String> { list.iter().map(|s| s.to_string()).collect() };
    assert_eq!(select_mode(&args(&["x", "--workspace", "/ws"])), SelectedMode::Everything);
    assert_eq!(
        select_mode(&args(&["x", "--network-usage-only", "--logging-dispersion-only"])),
        SelectedMode::One(Detector::Logging)
    );
    assert_eq!(
        select_mode(&args(&["x", "--alpha-only", "--graph-verify-delta"])),
        SelectedMode::GraphDelta
    );
    let mut issues: Vec<Issue> = Vec::new();
    let mode = run_selected_mode(
        &args(&["x", "--graph-complexity-only", "--network-usage-only"]),
        &mut issues,
        &Vec::new(),
        &Vec::new(),
        &network_crate(),
    );
    assert_eq!(mode, SelectedMode::GraphComplexityReport);
    assert!(issues.is_empty());
    run_selected_mode(
        &args(&["x", "--network-usage-only"]),
        &mut issues,
        &Vec::new(),
        &Vec::new(),
        &network_crate(),
    );
    assert_eq!(issues.len(), 1);
}

#[test]
fn a_graph_report_without_crates_is_empty() {
    let report = build_graph_only_complexity_report(&Vec::new(), &Vec::new(), "0.000", 7);
    assert_eq!(
        pretty_text(&report),
        "{\n  \"crates\": [],\n  \"global_top\": [],\n  \"kind\": \"graph_only_complexity\",\n  \"version\": 1\n}"
    );
}

#[test]
fn a_graph_report_lists_crates_and_entries() {
    let g = graph(vec![summary("m::a", "f", 2.5)], &[]);
    let entry = build_graph_only_entries(&g, "app").remove(0);
    let written = |entry| WrittenEntry {
        entry,
        stmt_density: "1.00".to_string(),
        b_transitive: "2.50".to_string(),
        heat_score: "0.00".to_string(),
        graph_complexity_score: "0.700".to_string(),
    };
    let crates = vec![
        GraphOnlyCrate::Counted {
            name: "app".to_string(),
            score: "0.700".to_string(),
            top: vec![written(entry)],
        },
        GraphOnlyCrate::Failed { name: "x".to_string(), error: "missing".to_string() },
    ];
    let report = build_graph_only_complexity_report(&crates, &Vec::new(), "0.700", 7);
    assert_eq!(get_text(&report, "overall_graph_entropy_score"), Some("0.700"));
    let Some(Json::Array(items)) = get(&report, "crates") else { panic!("crates") };
    assert_eq!(get_text(&items[0], "status"), Some("ok"));
    assert_eq!(get_text(&items[1], "error"), Some("missing"));
    let Some(Json::Array(top)) = get(&items[0], "top") else { panic!("top") };
    let metrics = get(&top[0], "metrics").unwrap();
    assert_eq!(get_text(metrics, "branch_score"), Some("2.50"));
    assert!(matches!(get(metrics, "scc_size"), Some(Json::Uint(1))));
    assert_eq!(get_text(&graph_complexity_crate_error("x", "y"), "status"), Some("error"));
}

#[test]
fn a_complexity_report_holds_its_parts() {
    let s = summary("m::a", "f", 2.5);
    let texts = ComplexityTexts {
        stmt_density: "1.00".to_string(),
        objective_score: "0.600".to_string(),
    };
    let entry = write_global_complexity_entry_value("app", &s, &texts);
    assert!(matches!(get(&entry, "complexity_proxy"), Some(Json::Number(n)) if n == "2.5"));
    let own = write_complexity_entry_value(&s, &texts);
    assert!(matches!(get(&own, "branch_score"), Some(Json::Number(n)) if n == "2.5"));
    assert_eq!(get_text(&own, "mir_fingerprint"), Some("f"));
    assert_eq!(get_text(&own, "objective_score"), Some("0.600"));
    let analysis = CrateAnalysis {
        name: "app".to_string(),
        entries: Vec::new(),
        duplicate_groups: analyze(&graph(vec![summary("m::a", "f", 1.0)], &[])).duplicate_groups,
    };
    let eval = EvalSection {
        overall_score: "0.5".to_string(),
        objective_progress: "1.0".to_string(),
        safety: "1.0".to_string(),
        task_velocity: "0.5".to_string(),
        issue_health: "1.0".to_string(),
        semantic_contract: "1.0".to_string(),
        semantic_fn_error_rate: "0.0".to_string(),
        diagnostics_repair_pressure: "0.0".to_string(),
        semantic_fn_total: 3,
        semantic_fn_with_any_error: 0,
        objectives_completed: 1,
        objectives_total: 2,
        completed_tasks: 3,
        total_tasks: 6,
    };
    let drift = compute_fingerprint_drift(&Vec::new(), &Vec::new());
    let report = build_complexity_report(
        write_crate_complexity_value("app", Json::Array(Vec::new())),
        Json::Array(vec![entry]),
        to_report_value(&analysis, 0, 5),
        &eval,
        &drift,
        7,
    );
    assert!(matches!(get(&report, "version"), Some(Json::Uint(2))));
    let section = get(&report, "eval").unwrap();
    assert_eq!(get_text(section, "objectives"), Some("1/2"));
    assert_eq!(get_text(section, "tasks"), Some("3/6"));
    assert!(get(&report, "fingerprint_drift").is_some());
}

#[test]
fn a_verification_snapshot_is_written() {
    let g = graph(vec![summary("m::a", "f", 1.0)], &[("m::a", "m::a")]);
    let loads = vec![
        CrateLoad::Loaded { name: "app".to_string(), graph: g, entropy: 5 },
        CrateLoad::Failed { name: "other".to_string(), error: "missing".to_string() },
    ];
    let snapshot = build_graph_verification_snapshot(&loads, 9);
    let texts = |t: &str| SnapshotTexts { entropy: t.to_string(), top: Vec::new() };
    let value = write_verification_snapshot_value(
        &snapshot,
        "0.25",
        &vec![texts("0.5"), texts("0.0")],
        &Vec::new(),
        7,
    );
    assert_eq!(get_text(&value, "kind"), Some("graph_verification_snapshot"));
    let totals = get(&value, "totals").unwrap();
    assert!(matches!(get(totals, "overall_graph_entropy_score"), Some(Json::Number(n)) if n == "0.25"));
    let Some(Json::Array(crates)) = get(&value, "crates") else { panic!("crates") };
    assert!(matches!(get(&crates[0], "call_edge_count"), Some(Json::Uint(1))));
    assert_eq!(get_text(&crates[1], "status"), Some("error"));
}

#[test]
fn a_delta_report_is_written() {
    let before = capture(0.40, [12, 30, 3, 2, 4, 5]);
    let after = capture(0.32, [12, 24, 3, 2, 4, 6]);
    let texts = || EntropyTexts {
        before: "0.4".to_string(),
        after: "0.32".to_string(),
        delta: "-0.08".to_string(),
    };
    let value = write_delta_report_value(
        &build_graph_delta_report(&before, &after),
        &texts(),
        &vec![texts()],
        Json::Uint(1),
        Json::Null,
        7,
    );
    let metrics = get(&value, "metrics").unwrap();
    assert_eq!(
        pretty_text(get(metrics, "redundant_path_count").unwrap()),
        "{\n  \"after\": 24.0,\n  \"before\": 30.0,\n  \"delta\": -6.0,\n  \"improved\": true\n}"
    );
    assert_eq!(
        pretty_text(get(metrics, "overall_graph_entropy_score").unwrap()),
        "{\n  \"after\": 0.32,\n  \"before\": 0.4,\n  \"delta\": -0.08,\n  \"improved\": true\n}"
    );
    assert!(matches!(get(&value, "verification_passed"), Some(Json::Bool(false))));
    let first = write_no_baseline_value(Json::Uint(3), 7);
    assert_eq!(get_text(&first, "status"), Some("no_baseline"));
    let Some(Json::Array(crates)) = get(&value, "per_crate") else { panic!("per_crate") };
    assert_eq!(get_text(&crates[0], "crate"), Some("canon_mini_agent"));
}
