use canon_mini_agent::inter_complexity::{
    actionable_duplicate_symbols, generate_hotspot_issues, inter_issue_id,
    looks_like_const_symbol, mir_dup_issue_id, priority_from_score, shorten_file,
    summarize_duplicate_symbols, CrateAnalysis, InterEntry, ScoredInterEntry,
};
use canon_mini_agent::issues::Issue;

#[test]
fn priority_bands_are_correct() {
    assert_eq!(priority_from_score(0.70f64.to_bits()), "high");
    assert_eq!(priority_from_score(0.71f64.to_bits()), "high");
    assert_eq!(priority_from_score(0.40f64.to_bits()), "medium");
    assert_eq!(priority_from_score(0.69f64.to_bits()), "medium");
    assert_eq!(priority_from_score(0.19f64.to_bits()), "low");
}

#[test]
fn stable_ids_are_deterministic() {
    let id1 = inter_issue_id("canon_mini_agent", "tools::handle_batch_action");
    let id2 = inter_issue_id("canon_mini_agent", "tools::handle_batch_action");
    assert_eq!(id1, id2, "same symbol must produce same issue id");

    let other = inter_issue_id("canon_mini_agent", "tools::other_fn");
    assert_ne!(id1, other, "different symbols must produce different ids");
}

#[test]
fn mir_dup_id_is_order_independent() {
    let a = vec!["foo::bar".to_string(), "baz::qux".to_string()];
    let b = vec!["baz::qux".to_string(), "foo::bar".to_string()];
    assert_eq!(
        mir_dup_issue_id(&a),
        mir_dup_issue_id(&b),
        "group id must be independent of input order"
    );
}

#[test]
fn shorten_file_extracts_src_path() {
    let full = "/workspace/ai_sandbox/canon-mini-agent/src/tools.rs";
    assert_eq!(shorten_file(full), "src/tools.rs");
}

#[test]
fn const_like_symbols_are_not_actionable_for_dup_issues() {
    assert!(looks_like_const_symbol("constants::MASTER_PLAN_FILE"));
    assert!(looks_like_const_symbol(
        "llm_runtime::chromium_backend::FRAMES_DIR"
    ));
    assert!(!looks_like_const_symbol("app::run_planner_phase"));
    assert!(!looks_like_const_symbol("tools::handle_batch_action"));
}

#[test]
fn duplicate_issue_symbols_drop_const_like_entries() {
    let group = vec![
        "constants::MASTER_PLAN_FILE".to_string(),
        "app::run_planner_phase".to_string(),
        "tools::handle_batch_action".to_string(),
    ];
    let filtered = actionable_duplicate_symbols(&group);
    assert_eq!(
        filtered,
        vec![
            "app::run_planner_phase".to_string(),
            "tools::handle_batch_action".to_string()
        ]
    );
}

#[test]
fn duplicate_symbol_summary_is_capped() {
    let group: Vec<String> = (0..30).map(|i| format!("mod::f{i}")).collect();
    let summary = summarize_duplicate_symbols(&group);
    assert!(summary.contains("... (+6 more)"));
    assert!(!summary.contains("mod::f29"));
}

fn hot(symbol: &str) -> ScoredInterEntry {
    ScoredInterEntry {
        entry: InterEntry {
            symbol: symbol.to_string(),
            file: "/w/src/a.rs".to_string(),
            line: 7,
            b_direct: 3,
            callee_half_points: 0,
            callee_count: 0,
            call_out: 1,
            call_in: 2,
            mir_fingerprint: None,
            duplicate_of: Vec::new(),
            branch_half_points: 9,
            is_directly_recursive: false,
        },
        objective: 0.75f64.to_bits(),
        objective_text: "0.750".to_string(),
        heat_text: "4.9".to_string(),
        b_transitive_text: "4.5".to_string(),
        d_det_text: "0.50".to_string(),
    }
}

#[test]
fn a_closed_hotspot_that_comes_back_gets_a_new_issue() {
    let analyses = vec![CrateAnalysis {
        name: "app".to_string(),
        entries: vec![hot("m::a")],
        duplicate_groups: Vec::new(),
    }];
    let mut issues: Vec<Issue> = Vec::new();
    assert_eq!(generate_hotspot_issues(&mut issues, &analyses, 5), 1);
    assert_eq!(generate_hotspot_issues(&mut issues, &analyses, 5), 0);
    issues[0].status = "resolved".to_string();
    assert_eq!(generate_hotspot_issues(&mut issues, &analyses, 5), 1);
    assert_eq!(issues.len(), 2);
    assert_eq!(issues[0].status, "resolved");
    assert_eq!(issues[1].status, "open");
    assert_eq!(issues[0].id, issues[1].id);
    assert_eq!(generate_hotspot_issues(&mut issues, &analyses, 5), 0);
}

#[test]
fn a_closed_recursion_is_not_raised_again() {
    let mut entry = hot("m::a");
    entry.objective = 0;
    entry.entry.is_directly_recursive = true;
    let analyses = vec![CrateAnalysis {
        name: "app".to_string(),
        entries: vec![entry],
        duplicate_groups: Vec::new(),
    }];
    let mut issues: Vec<Issue> = Vec::new();
    assert_eq!(generate_hotspot_issues(&mut issues, &analyses, 5), 1);
    issues[0].status = "resolved".to_string();
    assert_eq!(generate_hotspot_issues(&mut issues, &analyses, 5), 0);
}
