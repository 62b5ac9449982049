use canon_mini_agent::syn_writer::{
    apply_insertions, apply_replacements, build_doc, count_status, effects_of, find_doc_block_range,
    find_insert_point, find_intent_line, insert_docs, is_candidate, leading_ws,
    mark_actions_after_write, path_starts_with, path_under_workspace_src, plan_file, replace_docs,
    EffectSet, GraphEdge, GraphNode, Insertion, LogAction, Replacement, SourceSpan,
};

#[test]
fn find_doc_block_range_spans_contiguous_doc_lines() {
    let lines = vec![
        "/// Intent: pure_transform",
        "/// Effects: reads_state",
        "/// Provenance: generated",
        "fn run() {}",
    ];
    let (start, end) = find_doc_block_range(&lines, 0);
    assert_eq!((start, end), (0, 3));
    assert_eq!(find_doc_block_range(&lines, 4), (4, 5));
    assert_eq!(find_doc_block_range(&lines[..3], 3), (0, 4));
    assert_eq!(find_doc_block_range(&[], 0), (0, 1));
}

#[test]
fn apply_replacements_replaces_entire_doc_block() {
    let source = "/// Intent: old\n/// Effects: stale\nfn run() {}\n";
    let reps = vec![Replacement {
        start_idx: 0,
        end_idx: 2,
        new_text: "/// Intent: new\n/// Provenance: generated\n".to_string(),
        fn_line: 3,
    }];
    let out = apply_replacements(source, &reps);
    assert_eq!(out, "/// Intent: new\n/// Provenance: generated\nfn run() {}\n");
}

#[test]
fn find_insert_point_skips_attributes() {
    let lines = vec!["#[inline]", "fn run() {}"];
    let idx = find_insert_point(&lines, 1).unwrap();
    assert_eq!(idx, 0);
}

#[test]
fn mark_actions_after_write_updates_status_and_counts() {
    let mut actions = vec![
        LogAction {
            status: "pending_write".to_string(),
            fn_path: "x::f".to_string(),
            file: "src/x.rs".to_string(),
            fn_line: 10,
            intent_class: "pure_transform".to_string(),
            generated_text: Some("/// Intent: pure_transform\n".to_string()),
        },
    ];
    let mut n_gen = 0usize;
    let mut n_write_err = 0usize;

    mark_actions_after_write(
        &mut actions,
        &[0],
        false,
        "generated",
        &mut n_gen,
        &mut n_write_err,
    );
    assert_eq!(actions[0].status, "error:write_failed");
    assert!(actions[0].generated_text.is_none());
    assert_eq!(n_gen, 0);
    assert_eq!(n_write_err, 1);
}

#[test]
fn path_filter_accepts_relative_src_path() {
    let root = "/workspace/ai_sandbox/canon-mini-agent";
    let src = format!("{root}/src");
    assert!(path_under_workspace_src("src/lib.rs", None, &src));
}

fn edge(from: &str, relation: &str) -> GraphEdge {
    GraphEdge { relation: relation.to_string(), from: from.to_string() }
}

fn node(id: &str, line: u32) -> GraphNode {
    GraphNode {
        id: id.to_string(),
        path: format!("app::{id}"),
        kind: "fn".to_string(),
        intent_class: Some("pure_transform".to_string()),
        resource: None,
        provenance: Vec::new(),
        docstring: None,
        def: Some(SourceSpan { file: "src/app.rs".to_string(), line }),
    }
}

#[test]
fn a_doc_comment_lists_effects_and_resource() {
    let edges = vec![edge("n1", "WritesState"), edge("n2", "UsesNetwork"), edge("n1", "ReadsState")];
    let effects = effects_of(&edges, "n1");
    assert_eq!(effects.labels(), vec!["reads_state".to_string(), "writes_state".to_string()]);
    let doc = build_doc("canonical_write", Some("plan"), Some(&effects), "    ");
    assert_eq!(
        doc,
        "    /// Intent: canonical_write\n    /// Effects: reads_state, writes_state\n    /// Resource: plan\n    /// Provenance: generated\n"
    );
    let none = effects_of(&edges, "n3");
    assert_eq!(build_doc("x", Some(""), Some(&none), ""), "/// Intent: x\n/// Provenance: generated\n");
    assert_eq!(build_doc("x", None, None, ""), "/// Intent: x\n/// Provenance: generated\n");
}

#[test]
fn all_effects_are_named_in_their_order() {
    let all = EffectSet {
        reads_artifact: true,
        reads_state: true,
        writes_artifact: true,
        writes_state: true,
        spawns_process: true,
        uses_network: true,
        transitions_state: true,
        logging: true,
    };
    assert_eq!(
        all.labels().join(","),
        "reads_artifact,reads_state,writes_artifact,writes_state,transitions_state,spawns_process,uses_network,logging"
    );
}

#[test]
fn an_insert_point_is_refused_below_docs_and_split_attributes() {
    assert_eq!(find_insert_point(&["/// docs", "fn run() {}"], 1), Err("existing_doc"));
    assert_eq!(find_insert_point(&["//! docs", "fn run() {}"], 1), Err("existing_doc"));
    assert_eq!(find_insert_point(&["#[derive(", "fn run() {}"], 1), Err("complex_attr"));
    assert_eq!(find_insert_point(&["use x;", "fn run() {}"], 1), Ok(1));
    assert_eq!(find_insert_point(&["fn run() {}"], 0), Ok(0));
}

#[test]
fn an_intent_line_is_found_above_attributes() {
    assert_eq!(find_intent_line(&["/// Intent: x", "#[inline]", "fn run() {}"], 2), Some(0));
    assert_eq!(find_intent_line(&["/// Other", "fn run() {}"], 1), None);
    assert_eq!(find_intent_line(&["#[inline]", "fn run() {}"], 1), None);
}

#[test]
fn leading_white_space_is_blanks_and_tabs() {
    assert_eq!(leading_ws("\t  fn run() {}"), "\t  ");
    assert_eq!(leading_ws("fn run() {}"), "");
}

#[test]
fn paths_begin_by_whole_parts() {
    assert!(path_starts_with("/ws/src//lib.rs", "/ws/src"));
    assert!(path_starts_with("/ws/./src/lib.rs", "/ws/src/"));
    assert!(!path_starts_with("/ws/src2/lib.rs", "/ws/src"));
    assert!(!path_starts_with("./src/lib.rs", "src"));
    assert!(path_under_workspace_src("/link/lib.rs", Some("/ws/src/lib.rs"), "/ws/src"));
    assert!(!path_under_workspace_src("src/lib.rs", Some("/other/lib.rs"), "/ws/src"));
    assert!(path_under_workspace_src("/ws/src/lib.rs", None, "/ws/src"));
    assert!(!path_under_workspace_src("tests/lib.rs", None, "/ws/src"));
}

#[test]
fn candidates_lack_a_doc_comment_or_have_only_an_intent() {
    let plain = node("n1", 1);
    assert!(is_candidate(&plain, true, false));
    assert!(!is_candidate(&plain, false, false));
    assert!(!is_candidate(&plain, true, true));
    let mut seeded = node("n2", 1);
    seeded.provenance = vec!["rustc:facts".to_string(), "rustc:docstring".to_string()];
    seeded.docstring = Some(" Intent: pure_transform".to_string());
    assert!(!is_candidate(&seeded, true, false));
    assert!(is_candidate(&seeded, true, true));
    seeded.docstring = Some("Intent: x\nEffects: y".to_string());
    assert!(!is_candidate(&seeded, true, true));
    let mut other = node("n3", 1);
    other.kind = "struct".to_string();
    assert!(!is_candidate(&other, true, false));
}

#[test]
fn a_plan_inserts_from_the_end_and_keeps_every_line() {
    let source = "use x;\n#[inline]\nfn a() {}\n    fn b() {}\n";
    let edges = vec![edge("b", "PerformsLogging")];
    let plan = plan_file(vec![node("a", 3), node("b", 4)], &edges, "src/app.rs", source, false, true);
    assert_eq!(plan.actions.len(), 2);
    assert_eq!(plan.actions[0].fn_path, "app::b");
    assert_eq!(plan.actions[0].status, "pending_write");
    assert_eq!(plan.pending, vec![0, 1]);
    let places: Vec<usize> = plan.insertions.iter().map(|i| i.insert_at).collect();
    assert_eq!(places, vec![3, 1]);
    let lines: Vec<u32> = plan.insertions.iter().map(|i| i.fn_line).collect();
    assert_eq!(lines, vec![4, 3]);
    let out = insert_docs(source, plan.insertions);
    assert_eq!(
        out,
        "use x;\n/// Intent: pure_transform\n/// Provenance: generated\n#[inline]\nfn a() {}\n    /// Intent: pure_transform\n    /// Effects: logging\n    /// Provenance: generated\n    fn b() {}\n"
    );
}

#[test]
fn a_plan_replaces_an_intent_line() {
    let source = "/// Intent: pure_transform\nfn a() {}";
    let plan = plan_file(vec![node("a", 2)], &Vec::new(), "src/app.rs", source, true, false);
    assert_eq!(plan.actions[0].status, "dry_run");
    assert!(plan.pending.is_empty());
    assert_eq!(plan.replacements.len(), 1);
    assert_eq!(plan.replacements[0].fn_line, 2);
    let out = replace_docs(source, plan.replacements);
    assert_eq!(out, "/// Intent: pure_transform\n/// Provenance: generated\nfn a() {}");
}

#[test]
fn a_plan_says_why_a_function_is_skipped() {
    let source = "/// docs\nfn a() {}\n#[cfg(\nfn b() {}";
    let nodes = vec![node("a", 2), node("b", 4), node("c", 9)];
    let plan = plan_file(nodes, &Vec::new(), "src/app.rs", source, false, true);
    let statuses: Vec<&str> = plan.actions.iter().map(|a| a.status.as_str()).collect();
    assert_eq!(statuses, vec!["skip:bad_span", "skip:complex_attr", "skip:existing_doc"]);
    assert_eq!(count_status(&plan.actions, "skip:bad_span"), 1);
    assert_eq!(count_status(&plan.actions, "generated"), 0);
    let plan = plan_file(vec![node("b", 4)], &Vec::new(), "src/app.rs", source, true, true);
    assert_eq!(plan.actions[0].status, "skip:intent_not_found");
}

#[test]
fn edits_without_any_leave_the_source() {
    let source = "a\n\nb\n";
    assert_eq!(apply_insertions(source, &[]), source);
    assert_eq!(apply_replacements(source, &[]), source);
    let past = Replacement { start_idx: 3, end_idx: 9, new_text: "x".to_string(), fn_line: 1 };
    assert_eq!(apply_replacements(source, &[past]), source);
    let ins = Insertion { insert_at: 1, text: "x\ny\n".to_string(), fn_line: 1 };
    assert_eq!(apply_insertions(source, &[ins]), "a\nx\ny\n\nb\n");
}
