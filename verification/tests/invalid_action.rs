use canon_mini_agent::invalid_action::{
    auto_fill_message_fields, build_feedback, build_invalid_action_feedback,
    collect_general_action_schema_diff, collect_message_schema_diff,
    corrective_invalid_action_prompt, default_message_route, ensure_action_base_schema,
    example_action_for, expected_message_format, format_message_schema,
    invalid_action_expected_fields, maybe_push_planner_plan_diagnostics_error,
    unsupported_action_templates, Findings,
};
use canon_mini_agent::json::{get, get_text, Json};
use canon_mini_agent::json_text::{parse_json, pretty_text};

fn json(s: &str) -> Json {
    parse_json(s).expect("json")
}

fn no_findings() -> Findings {
    Findings {
        action_schema: None,
        schema_diff: Vec::new(),
        scope_error: None,
        message_error: None,
    }
}

fn diff(action: &str, role: &str) -> Vec<String> {
    let v = json(action);
    let feedback = build_feedback(Some(&v), &no_findings(), "bad", role);
    match get(&feedback, "schema_diff") {
        Some(Json::Array(items)) => items
            .iter()
            .map(|i| match i {
                Json::Text(t) => t.clone(),
                _ => String::new(),
            })
            .collect(),
        _ => panic!("schema_diff"),
    }
}

#[test]
fn a_default_route_is_complete() {
    assert_eq!(
        default_message_route("executor-2"),
        ("executor", "verifier", "handoff", "complete")
    );
    assert_eq!(
        default_message_route("mini_planner"),
        ("planner", "executor", "plan", "complete")
    );
    assert_eq!(default_message_route("solo"), ("solo", "solo", "result", "complete"));
    assert_eq!(
        default_message_route("diagnostics"),
        ("diagnostics", "planner", "diagnostics", "complete")
    );
    assert_eq!(default_message_route("other"), ("executor", "verifier", "handoff", "complete"));
}

#[test]
fn a_message_format_names_its_route() {
    assert_eq!(
        expected_message_format("a", "b", "c", "d"),
        "{ \"action\": \"message\", \"from\": \"a\", \"to\": \"b\", \"type\": \"c\", \"status\": \"d\", \"payload\": { \"summary\": \"...\" } }"
    );
    let text = format_message_schema("a", "b", "c", "d", &[("k", "v")]);
    assert!(text.starts_with("```json\n{\n  \"action\": \"message\",\n  \"from\": \"a\","));
    assert!(text.ends_with("\"payload\": {\n    \"summary\": \"...\",\n    \"k\": \"v\"\n  }\n}\n```"));
}

#[test]
fn templates_show_every_tool() {
    let all = unsupported_action_templates();
    assert_eq!(all.len(), 19);
    assert!(all[0].contains("\"action\": \"list_dir\""));
    assert!(all[14].contains("graph_call"));
    assert!(all[18].contains("\"type\": \"blocker\""));
    for t in &all[..18] {
        let body = t.trim_start_matches("```json\n").trim_end_matches("\n```");
        assert!(parse_json(body).is_some(), "{body}");
    }
}

#[test]
fn a_correction_fits_the_error() {
    let action = json("{\"action\": \"fly\"}");
    let text = corrective_invalid_action_prompt(&action, "unsupported action 'fly'", "solo");
    assert!(text.unwrap().starts_with("Invalid action: unsupported action 'fly'.\n"));
    let text = corrective_invalid_action_prompt(&action, "message missing non-empty 'to'", "solo");
    assert!(text.unwrap().starts_with("Invalid action: message missing non-empty 'to'.\n"));
    let text = corrective_invalid_action_prompt(&action, "x message missing object payload", "solo");
    assert!(text.unwrap().contains("missing non-empty 'payload'"));
    assert!(corrective_invalid_action_prompt(&action, "other", "solo").is_none());
}

#[test]
fn every_kind_has_its_fields() {
    assert_eq!(
        invalid_action_expected_fields("read_file"),
        vec!["action", "path", "rationale", "predicted_next_actions"]
    );
    assert_eq!(
        invalid_action_expected_fields("issue"),
        vec!["action", "question", "rationale", "predicted_next_actions"]
    );
    assert_eq!(
        invalid_action_expected_fields("fly"),
        vec!["action", "rationale", "predicted_next_actions"]
    );
    assert_eq!(invalid_action_expected_fields("message").len(), 8);
}

#[test]
fn an_example_is_shown_for_every_kind() {
    for kind in [
        "run_command",
        "read_file",
        "list_dir",
        "apply_patch",
        "python",
        "symbols_index",
        "symbols_rename_candidates",
        "symbols_prepare_rename",
        "rename_symbol",
        "cargo_test",
        "plan",
        "message",
    ] {
        assert_eq!(get_text(&example_action_for(kind, "solo", None), "action"), Some(kind));
    }
    let other = example_action_for("fly", "solo", None);
    assert_eq!(get_text(&other, "from"), Some("executor"));
    let given = json(
        "{\"from\": \"Executor\", \"to\": \"Planner\", \"type\": \"BLOCKER\", \"status\": \"Blocked\"}",
    );
    let shown = example_action_for("message", "solo", Some(&given));
    assert_eq!(get_text(&shown, "to"), Some("planner"));
    assert_eq!(get_text(get(&shown, "payload").unwrap(), "severity"), Some("error"));
}

#[test]
fn what_is_missing_is_named_once() {
    assert_eq!(
        diff("{}", "solo"),
        vec!["missing field: action", "unsupported action: missing or unknown action"]
    );
    assert_eq!(
        diff("{\"action\": \"run_command\", \"rationale\": \" \", \"observation\": 3, \"cmd\": 1}", "solo"),
        vec![
            "missing field: rationale",
            "field type mismatch: observation (expected string)",
            "field type mismatch: cmd (expected string)"
        ]
    );
    let mut found: Vec<String> = vec!["missing field: path".to_string()];
    let action = json("{\"action\": \"read_file\", \"rationale\": \"r\"}");
    collect_general_action_schema_diff(&mut found, &action, "read_file", &None);
    assert_eq!(found, vec!["missing field: path"]);
}

#[test]
fn a_patch_out_of_scope_is_named() {
    let action = json("{\"action\": \"apply_patch\", \"rationale\": \"r\", \"patch\": \"p\"}");
    let mut found: Vec<String> = Vec::new();
    collect_general_action_schema_diff(
        &mut found,
        &action,
        "apply_patch",
        &Some("out of scope".to_string()),
    );
    assert_eq!(found, vec!["out of scope"]);
}

#[test]
fn a_plan_on_diagnostics_cites_its_source() {
    let stale = json("{\"rationale\": \"Stale diagnostics.\"}");
    let cited = json("{\"rationale\": \"Stale; see read_file.\"}");
    let count = |action: &Json, role: &str, kind: &str| {
        let mut found: Vec<String> = Vec::new();
        maybe_push_planner_plan_diagnostics_error(&mut found, action, role, kind);
        found.len()
    };
    assert_eq!(count(&stale, "planner", "plan"), 1);
    assert_eq!(count(&cited, "planner", "plan"), 0);
    assert_eq!(count(&stale, "executor", "plan"), 0);
    assert_eq!(count(&stale, "mini_planner", "read_file"), 0);
}

#[test]
fn a_message_is_held_to_its_schema() {
    let action = json(
        "{\"action\": \"message\", \"from\": \"Executor\", \"type\": \"blocker\", \"status\": \"complete\", \"payload\": 3, \"evidence\": \"e\"}",
    );
    let mut found: Vec<String> = Vec::new();
    collect_message_schema_diff(&mut found, &action, &Some("message invalid".to_string()));
    assert_eq!(
        found,
        vec![
            "missing field: to",
            "missing field: payload",
            "payload must be object",
            "field type mismatch: payload (expected object)",
            "missing field: rationale",
            "message invalid",
            "role casing invalid: from=Executor",
            "type/status mismatch: type=blocker status=complete",
            "payload.summary missing",
            "blocker fields must be inside payload: blocker/evidence/required_action",
            "payload.blocker missing",
            "payload.evidence missing",
            "payload.required_action missing"
        ]
    );
    let feedback = build_feedback(Some(&action), &no_findings(), "bad", "solo");
    assert_eq!(
        get_text(&feedback, "expected_format"),
        Some(expected_message_format("Executor", "verifier", "blocker", "complete").as_str())
    );
}

#[test]
fn feedback_is_printed_for_the_model() {
    let text = build_invalid_action_feedback(None, &no_findings(), "no action", "solo");
    assert!(text.starts_with(
        "Invalid action rejected.\naction_result:\n{\n  \"action_schema\": null,\n  \"error_type\": \"invalid_action\",\n  \"example_action\": null,\n  \"expected_fields\": [],"
    ));
    assert!(text.contains("\"reason\": \"no action\""));
    assert!(text.ends_with("stating the decision-boundary premise."));
}

#[test]
fn a_repaired_action_needs_no_repair() {
    let mut action = json("{\"action\": \"read_file\", \"intent\": \" \", \"task_id\": \"\"}");
    assert!(ensure_action_base_schema(&mut action));
    assert_eq!(get_text(&action, "rationale"), Some("Auto-filled to satisfy schema."));
    assert_eq!(get_text(&action, "intent"), Some("Auto-filled intent."));
    assert_eq!(get_text(&action, "task_id"), Some(""));
    assert_eq!(get_text(&action, "objective_id"), Some("unknown"));
    assert!(matches!(get(&action, "predicted_next_actions"), Some(Json::Array(v)) if v.len() == 2));
    let before = pretty_text(&action);
    assert!(!ensure_action_base_schema(&mut action));
    assert_eq!(pretty_text(&action), before);
    let mut list = json("[]");
    assert!(!ensure_action_base_schema(&mut list));
}

#[test]
fn a_repair_overwrites_nothing() {
    let text = "{\n  \"intent\": \"i\",\n  \"objective_id\": \"O\",\n  \"predicted_next_actions\": [\n    1\n  ],\n  \"rationale\": 5,\n  \"task_id\": \"T\"\n}";
    let mut action = json(text);
    assert!(!ensure_action_base_schema(&mut action));
    assert_eq!(pretty_text(&action), text);
}

#[test]
fn a_completed_message_lacks_nothing() {
    let mut action = json(
        "{\"action\": \"message\", \"from\": \"planner\", \"status\": \"blocked\", \"payload\": {\"summary\": \"s\"}}",
    );
    assert!(auto_fill_message_fields(&mut action, "executor-1"));
    assert_eq!(get_text(&action, "from"), Some("executor"));
    assert_eq!(get_text(&action, "to"), Some("verifier"));
    assert_eq!(get_text(&action, "type"), Some("handoff"));
    assert_eq!(get_text(&action, "status"), Some("blocked"));
    let payload = get(&action, "payload").unwrap();
    assert_eq!(get_text(payload, "summary"), Some("s"));
    assert_eq!(get_text(payload, "blocker"), Some("auto-filled blocker details"));
    assert_eq!(
        get_text(payload, "expected_format"),
        Some(expected_message_format("executor", "verifier", "handoff", "blocked").as_str())
    );
    assert_eq!(get_text(&action, "observation"), Some("Auto-filled missing message fields."));
    assert!(!auto_fill_message_fields(&mut action, "executor-1"));
    let mut other = json("{\"action\": \"plan\"}");
    assert!(!auto_fill_message_fields(&mut other, "executor-1"));
}
