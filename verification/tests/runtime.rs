use canon_mini_agent::constants::{
    active_task_id, agent_state_dir, diagnostics_file, diagnostics_file_for_instance,
    endpoint_specs, is_self_modification_mode, is_source_tree, lane_plan_file_for_instance,
    planner_projection_file, planner_projection_file_for_instance, role_timeout_secs,
    set_active_task_id, set_agent_state_dir, set_planner_projection_file, set_workspace,
    workspace, RuntimeContext, DEFAULT_WORKSPACE,
};
use canon_mini_agent::issues::{resolve_stale, upsert_bridge_issue, Issue};
use canon_mini_agent::json::Json;
use canon_mini_agent::order::sort_texts;
use canon_mini_agent::proposals::{sync_family, Proposal};
use canon_mini_agent::text::{
    byte_len, decimal, first_line, hexadecimal_padded, join, join_path, parse_u64, split,
    stable_hash, strip_prefix, text_after_last, to_ascii_lower, trim, trim_end_matches,
    trim_start,
};
use std::hash::{Hash, Hasher};

#[test]
fn a_context_has_defaults() {
    let mut ctx = RuntimeContext::new();
    assert_eq!(workspace(&ctx), DEFAULT_WORKSPACE);
    assert_eq!(workspace(&ctx), "/workspace/ai_sandbox/canon");
    assert_eq!(agent_state_dir(&ctx), "/workspace/ai_sandbox/canon-mini-agent/agent_state");
    assert_eq!(planner_projection_file(&ctx), "agent_state/default/planner-default.json");
    assert_eq!(active_task_id(&ctx), "");
    set_workspace(&mut ctx, "/ws".to_string());
    set_agent_state_dir(&mut ctx, "/ws/agent_state".to_string());
    set_active_task_id(&mut ctx, "T1");
    assert_eq!(workspace(&ctx), "/ws");
    assert_eq!(agent_state_dir(&ctx), "/ws/agent_state");
    assert_eq!(active_task_id(&ctx), "T1");
    assert!(is_source_tree(&ctx, Some("/ws")));
    assert!(!is_source_tree(&ctx, Some("/other")));
    assert!(!is_source_tree(&ctx, None));
}

#[test]
fn the_agent_modifies_itself_in_its_own_source_tree() {
    let mut ctx = RuntimeContext::new();
    assert!(!is_self_modification_mode(&ctx));
    set_workspace(&mut ctx, "/w/agent".to_string());
    set_agent_state_dir(&mut ctx, "/w/agent/agent_state".to_string());
    assert!(is_self_modification_mode(&ctx));
    set_workspace(&mut ctx, "/w/other".to_string());
    assert!(!is_self_modification_mode(&ctx));
    set_workspace(&mut ctx, "/".to_string());
    set_agent_state_dir(&mut ctx, "/agent_state".to_string());
    assert!(is_self_modification_mode(&ctx));
    set_agent_state_dir(&mut ctx, "/".to_string());
    assert!(!is_self_modification_mode(&ctx));
    set_workspace(&mut ctx, String::new());
    set_agent_state_dir(&mut ctx, String::new());
    assert!(!is_self_modification_mode(&ctx));
}

#[test]
fn a_projection_file_is_set_once() {
    let mut ctx = RuntimeContext::new();
    assert!(set_planner_projection_file(&mut ctx, "a.json".to_string()));
    assert!(!set_planner_projection_file(&mut ctx, "b.json".to_string()));
    assert_eq!(planner_projection_file(&ctx), "a.json");
    assert_eq!(diagnostics_file(&ctx), "a.json");
}

#[test]
fn instances_have_their_files() {
    assert_eq!(planner_projection_file_for_instance("i1"), "agent_state/i1/planner-i1.json");
    assert_eq!(diagnostics_file_for_instance("i1"), "agent_state/i1/planner-i1.json");
    assert_eq!(lane_plan_file_for_instance("i1", "e"), "agent_state/i1/executor-e.json");
}

#[test]
fn roles_have_endpoints_and_time() {
    assert_eq!(role_timeout_secs("planner"), Some(60));
    assert_eq!(role_timeout_secs("executor"), Some(30));
    assert_eq!(role_timeout_secs("solo"), None);
    let specs = endpoint_specs();
    assert_eq!(specs.len(), 2);
    assert_eq!((specs[1].role, specs[1].max_tabs), ("executor", 2));
}

#[test]
fn texts_are_taken_apart() {
    assert_eq!(trim(" \u{a0}a b\t\n"), "a b");
    assert_eq!(trim_start("  a "), "a ");
    assert_eq!(split("a,b,,c", ','), vec!["a", "b", "", "c"]);
    assert_eq!(join(&split("a,b,,c", ','), ","), "a,b,,c");
    assert_eq!(first_line("a\r\nb"), "a");
    assert_eq!(strip_prefix("abc", "ab").as_deref(), Some("c"));
    assert_eq!(strip_prefix("abc", "b"), None);
    assert_eq!(text_after_last("a::b::c", "::"), "c");
    assert_eq!(trim_end_matches("x////", "//"), "x");
    assert_eq!(to_ascii_lower("AbÄ"), "abÄ");
    assert_eq!(byte_len("aÄ"), 3);
    assert_eq!(join_path("/a", "b"), "/a/b");
    assert_eq!(join_path("/a/", "b"), "/a/b");
    assert_eq!(join_path("/a", "/b"), "/b");
}

#[test]
fn numbers_are_written_and_read() {
    assert_eq!(decimal(0), "0");
    assert_eq!(decimal(u64::MAX), u64::MAX.to_string());
    assert_eq!(hexadecimal_padded(255, 16), format!("{:016x}", 255));
    for t in ["0", "007", "+5", "-1", "", "+", "18446744073709551615", "18446744073709551616", "1a"] {
        assert_eq!(parse_u64(t), t.parse::<u64>().ok(), "{t}");
    }
}

#[test]
fn texts_are_sorted_as_their_bytes_are() {
    let mut list: Vec<String> =
        ["b", "a\u{10000}", "a\u{ffff}", "", "B"].iter().map(|s| s.to_string()).collect();
    let sorted = sort_texts(list.clone());
    list.sort();
    assert_eq!(sorted, list);
}

#[test]
fn a_hash_depends_on_the_text_alone() {
    for t in ["", "ab", "aÄ"] {
        let mut hasher = std::collections::hash_map::DefaultHasher::new();
        t.hash(&mut hasher);
        assert_eq!(stable_hash(t), hasher.finish());
    }
    assert_ne!(stable_hash("a"), stable_hash("b"));
}

fn issue(id: &str) -> Issue {
    Issue {
        id: id.to_string(),
        title: "t".to_string(),
        status: "open".to_string(),
        priority: "high".to_string(),
        kind: "logic".to_string(),
        description: "d".to_string(),
        location: "l".to_string(),
        scope: "s".to_string(),
        metrics: Json::Null,
        acceptance_criteria: Vec::new(),
        evidence: Vec::new(),
        discovered_by: "me".to_string(),
    }
}

#[test]
fn a_finding_is_kept_while_it_holds() {
    let mut issues: Vec<Issue> = Vec::new();
    assert_eq!(upsert_bridge_issue(&mut issues, issue("a"), false), 0);
    assert!(issues.is_empty());
    assert!(upsert_bridge_issue(&mut issues, issue("a"), true) > 0);
    assert_eq!(upsert_bridge_issue(&mut issues, issue("a"), true), 0);
    assert_eq!(issues.len(), 1);
    assert!(resolve_stale(&mut issues, "a", &Vec::new()) > 0);
    assert_eq!(issues[0].status, "resolved");
}

#[test]
fn a_family_follows_its_proposals() {
    let mut issues = vec![issue("fam_old"), issue("own")];
    let proposals = vec![Proposal { issue: issue("fam_new"), active: true }];
    assert!(sync_family(&mut issues, proposals, "fam_") > 0);
    let status = |id: &str| issues.iter().find(|i| i.id == id).map(|i| i.status.as_str());
    assert_eq!(status("fam_old"), Some("resolved"));
    assert_eq!(status("fam_new"), Some("open"));
    assert_eq!(status("own"), Some("open"));
}
