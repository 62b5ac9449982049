use canon_mini_agent::json::{get, get_text, Json};
use canon_mini_agent::json_text::{parse_json, pretty_text};
use canon_mini_agent::semantic::{RatioText, SymbolSummary};
use canon_mini_agent::tickets::{
    build_summary, collect_issues_for_crate, counts_among_all_crates,
    emit_generated_issues_payload, ensure_shape, load_issues, merge_generated_issues,
    parse_ticket_args, prune_stale_generated_issues, sort_and_truncate_issues,
    sort_issues_by_priority, stable_id, update_issues_file, TicketArgs,
};

fn args(list: &[&str]) -> Vec<String> {
    list.iter().map(|s| s.to_string()).collect()
}

fn json(s: &str) -> Json {
    parse_json(s).expect("json")
}

fn ids(issues: &[Json]) -> Vec<String> {
    issues.iter().map(|i| get_text(i, "id").unwrap_or("").to_string()).collect()
}

fn symbol(name: &str, blocks: usize, stmts: usize) -> SymbolSummary {
    let ratio = || RatioText { two_places: "0.00".to_string(), number: "0.0".to_string() };
    SymbolSummary {
        symbol: name.to_string(),
        kind: "fn".to_string(),
        file: "src/lib.rs".to_string(),
        display_file: "src/lib.rs".to_string(),
        line: 12,
        signature: None,
        mir_fingerprint: Some("a\"b".to_string()),
        mir_blocks: Some(blocks),
        mir_stmts: Some(stmts),
        call_in: 2,
        call_out: 3,
        branch_half_points: None,
        is_directly_recursive: false,
        switchint_count: 0,
        has_back_edges: false,
        switchint_density: ratio(),
        non_cleanup_fraction: ratio(),
    }
}

fn ticket_args(more: &[&str]) -> TicketArgs {
    let mut list = vec!["canon-tickets", "--workspace", "/ws"];
    list.extend_from_slice(more);
    parse_ticket_args(&args(&list)).unwrap()
}

#[test]
fn arguments_have_defaults() {
    let a = ticket_args(&["--top", "5", "--prune"]);
    assert_eq!(a.crate_name, "canon_mini_agent");
    assert_eq!(a.issues_path, "/ws/ISSUES.json");
    assert_eq!((a.limit, a.min_blocks, a.min_stmts, a.top), (20, 50, 200, 5));
    assert!(a.prune && !a.dry_run && !a.print && !a.all_crates);
    assert_eq!(parse_ticket_args(&args(&["x"])).unwrap_err(), "missing --workspace");
    assert_eq!(
        parse_ticket_args(&args(&["--workspace", "/ws", "--limit", "x"])).unwrap_err(),
        "--limit must be an integer"
    );
    assert!(!counts_among_all_crates("build_script_build"));
    assert!(counts_among_all_crates("app"));
}

fn fnv(parts: &[&str]) -> u64 {
    let mut h: u64 = 1469598103934665603;
    for p in parts {
        for b in p.as_bytes() {
            h ^= *b as u64;
            h = h.wrapping_mul(1099511628211);
        }
    }
    h
}

#[test]
fn an_id_depends_on_family_crate_and_symbol() {
    let expected = format!("auto_branch_reduce_app_{:016x}", fnv(&["auto_branch_reduce", "app", "m::f"]));
    assert_eq!(stable_id("auto_branch_reduce", "app", "m::f"), expected);
    assert_ne!(stable_id("auto_branch_reduce", "app", "m::g"), expected);
}

#[test]
fn large_functions_get_tickets() {
    let all = vec![symbol("m::a", 60, 10), symbol("m::b", 90, 300), symbol("m::c", 1, 1)];
    let (tickets, found) = collect_issues_for_crate("app", &all, &ticket_args(&[]));
    assert_eq!(tickets.len(), 3);
    assert!(matches!(get(&found, "branch_candidates"), Some(Json::Uint(2))));
    assert!(matches!(get(&found, "refactor_candidates"), Some(Json::Uint(1))));
    assert!(matches!(get(&found, "symbols_with_defs"), Some(Json::Uint(3))));
    let first = &tickets[0].issue;
    assert_eq!(get_text(first, "title"), Some("Reduce branch complexity: m::b"));
    assert_eq!(get_text(first, "priority"), Some("medium"));
    assert_eq!(get_text(first, "location"), Some("src/lib.rs:12"));
    let text = get_text(first, "description").unwrap();
    assert!(text.starts_with("MIR suggests high branch complexity (blocks=Some(90), stmts=Some(300)).\n\nGoal: reduce"));
    assert!(text.ends_with("\"mode\":\"mir\",\"extra\":\"m::b\"}"));
    let Some(Json::Array(evidence)) = get(first, "evidence") else { panic!("evidence") };
    assert!(matches!(
        &evidence[2],
        Json::Text(t) if t == "mir: fingerprint=Some(\"a\\\"b\") blocks=Some(90) stmts=Some(300)"
    ));
    assert_eq!(get_text(&tickets[2].issue, "priority"), Some("low"));
    let (few, _) = collect_issues_for_crate("app", &all, &ticket_args(&["--limit", "1"]));
    assert_eq!(few.len(), 2);
}

#[test]
fn the_heaviest_tickets_come_first() {
    let all = vec![symbol("m::a", 60, 500), symbol("m::b", 90, 10)];
    let (tickets, _) = collect_issues_for_crate("app", &all, &ticket_args(&[]));
    let sorted = sort_and_truncate_issues(tickets, 2);
    let titles: Vec<&str> =
        sorted.iter().map(|t| get_text(&t.issue, "title").unwrap()).collect();
    assert_eq!(
        titles,
        vec!["Reduce branch complexity: m::b", "Reduce branch complexity: m::a"]
    );
}

#[test]
fn a_shaped_file_is_shaped() {
    let empty = "{\n  \"issues\": [],\n  \"version\": 0\n}";
    assert_eq!(pretty_text(&load_issues("  ")), empty);
    assert_eq!(pretty_text(&load_issues("{")), empty);
    assert_eq!(pretty_text(&ensure_shape(json("[]"))), empty);
    assert_eq!(
        pretty_text(&ensure_shape(json("{\"version\": 3, \"issues\": 1}"))),
        "{\n  \"issues\": [],\n  \"version\": 3\n}"
    );
    let shaped = ensure_shape(json("{\"x\": 1}"));
    let text = pretty_text(&shaped);
    assert_eq!(pretty_text(&ensure_shape(shaped)), text);
}

#[test]
fn a_merge_keeps_places() {
    let mut issues = vec![json("{\"id\": \"a\", \"x\": 1}"), json("{\"id\": \"b\"}"), json("3")];
    let new = vec![json("{\"id\": \"c\"}"), json("{\"id\": \"a\", \"x\": 2}"), json("{}")];
    let merge = merge_generated_issues(&mut issues, &new);
    assert_eq!(ids(&issues), vec!["a", "b", "", "c"]);
    assert!(matches!(get(&issues[0], "x"), Some(Json::Uint(2))));
    assert_eq!(merge.added_ids, vec!["c".to_string()]);
    assert_eq!(merge.updated_ids, vec!["a".to_string()]);
    assert_eq!(ids(&merge.applied_issue_objects), vec!["c", "a"]);
}

#[test]
fn pruning_spares_other_issues() {
    let list = || {
        vec![
            json("{\"id\": \"auto_branch_reduce_1\", \"discovered_by\": \"tickets\"}"),
            json("{\"id\": \"auto_branch_reduce_2\", \"discovered_by\": \"tickets\"}"),
            json("{\"id\": \"auto_refactor_split_3\", \"discovered_by\": \"me\"}"),
            json("{\"id\": \"own\", \"discovered_by\": \"tickets\"}"),
            json("{}"),
        ]
    };
    let applied = vec![json("{\"id\": \"auto_branch_reduce_2\"}")];
    let (kept, pruned) = prune_stale_generated_issues(list(), &applied, true);
    assert_eq!(pruned, 1);
    assert_eq!(ids(&kept), vec!["auto_branch_reduce_2", "auto_refactor_split_3", "own", ""]);
    let (all, none) = prune_stale_generated_issues(list(), &applied, false);
    assert_eq!((all.len(), none), (5, 0));
}

#[test]
fn issues_are_sorted_by_priority() {
    let sorted = sort_issues_by_priority(vec![
        json("{\"id\": \"d\", \"priority\": \"odd\"}"),
        json("{\"id\": \"c\"}"),
        json("{\"id\": \"b\", \"priority\": \"HIGH\"}"),
        json("{\"id\": \"a\", \"priority\": \"low\"}"),
        json("{\"id\": \"e\", \"priority\": \"medium\"}"),
    ]);
    assert_eq!(ids(&sorted), vec!["b", "e", "a", "c", "d"]);
}

#[test]
fn a_file_is_updated_and_summed_up() {
    let all = vec![symbol("m::a", 60, 500), symbol("m::b", 90, 10)];
    let a = ticket_args(&["--top", "1", "--prune"]);
    let (tickets, found) = collect_issues_for_crate("app", &all, &a);
    let root = json(
        "{\"version\": 4, \"issues\": [{\"id\": \"auto_refactor_split_x\", \"discovered_by\": \"tickets\"}, {\"id\": \"z\", \"priority\": \"high\"}]}",
    );
    let file = update_issues_file(root, tickets, a.top, a.prune);
    assert_eq!((file.total, file.pruned), (2, 1));
    let Some(Json::Array(issues)) = get(&file.root, "issues") else { panic!("issues") };
    assert_eq!(ids(issues), vec!["z".to_string(), stable_id("auto_branch_reduce", "app", "m::b")]);
    assert!(matches!(get(&file.root, "version"), Some(Json::Uint(4))));
    let summary = build_summary(&a, &file, found, Json::Null);
    assert!(matches!(get(&summary, "added"), Some(Json::Uint(1))));
    assert!(matches!(get(&summary, "pruned"), Some(Json::Uint(1))));
    assert_eq!(get_text(&summary, "issues_path"), Some("/ws/ISSUES.json"));
    let payload = emit_generated_issues_payload(file.merge.applied_issue_objects);
    assert!(matches!(get(&payload, "generated_issues"), Some(Json::Array(v)) if v.len() == 1));
}
