use canon_mini_agent::capability::{
    configure_runtime, parse_capability_args, read_action, write_result,
};
use canon_mini_agent::constants::{agent_state_dir, workspace, RuntimeContext};
use canon_mini_agent::flags::{
    has_flag, help_requested, parse_usize_flag, take_flag_value, take_flag_value_or,
};
use canon_mini_agent::json::{get, get_text, Json};
use canon_mini_agent::json_text::{parse_json, pretty_text};
use canon_mini_agent::lessons::{candidates_path, lessons_state_dir, lessons_workspace};
use canon_mini_agent::rename_example::{
    checkpoint, had_local_changes, inside_worktree, rollback_commands,
};
use canon_mini_agent::route::{build_route_payload, resolve_route_fields, route_text};
use canon_mini_agent::supervisor::{
    advance, agent_state_dir_from_args, announcement, binary_path, command_for,
    cycle_idle_marker_path, filter_args, has_updated, newest_candidate,
    orchestrator_mode_flag_path, report, restart_reason, tick, wait_step, BinaryCandidate,
    BuildKind, ChildState, Decision, Observed, Outcome, Restart, Step, WaitStep,
};
use canon_mini_agent::user_chat::{
    build_receipt, build_user_handoff_action_text, check_absolute, inbound_message,
    message_in_file, message_source, resolve_state_dir, sanitize_role,
    user_message_projections, MessageSource,
};

fn args(list: &[&str]) -> Vec<String> {
    list.iter().map(|s| s.to_string()).collect()
}

fn json(s: &str) -> Json {
    parse_json(s).expect("json")
}

#[test]
fn a_flag_is_read_back() {
    let a = args(&["x", "--top", "7", "--print", "--crate"]);
    assert_eq!(take_flag_value(&a, "--top").as_deref(), Some("7"));
    assert_eq!(take_flag_value(&a, "--crate"), None);
    assert_eq!(take_flag_value_or(&a, "--crate", "app"), "app");
    assert!(has_flag(&a, "--crate") && !has_flag(&a, "--prune"));
    assert_eq!(parse_usize_flag(&a, "--top", 3), Ok(7));
    assert_eq!(parse_usize_flag(&a, "--limit", 3), Ok(3));
    assert_eq!(
        parse_usize_flag(&args(&["--top", "many"]), "--top", 3),
        Err("--top must be an integer".to_string())
    );
    assert!(help_requested(&args(&["x", "-h"])) && !help_requested(&a));
}

#[test]
fn json_is_read_and_printed() {
    let v = json(" {\"b\": [1, -2, 2.50, true, null], \"a\": \"x\\n\"} ");
    assert_eq!(
        pretty_text(&v),
        "{\n  \"a\": \"x\\n\",\n  \"b\": [\n    1,\n    -2,\n    2.5,\n    true,\n    null\n  ]\n}"
    );
    assert!(parse_json("{").is_none());
    assert!(parse_json("1 2").is_none());
    let twice = Json::Object(vec![
        ("k".to_string(), Json::Uint(1)),
        ("k".to_string(), Json::Uint(2)),
    ]);
    assert_eq!(pretty_text(&twice), "{\n  \"k\": 2\n}");
}

#[test]
fn the_role_routes_where_no_flag_does() {
    let r = resolve_route_fields(&args(&["x", "--status", "blocked"]), "verifier");
    assert_eq!(
        (r.from.as_str(), r.to_role.as_str(), r.msg_type.as_str(), r.status.as_str()),
        ("verifier", "planner", "verification", "blocked")
    );
    let r = resolve_route_fields(&args(&["--to", "solo", "--type", "result"]), "executor-1");
    assert_eq!((r.from.as_str(), r.to_role.as_str()), ("executor", "solo"));
}

#[test]
fn a_payload_is_taken_over_or_made() {
    let given = build_route_payload(&json("{\"payload\": {\"x\": 1}, \"summary\": \"s\"}"));
    assert!(get(&given, "x").is_some() && get(&given, "summary").is_none());
    let made = build_route_payload(&json("{\"output\": \"  first \\nsecond\", \"payload\": 3}"));
    assert_eq!(get_text(&made, "summary"), Some("first"));
    assert!(get(&made, "input").is_some());
    let bare = build_route_payload(&json("{\"summary\": \"\", \"output\": \"out\"}"));
    assert_eq!(get_text(&bare, "summary"), Some("pipeline message"));
}

#[test]
fn a_result_is_wrapped_into_a_message() {
    let text = route_text(&args(&["canon-route"]), "planner", "{\"payload\": {}}").unwrap();
    assert_eq!(
        text,
        "{\n  \"action\": \"message\",\n  \"from\": \"planner\",\n  \"payload\": {},\n  \"status\": \"complete\",\n  \"to\": \"executor\",\n  \"type\": \"plan\"\n}"
    );
    assert!(route_text(&args(&["canon-route"]), "planner", "no").is_none());
}

#[test]
fn a_role_key_is_a_file_name() {
    assert_eq!(sanitize_role("  Executor-1 B "), "executor_1_b");
    assert_eq!(sanitize_role("ÄÖ"), "__");
}

#[test]
fn a_state_dir_has_to_be_absolute() {
    assert_eq!(resolve_state_dir("/ws", None), Ok("/ws/agent_state".to_string()));
    assert_eq!(resolve_state_dir("/ws", Some("/s".to_string())), Ok("/s".to_string()));
    assert_eq!(
        resolve_state_dir("/ws", Some("s".to_string())),
        Err("--state-dir must be an absolute path, got: s".to_string())
    );
    assert!(check_absolute("--workspace", "/ws").is_ok());
    assert_eq!(
        check_absolute("--workspace", "ws"),
        Err("--workspace must be an absolute path, got: ws".to_string())
    );
}

#[test]
fn a_message_comes_from_a_flag_or_a_file() {
    assert!(matches!(
        message_source(&args(&["--message", " hi "])),
        Ok(MessageSource::Given(m)) if m == "hi"
    ));
    assert!(matches!(
        message_source(&args(&["--message-file", "m.txt"])),
        Ok(MessageSource::File(p)) if p == "m.txt"
    ));
    assert_eq!(
        message_source(&args(&["--message", "  "])).unwrap_err(),
        "--message cannot be empty"
    );
    assert_eq!(
        message_source(&args(&["x"])).unwrap_err(),
        "missing --message or --message-file"
    );
    assert_eq!(message_in_file(" a\n"), Ok("a".to_string()));
    assert_eq!(
        message_in_file(" \n"),
        Err("--message-file contained only whitespace".to_string())
    );
}

#[test]
fn a_user_message_is_handed_off() {
    let v = json(&build_user_handoff_action_text("solo", "do it"));
    assert_eq!(get_text(&v, "from"), Some("user"));
    assert_eq!(get_text(&v, "to"), Some("solo"));
    assert_eq!(get_text(&v, "status"), Some("ready"));
    let payload = get(&v, "payload").unwrap();
    assert_eq!(get_text(payload, "user_message"), Some("do it"));
    assert_eq!(get_text(payload, "reply_to"), Some("user"));
    let places = user_message_projections("/s", "solo");
    assert_eq!(places.message_path, "/s/last_message_to_solo.json");
    assert_eq!(places.wakeup_path, "/s/wakeup_solo.flag");
    let receipt = build_receipt("/s", "Solo");
    assert_eq!(get_text(&receipt, "delivered_to"), Some("solo"));
    assert_eq!(get_text(&receipt, "wakeup_flag"), Some("/s/wakeup_solo.flag"));
    let event = inbound_message("solo", "text", "sig".to_string());
    assert!(format!("{event:?}").contains("\"sig\""));
}

#[test]
fn what_follows_the_dashes_is_handed_on() {
    let a = filter_args(&args(&["--release", "--no-watch", "run", "--", "--release", "x"]));
    assert!(a.prefer_release && a.no_watch);
    assert_eq!(a.rest[a.rest.len() - 2..], ["--release".to_string(), "x".to_string()]);
    let b = filter_args(&args(&["a"]));
    assert!(!b.prefer_release && !b.no_watch);
    assert_eq!(b.rest, vec!["a".to_string()]);
}

#[test]
fn the_marker_files_lie_in_the_state_dir() {
    let a = args(&["--state-dir", "/s"]);
    assert_eq!(agent_state_dir_from_args(&a), "/s");
    assert_eq!(cycle_idle_marker_path(&a), "/s/orchestrator_cycle_idle.flag");
    assert_eq!(orchestrator_mode_flag_path(&a), "/s/orchestrator_mode.flag");
}

#[test]
fn the_binary_to_start_is_found() {
    assert_eq!(binary_path("/r", BuildKind::Release), "/r/target/release/canon-mini-agent");
    let kind = |c: Result<BinaryCandidate, String>| c.unwrap().kind;
    assert_eq!(kind(newest_candidate(Some(1), Some(9), true)), BuildKind::Release);
    assert_eq!(kind(newest_candidate(Some(9), Some(1), false)), BuildKind::Debug);
    assert_eq!(kind(newest_candidate(Some(9), None, false)), BuildKind::Release);
    assert_eq!(
        newest_candidate(None, None, true).unwrap_err(),
        "canon-mini-agent binary not found in target/debug/ or target/release/"
    );
}

#[test]
fn an_update_is_newer() {
    assert!(has_updated(Some(5), Some(5), 5).is_none());
    assert_eq!(has_updated(Some(7), Some(6), 5).unwrap().mtime, 7);
    assert_eq!(has_updated(None, Some(6), 5).unwrap().kind, BuildKind::Debug);
}

fn seen(child: ChildState, updated: Option<i128>, mode: &str, idle: Option<i128>) -> Observed {
    Observed {
        shutdown: false,
        child,
        updated: updated.map(|mtime| BinaryCandidate { kind: BuildKind::Debug, mtime }),
        mode: Some(mode.to_string()),
        idle_mtime: idle,
        idle_exists: idle.is_some(),
    }
}

#[test]
fn a_busy_orchestrator_is_not_restarted() {
    let mut pending: Option<BinaryCandidate> = None;
    let busy = seen(ChildState::Running, Some(20), "orchestrate", Some(15));
    assert_eq!(
        tick(&mut pending, &busy, 10, false),
        Decision::GoOn { recorded: true, stale: true }
    );
    assert_eq!(pending.unwrap().mtime, 20);
    let idle = seen(ChildState::Running, None, "orchestrate", Some(20));
    assert_eq!(tick(&mut pending, &idle, 10, false), Decision::Restart(Restart::Idle));
    let single = seen(ChildState::Running, None, "single", None);
    assert_eq!(tick(&mut pending, &single, 10, false), Decision::Restart(Restart::SingleRole));
}

#[test]
fn a_clean_exit_is_final() {
    let mut pending: Option<BinaryCandidate> = None;
    let done = seen(ChildState::ExitedCleanly, Some(20), "single", None);
    assert_eq!(tick(&mut pending, &done, 10, false), Decision::Finish);
    let failed = seen(ChildState::Failed, None, "single", None);
    assert_eq!(tick(&mut pending, &failed, 10, true), Decision::Restart(Restart::Failure));
    let mut stop = seen(ChildState::Running, Some(20), "single", None);
    assert_eq!(
        tick(&mut pending, &stop, 10, true),
        Decision::GoOn { recorded: false, stale: false }
    );
    stop.shutdown = true;
    assert_eq!(tick(&mut pending, &stop, 10, false), Decision::Stop);
    assert!(pending.is_none());
    assert_ne!(restart_reason(Restart::Failure), restart_reason(Restart::Idle));
}

#[test]
fn a_child_is_waited_for() {
    assert_eq!(wait_step(true, false, 0, 10), WaitStep::Done);
    assert_eq!(wait_step(false, true, 0, 10), WaitStep::Done);
    assert_eq!(wait_step(false, false, 11, 10), WaitStep::Kill);
    assert_eq!(wait_step(false, false, 10, 10), WaitStep::Sleep);
}

#[test]
fn only_a_good_build_is_committed() {
    assert_eq!(advance(Step::Build, &Outcome::NonZero), Step::Done);
    assert_eq!(
        report(Step::Build, &Outcome::NonZero, "idle"),
        vec!["[canon-mini-supervisor] pre-restart cargo build failed; skipping git add/commit/push (idle)"]
    );
    let mut step = Step::Build;
    let mut commands: Vec<Vec<String>> = Vec::new();
    while step != Step::Done {
        commands.push(command_for(step, "idle"));
        let outcome = if step == Step::Diff { Outcome::NonZero } else { Outcome::Success };
        step = advance(step, &outcome);
    }
    assert_eq!(commands.len(), 5);
    assert_eq!(commands[0], ["cargo", "build", "--workspace"]);
    assert_eq!(
        commands[3],
        ["git", "commit", "-m", "supervisor pre-restart checkpoint (idle)"]
    );
    assert_eq!(announcement(Step::Build, "idle").len(), 2);
    assert_eq!(
        report(Step::Push, &Outcome::Error("no remote".to_string()), "idle"),
        vec!["[canon-mini-supervisor] git push failed (idle): no remote"]
    );
}

#[test]
fn a_checkpoint_without_changes_ends() {
    let step = advance(Step::Add, &Outcome::NonZero);
    assert_eq!(step, Step::Diff);
    assert_eq!(advance(step, &Outcome::Success), Step::Done);
    assert!(command_for(Step::Done, "idle").is_empty());
}

#[test]
fn local_changes_come_back() {
    assert!(inside_worktree(0, "true\n") && !inside_worktree(1, "true\n"));
    assert!(had_local_changes(" M a.rs\n") && !had_local_changes("\n"));
    assert_eq!(rollback_commands("abc", true).last().unwrap(), &args(&["stash", "pop"]));
    assert_eq!(
        rollback_commands("abc", false),
        vec![args(&["reset", "--hard", "abc"]), args(&["clean", "-fd"])]
    );
    assert!(!checkpoint().is_empty());
}

#[test]
fn a_single_action_is_run_by_its_arguments() {
    let given = args(&["x", "--workspace", "/w", "--step", "3", "--check-on-done"]);
    let read = parse_capability_args(&given).unwrap();
    assert_eq!((read.workspace.as_str(), read.role.as_str(), read.step), ("/w", "capability", 3));
    assert!(read.check_on_done && read.state_dir.is_none());
    let given = args(&["x", "--workspace", "/w", "--step", "3", "--role", "r", "--state-dir", "/s"]);
    let read = parse_capability_args(&given).unwrap();
    assert_eq!((read.role.as_str(), read.state_dir.as_deref()), ("r", Some("/s")));
    let error = |list: &[&str]| parse_capability_args(&args(list)).unwrap_err();
    assert_eq!(error(&["x"]), "missing --workspace");
    assert_eq!(error(&["x", "--workspace", "/w"]), "missing --step");
    assert_eq!(
        error(&["x", "--workspace", "/w", "--step", "last"]),
        "--step must be an integer"
    );
    let mut ctx = RuntimeContext::new();
    let usual = agent_state_dir(&ctx).to_string();
    configure_runtime(&mut ctx, "/w", None);
    assert_eq!((workspace(&ctx), agent_state_dir(&ctx)), ("/w", usual.as_str()));
    configure_runtime(&mut ctx, "/v", Some("/s".to_string()));
    assert_eq!((workspace(&ctx), agent_state_dir(&ctx)), ("/v", "/s"));
    assert!(read_action("{}").is_ok());
    assert_eq!(read_action("no").unwrap_err(), "stdin is not valid JSON");
    assert_eq!(
        write_result(false, "out"),
        "{\n  \"done\": false,\n  \"ok\": true,\n  \"output\": \"out\"\n}"
    );
}

#[test]
fn lessons_go_below_the_workspace() {
    let none = args(&["x"]);
    assert_eq!(lessons_workspace(&none, "/here"), "/here");
    assert_eq!(lessons_state_dir(&none, "/here"), "/here/agent_state");
    let given = args(&["x", "--workspace", "/w", "--state-dir", "/s"]);
    assert_eq!(lessons_workspace(&given, "/here"), "/w");
    assert_eq!(lessons_state_dir(&given, "/w"), "/s");
    assert_eq!(candidates_path("/w"), "/w/agent_state/lessons_candidates.json");
}
