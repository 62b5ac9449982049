use canon_mini_agent::blockers::BlockerRecord;
use canon_mini_agent::canonical_writer::CanonicalWriter;
use canon_mini_agent::drift_analysis::FingerprintDrift;
use canon_mini_agent::error_class::ErrorClass;
use canon_mini_agent::events::{EffectEvent, Event, TlogRecord};
use canon_mini_agent::grpo::{
    base_reward_twentieths, collect_ledger, drift_reward_fraction, extract_grpo_dataset,
    extract_status, grpo_dataset_effect, mark_task_blocked_unless_complete, parse_json_payload,
    parse_task_id_from_json, record_grpo_dataset_effect, update_task_outcome, DriftCounts, TaskOutcome,
};
use canon_mini_agent::json_text::parse_json;
use canon_mini_agent::keyed::{find_entry, put_entry, Keyed};

fn record(seq: u64, event: EffectEvent) -> TlogRecord {
    TlogRecord { seq, ts_ms: seq, event: Event::effect(event), payload_bytes: 0 }
}

fn input(command: &str) -> EffectEvent {
    EffectEvent::LlmTurnInput {
        tab_id: None,
        turn_id: None,
        role: "executor".to_string(),
        agent_type: "a".to_string(),
        step: 1,
        command_id: command.to_string(),
        endpoint_id: "ep".to_string(),
        prompt_hash: "h".to_string(),
        prompt_bytes: 1,
        role_schema_bytes: 1,
        submit_only: false,
    }
}

fn output(command: &str, raw: &str) -> EffectEvent {
    EffectEvent::LlmTurnOutput {
        tab_id: None,
        turn_id: None,
        role: "late".to_string(),
        step: 1,
        command_id: command.to_string(),
        endpoint_id: "ep".to_string(),
        response_bytes: 1,
        response_hash: "r".to_string(),
        action_kind: Some("plan".to_string()),
        raw: raw.to_string(),
    }
}

fn result(command: &str, task: Option<&str>, ok: bool) -> EffectEvent {
    EffectEvent::ActionResultRecorded {
        role: "executor".to_string(),
        step: 1,
        command_id: command.to_string(),
        action_kind: "read_file".to_string(),
        task_id: task.map(|t| t.to_string()),
        objective_id: None,
        ok,
        result_bytes: 1,
        result_hash: "r".to_string(),
        result: "done".to_string(),
    }
}

fn message(text: &str) -> EffectEvent {
    EffectEvent::InboundMessageRecorded {
        from_role: "executor".to_string(),
        to_role: "planner".to_string(),
        message: text.to_string(),
        signature: "s".to_string(),
    }
}

fn blocker(task: &str) -> EffectEvent {
    EffectEvent::BlockerRecorded {
        record: BlockerRecord {
            id: "b".to_string(),
            error_class: ErrorClass::Unknown,
            actor: "executor".to_string(),
            task_id: Some(task.to_string()),
            objective_id: None,
            summary: "s".to_string(),
            action_kind: "plan".to_string(),
            source: "action_result".to_string(),
            ts_ms: 1,
        },
    }
}

#[test]
fn a_payload_is_found_in_a_text() {
    let task = |raw: &str| parse_task_id_from_json(raw);
    assert_eq!(task("{\"task_id\": \"T1\"}").as_deref(), Some("T1"));
    assert_eq!(task("```json\n{\"payload\": {\"task_id\": \"T2\"}}\n```").as_deref(), Some("T2"));
    assert_eq!(task("so: {\"task_id\": \"T3\"} ok").as_deref(), Some("T3"));
    assert_eq!(task("{\"task_id\": 4}"), None);
    assert!(parse_json_payload("} {").is_none());
    assert!(parse_json_payload("text").is_none());
}

#[test]
fn a_status_is_one_of_three() {
    let status = |raw: &str| extract_status(&parse_json(raw).unwrap());
    assert_eq!(status("{\"status\": \"Complete\"}").as_deref(), Some("complete"));
    assert_eq!(status("{\"type\": \"blocked\"}").as_deref(), Some("blocked"));
    assert_eq!(status("{\"status\": \"ready\", \"type\": \"blocked\"}"), None);
    assert_eq!(status("{}"), None);
}

#[test]
fn a_complete_task_stays_complete() {
    let mut outcomes: Vec<Keyed<TaskOutcome>> = Vec::new();
    update_task_outcome(&mut outcomes, "T1", "complete", 0);
    mark_task_blocked_unless_complete(&mut outcomes, "T1");
    mark_task_blocked_unless_complete(&mut outcomes, "T2");
    let status = |o: &Vec<Keyed<TaskOutcome>>, k: &str| o[find_entry(o, k).unwrap()].value.status.clone();
    assert_eq!(status(&outcomes, "T1"), "complete");
    assert_eq!(status(&outcomes, "T2"), "blocked");
}

#[test]
fn rewards_follow_the_outcome() {
    let outcome = |status: &str, blocker_count: usize| TaskOutcome {
        status: status.to_string(),
        blocker_count,
    };
    assert_eq!(base_reward_twentieths(&outcome("complete", 3)), 20);
    assert_eq!(base_reward_twentieths(&outcome("blocked", 2)), -12);
    assert_eq!(base_reward_twentieths(&TaskOutcome::default()), 0);
    let (num, den) = drift_reward_fraction(Some(DriftCounts { improved: 3, regressed: 1 }));
    assert!((num as f64 / den as f64 - 0.375).abs() < 1e-12);
    let (num, den) = drift_reward_fraction(None);
    assert_eq!(num as f64 / den as f64, 0.0);
}

#[test]
fn rows_are_ordered_and_grouped() {
    let records = vec![
        record(1, input("c2")),
        record(2, input("c1")),
        record(3, output("c2", "{\"task_id\": \"T\"}")),
        record(4, output("c1", "text")),
        record(5, result("c1", Some("T"), true)),
        record(6, result("c2", None, true)),
        record(7, input("c3")),
        record(8, result("c4", Some("U"), false)),
        record(9, message("{\"task_id\": \"T\", \"status\": \"blocked\"}")),
        record(10, blocker("T")),
        record(
            11,
            EffectEvent::FingerprintDriftRecorded {
                drift: FingerprintDrift {
                    improved: vec!["a".to_string()],
                    regressed: Vec::new(),
                    stable: Vec::new(),
                    stable_count: 0,
                    stable_hash: String::new(),
                },
            },
        ),
    ];
    let data = extract_grpo_dataset(&records, 5, 99);
    assert_eq!((data.evolution, data.generated_ms), (5, 99));
    let rows: Vec<(&str, &str, u64, i128)> = data
        .rows
        .iter()
        .map(|r| (r.group_key.as_str(), r.command_id.as_str(), r.state_seq, r.reward_twentieths))
        .collect();
    assert_eq!(rows, vec![("T", "c2", 1, -11), ("T", "c1", 2, -11)]);
    assert_eq!(data.rows[0].role, "executor");
    assert_eq!(data.rows[0].action_kind, "read_file");
    assert_eq!(data.group_stats.len(), 1);
    assert_eq!((data.group_stats[0].n, data.group_stats[0].outcome.as_str()), (2, "blocked"));
    assert_eq!(data.drift.map(|d| (d.improved, d.regressed)), Some((1, 0)));
    assert!(matches!(
        grpo_dataset_effect(&data),
        EffectEvent::GrpoDatasetRecorded { row_count: 2, group_count: 1 }
    ));
    assert_eq!(collect_ledger(&records).turns.len(), 4);
    let mut writer = CanonicalWriter::new((), Ok(()), 11, 5, "/ws".to_string());
    assert!(record_grpo_dataset_effect(&mut writer, &data, Err("full".to_string())).is_err());
    assert!(record_grpo_dataset_effect(&mut writer, &data, Ok(12)).is_ok());
    assert_eq!(writer.tlog_seq(), 12);
}

#[test]
fn an_entry_reads_what_was_put() {
    let mut v: Vec<Keyed<TaskOutcome>> = Vec::new();
    put_entry(&mut v, "a", TaskOutcome::default());
    put_entry(&mut v, "a", TaskOutcome { status: "x".to_string(), blocker_count: 1 });
    assert_eq!(v.len(), 1);
    assert_eq!(v[find_entry(&v, "a").unwrap()].value.status, "x");
    assert!(find_entry(&v, "b").is_none());
}
