use canon_mini_agent::blockers::{
    append_blocker, append_blocker_with_writer, blocker_message, count_class, count_class_recent,
    load_blockers, load_blockers_from_tlog, record_action_failure,
    record_action_failure_with_writer, record_blocker_message,
    record_blocker_message_with_writer, starting_file, BlockerRecord, BlockersFile, MAX_BLOCKER_RECORDS,
};
use canon_mini_agent::canonical_writer::CanonicalWriter;
use canon_mini_agent::error_class::ErrorClass;
use canon_mini_agent::events::{EffectEvent, Event, TlogRecord};

fn empty() -> BlockersFile {
    starting_file(None)
}

fn sample(i: usize) -> BlockerRecord {
    BlockerRecord {
        id: format!("blk-{i}"),
        error_class: ErrorClass::Unknown,
        actor: "executor".to_string(),
        task_id: None,
        objective_id: None,
        summary: "test".to_string(),
        action_kind: "message".to_string(),
        source: "blocker_message".to_string(),
        ts_ms: i as u64,
    }
}

#[test]
fn record_blocker_message_writes_file() {
    let mut file = empty();
    record_blocker_message(
        &mut file,
        "executor_0",
        "cannot proceed: compile failed",
        None,
        None,
        1,
    );
    assert_eq!(file.blockers.len(), 1);
    assert_eq!(file.blockers[0].error_class, ErrorClass::CompileError);
    assert_eq!(file.blockers[0].source, "blocker_message");
}

#[test]
fn record_action_failure_skips_unknown() {
    let mut file = empty();
    record_action_failure(&mut file, "executor_0", "read_file", "some generic output", None, 1);
    assert_eq!(file.blockers.len(), 0);
}

#[test]
fn record_action_failure_writes_classified() {
    let mut file = empty();
    record_action_failure(
        &mut file,
        "executor_0",
        "apply_patch",
        "path is outside the permitted workspace",
        None,
        1,
    );
    assert_eq!(file.blockers.len(), 1);
    assert_eq!(file.blockers[0].error_class, ErrorClass::PermissionDenied);
    assert_eq!(file.blockers[0].source, "action_result");
}

#[test]
fn cap_enforced_on_overflow() {
    let mut file = empty();
    for i in 0..MAX_BLOCKER_RECORDS + 10 {
        append_blocker(&mut file, sample(i));
    }
    assert_eq!(file.blockers.len(), MAX_BLOCKER_RECORDS);
    assert_eq!(
        file.blockers.last().unwrap().ts_ms as usize,
        MAX_BLOCKER_RECORDS + 9
    );
}

#[test]
fn count_class_groups_by_actor_and_class() {
    let mut file = empty();
    record_blocker_message(&mut file, "executor_0", "compile failed", None, None, 1);
    record_blocker_message(&mut file, "executor_1", "cargo build failed", None, None, 2);
    record_blocker_message(&mut file, "planner", "compile failed", None, None, 3);
    let exec_compile = count_class(&file, "executor", &ErrorClass::CompileError);
    let plan_compile = count_class(&file, "planner", &ErrorClass::CompileError);
    assert_eq!(exec_compile, 2);
    assert_eq!(plan_compile, 1);
}

#[test]
fn record_action_failure_writes_runtime_control_bypass() {
    let mut file = empty();
    record_action_failure(
        &mut file,
        "orchestrate",
        "runtime_control_bypass",
        "runtime-only control influence: active blocker file suppressed planner dispatch",
        None,
        1,
    );
    assert_eq!(file.blockers.len(), 1);
    assert_eq!(file.blockers[0].error_class, ErrorClass::RuntimeControlBypass);
}

#[test]
fn record_action_failure_writes_uncanonicalized_recovery_path() {
    let mut file = empty();
    record_action_failure(
        &mut file,
        "executor",
        "uncanonicalized_recovery",
        "recovery path without canonical event: late submit_ack reconstructed turn",
        None,
        1,
    );
    assert_eq!(file.blockers.len(), 1);
    assert_eq!(
        file.blockers[0].error_class,
        ErrorClass::UncanonicalizedRecoveryPath
    );
}

#[test]
fn a_summary_is_classified_without_regard_to_case() {
    let record = blocker_message("executor_0", "COMPILE FAILED", Some("T1"), None, 7);
    assert_eq!(record.error_class, ErrorClass::CompileError);
    assert_eq!(record.id, "blk-executor_0-compile_error-7");
    assert_eq!(record.task_id.as_deref(), Some("T1"));
}

fn writer() -> CanonicalWriter<()> {
    CanonicalWriter::new((), Ok(()), 4, 0, "/ws".to_string())
}

#[test]
fn a_failed_effect_leaves_the_log() {
    let mut file = empty();
    let mut w = writer();
    let failed =
        append_blocker_with_writer(&mut file, &mut w, sample(1), Err("disk full".to_string()));
    assert_eq!(
        failed,
        Err("[canonical_writer] tlog effect append failed: disk full".to_string())
    );
    assert_eq!((file.blockers.len(), w.tlog_seq()), (0, 4));
    assert!(append_blocker_with_writer(&mut file, &mut w, sample(1), Ok(5)).is_ok());
    assert_eq!((file.blockers.len(), w.tlog_seq()), (1, 5));
}

#[test]
fn a_record_goes_to_the_log_as_an_effect() {
    let mut file = empty();
    let effect = append_blocker(&mut file, sample(3));
    assert!(matches!(effect, EffectEvent::BlockerRecorded { record } if record.id == "blk-3"));
}

#[test]
fn an_escalation_of_diagnostics_is_recorded() {
    let mut file = empty();
    record_blocker_message(&mut file, "diagnostics", "cannot proceed", None, None, 1);
    assert_eq!(file.blockers.len(), 1);
    assert_eq!(file.blockers[0].error_class, ErrorClass::BlockerEscalated);
    assert_eq!(file.blockers[0].actor, "diagnostics");
}

#[test]
fn the_log_gives_back_what_was_recorded() {
    let records: Vec<TlogRecord> = (0..3)
        .map(|i| TlogRecord {
            seq: i as u64,
            ts_ms: i as u64,
            event: Event::effect(EffectEvent::BlockerRecorded { record: sample(i) }),
            payload_bytes: 0,
        })
        .collect();
    let file = load_blockers_from_tlog(&records);
    assert_eq!(file.version, 1);
    let ids: Vec<&str> = file.blockers.iter().map(|b| b.id.as_str()).collect();
    assert_eq!(ids, vec!["blk-0", "blk-1", "blk-2"]);
    assert!(load_blockers(None).blockers.is_empty());
    assert_eq!(load_blockers(Some(file)).blockers.len(), 3);
}

#[test]
fn only_recent_records_count_where_that_is_asked() {
    let mut file = empty();
    record_blocker_message(&mut file, "executor_0", "compile failed", None, None, 100);
    record_blocker_message(&mut file, "executor_0", "compile failed", None, None, 900);
    assert_eq!(count_class_recent(&file, "executor", &ErrorClass::CompileError, 1000, 200), 1);
    assert_eq!(count_class_recent(&file, "executor", &ErrorClass::CompileError, 1000, 1000), 2);
}

#[test]
fn nothing_is_appended_without_its_effect() {
    let mut file = empty();
    let mut w = writer();
    let full = || Err("disk full".to_string());
    let summary = "file not found";
    assert!(record_blocker_message_with_writer(
        &mut file, &mut w, "executor", summary, None, None, 1, full()
    )
    .is_err());
    assert!(file.blockers.is_empty());
    assert!(record_blocker_message_with_writer(
        &mut file, &mut w, "executor", summary, None, None, 1, Ok(5)
    )
    .is_ok());
    assert_eq!((file.blockers.len(), w.tlog_seq()), (1, 5));
    let well = record_action_failure_with_writer(
        &mut file, &mut w, "executor", "read_file", "all is well", None, 2, full(),
    );
    assert_eq!(well, Ok(false));
    let failed = record_action_failure_with_writer(
        &mut file, &mut w, "executor", "read_file", "No such file or directory", None, 2, Ok(6),
    );
    assert_eq!(failed, Ok(true));
    assert_eq!((file.blockers.len(), w.tlog_seq()), (2, 6));
}
