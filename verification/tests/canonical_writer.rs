use canon_mini_agent::canonical_writer::{
    advance_event, check_transition, failure_event, violation_event, CanonicalWriter,
};
use canon_mini_agent::events::{lane_indices_from_events, ControlEvent, EffectEvent, Event};
use canon_mini_agent::evolution::{
    advance_for_successful_build, current_evolution_for_tlog, printed_text,
    record_successful_build, snapshot_path_for_state_dir, EvolutionAdvance, EvolutionSnapshot,
};

#[derive(Debug, Clone, PartialEq, Default)]
struct State {
    planner_pending: bool,
    phase: String,
    lane_pending: bool,
    submitted_turn_ids: Vec<(u32, u64)>,
}

fn step(state: &State, event: &ControlEvent) -> State {
    let mut next = state.clone();
    match event {
        ControlEvent::PlannerPendingSet { pending } => next.planner_pending = *pending,
        ControlEvent::PhaseSet { phase, .. } => next.phase = phase.clone(),
        ControlEvent::LanePendingSet { pending, .. } => next.lane_pending = *pending,
        ControlEvent::ExecutorTurnRegistered { tab_id, turn_id, .. } => {
            next.submitted_turn_ids.push((*tab_id, *turn_id))
        }
        ControlEvent::ExecutorTurnDeregistered { tab_id, turn_id } => {
            next.submitted_turn_ids.retain(|t| *t != (*tab_id, *turn_id))
        }
        _ => {}
    }
    next
}

/// A writer with the log that it appends to.
struct Logged {
    writer: CanonicalWriter<State>,
    log: Vec<Event>,
}

impl Logged {
    fn new() -> Self {
        Logged {
            writer: CanonicalWriter::new(State::default(), Ok(()), 0, 0, "/ws".to_string()),
            log: Vec::new(),
        }
    }

    fn apply(&mut self, event: ControlEvent) {
        let next = step(self.writer.state(), &event);
        self.log.push(Event::control(event.clone()));
        let seq = self.log.len() as u64;
        self.writer.try_apply(event, Ok(()), next, Ok(()), Some(Ok(seq))).unwrap();
    }
}

#[test]
fn replay_tlog_reconstructs_final_state_and_ignores_effects() {
    let mut run = Logged::new();
    run.apply(ControlEvent::PlannerPendingSet { pending: true });
    run.log.push(violation_event("executor", "blocked"));
    let seq = run.log.len() as u64;
    run.writer.try_record_violation("executor", "blocked", Ok(seq)).unwrap();
    run.apply(ControlEvent::PhaseSet { phase: "planner".to_string(), lane: None });
    run.apply(ControlEvent::LanePendingSet { lane_id: 0, pending: false });
    run.apply(ControlEvent::LaneInProgressSet { lane_id: 0, actor: Some("executor-0".to_string()) });
    run.apply(ControlEvent::LaneSubmitInFlightSet { lane_id: 0, in_flight: true });
    run.apply(ControlEvent::ExecutorCompletionRecovered {
        tab_id: 9,
        turn_id: 12,
        lane_id: 0,
        lane_label: "executor-0".to_string(),
        actor: "executor-0".to_string(),
        endpoint_id: "ep".to_string(),
    });
    run.apply(ControlEvent::ExecutorCompletionTabRebound {
        lane_id: 0,
        from_tab_id: 9,
        to_tab_id: 10,
    });
    run.apply(ControlEvent::ExecutorTurnRegistered {
        tab_id: 10,
        turn_id: 13,
        lane_id: 0,
        lane_label: "executor-0".to_string(),
        actor: "executor-0".to_string(),
        endpoint_id: "ep".to_string(),
    });
    run.apply(ControlEvent::ExecutorTurnDeregistered { tab_id: 10, turn_id: 13 });
    run.apply(ControlEvent::LaneInProgressSet { lane_id: 0, actor: None });
    run.apply(ControlEvent::LanePendingSet { lane_id: 0, pending: true });

    let mut replayed = State::default();
    for event in &run.log {
        if let Event::Control { event } = event {
            replayed = step(&replayed, event);
        }
    }
    assert_eq!(replayed.planner_pending, run.writer.state().planner_pending);
    assert_eq!(replayed.phase, run.writer.state().phase);
    assert_eq!(replayed.lane_pending, run.writer.state().lane_pending);
    assert_eq!(replayed.submitted_turn_ids, run.writer.state().submitted_turn_ids);
    assert_eq!(run.writer.tlog_seq(), run.log.len() as u64);
}

#[test]
fn try_apply_rejects_illegal_transition_without_mutating_state() {
    let mut writer = CanonicalWriter::new(State::default(), Ok(()), 0, 0, "/ws".to_string());
    let event = ControlEvent::ExecutorTurnDeregistered { tab_id: 7, turn_id: 9 };
    let next = step(writer.state(), &event);
    let err = writer
        .try_apply(event, Err("turn is not registered".to_string()), next, Ok(()), None)
        .expect_err("illegal transition should fail");
    assert!(err.contains("illegal control transition"));
    assert_eq!(writer.tlog_seq(), 0);
    assert!(writer.state().submitted_turn_ids.is_empty());
}

#[test]
fn each_refusal_says_why() {
    let no: Result<(), String> = Err("no".to_string());
    assert!(check_transition(&Ok(()), &Ok(())).is_ok());
    assert!(check_transition(&no, &Ok(())).unwrap_err().contains("illegal control transition"));
    assert!(check_transition(&Ok(()), &no).unwrap_err().contains("invalid control transition"));
    let mut writer = CanonicalWriter::new(State::default(), Ok(()), 3, 1, "/ws".to_string());
    let event = ControlEvent::PlannerPendingSet { pending: true };
    let next = step(writer.state(), &event);
    let err = writer
        .try_apply(event.clone(), Ok(()), next.clone(), Ok(()), Some(Err("disk full".to_string())))
        .unwrap_err();
    assert!(err.contains("tlog append failed during apply"));
    assert!(err.contains("disk full"));
    assert!(!writer.state().planner_pending);
    assert_eq!(writer.tlog_seq(), 3);
    assert_eq!(writer.workspace(), "/ws");
    let err = writer.try_apply(event, Ok(()), next, Ok(()), None).unwrap_err();
    assert_eq!(
        err,
        "[canonical_writer] tlog append failed during apply: the log was not asked"
    );
    assert_eq!(writer.tlog_seq(), 3);
}

#[test]
fn an_invalid_initial_state_is_refused() {
    let refused = CanonicalWriter::try_new(
        State::default(),
        Err("bad lanes".to_string()),
        0,
        0,
        "/ws".to_string(),
    );
    assert!(refused.is_err());
    let made =
        CanonicalWriter::try_new(State::default(), Ok(()), 4, 2, "/ws".to_string());
    let made = made.ok().unwrap();
    assert_eq!((made.tlog_seq(), made.evolution()), (4, 2));
}

#[test]
fn a_checkpoint_replaces_the_state_where_it_is_valid() {
    let mut writer = CanonicalWriter::new(State::default(), Ok(()), 0, 0, "/ws".to_string());
    let restored = State { planner_pending: true, ..State::default() };
    assert!(writer
        .try_restore_from_checkpoint(restored.clone(), Err("stale".to_string()))
        .is_err());
    assert!(!writer.state().planner_pending);
    assert!(writer.try_restore_from_checkpoint(restored, Ok(())).is_ok());
    assert!(writer.state().planner_pending);
}

#[test]
fn failures_become_violations() {
    match failure_event("apply", "disk full") {
        Event::Effect { event: EffectEvent::InvariantViolation { proposed_role, reason } } => {
            assert_eq!(proposed_role, "canonical_writer");
            assert_eq!(reason, "apply failed: disk full");
        }
        other => panic!("unexpected {other:?}"),
    }
}

#[test]
fn record_successful_build_updates_snapshot_and_tlog() {
    let mut snapshot = EvolutionSnapshot::default();
    let mut writer = CanonicalWriter::new(State::default(), Ok(()), 0, 0, "/ws".to_string());

    let advance =
        advance_for_successful_build(&mut snapshot, "cargo build --workspace", 17, None, None);
    let advance = record_successful_build(&mut writer, advance, Ok(()), Ok(1))
        .expect("record successful build");
    assert_eq!(advance.evolution, 1);
    assert!(advance.git_commit.is_none());

    assert_eq!(snapshot.evolution, 1);
    assert_eq!(snapshot.last_build_command.as_deref(), Some("cargo build --workspace"));

    assert_eq!(writer.evolution(), 1);
    let event = advance_event(&advance);
    assert!(matches!(
        &event,
        Event::Effect { event: EffectEvent::BuildEvolutionAdvanced { evolution: 1, .. } }
    ));
    assert_eq!(
        canon_mini_agent::events::tlog_event_kind(&event),
        "build_evolution_advanced"
    );
}

#[test]
fn a_build_that_cannot_be_saved_is_not_recorded() {
    let mut writer = CanonicalWriter::new(State::default(), Ok(()), 5, 0, "/ws".to_string());
    let advance = EvolutionAdvance {
        evolution: 1,
        command: "cargo build".to_string(),
        git_commit: None,
        git_commit_count: None,
    };
    let err =
        record_successful_build(&mut writer, advance, Err("read only".to_string()), Ok(6)).unwrap_err();
    assert_eq!(err, "read only");
    assert_eq!((writer.tlog_seq(), writer.evolution()), (5, 0));
}

#[test]
fn what_the_version_control_prints_is_trimmed() {
    let mut snapshot = EvolutionSnapshot { evolution: u64::MAX, ..EvolutionSnapshot::default() };
    let advance =
        advance_for_successful_build(&mut snapshot, "cargo build", 1, Some(" abc\n"), Some("42\n"));
    assert_eq!(advance.evolution, u64::MAX);
    assert_eq!(advance.git_commit.as_deref(), Some("abc"));
    assert_eq!(advance.git_commit_count, Some(42));
    assert_eq!(printed_text(Some(" \n")), None);
    assert_eq!(snapshot_path_for_state_dir("/ws/agent_state"), "/ws/agent_state/evolution.json");
    assert_eq!(current_evolution_for_tlog(None), 0);
}

#[test]
fn a_failed_operation_is_noted() {
    let mut writer = CanonicalWriter::new(State::default(), Ok(()), 3, 0, "/ws".to_string());
    let event = || ControlEvent::PlannerPendingSet { pending: true };
    let next = step(writer.state(), &event());
    let said = writer.apply(event(), Err("no".to_string()), next.clone(), Ok(()), None, Ok(4));
    assert_eq!(said.as_deref(), Some("[canonical_writer] illegal control transition: no"));
    assert_eq!(writer.tlog_seq(), 4);
    assert!(!writer.state().planner_pending);
    assert!(writer.apply(event(), Ok(()), next, Ok(()), Some(Ok(5)), Ok(6)).is_none());
    assert!(writer.state().planner_pending);
    let failed = || Err("disk full".to_string());
    assert!(writer.record_violation("executor", "why", Ok(6)).is_none());
    assert_eq!(
        writer.record_violation("executor", "why", failed()).as_deref(),
        Some("[canonical_writer] tlog violation append failed: disk full")
    );
    let effect = EffectEvent::LessonsArtifactRecorded;
    assert!(writer.record_effect(effect, failed(), failed()).is_some());
    assert_eq!(writer.tlog_seq(), 6);
    assert!(writer
        .restore_from_checkpoint(State::default(), Err("stale".to_string()), Ok(7))
        .is_some());
    assert_eq!(writer.tlog_seq(), 7);
    let advance = EvolutionAdvance {
        evolution: 8,
        command: "cargo build".to_string(),
        git_commit: None,
        git_commit_count: None,
    };
    assert!(writer.record_evolution_advance(&advance, failed(), Ok(8)).is_some());
    assert_eq!((writer.evolution(), writer.tlog_seq()), (8, 8));
}

#[test]
fn lanes_are_listed_once_in_order() {
    let lane = |lane_id: usize| Event::control(ControlEvent::LanePendingSet { lane_id, pending: true });
    let events = vec![
        lane(4),
        lane(1),
        Event::control(ControlEvent::PlannerPendingSet { pending: true }),
        lane(4),
    ];
    assert_eq!(lane_indices_from_events(&events), vec![1, 4]);
    assert!(events[0].is_control());
    assert!(!violation_event("executor", "why").is_control());
}
