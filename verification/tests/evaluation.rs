use canon_mini_agent::eval_driver::{compute_delta, latest_scores, run, PlanCheck, ScoreChanges};
use canon_mini_agent::evaluation::{
    canonical_delta_health_shares, compute_eval, diagnostics_repair_pressure,
    diagnostics_repair_pressure_with_issues, evaluate_repo_state, evaluate_workspace,
    improvement_effectiveness_score, improvement_measurement_score, improvement_validation_score,
    issue_health_score, load_issue_counts, load_task_counts, recovery_effectiveness_score,
    reward_alignment_score, safety_score, semantic_coverage_from_counts, semantic_rate_from_counts,
    structural_invariant_coverage_from_text, task_counts_in, task_velocity_score, EvalInput,
    EvalTexts, Impact, Severity, Share, WorkspaceParts,
};
use canon_mini_agent::events::{ControlEvent, EffectEvent, Event, ScoreChange, TlogRecord};
use canon_mini_agent::issues::Issue;
use canon_mini_agent::json_text::parse_json;
use canon_mini_agent::tlog_delta::{evaluate_tlog_delta_invariants, TlogDeltaSignals};

fn ratio(share: Share) -> f64 {
    share.num as f64 / share.den as f64
}

/// The geometric mean of the shares of a window.
fn delta_score(signals: &TlogDeltaSignals) -> f64 {
    if signals.event_count == 0 {
        return 0.0;
    }
    let mut scores: Vec<f64> =
        canonical_delta_health_shares(signals).into_iter().map(ratio).collect();
    let effect = ratio(improvement_effectiveness_score(signals)).clamp(0.001, 1.0);
    let recovery = ratio(recovery_effectiveness_score(signals)).clamp(0.001, 1.0);
    scores.push((effect * recovery).powf(0.5));
    let n = scores.len() as f64;
    scores.into_iter().map(|v| v.clamp(0.001, 1.0)).product::<f64>().powf(1.0 / n)
}

fn base_eval_input() -> EvalInput {
    EvalInput {
        objectives_completed: 1,
        objectives_total: 1,
        completed_tasks: 1,
        total_tasks: 1,
        open_issues: 0,
        repeated_open_issues: 0,
        high_priority_open_issues: 0,
        violations: Vec::new(),
        failures: Vec::new(),
        semantic_fn_total: 0,
        semantic_fn_with_any_error: 0,
        semantic_fn_intent_classified: 0,
        semantic_fn_low_confidence: 0,
        intent_coverage_low: false,
        structural_invariant_coverage: structural_invariant_coverage_from_text("", ""),
        tlog_delta_signals: evaluate_tlog_delta_invariants(&Vec::new()),
        texts: EvalTexts {
            error_rate: String::new(),
            totalization_coverage: String::new(),
            intent_coverage: format!("{:.4}", 1.0),
            low_confidence_rate: String::new(),
            semantic_contract: String::new(),
            repair_pressure: String::new(),
        },
    }
}

/// Writes the rates of an input as the runtime does.
fn write_rates(input: &mut EvalInput) {
    let total = input.semantic_fn_total;
    let error = ratio(semantic_rate_from_counts(total, input.semantic_fn_with_any_error));
    let low = ratio(semantic_rate_from_counts(total, input.semantic_fn_low_confidence));
    let covered = ratio(semantic_coverage_from_counts(total, input.semantic_fn_intent_classified));
    let totalized = (input.semantic_fn_intent_classified + input.semantic_fn_low_confidence).min(total);
    let contract = (1.0 - error) * covered * (1.0 - low);
    input.texts.error_rate = format!("{error:.4}");
    input.texts.low_confidence_rate = format!("{low:.4}");
    input.texts.semantic_contract = format!("{contract:.4}");
    input.texts.totalization_coverage =
        format!("{:.4}", ratio(semantic_coverage_from_counts(total, totalized)));
}

#[test]
fn task_velocity_is_zero_when_no_tasks_done() {
    assert_eq!(ratio(task_velocity_score(0, 3)), 0.0);
}

#[test]
fn compute_eval_enforces_hard_semantic_and_totalization_thresholds() {
    let mut input = base_eval_input();
    input.semantic_fn_total = 10;
    input.semantic_fn_with_any_error = 1;
    input.semantic_fn_intent_classified = 6;
    input.semantic_fn_low_confidence = 3;

    write_rates(&mut input);
    let snapshot = compute_eval(&input);

    assert_eq!(snapshot.semantic_fn_totalized, 9);
    assert!((ratio(snapshot.semantic_fn_totalization_coverage) - 0.9).abs() < 0.000_001);
    assert!(!snapshot.eval_enforcement.passed);
    assert!(snapshot
        .eval_enforcement
        .violations
        .iter()
        .any(|v| v.contains("semantic_errors=1/10")));
    assert!(snapshot
        .eval_enforcement
        .violations
        .iter()
        .any(|v| v.contains("intent_totalization=9/10")));
}

#[test]
fn compute_eval_treats_totalized_low_confidence_as_warning_not_hard_violation() {
    let mut input = base_eval_input();
    input.semantic_fn_total = 10;
    input.semantic_fn_with_any_error = 0;
    input.semantic_fn_intent_classified = 6;
    input.intent_coverage_low = 0.6 < 0.75;
    input.texts.intent_coverage = format!("{:.4}", 0.6);
    input.semantic_fn_low_confidence = 4;

    write_rates(&mut input);
    let snapshot = compute_eval(&input);

    assert_eq!(snapshot.semantic_fn_totalized, 10);
    assert!((ratio(snapshot.semantic_fn_totalization_coverage) - 1.0).abs() < 0.000_001);
    assert!(snapshot.eval_enforcement.passed);
    assert_eq!(snapshot.eval_enforcement.violation_count, 0);
    assert!(snapshot.eval_enforcement.warning_count > 0);
    assert!(snapshot
        .eval_enforcement
        .warnings
        .iter()
        .any(|w| w.contains("low_confidence_rate=0.4000")));
}

#[test]
fn issue_health_drops_when_same_issue_reopened() {
    let issues = vec![
        Issue {
            title: "loop".to_string(),
            status: "open".to_string(),
            ..Issue::default()
        },
        Issue {
            title: "loop".to_string(),
            status: "in_progress".to_string(),
            ..Issue::default()
        },
        Issue {
            title: "fixed".to_string(),
            status: "resolved".to_string(),
            ..Issue::default()
        },
    ];

    let (open_issues, repeated_open_issues, _) = load_issue_counts(&issues);
    assert_eq!((open_issues, repeated_open_issues), (2, 2));
    assert!(ratio(issue_health_score(open_issues, repeated_open_issues)) < 1.0);
}

#[test]
fn safety_score_decreases_with_critical_violations() {
    let mut violations: Vec<Severity> = Vec::new();
    let no_violation_score = ratio(safety_score(&violations));
    violations.push(Severity::Critical);
    assert!(ratio(safety_score(&violations)) < no_violation_score);
}

#[test]
fn structural_invariant_coverage_reports_missing_graph_risk() {
    let graph = r#"
        {"nodes":{
          "a":{"path":"tools::handle_apply_patch_action"},
          "b":{"path":"tools::handle_cargo_test_action"}
        }}
    "#;
    let invariants = r#"{"invariants":[]}"#;

    let coverage = structural_invariant_coverage_from_text(graph, invariants);

    assert_eq!(coverage.graph_risk_count, 1);
    assert_eq!(coverage.invariant_covered_count, 0);
    assert_eq!(coverage.missing_invariant_count, 1);
    assert_eq!(
        coverage.missing,
        vec!["patch_requires_verification_gate".to_string()]
    );
    assert_eq!(ratio(coverage.score()), 0.0);
}

#[test]
fn structural_invariant_coverage_counts_matching_invariant() {
    let graph = r#"
        {"nodes":{
          "a":{"path":"tools::handle_apply_patch_action"},
          "b":{"path":"tools::handle_cargo_test_action"}
        }}
    "#;
    let invariants = r#"
        {"invariants":[{"predicate_text":
          "Every patch must be followed by cargo test verification before completion."
        }]}
    "#;

    let coverage = structural_invariant_coverage_from_text(graph, invariants);

    assert_eq!(coverage.graph_risk_count, 1);
    assert_eq!(coverage.invariant_covered_count, 1);
    assert_eq!(coverage.missing_invariant_count, 0);
    assert_eq!(ratio(coverage.score()), 1.0);
}

#[test]
fn structural_invariant_coverage_requires_checkpoint_commit_gate() {
    let graph = r#"
        {"nodes":{
          "a":{"path":"supervisor::checkpoint_build_succeeded"},
          "b":{"path":"supervisor::commit_and_push_checkpoint"}
        },
         "edges":[{"label":"git commit"},{"label":"rust_patch_verification_requested"}]}
    "#;
    let invariants = r#"{"invariants":[]}"#;

    let coverage = structural_invariant_coverage_from_text(graph, invariants);

    assert_eq!(
        coverage.missing,
        vec!["checkpoint_commit_requires_verified_gate_if_rust_changed".to_string()]
    );
    assert_eq!(ratio(coverage.score()), 0.0);
}

#[test]
fn tlog_delta_invariants_detect_missing_action_result() {
    let records = vec![TlogRecord {
    payload_bytes: 0,
        seq: 1,
        ts_ms: 1,
        event: Event::effect(EffectEvent::LlmTurnOutput {
            tab_id: None,
            turn_id: None,
            role: "planner".to_string(),
            step: 1,
            command_id: "cmd-1".to_string(),
            endpoint_id: "ep".to_string(),
            response_bytes: 10,
            response_hash: "h".to_string(),
            action_kind: Some("plan".to_string()),
            raw: "{}".to_string(),
        }),
    }];

    let signals = evaluate_tlog_delta_invariants(&records);

    assert_eq!(signals.llm_action_outputs, 1);
    assert_eq!(signals.missing_action_results, 1);
    assert!(delta_score(&signals) < 1.0);
}

#[test]
fn tlog_delta_invariants_reward_closed_action_delta() {
    let records = vec![
        TlogRecord {
    payload_bytes: 0,
            seq: 1,
            ts_ms: 1,
            event: Event::effect(EffectEvent::LlmTurnOutput {
                tab_id: None,
                turn_id: None,
                role: "planner".to_string(),
                step: 1,
                command_id: "cmd-1".to_string(),
                endpoint_id: "ep".to_string(),
                response_bytes: 10,
                response_hash: "h".to_string(),
                action_kind: Some("plan".to_string()),
                raw: "{}".to_string(),
            }),
        },
        TlogRecord {
    payload_bytes: 0,
            seq: 2,
            ts_ms: 2,
            event: Event::effect(EffectEvent::ActionResultRecorded {
                role: "planner".to_string(),
                step: 1,
                command_id: "cmd-1".to_string(),
                action_kind: "plan".to_string(),
                task_id: None,
                objective_id: None,
                ok: true,
                result_bytes: 2,
                result_hash: "r".to_string(),
                result: "ok".to_string(),
            }),
        },
    ];

    let signals = evaluate_tlog_delta_invariants(&records);

    assert_eq!(signals.missing_action_results, 0);
    assert_eq!(delta_score(&signals), 1.0);
}

#[test]
fn tlog_delta_invariants_identifies_projection_as_actionable_lag() {
    let records = vec![
        TlogRecord {
    payload_bytes: 0,
            seq: 1,
            ts_ms: 1_000,
            event: Event::effect(EffectEvent::LlmTurnInput {
                tab_id: None,
                turn_id: None,
                role: "planner".to_string(),
                agent_type: "planner".to_string(),
                step: 1,
                command_id: "cmd-1".to_string(),
                endpoint_id: "ep".to_string(),
                prompt_hash: "p".to_string(),
                prompt_bytes: 10,
                role_schema_bytes: 2,
                submit_only: false,
            }),
        },
        TlogRecord {
    payload_bytes: 0,
            seq: 2,
            ts_ms: 3_500,
            event: Event::effect(EffectEvent::IssuesProjectionRecorded {
                path: "agent_state/ISSUES.json".to_string(),
                hash: "h".to_string(),
                issue_count: 10,
                open_count: 10,
                bytes: 1_000_000,
                issue_fingerprints_hash: "f".to_string(),
                changed_issue_count: 5,
                changed_issue_ids: Vec::new(),
                status_counts: Vec::new(),
            }),
        },
        TlogRecord {
    payload_bytes: 0,
            seq: 3,
            ts_ms: 10_000,
            event: Event::effect(EffectEvent::LlmTurnOutput {
                tab_id: None,
                turn_id: None,
                role: "planner".to_string(),
                step: 1,
                command_id: "cmd-1".to_string(),
                endpoint_id: "ep".to_string(),
                response_bytes: 10,
                response_hash: "r".to_string(),
                action_kind: None,
                raw: "{}".to_string(),
            }),
        },
    ];

    let signals = evaluate_tlog_delta_invariants(&records);

    assert_eq!(signals.lag_gap_count, 2);
    assert_eq!(signals.lag_total_ms, 9_000);
    assert_eq!(signals.max_event_gap_ms, 6_500);
    assert_eq!(signals.issues_projection_lag_count, 1);
    assert_eq!(signals.issues_projection_lag_ms, 2_500);
    assert_eq!(signals.actionable_lag_gap_count, 1);
    assert_eq!(signals.actionable_lag_total_ms, 2_500);
    assert_eq!(
        signals.dominant_actionable_lag_kind,
        "issues_projection_recorded"
    );
    assert_eq!(signals.dominant_actionable_lag_kind_ms, 2_500);
    assert!(delta_score(&signals) < 1.0);
}

#[test]
fn tlog_delta_invariants_penalize_unsafe_checkpoint_attempts() {
    let records = vec![TlogRecord {
    payload_bytes: 0,
        seq: 1,
        ts_ms: 1,
        event: Event::effect(EffectEvent::GitCheckpointBlocked {
            reason: "orchestrate-deferred-update-timeout".to_string(),
            risk: "commit_push_requires_verified_gate_if_rust_changed".to_string(),
            verification_requested: false,
            rust_sensitive_changes: true,
            changed_paths: vec!["src/supervisor.rs".to_string()],
            required_gate:
                "cargo check --workspace && cargo test --workspace && cargo build --workspace"
                    .to_string(),
            signature: "sig".to_string(),
        }),
    }];

    let signals = evaluate_tlog_delta_invariants(&records);

    assert_eq!(signals.git_checkpoint_blocked, 1);
    assert_eq!(signals.unsafe_checkpoint_attempts, 1);
    assert!(delta_score(&signals) < 1.0);
}

#[test]
fn tlog_delta_invariants_count_prompt_truncations() {
    let records = vec![TlogRecord {
    payload_bytes: 0,
        seq: 1,
        ts_ms: 1,
        event: Event::effect(EffectEvent::PromptTruncationRecorded {
            role: "planner".to_string(),
            prompt_kind: "main".to_string(),
            step: 1,
            command_id: "cmd".to_string(),
            endpoint_id: "ep".to_string(),
            heading: "section".to_string(),
            raw_bytes: 120_000,
            kept_bytes: 80_000,
            dropped_bytes: 40_000,
            policy: "drop-oldest".to_string(),
            body_hash: "hash".to_string(),
        }),
    }];

    let signals = evaluate_tlog_delta_invariants(&records);

    assert_eq!(signals.prompt_truncations, 1);
    assert_eq!(signals.prompt_truncation_dropped_bytes, 40_000);
    assert!(delta_score(&signals) < 1.0);
}

#[test]
fn tlog_delta_invariants_require_eval_after_improvement_action() {
    let mut records = vec![TlogRecord {
    payload_bytes: 0,
        seq: 1,
        ts_ms: 1,
        event: Event::effect(EffectEvent::PostRestartResultRecorded {
            role: "executor".to_string(),
            action: "apply_patch".to_string(),
            result: "apply_patch ok\nPatch applied successfully.".to_string(),
            step: 1,
            tab_id: None,
            turn_id: None,
            endpoint_id: "ep".to_string(),
            restart_kind: "normal".to_string(),
            signature: "sig".to_string(),
        }),
    }];

    let signals = evaluate_tlog_delta_invariants(&records);
    assert_eq!(signals.improvement_attempts, 1);
    assert_eq!(signals.unmeasured_improvement_attempts, 1);
    assert_eq!(ratio(improvement_measurement_score(&signals)), 0.0);

    records.push(TlogRecord {
    payload_bytes: 0,
        seq: 2,
        ts_ms: 2,
        event: Event::effect(EffectEvent::EvalScoreRecorded {
 delta: Some(ScoreChange::NonNegative),
 promotion_eligible: true,
 }),
    });

    let signals = evaluate_tlog_delta_invariants(&records);
    assert_eq!(signals.measured_improvement_attempts, 1);
    assert_eq!(signals.unmeasured_improvement_attempts, 0);
    assert_eq!(signals.non_regressed_improvement_attempts, 1);
    assert_eq!(signals.regressed_improvement_attempts, 0);
    assert_eq!(ratio(improvement_measurement_score(&signals)), 1.0);
    assert_eq!(ratio(improvement_effectiveness_score(&signals)), 1.0);
}

#[test]
fn tlog_delta_invariants_require_validation_after_improvement_action() {
    let mut records = vec![TlogRecord {
    payload_bytes: 0,
        seq: 1,
        ts_ms: 1,
        event: Event::effect(EffectEvent::PostRestartResultRecorded {
            role: "executor".to_string(),
            action: "apply_patch".to_string(),
            result: "apply_patch ok\nPatch applied successfully.".to_string(),
            step: 1,
            tab_id: None,
            turn_id: None,
            endpoint_id: "ep".to_string(),
            restart_kind: "normal".to_string(),
            signature: "sig".to_string(),
        }),
    }];

    let signals = evaluate_tlog_delta_invariants(&records);
    assert_eq!(signals.improvement_attempts, 1);
    assert_eq!(signals.validated_improvement_attempts, 0);
    assert_eq!(signals.unvalidated_improvement_attempts, 1);
    assert_eq!(ratio(improvement_validation_score(&signals)), 0.0);

    records.push(TlogRecord {
    payload_bytes: 0,
        seq: 2,
        ts_ms: 2,
        event: Event::effect(EffectEvent::PostRestartResultRecorded {
            role: "executor".to_string(),
            action: "run_command".to_string(),
            result: "run_command ok\ncommand: cargo check\nFinished dev profile".to_string(),
            step: 2,
            tab_id: None,
            turn_id: None,
            endpoint_id: "ep".to_string(),
            restart_kind: "normal".to_string(),
            signature: "sig2".to_string(),
        }),
    });

    let signals = evaluate_tlog_delta_invariants(&records);
    assert_eq!(signals.validated_improvement_attempts, 1);
    assert_eq!(signals.unvalidated_improvement_attempts, 0);
    assert_eq!(ratio(improvement_validation_score(&signals)), 1.0);
}

#[test]
fn tlog_delta_invariants_penalize_regressed_measured_improvement() {
    let records = vec![
        TlogRecord {
    payload_bytes: 0,
            seq: 1,
            ts_ms: 1,
            event: Event::effect(EffectEvent::PostRestartResultRecorded {
                role: "executor".to_string(),
                action: "apply_patch".to_string(),
                result: "apply_patch ok\nPatch applied successfully.".to_string(),
                step: 1,
                tab_id: None,
                turn_id: None,
                endpoint_id: "ep".to_string(),
                restart_kind: "normal".to_string(),
                signature: "sig".to_string(),
            }),
        },
        TlogRecord {
    payload_bytes: 0,
            seq: 2,
            ts_ms: 2,
            event: Event::effect(EffectEvent::EvalScoreRecorded {
 delta: Some(ScoreChange::Regressed),
 promotion_eligible: false,
 }),
        },
    ];

    let signals = evaluate_tlog_delta_invariants(&records);
    assert_eq!(signals.measured_improvement_attempts, 1);
    assert_eq!(signals.non_regressed_improvement_attempts, 0);
    assert_eq!(signals.regressed_improvement_attempts, 1);
    assert_eq!(ratio(improvement_effectiveness_score(&signals)), 0.0);
    assert!(delta_score(&signals) < 1.0);
}

#[test]
fn recovery_trigger_followed_by_progress_counts_success() {
    let records = vec![
        TlogRecord {
    payload_bytes: 0,
            seq: 1,
            ts_ms: 1,
            event: Event::effect(EffectEvent::RecoveryTriggered {
                generated_at_ms: 1,
                class: "missing_target".to_string(),
                policy: "clear_executor_and_wake_planner".to_string(),
                reason: "path does not exist".to_string(),
                support_count: 2,
                threshold: 2,
                window_ms: 300_000,
            }),
        },
        TlogRecord {
    payload_bytes: 0,
            seq: 2,
            ts_ms: 2,
            event: Event::control(ControlEvent::PlannerPendingSet { pending: true }),
        },
    ];

    let signals = evaluate_tlog_delta_invariants(&records);
    assert_eq!(signals.recovery_attempts, 1);
    assert_eq!(signals.recovery_successes, 1);
    assert_eq!(signals.recovery_failures, 0);
    assert_eq!(ratio(recovery_effectiveness_score(&signals)), 1.0);
}

#[test]
fn recovery_trigger_followed_by_same_failure_counts_failure() {
    let records = vec![
        TlogRecord {
    payload_bytes: 0,
            seq: 1,
            ts_ms: 1,
            event: Event::effect(EffectEvent::RecoveryTriggered {
                generated_at_ms: 1,
                class: "missing_target".to_string(),
                policy: "clear_executor_and_wake_planner".to_string(),
                reason: "path does not exist".to_string(),
                support_count: 2,
                threshold: 2,
                window_ms: 300_000,
            }),
        },
        TlogRecord {
    payload_bytes: 0,
            seq: 2,
            ts_ms: 2,
            event: Event::effect(EffectEvent::InvariantViolation {
                proposed_role: "executor".to_string(),
                reason: "path does not exist".to_string(),
            }),
        },
    ];

    let signals = evaluate_tlog_delta_invariants(&records);
    assert_eq!(signals.recovery_attempts, 1);
    assert_eq!(signals.recovery_successes, 0);
    assert_eq!(signals.recovery_failures, 1);
    assert_eq!(ratio(recovery_effectiveness_score(&signals)), 0.0);
}

#[test]
fn projection_refresh_request_counts_as_recovery_progress() {
    let records = vec![
        TlogRecord {
    payload_bytes: 0,
            seq: 1,
            ts_ms: 1,
            event: Event::effect(EffectEvent::RecoveryTriggered {
                generated_at_ms: 1,
                class: "projection_refresh_stalled".to_string(),
                policy: "refresh_projection_bounded".to_string(),
                reason: "refresh pid is still running and latest.json remains stale".to_string(),
                support_count: 1,
                threshold: 1,
                window_ms: 300_000,
            }),
        },
        TlogRecord {
    payload_bytes: 0,
            seq: 2,
            ts_ms: 2,
            event: Event::effect(EffectEvent::ProjectionRefreshRecoveryRequested {
                generated_at_ms: 2,
                class: "projection_refresh_stalled".to_string(),
                policy: "refresh_projection_bounded".to_string(),
                projection: "agent_state/reports/complexity/latest.json".to_string(),
                command: "timeout 30s cargo run -p canon-mini-agent --bin canon-generate-issues -- --workspace /tmp/ws --complexity-report-only".to_string(),
                timeout_ms: 30_000,
                reason: "refresh pid is still running and latest.json remains stale".to_string(),
            }),
        },
    ];

    let signals = evaluate_tlog_delta_invariants(&records);
    assert_eq!(signals.recovery_attempts, 1);
    assert_eq!(signals.recovery_successes, 1);
    assert_eq!(signals.recovery_failures, 0);
    assert_eq!(ratio(recovery_effectiveness_score(&signals)), 1.0);
}

#[test]
fn explicit_recovery_outcome_counts_success_without_heuristic_window() {
    let records = vec![
        TlogRecord {
    payload_bytes: 0,
            seq: 1,
            ts_ms: 1,
            event: Event::effect(EffectEvent::RecoveryTriggered {
                generated_at_ms: 1,
                class: "missing_target".to_string(),
                policy: "clear_executor_and_wake_planner".to_string(),
                reason: "path does not exist".to_string(),
                support_count: 2,
                threshold: 2,
                window_ms: 300_000,
            }),
        },
        TlogRecord {
    payload_bytes: 0,
            seq: 2,
            ts_ms: 2,
            event: Event::effect(EffectEvent::RecoveryOutcomeRecorded {
                generated_at_ms: 2,
                class: "missing_target".to_string(),
                policy: "clear_executor_and_wake_planner".to_string(),
                success: true,
                failure_count_before: 2,
                failure_count_after: 0,
                progress_event_seen: true,
                eval_window_events: 0,
            }),
        },
    ];

    let signals = evaluate_tlog_delta_invariants(&records);
    assert_eq!(signals.recovery_attempts, 1);
    assert_eq!(signals.recovery_successes, 1);
    assert_eq!(signals.recovery_failures, 0);
    assert_eq!(signals.recovery_loop_breaks, 1);
    assert_eq!(ratio(recovery_effectiveness_score(&signals)), 1.0);
}

#[test]
fn recovery_suppression_counts_as_measured_non_success() {
    let records = vec![TlogRecord {
    payload_bytes: 0,
        seq: 1,
        ts_ms: 1,
        event: Event::effect(EffectEvent::RecoverySuppressed {
            generated_at_ms: 1,
            class: "missing_target".to_string(),
            policy: "clear_executor_and_wake_planner".to_string(),
            reason: "path does not exist".to_string(),
            suppression_reason:
                "retry_budget_exhausted attempt_count=2 max_attempts=2".to_string(),
        }),
    }];

    let signals = evaluate_tlog_delta_invariants(&records);
    assert_eq!(signals.recovery_attempts, 0);
    assert_eq!(signals.recovery_suppressed, 1);
    assert_eq!(signals.recovery_successes, 0);
    assert_eq!(ratio(recovery_effectiveness_score(&signals)), 0.0);
}

#[test]
fn recovery_suppression_with_terminal_cleanup_counts_success() {
    let records = vec![
        TlogRecord {
    payload_bytes: 0,
            seq: 1,
            ts_ms: 1,
            event: Event::effect(EffectEvent::RecoverySuppressed {
                generated_at_ms: 1,
                class: "missing_target".to_string(),
                policy: "clear_executor_and_wake_planner".to_string(),
                reason: "path does not exist".to_string(),
                suppression_reason:
                    "retry_budget_exhausted attempt_count=2 max_attempts=2".to_string(),
            }),
        },
        TlogRecord {
    payload_bytes: 0,
            seq: 2,
            ts_ms: 2,
            event: Event::effect(EffectEvent::RecoveryOutcomeRecorded {
                generated_at_ms: 2,
                class: "missing_target".to_string(),
                policy: "clear_executor_and_wake_planner".to_string(),
                success: true,
                failure_count_before: 2,
                failure_count_after: 0,
                progress_event_seen: true,
                eval_window_events: 4,
            }),
        },
    ];

    let signals = evaluate_tlog_delta_invariants(&records);
    assert_eq!(signals.recovery_attempts, 0);
    assert_eq!(signals.recovery_suppressed, 1);
    assert_eq!(signals.recovery_successes, 1);
    assert_eq!(signals.recovery_failures, 0);
    assert_eq!(signals.recovery_loop_breaks, 1);
    assert_eq!(ratio(recovery_effectiveness_score(&signals)), 1.0);
}

fn record(seq: u64, ts_ms: u64, event: Event) -> TlogRecord {
    TlogRecord { seq, ts_ms, event, payload_bytes: 0 }
}

fn pulse(ts_ms: u64) -> Event {
    Event::control(ControlEvent::OrchestratorIdlePulse { ts_ms })
}

#[test]
fn violations_and_warnings_are_written_out() {
    let mut input = base_eval_input();
    input.semantic_fn_total = 4;
    input.semantic_fn_with_any_error = 1;
    input.semantic_fn_intent_classified = 1;
    input.semantic_fn_low_confidence = 2;
    input.high_priority_open_issues = 3;
    input.failures = vec![Impact::High, Impact::Low];
    input.texts.repair_pressure = "0.5000".to_string();
    write_rates(&mut input);
    let snapshot = compute_eval(&input);
    assert_eq!(
        snapshot.eval_enforcement.violations,
        vec![
            "semantic_errors=1/4 rate=0.2500 > 0.0000".to_string(),
            "intent_totalization=3/4 coverage=0.7500 < 1.0000".to_string(),
        ]
    );
    assert_eq!(
        snapshot.eval_enforcement.warnings,
        vec![
            "low_confidence_rate=0.5000 > 0.2500".to_string(),
            "semantic_contract=0.0938 < 0.5000".to_string(),
            "diagnostics_repair_pressure=0.5000".to_string(),
        ]
    );
    assert_eq!(snapshot.enforcement_penalty, Share { num: 6, den: 20 });
    assert_eq!(snapshot.semantic_fn_error_rate, Share { num: 1, den: 4 });
    assert_eq!(snapshot.diagnostics_repair_pressure, Share { num: 1, den: 2 });
    assert!((ratio(snapshot.vector.safety) - (1.0 - 0.3 * 0.25)).abs() < 1e-9);
}

#[test]
fn shares_have_exact_values() {
    assert_eq!(reward_alignment_score(0, 0), Share { num: 1, den: 1 });
    assert_eq!(ratio(reward_alignment_score(1, 4)), 0.25);
    assert_eq!(ratio(task_velocity_score(1, 4)), 0.25);
    assert_eq!(ratio(issue_health_score(4, 1)), 0.75);
    assert_eq!(ratio(issue_health_score(0, 0)), 1.0);
    assert_eq!(ratio(safety_score(&vec![Severity::High, Severity::Low])), 0.3);
    assert_eq!(ratio(safety_score(&vec![Severity::High, Severity::Medium, Severity::Medium])), 0.0);
    assert_eq!(semantic_rate_from_counts(0, 3), Share { num: 0, den: 1 });
    assert_eq!(semantic_coverage_from_counts(0, 3), Share { num: 1, den: 1 });
    assert_eq!(ratio(semantic_coverage_from_counts(8, 9)), 1.0);
}

#[test]
fn repair_pressure_has_a_floor() {
    assert_eq!(ratio(diagnostics_repair_pressure(&Vec::new())), 0.0);
    assert_eq!(
        ratio(diagnostics_repair_pressure(&vec![Impact::Critical, Impact::Medium])),
        0.5
    );
    assert_eq!(ratio(diagnostics_repair_pressure_with_issues(&Vec::new(), 4)), 0.04);
    assert_eq!(ratio(diagnostics_repair_pressure_with_issues(&Vec::new(), 400)), 0.10);
    assert_eq!(ratio(diagnostics_repair_pressure_with_issues(&vec![Impact::High], 400)), 1.0);
}

#[test]
fn tasks_are_counted_from_a_plan() {
    let plan = parse_json(
        r#"{"tasks":[{"status":"done"},{"status":"todo"},{"title":"no status"}]}"#,
    )
    .unwrap();
    assert_eq!(load_task_counts(&plan), (1, 3));
    assert_eq!(load_task_counts(&parse_json("[]").unwrap()), (0, 0));
    let text = r#"{"tasks": [{"status": "done"}, {"status": "ready"}, {"status": "completed"}]}"#;
    assert_eq!(task_counts_in(text), (2, 3));
    assert_eq!(task_counts_in("no plan"), (0, 0));
}

#[test]
fn gaps_in_the_sequence_are_counted() {
    let records = vec![record(1, 1, pulse(1)), record(4, 2, pulse(2)), record(5, 3, pulse(3))];
    let signals = evaluate_tlog_delta_invariants(&records);
    assert!(!signals.contiguous_seq);
    assert_eq!(signals.missing_seq_count, 2);
    assert_eq!(signals.event_count, 3);
    let empty = evaluate_tlog_delta_invariants(&Vec::new());
    assert!(empty.contiguous_seq);
    assert_eq!(empty.event_count, 0);
}

#[test]
fn a_regressed_score_is_not_eligible_for_promotion() {
    let level = ScoreChanges {
        overall: ScoreChange::NonNegative,
        semantic_contract: ScoreChange::WithinTolerance,
        safety: ScoreChange::NonNegative,
    };
    assert!(compute_delta(level).promotion_eligible);
    let fell = ScoreChanges { safety: ScoreChange::Regressed, ..level };
    assert!(!compute_delta(fell).promotion_eligible);
}

#[test]
fn a_run_records_scores_and_plan_checks() {
    let mut input = base_eval_input();
    write_rates(&mut input);
    let plans = vec![PlanCheck {
        id: "p1".to_string(),
        kind: "repair".to_string(),
        passed: true,
        description: "builds".to_string(),
    }];
    let done = run(&input, None, &plans);
    assert!(done.delta.is_none());
    assert_eq!(done.verify_events.len(), 1);
    assert!(done.fields.eval_enforcement_passed);
    assert!(matches!(
        done.score_event,
        EffectEvent::EvalScoreRecorded { delta: None, promotion_eligible: false }
    ));
    let log = vec![
        record(1, 1, pulse(1)),
        record(2, 2, Event::effect(done.score_event)),
        record(3, 3, pulse(3)),
    ];
    assert_eq!(latest_scores(&log), Some(1));
    assert_eq!(latest_scores(&Vec::new()), None);
}

#[test]
fn repository_scores_follow_from_counts() {
    let share = |num: u128, den: u128| Share { num, den };
    let vector = evaluate_repo_state(
        1,
        4,
        &vec![Severity::High, Severity::Low],
        3,
        6,
        5,
        2,
        vec![share(1, 2)],
        share(3, 2),
        Vec::new(),
        share(1, 1),
        share(1, 2),
        share(7, 1),
        share(0, 1),
    );
    assert_eq!(ratio(vector.objective_progress), 0.25);
    assert!((ratio(vector.safety) - 0.3).abs() < 1e-12);
    assert_eq!(ratio(vector.task_velocity), 0.5);
    assert!((ratio(vector.issue_health) - 0.6).abs() < 1e-12);
    assert_eq!(ratio(vector.structural_invariant_coverage), 1.0);
    assert_eq!(ratio(vector.improvement_validation), 0.5);
    assert_eq!(ratio(vector.improvement_effectiveness), 1.0);
    assert_eq!(ratio(vector.recovery_effectiveness), 0.0);
}

#[test]
fn the_semantic_contract_is_a_product() {
    let mut input = base_eval_input();
    input.semantic_fn_total = 10;
    input.semantic_fn_with_any_error = 2;
    input.semantic_fn_intent_classified = 5;
    input.semantic_fn_low_confidence = 1;
    let shares = compute_eval(&input).vector.semantic_contract;
    let product: f64 = shares.into_iter().map(ratio).product();
    assert!((product - 0.8 * 0.5 * 0.9).abs() < 1e-12);
}

#[test]
fn a_contract_below_one_half_is_warned_of() {
    let warned = |total: usize, errors: usize, classified: usize, low: usize| {
        let mut input = base_eval_input();
        input.semantic_fn_total = total;
        input.semantic_fn_with_any_error = errors;
        input.semantic_fn_intent_classified = classified;
        input.semantic_fn_low_confidence = low;
        let warnings = compute_eval(&input).eval_enforcement.warnings;
        warnings.iter().any(|w| w.starts_with("semantic_contract="))
    };
    assert!(!warned(2, 0, 1, 0));
    assert!(warned(100, 0, 49, 0));
    assert!(warned(10, 2, 8, 3));
    assert!(!warned(10, 1, 8, 2));
    assert!(!warned(0, 0, 0, 0));
    assert!(warned(usize::MAX, 0, usize::MAX / 2, 0));
    assert!(!warned(usize::MAX, 0, usize::MAX / 2 + 1, 0));
}

#[test]
fn a_workspace_is_evaluated_from_its_parts() {
    let issue = |title: &str, status: &str, priority: &str| Issue {
        title: title.to_string(),
        status: status.to_string(),
        priority: priority.to_string(),
        ..Issue::default()
    };
    let base = base_eval_input();
    let parts = WorkspaceParts {
        objectives_completed: 1,
        objectives_total: 2,
        plan_text: r#"{"tasks": [{"status": "done"}, {"status": "ready"}]}"#.to_string(),
        issues: vec![
            issue("a", "open", "high"),
            issue("a", "open", "low"),
            issue("b", "resolved", "high"),
        ],
        violations: vec![Severity::Low],
        failures: Vec::new(),
        semantic_fn_total: 10,
        semantic_fn_with_any_error: 1,
        semantic_fn_intent_classified: 6,
        semantic_fn_low_confidence: 3,
        intent_coverage_low: false,
        graph_text: String::new(),
        invariant_text: String::new(),
        records: Vec::new(),
        texts: base.texts,
    };
    let snapshot = evaluate_workspace(parts);
    assert_eq!((snapshot.objectives_completed, snapshot.objectives_total), (1, 2));
    assert_eq!((snapshot.completed_tasks, snapshot.total_tasks), (1, 2));
    assert_eq!((snapshot.open_issues, snapshot.repeated_open_issues), (2, 2));
    assert_eq!(snapshot.semantic_fn_totalized, 9);
    assert!(!snapshot.eval_enforcement.passed);
    assert_eq!(snapshot.structural_invariant_coverage.graph_risk_count, 0);
    assert_eq!(snapshot.tlog_delta_signals.event_count, 0);
    assert!(snapshot.tlog_delta_signals.contiguous_seq);
}

#[test]
fn a_snapshot_carries_what_was_gathered() {
    let mut input = base_eval_input();
    input.structural_invariant_coverage.graph_risk_count = 3;
    input.structural_invariant_coverage.invariant_covered_count = 2;
    input.structural_invariant_coverage.missing_invariant_count = 1;
    input.structural_invariant_coverage.missing = vec!["checkpoint_gate".to_string()];
    input.tlog_delta_signals.prompt_truncations = 4;
    input.tlog_delta_signals.dominant_payload_kind = "llm_turn_output".to_string();
    input.tlog_delta_signals.recovery_measurement_points = 5;
    write_rates(&mut input);
    let snapshot = compute_eval(&input);
    let coverage = &snapshot.structural_invariant_coverage;
    assert_eq!((coverage.graph_risk_count, coverage.invariant_covered_count), (3, 2));
    assert_eq!(coverage.missing_invariant_count, 1);
    assert_eq!(coverage.missing, vec!["checkpoint_gate".to_string()]);
    assert_eq!(snapshot.tlog_delta_signals.prompt_truncations, 4);
    assert_eq!(snapshot.tlog_delta_signals.dominant_payload_kind, "llm_turn_output");
    assert_eq!(snapshot.tlog_delta_signals.recovery_measurement_points, 5);
}
