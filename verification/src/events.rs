//! Events of the transition log.
//!
//! A control event advances the system state; an effect event is recorded for
//! observability and never does.

use crate::blockers::BlockerRecord;
use crate::drift_analysis::FingerprintDrift;
use vstd::prelude::*;

verus! {

/// All events that advance the system state machine.
#[derive(Debug, Clone)]
pub enum ControlEvent {
    PhaseSet { phase: String, lane: Option<usize> },
    ScheduledPhaseSet { phase: Option<String> },
    PlannerPendingSet { pending: bool },
    PlannerObjectiveReviewQueued,
    PlannerObjectivePlanGapQueued,
    DiagnosticsPendingSet { pending: bool },
    DiagnosticsReconciliationQueued,
    VerifierBlockerSet { active: bool },
    DiagnosticsVerifierFollowupQueued,
    DiagnosticsTextSet { text: String },
    LastPlanTextSet { text: String },
    LastExecutorDiffSet { text: String },
    LastSoloPlanTextSet { text: String },
    LastSoloExecutorDiffSet { text: String },
    ObjectivesInitialized {
        source_path: String,
        hash: String,
        contents: String,
    },
    ObjectivesReplaced { hash: String, contents: String },
    LanePendingSet { lane_id: usize, pending: bool },
    LaneInProgressSet { lane_id: usize, actor: Option<String> },
    LaneVerifierResultSet { lane_id: usize, result: String },
    LanePlanTextSet { lane_id: usize, text: String },
    VerifierSummarySet { lane_id: usize, result: String },
    LaneSubmitInFlightSet { lane_id: usize, in_flight: bool },
    LanePromptInFlightSet { lane_id: usize, in_flight: bool },
    LaneActiveTabSet { lane_id: usize, tab_id: u32 },
    TabIdToLaneSet { tab_id: u32, lane_id: usize },
    LaneNextSubmitAtSet { lane_id: usize, ms: u64 },
    LaneStepsUsedSet { lane_id: usize, steps: usize },
    ExternalUserMessageConsumed { role: String, signature: String },
    InboundMessageConsumed { role: String, signature: String },
    WakeSignalQueued {
        role: String,
        signature: String,
        ts_ms: u64,
    },
    WakeSignalConsumed { role: String, signature: String },
    InboundMessageQueued {
        role: String,
        content: String,
        signature: String,
    },
    RustPatchVerificationRequested { requested: bool },
    OrchestratorModeSet { mode: String },
    OrchestratorIdlePulse { ts_ms: u64 },
    CheckpointSnapshotSet { snapshot_json: String },
    PlannerBlockerEvidenceSet { evidence_hash: String },
    PostRestartResultConsumed { role: String, signature: String },
    ExecutorTurnRegistered {
        tab_id: u32,
        turn_id: u64,
        lane_id: usize,
        lane_label: String,
        actor: String,
        endpoint_id: String,
    },
    ExecutorTurnDeregistered { tab_id: u32, turn_id: u64 },
    ExecutorCompletionRecovered {
        tab_id: u32,
        turn_id: u64,
        lane_id: usize,
        lane_label: String,
        actor: String,
        endpoint_id: String,
    },
    ExecutorCompletionTabRebound {
        lane_id: usize,
        from_tab_id: u32,
        to_tab_id: u32,
    },
    ExecutorSubmitAckTabRebound {
        lane_id: usize,
        from_tab_id: u32,
        to_tab_id: u32,
    },
}

/// How an evaluation score moved against the one before it.
#[derive(Debug, Clone, Copy, PartialEq, Eq, Structural)]
pub enum ScoreChange {
    /// Fell by more than the tolerance of one thousandth.
    Regressed,
    /// Fell, but stayed within the tolerance.
    WithinTolerance,
    /// Stayed level or rose.
    NonNegative,
}

/// Side-effect events: logged for observability, never a change of state.
#[derive(Debug, Clone)]
pub enum EffectEvent {
    InvariantViolation { proposed_role: String, reason: String },
    LlmErrorBoundary {
        role: String,
        prompt_kind: String,
        step: usize,
        endpoint_id: String,
        exchange_id: String,
        error: String,
    },
    BuildEvolutionAdvanced {
        evolution: u64,
        command: String,
        git_commit: Option<String>,
        git_commit_count: Option<u64>,
    },
    GitCheckpointPrepared {
        reason: String,
        subject: String,
        body: String,
        verification_requested: bool,
        changed_paths: Vec<String>,
        staged_shortstat: String,
        diff_stat: String,
        graph_nodes: usize,
        graph_edges: usize,
        graph_bridge_edges: usize,
        graph_redundant_paths: usize,
        graph_alpha_pathways: usize,
        issue_total: usize,
        issue_open: usize,
        issue_resolved: usize,
        recent_actions: Vec<(String, usize)>,
        signature: String,
    },
    GitCheckpointBlocked {
        reason: String,
        risk: String,
        verification_requested: bool,
        rust_sensitive_changes: bool,
        changed_paths: Vec<String>,
        required_gate: String,
        signature: String,
    },
    SupervisorRestartRequested {
        reason: String,
        mode: String,
        current_binary_path: String,
        current_binary_mtime_ms: u64,
        next_binary_path: String,
        next_binary_mtime_ms: u64,
        verification_requested: bool,
        pending_defer_checks: u32,
        signature: String,
    },
    CheckpointSaved { phase: String },
    CheckpointLoaded { phase: String },
    SupervisorChildStarted {
        binary_path: String,
        build_kind: String,
        pid: u32,
        binary_mtime_ms: u64,
        signature: String,
    },
    WorkspaceArtifactWriteRequested {
        artifact_id: String,
        source_event_seq: u64,
        producer_action: String,
        repair_plan_id: String,
        plan_task_id: String,
        eval_outcome: String,
        artifact: String,
        op: String,
        target: String,
        subject: String,
        signature: String,
    },
    WorkspaceArtifactWriteApplied {
        artifact_id: String,
        source_event_seq: u64,
        producer_action: String,
        repair_plan_id: String,
        plan_task_id: String,
        eval_outcome: String,
        artifact: String,
        op: String,
        target: String,
        subject: String,
        signature: String,
    },
    InboundMessageRecorded {
        from_role: String,
        to_role: String,
        message: String,
        signature: String,
    },
    ExternalUserMessageRecorded {
        to_role: String,
        message: String,
        signature: String,
    },
    BlockerRecorded { record: BlockerRecord },
    LessonsArtifactRecorded,
    IssuesFileRecorded,
    IssuesProjectionRecorded {
        path: String,
        hash: String,
        issue_count: usize,
        open_count: usize,
        bytes: u64,
        issue_fingerprints_hash: String,
        changed_issue_count: usize,
        changed_issue_ids: Vec<String>,
        status_counts: Vec<(String, usize)>,
    },
    DiagnosticsReportRecorded,
    EnforcedInvariantsRecorded { invariant_count: usize, status_counts: Vec<(String, usize)> },
    ViolationsReportRecorded,
    FramesAllDebugSnapshot {
        source: String,
        file_size_bytes: u64,
        sample_start_offset: u64,
        sample_bytes: u64,
        sample_lines: usize,
        parsed_lines: usize,
        parse_errors: usize,
        type_counts: Vec<(String, u64)>,
        recent_event_types: Vec<String>,
    },
    LlmTurnInput {
        tab_id: Option<u32>,
        turn_id: Option<u64>,
        role: String,
        agent_type: String,
        step: usize,
        command_id: String,
        endpoint_id: String,
        prompt_hash: String,
        prompt_bytes: usize,
        role_schema_bytes: usize,
        submit_only: bool,
    },
    PromptTruncationRecorded {
        role: String,
        prompt_kind: String,
        step: usize,
        command_id: String,
        endpoint_id: String,
        heading: String,
        raw_bytes: usize,
        kept_bytes: usize,
        dropped_bytes: usize,
        policy: String,
        body_hash: String,
    },
    LlmTurnOutput {
        tab_id: Option<u32>,
        turn_id: Option<u64>,
        role: String,
        step: usize,
        command_id: String,
        endpoint_id: String,
        response_bytes: usize,
        response_hash: String,
        action_kind: Option<String>,
        raw: String,
    },
    ActionResultRecorded {
        role: String,
        step: usize,
        command_id: String,
        action_kind: String,
        task_id: Option<String>,
        objective_id: Option<String>,
        ok: bool,
        result_bytes: usize,
        result_hash: String,
        result: String,
    },
    FingerprintDriftRecorded { drift: FingerprintDrift },
    GrpoDatasetRecorded { row_count: usize, group_count: usize },
    RecoveryTriggered {
        generated_at_ms: u64,
        class: String,
        policy: String,
        reason: String,
        support_count: usize,
        threshold: usize,
        window_ms: u64,
    },
    CanonicalRepairPolicyRecorded {
        generated_at_ms: u64,
        class: String,
        policy: String,
        repair_plan_id: String,
        plan_mutation_template: String,
        persisted_policy: String,
        verify_policy: String,
    },
    ProjectionRefreshRecoveryRequested {
        generated_at_ms: u64,
        class: String,
        policy: String,
        projection: String,
        command: String,
        timeout_ms: u64,
        reason: String,
    },
    RecoverySuppressed {
        generated_at_ms: u64,
        class: String,
        policy: String,
        reason: String,
        suppression_reason: String,
    },
    RecoveryOutcomeRecorded {
        generated_at_ms: u64,
        class: String,
        policy: String,
        success: bool,
        failure_count_before: usize,
        failure_count_after: usize,
        progress_event_seen: bool,
        eval_window_events: usize,
    },
    EvalScoreRecorded { delta: Option<ScoreChange>, promotion_eligible: bool },
    PlanVerifyRecorded {
        plan_id: String,
        plan_kind: String,
        passed: bool,
        verify_description: String,
    },
    PostRestartResultRecorded {
        role: String,
        action: String,
        result: String,
        step: usize,
        tab_id: Option<u32>,
        turn_id: Option<u64>,
        endpoint_id: String,
        restart_kind: String,
        signature: String,
    },
}

/// Envelope that wraps either a `ControlEvent` or an `EffectEvent`.
#[derive(Debug, Clone)]
pub enum Event {
    Control { event: ControlEvent },
    Effect { event: EffectEvent },
}

/// One line of the transition log. `payload_bytes` is the length of the event's
/// serialised form.
#[derive(Debug, Clone)]
pub struct TlogRecord {
    pub seq: u64,
    pub ts_ms: u64,
    pub event: Event,
    pub payload_bytes: u64,
}

impl Event {
    pub fn control(e: ControlEvent) -> (r: Self)
        ensures
            r == (Event::Control { event: e }),
    {
        Event::Control { event: e }
    }

    pub fn effect(e: EffectEvent) -> (r: Self)
        ensures
            r == (Event::Effect { event: e }),
    {
        Event::Effect { event: e }
    }

    pub fn is_control(&self) -> (r: bool)
        ensures
            r == (*self is Control),
    {
        match self {
            Event::Control { .. } => true,
            Event::Effect { .. } => false,
        }
    }
}

// ---------------------------------------------------------------------------
// Kinds
// ---------------------------------------------------------------------------

/// The tag under which a control event is serialised.
pub open spec fn control_kind_text(event: ControlEvent) -> Seq<char> {
    match event {
        ControlEvent::PhaseSet { .. } => "phase_set"@,
        ControlEvent::ScheduledPhaseSet { .. } => "scheduled_phase_set"@,
        ControlEvent::PlannerPendingSet { .. } => "planner_pending_set"@,
        ControlEvent::PlannerObjectiveReviewQueued => "planner_objective_review_queued"@,
        ControlEvent::PlannerObjectivePlanGapQueued => "planner_objective_plan_gap_queued"@,
        ControlEvent::DiagnosticsPendingSet { .. } => "diagnostics_pending_set"@,
        ControlEvent::DiagnosticsReconciliationQueued => "diagnostics_reconciliation_queued"@,
        ControlEvent::VerifierBlockerSet { .. } => "verifier_blocker_set"@,
        ControlEvent::DiagnosticsVerifierFollowupQueued => "diagnostics_verifier_followup_queued"@,
        ControlEvent::DiagnosticsTextSet { .. } => "diagnostics_text_set"@,
        ControlEvent::LastPlanTextSet { .. } => "last_plan_text_set"@,
        ControlEvent::LastExecutorDiffSet { .. } => "last_executor_diff_set"@,
        ControlEvent::LastSoloPlanTextSet { .. } => "last_solo_plan_text_set"@,
        ControlEvent::LastSoloExecutorDiffSet { .. } => "last_solo_executor_diff_set"@,
        ControlEvent::ObjectivesInitialized { .. } => "objectives_initialized"@,
        ControlEvent::ObjectivesReplaced { .. } => "objectives_replaced"@,
        ControlEvent::LanePendingSet { .. } => "lane_pending_set"@,
        ControlEvent::LaneInProgressSet { .. } => "lane_in_progress_set"@,
        ControlEvent::LaneVerifierResultSet { .. } => "lane_verifier_result_set"@,
        ControlEvent::LanePlanTextSet { .. } => "lane_plan_text_set"@,
        ControlEvent::VerifierSummarySet { .. } => "verifier_summary_set"@,
        ControlEvent::LaneSubmitInFlightSet { .. } => "lane_submit_in_flight_set"@,
        ControlEvent::LanePromptInFlightSet { .. } => "lane_prompt_in_flight_set"@,
        ControlEvent::LaneActiveTabSet { .. } => "lane_active_tab_set"@,
        ControlEvent::TabIdToLaneSet { .. } => "tab_id_to_lane_set"@,
        ControlEvent::LaneNextSubmitAtSet { .. } => "lane_next_submit_at_set"@,
        ControlEvent::LaneStepsUsedSet { .. } => "lane_steps_used_set"@,
        ControlEvent::ExternalUserMessageConsumed { .. } => "external_user_message_consumed"@,
        ControlEvent::InboundMessageConsumed { .. } => "inbound_message_consumed"@,
        ControlEvent::WakeSignalQueued { .. } => "wake_signal_queued"@,
        ControlEvent::WakeSignalConsumed { .. } => "wake_signal_consumed"@,
        ControlEvent::InboundMessageQueued { .. } => "inbound_message_queued"@,
        ControlEvent::RustPatchVerificationRequested { .. } => "rust_patch_verification_requested"@,
        ControlEvent::OrchestratorModeSet { .. } => "orchestrator_mode_set"@,
        ControlEvent::OrchestratorIdlePulse { .. } => "orchestrator_idle_pulse"@,
        ControlEvent::CheckpointSnapshotSet { .. } => "checkpoint_snapshot_set"@,
        ControlEvent::PlannerBlockerEvidenceSet { .. } => "planner_blocker_evidence_set"@,
        ControlEvent::PostRestartResultConsumed { .. } => "post_restart_result_consumed"@,
        ControlEvent::ExecutorTurnRegistered { .. } => "executor_turn_registered"@,
        ControlEvent::ExecutorTurnDeregistered { .. } => "executor_turn_deregistered"@,
        ControlEvent::ExecutorCompletionRecovered { .. } => "executor_completion_recovered"@,
        ControlEvent::ExecutorCompletionTabRebound { .. } => "executor_completion_tab_rebound"@,
        ControlEvent::ExecutorSubmitAckTabRebound { .. } => "executor_submit_ack_tab_rebound"@,
    }
}

/// The tag under which an effect event is serialised.
pub open spec fn effect_kind_text(event: EffectEvent) -> Seq<char> {
    match event {
        EffectEvent::InvariantViolation { .. } => "invariant_violation"@,
        EffectEvent::LlmErrorBoundary { .. } => "llm_error_boundary"@,
        EffectEvent::BuildEvolutionAdvanced { .. } => "build_evolution_advanced"@,
        EffectEvent::GitCheckpointPrepared { .. } => "git_checkpoint_prepared"@,
        EffectEvent::GitCheckpointBlocked { .. } => "git_checkpoint_blocked"@,
        EffectEvent::SupervisorRestartRequested { .. } => "supervisor_restart_requested"@,
        EffectEvent::CheckpointSaved { .. } => "checkpoint_saved"@,
        EffectEvent::CheckpointLoaded { .. } => "checkpoint_loaded"@,
        EffectEvent::SupervisorChildStarted { .. } => "supervisor_child_started"@,
        EffectEvent::WorkspaceArtifactWriteRequested { .. } => "workspace_artifact_write_requested"@,
        EffectEvent::WorkspaceArtifactWriteApplied { .. } => "workspace_artifact_write_applied"@,
        EffectEvent::InboundMessageRecorded { .. } => "inbound_message_recorded"@,
        EffectEvent::ExternalUserMessageRecorded { .. } => "external_user_message_recorded"@,
        EffectEvent::BlockerRecorded { .. } => "blocker_recorded"@,
        EffectEvent::LessonsArtifactRecorded => "lessons_artifact_recorded"@,
        EffectEvent::IssuesFileRecorded => "issues_file_recorded"@,
        EffectEvent::IssuesProjectionRecorded { .. } => "issues_projection_recorded"@,
        EffectEvent::DiagnosticsReportRecorded => "diagnostics_report_recorded"@,
        EffectEvent::EnforcedInvariantsRecorded { .. } => "enforced_invariants_recorded"@,
        EffectEvent::ViolationsReportRecorded => "violations_report_recorded"@,
        EffectEvent::FramesAllDebugSnapshot { .. } => "frames_all_debug_snapshot"@,
        EffectEvent::LlmTurnInput { .. } => "llm_turn_input"@,
        EffectEvent::PromptTruncationRecorded { .. } => "prompt_truncation_recorded"@,
        EffectEvent::LlmTurnOutput { .. } => "llm_turn_output"@,
        EffectEvent::ActionResultRecorded { .. } => "action_result_recorded"@,
        EffectEvent::FingerprintDriftRecorded { .. } => "fingerprint_drift_recorded"@,
        EffectEvent::GrpoDatasetRecorded { .. } => "grpo_dataset_recorded"@,
        EffectEvent::RecoveryTriggered { .. } => "recovery_triggered"@,
        EffectEvent::CanonicalRepairPolicyRecorded { .. } => "canonical_repair_policy_recorded"@,
        EffectEvent::ProjectionRefreshRecoveryRequested { .. } => "projection_refresh_recovery_requested"@,
        EffectEvent::RecoverySuppressed { .. } => "recovery_suppressed"@,
        EffectEvent::RecoveryOutcomeRecorded { .. } => "recovery_outcome_recorded"@,
        EffectEvent::EvalScoreRecorded { .. } => "eval_score_recorded"@,
        EffectEvent::PlanVerifyRecorded { .. } => "plan_verify_recorded"@,
        EffectEvent::PostRestartResultRecorded { .. } => "post_restart_result_recorded"@,
    }
}

/// The tag under which an event is serialised.
pub open spec fn kind_text(event: Event) -> Seq<char> {
    match event {
        Event::Control { event } => control_kind_text(event),
        Event::Effect { event } => effect_kind_text(event),
    }
}

/// The tag under which a control event is serialised.
pub fn control_event_kind(event: &ControlEvent) -> (r: &'static str)
    ensures
        r@ == control_kind_text(*event),
{
    match event {
        ControlEvent::PhaseSet { .. } => "phase_set",
        ControlEvent::ScheduledPhaseSet { .. } => "scheduled_phase_set",
        ControlEvent::PlannerPendingSet { .. } => "planner_pending_set",
        ControlEvent::PlannerObjectiveReviewQueued => "planner_objective_review_queued",
        ControlEvent::PlannerObjectivePlanGapQueued => "planner_objective_plan_gap_queued",
        ControlEvent::DiagnosticsPendingSet { .. } => "diagnostics_pending_set",
        ControlEvent::DiagnosticsReconciliationQueued => "diagnostics_reconciliation_queued",
        ControlEvent::VerifierBlockerSet { .. } => "verifier_blocker_set",
        ControlEvent::DiagnosticsVerifierFollowupQueued => "diagnostics_verifier_followup_queued",
        ControlEvent::DiagnosticsTextSet { .. } => "diagnostics_text_set",
        ControlEvent::LastPlanTextSet { .. } => "last_plan_text_set",
        ControlEvent::LastExecutorDiffSet { .. } => "last_executor_diff_set",
        ControlEvent::LastSoloPlanTextSet { .. } => "last_solo_plan_text_set",
        ControlEvent::LastSoloExecutorDiffSet { .. } => "last_solo_executor_diff_set",
        ControlEvent::ObjectivesInitialized { .. } => "objectives_initialized",
        ControlEvent::ObjectivesReplaced { .. } => "objectives_replaced",
        ControlEvent::LanePendingSet { .. } => "lane_pending_set",
        ControlEvent::LaneInProgressSet { .. } => "lane_in_progress_set",
        ControlEvent::LaneVerifierResultSet { .. } => "lane_verifier_result_set",
        ControlEvent::LanePlanTextSet { .. } => "lane_plan_text_set",
        ControlEvent::VerifierSummarySet { .. } => "verifier_summary_set",
        ControlEvent::LaneSubmitInFlightSet { .. } => "lane_submit_in_flight_set",
        ControlEvent::LanePromptInFlightSet { .. } => "lane_prompt_in_flight_set",
        ControlEvent::LaneActiveTabSet { .. } => "lane_active_tab_set",
        ControlEvent::TabIdToLaneSet { .. } => "tab_id_to_lane_set",
        ControlEvent::LaneNextSubmitAtSet { .. } => "lane_next_submit_at_set",
        ControlEvent::LaneStepsUsedSet { .. } => "lane_steps_used_set",
        ControlEvent::ExternalUserMessageConsumed { .. } => "external_user_message_consumed",
        ControlEvent::InboundMessageConsumed { .. } => "inbound_message_consumed",
        ControlEvent::WakeSignalQueued { .. } => "wake_signal_queued",
        ControlEvent::WakeSignalConsumed { .. } => "wake_signal_consumed",
        ControlEvent::InboundMessageQueued { .. } => "inbound_message_queued",
        ControlEvent::RustPatchVerificationRequested { .. } => "rust_patch_verification_requested",
        ControlEvent::OrchestratorModeSet { .. } => "orchestrator_mode_set",
        ControlEvent::OrchestratorIdlePulse { .. } => "orchestrator_idle_pulse",
        ControlEvent::CheckpointSnapshotSet { .. } => "checkpoint_snapshot_set",
        ControlEvent::PlannerBlockerEvidenceSet { .. } => "planner_blocker_evidence_set",
        ControlEvent::PostRestartResultConsumed { .. } => "post_restart_result_consumed",
        ControlEvent::ExecutorTurnRegistered { .. } => "executor_turn_registered",
        ControlEvent::ExecutorTurnDeregistered { .. } => "executor_turn_deregistered",
        ControlEvent::ExecutorCompletionRecovered { .. } => "executor_completion_recovered",
        ControlEvent::ExecutorCompletionTabRebound { .. } => "executor_completion_tab_rebound",
        ControlEvent::ExecutorSubmitAckTabRebound { .. } => "executor_submit_ack_tab_rebound",
    }
}

/// The tag under which an effect event is serialised.
pub fn effect_event_kind(event: &EffectEvent) -> (r: &'static str)
    ensures
        r@ == effect_kind_text(*event),
{
    match event {
        EffectEvent::InvariantViolation { .. } => "invariant_violation",
        EffectEvent::LlmErrorBoundary { .. } => "llm_error_boundary",
        EffectEvent::BuildEvolutionAdvanced { .. } => "build_evolution_advanced",
        EffectEvent::GitCheckpointPrepared { .. } => "git_checkpoint_prepared",
        EffectEvent::GitCheckpointBlocked { .. } => "git_checkpoint_blocked",
        EffectEvent::SupervisorRestartRequested { .. } => "supervisor_restart_requested",
        EffectEvent::CheckpointSaved { .. } => "checkpoint_saved",
        EffectEvent::CheckpointLoaded { .. } => "checkpoint_loaded",
        EffectEvent::SupervisorChildStarted { .. } => "supervisor_child_started",
        EffectEvent::WorkspaceArtifactWriteRequested { .. } => "workspace_artifact_write_requested",
        EffectEvent::WorkspaceArtifactWriteApplied { .. } => "workspace_artifact_write_applied",
        EffectEvent::InboundMessageRecorded { .. } => "inbound_message_recorded",
        EffectEvent::ExternalUserMessageRecorded { .. } => "external_user_message_recorded",
        EffectEvent::BlockerRecorded { .. } => "blocker_recorded",
        EffectEvent::LessonsArtifactRecorded => "lessons_artifact_recorded",
        EffectEvent::IssuesFileRecorded => "issues_file_recorded",
        EffectEvent::IssuesProjectionRecorded { .. } => "issues_projection_recorded",
        EffectEvent::DiagnosticsReportRecorded => "diagnostics_report_recorded",
        EffectEvent::EnforcedInvariantsRecorded { .. } => "enforced_invariants_recorded",
        EffectEvent::ViolationsReportRecorded => "violations_report_recorded",
        EffectEvent::FramesAllDebugSnapshot { .. } => "frames_all_debug_snapshot",
        EffectEvent::LlmTurnInput { .. } => "llm_turn_input",
        EffectEvent::PromptTruncationRecorded { .. } => "prompt_truncation_recorded",
        EffectEvent::LlmTurnOutput { .. } => "llm_turn_output",
        EffectEvent::ActionResultRecorded { .. } => "action_result_recorded",
        EffectEvent::FingerprintDriftRecorded { .. } => "fingerprint_drift_recorded",
        EffectEvent::GrpoDatasetRecorded { .. } => "grpo_dataset_recorded",
        EffectEvent::RecoveryTriggered { .. } => "recovery_triggered",
        EffectEvent::CanonicalRepairPolicyRecorded { .. } => "canonical_repair_policy_recorded",
        EffectEvent::ProjectionRefreshRecoveryRequested { .. } => "projection_refresh_recovery_requested",
        EffectEvent::RecoverySuppressed { .. } => "recovery_suppressed",
        EffectEvent::RecoveryOutcomeRecorded { .. } => "recovery_outcome_recorded",
        EffectEvent::EvalScoreRecorded { .. } => "eval_score_recorded",
        EffectEvent::PlanVerifyRecorded { .. } => "plan_verify_recorded",
        EffectEvent::PostRestartResultRecorded { .. } => "post_restart_result_recorded",
    }
}

/// The tag under which an event is serialised.
pub fn tlog_event_kind(event: &Event) -> (r: &'static str)
    ensures
        r@ == kind_text(*event),
{
    match event {
        Event::Control { event } => control_event_kind(event),
        Event::Effect { event } => effect_event_kind(event),
    }
}

// ---------------------------------------------------------------------------
// Lanes
// ---------------------------------------------------------------------------

/// The lane that a control event speaks of.
pub open spec fn lane_of_control(event: ControlEvent) -> Option<usize> {
    match event {
        ControlEvent::PhaseSet { lane, .. } => lane,
        ControlEvent::LanePendingSet { lane_id, .. } => Some(lane_id),
        ControlEvent::LaneInProgressSet { lane_id, .. } => Some(lane_id),
        ControlEvent::LaneVerifierResultSet { lane_id, .. } => Some(lane_id),
        ControlEvent::LanePlanTextSet { lane_id, .. } => Some(lane_id),
        ControlEvent::VerifierSummarySet { lane_id, .. } => Some(lane_id),
        ControlEvent::LaneSubmitInFlightSet { lane_id, .. } => Some(lane_id),
        ControlEvent::LanePromptInFlightSet { lane_id, .. } => Some(lane_id),
        ControlEvent::LaneActiveTabSet { lane_id, .. } => Some(lane_id),
        ControlEvent::TabIdToLaneSet { lane_id, .. } => Some(lane_id),
        ControlEvent::LaneNextSubmitAtSet { lane_id, .. } => Some(lane_id),
        ControlEvent::LaneStepsUsedSet { lane_id, .. } => Some(lane_id),
        ControlEvent::ExecutorTurnRegistered { lane_id, .. } => Some(lane_id),
        ControlEvent::ExecutorCompletionRecovered { lane_id, .. } => Some(lane_id),
        ControlEvent::ExecutorCompletionTabRebound { lane_id, .. } => Some(lane_id),
        ControlEvent::ExecutorSubmitAckTabRebound { lane_id, .. } => Some(lane_id),
        _ => None,
    }
}

/// The lane that an event speaks of; an effect speaks of none.
pub open spec fn lane_of(event: Event) -> Option<usize> {
    match event {
        Event::Control { event } => lane_of_control(event),
        Event::Effect { .. } => None,
    }
}

/// The lane that a control event speaks of.
pub fn lane_id_from_control_event(event: &ControlEvent) -> (r: Option<usize>)
    ensures
        r == lane_of_control(*event),
{
    match event {
        ControlEvent::PhaseSet { lane, .. } => *lane,
        ControlEvent::LanePendingSet { lane_id, .. } => Some(*lane_id),
        ControlEvent::LaneInProgressSet { lane_id, .. } => Some(*lane_id),
        ControlEvent::LaneVerifierResultSet { lane_id, .. } => Some(*lane_id),
        ControlEvent::LanePlanTextSet { lane_id, .. } => Some(*lane_id),
        ControlEvent::VerifierSummarySet { lane_id, .. } => Some(*lane_id),
        ControlEvent::LaneSubmitInFlightSet { lane_id, .. } => Some(*lane_id),
        ControlEvent::LanePromptInFlightSet { lane_id, .. } => Some(*lane_id),
        ControlEvent::LaneActiveTabSet { lane_id, .. } => Some(*lane_id),
        ControlEvent::TabIdToLaneSet { lane_id, .. } => Some(*lane_id),
        ControlEvent::LaneNextSubmitAtSet { lane_id, .. } => Some(*lane_id),
        ControlEvent::LaneStepsUsedSet { lane_id, .. } => Some(*lane_id),
        ControlEvent::ExecutorTurnRegistered { lane_id, .. } => Some(*lane_id),
        ControlEvent::ExecutorCompletionRecovered { lane_id, .. } => Some(*lane_id),
        ControlEvent::ExecutorCompletionTabRebound { lane_id, .. } => Some(*lane_id),
        ControlEvent::ExecutorSubmitAckTabRebound { lane_id, .. } => Some(*lane_id),
        _ => None,
    }
}

/// Every number is smaller than those behind it.
pub open spec fn ascending(s: Seq<usize>) -> bool {
    forall|i: int, j: int| 0 <= i < j < s.len() ==> s[i] < s[j]
}

/// Puts `x` in its place in an ascending list, where it is not there already.
fn insert_ascending(v: &mut Vec<usize>, x: usize)
    requires
        ascending(old(v)@),
    ensures
        ascending(final(v)@),
        forall|y: usize| final(v)@.contains(y) <==> (old(v)@.contains(y) || y == x),
{
    let ghost before = v@;
    let mut i: usize = 0;
    while i < v.len() && v[i] < x
        invariant
            v@ == before,
            ascending(before),
            i <= v.len(),
            forall|j: int| 0 <= j < i ==> before[j] < x,
        decreases v.len() - i,
    {
        i += 1;
    }
    if i < v.len() && v[i] == x {
        assert(before.contains(x));
        return;
    }
    v.insert(i, x);
    proof {
        let after = before.insert(i as int, x);
        assert(after[i as int] == x);
        assert forall|y: usize| after.contains(y) <==> (before.contains(y) || y == x) by {
            if before.contains(y) {
                let k = choose|k: int| 0 <= k < before.len() && before[k] == y;
                if k < i {
                    assert(after[k] == y);
                } else {
                    assert(after[k + 1] == y);
                }
            }
            if after.contains(y) {
                let k = choose|k: int| 0 <= k < after.len() && after[k] == y;
                if k < i {
                    assert(before[k] == y);
                } else if k > i {
                    assert(before[k - 1] == y);
                }
            }
        }
    }
}

/// The lanes that a list of events speaks of, each once, in ascending order.
pub fn lane_indices_from_events(events: &Vec<Event>) -> (r: Vec<usize>)
    ensures
        ascending(r@),
        forall|lane: usize|
            r@.contains(lane) <==> exists|i: int|
                0 <= i < events@.len() && lane_of(#[trigger] events@[i]) == Some(lane),
{
    let mut out: Vec<usize> = Vec::new();
    let mut i: usize = 0;
    while i < events.len()
        invariant
            i <= events.len(),
            ascending(out@),
            forall|lane: usize|
                out@.contains(lane) <==> exists|j: int|
                    0 <= j < i && lane_of(#[trigger] events@[j]) == Some(lane),
        decreases events.len() - i,
    {
        let ghost before = out@;
        if let Event::Control { event } = &events[i] {
            if let Some(lane) = lane_id_from_control_event(event) {
                insert_ascending(&mut out, lane);
            }
        }
        proof {
            assert forall|lane: usize|
                out@.contains(lane) <==> exists|j: int|
                    0 <= j < i + 1 && lane_of(#[trigger] events@[j]) == Some(lane) by {
                if before.contains(lane) {
                    let j = choose|j: int|
                        0 <= j < i && lane_of(#[trigger] events@[j]) == Some(lane);
                    assert(lane_of(events@[j]) == Some(lane));
                }
                if lane_of(events@[i as int]) == Some(lane) {
                    assert(out@.contains(lane));
                }
            }
        }
        i += 1;
    }
    out
}

} // verus!
