//! One evaluation of a workspace: what is recorded of it in the log.

use crate::evaluation;
use crate::evaluation::{compute_eval, EvalInput, EvaluationWorkspaceSnapshot};
use crate::events::{EffectEvent, Event, ScoreChange, TlogRecord};
use crate::text;
use crate::text::copy_texts;
use vstd::prelude::*;
use vstd::string::*;

verus! {

/// How the scores moved since the last recorded evaluation.
#[derive(Debug, Clone, Copy)]
pub struct ScoreChanges {
    pub overall: ScoreChange,
    pub semantic_contract: ScoreChange,
    pub safety: ScoreChange,
}

/// What an evaluation changed against the one before.
#[derive(Debug, Clone, Copy)]
pub struct EvalDelta {
    pub delta_g: ScoreChange,
    pub semantic_contract_delta: ScoreChange,
    pub safety_delta: ScoreChange,
    pub promotion_eligible: bool,
}

/// An evaluation after which a change may be promoted: nothing regressed.
pub open spec fn may_promote(changes: ScoreChanges) -> bool {
    !(changes.overall is Regressed || changes.semantic_contract is Regressed
        || changes.safety is Regressed)
}

/// What an evaluation changed: it is eligible for promotion where no score
/// regressed beyond the tolerance.
pub fn compute_delta(changes: ScoreChanges) -> (r: EvalDelta)
    ensures
        r.delta_g == changes.overall,
        r.semantic_contract_delta == changes.semantic_contract,
        r.safety_delta == changes.safety,
        r.promotion_eligible == may_promote(changes),
{
    EvalDelta {
        delta_g: changes.overall,
        semantic_contract_delta: changes.semantic_contract,
        safety_delta: changes.safety,
        promotion_eligible: !matches!(changes.overall, ScoreChange::Regressed)
            && !matches!(changes.semantic_contract, ScoreChange::Regressed)
            && !matches!(changes.safety, ScoreChange::Regressed),
    }
}

/// The record holds the scores of an evaluation.
pub open spec fn holds_scores(r: TlogRecord) -> bool {
    match r.event {
        Event::Effect { event: EffectEvent::EvalScoreRecorded { .. } } => true,
        _ => false,
    }
}

/// Where the last recorded scores stand in a log.
pub fn latest_scores(records: &Vec<TlogRecord>) -> (r: Option<usize>)
    ensures
        match r {
            Some(i) => {
                &&& i < records@.len()
                &&& holds_scores(records@[i as int])
                &&& forall|j: int| i < j < records@.len() ==> !holds_scores(#[trigger] records@[j])
            },
            None => forall|j: int|
                0 <= j < records@.len() ==> !holds_scores(#[trigger] records@[j]),
        },
{
    let mut i: usize = records.len();
    while i > 0
        invariant
            i <= records.len(),
            forall|j: int| i <= j < records@.len() ==> !holds_scores(#[trigger] records@[j]),
        decreases i,
    {
        i -= 1;
        match &records[i].event {
            Event::Effect { event } => match event {
                EffectEvent::EvalScoreRecorded { .. } => {
                    return Some(i);
                },
                _ => {},
            },
            _ => {},
        }
    }
    None
}

/// What a recorded evaluation says besides its scores.
#[derive(Debug)]
pub struct EvalScoreFields {
    pub improvement_attempts: usize,
    pub measured_improvement_attempts: usize,
    pub unmeasured_improvement_attempts: usize,
    pub validated_improvement_attempts: usize,
    pub unvalidated_improvement_attempts: usize,
    pub non_regressed_improvement_attempts: usize,
    pub regressed_improvement_attempts: usize,
    pub eval_measurement_points: usize,
    pub measurement_regressions: usize,
    pub recovery_attempts: usize,
    pub recovery_successes: usize,
    pub recovery_failures: usize,
    pub recovery_suppressed: usize,
    pub recovery_loop_breaks: usize,
    pub recovery_regressions: usize,
    pub recovery_measurement_points: usize,
    pub tlog_lag_total_ms: u64,
    pub tlog_actionable_lag_total_ms: u64,
    pub tlog_dominant_actionable_lag_kind: String,
    pub tlog_dominant_actionable_lag_kind_ms: u64,
    pub issues_projection_lag_ms: u64,
    pub tlog_dominant_payload_kind: String,
    pub tlog_dominant_payload_kind_bytes: u64,
    pub last_plan_text_payload_bytes: u64,
    pub last_executor_diff_payload_bytes: u64,
    pub tlog_git_checkpoint_blocked: usize,
    pub tlog_unsafe_checkpoint_attempts: usize,
    pub tlog_prompt_truncation_count: usize,
    pub tlog_prompt_truncation_dropped_bytes: u64,
    pub semantic_fn_total: usize,
    pub semantic_fn_with_any_error: usize,
    pub semantic_fn_intent_classified: usize,
    pub semantic_fn_low_confidence: usize,
    pub semantic_fn_totalized: usize,
    pub eval_enforcement_passed: bool,
    pub eval_enforcement_violation_count: usize,
    pub eval_enforcement_violations: Vec<String>,
    pub eval_enforcement_warning_count: usize,
    pub eval_enforcement_warnings: Vec<String>,
}

impl EvalScoreFields {
    /// Every field is what the snapshot shows.
    pub open spec fn of(self, snapshot: EvaluationWorkspaceSnapshot) -> bool {
        let signals = snapshot.tlog_delta_signals;
        &&& self.improvement_attempts == signals.improvement_attempts
        &&& self.measured_improvement_attempts == signals.measured_improvement_attempts
        &&& self.unmeasured_improvement_attempts == signals.unmeasured_improvement_attempts
        &&& self.validated_improvement_attempts == signals.validated_improvement_attempts
        &&& self.unvalidated_improvement_attempts == signals.unvalidated_improvement_attempts
        &&& self.non_regressed_improvement_attempts == signals.non_regressed_improvement_attempts
        &&& self.regressed_improvement_attempts == signals.regressed_improvement_attempts
        &&& self.eval_measurement_points == signals.eval_measurement_points
        &&& self.measurement_regressions == signals.measurement_regressions
        &&& self.recovery_attempts == signals.recovery_attempts
        &&& self.recovery_successes == signals.recovery_successes
        &&& self.recovery_failures == signals.recovery_failures
        &&& self.recovery_suppressed == signals.recovery_suppressed
        &&& self.recovery_loop_breaks == signals.recovery_loop_breaks
        &&& self.recovery_regressions == signals.recovery_regressions
        &&& self.recovery_measurement_points == signals.recovery_measurement_points
        &&& self.tlog_lag_total_ms == signals.lag_total_ms
        &&& self.tlog_actionable_lag_total_ms == signals.actionable_lag_total_ms
        &&& self.tlog_dominant_actionable_lag_kind@ == signals.dominant_actionable_lag_kind@
        &&& self.tlog_dominant_actionable_lag_kind_ms == signals.dominant_actionable_lag_kind_ms
        &&& self.issues_projection_lag_ms == signals.issues_projection_lag_ms
        &&& self.tlog_dominant_payload_kind@ == signals.dominant_payload_kind@
        &&& self.tlog_dominant_payload_kind_bytes == signals.dominant_payload_kind_bytes
        &&& self.last_plan_text_payload_bytes == signals.last_plan_text_payload_bytes
        &&& self.last_executor_diff_payload_bytes == signals.last_executor_diff_payload_bytes
        &&& self.tlog_git_checkpoint_blocked == signals.git_checkpoint_blocked
        &&& self.tlog_unsafe_checkpoint_attempts == signals.unsafe_checkpoint_attempts
        &&& self.tlog_prompt_truncation_count == signals.prompt_truncations
        &&& self.tlog_prompt_truncation_dropped_bytes == signals.prompt_truncation_dropped_bytes
        &&& self.semantic_fn_total == snapshot.semantic_fn_total
        &&& self.semantic_fn_with_any_error == snapshot.semantic_fn_with_any_error
        &&& self.semantic_fn_intent_classified == snapshot.semantic_fn_intent_classified
        &&& self.semantic_fn_low_confidence == snapshot.semantic_fn_low_confidence
        &&& self.semantic_fn_totalized == snapshot.semantic_fn_totalized
        &&& self.eval_enforcement_passed == snapshot.eval_enforcement.passed
        &&& self.eval_enforcement_violation_count == snapshot.eval_enforcement.violation_count
        &&& text::texts(self.eval_enforcement_violations@) == text::texts(
            snapshot.eval_enforcement.violations@,
        )
        &&& self.eval_enforcement_warning_count == snapshot.eval_enforcement.warning_count
        &&& text::texts(self.eval_enforcement_warnings@) == text::texts(
            snapshot.eval_enforcement.warnings@,
        )
    }
}

/// What is recorded of an evaluation besides its scores.
pub fn score_fields(snapshot: &EvaluationWorkspaceSnapshot) -> (r: EvalScoreFields)
    ensures
        r.of(*snapshot),
{
    let signals = &snapshot.tlog_delta_signals;
    EvalScoreFields {
        improvement_attempts: signals.improvement_attempts,
        measured_improvement_attempts: signals.measured_improvement_attempts,
        unmeasured_improvement_attempts: signals.unmeasured_improvement_attempts,
        validated_improvement_attempts: signals.validated_improvement_attempts,
        unvalidated_improvement_attempts: signals.unvalidated_improvement_attempts,
        non_regressed_improvement_attempts: signals.non_regressed_improvement_attempts,
        regressed_improvement_attempts: signals.regressed_improvement_attempts,
        eval_measurement_points: signals.eval_measurement_points,
        measurement_regressions: signals.measurement_regressions,
        recovery_attempts: signals.recovery_attempts,
        recovery_successes: signals.recovery_successes,
        recovery_failures: signals.recovery_failures,
        recovery_suppressed: signals.recovery_suppressed,
        recovery_loop_breaks: signals.recovery_loop_breaks,
        recovery_regressions: signals.recovery_regressions,
        recovery_measurement_points: signals.recovery_measurement_points,
        tlog_lag_total_ms: signals.lag_total_ms,
        tlog_actionable_lag_total_ms: signals.actionable_lag_total_ms,
        tlog_dominant_actionable_lag_kind: signals.dominant_actionable_lag_kind.clone(),
        tlog_dominant_actionable_lag_kind_ms: signals.dominant_actionable_lag_kind_ms,
        issues_projection_lag_ms: signals.issues_projection_lag_ms,
        tlog_dominant_payload_kind: signals.dominant_payload_kind.clone(),
        tlog_dominant_payload_kind_bytes: signals.dominant_payload_kind_bytes,
        last_plan_text_payload_bytes: signals.last_plan_text_payload_bytes,
        last_executor_diff_payload_bytes: signals.last_executor_diff_payload_bytes,
        tlog_git_checkpoint_blocked: signals.git_checkpoint_blocked,
        tlog_unsafe_checkpoint_attempts: signals.unsafe_checkpoint_attempts,
        tlog_prompt_truncation_count: signals.prompt_truncations,
        tlog_prompt_truncation_dropped_bytes: signals.prompt_truncation_dropped_bytes,
        semantic_fn_total: snapshot.semantic_fn_total,
        semantic_fn_with_any_error: snapshot.semantic_fn_with_any_error,
        semantic_fn_intent_classified: snapshot.semantic_fn_intent_classified,
        semantic_fn_low_confidence: snapshot.semantic_fn_low_confidence,
        semantic_fn_totalized: snapshot.semantic_fn_totalized,
        eval_enforcement_passed: snapshot.eval_enforcement.passed,
        eval_enforcement_violation_count: snapshot.eval_enforcement.violation_count,
        eval_enforcement_violations: copy_texts(&snapshot.eval_enforcement.violations),
        eval_enforcement_warning_count: snapshot.eval_enforcement.warning_count,
        eval_enforcement_warnings: copy_texts(&snapshot.eval_enforcement.warnings),
    }
}

/// The check that a repair plan names for itself, and its outcome.
#[derive(Debug)]
pub struct PlanCheck {
    pub id: String,
    pub kind: String,
    pub passed: bool,
    pub description: String,
}

/// The event records the outcome of a plan's check.
pub open spec fn records_check(e: EffectEvent, plan: PlanCheck) -> bool {
    match e {
        EffectEvent::PlanVerifyRecorded { plan_id, plan_kind, passed, verify_description } => {
            &&& plan_id@ == plan.id@
            &&& plan_kind@ == plan.kind@
            &&& passed == plan.passed
            &&& verify_description@ == plan.description@
        },
        _ => false,
    }
}

/// The events that record the outcomes of the plans' checks, in their order.
pub fn verify_events(plans: &Vec<PlanCheck>) -> (r: Vec<EffectEvent>)
    ensures
        r@.len() == plans@.len(),
        forall|i: int| 0 <= i < r@.len() ==> records_check(#[trigger] r@[i], plans@[i]),
{
    let mut events: Vec<EffectEvent> = Vec::new();
    let mut i: usize = 0;
    while i < plans.len()
        invariant
            i <= plans.len(),
            events@.len() == i,
            forall|j: int| 0 <= j < i ==> records_check(#[trigger] events@[j], plans@[j]),
        decreases plans.len() - i,
    {
        let plan = &plans[i];
        events.push(
            EffectEvent::PlanVerifyRecorded {
                plan_id: plan.id.clone(),
                plan_kind: plan.kind.clone(),
                passed: plan.passed,
                verify_description: plan.description.clone(),
            },
        );
        i += 1;
    }
    events
}

/// One evaluation: its snapshot, what it changed, and what is recorded.
#[derive(Debug)]
pub struct EvalRun {
    pub snapshot: EvaluationWorkspaceSnapshot,
    pub delta: Option<EvalDelta>,
    pub fields: EvalScoreFields,
    pub score_event: EffectEvent,
    pub verify_events: Vec<EffectEvent>,
}

/// Evaluates a workspace. `changes` says how the scores moved since the last
/// recorded evaluation, where there is one; `plans` holds the outcomes of the
/// active repair plans' checks.
pub fn run(input: &EvalInput, changes: Option<ScoreChanges>, plans: &Vec<PlanCheck>) -> (r: EvalRun)
    ensures
        evaluation::evaluates(*input, r.snapshot),
        r.delta is Some <==> changes is Some,
        changes is Some ==> {
            let c = changes->0;
            let d = r.delta->0;
            &&& d.delta_g == c.overall
            &&& d.semantic_contract_delta == c.semantic_contract
            &&& d.safety_delta == c.safety
            &&& d.promotion_eligible == !(c.overall is Regressed || c.semantic_contract is Regressed
                || c.safety is Regressed)
        },
        r.fields.of(r.snapshot),
        r.score_event == (EffectEvent::EvalScoreRecorded {
            delta: match r.delta {
                Some(d) => Some(d.delta_g),
                None => None,
            },
            promotion_eligible: match r.delta {
                Some(d) => d.promotion_eligible,
                None => false,
            },
        }),
        r.verify_events@.len() == plans@.len(),
        forall|i: int|
            0 <= i < plans@.len() ==> records_check(#[trigger] r.verify_events@[i], plans@[i]),
{
    let snapshot = compute_eval(input);
    let delta = match changes {
        Some(c) => Some(compute_delta(c)),
        None => None,
    };
    let score_event = match &delta {
        Some(d) => EffectEvent::EvalScoreRecorded {
            delta: Some(d.delta_g),
            promotion_eligible: d.promotion_eligible,
        },
        None => EffectEvent::EvalScoreRecorded { delta: None, promotion_eligible: false },
    };
    let fields = score_fields(&snapshot);
    EvalRun { snapshot, delta, fields, score_event, verify_events: verify_events(plans) }
}

} // verus!
