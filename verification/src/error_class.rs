//! Error classification: every bad outcome that the orchestrator can observe is
//! one of a fixed set of classes.
//!
//! A blocker message or a failed action result is classified by its words, the
//! rules in a fixed order, and the class is what invariant synthesis counts.

use crate::text;
use crate::text::{contains, same, to_lowercase};
use vstd::prelude::*;

verus! {

/// Canonical classes of bad outcome observable by the orchestrator.
#[derive(Debug, Clone, Copy, PartialEq, Eq, Hash, Structural)]
pub enum ErrorClass {
    /// A canonical state mutation bypassed `CanonicalWriter::apply`.
    SecondMutationPath,
    /// Runtime-only state influenced control flow without canonical representation.
    RuntimeControlBypass,
    /// A recovery/reconciliation path changed behavior without an explicit canonical event.
    UncanonicalizedRecoveryPath,
    /// Runtime state diverged from checkpoint/canonical state beyond the allowed recovery window.
    CheckpointRuntimeDivergence,
    /// An effect changed canonical behavior without a corresponding `ControlEvent`.
    EffectfulStateAdvanceWithoutControlEvent,
    /// A single `ControlEvent` encodes multiple logically distinct transitions.
    AmbiguousControlEvent,
    /// A file, symbol, or target referenced in a task does not exist.
    MissingTarget,
    /// An action emitted by an LLM role failed schema validation.
    InvalidSchema,
    /// An executor reached its step budget without completing the task.
    StepLimitExceeded,
    /// A planner task referenced a symbol not found in the semantic graph.
    PlanPreflightFailed,
    /// `cargo build` or `cargo test` returned non-zero exit.
    CompileError,
    /// A path access was outside the permitted workspace boundary.
    PermissionDenied,
    /// The same file was read N times by the same role without any mutation.
    ReadFileStall,
    /// A role was dispatched when its preconditions were not satisfied
    /// (e.g. executor dispatched with no ready tasks).
    InvalidRoute,
    /// The LLM explicitly emitted `message{type=blocker, status=blocked}`.
    BlockerEscalated,
    /// A `plan` operation was attempted by a role that is not permitted to use it.
    UnauthorizedPlanOp,
    /// A verification step produced a result that contradicts the expected state.
    VerificationFailed,
    /// A network / LLM endpoint call timed out or returned a connection error.
    LlmTimeout,
    /// The orchestrator detected a livelock: consecutive cycles with no watched-file state change.
    LivelockDetected,
    /// LLM returned a response but no extractable JSON action block (prose-only reply).
    ReactionOnly,
    /// Anything that does not fit the above classes.
    Unknown,
}

/// The stable key of a class.
pub open spec fn class_key(class: ErrorClass) -> Seq<char> {
    match class {
        ErrorClass::SecondMutationPath => "second_mutation_path"@,
        ErrorClass::RuntimeControlBypass => "runtime_control_bypass"@,
        ErrorClass::UncanonicalizedRecoveryPath => "uncanonicalized_recovery_path"@,
        ErrorClass::CheckpointRuntimeDivergence => "checkpoint_runtime_divergence"@,
        ErrorClass::EffectfulStateAdvanceWithoutControlEvent => "effectful_state_advance_without_control_event"@,
        ErrorClass::AmbiguousControlEvent => "ambiguous_control_event"@,
        ErrorClass::MissingTarget => "missing_target"@,
        ErrorClass::InvalidSchema => "invalid_schema"@,
        ErrorClass::StepLimitExceeded => "step_limit_exceeded"@,
        ErrorClass::PlanPreflightFailed => "plan_preflight_failed"@,
        ErrorClass::CompileError => "compile_error"@,
        ErrorClass::PermissionDenied => "permission_denied"@,
        ErrorClass::ReadFileStall => "read_file_stall"@,
        ErrorClass::InvalidRoute => "invalid_route"@,
        ErrorClass::BlockerEscalated => "blocker_escalated"@,
        ErrorClass::UnauthorizedPlanOp => "unauthorized_plan_op"@,
        ErrorClass::VerificationFailed => "verification_failed"@,
        ErrorClass::LlmTimeout => "llm_timeout"@,
        ErrorClass::LivelockDetected => "livelock_detected"@,
        ErrorClass::ReactionOnly => "reaction_only"@,
        ErrorClass::Unknown => "unknown"@,
    }
}

/// The description of a class.
pub open spec fn class_description(class: ErrorClass) -> Seq<char> {
    match class {
        ErrorClass::SecondMutationPath =>
            "canonical state changed through a path other than CanonicalWriter::apply"@,
        ErrorClass::RuntimeControlBypass =>
            "runtime-only state influenced control flow without canonical representation"@,
        ErrorClass::UncanonicalizedRecoveryPath =>
            "a recovery path changed behavior without an explicit canonical event"@,
        ErrorClass::CheckpointRuntimeDivergence =>
            "runtime state diverged from checkpoint or canonical state beyond the allowed recovery window"@,
        ErrorClass::EffectfulStateAdvanceWithoutControlEvent =>
            "an effect changed canonical behavior without a corresponding control event"@,
        ErrorClass::AmbiguousControlEvent =>
            "a control event encoded multiple logically distinct transitions"@,
        ErrorClass::MissingTarget =>
            "action referenced a target (file/symbol) that does not exist"@,
        ErrorClass::InvalidSchema =>
            "role emitted a structurally invalid action that failed schema validation"@,
        ErrorClass::StepLimitExceeded =>
            "executor reached step budget without completing the task"@,
        ErrorClass::PlanPreflightFailed =>
            "planner task referenced a symbol not found in the workspace semantic graph"@,
        ErrorClass::CompileError =>
            "cargo build or test returned a non-zero exit code"@,
        ErrorClass::PermissionDenied =>
            "path access was outside the permitted workspace boundary"@,
        ErrorClass::ReadFileStall =>
            "same file read multiple times by the same role without any mutation"@,
        ErrorClass::InvalidRoute =>
            "role was dispatched when its required preconditions were not satisfied"@,
        ErrorClass::BlockerEscalated =>
            "LLM role explicitly declared itself blocked and cannot proceed"@,
        ErrorClass::UnauthorizedPlanOp =>
            "role attempted a plan operation it is not permitted to perform"@,
        ErrorClass::VerificationFailed =>
            "verification produced a result that contradicts the expected system state"@,
        ErrorClass::LlmTimeout =>
            "LLM endpoint call timed out or returned a connection error"@,
        ErrorClass::LivelockDetected =>
            "orchestrator detected livelock: no watched-file state change after consecutive cycles"@,
        ErrorClass::ReactionOnly =>
            "LLM returned a prose-only response with no extractable JSON action block"@,
        ErrorClass::Unknown =>
            "unclassified bad outcome"@,
    }
}

impl ErrorClass {
    /// Stable string key used in state conditions for invariant fingerprinting.
    pub fn as_key(&self) -> (r: &'static str)
        ensures
            r@ == class_key(*self),
    {
        match self {
            ErrorClass::SecondMutationPath => "second_mutation_path",
            ErrorClass::RuntimeControlBypass => "runtime_control_bypass",
            ErrorClass::UncanonicalizedRecoveryPath => "uncanonicalized_recovery_path",
            ErrorClass::CheckpointRuntimeDivergence => "checkpoint_runtime_divergence",
            ErrorClass::EffectfulStateAdvanceWithoutControlEvent => "effectful_state_advance_without_control_event",
            ErrorClass::AmbiguousControlEvent => "ambiguous_control_event",
            ErrorClass::MissingTarget => "missing_target",
            ErrorClass::InvalidSchema => "invalid_schema",
            ErrorClass::StepLimitExceeded => "step_limit_exceeded",
            ErrorClass::PlanPreflightFailed => "plan_preflight_failed",
            ErrorClass::CompileError => "compile_error",
            ErrorClass::PermissionDenied => "permission_denied",
            ErrorClass::ReadFileStall => "read_file_stall",
            ErrorClass::InvalidRoute => "invalid_route",
            ErrorClass::BlockerEscalated => "blocker_escalated",
            ErrorClass::UnauthorizedPlanOp => "unauthorized_plan_op",
            ErrorClass::VerificationFailed => "verification_failed",
            ErrorClass::LlmTimeout => "llm_timeout",
            ErrorClass::LivelockDetected => "livelock_detected",
            ErrorClass::ReactionOnly => "reaction_only",
            ErrorClass::Unknown => "unknown",
        }
    }

    /// Human-readable description used in invariant predicates.
    pub fn description(&self) -> (r: &'static str)
        ensures
            r@ == class_description(*self),
    {
        match self {
            ErrorClass::SecondMutationPath =>
                "canonical state changed through a path other than CanonicalWriter::apply",
            ErrorClass::RuntimeControlBypass =>
                "runtime-only state influenced control flow without canonical representation",
            ErrorClass::UncanonicalizedRecoveryPath =>
                "a recovery path changed behavior without an explicit canonical event",
            ErrorClass::CheckpointRuntimeDivergence =>
                "runtime state diverged from checkpoint or canonical state beyond the allowed recovery window",
            ErrorClass::EffectfulStateAdvanceWithoutControlEvent =>
                "an effect changed canonical behavior without a corresponding control event",
            ErrorClass::AmbiguousControlEvent =>
                "a control event encoded multiple logically distinct transitions",
            ErrorClass::MissingTarget =>
                "action referenced a target (file/symbol) that does not exist",
            ErrorClass::InvalidSchema =>
                "role emitted a structurally invalid action that failed schema validation",
            ErrorClass::StepLimitExceeded =>
                "executor reached step budget without completing the task",
            ErrorClass::PlanPreflightFailed =>
                "planner task referenced a symbol not found in the workspace semantic graph",
            ErrorClass::CompileError =>
                "cargo build or test returned a non-zero exit code",
            ErrorClass::PermissionDenied =>
                "path access was outside the permitted workspace boundary",
            ErrorClass::ReadFileStall =>
                "same file read multiple times by the same role without any mutation",
            ErrorClass::InvalidRoute =>
                "role was dispatched when its required preconditions were not satisfied",
            ErrorClass::BlockerEscalated =>
                "LLM role explicitly declared itself blocked and cannot proceed",
            ErrorClass::UnauthorizedPlanOp =>
                "role attempted a plan operation it is not permitted to perform",
            ErrorClass::VerificationFailed =>
                "verification produced a result that contradicts the expected system state",
            ErrorClass::LlmTimeout =>
                "LLM endpoint call timed out or returned a connection error",
            ErrorClass::LivelockDetected =>
                "orchestrator detected livelock: no watched-file state change after consecutive cycles",
            ErrorClass::ReactionOnly =>
                "LLM returned a prose-only response with no extractable JSON action block",
            ErrorClass::Unknown =>
                "unclassified bad outcome",
        }
    }
}

// ---------------------------------------------------------------------------
// Words
// ---------------------------------------------------------------------------

pub open spec fn compile_failure_words(t: Seq<char>) -> bool {
    ||| text::has_text(t, "error[e"@)
    ||| text::has_text(t, "compilation failed"@)
    ||| text::has_text(t, "test failed"@)
}

fn is_compile_failure_text(t: &str) -> (r: bool)
    ensures
        r == compile_failure_words(t@),
{
    contains(t, "error[e")
        || contains(t, "compilation failed")
        || contains(t, "test failed")
}

pub open spec fn permission_boundary_words(t: Seq<char>) -> bool {
    ||| text::has_text(t, "outside"@)
    ||| text::has_text(t, "permission denied"@)
}

fn is_permission_boundary_text(t: &str) -> (r: bool)
    ensures
        r == permission_boundary_words(t@),
{
    contains(t, "outside")
        || contains(t, "permission denied")
}

pub open spec fn missing_target_action_words(t: Seq<char>) -> bool {
    ||| text::has_text(t, "not found"@)
    ||| text::has_text(t, "no such file"@)
}

fn is_missing_target_action_text(t: &str) -> (r: bool)
    ensures
        r == missing_target_action_words(t@),
{
    contains(t, "not found")
        || contains(t, "no such file")
}

pub open spec fn unauthorized_plan_words(t: Seq<char>) -> bool {
    ||| text::has_text(t, "not allowed"@)
    ||| text::has_text(t, "only"@)
    ||| text::has_text(t, "permitted"@)
}

fn is_unauthorized_plan_text(t: &str) -> (r: bool)
    ensures
        r == unauthorized_plan_words(t@),
{
    contains(t, "not allowed")
        || contains(t, "only")
        || contains(t, "permitted")
}

pub open spec fn step_limit_words(t: Seq<char>) -> bool {
    ||| text::has_text(t, "step limit"@)
    ||| text::has_text(t, "step budget"@)
    ||| text::has_text(t, "forced handoff"@)
}

fn is_step_limit_text(t: &str) -> (r: bool)
    ensures
        r == step_limit_words(t@),
{
    contains(t, "step limit")
        || contains(t, "step budget")
        || contains(t, "forced handoff")
}

pub open spec fn invalid_schema_words(t: Seq<char>) -> bool {
    ||| text::has_text(t, "schema"@)
    ||| text::has_text(t, "required field"@)
    ||| text::has_text(t, "invalid action"@)
}

fn is_invalid_schema_text(t: &str) -> (r: bool)
    ensures
        r == invalid_schema_words(t@),
{
    contains(t, "schema")
        || contains(t, "required field")
        || contains(t, "invalid action")
}

pub open spec fn second_mutation_words(t: Seq<char>) -> bool {
    ||| text::has_text(t, "second mutation path"@)
    ||| text::has_text(t, "canonical state bypass"@)
    ||| text::has_text(t, "state_mut"@)
}

fn is_second_mutation_text(t: &str) -> (r: bool)
    ensures
        r == second_mutation_words(t@),
{
    contains(t, "second mutation path")
        || contains(t, "canonical state bypass")
        || contains(t, "state_mut")
}

pub open spec fn runtime_control_bypass_words(t: Seq<char>) -> bool {
    ||| text::has_text(t, "runtime control bypass"@)
    ||| text::has_text(t, "runtime-only control influence"@)
    ||| text::has_text(t, "runtime-only state influenced control"@)
}

fn is_runtime_control_bypass_text(t: &str) -> (r: bool)
    ensures
        r == runtime_control_bypass_words(t@),
{
    contains(t, "runtime control bypass")
        || contains(t, "runtime-only control influence")
        || contains(t, "runtime-only state influenced control")
}

pub open spec fn uncanonicalized_recovery_words(t: Seq<char>) -> bool {
    ||| text::has_text(t, "uncanonicalized recovery"@)
    ||| text::has_text(t, "recovery path without canonical event"@)
    ||| text::has_text(t, "reconciliation path without canonical event"@)
}

fn is_uncanonicalized_recovery_text(t: &str) -> (r: bool)
    ensures
        r == uncanonicalized_recovery_words(t@),
{
    contains(t, "uncanonicalized recovery")
        || contains(t, "recovery path without canonical event")
        || contains(t, "reconciliation path without canonical event")
}

pub open spec fn checkpoint_runtime_divergence_words(t: Seq<char>) -> bool {
    ||| text::has_text(t, "checkpoint/runtime divergence"@)
    ||| text::has_text(t, "checkpoint runtime divergence"@)
    ||| text::has_text(t, "runtime diverged from checkpoint"@)
}

fn is_checkpoint_runtime_divergence_text(t: &str) -> (r: bool)
    ensures
        r == checkpoint_runtime_divergence_words(t@),
{
    contains(t, "checkpoint/runtime divergence")
        || contains(t, "checkpoint runtime divergence")
        || contains(t, "runtime diverged from checkpoint")
}

pub open spec fn effectful_state_advance_words(t: Seq<char>) -> bool {
    ||| text::has_text(t, "effectful state advance without control event"@)
    ||| text::has_text(t, "effect advanced state without controlevent"@)
    ||| text::has_text(t, "effect advanced state without control event"@)
}

fn is_effectful_state_advance_text(t: &str) -> (r: bool)
    ensures
        r == effectful_state_advance_words(t@),
{
    contains(t, "effectful state advance without control event")
        || contains(t, "effect advanced state without controlevent")
        || contains(t, "effect advanced state without control event")
}

pub open spec fn ambiguous_control_event_words(t: Seq<char>) -> bool {
    ||| text::has_text(t, "ambiguous control event"@)
    ||| text::has_text(t, "control event encoded multiple transitions"@)
}

fn is_ambiguous_control_event_text(t: &str) -> (r: bool)
    ensures
        r == ambiguous_control_event_words(t@),
{
    contains(t, "ambiguous control event")
        || contains(t, "control event encoded multiple transitions")
}

pub open spec fn missing_target_words(t: Seq<char>) -> bool {
    ||| text::has_text(t, "not found"@)
    ||| text::has_text(t, "no such file"@)
    ||| text::has_text(t, "missing_target"@)
    ||| text::has_text(t, "does not exist"@)
}

fn is_missing_target_text(t: &str) -> (r: bool)
    ensures
        r == missing_target_words(t@),
{
    contains(t, "not found")
        || contains(t, "no such file")
        || contains(t, "missing_target")
        || contains(t, "does not exist")
}

pub open spec fn timeout_words(t: Seq<char>) -> bool {
    ||| text::has_text(t, "timed out"@)
    ||| text::has_text(t, "connection refused"@)
    ||| text::has_text(t, "timeout"@)
}

fn is_timeout_text(t: &str) -> (r: bool)
    ensures
        r == timeout_words(t@),
{
    contains(t, "timed out")
        || contains(t, "connection refused")
        || contains(t, "timeout")
}

pub open spec fn permission_denied_words(t: Seq<char>) -> bool {
    ||| text::has_text(t, "permission denied"@)
    ||| text::has_text(t, "access denied"@)
}

fn is_permission_denied_text(t: &str) -> (r: bool)
    ensures
        r == permission_denied_words(t@),
{
    contains(t, "permission denied")
        || contains(t, "access denied")
}

pub open spec fn blocker_tool_unavailable_words(t: Seq<char>) -> bool {
    ||| text::has_text(t, "tool unavailable"@)
    ||| text::has_text(t, "tools unavailable"@)
    ||| text::has_text(t, "workspace tools unavailable"@)
    ||| text::has_text(t, "toolchain unavailable"@)
    ||| text::has_text(t, "unavailable in this chat environment"@)
    ||| text::has_text(t, "cannot proceed without the required canon toolchain"@)
}

fn is_blocker_tool_unavailable_text(t: &str) -> (r: bool)
    ensures
        r == blocker_tool_unavailable_words(t@),
{
    contains(t, "tool unavailable")
        || contains(t, "tools unavailable")
        || contains(t, "workspace tools unavailable")
        || contains(t, "toolchain unavailable")
        || contains(t, "unavailable in this chat environment")
        || contains(t, "cannot proceed without the required canon toolchain")
}

pub open spec fn compile_blocker_words(t: Seq<char>) -> bool {
    ||| text::has_text(t, "compile"@)
    ||| text::has_text(t, "build fail"@)
    ||| text::has_text(t, "test fail"@)
    ||| text::has_text(t, "cargo"@)
}

fn is_compile_blocker_text(t: &str) -> (r: bool)
    ensures
        r == compile_blocker_words(t@),
{
    contains(t, "compile")
        || contains(t, "build fail")
        || contains(t, "test fail")
        || contains(t, "cargo")
}

pub open spec fn verification_blocker_words(t: Seq<char>) -> bool {
    ||| text::has_text(t, "verify"@)
    ||| text::has_text(t, "verification"@)
    ||| text::has_text(t, "test"@)
}

fn is_verification_blocker_text(t: &str) -> (r: bool)
    ensures
        r == verification_blocker_words(t@),
{
    contains(t, "verify")
        || contains(t, "verification")
        || contains(t, "test")
}

pub open spec fn plan_preflight_blocker_words(t: Seq<char>) -> bool {
    ||| text::has_text(t, "symbol"@)
    ||| text::has_text(t, "preflight"@)
}

fn is_plan_preflight_blocker_text(t: &str) -> (r: bool)
    ensures
        r == plan_preflight_blocker_words(t@),
{
    contains(t, "symbol")
        || contains(t, "preflight")
}

// ---------------------------------------------------------------------------
// Rules
// ---------------------------------------------------------------------------

/// The class that an action kind gives a failure, where it decides alone or
/// together with the words of the result `t`.
pub open spec fn kind_failure_class(kind: Seq<char>, t: Seq<char>) -> Option<ErrorClass> {
    if kind == "canonical_state_bypass"@ {
        Some(ErrorClass::SecondMutationPath)
    } else if kind == "runtime_control_bypass"@ {
        Some(ErrorClass::RuntimeControlBypass)
    } else if kind == "uncanonicalized_recovery"@ {
        Some(ErrorClass::UncanonicalizedRecoveryPath)
    } else if kind == "checkpoint_runtime_divergence"@ {
        Some(ErrorClass::CheckpointRuntimeDivergence)
    } else if kind == "effectful_state_advance"@ {
        Some(ErrorClass::EffectfulStateAdvanceWithoutControlEvent)
    } else if kind == "ambiguous_control_event"@ {
        Some(ErrorClass::AmbiguousControlEvent)
    } else if kind == "plan_preflight"@ {
        Some(ErrorClass::PlanPreflightFailed)
    } else if kind == "route_dispatch"@ {
        Some(ErrorClass::InvalidRoute)
    } else if kind == "step_limit"@ {
        Some(ErrorClass::StepLimitExceeded)
    } else if kind == "livelock"@ {
        Some(ErrorClass::LivelockDetected)
    } else if kind == "build_gate"@ {
        Some(ErrorClass::CompileError)
    } else if kind == "solo_completion_gate"@ {
        Some(ErrorClass::VerificationFailed)
    } else if kind == "diagnostics_evidence_gate"@ {
        Some(ErrorClass::VerificationFailed)
    } else if kind == "handoff_delivery"@ {
        Some(ErrorClass::InvalidRoute)
    } else if kind == "reaction_only"@ {
        Some(ErrorClass::ReactionOnly)
    } else if kind == "executor_submit_timeout"@ {
        Some(ErrorClass::LlmTimeout)
    } else if kind == "submit_ack_timeout"@ {
        Some(ErrorClass::LlmTimeout)
    } else if kind == "repeated_failed_action"@ {
        Some(ErrorClass::InvalidSchema)
    } else if kind == "idle_streak"@ {
        Some(ErrorClass::InvalidSchema)
    } else if (kind == "cargo_test"@ || kind == "cargo_clippy"@ || kind == "run_command"@)
        && compile_failure_words(t) {
        Some(ErrorClass::CompileError)
    } else if (kind == "read_file"@ || kind == "apply_patch"@) && permission_boundary_words(t) {
        Some(ErrorClass::PermissionDenied)
    } else if (kind == "read_file"@ || kind == "apply_patch"@) && missing_target_action_words(t) {
        Some(ErrorClass::MissingTarget)
    } else if kind == "plan"@ && unauthorized_plan_words(t) {
        Some(ErrorClass::UnauthorizedPlanOp)
    } else {
        None
    }
}

fn classify_action_kind_failure(kind: &str, t: &str) -> (r: Option<ErrorClass>)
    ensures
        r == kind_failure_class(kind@, t@),
{
    if same(kind, "canonical_state_bypass") {
        Some(ErrorClass::SecondMutationPath)
    } else if same(kind, "runtime_control_bypass") {
        Some(ErrorClass::RuntimeControlBypass)
    } else if same(kind, "uncanonicalized_recovery") {
        Some(ErrorClass::UncanonicalizedRecoveryPath)
    } else if same(kind, "checkpoint_runtime_divergence") {
        Some(ErrorClass::CheckpointRuntimeDivergence)
    } else if same(kind, "effectful_state_advance") {
        Some(ErrorClass::EffectfulStateAdvanceWithoutControlEvent)
    } else if same(kind, "ambiguous_control_event") {
        Some(ErrorClass::AmbiguousControlEvent)
    } else if same(kind, "plan_preflight") {
        Some(ErrorClass::PlanPreflightFailed)
    } else if same(kind, "route_dispatch") {
        Some(ErrorClass::InvalidRoute)
    } else if same(kind, "step_limit") {
        Some(ErrorClass::StepLimitExceeded)
    } else if same(kind, "livelock") {
        Some(ErrorClass::LivelockDetected)
    } else if same(kind, "build_gate") {
        Some(ErrorClass::CompileError)
    } else if same(kind, "solo_completion_gate") {
        Some(ErrorClass::VerificationFailed)
    } else if same(kind, "diagnostics_evidence_gate") {
        Some(ErrorClass::VerificationFailed)
    } else if same(kind, "handoff_delivery") {
        Some(ErrorClass::InvalidRoute)
    } else if same(kind, "reaction_only") {
        Some(ErrorClass::ReactionOnly)
    } else if same(kind, "executor_submit_timeout") {
        Some(ErrorClass::LlmTimeout)
    } else if same(kind, "submit_ack_timeout") {
        Some(ErrorClass::LlmTimeout)
    } else if same(kind, "repeated_failed_action") {
        Some(ErrorClass::InvalidSchema)
    } else if same(kind, "idle_streak") {
        Some(ErrorClass::InvalidSchema)
    } else if (same(kind, "cargo_test") || same(kind, "cargo_clippy") || same(kind, "run_command"))
        && is_compile_failure_text(t) {
        Some(ErrorClass::CompileError)
    } else if (same(kind, "read_file") || same(kind, "apply_patch")) && is_permission_boundary_text(t) {
        Some(ErrorClass::PermissionDenied)
    } else if (same(kind, "read_file") || same(kind, "apply_patch")) && is_missing_target_action_text(t) {
        Some(ErrorClass::MissingTarget)
    } else if same(kind, "plan") && is_unauthorized_plan_text(t) {
        Some(ErrorClass::UnauthorizedPlanOp)
    } else {
        None
    }
}

/// The class that the words of a failed result give.
pub open spec fn failure_text_class(t: Seq<char>) -> ErrorClass {
    if text::has_text(t, "outside"@) && (text::has_text(t, "workspace"@) || text::has_text(
        t,
        "permitted"@,
    )) {
        ErrorClass::PermissionDenied
    } else if text::has_text(t, "not allowed"@) || text::has_text(t, "not permitted"@) {
        ErrorClass::UnauthorizedPlanOp
    } else if step_limit_words(t) {
        ErrorClass::StepLimitExceeded
    } else if invalid_schema_words(t) {
        ErrorClass::InvalidSchema
    } else if second_mutation_words(t) {
        ErrorClass::SecondMutationPath
    } else if runtime_control_bypass_words(t) {
        ErrorClass::RuntimeControlBypass
    } else if uncanonicalized_recovery_words(t) {
        ErrorClass::UncanonicalizedRecoveryPath
    } else if checkpoint_runtime_divergence_words(t) {
        ErrorClass::CheckpointRuntimeDivergence
    } else if effectful_state_advance_words(t) {
        ErrorClass::EffectfulStateAdvanceWithoutControlEvent
    } else if ambiguous_control_event_words(t) {
        ErrorClass::AmbiguousControlEvent
    } else if missing_target_words(t) {
        ErrorClass::MissingTarget
    } else if timeout_words(t) {
        ErrorClass::LlmTimeout
    } else if permission_denied_words(t) {
        ErrorClass::PermissionDenied
    } else {
        ErrorClass::Unknown
    }
}

fn classify_failure_text(t: &str) -> (r: ErrorClass)
    ensures
        r == failure_text_class(t@),
{
    if contains(t, "outside") && (contains(t, "workspace") || contains(t, "permitted")) {
        ErrorClass::PermissionDenied
    } else if contains(t, "not allowed") || contains(t, "not permitted") {
        ErrorClass::UnauthorizedPlanOp
    } else if is_step_limit_text(t) {
        ErrorClass::StepLimitExceeded
    } else if is_invalid_schema_text(t) {
        ErrorClass::InvalidSchema
    } else if is_second_mutation_text(t) {
        ErrorClass::SecondMutationPath
    } else if is_runtime_control_bypass_text(t) {
        ErrorClass::RuntimeControlBypass
    } else if is_uncanonicalized_recovery_text(t) {
        ErrorClass::UncanonicalizedRecoveryPath
    } else if is_checkpoint_runtime_divergence_text(t) {
        ErrorClass::CheckpointRuntimeDivergence
    } else if is_effectful_state_advance_text(t) {
        ErrorClass::EffectfulStateAdvanceWithoutControlEvent
    } else if is_ambiguous_control_event_text(t) {
        ErrorClass::AmbiguousControlEvent
    } else if is_missing_target_text(t) {
        ErrorClass::MissingTarget
    } else if is_timeout_text(t) {
        ErrorClass::LlmTimeout
    } else if is_permission_denied_text(t) {
        ErrorClass::PermissionDenied
    } else {
        ErrorClass::Unknown
    }
}

/// The class that the words of a blocker summary give.
pub open spec fn blocker_text_class(t: Seq<char>) -> ErrorClass {
    if blocker_tool_unavailable_words(t) {
        ErrorClass::PermissionDenied
    } else if text::has_text(t, "step limit"@) || text::has_text(t, "budget"@) || text::has_text(
        t,
        "too many steps"@,
    ) {
        ErrorClass::StepLimitExceeded
    } else if compile_blocker_words(t) {
        ErrorClass::CompileError
    } else if text::has_text(t, "not found"@) || text::has_text(t, "does not exist"@) || text::has_text(
        t,
        "missing"@,
    ) {
        ErrorClass::MissingTarget
    } else if invalid_schema_words(t) {
        ErrorClass::InvalidSchema
    } else if second_mutation_words(t) {
        ErrorClass::SecondMutationPath
    } else if runtime_control_bypass_words(t) {
        ErrorClass::RuntimeControlBypass
    } else if uncanonicalized_recovery_words(t) {
        ErrorClass::UncanonicalizedRecoveryPath
    } else if checkpoint_runtime_divergence_words(t) {
        ErrorClass::CheckpointRuntimeDivergence
    } else if effectful_state_advance_words(t) {
        ErrorClass::EffectfulStateAdvanceWithoutControlEvent
    } else if ambiguous_control_event_words(t) {
        ErrorClass::AmbiguousControlEvent
    } else if text::has_text(t, "outside workspace"@) || text::has_text(t, "permission"@) {
        ErrorClass::PermissionDenied
    } else if verification_blocker_words(t) {
        ErrorClass::VerificationFailed
    } else if plan_preflight_blocker_words(t) {
        ErrorClass::PlanPreflightFailed
    } else {
        ErrorClass::BlockerEscalated
    }
}

/// The class of an action result: of its lower-case text `t`.
pub open spec fn result_class(kind: Seq<char>, t: Seq<char>, ok: bool) -> ErrorClass {
    if ok {
        ErrorClass::Unknown
    } else {
        match kind_failure_class(kind, t) {
            Some(class) => class,
            None => failure_text_class(t),
        }
    }
}

/// Classifies an action result whose text is in lower case already.
pub fn classify_lowered_result(action_kind: &str, lowered: &str, ok: bool) -> (r: ErrorClass)
    ensures
        r == result_class(action_kind@, lowered@, ok),
{
    if ok {
        return ErrorClass::Unknown;
    }
    match classify_action_kind_failure(action_kind, lowered) {
        Some(class) => class,
        None => classify_failure_text(lowered),
    }
}

/// Classifies a blocker summary that is in lower case already.
pub fn classify_lowered_summary(t: &str) -> (r: ErrorClass)
    ensures
        r == blocker_text_class(t@),
{
    if is_blocker_tool_unavailable_text(t) {
        ErrorClass::PermissionDenied
    } else if contains(t, "step limit") || contains(t, "budget") || contains(t, "too many steps") {
        ErrorClass::StepLimitExceeded
    } else if is_compile_blocker_text(t) {
        ErrorClass::CompileError
    } else if contains(t, "not found") || contains(t, "does not exist") || contains(t, "missing") {
        ErrorClass::MissingTarget
    } else if is_invalid_schema_text(t) {
        ErrorClass::InvalidSchema
    } else if is_second_mutation_text(t) {
        ErrorClass::SecondMutationPath
    } else if is_runtime_control_bypass_text(t) {
        ErrorClass::RuntimeControlBypass
    } else if is_uncanonicalized_recovery_text(t) {
        ErrorClass::UncanonicalizedRecoveryPath
    } else if is_checkpoint_runtime_divergence_text(t) {
        ErrorClass::CheckpointRuntimeDivergence
    } else if is_effectful_state_advance_text(t) {
        ErrorClass::EffectfulStateAdvanceWithoutControlEvent
    } else if is_ambiguous_control_event_text(t) {
        ErrorClass::AmbiguousControlEvent
    } else if contains(t, "outside workspace") || contains(t, "permission") {
        ErrorClass::PermissionDenied
    } else if is_verification_blocker_text(t) {
        ErrorClass::VerificationFailed
    } else if is_plan_preflight_blocker_text(t) {
        ErrorClass::PlanPreflightFailed
    } else {
        ErrorClass::BlockerEscalated
    }
}

/// Classifies an action result by its kind and its text, whatever the case of
/// its letters. Only failures are classified.
pub fn classify_result(action_kind: &str, result_text: &str, ok: bool) -> (r: ErrorClass)
    ensures
        r == result_class(action_kind@, text::lowercase(result_text@), ok),
{
    let lowered = to_lowercase(result_text);
    classify_lowered_result(action_kind, lowered.as_str(), ok)
}

/// Classifies the summary of a blocker message, whatever the case of its
/// letters. A summary that no rule speaks of is an escalated blocker.
pub fn classify_blocker_summary(summary: &str) -> (r: ErrorClass)
    ensures
        r == blocker_text_class(text::lowercase(summary@)),
{
    let lowered = to_lowercase(summary);
    classify_lowered_summary(lowered.as_str())
}

// ---------------------------------------------------------------------------
// Laws
// ---------------------------------------------------------------------------

/// No two classes share a key.
pub proof fn law_class_keys_are_distinct(a: ErrorClass, b: ErrorClass)
    requires
        class_key(a) == class_key(b),
    ensures
        a == b,
{
    reveal_strlit("second_mutation_path");
    reveal_strlit("runtime_control_bypass");
    reveal_strlit("uncanonicalized_recovery_path");
    reveal_strlit("checkpoint_runtime_divergence");
    reveal_strlit("effectful_state_advance_without_control_event");
    reveal_strlit("ambiguous_control_event");
    reveal_strlit("missing_target");
    reveal_strlit("invalid_schema");
    reveal_strlit("step_limit_exceeded");
    reveal_strlit("plan_preflight_failed");
    reveal_strlit("compile_error");
    reveal_strlit("permission_denied");
    reveal_strlit("read_file_stall");
    reveal_strlit("invalid_route");
    reveal_strlit("blocker_escalated");
    reveal_strlit("unauthorized_plan_op");
    reveal_strlit("verification_failed");
    reveal_strlit("llm_timeout");
    reveal_strlit("livelock_detected");
    reveal_strlit("reaction_only");
    reveal_strlit("unknown");
    assert("second_mutation_path"@.len() == 20);
    assert("runtime_control_bypass"@.len() == 22);
    assert("uncanonicalized_recovery_path"@.len() == 29);
    assert("checkpoint_runtime_divergence"@.len() == 29);
    assert("effectful_state_advance_without_control_event"@.len() == 45);
    assert("ambiguous_control_event"@.len() == 23);
    assert("missing_target"@.len() == 14);
    assert("invalid_schema"@.len() == 14);
    assert("step_limit_exceeded"@.len() == 19);
    assert("plan_preflight_failed"@.len() == 21);
    assert("compile_error"@.len() == 13);
    assert("permission_denied"@.len() == 17);
    assert("read_file_stall"@.len() == 15);
    assert("invalid_route"@.len() == 13);
    assert("blocker_escalated"@.len() == 17);
    assert("unauthorized_plan_op"@.len() == 20);
    assert("verification_failed"@.len() == 19);
    assert("llm_timeout"@.len() == 11);
    assert("livelock_detected"@.len() == 17);
    assert("reaction_only"@.len() == 13);
    assert("unknown"@.len() == 7);
    assert("second_mutation_path"@[0] != "unauthorized_plan_op"@[0]);
    assert("uncanonicalized_recovery_path"@[0] != "checkpoint_runtime_divergence"@[0]);
    assert("missing_target"@[0] != "invalid_schema"@[0]);
    assert("step_limit_exceeded"@[0] != "verification_failed"@[0]);
    assert("compile_error"@[0] != "invalid_route"@[0]);
    assert("compile_error"@[0] != "reaction_only"@[0]);
    assert("permission_denied"@[0] != "blocker_escalated"@[0]);
    assert("permission_denied"@[0] != "livelock_detected"@[0]);
    assert("invalid_route"@[0] != "reaction_only"@[0]);
    assert("blocker_escalated"@[0] != "livelock_detected"@[0]);
}

/// A successful result is never classified.
pub proof fn law_success_is_unclassified(kind: Seq<char>, t: Seq<char>)
    ensures
        result_class(kind, t, true) == ErrorClass::Unknown,
{
}

/// A blocker summary always has a class.
pub proof fn law_blocker_summary_has_a_class(t: Seq<char>)
    ensures
        blocker_text_class(t) != ErrorClass::Unknown,
{
}

} // verus!
