//! What the classes of failures promise: which words and which kinds of action give
//! which class.

use crate::error_class;
use crate::error_class::ErrorClass;
use crate::text;
use vstd::prelude::*;

verus! {

/// The kinds of action that have a rule of their own.
pub open spec fn has_rule(kind: Seq<char>) -> bool {
    ||| kind == "canonical_state_bypass"@
    ||| kind == "runtime_control_bypass"@
    ||| kind == "uncanonicalized_recovery"@
    ||| kind == "checkpoint_runtime_divergence"@
    ||| kind == "effectful_state_advance"@
    ||| kind == "ambiguous_control_event"@
    ||| kind == "plan_preflight"@
    ||| kind == "route_dispatch"@
    ||| kind == "step_limit"@
    ||| kind == "livelock"@
    ||| kind == "build_gate"@
    ||| kind == "solo_completion_gate"@
    ||| kind == "diagnostics_evidence_gate"@
    ||| kind == "handoff_delivery"@
    ||| kind == "reaction_only"@
    ||| kind == "executor_submit_timeout"@
    ||| kind == "submit_ack_timeout"@
    ||| kind == "repeated_failed_action"@
    ||| kind == "idle_streak"@
    ||| kind == "cargo_test"@
    ||| kind == "cargo_clippy"@
    ||| kind == "run_command"@
    ||| kind == "read_file"@
    ||| kind == "apply_patch"@
    ||| kind == "plan"@
}

/// The kinds that have a rule are all different.
proof fn lemma_kinds_differ()
    ensures
        "canonical_state_bypass"@ != "runtime_control_bypass"@,
        "canonical_state_bypass"@ != "uncanonicalized_recovery"@,
        "canonical_state_bypass"@ != "checkpoint_runtime_divergence"@,
        "canonical_state_bypass"@ != "effectful_state_advance"@,
        "canonical_state_bypass"@ != "ambiguous_control_event"@,
        "canonical_state_bypass"@ != "plan_preflight"@,
        "canonical_state_bypass"@ != "route_dispatch"@,
        "canonical_state_bypass"@ != "step_limit"@,
        "canonical_state_bypass"@ != "livelock"@,
        "canonical_state_bypass"@ != "build_gate"@,
        "canonical_state_bypass"@ != "solo_completion_gate"@,
        "canonical_state_bypass"@ != "diagnostics_evidence_gate"@,
        "canonical_state_bypass"@ != "handoff_delivery"@,
        "canonical_state_bypass"@ != "reaction_only"@,
        "canonical_state_bypass"@ != "executor_submit_timeout"@,
        "canonical_state_bypass"@ != "submit_ack_timeout"@,
        "canonical_state_bypass"@ != "repeated_failed_action"@,
        "canonical_state_bypass"@ != "idle_streak"@,
        "canonical_state_bypass"@ != "cargo_test"@,
        "canonical_state_bypass"@ != "cargo_clippy"@,
        "canonical_state_bypass"@ != "run_command"@,
        "canonical_state_bypass"@ != "read_file"@,
        "canonical_state_bypass"@ != "apply_patch"@,
        "canonical_state_bypass"@ != "plan"@,
        "runtime_control_bypass"@ != "uncanonicalized_recovery"@,
        "runtime_control_bypass"@ != "checkpoint_runtime_divergence"@,
        "runtime_control_bypass"@ != "effectful_state_advance"@,
        "runtime_control_bypass"@ != "ambiguous_control_event"@,
        "runtime_control_bypass"@ != "plan_preflight"@,
        "runtime_control_bypass"@ != "route_dispatch"@,
        "runtime_control_bypass"@ != "step_limit"@,
        "runtime_control_bypass"@ != "livelock"@,
        "runtime_control_bypass"@ != "build_gate"@,
        "runtime_control_bypass"@ != "solo_completion_gate"@,
        "runtime_control_bypass"@ != "diagnostics_evidence_gate"@,
        "runtime_control_bypass"@ != "handoff_delivery"@,
        "runtime_control_bypass"@ != "reaction_only"@,
        "runtime_control_bypass"@ != "executor_submit_timeout"@,
        "runtime_control_bypass"@ != "submit_ack_timeout"@,
        "runtime_control_bypass"@ != "repeated_failed_action"@,
        "runtime_control_bypass"@ != "idle_streak"@,
        "runtime_control_bypass"@ != "cargo_test"@,
        "runtime_control_bypass"@ != "cargo_clippy"@,
        "runtime_control_bypass"@ != "run_command"@,
        "runtime_control_bypass"@ != "read_file"@,
        "runtime_control_bypass"@ != "apply_patch"@,
        "runtime_control_bypass"@ != "plan"@,
        "uncanonicalized_recovery"@ != "checkpoint_runtime_divergence"@,
        "uncanonicalized_recovery"@ != "effectful_state_advance"@,
        "uncanonicalized_recovery"@ != "ambiguous_control_event"@,
        "uncanonicalized_recovery"@ != "plan_preflight"@,
        "uncanonicalized_recovery"@ != "route_dispatch"@,
        "uncanonicalized_recovery"@ != "step_limit"@,
        "uncanonicalized_recovery"@ != "livelock"@,
        "uncanonicalized_recovery"@ != "build_gate"@,
        "uncanonicalized_recovery"@ != "solo_completion_gate"@,
        "uncanonicalized_recovery"@ != "diagnostics_evidence_gate"@,
        "uncanonicalized_recovery"@ != "handoff_delivery"@,
        "uncanonicalized_recovery"@ != "reaction_only"@,
        "uncanonicalized_recovery"@ != "executor_submit_timeout"@,
        "uncanonicalized_recovery"@ != "submit_ack_timeout"@,
        "uncanonicalized_recovery"@ != "repeated_failed_action"@,
        "uncanonicalized_recovery"@ != "idle_streak"@,
        "uncanonicalized_recovery"@ != "cargo_test"@,
        "uncanonicalized_recovery"@ != "cargo_clippy"@,
        "uncanonicalized_recovery"@ != "run_command"@,
        "uncanonicalized_recovery"@ != "read_file"@,
        "uncanonicalized_recovery"@ != "apply_patch"@,
        "uncanonicalized_recovery"@ != "plan"@,
        "checkpoint_runtime_divergence"@ != "effectful_state_advance"@,
        "checkpoint_runtime_divergence"@ != "ambiguous_control_event"@,
        "checkpoint_runtime_divergence"@ != "plan_preflight"@,
        "checkpoint_runtime_divergence"@ != "route_dispatch"@,
        "checkpoint_runtime_divergence"@ != "step_limit"@,
        "checkpoint_runtime_divergence"@ != "livelock"@,
        "checkpoint_runtime_divergence"@ != "build_gate"@,
        "checkpoint_runtime_divergence"@ != "solo_completion_gate"@,
        "checkpoint_runtime_divergence"@ != "diagnostics_evidence_gate"@,
        "checkpoint_runtime_divergence"@ != "handoff_delivery"@,
        "checkpoint_runtime_divergence"@ != "reaction_only"@,
        "checkpoint_runtime_divergence"@ != "executor_submit_timeout"@,
        "checkpoint_runtime_divergence"@ != "submit_ack_timeout"@,
        "checkpoint_runtime_divergence"@ != "repeated_failed_action"@,
        "checkpoint_runtime_divergence"@ != "idle_streak"@,
        "checkpoint_runtime_divergence"@ != "cargo_test"@,
        "checkpoint_runtime_divergence"@ != "cargo_clippy"@,
        "checkpoint_runtime_divergence"@ != "run_command"@,
        "checkpoint_runtime_divergence"@ != "read_file"@,
        "checkpoint_runtime_divergence"@ != "apply_patch"@,
        "checkpoint_runtime_divergence"@ != "plan"@,
        "effectful_state_advance"@ != "ambiguous_control_event"@,
        "effectful_state_advance"@ != "plan_preflight"@,
        "effectful_state_advance"@ != "route_dispatch"@,
        "effectful_state_advance"@ != "step_limit"@,
        "effectful_state_advance"@ != "livelock"@,
        "effectful_state_advance"@ != "build_gate"@,
        "effectful_state_advance"@ != "solo_completion_gate"@,
        "effectful_state_advance"@ != "diagnostics_evidence_gate"@,
        "effectful_state_advance"@ != "handoff_delivery"@,
        "effectful_state_advance"@ != "reaction_only"@,
        "effectful_state_advance"@ != "executor_submit_timeout"@,
        "effectful_state_advance"@ != "submit_ack_timeout"@,
        "effectful_state_advance"@ != "repeated_failed_action"@,
        "effectful_state_advance"@ != "idle_streak"@,
        "effectful_state_advance"@ != "cargo_test"@,
        "effectful_state_advance"@ != "cargo_clippy"@,
        "effectful_state_advance"@ != "run_command"@,
        "effectful_state_advance"@ != "read_file"@,
        "effectful_state_advance"@ != "apply_patch"@,
        "effectful_state_advance"@ != "plan"@,
        "ambiguous_control_event"@ != "plan_preflight"@,
        "ambiguous_control_event"@ != "route_dispatch"@,
        "ambiguous_control_event"@ != "step_limit"@,
        "ambiguous_control_event"@ != "livelock"@,
        "ambiguous_control_event"@ != "build_gate"@,
        "ambiguous_control_event"@ != "solo_completion_gate"@,
        "ambiguous_control_event"@ != "diagnostics_evidence_gate"@,
        "ambiguous_control_event"@ != "handoff_delivery"@,
        "ambiguous_control_event"@ != "reaction_only"@,
        "ambiguous_control_event"@ != "executor_submit_timeout"@,
        "ambiguous_control_event"@ != "submit_ack_timeout"@,
        "ambiguous_control_event"@ != "repeated_failed_action"@,
        "ambiguous_control_event"@ != "idle_streak"@,
        "ambiguous_control_event"@ != "cargo_test"@,
        "ambiguous_control_event"@ != "cargo_clippy"@,
        "ambiguous_control_event"@ != "run_command"@,
        "ambiguous_control_event"@ != "read_file"@,
        "ambiguous_control_event"@ != "apply_patch"@,
        "ambiguous_control_event"@ != "plan"@,
        "plan_preflight"@ != "route_dispatch"@,
        "plan_preflight"@ != "step_limit"@,
        "plan_preflight"@ != "livelock"@,
        "plan_preflight"@ != "build_gate"@,
        "plan_preflight"@ != "solo_completion_gate"@,
        "plan_preflight"@ != "diagnostics_evidence_gate"@,
        "plan_preflight"@ != "handoff_delivery"@,
        "plan_preflight"@ != "reaction_only"@,
        "plan_preflight"@ != "executor_submit_timeout"@,
        "plan_preflight"@ != "submit_ack_timeout"@,
        "plan_preflight"@ != "repeated_failed_action"@,
        "plan_preflight"@ != "idle_streak"@,
        "plan_preflight"@ != "cargo_test"@,
        "plan_preflight"@ != "cargo_clippy"@,
        "plan_preflight"@ != "run_command"@,
        "plan_preflight"@ != "read_file"@,
        "plan_preflight"@ != "apply_patch"@,
        "plan_preflight"@ != "plan"@,
        "route_dispatch"@ != "step_limit"@,
        "route_dispatch"@ != "livelock"@,
        "route_dispatch"@ != "build_gate"@,
        "route_dispatch"@ != "solo_completion_gate"@,
        "route_dispatch"@ != "diagnostics_evidence_gate"@,
        "route_dispatch"@ != "handoff_delivery"@,
        "route_dispatch"@ != "reaction_only"@,
        "route_dispatch"@ != "executor_submit_timeout"@,
        "route_dispatch"@ != "submit_ack_timeout"@,
        "route_dispatch"@ != "repeated_failed_action"@,
        "route_dispatch"@ != "idle_streak"@,
        "route_dispatch"@ != "cargo_test"@,
        "route_dispatch"@ != "cargo_clippy"@,
        "route_dispatch"@ != "run_command"@,
        "route_dispatch"@ != "read_file"@,
        "route_dispatch"@ != "apply_patch"@,
        "route_dispatch"@ != "plan"@,
        "step_limit"@ != "livelock"@,
        "step_limit"@ != "build_gate"@,
        "step_limit"@ != "solo_completion_gate"@,
        "step_limit"@ != "diagnostics_evidence_gate"@,
        "step_limit"@ != "handoff_delivery"@,
        "step_limit"@ != "reaction_only"@,
        "step_limit"@ != "executor_submit_timeout"@,
        "step_limit"@ != "submit_ack_timeout"@,
        "step_limit"@ != "repeated_failed_action"@,
        "step_limit"@ != "idle_streak"@,
        "step_limit"@ != "cargo_test"@,
        "step_limit"@ != "cargo_clippy"@,
        "step_limit"@ != "run_command"@,
        "step_limit"@ != "read_file"@,
        "step_limit"@ != "apply_patch"@,
        "step_limit"@ != "plan"@,
        "livelock"@ != "build_gate"@,
        "livelock"@ != "solo_completion_gate"@,
        "livelock"@ != "diagnostics_evidence_gate"@,
        "livelock"@ != "handoff_delivery"@,
        "livelock"@ != "reaction_only"@,
        "livelock"@ != "executor_submit_timeout"@,
        "livelock"@ != "submit_ack_timeout"@,
        "livelock"@ != "repeated_failed_action"@,
        "livelock"@ != "idle_streak"@,
        "livelock"@ != "cargo_test"@,
        "livelock"@ != "cargo_clippy"@,
        "livelock"@ != "run_command"@,
        "livelock"@ != "read_file"@,
        "livelock"@ != "apply_patch"@,
        "livelock"@ != "plan"@,
        "build_gate"@ != "solo_completion_gate"@,
        "build_gate"@ != "diagnostics_evidence_gate"@,
        "build_gate"@ != "handoff_delivery"@,
        "build_gate"@ != "reaction_only"@,
        "build_gate"@ != "executor_submit_timeout"@,
        "build_gate"@ != "submit_ack_timeout"@,
        "build_gate"@ != "repeated_failed_action"@,
        "build_gate"@ != "idle_streak"@,
        "build_gate"@ != "cargo_test"@,
        "build_gate"@ != "cargo_clippy"@,
        "build_gate"@ != "run_command"@,
        "build_gate"@ != "read_file"@,
        "build_gate"@ != "apply_patch"@,
        "build_gate"@ != "plan"@,
        "solo_completion_gate"@ != "diagnostics_evidence_gate"@,
        "solo_completion_gate"@ != "handoff_delivery"@,
        "solo_completion_gate"@ != "reaction_only"@,
        "solo_completion_gate"@ != "executor_submit_timeout"@,
        "solo_completion_gate"@ != "submit_ack_timeout"@,
        "solo_completion_gate"@ != "repeated_failed_action"@,
        "solo_completion_gate"@ != "idle_streak"@,
        "solo_completion_gate"@ != "cargo_test"@,
        "solo_completion_gate"@ != "cargo_clippy"@,
        "solo_completion_gate"@ != "run_command"@,
        "solo_completion_gate"@ != "read_file"@,
        "solo_completion_gate"@ != "apply_patch"@,
        "solo_completion_gate"@ != "plan"@,
        "diagnostics_evidence_gate"@ != "handoff_delivery"@,
        "diagnostics_evidence_gate"@ != "reaction_only"@,
        "diagnostics_evidence_gate"@ != "executor_submit_timeout"@,
        "diagnostics_evidence_gate"@ != "submit_ack_timeout"@,
        "diagnostics_evidence_gate"@ != "repeated_failed_action"@,
        "diagnostics_evidence_gate"@ != "idle_streak"@,
        "diagnostics_evidence_gate"@ != "cargo_test"@,
        "diagnostics_evidence_gate"@ != "cargo_clippy"@,
        "diagnostics_evidence_gate"@ != "run_command"@,
        "diagnostics_evidence_gate"@ != "read_file"@,
        "diagnostics_evidence_gate"@ != "apply_patch"@,
        "diagnostics_evidence_gate"@ != "plan"@,
        "handoff_delivery"@ != "reaction_only"@,
        "handoff_delivery"@ != "executor_submit_timeout"@,
        "handoff_delivery"@ != "submit_ack_timeout"@,
        "handoff_delivery"@ != "repeated_failed_action"@,
        "handoff_delivery"@ != "idle_streak"@,
        "handoff_delivery"@ != "cargo_test"@,
        "handoff_delivery"@ != "cargo_clippy"@,
        "handoff_delivery"@ != "run_command"@,
        "handoff_delivery"@ != "read_file"@,
        "handoff_delivery"@ != "apply_patch"@,
        "handoff_delivery"@ != "plan"@,
        "reaction_only"@ != "executor_submit_timeout"@,
        "reaction_only"@ != "submit_ack_timeout"@,
        "reaction_only"@ != "repeated_failed_action"@,
        "reaction_only"@ != "idle_streak"@,
        "reaction_only"@ != "cargo_test"@,
        "reaction_only"@ != "cargo_clippy"@,
        "reaction_only"@ != "run_command"@,
        "reaction_only"@ != "read_file"@,
        "reaction_only"@ != "apply_patch"@,
        "reaction_only"@ != "plan"@,
        "executor_submit_timeout"@ != "submit_ack_timeout"@,
        "executor_submit_timeout"@ != "repeated_failed_action"@,
        "executor_submit_timeout"@ != "idle_streak"@,
        "executor_submit_timeout"@ != "cargo_test"@,
        "executor_submit_timeout"@ != "cargo_clippy"@,
        "executor_submit_timeout"@ != "run_command"@,
        "executor_submit_timeout"@ != "read_file"@,
        "executor_submit_timeout"@ != "apply_patch"@,
        "executor_submit_timeout"@ != "plan"@,
        "submit_ack_timeout"@ != "repeated_failed_action"@,
        "submit_ack_timeout"@ != "idle_streak"@,
        "submit_ack_timeout"@ != "cargo_test"@,
        "submit_ack_timeout"@ != "cargo_clippy"@,
        "submit_ack_timeout"@ != "run_command"@,
        "submit_ack_timeout"@ != "read_file"@,
        "submit_ack_timeout"@ != "apply_patch"@,
        "submit_ack_timeout"@ != "plan"@,
        "repeated_failed_action"@ != "idle_streak"@,
        "repeated_failed_action"@ != "cargo_test"@,
        "repeated_failed_action"@ != "cargo_clippy"@,
        "repeated_failed_action"@ != "run_command"@,
        "repeated_failed_action"@ != "read_file"@,
        "repeated_failed_action"@ != "apply_patch"@,
        "repeated_failed_action"@ != "plan"@,
        "idle_streak"@ != "cargo_test"@,
        "idle_streak"@ != "cargo_clippy"@,
        "idle_streak"@ != "run_command"@,
        "idle_streak"@ != "read_file"@,
        "idle_streak"@ != "apply_patch"@,
        "idle_streak"@ != "plan"@,
        "cargo_test"@ != "cargo_clippy"@,
        "cargo_test"@ != "run_command"@,
        "cargo_test"@ != "read_file"@,
        "cargo_test"@ != "apply_patch"@,
        "cargo_test"@ != "plan"@,
        "cargo_clippy"@ != "run_command"@,
        "cargo_clippy"@ != "read_file"@,
        "cargo_clippy"@ != "apply_patch"@,
        "cargo_clippy"@ != "plan"@,
        "run_command"@ != "read_file"@,
        "run_command"@ != "apply_patch"@,
        "run_command"@ != "plan"@,
        "read_file"@ != "apply_patch"@,
        "read_file"@ != "plan"@,
        "apply_patch"@ != "plan"@,
{
    reveal_strlit("canonical_state_bypass");
    reveal_strlit("runtime_control_bypass");
    reveal_strlit("uncanonicalized_recovery");
    reveal_strlit("checkpoint_runtime_divergence");
    reveal_strlit("effectful_state_advance");
    reveal_strlit("ambiguous_control_event");
    reveal_strlit("plan_preflight");
    reveal_strlit("route_dispatch");
    reveal_strlit("step_limit");
    reveal_strlit("livelock");
    reveal_strlit("build_gate");
    reveal_strlit("solo_completion_gate");
    reveal_strlit("diagnostics_evidence_gate");
    reveal_strlit("handoff_delivery");
    reveal_strlit("reaction_only");
    reveal_strlit("executor_submit_timeout");
    reveal_strlit("submit_ack_timeout");
    reveal_strlit("repeated_failed_action");
    reveal_strlit("idle_streak");
    reveal_strlit("cargo_test");
    reveal_strlit("cargo_clippy");
    reveal_strlit("run_command");
    reveal_strlit("read_file");
    reveal_strlit("apply_patch");
    reveal_strlit("plan");
    assert("canonical_state_bypass"@.len() == 22);
    assert("runtime_control_bypass"@.len() == 22);
    assert("uncanonicalized_recovery"@.len() == 24);
    assert("checkpoint_runtime_divergence"@.len() == 29);
    assert("effectful_state_advance"@.len() == 23);
    assert("ambiguous_control_event"@.len() == 23);
    assert("plan_preflight"@.len() == 14);
    assert("route_dispatch"@.len() == 14);
    assert("step_limit"@.len() == 10);
    assert("livelock"@.len() == 8);
    assert("build_gate"@.len() == 10);
    assert("solo_completion_gate"@.len() == 20);
    assert("diagnostics_evidence_gate"@.len() == 25);
    assert("handoff_delivery"@.len() == 16);
    assert("reaction_only"@.len() == 13);
    assert("executor_submit_timeout"@.len() == 23);
    assert("submit_ack_timeout"@.len() == 18);
    assert("repeated_failed_action"@.len() == 22);
    assert("idle_streak"@.len() == 11);
    assert("cargo_test"@.len() == 10);
    assert("cargo_clippy"@.len() == 12);
    assert("run_command"@.len() == 11);
    assert("read_file"@.len() == 9);
    assert("apply_patch"@.len() == 11);
    assert("plan"@.len() == 4);
    assert("canonical_state_bypass"@[0] != "runtime_control_bypass"@[0]);
    assert("canonical_state_bypass"@[0] != "repeated_failed_action"@[0]);
    assert("runtime_control_bypass"@[1] != "repeated_failed_action"@[1]);
    assert("effectful_state_advance"@[0] != "ambiguous_control_event"@[0]);
    assert("effectful_state_advance"@[1] != "executor_submit_timeout"@[1]);
    assert("ambiguous_control_event"@[0] != "executor_submit_timeout"@[0]);
    assert("plan_preflight"@[0] != "route_dispatch"@[0]);
    assert("step_limit"@[0] != "build_gate"@[0]);
    assert("step_limit"@[0] != "cargo_test"@[0]);
    assert("build_gate"@[0] != "cargo_test"@[0]);
    assert("idle_streak"@[0] != "run_command"@[0]);
    assert("idle_streak"@[0] != "apply_patch"@[0]);
    assert("run_command"@[0] != "apply_patch"@[0]);
}

/// A compiler's or a test run's complaint in the result of a command is a compile error.
pub proof fn law_a_failed_build_or_test_is_a_compile_error(kind: Seq<char>, t: Seq<char>)
    requires
        kind == "cargo_test"@ || kind == "cargo_clippy"@ || kind == "run_command"@,
        text::has_text(t, "error[e"@) || text::has_text(t, "compilation failed"@) || text::has_text(
            t,
            "test failed"@,
        ),
    ensures
        error_class::result_class(kind, t, false) == ErrorClass::CompileError,
{
    lemma_kinds_differ();
}

/// A file that was read or patched outside the boundary is a denied permission; one that
/// is not there is a missing target.
pub proof fn law_a_failed_file_access_is_denied_or_missing(kind: Seq<char>, t: Seq<char>)
    requires
        kind == "read_file"@ || kind == "apply_patch"@,
    ensures
        text::has_text(t, "outside"@) || text::has_text(t, "permission denied"@)
            ==> error_class::result_class(kind, t, false) == ErrorClass::PermissionDenied,
        (text::has_text(t, "not found"@) || text::has_text(t, "no such file"@)) && !text::has_text(
            t,
            "outside"@,
        ) && !text::has_text(t, "permission denied"@) ==> error_class::result_class(kind, t, false)
            == ErrorClass::MissingTarget,
{
    lemma_kinds_differ();
}

/// A plan operation that is said to be reserved is an unauthorized one.
pub proof fn law_a_reserved_plan_operation_is_unauthorized(t: Seq<char>)
    requires
        text::has_text(t, "not allowed"@) || text::has_text(t, "only"@) || text::has_text(
            t,
            "permitted"@,
        ),
    ensures
        error_class::result_class("plan"@, t, false) == ErrorClass::UnauthorizedPlanOp,
{
    lemma_kinds_differ();
}

/// The kinds that stand for one class give it to every failure, whatever its text says.
pub proof fn law_gates_decide_by_themselves(t: Seq<char>)
    ensures
        error_class::result_class("canonical_state_bypass"@, t, false) == ErrorClass::SecondMutationPath,
        error_class::result_class("runtime_control_bypass"@, t, false) == ErrorClass::RuntimeControlBypass,
        error_class::result_class("uncanonicalized_recovery"@, t, false) == ErrorClass::UncanonicalizedRecoveryPath,
        error_class::result_class("checkpoint_runtime_divergence"@, t, false) == ErrorClass::CheckpointRuntimeDivergence,
        error_class::result_class("effectful_state_advance"@, t, false) == ErrorClass::EffectfulStateAdvanceWithoutControlEvent,
        error_class::result_class("ambiguous_control_event"@, t, false) == ErrorClass::AmbiguousControlEvent,
        error_class::result_class("plan_preflight"@, t, false) == ErrorClass::PlanPreflightFailed,
        error_class::result_class("route_dispatch"@, t, false) == ErrorClass::InvalidRoute,
        error_class::result_class("step_limit"@, t, false) == ErrorClass::StepLimitExceeded,
        error_class::result_class("livelock"@, t, false) == ErrorClass::LivelockDetected,
        error_class::result_class("build_gate"@, t, false) == ErrorClass::CompileError,
        error_class::result_class("solo_completion_gate"@, t, false) == ErrorClass::VerificationFailed,
        error_class::result_class("diagnostics_evidence_gate"@, t, false) == ErrorClass::VerificationFailed,
        error_class::result_class("handoff_delivery"@, t, false) == ErrorClass::InvalidRoute,
        error_class::result_class("reaction_only"@, t, false) == ErrorClass::ReactionOnly,
        error_class::result_class("executor_submit_timeout"@, t, false) == ErrorClass::LlmTimeout,
        error_class::result_class("submit_ack_timeout"@, t, false) == ErrorClass::LlmTimeout,
        error_class::result_class("repeated_failed_action"@, t, false) == ErrorClass::InvalidSchema,
        error_class::result_class("idle_streak"@, t, false) == ErrorClass::InvalidSchema,
{
    lemma_kinds_differ();
}

/// A kind without a rule of its own leaves the class to the text, and so does one whose
/// rule finds none of its words.
pub proof fn law_the_text_decides_where_the_kind_does_not(a: Seq<char>, b: Seq<char>, t: Seq<char>)
    requires
        !has_rule(a),
    ensures
        !has_rule(b) ==> error_class::result_class(a, t, false) == error_class::result_class(
            b,
            t,
            false,
        ),
        (b == "cargo_test"@ || b == "cargo_clippy"@ || b == "run_command"@) && !text::has_text(
            t,
            "error[e"@,
        ) && !text::has_text(t, "compilation failed"@) && !text::has_text(t, "test failed"@)
            ==> error_class::result_class(a, t, false) == error_class::result_class(b, t, false),
        (b == "read_file"@ || b == "apply_patch"@) && !text::has_text(t, "outside"@)
            && !text::has_text(t, "permission denied"@) && !text::has_text(t, "not found"@)
            && !text::has_text(t, "no such file"@) ==> error_class::result_class(a, t, false)
            == error_class::result_class(b, t, false),
        b == "plan"@ && !text::has_text(t, "not allowed"@) && !text::has_text(t, "only"@)
            && !text::has_text(t, "permitted"@) ==> error_class::result_class(a, t, false)
            == error_class::result_class(b, t, false),
{
    lemma_kinds_differ();
}

/// Where the text decides, a failure has the class of its words, or one that goes before
/// it; it has no class of which it holds no word.
pub proof fn law_a_failure_has_the_class_of_its_words(kind: Seq<char>, t: Seq<char>)
    requires
        !has_rule(kind),
    ensures
        (text::has_text(t, "outside"@) && (text::has_text(t, "workspace"@) || text::has_text(t, "permitted"@))) ==> ({
            let c = error_class::result_class(kind, t, false);
            c == ErrorClass::PermissionDenied
        }),
        (text::has_text(t, "not allowed"@) || text::has_text(t, "not permitted"@)) ==> ({
            let c = error_class::result_class(kind, t, false);
            c == ErrorClass::PermissionDenied || c == ErrorClass::UnauthorizedPlanOp
        }),
        (text::has_text(t, "step limit"@) || text::has_text(t, "step budget"@) || text::has_text(t, "forced handoff"@)) ==> ({
            let c = error_class::result_class(kind, t, false);
            c == ErrorClass::PermissionDenied || c == ErrorClass::UnauthorizedPlanOp || c == ErrorClass::StepLimitExceeded
        }),
        (text::has_text(t, "schema"@) || text::has_text(t, "required field"@) || text::has_text(t, "invalid action"@)) ==> ({
            let c = error_class::result_class(kind, t, false);
            c == ErrorClass::PermissionDenied || c == ErrorClass::UnauthorizedPlanOp || c == ErrorClass::StepLimitExceeded || c == ErrorClass::InvalidSchema
        }),
        (text::has_text(t, "second mutation path"@) || text::has_text(t, "canonical state bypass"@) || text::has_text(t, "state_mut"@)) ==> ({
            let c = error_class::result_class(kind, t, false);
            c == ErrorClass::PermissionDenied || c == ErrorClass::UnauthorizedPlanOp || c == ErrorClass::StepLimitExceeded || c == ErrorClass::InvalidSchema || c == ErrorClass::SecondMutationPath
        }),
        (text::has_text(t, "runtime control bypass"@) || text::has_text(t, "runtime-only control influence"@) || text::has_text(t, "runtime-only state influenced control"@)) ==> ({
            let c = error_class::result_class(kind, t, false);
            c == ErrorClass::PermissionDenied || c == ErrorClass::UnauthorizedPlanOp || c == ErrorClass::StepLimitExceeded || c == ErrorClass::InvalidSchema || c == ErrorClass::SecondMutationPath || c == ErrorClass::RuntimeControlBypass
        }),
        (text::has_text(t, "uncanonicalized recovery"@) || text::has_text(t, "recovery path without canonical event"@) || text::has_text(t, "reconciliation path without canonical event"@)) ==> ({
            let c = error_class::result_class(kind, t, false);
            c == ErrorClass::PermissionDenied || c == ErrorClass::UnauthorizedPlanOp || c == ErrorClass::StepLimitExceeded || c == ErrorClass::InvalidSchema || c == ErrorClass::SecondMutationPath || c == ErrorClass::RuntimeControlBypass || c == ErrorClass::UncanonicalizedRecoveryPath
        }),
        (text::has_text(t, "checkpoint/runtime divergence"@) || text::has_text(t, "checkpoint runtime divergence"@) || text::has_text(t, "runtime diverged from checkpoint"@)) ==> ({
            let c = error_class::result_class(kind, t, false);
            c == ErrorClass::PermissionDenied || c == ErrorClass::UnauthorizedPlanOp || c == ErrorClass::StepLimitExceeded || c == ErrorClass::InvalidSchema || c == ErrorClass::SecondMutationPath || c == ErrorClass::RuntimeControlBypass || c == ErrorClass::UncanonicalizedRecoveryPath || c == ErrorClass::CheckpointRuntimeDivergence
        }),
        (text::has_text(t, "effectful state advance without control event"@) || text::has_text(t, "effect advanced state without controlevent"@) || text::has_text(t, "effect advanced state without control event"@)) ==> ({
            let c = error_class::result_class(kind, t, false);
            c == ErrorClass::PermissionDenied || c == ErrorClass::UnauthorizedPlanOp || c == ErrorClass::StepLimitExceeded || c == ErrorClass::InvalidSchema || c == ErrorClass::SecondMutationPath || c == ErrorClass::RuntimeControlBypass || c == ErrorClass::UncanonicalizedRecoveryPath || c == ErrorClass::CheckpointRuntimeDivergence || c == ErrorClass::EffectfulStateAdvanceWithoutControlEvent
        }),
        (text::has_text(t, "ambiguous control event"@) || text::has_text(t, "control event encoded multiple transitions"@)) ==> ({
            let c = error_class::result_class(kind, t, false);
            c == ErrorClass::PermissionDenied || c == ErrorClass::UnauthorizedPlanOp || c == ErrorClass::StepLimitExceeded || c == ErrorClass::InvalidSchema || c == ErrorClass::SecondMutationPath || c == ErrorClass::RuntimeControlBypass || c == ErrorClass::UncanonicalizedRecoveryPath || c == ErrorClass::CheckpointRuntimeDivergence || c == ErrorClass::EffectfulStateAdvanceWithoutControlEvent || c == ErrorClass::AmbiguousControlEvent
        }),
        (text::has_text(t, "not found"@) || text::has_text(t, "no such file"@) || text::has_text(t, "missing_target"@) || text::has_text(t, "does not exist"@)) ==> ({
            let c = error_class::result_class(kind, t, false);
            c == ErrorClass::PermissionDenied || c == ErrorClass::UnauthorizedPlanOp || c == ErrorClass::StepLimitExceeded || c == ErrorClass::InvalidSchema || c == ErrorClass::SecondMutationPath || c == ErrorClass::RuntimeControlBypass || c == ErrorClass::UncanonicalizedRecoveryPath || c == ErrorClass::CheckpointRuntimeDivergence || c == ErrorClass::EffectfulStateAdvanceWithoutControlEvent || c == ErrorClass::AmbiguousControlEvent || c == ErrorClass::MissingTarget
        }),
        (text::has_text(t, "timed out"@) || text::has_text(t, "connection refused"@) || text::has_text(t, "timeout"@)) ==> ({
            let c = error_class::result_class(kind, t, false);
            c == ErrorClass::PermissionDenied || c == ErrorClass::UnauthorizedPlanOp || c == ErrorClass::StepLimitExceeded || c == ErrorClass::InvalidSchema || c == ErrorClass::SecondMutationPath || c == ErrorClass::RuntimeControlBypass || c == ErrorClass::UncanonicalizedRecoveryPath || c == ErrorClass::CheckpointRuntimeDivergence || c == ErrorClass::EffectfulStateAdvanceWithoutControlEvent || c == ErrorClass::AmbiguousControlEvent || c == ErrorClass::MissingTarget || c == ErrorClass::LlmTimeout
        }),
        (text::has_text(t, "permission denied"@) || text::has_text(t, "access denied"@)) ==> ({
            let c = error_class::result_class(kind, t, false);
            c == ErrorClass::PermissionDenied || c == ErrorClass::UnauthorizedPlanOp || c == ErrorClass::StepLimitExceeded || c == ErrorClass::InvalidSchema || c == ErrorClass::SecondMutationPath || c == ErrorClass::RuntimeControlBypass || c == ErrorClass::UncanonicalizedRecoveryPath || c == ErrorClass::CheckpointRuntimeDivergence || c == ErrorClass::EffectfulStateAdvanceWithoutControlEvent || c == ErrorClass::AmbiguousControlEvent || c == ErrorClass::MissingTarget || c == ErrorClass::LlmTimeout
        }),
        error_class::result_class(kind, t, false) == ErrorClass::PermissionDenied ==> (text::has_text(t, "outside"@) && (text::has_text(t, "workspace"@) || text::has_text(t, "permitted"@))) || (text::has_text(t, "permission denied"@) || text::has_text(t, "access denied"@)),
        error_class::result_class(kind, t, false) == ErrorClass::UnauthorizedPlanOp ==> (text::has_text(t, "not allowed"@) || text::has_text(t, "not permitted"@)),
        error_class::result_class(kind, t, false) == ErrorClass::StepLimitExceeded ==> (text::has_text(t, "step limit"@) || text::has_text(t, "step budget"@) || text::has_text(t, "forced handoff"@)),
        error_class::result_class(kind, t, false) == ErrorClass::InvalidSchema ==> (text::has_text(t, "schema"@) || text::has_text(t, "required field"@) || text::has_text(t, "invalid action"@)),
        error_class::result_class(kind, t, false) == ErrorClass::SecondMutationPath ==> (text::has_text(t, "second mutation path"@) || text::has_text(t, "canonical state bypass"@) || text::has_text(t, "state_mut"@)),
        error_class::result_class(kind, t, false) == ErrorClass::RuntimeControlBypass ==> (text::has_text(t, "runtime control bypass"@) || text::has_text(t, "runtime-only control influence"@) || text::has_text(t, "runtime-only state influenced control"@)),
        error_class::result_class(kind, t, false) == ErrorClass::UncanonicalizedRecoveryPath ==> (text::has_text(t, "uncanonicalized recovery"@) || text::has_text(t, "recovery path without canonical event"@) || text::has_text(t, "reconciliation path without canonical event"@)),
        error_class::result_class(kind, t, false) == ErrorClass::CheckpointRuntimeDivergence ==> (text::has_text(t, "checkpoint/runtime divergence"@) || text::has_text(t, "checkpoint runtime divergence"@) || text::has_text(t, "runtime diverged from checkpoint"@)),
        error_class::result_class(kind, t, false) == ErrorClass::EffectfulStateAdvanceWithoutControlEvent ==> (text::has_text(t, "effectful state advance without control event"@) || text::has_text(t, "effect advanced state without controlevent"@) || text::has_text(t, "effect advanced state without control event"@)),
        error_class::result_class(kind, t, false) == ErrorClass::AmbiguousControlEvent ==> (text::has_text(t, "ambiguous control event"@) || text::has_text(t, "control event encoded multiple transitions"@)),
        error_class::result_class(kind, t, false) == ErrorClass::MissingTarget ==> (text::has_text(t, "not found"@) || text::has_text(t, "no such file"@) || text::has_text(t, "missing_target"@) || text::has_text(t, "does not exist"@)),
        error_class::result_class(kind, t, false) == ErrorClass::LlmTimeout ==> (text::has_text(t, "timed out"@) || text::has_text(t, "connection refused"@) || text::has_text(t, "timeout"@)),
        error_class::result_class(kind, t, false) == ErrorClass::Unknown || error_class::result_class(kind, t, false) == ErrorClass::PermissionDenied || error_class::result_class(kind, t, false) == ErrorClass::UnauthorizedPlanOp || error_class::result_class(kind, t, false) == ErrorClass::StepLimitExceeded || error_class::result_class(kind, t, false) == ErrorClass::InvalidSchema || error_class::result_class(kind, t, false) == ErrorClass::SecondMutationPath || error_class::result_class(kind, t, false) == ErrorClass::RuntimeControlBypass || error_class::result_class(kind, t, false) == ErrorClass::UncanonicalizedRecoveryPath || error_class::result_class(kind, t, false) == ErrorClass::CheckpointRuntimeDivergence || error_class::result_class(kind, t, false) == ErrorClass::EffectfulStateAdvanceWithoutControlEvent || error_class::result_class(kind, t, false) == ErrorClass::AmbiguousControlEvent || error_class::result_class(kind, t, false) == ErrorClass::MissingTarget || error_class::result_class(kind, t, false) == ErrorClass::LlmTimeout,
{
}

/// A blocker has the class of the words of its summary, or one that goes before it; it
/// has no class of which it holds no word, and is escalated where no word is known.
pub proof fn law_a_blocker_has_the_class_of_its_words(t: Seq<char>)
    ensures
        (text::has_text(t, "tool unavailable"@) || text::has_text(t, "tools unavailable"@) || text::has_text(t, "workspace tools unavailable"@) || text::has_text(t, "toolchain unavailable"@) || text::has_text(t, "unavailable in this chat environment"@) || text::has_text(t, "cannot proceed without the required canon toolchain"@)) ==> ({
            let c = error_class::blocker_text_class(t);
            c == ErrorClass::PermissionDenied
        }),
        (text::has_text(t, "step limit"@) || text::has_text(t, "budget"@) || text::has_text(t, "too many steps"@)) ==> ({
            let c = error_class::blocker_text_class(t);
            c == ErrorClass::PermissionDenied || c == ErrorClass::StepLimitExceeded
        }),
        (text::has_text(t, "compile"@) || text::has_text(t, "build fail"@) || text::has_text(t, "test fail"@) || text::has_text(t, "cargo"@)) ==> ({
            let c = error_class::blocker_text_class(t);
            c == ErrorClass::PermissionDenied || c == ErrorClass::StepLimitExceeded || c == ErrorClass::CompileError
        }),
        (text::has_text(t, "not found"@) || text::has_text(t, "does not exist"@) || text::has_text(t, "missing"@)) ==> ({
            let c = error_class::blocker_text_class(t);
            c == ErrorClass::PermissionDenied || c == ErrorClass::StepLimitExceeded || c == ErrorClass::CompileError || c == ErrorClass::MissingTarget
        }),
        (text::has_text(t, "schema"@) || text::has_text(t, "required field"@) || text::has_text(t, "invalid action"@)) ==> ({
            let c = error_class::blocker_text_class(t);
            c == ErrorClass::PermissionDenied || c == ErrorClass::StepLimitExceeded || c == ErrorClass::CompileError || c == ErrorClass::MissingTarget || c == ErrorClass::InvalidSchema
        }),
        (text::has_text(t, "second mutation path"@) || text::has_text(t, "canonical state bypass"@) || text::has_text(t, "state_mut"@)) ==> ({
            let c = error_class::blocker_text_class(t);
            c == ErrorClass::PermissionDenied || c == ErrorClass::StepLimitExceeded || c == ErrorClass::CompileError || c == ErrorClass::MissingTarget || c == ErrorClass::InvalidSchema || c == ErrorClass::SecondMutationPath
        }),
        (text::has_text(t, "runtime control bypass"@) || text::has_text(t, "runtime-only control influence"@) || text::has_text(t, "runtime-only state influenced control"@)) ==> ({
            let c = error_class::blocker_text_class(t);
            c == ErrorClass::PermissionDenied || c == ErrorClass::StepLimitExceeded || c == ErrorClass::CompileError || c == ErrorClass::MissingTarget || c == ErrorClass::InvalidSchema || c == ErrorClass::SecondMutationPath || c == ErrorClass::RuntimeControlBypass
        }),
        (text::has_text(t, "uncanonicalized recovery"@) || text::has_text(t, "recovery path without canonical event"@) || text::has_text(t, "reconciliation path without canonical event"@)) ==> ({
            let c = error_class::blocker_text_class(t);
            c == ErrorClass::PermissionDenied || c == ErrorClass::StepLimitExceeded || c == ErrorClass::CompileError || c == ErrorClass::MissingTarget || c == ErrorClass::InvalidSchema || c == ErrorClass::SecondMutationPath || c == ErrorClass::RuntimeControlBypass || c == ErrorClass::UncanonicalizedRecoveryPath
        }),
        (text::has_text(t, "checkpoint/runtime divergence"@) || text::has_text(t, "checkpoint runtime divergence"@) || text::has_text(t, "runtime diverged from checkpoint"@)) ==> ({
            let c = error_class::blocker_text_class(t);
            c == ErrorClass::PermissionDenied || c == ErrorClass::StepLimitExceeded || c == ErrorClass::CompileError || c == ErrorClass::MissingTarget || c == ErrorClass::InvalidSchema || c == ErrorClass::SecondMutationPath || c == ErrorClass::RuntimeControlBypass || c == ErrorClass::UncanonicalizedRecoveryPath || c == ErrorClass::CheckpointRuntimeDivergence
        }),
        (text::has_text(t, "effectful state advance without control event"@) || text::has_text(t, "effect advanced state without controlevent"@) || text::has_text(t, "effect advanced state without control event"@)) ==> ({
            let c = error_class::blocker_text_class(t);
            c == ErrorClass::PermissionDenied || c == ErrorClass::StepLimitExceeded || c == ErrorClass::CompileError || c == ErrorClass::MissingTarget || c == ErrorClass::InvalidSchema || c == ErrorClass::SecondMutationPath || c == ErrorClass::RuntimeControlBypass || c == ErrorClass::UncanonicalizedRecoveryPath || c == ErrorClass::CheckpointRuntimeDivergence || c == ErrorClass::EffectfulStateAdvanceWithoutControlEvent
        }),
        (text::has_text(t, "ambiguous control event"@) || text::has_text(t, "control event encoded multiple transitions"@)) ==> ({
            let c = error_class::blocker_text_class(t);
            c == ErrorClass::PermissionDenied || c == ErrorClass::StepLimitExceeded || c == ErrorClass::CompileError || c == ErrorClass::MissingTarget || c == ErrorClass::InvalidSchema || c == ErrorClass::SecondMutationPath || c == ErrorClass::RuntimeControlBypass || c == ErrorClass::UncanonicalizedRecoveryPath || c == ErrorClass::CheckpointRuntimeDivergence || c == ErrorClass::EffectfulStateAdvanceWithoutControlEvent || c == ErrorClass::AmbiguousControlEvent
        }),
        (text::has_text(t, "outside workspace"@) || text::has_text(t, "permission"@)) ==> ({
            let c = error_class::blocker_text_class(t);
            c == ErrorClass::PermissionDenied || c == ErrorClass::StepLimitExceeded || c == ErrorClass::CompileError || c == ErrorClass::MissingTarget || c == ErrorClass::InvalidSchema || c == ErrorClass::SecondMutationPath || c == ErrorClass::RuntimeControlBypass || c == ErrorClass::UncanonicalizedRecoveryPath || c == ErrorClass::CheckpointRuntimeDivergence || c == ErrorClass::EffectfulStateAdvanceWithoutControlEvent || c == ErrorClass::AmbiguousControlEvent
        }),
        (text::has_text(t, "verify"@) || text::has_text(t, "verification"@) || text::has_text(t, "test"@)) ==> ({
            let c = error_class::blocker_text_class(t);
            c == ErrorClass::PermissionDenied || c == ErrorClass::StepLimitExceeded || c == ErrorClass::CompileError || c == ErrorClass::MissingTarget || c == ErrorClass::InvalidSchema || c == ErrorClass::SecondMutationPath || c == ErrorClass::RuntimeControlBypass || c == ErrorClass::UncanonicalizedRecoveryPath || c == ErrorClass::CheckpointRuntimeDivergence || c == ErrorClass::EffectfulStateAdvanceWithoutControlEvent || c == ErrorClass::AmbiguousControlEvent || c == ErrorClass::VerificationFailed
        }),
        (text::has_text(t, "symbol"@) || text::has_text(t, "preflight"@)) ==> ({
            let c = error_class::blocker_text_class(t);
            c == ErrorClass::PermissionDenied || c == ErrorClass::StepLimitExceeded || c == ErrorClass::CompileError || c == ErrorClass::MissingTarget || c == ErrorClass::InvalidSchema || c == ErrorClass::SecondMutationPath || c == ErrorClass::RuntimeControlBypass || c == ErrorClass::UncanonicalizedRecoveryPath || c == ErrorClass::CheckpointRuntimeDivergence || c == ErrorClass::EffectfulStateAdvanceWithoutControlEvent || c == ErrorClass::AmbiguousControlEvent || c == ErrorClass::VerificationFailed || c == ErrorClass::PlanPreflightFailed
        }),
        error_class::blocker_text_class(t) == ErrorClass::PermissionDenied ==> (text::has_text(t, "tool unavailable"@) || text::has_text(t, "tools unavailable"@) || text::has_text(t, "workspace tools unavailable"@) || text::has_text(t, "toolchain unavailable"@) || text::has_text(t, "unavailable in this chat environment"@) || text::has_text(t, "cannot proceed without the required canon toolchain"@)) || (text::has_text(t, "outside workspace"@) || text::has_text(t, "permission"@)),
        error_class::blocker_text_class(t) == ErrorClass::StepLimitExceeded ==> (text::has_text(t, "step limit"@) || text::has_text(t, "budget"@) || text::has_text(t, "too many steps"@)),
        error_class::blocker_text_class(t) == ErrorClass::CompileError ==> (text::has_text(t, "compile"@) || text::has_text(t, "build fail"@) || text::has_text(t, "test fail"@) || text::has_text(t, "cargo"@)),
        error_class::blocker_text_class(t) == ErrorClass::MissingTarget ==> (text::has_text(t, "not found"@) || text::has_text(t, "does not exist"@) || text::has_text(t, "missing"@)),
        error_class::blocker_text_class(t) == ErrorClass::InvalidSchema ==> (text::has_text(t, "schema"@) || text::has_text(t, "required field"@) || text::has_text(t, "invalid action"@)),
        error_class::blocker_text_class(t) == ErrorClass::SecondMutationPath ==> (text::has_text(t, "second mutation path"@) || text::has_text(t, "canonical state bypass"@) || text::has_text(t, "state_mut"@)),
        error_class::blocker_text_class(t) == ErrorClass::RuntimeControlBypass ==> (text::has_text(t, "runtime control bypass"@) || text::has_text(t, "runtime-only control influence"@) || text::has_text(t, "runtime-only state influenced control"@)),
        error_class::blocker_text_class(t) == ErrorClass::UncanonicalizedRecoveryPath ==> (text::has_text(t, "uncanonicalized recovery"@) || text::has_text(t, "recovery path without canonical event"@) || text::has_text(t, "reconciliation path without canonical event"@)),
        error_class::blocker_text_class(t) == ErrorClass::CheckpointRuntimeDivergence ==> (text::has_text(t, "checkpoint/runtime divergence"@) || text::has_text(t, "checkpoint runtime divergence"@) || text::has_text(t, "runtime diverged from checkpoint"@)),
        error_class::blocker_text_class(t) == ErrorClass::EffectfulStateAdvanceWithoutControlEvent ==> (text::has_text(t, "effectful state advance without control event"@) || text::has_text(t, "effect advanced state without controlevent"@) || text::has_text(t, "effect advanced state without control event"@)),
        error_class::blocker_text_class(t) == ErrorClass::AmbiguousControlEvent ==> (text::has_text(t, "ambiguous control event"@) || text::has_text(t, "control event encoded multiple transitions"@)),
        error_class::blocker_text_class(t) == ErrorClass::VerificationFailed ==> (text::has_text(t, "verify"@) || text::has_text(t, "verification"@) || text::has_text(t, "test"@)),
        error_class::blocker_text_class(t) == ErrorClass::PlanPreflightFailed ==> (text::has_text(t, "symbol"@) || text::has_text(t, "preflight"@)),
        error_class::blocker_text_class(t) == ErrorClass::BlockerEscalated || error_class::blocker_text_class(t) == ErrorClass::PermissionDenied || error_class::blocker_text_class(t) == ErrorClass::StepLimitExceeded || error_class::blocker_text_class(t) == ErrorClass::CompileError || error_class::blocker_text_class(t) == ErrorClass::MissingTarget || error_class::blocker_text_class(t) == ErrorClass::InvalidSchema || error_class::blocker_text_class(t) == ErrorClass::SecondMutationPath || error_class::blocker_text_class(t) == ErrorClass::RuntimeControlBypass || error_class::blocker_text_class(t) == ErrorClass::UncanonicalizedRecoveryPath || error_class::blocker_text_class(t) == ErrorClass::CheckpointRuntimeDivergence || error_class::blocker_text_class(t) == ErrorClass::EffectfulStateAdvanceWithoutControlEvent || error_class::blocker_text_class(t) == ErrorClass::AmbiguousControlEvent || error_class::blocker_text_class(t) == ErrorClass::VerificationFailed || error_class::blocker_text_class(t) == ErrorClass::PlanPreflightFailed,
{
}

/// The key of each class.
pub proof fn law_keys_name_their_classes()
    ensures
        error_class::class_key(ErrorClass::SecondMutationPath) == "second_mutation_path"@,
        error_class::class_key(ErrorClass::RuntimeControlBypass) == "runtime_control_bypass"@,
        error_class::class_key(ErrorClass::UncanonicalizedRecoveryPath) == "uncanonicalized_recovery_path"@,
        error_class::class_key(ErrorClass::CheckpointRuntimeDivergence) == "checkpoint_runtime_divergence"@,
        error_class::class_key(ErrorClass::EffectfulStateAdvanceWithoutControlEvent) == "effectful_state_advance_without_control_event"@,
        error_class::class_key(ErrorClass::AmbiguousControlEvent) == "ambiguous_control_event"@,
        error_class::class_key(ErrorClass::MissingTarget) == "missing_target"@,
        error_class::class_key(ErrorClass::InvalidSchema) == "invalid_schema"@,
        error_class::class_key(ErrorClass::StepLimitExceeded) == "step_limit_exceeded"@,
        error_class::class_key(ErrorClass::PlanPreflightFailed) == "plan_preflight_failed"@,
        error_class::class_key(ErrorClass::CompileError) == "compile_error"@,
        error_class::class_key(ErrorClass::PermissionDenied) == "permission_denied"@,
        error_class::class_key(ErrorClass::ReadFileStall) == "read_file_stall"@,
        error_class::class_key(ErrorClass::InvalidRoute) == "invalid_route"@,
        error_class::class_key(ErrorClass::BlockerEscalated) == "blocker_escalated"@,
        error_class::class_key(ErrorClass::UnauthorizedPlanOp) == "unauthorized_plan_op"@,
        error_class::class_key(ErrorClass::VerificationFailed) == "verification_failed"@,
        error_class::class_key(ErrorClass::LlmTimeout) == "llm_timeout"@,
        error_class::class_key(ErrorClass::LivelockDetected) == "livelock_detected"@,
        error_class::class_key(ErrorClass::ReactionOnly) == "reaction_only"@,
        error_class::class_key(ErrorClass::Unknown) == "unknown"@,
{
}

} // verus!
