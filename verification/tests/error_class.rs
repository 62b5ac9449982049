use canon_mini_agent::error_class::{classify_blocker_summary, classify_result, ErrorClass};

#[test]
fn classify_permission_denied_outside_workspace() {
    let class = classify_result(
        "apply_patch",
        "path is outside the permitted workspace",
        false,
    );
    assert_eq!(class, ErrorClass::PermissionDenied);
}

#[test]
fn classify_second_mutation_path_explicitly() {
    let class = classify_result(
        "canonical_state_bypass",
        "second mutation path detected via state_mut",
        false,
    );
    assert_eq!(class, ErrorClass::SecondMutationPath);
}

#[test]
fn classify_runtime_control_bypass_explicitly() {
    let class = classify_result(
        "runtime_control_bypass",
        "runtime-only control influence detected in route selection",
        false,
    );
    assert_eq!(class, ErrorClass::RuntimeControlBypass);
}

#[test]
fn classify_uncanonicalized_recovery_path_explicitly() {
    let class = classify_result(
        "uncanonicalized_recovery",
        "recovery path without canonical event detected",
        false,
    );
    assert_eq!(class, ErrorClass::UncanonicalizedRecoveryPath);
}

#[test]
fn classify_blocker_ambiguous_control_event() {
    let class = classify_blocker_summary(
        "blocked by ambiguous control event because one control event encoded multiple transitions",
    );
    assert_eq!(class, ErrorClass::AmbiguousControlEvent);
}

#[test]
fn classify_missing_target_no_such_file() {
    let class = classify_result("read_file", "No such file or directory: src/foo.rs", false);
    assert_eq!(class, ErrorClass::MissingTarget);
}

#[test]
fn classify_plan_preflight_action() {
    let class = classify_result("plan_preflight", "missing symbol", false);
    assert_eq!(class, ErrorClass::PlanPreflightFailed);
}

#[test]
fn classify_ok_result_is_unknown() {
    let class = classify_result("read_file", "file contents", true);
    assert_eq!(class, ErrorClass::Unknown);
}

#[test]
fn classify_blocker_compile() {
    let class =
        classify_blocker_summary("blocked because cargo build failed with error[E0308]");
    assert_eq!(class, ErrorClass::CompileError);
}

#[test]
fn classify_blocker_step_limit() {
    let class = classify_blocker_summary("reached step budget, cannot complete");
    assert_eq!(class, ErrorClass::StepLimitExceeded);
}

#[test]
fn error_class_key_is_stable() {
    assert_eq!(ErrorClass::MissingTarget.as_key(), "missing_target");
    assert_eq!(ErrorClass::BlockerEscalated.as_key(), "blocker_escalated");
    assert_eq!(
        ErrorClass::RuntimeControlBypass.as_key(),
        "runtime_control_bypass"
    );
}
