//! What the signals of a log window promise, told by what one more record changes.

use crate::events;
use crate::events::{ControlEvent, EffectEvent, Event, ScoreChange, TlogRecord};
use crate::tally;
use crate::text;
use crate::tlog_delta;
use crate::tlog_delta::TlogDeltaSignals;
use vstd::prelude::*;

verus! {

// ---------------------------------------------------------------------------
// Improvements
// ---------------------------------------------------------------------------

/// The action that a record reports the result of after a restart, without the space
/// around it, and the result in small letters.
pub open spec fn reported(r: TlogRecord) -> Option<(Seq<char>, Seq<char>)> {
    match r.event {
        Event::Effect { event: EffectEvent::PostRestartResultRecorded { action, result, .. } } => {
            Some((text::trimmed(action@), text::lower_ascii(result@)))
        },
        _ => None,
    }
}

/// The record reports a patch that was applied.
pub open spec fn applied_patch(r: TlogRecord) -> bool {
    match reported(r) {
        Some((action, t)) => action == "apply_patch"@ && (text::has_text(t, "apply_patch ok"@)
            || text::has_text(t, "patch applied successfully"@)),
        None => false,
    }
}

/// The text of the record reports that a command succeeded.
pub open spec fn says_it_went_well(r: TlogRecord) -> bool {
    match reported(r) {
        Some((_, t)) => text::has_text(t, "run_command ok"@) || text::has_text(t, "status: ok"@)
            || text::has_text(t, "cargo check ok"@) || text::has_text(t, "cargo build ok"@)
            || text::has_text(t, "cargo test ok"@) || text::has_text(t, "test result: ok"@),
        None => false,
    }
}

/// The record is about a build, a check or a test that an action ran.
pub open spec fn ran_cargo(r: TlogRecord) -> bool {
    match reported(r) {
        Some((action, t)) => (action == "apply_patch"@ || action == "run_command"@ || action
            == "cargo_test"@ || action == "batch"@) && (text::has_text(t, "cargo check"@)
            || text::has_text(t, "cargo test"@) || text::has_text(t, "cargo build"@)),
        None => false,
    }
}

/// The record measures the attempts: an evaluation was recorded.
pub open spec fn measurement(r: TlogRecord) -> Option<(Option<ScoreChange>, bool)> {
    match r.event {
        Event::Effect { event: EffectEvent::EvalScoreRecorded { delta, promotion_eligible } } => {
            Some((delta, promotion_eligible))
        },
        _ => None,
    }
}

/// A result validates patches only where its text reports success of a build, a check or
/// a test.
pub proof fn law_only_success_validates(
    rs: Seq<TlogRecord>,
    r: TlogRecord,
    before: TlogDeltaSignals,
    after: TlogDeltaSignals,
)
    requires
        before.of(rs),
        after.of(rs.push(r)),
        !says_it_went_well(r) || !ran_cargo(r),
    ensures
        after.validated_improvement_attempts == before.validated_improvement_attempts,
        after.unvalidated_improvement_attempts >= before.unvalidated_improvement_attempts,
{
    assert(rs.push(r).drop_last() =~= rs);
}

/// A record that neither applies a patch nor reports a success nor measures is as good as
/// absent for the attempts, wherever it stands in the window.
pub proof fn law_a_failed_run_changes_no_attempt(
    front: Seq<TlogRecord>,
    r: TlogRecord,
    rest: Seq<TlogRecord>,
    with: TlogDeltaSignals,
    without: TlogDeltaSignals,
)
    requires
        with.of(front.push(r) + rest),
        without.of(front + rest),
        !applied_patch(r),
        !says_it_went_well(r),
        measurement(r) is None,
    ensures
        with.improvement_attempts == without.improvement_attempts,
        with.validated_improvement_attempts == without.validated_improvement_attempts,
        with.unvalidated_improvement_attempts == without.unvalidated_improvement_attempts,
        with.measured_improvement_attempts == without.measured_improvement_attempts,
        with.unmeasured_improvement_attempts == without.unmeasured_improvement_attempts,
        with.regressed_improvement_attempts == without.regressed_improvement_attempts,
        with.non_regressed_improvement_attempts == without.non_regressed_improvement_attempts,
{
    lemma_passed_over(front, r, rest);
}

proof fn lemma_passed_over(front: Seq<TlogRecord>, r: TlogRecord, rest: Seq<TlogRecord>)
    requires
        !applied_patch(r),
        !says_it_went_well(r),
        measurement(r) is None,
    ensures
        tlog_delta::improvements(front.push(r) + rest) == tlog_delta::improvements(front + rest),
    decreases rest.len(),
{
    if rest.len() == 0 {
        assert(front.push(r) + rest =~= front.push(r));
        assert(front + rest =~= front);
        assert(front.push(r).drop_last() =~= front);
    } else {
        lemma_passed_over(front, r, rest.drop_last());
        assert((front.push(r) + rest).drop_last() =~= front.push(r) + rest.drop_last());
        assert((front + rest).drop_last() =~= front + rest.drop_last());
    }
}

/// An attempt is a patch that was applied, and nothing else is.
pub proof fn law_an_attempt_is_an_applied_patch(
    rs: Seq<TlogRecord>,
    r: TlogRecord,
    before: TlogDeltaSignals,
    after: TlogDeltaSignals,
)
    requires
        before.of(rs),
        after.of(rs.push(r)),
    ensures
        applied_patch(r) ==> after.improvement_attempts == before.improvement_attempts + 1,
        !applied_patch(r) ==> after.improvement_attempts == before.improvement_attempts,
        applied_patch(r) ==> after.unmeasured_improvement_attempts
            == before.unmeasured_improvement_attempts + 1,
        applied_patch(r) && !(says_it_went_well(r) && ran_cargo(r))
            ==> after.unvalidated_improvement_attempts == before.unvalidated_improvement_attempts
            + 1,
        applied_patch(r) && says_it_went_well(r) && ran_cargo(r)
            ==> after.validated_improvement_attempts == before.validated_improvement_attempts + 1
            && after.unvalidated_improvement_attempts == before.unvalidated_improvement_attempts,
{
    assert(rs.push(r).drop_last() =~= rs);
}

/// A build, check or test that succeeded validates every attempt before it.
pub proof fn law_a_good_run_validates_what_was_open(
    rs: Seq<TlogRecord>,
    r: TlogRecord,
    before: TlogDeltaSignals,
    after: TlogDeltaSignals,
)
    requires
        before.of(rs),
        after.of(rs.push(r)),
        ran_cargo(r),
        says_it_went_well(r),
        !applied_patch(r),
    ensures
        after.unvalidated_improvement_attempts == 0,
        after.validated_improvement_attempts == after.improvement_attempts,
{
    assert(rs.push(r).drop_last() =~= rs);
    tlog_delta::law_improvement_attempts_add_up(rs);
}

/// An evaluation measures every open attempt. They regressed where the score fell beyond
/// the tolerance or the build may not be promoted, held against an evaluation before it;
/// else they did not.
pub proof fn law_an_evaluation_measures_what_was_open(
    rs: Seq<TlogRecord>,
    r: TlogRecord,
    before: TlogDeltaSignals,
    after: TlogDeltaSignals,
)
    requires
        before.of(rs),
        after.of(rs.push(r)),
        measurement(r) is Some,
    ensures
        after.unmeasured_improvement_attempts == 0,
        after.measured_improvement_attempts == after.improvement_attempts,
        after.improvement_attempts == before.improvement_attempts,
        after.eval_measurement_points == before.eval_measurement_points + 1,
        match measurement(r) {
            Some((delta, eligible)) => {
                &&& delta is None ==> after.measurement_regressions
                    == before.measurement_regressions && after.regressed_improvement_attempts
                    == before.regressed_improvement_attempts
                &&& delta is Some && (delta == Some(ScoreChange::Regressed) || !eligible)
                    ==> after.measurement_regressions == before.measurement_regressions + 1
                    && after.regressed_improvement_attempts
                    == before.regressed_improvement_attempts
                    + before.unmeasured_improvement_attempts
                    && after.non_regressed_improvement_attempts
                    == before.non_regressed_improvement_attempts
                &&& eligible && delta != Some(ScoreChange::Regressed)
                    ==> after.measurement_regressions == before.measurement_regressions
                    && after.regressed_improvement_attempts
                    == before.regressed_improvement_attempts
                    && after.non_regressed_improvement_attempts
                    == before.non_regressed_improvement_attempts
                    + before.unmeasured_improvement_attempts
            },
            None => true,
        },
{
    assert(rs.push(r).drop_last() =~= rs);
    tlog_delta::law_improvement_attempts_add_up(rs);
}

/// Only an evaluation measures.
pub proof fn law_nothing_else_measures(
    rs: Seq<TlogRecord>,
    r: TlogRecord,
    before: TlogDeltaSignals,
    after: TlogDeltaSignals,
)
    requires
        before.of(rs),
        after.of(rs.push(r)),
        measurement(r) is None,
    ensures
        after.measured_improvement_attempts == before.measured_improvement_attempts,
        after.regressed_improvement_attempts == before.regressed_improvement_attempts,
        after.non_regressed_improvement_attempts == before.non_regressed_improvement_attempts,
        after.eval_measurement_points == before.eval_measurement_points,
        after.measurement_regressions == before.measurement_regressions,
{
    assert(rs.push(r).drop_last() =~= rs);
}

/// Every attempt is validated or not, measured or not, and where measured, regressed or
/// not.
pub proof fn law_attempts_are_split(rs: Seq<TlogRecord>, s: TlogDeltaSignals)
    requires
        s.of(rs),
    ensures
        s.improvement_attempts == s.validated_improvement_attempts
            + s.unvalidated_improvement_attempts,
        s.improvement_attempts == s.measured_improvement_attempts
            + s.unmeasured_improvement_attempts,
        s.measured_improvement_attempts == s.regressed_improvement_attempts
            + s.non_regressed_improvement_attempts,
{
    tlog_delta::law_improvement_attempts_add_up(rs);
}

// ---------------------------------------------------------------------------
// Counts
// ---------------------------------------------------------------------------

/// One where it holds, else nothing.
pub open spec fn one_if(b: bool) -> int {
    if b {
        1
    } else {
        0
    }
}

/// One more record raises the counts of its kind by one, and no other.
pub proof fn law_a_record_counts_under_its_kind(
    rs: Seq<TlogRecord>,
    r: TlogRecord,
    before: TlogDeltaSignals,
    after: TlogDeltaSignals,
)
    requires
        before.of(rs),
        after.of(rs.push(r)),
    ensures
        after.event_count == before.event_count + 1,
        after.llm_turn_inputs - before.llm_turn_inputs == one_if(
            r.event matches Event::Effect { event: EffectEvent::LlmTurnInput { .. } },
        ),
        after.llm_turn_outputs - before.llm_turn_outputs == one_if(
            r.event matches Event::Effect { event: EffectEvent::LlmTurnOutput { .. } },
        ),
        after.llm_action_outputs - before.llm_action_outputs == one_if(
            r.event matches Event::Effect {
                event: EffectEvent::LlmTurnOutput { action_kind: Some(_), .. },
            },
        ),
        after.action_results - before.action_results == one_if(
            r.event matches Event::Effect { event: EffectEvent::ActionResultRecorded { .. } },
        ),
        after.llm_error_boundaries - before.llm_error_boundaries == one_if(
            r.event matches Event::Effect { event: EffectEvent::LlmErrorBoundary { .. } },
        ),
        after.artifact_write_requests - before.artifact_write_requests == one_if(
            r.event matches Event::Effect {
                event: EffectEvent::WorkspaceArtifactWriteRequested { .. },
            },
        ),
        after.artifact_write_applies - before.artifact_write_applies == one_if(
            r.event matches Event::Effect {
                event: EffectEvent::WorkspaceArtifactWriteApplied { .. },
            },
        ),
        after.git_checkpoint_blocked - before.git_checkpoint_blocked == one_if(
            r.event matches Event::Effect { event: EffectEvent::GitCheckpointBlocked { .. } },
        ),
        after.unsafe_checkpoint_attempts - before.unsafe_checkpoint_attempts == one_if(
            r.event matches Event::Effect {
                event: EffectEvent::GitCheckpointBlocked {
                    verification_requested: false,
                    rust_sensitive_changes: true,
                    ..
                },
            },
        ),
        after.prompt_truncations - before.prompt_truncations == one_if(
            r.event matches Event::Effect { event: EffectEvent::PromptTruncationRecorded { .. } },
        ),
        after.supervisor_restart_requests - before.supervisor_restart_requests == one_if(
            r.event matches Event::Effect { event: EffectEvent::SupervisorRestartRequested { .. } },
        ),
        after.supervisor_child_starts - before.supervisor_child_starts == one_if(
            r.event matches Event::Effect { event: EffectEvent::SupervisorChildStarted { .. } },
        ),
        after.recovery_suppressed - before.recovery_suppressed == one_if(
            r.event matches Event::Effect { event: EffectEvent::RecoverySuppressed { .. } },
        ),
{
    assert(rs.push(r).drop_last() =~= rs);
}

/// A restart that is asked for stays unanswered until a child starts.
pub proof fn law_a_child_start_answers_a_restart(
    rs: Seq<TlogRecord>,
    r: TlogRecord,
    before: TlogDeltaSignals,
    after: TlogDeltaSignals,
)
    requires
        before.of(rs),
        after.of(rs.push(r)),
    ensures
        r.event matches Event::Effect { event: EffectEvent::SupervisorRestartRequested { .. } }
            ==> after.restart_requests_without_child_start
            == before.restart_requests_without_child_start + 1,
        (r.event matches Event::Effect { event: EffectEvent::SupervisorChildStarted { .. } }
            ==> before.restart_requests_without_child_start > 0
            ==> after.restart_requests_without_child_start
            == before.restart_requests_without_child_start - 1),
        (r.event matches Event::Effect { event: EffectEvent::SupervisorChildStarted { .. } }
            ==> before.restart_requests_without_child_start == 0
            ==> after.restart_requests_without_child_start == 0),
        !(r.event matches Event::Effect { event: EffectEvent::SupervisorRestartRequested { .. } })
            && !(r.event matches Event::Effect { event: EffectEvent::SupervisorChildStarted { .. } })
            ==> after.restart_requests_without_child_start
            == before.restart_requests_without_child_start,
{
    assert(rs.push(r).drop_last() =~= rs);
}

/// What a truncation drops, and what texts the control events carry, is added up as far
/// as a counter goes.
pub proof fn law_bytes_add_up(
    rs: Seq<TlogRecord>,
    r: TlogRecord,
    before: TlogDeltaSignals,
    after: TlogDeltaSignals,
)
    requires
        before.of(rs),
        after.of(rs.push(r)),
    ensures
        r.event matches Event::Effect {
            event: EffectEvent::PromptTruncationRecorded { dropped_bytes, .. },
        } ==> before.prompt_truncation_dropped_bytes + dropped_bytes <= u64::MAX
            ==> after.prompt_truncation_dropped_bytes == before.prompt_truncation_dropped_bytes
            + dropped_bytes,
        !(r.event matches Event::Effect { event: EffectEvent::PromptTruncationRecorded { .. } })
            ==> after.prompt_truncation_dropped_bytes == before.prompt_truncation_dropped_bytes,
        after.prompt_truncation_dropped_bytes >= before.prompt_truncation_dropped_bytes,
        !(r.event is Control) ==> after.last_plan_text_payload_bytes
            == before.last_plan_text_payload_bytes && after.last_executor_diff_payload_bytes
            == before.last_executor_diff_payload_bytes,
        r.event matches Event::Control { event: ControlEvent::LastPlanTextSet { text } }
            ==> before.last_plan_text_payload_bytes + tlog_delta::byte_len(text@) <= u64::MAX
            ==> after.last_plan_text_payload_bytes == before.last_plan_text_payload_bytes
            + tlog_delta::byte_len(text@) && after.last_executor_diff_payload_bytes
            == before.last_executor_diff_payload_bytes,
        r.event matches Event::Control { event: ControlEvent::LastSoloPlanTextSet { text } }
            ==> before.last_plan_text_payload_bytes + tlog_delta::byte_len(text@) <= u64::MAX
            ==> after.last_plan_text_payload_bytes == before.last_plan_text_payload_bytes
            + tlog_delta::byte_len(text@),
        r.event matches Event::Control { event: ControlEvent::LastExecutorDiffSet { text } }
            ==> before.last_executor_diff_payload_bytes + tlog_delta::byte_len(text@) <= u64::MAX
            ==> after.last_executor_diff_payload_bytes == before.last_executor_diff_payload_bytes
            + tlog_delta::byte_len(text@) && after.last_plan_text_payload_bytes
            == before.last_plan_text_payload_bytes,
        r.event matches Event::Control { event: ControlEvent::LastSoloExecutorDiffSet { text } }
            ==> before.last_executor_diff_payload_bytes + tlog_delta::byte_len(text@) <= u64::MAX
            ==> after.last_executor_diff_payload_bytes == before.last_executor_diff_payload_bytes
            + tlog_delta::byte_len(text@),
{
    assert(rs.push(r).drop_last() =~= rs);
}

// ---------------------------------------------------------------------------
// Results and writes
// ---------------------------------------------------------------------------

/// The command of a turn that answered with an action.
pub open spec fn asked(r: TlogRecord) -> Option<Seq<char>> {
    match r.event {
        Event::Effect {
            event: EffectEvent::LlmTurnOutput { command_id, action_kind: Some(_), .. },
        } => Some(command_id@),
        _ => None,
    }
}

/// The command whose action has a result.
pub open spec fn answered(r: TlogRecord) -> Option<Seq<char>> {
    match r.event {
        Event::Effect { event: EffectEvent::ActionResultRecorded { command_id, .. } } => Some(
            command_id@,
        ),
        _ => None,
    }
}

/// The signature of a write that was asked for.
pub open spec fn requested(r: TlogRecord) -> Option<Seq<char>> {
    match r.event {
        Event::Effect {
            event: EffectEvent::WorkspaceArtifactWriteRequested { signature, .. },
        } => Some(signature@),
        _ => None,
    }
}

/// The signature of a write that was done.
pub open spec fn applied(r: TlogRecord) -> Option<Seq<char>> {
    match r.event {
        Event::Effect {
            event: EffectEvent::WorkspaceArtifactWriteApplied { signature, .. },
        } => Some(signature@),
        _ => None,
    }
}

proof fn lemma_collected(
    rs: Seq<TlogRecord>,
    f: spec_fn(Event) -> Option<Seq<char>>,
    x: Seq<char>,
)
    ensures
        tlog_delta::collected(rs, f).contains(x) <==> exists|i: int|
            0 <= i < rs.len() && f((#[trigger] rs[i]).event) == Some(x),
    decreases rs.len(),
{
    if rs.len() > 0 {
        let before = rs.drop_last();
        lemma_collected(before, f, x);
        let all = tlog_delta::collected(rs, f);
        let some = tlog_delta::collected(before, f);
        if all.contains(x) {
            let k = choose|k: int| 0 <= k < all.len() && all[k] == x;
            if k < some.len() {
                assert(some[k] == x);
                let i = choose|i: int|
                    0 <= i < before.len() && f((#[trigger] before[i]).event) == Some(x);
                assert(f(rs[i].event) == Some(x));
            } else {
                assert(f(rs[rs.len() - 1].event) == Some(x));
            }
        }
        if exists|i: int| 0 <= i < rs.len() && f((#[trigger] rs[i]).event) == Some(x) {
            let i = choose|i: int| 0 <= i < rs.len() && f((#[trigger] rs[i]).event) == Some(x);
            if i < before.len() {
                assert(f(before[i].event) == Some(x));
                let k = choose|k: int| 0 <= k < some.len() && some[k] == x;
                assert(all[k] == x);
            } else {
                assert(all[some.len() as int] == x);
            }
        }
    }
}

proof fn lemma_none_missing(a: Seq<Seq<char>>, b: Seq<Seq<char>>)
    ensures
        a.to_set().difference(b.to_set()).len() == 0 <==> (forall|x: Seq<char>|
            a.contains(x) ==> #[trigger] b.contains(x)),
        a.to_set().difference(b.to_set()).len() <= a.len(),
{
    let d = a.to_set().difference(b.to_set());
    a.lemma_cardinality_of_set();
    assert(a.to_set().finite());
    vstd::set_lib::lemma_len_difference(a.to_set(), b.to_set());
    if d.len() == 0 {
        assert forall|x: Seq<char>| a.contains(x) implies #[trigger] b.contains(x) by {
            if !b.contains(x) {
                assert(d.contains(x));
                assert(d.finite());
                assert(d =~= Set::empty());
            }
        }
    }
    if forall|x: Seq<char>| a.contains(x) ==> #[trigger] b.contains(x) {
        assert forall|x: Seq<char>| !d.contains(x) by {
            if a.contains(x) {
                assert(b.contains(x));
            }
        }
        assert(d =~= Set::empty());
    }
}

/// No result is missing exactly where every command with an action has one.
pub proof fn law_no_result_is_missing_where_all_were_answered(
    rs: Seq<TlogRecord>,
    s: TlogDeltaSignals,
)
    requires
        s.of(rs),
    ensures
        s.missing_action_results == 0 <==> forall|i: int|
            0 <= i < rs.len() && asked(#[trigger] rs[i]) is Some ==> exists|j: int|
                0 <= j < rs.len() && answered(#[trigger] rs[j]) == asked(rs[i]),
        s.missing_action_results <= s.llm_action_outputs,
{
    let f = |e: Event| tlog_delta::action_output_id(e);
    let g = |e: Event| tlog_delta::action_result_id(e);
    let a = tlog_delta::collected(rs, f);
    let b = tlog_delta::collected(rs, g);
    lemma_none_missing(a, b);
    lemma_collected_len(rs, f, |e: Event| tlog_delta::is_action_output(e));
    if s.missing_action_results == 0 {
        assert forall|i: int| 0 <= i < rs.len() && asked(#[trigger] rs[i]) is Some implies exists|
            j: int,
        | 0 <= j < rs.len() && answered(#[trigger] rs[j]) == asked(rs[i]) by {
            let x = asked(rs[i])->0;
            lemma_collected(rs, f, x);
            lemma_collected(rs, g, x);
            assert(f(rs[i].event) == Some(x));
            assert(b.contains(x));
            let j = choose|j: int| 0 <= j < rs.len() && g((#[trigger] rs[j]).event) == Some(x);
            assert(answered(rs[j]) == asked(rs[i]));
        }
    }
    if forall|i: int|
        0 <= i < rs.len() && asked(#[trigger] rs[i]) is Some ==> exists|j: int|
            0 <= j < rs.len() && answered(#[trigger] rs[j]) == asked(rs[i]) {
        assert forall|x: Seq<char>| a.contains(x) implies #[trigger] b.contains(x) by {
            lemma_collected(rs, f, x);
            lemma_collected(rs, g, x);
            let i = choose|i: int| 0 <= i < rs.len() && f((#[trigger] rs[i]).event) == Some(x);
            assert(asked(rs[i]) == Some(x));
            let j = choose|j: int| 0 <= j < rs.len() && answered(#[trigger] rs[j]) == asked(rs[i]);
            assert(g(rs[j].event) == Some(x));
        }
    }
}

proof fn lemma_collected_len(
    rs: Seq<TlogRecord>,
    f: spec_fn(Event) -> Option<Seq<char>>,
    p: spec_fn(Event) -> bool,
)
    requires
        forall|e: Event| #[trigger] p(e) <==> f(e) is Some,
    ensures
        tlog_delta::collected(rs, f).len() == tlog_delta::count(rs, p),
    decreases rs.len(),
{
    if rs.len() > 0 {
        lemma_collected_len(rs.drop_last(), f, p);
        assert(p(rs.last().event) <==> f(rs.last().event) is Some);
    }
}

/// No write is left over exactly where every one that was asked for was done.
pub proof fn law_no_write_is_left_where_all_were_applied(rs: Seq<TlogRecord>, s: TlogDeltaSignals)
    requires
        s.of(rs),
    ensures
        s.unapplied_artifact_writes == 0 <==> forall|i: int|
            0 <= i < rs.len() && requested(#[trigger] rs[i]) is Some ==> exists|j: int|
                0 <= j < rs.len() && applied(#[trigger] rs[j]) == requested(rs[i]),
        s.unapplied_artifact_writes <= s.artifact_write_requests,
{
    let f = |e: Event| tlog_delta::write_request_signature(e);
    let g = |e: Event| tlog_delta::write_applied_signature(e);
    let a = tlog_delta::collected(rs, f);
    let b = tlog_delta::collected(rs, g);
    lemma_none_missing(a, b);
    lemma_collected_len(rs, f, |e: Event| tlog_delta::is_write_request(e));
    if s.unapplied_artifact_writes == 0 {
        assert forall|i: int|
            0 <= i < rs.len() && requested(#[trigger] rs[i]) is Some implies exists|j: int|
            0 <= j < rs.len() && applied(#[trigger] rs[j]) == requested(rs[i]) by {
            let x = requested(rs[i])->0;
            lemma_collected(rs, f, x);
            lemma_collected(rs, g, x);
            assert(f(rs[i].event) == Some(x));
            assert(b.contains(x));
            let j = choose|j: int| 0 <= j < rs.len() && g((#[trigger] rs[j]).event) == Some(x);
            assert(applied(rs[j]) == requested(rs[i]));
        }
    }
    if forall|i: int|
        0 <= i < rs.len() && requested(#[trigger] rs[i]) is Some ==> exists|j: int|
            0 <= j < rs.len() && applied(#[trigger] rs[j]) == requested(rs[i]) {
        assert forall|x: Seq<char>| a.contains(x) implies #[trigger] b.contains(x) by {
            lemma_collected(rs, f, x);
            lemma_collected(rs, g, x);
            let i = choose|i: int| 0 <= i < rs.len() && f((#[trigger] rs[i]).event) == Some(x);
            assert(requested(rs[i]) == Some(x));
            let j = choose|j: int|
                0 <= j < rs.len() && applied(#[trigger] rs[j]) == requested(rs[i]);
            assert(g(rs[j].event) == Some(x));
        }
    }
}

// ---------------------------------------------------------------------------
// Gaps
// ---------------------------------------------------------------------------

/// A sequence without a break stays so only by the next number, and a number that is
/// passed over is missing.
pub proof fn law_a_skipped_number_is_missing(
    rs: Seq<TlogRecord>,
    r: TlogRecord,
    before: TlogDeltaSignals,
    after: TlogDeltaSignals,
)
    requires
        before.of(rs),
        after.of(rs.push(r)),
        rs.len() > 0,
        rs.last().seq < u64::MAX,
    ensures
        after.contiguous_seq == (before.contiguous_seq && r.seq == rs.last().seq + 1),
        r.seq <= rs.last().seq + 1 ==> after.missing_seq_count == before.missing_seq_count,
        r.seq > rs.last().seq && before.missing_seq_count + r.seq <= u64::MAX
            ==> after.missing_seq_count == before.missing_seq_count + (r.seq - rs.last().seq - 1),
{
    let now = rs.push(r);
    assert(now.drop_last() =~= rs);
    assert(now[now.len() - 2] == rs.last());
    tlog_delta::lemma_contiguous_step(now);
}

/// How long after the record before it a record came.
pub open spec fn waited(rs: Seq<TlogRecord>, r: TlogRecord) -> int {
    if rs.len() > 0 && r.ts_ms > rs.last().ts_ms {
        r.ts_ms - rs.last().ts_ms
    } else {
        0
    }
}

/// A gap of one second to two minutes is lag; a shorter or a longer one is not.
pub proof fn law_lag_lies_between_a_second_and_two_minutes(
    rs: Seq<TlogRecord>,
    r: TlogRecord,
    before: TlogDeltaSignals,
    after: TlogDeltaSignals,
)
    requires
        before.of(rs),
        after.of(rs.push(r)),
    ensures
        1_000 <= waited(rs, r) <= 120_000 ==> {
            &&& after.lag_gap_count == before.lag_gap_count + 1
            &&& before.lag_total_ms + waited(rs, r) <= u64::MAX ==> after.lag_total_ms
                == before.lag_total_ms + waited(rs, r)
            &&& after.max_event_gap_ms >= waited(rs, r)
            &&& after.max_event_gap_ms == waited(rs, r) || after.max_event_gap_ms
                == before.max_event_gap_ms
        },
        !(1_000 <= waited(rs, r) <= 120_000) ==> {
            &&& after.lag_gap_count == before.lag_gap_count
            &&& after.lag_total_ms == before.lag_total_ms
            &&& after.max_event_gap_ms == before.max_event_gap_ms
            &&& after.actionable_lag_gap_count == before.actionable_lag_gap_count
            &&& after.actionable_lag_total_ms == before.actionable_lag_total_ms
            &&& after.issues_projection_lag_count == before.issues_projection_lag_count
            &&& after.issues_projection_lag_ms == before.issues_projection_lag_ms
        },
        after.max_event_gap_ms >= before.max_event_gap_ms,
{
    let now = rs.push(r);
    assert(now.drop_last() =~= rs);
    if rs.len() > 0 {
        assert(now[now.len() - 2] == rs.last());
    }
    if tlog_delta::last_lags(now) {
        assert(tlog_delta::all_lags(now).drop_last() =~= tlog_delta::all_lags(rs));
    }
}

/// Somebody waits for what an event is about, by its tag.
pub open spec fn waited_for(kind: Seq<char>) -> bool {
    kind == "llm_turn_output"@ || kind == "llm_error_boundary"@ || kind == "eval_score_recorded"@
        || kind == "orchestrator_idle_pulse"@ || kind == "orchestrator_mode_set"@
}

/// Lag before an event that is waited for is not held against anybody; every other lag
/// is. Lag before a projection of the issues is counted apart as well.
pub proof fn law_lag_that_is_waited_for_is_not_actionable(
    rs: Seq<TlogRecord>,
    r: TlogRecord,
    before: TlogDeltaSignals,
    after: TlogDeltaSignals,
)
    requires
        before.of(rs),
        after.of(rs.push(r)),
        1_000 <= waited(rs, r) <= 120_000,
    ensures
        waited_for(events::kind_text(r.event)) ==> after.actionable_lag_gap_count
            == before.actionable_lag_gap_count && after.actionable_lag_total_ms
            == before.actionable_lag_total_ms,
        !waited_for(events::kind_text(r.event)) ==> after.actionable_lag_gap_count
            == before.actionable_lag_gap_count + 1 && (before.actionable_lag_total_ms + waited(
            rs,
            r,
        ) <= u64::MAX ==> after.actionable_lag_total_ms == before.actionable_lag_total_ms + waited(
            rs,
            r,
        )),
        r.event matches Event::Effect { event: EffectEvent::IssuesProjectionRecorded { .. } }
            ==> after.issues_projection_lag_count == before.issues_projection_lag_count + 1,
        events::kind_text(r.event) != "issues_projection_recorded"@
            ==> after.issues_projection_lag_count == before.issues_projection_lag_count
            && after.issues_projection_lag_ms == before.issues_projection_lag_ms,
{
    let now = rs.push(r);
    assert(now.drop_last() =~= rs);
    assert(now[now.len() - 2] == rs.last());
    assert(tlog_delta::last_lags(now));
    let kind = events::kind_text(r.event);
    if tlog_delta::actionable_lag(kind) {
        assert(tlog_delta::actionable_lags(now).drop_last() =~= tlog_delta::actionable_lags(rs));
    } else {
        assert(tlog_delta::actionable_lags(now) == tlog_delta::actionable_lags(rs));
    }
    if tlog_delta::issues_projection(kind) {
        assert(tlog_delta::projection_lags(now).drop_last() =~= tlog_delta::projection_lags(rs));
    }
}

/// The events that are waited for.
pub proof fn law_turns_evaluations_and_idling_are_waited_for(e: Event)
    ensures
        e matches Event::Effect { event: EffectEvent::LlmTurnOutput { .. } } ==> waited_for(
            events::kind_text(e),
        ),
        e matches Event::Effect { event: EffectEvent::LlmErrorBoundary { .. } } ==> waited_for(
            events::kind_text(e),
        ),
        e matches Event::Effect { event: EffectEvent::EvalScoreRecorded { .. } } ==> waited_for(
            events::kind_text(e),
        ),
        e matches Event::Control { event: ControlEvent::OrchestratorIdlePulse { .. } }
            ==> waited_for(events::kind_text(e)),
        e matches Event::Control { event: ControlEvent::OrchestratorModeSet { .. } }
            ==> waited_for(events::kind_text(e)),
        e matches Event::Effect { event: EffectEvent::IssuesProjectionRecorded { .. } }
            ==> events::kind_text(e) == "issues_projection_recorded"@,
        e matches Event::Effect { event: EffectEvent::ActionResultRecorded { .. } }
            ==> events::kind_text(e) == "action_result_recorded"@,
        e matches Event::Effect { event: EffectEvent::LlmTurnInput { .. } }
            ==> events::kind_text(e) == "llm_turn_input"@,
{
}

/// The kind of the payload that is named has the most bytes of all kinds.
pub proof fn law_the_named_payload_is_the_largest(
    rs: Seq<TlogRecord>,
    s: TlogDeltaSignals,
    i: int,
)
    requires
        s.of(rs),
        0 <= i < rs.len(),
    ensures
        tally::capped(
            tally::amount_of(tlog_delta::payloads(rs), events::kind_text(rs[i].event)),
        ) <= s.dominant_payload_kind_bytes,
        rs[i].payload_bytes <= s.dominant_payload_kind_bytes,
        exists|k: int|
            0 <= k < rs.len() && s.dominant_payload_kind@ == events::kind_text(
                (#[trigger] rs[k]).event,
            ),
{
    let ps = tlog_delta::payloads(rs);
    assert(ps.len() == rs.len());
    assert(ps[i] == (events::kind_text(rs[i].event), rs[i].payload_bytes));
    lemma_amount_holds(ps, i);
    let k = choose|k: int| 0 <= k < ps.len() && (#[trigger] ps[k]).0 == s.dominant_payload_kind@;
    assert(ps[k].0 == events::kind_text(rs[k].event));
}

proof fn lemma_amount_holds(ps: Seq<(Seq<char>, u64)>, i: int)
    requires
        0 <= i < ps.len(),
    ensures
        tally::amount_of(ps, ps[i].0) >= ps[i].1,
    decreases ps.len(),
{
    if i < ps.len() - 1 {
        lemma_amount_holds(ps.drop_last(), i);
    }
}

} // verus!
