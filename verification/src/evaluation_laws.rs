//! What the scores, violations and warnings of an evaluation mean.

use crate::evaluation;
use crate::evaluation::{
    EvalEnforcement, EvalInput, EvaluationWorkspaceSnapshot, Impact, Severity, Share,
};
use crate::issues;
use crate::issues::IssueView;
use crate::json;
use crate::json::JsonView;
use crate::text;
use crate::tlog_delta::TlogDeltaSignals;
use vstd::prelude::*;

verus! {

// ---------------------------------------------------------------------------
// Scores
// ---------------------------------------------------------------------------

/// The share is `a` of `b`, everything where `b` is nothing, and nothing where `a`
/// is less than nothing.
pub open spec fn is_part(s: Share, a: int, b: int) -> bool {
    if b == 0 {
        s.num == 1 && s.den == 1
    } else if a <= 0 {
        s.num == 0 && s.den == b
    } else {
        s.num == a && s.den == b
    }
}

/// The scores of a snapshot are the parts that are left of what was counted.
pub proof fn law_scores_are_parts_of_what_was_counted(
    input: EvalInput,
    r: EvaluationWorkspaceSnapshot,
)
    requires
        evaluation::evaluates(input, r),
    ensures
        ({
            let s = input.tlog_delta_signals;
            let v = r.vector;
            &&& is_part(
                v.objective_progress,
                input.objectives_completed as int,
                input.objectives_total as int,
            )
            &&& v.task_velocity.num == input.completed_tasks
            &&& v.task_velocity.den == if input.total_tasks == 0 { 1 } else {
                input.total_tasks as int
            }
            &&& is_part(
                v.issue_health,
                input.open_issues - input.repeated_open_issues,
                input.open_issues as int,
            )
            &&& is_part(
                v.improvement_measurement,
                s.improvement_attempts - s.unmeasured_improvement_attempts,
                s.improvement_attempts as int,
            )
            &&& is_part(
                v.improvement_validation,
                s.improvement_attempts - s.unvalidated_improvement_attempts,
                s.improvement_attempts as int,
            )
            &&& is_part(
                v.improvement_effectiveness,
                s.measured_improvement_attempts - s.regressed_improvement_attempts,
                s.measured_improvement_attempts as int,
            )
        }),
{
}

/// Where counts are of the size of a window, recoveries score by how many of those
/// that were attempted or suppressed succeeded or broke a loop.
pub proof fn law_recoveries_score_by_their_ends(input: EvalInput, r: EvaluationWorkspaceSnapshot)
    requires
        evaluation::evaluates(input, r),
        input.tlog_delta_signals.recovery_attempts + input.tlog_delta_signals.recovery_suppressed
            <= usize::MAX,
        input.tlog_delta_signals.recovery_successes + input.tlog_delta_signals.recovery_loop_breaks
            <= usize::MAX,
    ensures
        ({
            let s = input.tlog_delta_signals;
            let tried = s.recovery_attempts + s.recovery_suppressed;
            let ended = s.recovery_successes + s.recovery_loop_breaks;
            &&& ended <= tried ==> is_part(r.vector.recovery_effectiveness, ended, tried)
            &&& ended >= tried ==> is_part(r.vector.recovery_effectiveness, tried, tried)
        }),
{
}

/// The rates of functions with errors and of low confidence, and the coverage by
/// intents, are parts of all functions, and never more than all.
pub proof fn law_functions_are_counted_once(input: EvalInput, r: EvaluationWorkspaceSnapshot)
    requires
        evaluation::evaluates(input, r),
        input.semantic_fn_total > 0,
    ensures
        ({
            let all = input.semantic_fn_total as int;
            let errors = input.semantic_fn_with_any_error as int;
            let meant = input.semantic_fn_intent_classified as int;
            let low = input.semantic_fn_low_confidence as int;
            &&& errors <= all ==> is_part(r.semantic_fn_error_rate, errors, all)
            &&& errors > all ==> is_part(r.semantic_fn_error_rate, all, all)
            &&& low <= all ==> is_part(r.semantic_fn_low_confidence_rate, low, all)
            &&& low > all ==> is_part(r.semantic_fn_low_confidence_rate, all, all)
            &&& meant <= all ==> is_part(r.semantic_fn_intent_coverage, meant, all)
            &&& meant > all ==> is_part(r.semantic_fn_intent_coverage, all, all)
            &&& meant + low <= all ==> is_part(r.semantic_fn_totalization_coverage, meant + low, all)
                && r.semantic_fn_totalized == meant + low
            &&& meant + low > all ==> is_part(r.semantic_fn_totalization_coverage, all, all)
                && r.semantic_fn_totalized == all
            &&& r.vector.semantic_contract@.len() == 3
            &&& errors <= all ==> is_part(r.vector.semantic_contract@[0], all - errors, all)
            &&& meant <= all ==> is_part(r.vector.semantic_contract@[1], meant, all)
            &&& low <= all ==> is_part(r.vector.semantic_contract@[2], all - low, all)
        }),
{
}

/// Without functions nothing is in error and everything is covered.
pub proof fn law_without_functions_all_is_well(input: EvalInput, r: EvaluationWorkspaceSnapshot)
    requires
        evaluation::evaluates(input, r),
        input.semantic_fn_total == 0,
    ensures
        r.semantic_fn_error_rate.num == 0,
        r.semantic_fn_low_confidence_rate.num == 0,
        r.semantic_fn_intent_coverage.num == r.semantic_fn_intent_coverage.den,
        r.semantic_fn_totalization_coverage.num == r.semantic_fn_totalization_coverage.den,
{
}

/// A violation takes all, six, three or one tenth of safety.
pub proof fn law_a_violation_takes_from_safety(v: Seq<Severity>)
    ensures
        evaluation::penalty_tenths(Seq::empty()) == 0,
        evaluation::penalty_tenths(v.push(Severity::Critical)) == evaluation::penalty_tenths(v)
            + 10,
        evaluation::penalty_tenths(v.push(Severity::High)) == evaluation::penalty_tenths(v) + 6,
        evaluation::penalty_tenths(v.push(Severity::Medium)) == evaluation::penalty_tenths(v) + 3,
        evaluation::penalty_tenths(v.push(Severity::Low)) == evaluation::penalty_tenths(v) + 1,
{
    assert(v.push(Severity::Critical).drop_last() =~= v);
    assert(v.push(Severity::High).drop_last() =~= v);
    assert(v.push(Severity::Medium).drop_last() =~= v);
    assert(v.push(Severity::Low).drop_last() =~= v);
}

/// Safety is what the violations leave of ten tenths, less three tenths of it for
/// the share of the functions that are in error.
pub proof fn law_safety_is_what_violations_and_errors_leave(
    input: EvalInput,
    r: EvaluationWorkspaceSnapshot,
)
    requires
        evaluation::evaluates(input, r),
    ensures
        ({
            let p = evaluation::penalty_tenths(input.violations@);
            let left = if p >= 10 { 0int } else { 10 - p };
            let all = input.semantic_fn_total as int;
            let errors = if input.semantic_fn_with_any_error <= input.semantic_fn_total {
                input.semantic_fn_with_any_error as int
            } else {
                all
            };
            &&& all == 0 ==> r.vector.safety.num == 10 * left && r.vector.safety.den == 100
            &&& all > 0 ==> r.vector.safety.num == left * (10 * all - 3 * errors)
                && r.vector.safety.den == 100 * all
        }),
{
    let s = evaluation::remaining(evaluation::penalty_tenths(input.violations@), 10);
    let e = evaluation::rate(input.semantic_fn_total, input.semantic_fn_with_any_error);
    let n = e.num as int;
    let d = e.den as int;
    let a = s.num as int;
    assert(0 <= a <= 10 && s.den == 10);
    assert(0 <= a * (10 * d - 3 * n) <= 100 * d) by (nonlinear_arith)
        requires
            0 <= a <= 10,
            0 <= n <= d,
            0 < d,
    ;
    assert(100 * d <= 100 * 0x1_0000_0000_0000_0000);
    if input.semantic_fn_total == 0 {
        assert(a * (10 * d - 3 * n) == 10 * a) by (nonlinear_arith)
            requires
                d == 1,
                n == 0,
        ;
    }
}

/// Failures of high or critical impact press; others do not.
pub proof fn law_high_failures_press(v: Seq<Impact>)
    ensures
        evaluation::high_impacts(Seq::empty()) == 0,
        evaluation::high_impacts(v.push(Impact::Critical)) == evaluation::high_impacts(v) + 1,
        evaluation::high_impacts(v.push(Impact::High)) == evaluation::high_impacts(v) + 1,
        evaluation::high_impacts(v.push(Impact::Medium)) == evaluation::high_impacts(v),
        evaluation::high_impacts(v.push(Impact::Low)) == evaluation::high_impacts(v),
{
    assert(v.push(Impact::Critical).drop_last() =~= v);
    assert(v.push(Impact::High).drop_last() =~= v);
    assert(v.push(Impact::Medium).drop_last() =~= v);
    assert(v.push(Impact::Low).drop_last() =~= v);
}

proof fn lemma_high_impacts(v: Seq<Impact>)
    ensures
        evaluation::high_impacts(v) <= v.len(),
    decreases v.len(),
{
    if v.len() > 0 {
        lemma_high_impacts(v.drop_last());
    }
}

/// The pressure to repair is at least the share of the high failures and at least a
/// hundredth for each open issue of high priority, up to a tenth; and it is one of
/// the two.
pub proof fn law_pressure_is_felt_where_it_is_greatest(
    input: EvalInput,
    r: EvaluationWorkspaceSnapshot,
)
    requires
        evaluation::evaluates(input, r),
        input.failures@.len() > 0,
    ensures
        ({
            let n = input.high_priority_open_issues as int;
            let floor = if n < 10 { n } else { 10 };
            let high = evaluation::high_impacts(input.failures@) as int;
            let all = input.failures@.len() as int;
            let p = r.diagnostics_repair_pressure;
            &&& high * 100 >= floor * all ==> p.num == high && p.den == all
            &&& high * 100 < floor * all ==> p.num == floor && p.den == 100
        }),
{
    lemma_high_impacts(input.failures@);
    assert(input.failures.len() == input.failures@.len());
}

/// Where nothing failed, open issues of high priority press by a hundredth each, up
/// to a tenth.
pub proof fn law_issues_press_where_nothing_failed(
    input: EvalInput,
    r: EvaluationWorkspaceSnapshot,
)
    requires
        evaluation::evaluates(input, r),
        input.failures@.len() == 0,
    ensures
        input.high_priority_open_issues == 0 ==> r.diagnostics_repair_pressure.num == 0,
        0 < input.high_priority_open_issues < 10 ==> r.diagnostics_repair_pressure.num
            == input.high_priority_open_issues && r.diagnostics_repair_pressure.den == 100,
        input.high_priority_open_issues >= 10 ==> r.diagnostics_repair_pressure.num == 10
            && r.diagnostics_repair_pressure.den == 100,
{
    let a = evaluation::pressure(input.failures@);
    let b = evaluation::issue_floor(input.high_priority_open_issues);
    assert(a.num == 0 && a.den == 1);
    assert(a.num * b.den == 0) by (nonlinear_arith)
        requires
            a.num == 0,
    ;
    assert(b.num * a.den == b.num) by (nonlinear_arith)
        requires
            a.den == 1,
    ;
}

// ---------------------------------------------------------------------------
// The health of a window
// ---------------------------------------------------------------------------

/// The share falls from everything with what was lost, and no lower than a quarter.
pub open spec fn is_part_down_to_a_quarter(s: Share, lost: int, of: int) -> bool {
    if 4 * lost >= 3 * of {
        s.num == 1 && s.den == 4
    } else {
        s.num == of - lost && s.den == of
    }
}

/// Each share of the health of a window is told by its own counts.
pub proof fn law_health_is_told_by_the_window(s: TlogDeltaSignals)
    ensures
        ({
            let h = evaluation::delta_health(s);
            let turns = s.llm_turn_inputs + s.llm_turn_outputs;
            &&& h.len() == 10
            &&& s.contiguous_seq ==> h[0].num == h[0].den
            &&& !s.contiguous_seq ==> is_part(
                h[0],
                s.event_count - s.missing_seq_count,
                s.event_count as int,
            )
            &&& s.llm_turn_outputs <= s.llm_turn_inputs ==> is_part(
                h[1],
                s.llm_turn_outputs as int,
                s.llm_turn_inputs as int,
            )
            &&& s.llm_turn_outputs >= s.llm_turn_inputs ==> h[1].num == h[1].den
            &&& is_part(
                h[2],
                s.llm_action_outputs - s.missing_action_results,
                s.llm_action_outputs as int,
            )
            &&& is_part(
                h[3],
                s.artifact_write_requests - s.unapplied_artifact_writes,
                s.artifact_write_requests as int,
            )
            &&& 0 < turns <= u64::MAX ==> is_part(h[4], turns - s.llm_error_boundaries, turns)
            &&& turns == 0 ==> is_part(h[4], 1 - s.llm_error_boundaries, 1)
            &&& s.event_count > 0 ==> is_part_down_to_a_quarter(
                h[5],
                s.actionable_lag_total_ms as int,
                5000 * s.event_count,
            )
            &&& is_part_down_to_a_quarter(h[6], s.unsafe_checkpoint_attempts as int, 4)
            &&& is_part_down_to_a_quarter(h[7], s.prompt_truncations as int, 4)
            &&& s.supervisor_restart_requests > 0 ==> is_part_down_to_a_quarter(
                h[8],
                s.restart_requests_without_child_start as int,
                s.supervisor_restart_requests as int,
            )
            &&& s.supervisor_restart_requests == 0 ==> h[8].num == h[8].den
            &&& is_part(
                h[9],
                s.improvement_attempts - s.unvalidated_improvement_attempts,
                s.improvement_attempts as int,
            )
        }),
{
}

// ---------------------------------------------------------------------------
// Violations and warnings
// ---------------------------------------------------------------------------

/// One where it holds.
pub open spec fn told(b: bool) -> nat {
    if b {
        1
    } else {
        0
    }
}

/// An evaluation passes exactly where no function is in error, every function has an
/// intent of some confidence, no checkpoint was unsafe and no attempt at an
/// improvement is left without validation; each of the four is one violation.
pub proof fn law_an_evaluation_passes_without_violations(input: EvalInput, e: EvalEnforcement)
    requires
        e.of(input),
    ensures
        ({
            let s = input.tlog_delta_signals;
            let all = input.semantic_fn_total;
            let errors = all > 0 && input.semantic_fn_with_any_error > 0;
            let unmeant = input.semantic_fn_intent_classified + input.semantic_fn_low_confidence
                < all;
            let gone = s.unsafe_checkpoint_attempts > 0;
            let open = s.unvalidated_improvement_attempts > 0;
            &&& e.passed <==> !errors && !unmeant && !gone && !open
            &&& e.violation_count == told(errors) + told(unmeant) + told(gone) + told(open)
        }),
{
    assert(text::texts(e.violations@).len() == e.violations@.len());
}

/// Each of nine conditions is one warning.
pub proof fn law_warnings_are_counted(input: EvalInput, e: EvalEnforcement)
    requires
        e.of(input),
    ensures
        ({
            let s = input.tlog_delta_signals;
            let all = input.semantic_fn_total;
            let low = if input.semantic_fn_low_confidence <= all {
                input.semantic_fn_low_confidence as int
            } else {
                all as int
            };
            e.warning_count == told(s.actionable_lag_total_ms > 300_000) + told(
                s.prompt_truncations > 0,
            ) + told(s.missing_action_results > 0) + told(s.unmeasured_improvement_attempts > 0)
                + told(s.regressed_improvement_attempts > 0) + told(
                all > 0 && input.intent_coverage_low,
            ) + told(4 * low > all) + told(evaluation::semantic_contract_low(input)) + told(
                evaluation::high_impacts(input.failures@) > 0 || input.high_priority_open_issues > 0,
            )
        }),
{
    assert(text::texts(e.warnings@).len() == e.warnings@.len());
}

/// The semantic contract is low where the three shares multiply to less than one
/// half, and never where there is no function.
pub proof fn law_the_contract_is_low_below_one_half(input: EvalInput)
    requires
        input.semantic_fn_with_any_error <= input.semantic_fn_total,
        input.semantic_fn_intent_classified <= input.semantic_fn_total,
        input.semantic_fn_low_confidence <= input.semantic_fn_total,
    ensures
        ({
            let all = input.semantic_fn_total as int;
            let sound = all - input.semantic_fn_with_any_error;
            let meant = input.semantic_fn_intent_classified as int;
            let sure = all - input.semantic_fn_low_confidence;
            &&& all == 0 ==> !evaluation::semantic_contract_low(input)
            &&& all > 0 ==> (evaluation::semantic_contract_low(input) <==> 2 * (sound * meant * sure)
                < all * all * all)
            &&& all > 0 && input.semantic_fn_with_any_error == all
                ==> evaluation::semantic_contract_low(input)
            &&& sound == all && meant == all && sure == all ==> !evaluation::semantic_contract_low(
                input,
            )
        }),
{
    let all = input.semantic_fn_total as int;
    let sound = all - input.semantic_fn_with_any_error;
    let meant = input.semantic_fn_intent_classified as int;
    let sure = all - input.semantic_fn_low_confidence;
    assert(all > 0 ==> all * all * all > 0) by (nonlinear_arith);
    assert(sound == 0 ==> sound * meant * sure == 0) by (nonlinear_arith);
    assert(all >= 0 ==> all * all * all >= 0) by (nonlinear_arith);
}

/// Violations take three twentieths of the score each, and no more than five count.
pub proof fn law_violations_lower_the_score(input: EvalInput, r: EvaluationWorkspaceSnapshot)
    requires
        evaluation::evaluates(input, r),
    ensures
        r.enforcement_penalty.den == 20,
        r.eval_enforcement.violation_count <= 5 ==> r.enforcement_penalty.num == 3
            * r.eval_enforcement.violation_count,
        r.eval_enforcement.violation_count >= 5 ==> r.enforcement_penalty.num == 15,
        r.eval_enforcement.passed <==> r.enforcement_penalty.num == 0,
{
    let e = r.eval_enforcement;
    assert(text::texts(e.violations@).len() == e.violations@.len());
}

// ---------------------------------------------------------------------------
// Issues, tasks and risks
// ---------------------------------------------------------------------------

/// An issue counts as open until it is resolved, closed or set aside, as repeated
/// where another open issue has its title, and as of high priority where it is open
/// and its priority says so in any case.
pub proof fn law_issues_count_while_they_are_open(fs: Seq<IssueView>, i: int, j: int)
    requires
        0 <= i < fs.len(),
        0 <= j < fs.len(),
        i != j,
    ensures
        issues::open_issue(fs[i]) <==> !(fs[i].status == "resolved"@ || fs[i].status == "closed"@
            || fs[i].status == "wontfix"@),
        !issues::open_issue(fs[i]) ==> !evaluation::repeated(fs, i) && !evaluation::high_priority(
            fs,
            i,
        ),
        issues::open_issue(fs[i]) && issues::open_issue(fs[j]) && fs[i].title == fs[j].title
            ==> evaluation::repeated(fs, i) && evaluation::repeated(fs, j),
        issues::open_issue(fs[i]) ==> (evaluation::high_priority(fs, i) <==> text::lowercase(
            text::trimmed(fs[i].priority),
        ) == "high"@ || text::lowercase(text::trimmed(fs[i].priority)) == "critical"@),
{
}

/// A title that no other issue has is not repeated.
pub proof fn law_a_title_of_its_own_is_not_repeated(fs: Seq<IssueView>, i: int)
    requires
        0 <= i < fs.len(),
        forall|j: int| 0 <= j < fs.len() && j != i ==> (#[trigger] fs[j]).title != fs[i].title,
    ensures
        !evaluation::repeated(fs, i),
{
}

/// A task is done by its status: `done`, `complete` or `completed`.
pub proof fn law_a_task_is_done_by_its_status(task: JsonView, status: Seq<char>)
    ensures
        json::text_field(task, "status"@) is None ==> !evaluation::task_done(task),
        json::text_field(task, "status"@) == Some(status) ==> (evaluation::task_done(task)
            <==> status == "done"@ || status == "complete"@ || status == "completed"@),
{
}

/// What an invariant is missing for, told by the words of the graph and of the
/// invariants.
pub open spec fn missing_by_words(g: Seq<char>, t: Seq<char>) -> Seq<Seq<char>> {
    let plan = text::has_text(g, "plan.json"@) && text::has_text(g, "master_plan_file"@) && !(
    text::has_text(t, "plan"@) && text::has_text(t, "plan tool"@));
    let tlog = text::has_text(g, "tlog::tlog::append"@) && text::has_text(g, "canonicalwriter"@)
        && !(text::has_text(t, "canonical writer"@) && text::has_text(t, "single authority"@)
        && text::has_text(t, "tlog"@));
    let patch = text::has_text(g, "apply_patch"@) && text::has_text(g, "cargo_test"@) && !(
    text::has_text(t, "patch"@) && text::has_text(t, "cargo"@) && text::has_text(t, "test"@)
        && text::has_text(t, "verification"@));
    let checkpoint = text::has_text(g, "checkpoint_build_succeeded"@) && text::has_text(
        g,
        "git commit"@,
    ) && text::has_text(g, "rust_patch_verification"@) && !(text::has_text(t, "checkpoint"@)
        && text::has_text(t, "commit"@) && text::has_text(t, "rust"@) && text::has_text(t, "cargo"@)
        && text::has_text(t, "verification"@));
    let projection = text::has_text(g, "issues.json"@) && text::has_text(
        g,
        "persist_issues_projection"@,
    ) && !(text::has_text(t, "issues"@) && text::has_text(t, "projection"@));
    let wake = text::has_text(g, "wake_signal"@) && text::has_text(g, "lane_in_progress"@) && !(
    text::has_text(t, "executor"@) && text::has_text(t, "wake"@) && text::has_text(t, "lane"@));
    let a = one_if(plan, "plan_mutation_goes_through_plan_tool"@);
    let b = one_if(tlog, "canonical_writer_single_tlog_authority"@);
    let c = one_if(patch, "patch_requires_verification_gate"@);
    let d = one_if(checkpoint, "checkpoint_commit_requires_verified_gate_if_rust_changed"@);
    let e = one_if(projection, "issues_projection_only"@);
    let f = one_if(wake, "executor_wake_requires_claimable_lane"@);
    a + b + c + d + e + f
}

/// The text alone where it is to be told, else none.
pub open spec fn one_if(b: bool, t: Seq<char>) -> Seq<Seq<char>> {
    if b {
        seq![t]
    } else {
        Seq::empty()
    }
}

/// An invariant is missing exactly where the graph shows the risk by its words and
/// the invariants lack a word that covers it.
pub proof fn law_invariants_are_missing_by_their_words(g: Seq<char>, t: Seq<char>)
    ensures
        evaluation::risk_catalog().len() == 6,
        evaluation::missing_names(g, t, 6) == missing_by_words(g, t),
{
    reveal_with_fuel(evaluation::missing_names, 8);
    let r = evaluation::risk_catalog();
    assert(evaluation::missing_names(g, t, 0) =~= Seq::<Seq<char>>::empty());
    assert(evaluation::missing_names(g, t, 6) =~= missing_by_words(g, t));
}

} // verus!
