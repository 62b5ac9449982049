//! Evaluation: from counts over the workspace and the transition log to shares,
//! violations and warnings.

use crate::events::TlogRecord;
use crate::issues;
use crate::issues::{is_open, Issue};
use crate::json;
use crate::json::{get, get_text, Json};
use crate::json_text;
use crate::json_text::parse_json;
use crate::tally;
use crate::text;
use crate::text::{contains, count_text, decimal, same, to_ascii_lower, to_lowercase, trim};
use crate::tlog_delta::{evaluate_tlog_delta_invariants, TlogDeltaSignals};
use vstd::prelude::*;
use vstd::string::*;

verus! {

// ---------------------------------------------------------------------------
// Shares
// ---------------------------------------------------------------------------

/// An exact score between nothing and everything: `num` of `den`.
#[derive(Debug, Clone, Copy, PartialEq, Eq, Structural)]
pub struct Share {
    pub num: u128,
    pub den: u128,
}

impl Share {
    pub open spec fn well_formed(self) -> bool {
        self.num <= self.den && self.den > 0
    }
}

/// Everything.
pub open spec fn whole() -> Share {
    Share { num: 1, den: 1 }
}

/// What is left of the whole after a loss of `lost` of `of`, at worst nothing.
pub open spec fn remaining(lost: nat, of: nat) -> Share {
    if of == 0 {
        whole()
    } else if lost >= of {
        Share { num: 0, den: of as u128 }
    } else {
        Share { num: (of - lost) as u128, den: of as u128 }
    }
}

/// What is left of the whole after a loss of `lost` of `of` that counts for three
/// quarters at most.
pub open spec fn remaining_at_least_quarter(lost: nat, of: nat) -> Share {
    if 4 * lost >= 3 * of {
        Share { num: 1, den: 4 }
    } else {
        Share { num: (of - lost) as u128, den: of as u128 }
    }
}

/// The part `done` of `of`, at most the whole.
pub open spec fn achieved(done: nat, of: nat) -> Share {
    if done >= of {
        Share { num: of as u128, den: of as u128 }
    } else {
        Share { num: done as u128, den: of as u128 }
    }
}

fn share_remaining(lost: u64, of: u64) -> (r: Share)
    ensures
        r == remaining(lost as nat, of as nat),
        r.well_formed(),
{
    if of == 0 {
        Share { num: 1, den: 1 }
    } else if lost >= of {
        Share { num: 0, den: of as u128 }
    } else {
        Share { num: (of - lost) as u128, den: of as u128 }
    }
}

fn share_remaining_at_least_quarter(lost: u64, of: u128) -> (r: Share)
    requires
        0 < of <= 0x1_0000_0000_0000_0000_0000,
    ensures
        r == remaining_at_least_quarter(lost as nat, of as nat),
        r.well_formed(),
{
    let lost = lost as u128;
    if 4 * lost >= 3 * of {
        Share { num: 1, den: 4 }
    } else {
        Share { num: of - lost, den: of }
    }
}

fn share_achieved(done: u64, of: u64) -> (r: Share)
    requires
        of > 0,
    ensures
        r == achieved(done as nat, of as nat),
        r.well_formed(),
{
    if done >= of {
        Share { num: of as u128, den: of as u128 }
    } else {
        Share { num: done as u128, den: of as u128 }
    }
}

/// How much of the improvement attempts was measured.
pub fn improvement_measurement_score(signals: &TlogDeltaSignals) -> (r: Share)
    ensures
        r == remaining(
            signals.unmeasured_improvement_attempts as nat,
            signals.improvement_attempts as nat,
        ),
        r.well_formed(),
{
    share_remaining(
        signals.unmeasured_improvement_attempts as u64,
        signals.improvement_attempts as u64,
    )
}

/// How much of the improvement attempts was validated.
pub fn improvement_validation_score(signals: &TlogDeltaSignals) -> (r: Share)
    ensures
        r == remaining(
            signals.unvalidated_improvement_attempts as nat,
            signals.improvement_attempts as nat,
        ),
        r.well_formed(),
{
    share_remaining(
        signals.unvalidated_improvement_attempts as u64,
        signals.improvement_attempts as u64,
    )
}

/// How much of the measured improvement attempts did not regress.
pub fn improvement_effectiveness_score(signals: &TlogDeltaSignals) -> (r: Share)
    ensures
        r == remaining(
            signals.regressed_improvement_attempts as nat,
            signals.measured_improvement_attempts as nat,
        ),
        r.well_formed(),
{
    share_remaining(
        signals.regressed_improvement_attempts as u64,
        signals.measured_improvement_attempts as u64,
    )
}

/// How much of the triggered and suppressed recoveries succeeded or broke a loop.
pub open spec fn recovery_share(signals: TlogDeltaSignals) -> Share {
    let measured = tally::capped_count(
        (signals.recovery_attempts + signals.recovery_suppressed) as nat,
    );
    let ended = tally::capped_count(
        (signals.recovery_successes + signals.recovery_loop_breaks) as nat,
    );
    if measured == 0 {
        whole()
    } else {
        achieved(ended as nat, measured as nat)
    }
}

/// How much of the triggered and suppressed recoveries succeeded or broke a loop.
pub fn recovery_effectiveness_score(signals: &TlogDeltaSignals) -> (r: Share)
    ensures
        r == recovery_share(*signals),
        r.well_formed(),
{
    let measured: usize = signals.recovery_attempts.saturating_add(signals.recovery_suppressed);
    if measured == 0 {
        return Share { num: 1, den: 1 };
    }
    let ended: usize = signals.recovery_successes.saturating_add(signals.recovery_loop_breaks);
    share_achieved(ended as u64, measured as u64)
}

/// The shares whose geometric mean, taken together with that of the effectiveness of
/// improvements and of recoveries, is the health of a window: sequence, turns,
/// actions, artifacts, errors, lag, checkpoints, truncations, restarts and
/// validation.
pub open spec fn delta_health(s: TlogDeltaSignals) -> Seq<Share> {
    let turns = s.llm_turn_inputs as nat + s.llm_turn_outputs as nat;
    seq![
        if s.contiguous_seq {
            whole()
        } else {
            remaining(s.missing_seq_count as nat, s.event_count as nat)
        },
        if s.llm_turn_inputs == 0 {
            whole()
        } else {
            achieved(s.llm_turn_outputs as nat, s.llm_turn_inputs as nat)
        },
        remaining(s.missing_action_results as nat, s.llm_action_outputs as nat),
        remaining(s.unapplied_artifact_writes as nat, s.artifact_write_requests as nat),
        if turns == 0 {
            remaining(s.llm_error_boundaries as nat, 1)
        } else {
            remaining(s.llm_error_boundaries as nat, tally::capped(turns) as nat)
        },
        remaining_at_least_quarter(
            s.actionable_lag_total_ms as nat,
            (if s.event_count == 0 {
                1
            } else {
                s.event_count as nat
            }) * 5_000,
        ),
        remaining_at_least_quarter(s.unsafe_checkpoint_attempts as nat, 4),
        remaining_at_least_quarter(s.prompt_truncations as nat, 4),
        if s.supervisor_restart_requests == 0 {
            whole()
        } else {
            remaining_at_least_quarter(
                s.restart_requests_without_child_start as nat,
                s.supervisor_restart_requests as nat,
            )
        },
        remaining(s.unvalidated_improvement_attempts as nat, s.improvement_attempts as nat),
    ]
}

/// The shares that the health of a window is made from.
pub fn canonical_delta_health_shares(s: &TlogDeltaSignals) -> (r: Vec<Share>)
    ensures
        r@ == delta_health(*s),
{
    let mut out: Vec<Share> = Vec::new();
    let one = Share { num: 1, den: 1 };
    out.push(
        if s.contiguous_seq {
            one
        } else {
            share_remaining(s.missing_seq_count, s.event_count as u64)
        },
    );
    out.push(
        if s.llm_turn_inputs == 0 {
            one
        } else {
            share_achieved(s.llm_turn_outputs as u64, s.llm_turn_inputs as u64)
        },
    );
    out.push(share_remaining(s.missing_action_results as u64, s.llm_action_outputs as u64));
    out.push(share_remaining(s.unapplied_artifact_writes as u64, s.artifact_write_requests as u64));
    let turns: u64 = (s.llm_turn_inputs as u64).saturating_add(s.llm_turn_outputs as u64);
    out.push(
        share_remaining(
            s.llm_error_boundaries as u64,
            if turns == 0 {
                1
            } else {
                turns
            },
        ),
    );
    let events: u128 = if s.event_count == 0 {
        1
    } else {
        s.event_count as u128
    };
    out.push(share_remaining_at_least_quarter(s.actionable_lag_total_ms, events * 5_000));
    out.push(share_remaining_at_least_quarter(s.unsafe_checkpoint_attempts as u64, 4));
    out.push(share_remaining_at_least_quarter(s.prompt_truncations as u64, 4));
    out.push(
        if s.supervisor_restart_requests == 0 {
            one
        } else {
            share_remaining_at_least_quarter(
                s.restart_requests_without_child_start as u64,
                s.supervisor_restart_requests as u128,
            )
        },
    );
    out.push(improvement_validation_score(s));
    assert(out@ =~= delta_health(*s));
    out
}

/// The share of the objectives that are completed; of none at all, the whole.
pub open spec fn objective_share(completed: usize, total: usize) -> Share {
    if total == 0 {
        whole()
    } else {
        Share { num: completed as u128, den: total as u128 }
    }
}

/// The share of the objectives that are completed; of none at all, the whole.
pub fn reward_alignment_score(completed_objectives: usize, total_objectives: usize) -> (r: Share)
    ensures
        r == objective_share(completed_objectives, total_objectives),
{
    if total_objectives == 0 {
        return Share { num: 1, den: 1 };
    }
    Share { num: completed_objectives as u128, den: total_objectives as u128 }
}

/// The share of the tasks that are completed; of none at all, as of one.
pub open spec fn velocity_share(completed: usize, total: usize) -> Share {
    Share {
        num: completed as u128,
        den: if total == 0 {
            1
        } else {
            total as u128
        },
    }
}

/// The share of the tasks that are completed; of none at all, as of one.
pub fn task_velocity_score(completed_tasks: usize, total_tasks: usize) -> (r: Share)
    ensures
        r == velocity_share(completed_tasks, total_tasks),
{
    let den: u128 = if total_tasks == 0 {
        1
    } else {
        total_tasks as u128
    };
    Share { num: completed_tasks as u128, den }
}

/// The share of the open issues whose title stands alone.
pub fn issue_health_score(open_issues: usize, repeated_open_issues: usize) -> (r: Share)
    ensures
        r == remaining(repeated_open_issues as nat, open_issues as nat),
        r.well_formed(),
{
    share_remaining(repeated_open_issues as u64, open_issues as u64)
}

/// How grave a violation is.
#[derive(Debug, Clone, Copy, PartialEq, Eq, Structural)]
pub enum Severity {
    Critical,
    High,
    Medium,
    Low,
}

/// What a violation takes from safety, in tenths.
pub open spec fn severity_tenths(s: Severity) -> nat {
    match s {
        Severity::Critical => 10,
        Severity::High => 6,
        Severity::Medium => 3,
        Severity::Low => 1,
    }
}

/// What violations take from safety, in tenths.
pub open spec fn penalty_tenths(v: Seq<Severity>) -> nat
    decreases v.len(),
{
    if v.len() == 0 {
        0
    } else {
        penalty_tenths(v.drop_last()) + severity_tenths(v.last())
    }
}

proof fn lemma_penalty_grows(v: Seq<Severity>, n: int)
    requires
        0 <= n <= v.len(),
    ensures
        penalty_tenths(v.take(n)) <= penalty_tenths(v),
    decreases v.len() - n,
{
    if n < v.len() {
        lemma_penalty_grows(v, n + 1);
        assert(v.take(n + 1).drop_last() =~= v.take(n));
    } else {
        assert(v.take(n) =~= v);
    }
}

/// What the violations leave of safety.
pub fn safety_score(violations: &Vec<Severity>) -> (r: Share)
    ensures
        r == remaining(penalty_tenths(violations@), 10),
        r.well_formed(),
{
    let mut penalty: u64 = 0;
    let mut i: usize = 0;
    assert(violations@.take(0) =~= Seq::<Severity>::empty());
    while i < violations.len()
        invariant
            i <= violations.len(),
            penalty < 10,
            penalty == penalty_tenths(violations@.take(i as int)),
        decreases violations.len() - i,
    {
        proof {
            assert(violations@.take(i + 1).drop_last() =~= violations@.take(i as int));
            assert(violations@.take(i + 1).last() == violations@[i as int]);
            lemma_penalty_grows(violations@, i + 1);
        }
        penalty = penalty + match violations[i] {
            Severity::Critical => 10,
            Severity::High => 6,
            Severity::Medium => 3,
            Severity::Low => 1,
        };
        if penalty >= 10 {
            return Share { num: 0, den: 10 };
        }
        i += 1;
    }
    assert(violations@.take(i as int) =~= violations@);
    share_remaining(penalty, 10)
}

/// Nothing.
pub open spec fn nothing() -> Share {
    Share { num: 0, den: 1 }
}

/// The share of the functions that have something, none where there are none.
pub fn semantic_rate_from_counts(fn_total: usize, count: usize) -> (r: Share)
    ensures
        r == if fn_total == 0 {
            nothing()
        } else {
            achieved(count as nat, fn_total as nat)
        },
        r.well_formed(),
{
    if fn_total == 0 {
        Share { num: 0, den: 1 }
    } else {
        share_achieved(count as u64, fn_total as u64)
    }
}

/// The share of the functions that are classified, all where there are none.
pub fn semantic_coverage_from_counts(fn_total: usize, classified: usize) -> (r: Share)
    ensures
        r == if fn_total == 0 {
            whole()
        } else {
            achieved(classified as nat, fn_total as nat)
        },
        r.well_formed(),
{
    if fn_total == 0 {
        Share { num: 1, den: 1 }
    } else {
        share_achieved(classified as u64, fn_total as u64)
    }
}

/// How grave the impact of a failure is.
#[derive(Debug, Clone, Copy, PartialEq, Eq, Structural)]
pub enum Impact {
    Critical,
    High,
    Medium,
    Low,
}

/// How many failures are of high or critical impact.
pub open spec fn high_impacts(v: Seq<Impact>) -> nat
    decreases v.len(),
{
    if v.len() == 0 {
        0
    } else {
        high_impacts(v.drop_last()) + if v.last() == Impact::High || v.last()
            == Impact::Critical {
            1nat
        } else {
            0nat
        }
    }
}

/// The share of the failures that are of high or critical impact.
pub open spec fn pressure(failures: Seq<Impact>) -> Share {
    if failures.len() == 0 {
        nothing()
    } else {
        achieved(high_impacts(failures), failures.len())
    }
}

/// The share of the failures that are of high or critical impact.
pub fn diagnostics_repair_pressure(failures: &Vec<Impact>) -> (r: Share)
    ensures
        r == pressure(failures@),
        r.well_formed(),
{
    let mut high: usize = 0;
    let mut i: usize = 0;
    assert(failures@.take(0) =~= Seq::<Impact>::empty());
    while i < failures.len()
        invariant
            i <= failures@.len(),
            high <= i,
            high == high_impacts(failures@.take(i as int)),
        decreases failures@.len() - i,
    {
        proof {
            assert(failures@.take(i + 1).drop_last() =~= failures@.take(i as int));
            assert(failures@.take(i + 1).last() == failures@[i as int]);
        }
        if failures[i] == Impact::High || failures[i] == Impact::Critical {
            high += 1;
        }
        i += 1;
    }
    assert(failures@.take(i as int) =~= failures@);
    semantic_rate_from_counts(failures.len(), high)
}

proof fn lemma_high_impacts(v: Seq<Impact>)
    ensures
        high_impacts(v) <= v.len(),
    decreases v.len(),
{
    if v.len() > 0 {
        lemma_high_impacts(v.drop_last());
    }
}

/// What open issues of high priority weigh at least: one hundredth each, ten at most.
pub open spec fn issue_floor(high_priority_open_issues: usize) -> Share {
    Share {
        num: if high_priority_open_issues < 10 {
            high_priority_open_issues as u128
        } else {
            10
        },
        den: 100,
    }
}

/// Whether one share is at least another.
pub open spec fn at_least(a: Share, b: Share) -> bool {
    a.num * b.den >= b.num * a.den
}

/// The pressure to repair: that of the failures, or what open issues of high priority
/// weigh at least.
pub open spec fn felt_pressure(failures: Seq<Impact>, high_priority_open_issues: usize) -> Share {
    if at_least(pressure(failures), issue_floor(high_priority_open_issues)) {
        pressure(failures)
    } else {
        issue_floor(high_priority_open_issues)
    }
}

/// The pressure to repair.
pub fn diagnostics_repair_pressure_with_issues(
    failures: &Vec<Impact>,
    high_priority_open_issues: usize,
) -> (r: Share)
    ensures
        r == felt_pressure(failures@, high_priority_open_issues),
        r.well_formed(),
{
    let cargo = diagnostics_repair_pressure(failures);
    let count: usize = failures.len();
    let weight: u128 = if high_priority_open_issues < 10 {
        high_priority_open_issues as u128
    } else {
        10
    };
    let floor = Share { num: weight, den: 100 };
    assert(cargo.den == count || cargo.den == 1);
    assert(cargo.num * 100 <= usize::MAX * 100) by (nonlinear_arith)
        requires
            cargo.num <= cargo.den,
            cargo.den <= usize::MAX,
    ;
    assert(weight * cargo.den <= 10 * usize::MAX) by (nonlinear_arith)
        requires
            weight <= 10,
            cargo.den <= usize::MAX,
    ;
    if cargo.num * 100 >= weight * cargo.den {
        cargo
    } else {
        floor
    }
}

/// Open issues of high priority are felt even where nothing fails.
pub proof fn law_high_priority_issues_are_felt(failures: Seq<Impact>, open: usize)
    requires
        open > 0,
        failures.len() == 0,
    ensures
        !at_least(pressure(failures), issue_floor(open)),
        issue_floor(open).num > 0,
{
}

// ---------------------------------------------------------------------------
// Issues and tasks
// ---------------------------------------------------------------------------

/// Issue `i` is open and another open issue has its title.
pub open spec fn repeated(fs: Seq<issues::IssueView>, i: int) -> bool {
    &&& issues::open_issue(fs[i])
    &&& exists|j: int|
        0 <= j < fs.len() && j != i && issues::open_issue(#[trigger] fs[j]) && fs[j].title
            == fs[i].title
}

/// Issue `i` is open and of high or critical priority.
pub open spec fn high_priority(fs: Seq<issues::IssueView>, i: int) -> bool {
    let p = text::lowercase(text::trimmed(fs[i].priority));
    issues::open_issue(fs[i]) && (p == "high"@ || p == "critical"@)
}

fn is_repeated(all: &Vec<Issue>, i: usize) -> (r: bool)
    requires
        i < all@.len(),
    ensures
        r == repeated(issues::findings(all@), i as int),
{
    let ghost fs = issues::findings(all@);
    if !is_open(&all[i]) {
        return false;
    }
    let mut j: usize = 0;
    while j < all.len()
        invariant
            j <= all.len(),
            i < all.len(),
            fs == issues::findings(all@),
            issues::open_issue(fs[i as int]),
            forall|k: int|
                0 <= k < j && k != i ==> !(issues::open_issue(#[trigger] fs[k]) && fs[k].title
                    == fs[i as int].title),
        decreases all.len() - j,
    {
        if j != i && is_open(&all[j]) && same(all[j].title.as_str(), all[i].title.as_str()) {
            assert(issues::open_issue(fs[j as int]));
            return true;
        }
        assert(fs[j as int] == all@[j as int]@);
        j += 1;
    }
    false
}

/// The open issues, those that share their title, and those of high or critical
/// priority.
pub fn load_issue_counts(all: &Vec<Issue>) -> (r: (usize, usize, usize))
    ensures
        ({
            let fs = issues::findings(all@);
            let n = fs.len() as int;
            &&& r.0 == tally::count_below(n, |i: int| issues::open_issue(fs[i]))
            &&& r.1 == tally::count_below(n, |i: int| repeated(fs, i))
            &&& r.2 == tally::count_below(n, |i: int| high_priority(fs, i))
        }),
{
    let ghost fs = issues::findings(all@);
    let mut open: usize = 0;
    let mut repeats: usize = 0;
    let mut high: usize = 0;
    let mut i: usize = 0;
    while i < all.len()
        invariant
            i <= all.len(),
            fs == issues::findings(all@),
            open <= i,
            repeats <= i,
            high <= i,
            open == tally::count_below(i as int, |k: int| issues::open_issue(fs[k])),
            repeats == tally::count_below(i as int, |k: int| repeated(fs, k)),
            high == tally::count_below(i as int, |k: int| high_priority(fs, k)),
        decreases all.len() - i,
    {
        assert(fs[i as int] == all@[i as int]@);
        if is_open(&all[i]) {
            open += 1;
            let trimmed = trim(all[i].priority.as_str());
            let priority = to_lowercase(trimmed.as_str());
            if same(priority.as_str(), "high") || same(priority.as_str(), "critical") {
                high += 1;
            }
        }
        if is_repeated(all, i) {
            repeats += 1;
        }
        i += 1;
    }
    (open, repeats, high)
}

/// A task that is done.
pub open spec fn task_done(task: json::JsonView) -> bool {
    match json::text_field(task, "status"@) {
        Some(s) => s == "done"@ || s == "complete"@ || s == "completed"@,
        None => false,
    }
}

/// The tasks of a plan.
pub open spec fn plan_tasks(plan: json::JsonView) -> Seq<json::JsonView> {
    match json::field(plan, "tasks"@) {
        Some(json::JsonView::Array(tasks)) => tasks,
        _ => Seq::empty(),
    }
}

/// The tasks of a plan that are done, and all of them.
pub fn load_task_counts(plan: &Json) -> (r: (usize, usize))
    ensures
        r.0 == tally::count_below(
            plan_tasks(plan@).len() as int,
            |i: int| task_done(plan_tasks(plan@)[i]),
        ),
        r.1 == plan_tasks(plan@).len(),
{
    let ghost tasks = plan_tasks(plan@);
    match get(plan, "tasks") {
        Some(found) => {
            proof {
                json::lemma_json_view(*found);
            }
            match found {
                Json::Array(items) => {
                    let mut done: usize = 0;
                    let mut i: usize = 0;
                    while i < items.len()
                        invariant
                            i <= items.len(),
                            tasks == plan_tasks(plan@),
                            tasks == json::items_view(items@),
                            done <= i,
                            done == tally::count_below(
                                i as int,
                                |k: int| task_done(plan_tasks(plan@)[k]),
                            ),
                        decreases items.len() - i,
                    {
                        assert(tasks[i as int] == items@[i as int]@);
                        if let Some(status) = get_text(&items[i], "status") {
                            if same(status, "done") || same(status, "complete") || same(
                                status,
                                "completed",
                            ) {
                                done += 1;
                            }
                        }
                        i += 1;
                    }
                    (done, items.len())
                },
                _ => (0, 0),
            }
        },
        None => (0, 0),
    }
}

/// The tasks that are done and all of them, in the text of a plan. What is no JSON has
/// none.
pub fn task_counts_in(raw: &str) -> (r: (usize, usize))
    ensures
        match json_text::read(raw@) {
            Some(v) => {
                &&& r.0 == tally::count_below(
                    plan_tasks(v).len() as int,
                    |i: int| task_done(plan_tasks(v)[i]),
                )
                &&& r.1 == plan_tasks(v).len()
            },
            None => r == (0usize, 0usize),
        },
{
    match parse_json(raw) {
        Some(plan) => load_task_counts(&plan),
        None => (0, 0),
    }
}

// ---------------------------------------------------------------------------
// Structural invariants
// ---------------------------------------------------------------------------

/// A structural risk that the program graph can show and an invariant can cover.
#[derive(Debug, Clone, Copy, PartialEq, Eq, Structural)]
pub enum StructuralRisk {
    PlanMutation,
    TlogAuthority,
    PatchVerification,
    CheckpointGate,
    IssuesProjection,
    ExecutorWake,
}

/// The risks, in the order in which they are reported.
pub open spec fn risk_catalog() -> Seq<StructuralRisk> {
    seq![
        StructuralRisk::PlanMutation,
        StructuralRisk::TlogAuthority,
        StructuralRisk::PatchVerification,
        StructuralRisk::CheckpointGate,
        StructuralRisk::IssuesProjection,
        StructuralRisk::ExecutorWake,
    ]
}

/// The name under which a missing invariant is reported.
pub open spec fn risk_name(risk: StructuralRisk) -> Seq<char> {
    match risk {
        StructuralRisk::PlanMutation => "plan_mutation_goes_through_plan_tool"@,
        StructuralRisk::TlogAuthority => "canonical_writer_single_tlog_authority"@,
        StructuralRisk::PatchVerification => "patch_requires_verification_gate"@,
        StructuralRisk::CheckpointGate => "checkpoint_commit_requires_verified_gate_if_rust_changed"@,
        StructuralRisk::IssuesProjection => "issues_projection_only"@,
        StructuralRisk::ExecutorWake => "executor_wake_requires_claimable_lane"@,
    }
}

/// The graph, in lower case, shows the risk.
pub open spec fn graph_shows(risk: StructuralRisk, g: Seq<char>) -> bool {
    match risk {
        StructuralRisk::PlanMutation => {
            &&& text::has_text(g, "plan.json"@)
            &&& text::has_text(g, "master_plan_file"@)
        },
        StructuralRisk::TlogAuthority => {
            &&& text::has_text(g, "tlog::tlog::append"@)
            &&& text::has_text(g, "canonicalwriter"@)
        },
        StructuralRisk::PatchVerification => {
            &&& text::has_text(g, "apply_patch"@)
            &&& text::has_text(g, "cargo_test"@)
        },
        StructuralRisk::CheckpointGate => {
            &&& text::has_text(g, "checkpoint_build_succeeded"@)
            &&& text::has_text(g, "git commit"@)
            &&& text::has_text(g, "rust_patch_verification"@)
        },
        StructuralRisk::IssuesProjection => {
            &&& text::has_text(g, "issues.json"@)
            &&& text::has_text(g, "persist_issues_projection"@)
        },
        StructuralRisk::ExecutorWake => {
            &&& text::has_text(g, "wake_signal"@)
            &&& text::has_text(g, "lane_in_progress"@)
        },
    }
}

/// The invariants, in lower case, cover the risk.
pub open spec fn invariants_cover(risk: StructuralRisk, t: Seq<char>) -> bool {
    match risk {
        StructuralRisk::PlanMutation => {
            &&& text::has_text(t, "plan"@)
            &&& text::has_text(t, "plan tool"@)
        },
        StructuralRisk::TlogAuthority => {
            &&& text::has_text(t, "canonical writer"@)
            &&& text::has_text(t, "single authority"@)
            &&& text::has_text(t, "tlog"@)
        },
        StructuralRisk::PatchVerification => {
            &&& text::has_text(t, "patch"@)
            &&& text::has_text(t, "cargo"@)
            &&& text::has_text(t, "test"@)
            &&& text::has_text(t, "verification"@)
        },
        StructuralRisk::CheckpointGate => {
            &&& text::has_text(t, "checkpoint"@)
            &&& text::has_text(t, "commit"@)
            &&& text::has_text(t, "rust"@)
            &&& text::has_text(t, "cargo"@)
            &&& text::has_text(t, "verification"@)
        },
        StructuralRisk::IssuesProjection => {
            &&& text::has_text(t, "issues"@)
            &&& text::has_text(t, "projection"@)
        },
        StructuralRisk::ExecutorWake => {
            &&& text::has_text(t, "executor"@)
            &&& text::has_text(t, "wake"@)
            &&& text::has_text(t, "lane"@)
        },
    }
}

/// The names of the first `n` risks that the graph shows and no invariant covers.
pub open spec fn missing_names(g: Seq<char>, t: Seq<char>, n: int) -> Seq<Seq<char>>
    decreases n,
{
    if n <= 0 {
        Seq::empty()
    } else {
        let before = missing_names(g, t, n - 1);
        let risk = risk_catalog()[n - 1];
        if graph_shows(risk, g) && !invariants_cover(risk, t) {
            before.push(risk_name(risk))
        } else {
            before
        }
    }
}

/// Structural risks and the invariants that cover them.
#[derive(Debug)]
pub struct StructuralInvariantCoverage {
    pub graph_risk_count: usize,
    pub invariant_covered_count: usize,
    pub missing_invariant_count: usize,
    pub missing: Vec<String>,
}

/// The share of the shown risks that are covered; of none, the whole.
pub open spec fn covered_share(c: StructuralInvariantCoverage) -> Share {
    if c.graph_risk_count == 0 {
        whole()
    } else {
        Share { num: c.invariant_covered_count as u128, den: c.graph_risk_count as u128 }
    }
}

impl StructuralInvariantCoverage {
    /// The coverage that the graph `g` and the invariants `t` show.
    pub open spec fn of(self, g: Seq<char>, t: Seq<char>) -> bool {
        let n = risk_catalog().len() as int;
        &&& self.graph_risk_count == tally::count_below(
            n,
            |i: int| graph_shows(risk_catalog()[i], g),
        )
        &&& self.invariant_covered_count == tally::count_below(
            n,
            |i: int|
                graph_shows(risk_catalog()[i], g) && invariants_cover(risk_catalog()[i], t),
        )
        &&& self.missing_invariant_count == self.missing@.len()
        &&& text::texts(self.missing@) == missing_names(g, t, n)
    }

    /// The other coverage has the same counts and misses the same invariants.
    pub open spec fn same_as(self, other: StructuralInvariantCoverage) -> bool {
        &&& self.graph_risk_count == other.graph_risk_count
        &&& self.invariant_covered_count == other.invariant_covered_count
        &&& self.missing_invariant_count == other.missing_invariant_count
        &&& text::texts(self.missing@) == text::texts(other.missing@)
    }

    /// The coverage once more.
    pub fn copy(&self) -> (r: StructuralInvariantCoverage)
        ensures
            r.same_as(*self),
    {
        StructuralInvariantCoverage {
            graph_risk_count: self.graph_risk_count,
            invariant_covered_count: self.invariant_covered_count,
            missing_invariant_count: self.missing_invariant_count,
            missing: text::copy_texts(&self.missing),
        }
    }

    /// The share of the shown risks that are covered; of none, the whole.
    pub fn score(&self) -> (r: Share)
        ensures
            r == covered_share(*self),
    {
        if self.graph_risk_count == 0 {
            Share { num: 1, den: 1 }
        } else {
            Share {
                num: self.invariant_covered_count as u128,
                den: self.graph_risk_count as u128,
            }
        }
    }
}

/// Every shown risk is covered or missing.
pub proof fn law_risks_are_covered_or_missing(g: Seq<char>, t: Seq<char>, n: int)
    ensures
        tally::count_below(n, |i: int| graph_shows(risk_catalog()[i], g)) == tally::count_below(
            n,
            |i: int|
                graph_shows(risk_catalog()[i], g) && invariants_cover(risk_catalog()[i], t),
        ) + missing_names(g, t, n).len(),
    decreases n,
{
    if n > 0 {
        law_risks_are_covered_or_missing(g, t, n - 1);
    }
}

fn structural_risk_catalog() -> (r: Vec<StructuralRisk>)
    ensures
        r@ == risk_catalog(),
{
    let r = vec![
        StructuralRisk::PlanMutation,
        StructuralRisk::TlogAuthority,
        StructuralRisk::PatchVerification,
        StructuralRisk::CheckpointGate,
        StructuralRisk::IssuesProjection,
        StructuralRisk::ExecutorWake,
    ];
    assert(r@ =~= risk_catalog());
    r
}

fn structural_risk_name(risk: StructuralRisk) -> (r: &'static str)
    ensures
        r@ == risk_name(risk),
{
    match risk {
        StructuralRisk::PlanMutation => "plan_mutation_goes_through_plan_tool",
        StructuralRisk::TlogAuthority => "canonical_writer_single_tlog_authority",
        StructuralRisk::PatchVerification => "patch_requires_verification_gate",
        StructuralRisk::CheckpointGate => "checkpoint_commit_requires_verified_gate_if_rust_changed",
        StructuralRisk::IssuesProjection => "issues_projection_only",
        StructuralRisk::ExecutorWake => "executor_wake_requires_claimable_lane",
    }
}

fn graph_text_shows_risk(risk: StructuralRisk, g: &str) -> (r: bool)
    ensures
        r == graph_shows(risk, g@),
{
    match risk {
        StructuralRisk::PlanMutation => contains(g, "plan.json") && contains(g, "master_plan_file"),
        StructuralRisk::TlogAuthority => contains(g, "tlog::tlog::append") && contains(g, "canonicalwriter"),
        StructuralRisk::PatchVerification => contains(g, "apply_patch") && contains(g, "cargo_test"),
        StructuralRisk::CheckpointGate => contains(g, "checkpoint_build_succeeded") && contains(g, "git commit") && contains(g, "rust_patch_verification"),
        StructuralRisk::IssuesProjection => contains(g, "issues.json") && contains(g, "persist_issues_projection"),
        StructuralRisk::ExecutorWake => contains(g, "wake_signal") && contains(g, "lane_in_progress"),
    }
}

fn invariant_text_covers_risk(risk: StructuralRisk, t: &str) -> (r: bool)
    ensures
        r == invariants_cover(risk, t@),
{
    match risk {
        StructuralRisk::PlanMutation => contains(t, "plan") && contains(t, "plan tool"),
        StructuralRisk::TlogAuthority => contains(t, "canonical writer") && contains(t, "single authority") && contains(t, "tlog"),
        StructuralRisk::PatchVerification => contains(t, "patch") && contains(t, "cargo") && contains(t, "test") && contains(t, "verification"),
        StructuralRisk::CheckpointGate => contains(t, "checkpoint") && contains(t, "commit") && contains(t, "rust") && contains(t, "cargo") && contains(t, "verification"),
        StructuralRisk::IssuesProjection => contains(t, "issues") && contains(t, "projection"),
        StructuralRisk::ExecutorWake => contains(t, "executor") && contains(t, "wake") && contains(t, "lane"),
    }
}

/// Which structural risks the graph shows and which of them the invariants cover.
pub fn structural_invariant_coverage_from_text(
    graph_text: &str,
    invariant_text: &str,
) -> (r: StructuralInvariantCoverage)
    ensures
        r.of(text::lower_ascii(graph_text@), text::lower_ascii(invariant_text@)),
{
    let graph = to_ascii_lower(graph_text);
    let invariants = to_ascii_lower(invariant_text);
    let ghost g = graph@;
    let ghost t = invariants@;
    let catalog = structural_risk_catalog();
    let mut shown: usize = 0;
    let mut covered: usize = 0;
    let mut missing: Vec<String> = Vec::new();
    let mut i: usize = 0;
    assert(text::texts(missing@) =~= Seq::<Seq<char>>::empty());
    while i < catalog.len()
        invariant
            i <= catalog.len(),
            catalog@ == risk_catalog(),
            g == graph@,
            t == invariants@,
            shown <= i,
            covered <= i,
            shown == tally::count_below(i as int, |k: int| graph_shows(risk_catalog()[k], g)),
            covered == tally::count_below(
                i as int,
                |k: int|
                    graph_shows(risk_catalog()[k], g) && invariants_cover(risk_catalog()[k], t),
            ),
            text::texts(missing@) == missing_names(g, t, i as int),
        decreases catalog.len() - i,
    {
        let risk = catalog[i];
        if graph_text_shows_risk(risk, graph.as_str()) {
            shown += 1;
            if invariant_text_covers_risk(risk, invariants.as_str()) {
                covered += 1;
            } else {
                let ghost before = text::texts(missing@);
                let name = structural_risk_name(risk);
                missing.push(name.to_owned());
                assert(text::texts(missing@) =~= before.push(name@));
            }
        }
        i += 1;
    }
    StructuralInvariantCoverage {
        graph_risk_count: shown,
        invariant_covered_count: covered,
        missing_invariant_count: missing.len(),
        missing,
    }
}

// ---------------------------------------------------------------------------
// Enforcement
// ---------------------------------------------------------------------------

/// Actionable lag above this is worth a warning.
pub const EVAL_MAX_ACTIONABLE_LAG_TOTAL_MS: u64 = 300_000;

/// The rates of an evaluation, each written with four digits behind the point.
#[derive(Debug)]
pub struct EvalTexts {
    pub error_rate: String,
    pub totalization_coverage: String,
    pub intent_coverage: String,
    pub low_confidence_rate: String,
    pub semantic_contract: String,
    pub repair_pressure: String,
}

/// All that an evaluation is made from.
#[derive(Debug)]
pub struct EvalInput {
    pub objectives_completed: usize,
    pub objectives_total: usize,
    pub completed_tasks: usize,
    pub total_tasks: usize,
    pub open_issues: usize,
    pub repeated_open_issues: usize,
    /// Open issues of high or critical priority.
    pub high_priority_open_issues: usize,
    /// How grave each violation is.
    pub violations: Vec<Severity>,
    /// The impact of each ranked failure.
    pub failures: Vec<Impact>,
    pub semantic_fn_total: usize,
    pub semantic_fn_with_any_error: usize,
    pub semantic_fn_intent_classified: usize,
    pub semantic_fn_low_confidence: usize,
    /// The coverage by meaningful intents is below three quarters.
    pub intent_coverage_low: bool,
    pub structural_invariant_coverage: StructuralInvariantCoverage,
    pub tlog_delta_signals: TlogDeltaSignals,
    pub texts: EvalTexts,
}

/// What an evaluation enforces: it passes where nothing is violated.
#[derive(Debug)]
pub struct EvalEnforcement {
    pub passed: bool,
    pub violation_count: usize,
    pub violations: Vec<String>,
    pub warning_count: usize,
    pub warnings: Vec<String>,
}

/// The functions with an intent, classified or of low confidence.
pub open spec fn totalized(input: EvalInput) -> nat {
    let n = tally::capped_count(
        (input.semantic_fn_intent_classified + input.semantic_fn_low_confidence) as nat,
    );
    if n <= input.semantic_fn_total {
        n as nat
    } else {
        input.semantic_fn_total as nat
    }
}

/// More than a quarter of the functions is of low confidence.
pub open spec fn low_confidence_high(input: EvalInput) -> bool {
    let n = if input.semantic_fn_low_confidence <= input.semantic_fn_total {
        input.semantic_fn_low_confidence
    } else {
        input.semantic_fn_total
    };
    4 * n > input.semantic_fn_total
}

/// The lesser of two counts.
pub open spec fn at_most(count: usize, total: usize) -> int {
    if count <= total {
        count as int
    } else {
        total as int
    }
}

/// The score of the semantic contract is below one half: the product of the shares of
/// functions without an error, with an intent and not of low confidence, as an exact
/// number. A score in floating point that rounds near one half may fall on its other side.
pub open spec fn semantic_contract_low(input: EvalInput) -> bool {
    let total = input.semantic_fn_total as int;
    let sound = total - at_most(input.semantic_fn_with_any_error, input.semantic_fn_total);
    let meant = at_most(input.semantic_fn_intent_classified, input.semantic_fn_total);
    let sure = total - at_most(input.semantic_fn_low_confidence, input.semantic_fn_total);
    total > 0 && 2 * (sound * meant * sure) < total * total * total
}

/// A failure of high impact or an issue of high priority is open.
pub open spec fn repair_pressure_felt(input: EvalInput) -> bool {
    high_impacts(input.failures@) > 0 || input.high_priority_open_issues > 0
}

/// What is violated.
pub open spec fn violation_texts(input: EvalInput) -> Seq<Seq<char>> {
    let s0 = Seq::<Seq<char>>::empty();
    let s1 = text::with_text_if(
        s0,
        input.semantic_fn_total > 0 && input.semantic_fn_with_any_error > 0,
        "semantic_errors="@ + text::dec(input.semantic_fn_with_any_error as nat) + "/"@ + text::dec(input.semantic_fn_total as nat) + " rate="@ + input.texts.error_rate@ + " > 0.0000"@,
    );
    let s2 = text::with_text_if(
        s1,
        input.semantic_fn_total > 0 && totalized(input) < input.semantic_fn_total,
        "intent_totalization="@ + text::dec(totalized(input)) + "/"@ + text::dec(input.semantic_fn_total as nat) + " coverage="@ + input.texts.totalization_coverage@ + " < 1.0000"@,
    );
    let s3 = text::with_text_if(
        s2,
        input.tlog_delta_signals.unsafe_checkpoint_attempts > 0,
        "unsafe_checkpoint_attempts="@ + text::dec(input.tlog_delta_signals.unsafe_checkpoint_attempts as nat),
    );
    let s4 = text::with_text_if(
        s3,
        input.tlog_delta_signals.unvalidated_improvement_attempts > 0,
        "unvalidated_improvement_attempts="@ + text::dec(input.tlog_delta_signals.unvalidated_improvement_attempts as nat) + "/"@ + text::dec(input.tlog_delta_signals.improvement_attempts as nat),
    );
    s4
}

/// What is worth a warning.
pub open spec fn warning_texts(input: EvalInput) -> Seq<Seq<char>> {
    let s0 = Seq::<Seq<char>>::empty();
    let s1 = text::with_text_if(
        s0,
        input.tlog_delta_signals.actionable_lag_total_ms > EVAL_MAX_ACTIONABLE_LAG_TOTAL_MS,
        "actionable_lag_total_ms="@ + text::dec(input.tlog_delta_signals.actionable_lag_total_ms as nat) + " > 300000"@,
    );
    let s2 = text::with_text_if(
        s1,
        input.tlog_delta_signals.prompt_truncations > 0,
        "prompt_truncations="@ + text::dec(input.tlog_delta_signals.prompt_truncations as nat) + " > 0 dropped_bytes="@ + text::dec(input.tlog_delta_signals.prompt_truncation_dropped_bytes as nat),
    );
    let s3 = text::with_text_if(
        s2,
        input.tlog_delta_signals.missing_action_results > 0,
        "missing_action_results="@ + text::dec(input.tlog_delta_signals.missing_action_results as nat) + "/"@ + text::dec(input.tlog_delta_signals.llm_action_outputs as nat),
    );
    let s4 = text::with_text_if(
        s3,
        input.tlog_delta_signals.unmeasured_improvement_attempts > 0,
        "unmeasured_improvement_attempts="@ + text::dec(input.tlog_delta_signals.unmeasured_improvement_attempts as nat) + "/"@ + text::dec(input.tlog_delta_signals.improvement_attempts as nat),
    );
    let s5 = text::with_text_if(
        s4,
        input.tlog_delta_signals.regressed_improvement_attempts > 0,
        "regressed_improvement_attempts="@ + text::dec(input.tlog_delta_signals.regressed_improvement_attempts as nat) + "/"@ + text::dec(input.tlog_delta_signals.measured_improvement_attempts as nat),
    );
    let s6 = text::with_text_if(
        s5,
        input.semantic_fn_total > 0 && input.intent_coverage_low,
        "meaningful_intent_coverage="@ + input.texts.intent_coverage@ + " < 0.7500"@,
    );
    let s7 = text::with_text_if(
        s6,
        input.semantic_fn_total > 0 && low_confidence_high(input),
        "low_confidence_rate="@ + input.texts.low_confidence_rate@ + " > 0.2500"@,
    );
    let s8 = text::with_text_if(
        s7,
        semantic_contract_low(input),
        "semantic_contract="@ + input.texts.semantic_contract@ + " < 0.5000"@,
    );
    let s9 = text::with_text_if(
        s8,
        repair_pressure_felt(input),
        "diagnostics_repair_pressure="@ + input.texts.repair_pressure@,
    );
    s9
}

fn totalized_count(input: &EvalInput) -> (r: usize)
    ensures
        r == totalized(*input),
{
    let n: usize = input.semantic_fn_intent_classified.saturating_add(
        input.semantic_fn_low_confidence,
    );
    if n <= input.semantic_fn_total {
        n
    } else {
        input.semantic_fn_total
    }
}

fn is_low_confidence_high(input: &EvalInput) -> (r: bool)
    ensures
        r == low_confidence_high(*input),
{
    let n: usize = if input.semantic_fn_low_confidence <= input.semantic_fn_total {
        input.semantic_fn_low_confidence
    } else {
        input.semantic_fn_total
    };
    4 * (n as u128) > input.semantic_fn_total as u128
}

/// A product, as what it holds of 2^64 and the rest.
fn wide_product(p: u128, c: u64) -> (r: (u128, u64))
    ensures
        r.0 * 0x1_0000_0000_0000_0000 + r.1 == p * c,
{
    let high: u128 = p / 0x1_0000_0000_0000_0000;
    let low: u128 = p % 0x1_0000_0000_0000_0000;
    let c: u128 = c as u128;
    assert(high * c <= 0xffff_ffff_ffff_ffff * 0xffff_ffff_ffff_ffff) by (nonlinear_arith)
        requires
            high <= 0xffff_ffff_ffff_ffff,
            c <= 0xffff_ffff_ffff_ffff,
    ;
    assert(low * c <= 0xffff_ffff_ffff_ffff * 0xffff_ffff_ffff_ffff) by (nonlinear_arith)
        requires
            low <= 0xffff_ffff_ffff_ffff,
            c <= 0xffff_ffff_ffff_ffff,
    ;
    let less: u128 = low * c;
    let more: u128 = high * c;
    assert(p * c == more * 0x1_0000_0000_0000_0000 + less) by (nonlinear_arith)
        requires
            p == high * 0x1_0000_0000_0000_0000 + low,
            more == high * c,
            less == low * c,
    ;
    let carried: u128 = less / 0x1_0000_0000_0000_0000;
    let rest: u64 = (less % 0x1_0000_0000_0000_0000) as u64;
    (more + carried, rest)
}

/// Twice a product is less than another.
fn twice_is_less(p: u128, c: u64, q: u128, d: u64) -> (r: bool)
    ensures
        r == (2 * (p * c) < q * d),
{
    let (x, rest_x) = wide_product(p, c);
    let (y, rest_y) = wide_product(q, d);
    if x > u128::MAX / 2 {
        return false;
    }
    let twice: u128 = 2 * (rest_x as u128);
    let carried: u128 = twice / 0x1_0000_0000_0000_0000;
    let rest: u128 = twice % 0x1_0000_0000_0000_0000;
    let double: u128 = 2 * x + carried;
    double < y || (double == y && rest < rest_y as u128)
}

fn count_at_most(count: usize, total: usize) -> (r: usize)
    ensures
        r == at_most(count, total),
{
    if count <= total {
        count
    } else {
        total
    }
}

fn is_semantic_contract_low(input: &EvalInput) -> (r: bool)
    ensures
        r == semantic_contract_low(*input),
{
    let total: usize = input.semantic_fn_total;
    let errors: usize = count_at_most(input.semantic_fn_with_any_error, total);
    let unsure: usize = count_at_most(input.semantic_fn_low_confidence, total);
    let sound: u128 = (total - errors) as u128;
    let meant: u128 = count_at_most(input.semantic_fn_intent_classified, total) as u128;
    let sure: u64 = (total - unsure) as u64;
    let all: u128 = total as u128;
    assert(sound * meant <= 0xffff_ffff_ffff_ffff * 0xffff_ffff_ffff_ffff) by (nonlinear_arith)
        requires
            sound <= 0xffff_ffff_ffff_ffff,
            meant <= 0xffff_ffff_ffff_ffff,
    ;
    assert(all * all <= 0xffff_ffff_ffff_ffff * 0xffff_ffff_ffff_ffff) by (nonlinear_arith)
        requires
            all <= 0xffff_ffff_ffff_ffff,
    ;
    total > 0 && twice_is_less(sound * meant, sure, all * all, total as u64)
}

fn is_repair_pressure_felt(input: &EvalInput) -> (r: bool)
    ensures
        r == repair_pressure_felt(*input),
{
    let count: usize = input.failures.len();
    proof {
        lemma_high_impacts(input.failures@);
    }
    diagnostics_repair_pressure(&input.failures).num > 0 || input.high_priority_open_issues > 0
}

fn push_text(out: &mut Vec<String>, t: String)
    ensures
        text::texts(final(out)@) == text::texts(old(out)@).push(t@),
{
    out.push(t);
    assert(text::texts(out@) =~= text::texts(old(out)@).push(t@));
}

fn eval_threshold_violations(input: &EvalInput) -> (r: Vec<String>)
    ensures
        text::texts(r@) == violation_texts(*input),
{
    let mut out: Vec<String> = Vec::new();
    let totalized: usize = totalized_count(input);
    assert(text::texts(out@) =~= Seq::<Seq<char>>::empty());
    if input.semantic_fn_total > 0 && input.semantic_fn_with_any_error > 0 {
        let mut t = "semantic_errors=".to_owned();
        t.append(count_text(input.semantic_fn_with_any_error).as_str());
        t.append("/");
        t.append(count_text(input.semantic_fn_total).as_str());
        t.append(" rate=");
        t.append(input.texts.error_rate.as_str());
        t.append(" > 0.0000");
        push_text(&mut out, t);
    }
    if input.semantic_fn_total > 0 && totalized < input.semantic_fn_total {
        let mut t = "intent_totalization=".to_owned();
        t.append(count_text(totalized).as_str());
        t.append("/");
        t.append(count_text(input.semantic_fn_total).as_str());
        t.append(" coverage=");
        t.append(input.texts.totalization_coverage.as_str());
        t.append(" < 1.0000");
        push_text(&mut out, t);
    }
    if input.tlog_delta_signals.unsafe_checkpoint_attempts > 0 {
        let mut t = "unsafe_checkpoint_attempts=".to_owned();
        t.append(count_text(input.tlog_delta_signals.unsafe_checkpoint_attempts).as_str());
        push_text(&mut out, t);
    }
    if input.tlog_delta_signals.unvalidated_improvement_attempts > 0 {
        let mut t = "unvalidated_improvement_attempts=".to_owned();
        t.append(count_text(input.tlog_delta_signals.unvalidated_improvement_attempts).as_str());
        t.append("/");
        t.append(count_text(input.tlog_delta_signals.improvement_attempts).as_str());
        push_text(&mut out, t);
    }
    out
}

fn eval_threshold_warnings(input: &EvalInput) -> (r: Vec<String>)
    ensures
        text::texts(r@) == warning_texts(*input),
{
    let mut out: Vec<String> = Vec::new();
    assert(text::texts(out@) =~= Seq::<Seq<char>>::empty());
    if input.tlog_delta_signals.actionable_lag_total_ms > EVAL_MAX_ACTIONABLE_LAG_TOTAL_MS {
        let mut t = "actionable_lag_total_ms=".to_owned();
        t.append(decimal(input.tlog_delta_signals.actionable_lag_total_ms).as_str());
        t.append(" > 300000");
        push_text(&mut out, t);
    }
    if input.tlog_delta_signals.prompt_truncations > 0 {
        let mut t = "prompt_truncations=".to_owned();
        t.append(count_text(input.tlog_delta_signals.prompt_truncations).as_str());
        t.append(" > 0 dropped_bytes=");
        t.append(decimal(input.tlog_delta_signals.prompt_truncation_dropped_bytes).as_str());
        push_text(&mut out, t);
    }
    if input.tlog_delta_signals.missing_action_results > 0 {
        let mut t = "missing_action_results=".to_owned();
        t.append(count_text(input.tlog_delta_signals.missing_action_results).as_str());
        t.append("/");
        t.append(count_text(input.tlog_delta_signals.llm_action_outputs).as_str());
        push_text(&mut out, t);
    }
    if input.tlog_delta_signals.unmeasured_improvement_attempts > 0 {
        let mut t = "unmeasured_improvement_attempts=".to_owned();
        t.append(count_text(input.tlog_delta_signals.unmeasured_improvement_attempts).as_str());
        t.append("/");
        t.append(count_text(input.tlog_delta_signals.improvement_attempts).as_str());
        push_text(&mut out, t);
    }
    if input.tlog_delta_signals.regressed_improvement_attempts > 0 {
        let mut t = "regressed_improvement_attempts=".to_owned();
        t.append(count_text(input.tlog_delta_signals.regressed_improvement_attempts).as_str());
        t.append("/");
        t.append(count_text(input.tlog_delta_signals.measured_improvement_attempts).as_str());
        push_text(&mut out, t);
    }
    if input.semantic_fn_total > 0 && input.intent_coverage_low {
        let mut t = "meaningful_intent_coverage=".to_owned();
        t.append(input.texts.intent_coverage.as_str());
        t.append(" < 0.7500");
        push_text(&mut out, t);
    }
    if input.semantic_fn_total > 0 && is_low_confidence_high(input) {
        let mut t = "low_confidence_rate=".to_owned();
        t.append(input.texts.low_confidence_rate.as_str());
        t.append(" > 0.2500");
        push_text(&mut out, t);
    }
    if is_semantic_contract_low(input) {
        let mut t = "semantic_contract=".to_owned();
        t.append(input.texts.semantic_contract.as_str());
        t.append(" < 0.5000");
        push_text(&mut out, t);
    }
    if is_repair_pressure_felt(input) {
        let mut t = "diagnostics_repair_pressure=".to_owned();
        t.append(input.texts.repair_pressure.as_str());
        push_text(&mut out, t);
    }
    out
}

impl EvalEnforcement {
    /// The violations and warnings of `input`, with their numbers.
    pub open spec fn of(self, input: EvalInput) -> bool {
        &&& text::texts(self.violations@) == violation_texts(input)
        &&& text::texts(self.warnings@) == warning_texts(input)
        &&& self.violation_count == self.violations@.len()
        &&& self.warning_count == self.warnings@.len()
        &&& self.passed == (violation_texts(input).len() == 0)
    }
}

/// Holds an evaluation against its thresholds.
pub fn enforce_eval_thresholds(input: &EvalInput) -> (r: EvalEnforcement)
    ensures
        r.of(*input),
{
    let violations = eval_threshold_violations(input);
    let warnings = eval_threshold_warnings(input);
    assert(text::texts(violations@).len() == violations@.len());
    EvalEnforcement {
        passed: violations.len() == 0,
        violation_count: violations.len(),
        violations,
        warning_count: warnings.len(),
        warnings,
    }
}

/// The scores of a repository, each between nothing and everything.
#[derive(Debug)]
pub struct EvaluationVector {
    pub objective_progress: Share,
    pub safety: Share,
    pub task_velocity: Share,
    pub issue_health: Share,
    /// The shares whose product is the score.
    pub semantic_contract: Vec<Share>,
    pub structural_invariant_coverage: Share,
    /// The shares that the score is made from.
    pub canonical_delta_health: Vec<Share>,
    pub improvement_measurement: Share,
    pub improvement_validation: Share,
    pub improvement_effectiveness: Share,
    pub recovery_effectiveness: Share,
}

/// A score that is no more than everything.
pub open spec fn clamped(s: Share) -> Share {
    if s.num > s.den {
        Share { num: s.den, den: s.den }
    } else {
        s
    }
}

fn clamp(s: Share) -> (r: Share)
    ensures
        r == clamped(s),
{
    if s.num > s.den {
        Share { num: s.den, den: s.den }
    } else {
        s
    }
}

/// The scores that follow from the counts of a repository, beside those that are
/// given; what is given as one share is at most everything.
pub fn evaluate_repo_state(
    objectives_completed: usize,
    objectives_total: usize,
    violations: &Vec<Severity>,
    completed_tasks: usize,
    total_tasks: usize,
    open_issues: usize,
    repeated_open_issues: usize,
    semantic_contract: Vec<Share>,
    structural_invariant_coverage_score: Share,
    canonical_delta_health: Vec<Share>,
    improvement_measurement_score: Share,
    improvement_validation_score: Share,
    improvement_effectiveness_score: Share,
    recovery_effectiveness_score: Share,
) -> (r: EvaluationVector)
    ensures
        r.objective_progress == objective_share(objectives_completed, objectives_total),
        r.safety == remaining(penalty_tenths(violations@), 10),
        r.safety.well_formed(),
        r.task_velocity == velocity_share(completed_tasks, total_tasks),
        r.issue_health == remaining(repeated_open_issues as nat, open_issues as nat),
        r.semantic_contract == semantic_contract,
        r.structural_invariant_coverage == clamped(structural_invariant_coverage_score),
        r.canonical_delta_health == canonical_delta_health,
        r.improvement_measurement == clamped(improvement_measurement_score),
        r.improvement_validation == clamped(improvement_validation_score),
        r.improvement_effectiveness == clamped(improvement_effectiveness_score),
        r.recovery_effectiveness == clamped(recovery_effectiveness_score),
{
    EvaluationVector {
        objective_progress: reward_alignment_score(objectives_completed, objectives_total),
        safety: safety_score(violations),
        task_velocity: task_velocity_score(completed_tasks, total_tasks),
        issue_health: issue_health_score(open_issues, repeated_open_issues),
        semantic_contract,
        structural_invariant_coverage: clamp(structural_invariant_coverage_score),
        canonical_delta_health,
        improvement_measurement: clamp(improvement_measurement_score),
        improvement_validation: clamp(improvement_validation_score),
        improvement_effectiveness: clamp(improvement_effectiveness_score),
        recovery_effectiveness: clamp(recovery_effectiveness_score),
    }
}

/// What a share leaves of everything.
pub open spec fn rest_of(s: Share) -> Share {
    Share { num: (s.den - s.num) as u128, den: s.den }
}

/// The shares whose product is the score of the semantic contract: the functions
/// without an error, those with an intent, and those that are not of low confidence.
pub open spec fn contract_shares(total: usize, errors: usize, classified: usize, low: usize) -> Seq<
    Share,
> {
    seq![rest_of(rate(total, errors)), coverage(total, classified), rest_of(rate(total, low))]
}

fn semantic_contract_shares(error_rate: Share, intent_coverage: Share, low_rate: Share) -> (r: Vec<
    Share,
>)
    requires
        error_rate.well_formed(),
        low_rate.well_formed(),
    ensures
        r@ == seq![rest_of(error_rate), intent_coverage, rest_of(low_rate)],
{
    let mut out: Vec<Share> = Vec::new();
    out.push(Share { num: error_rate.den - error_rate.num, den: error_rate.den });
    out.push(intent_coverage);
    out.push(Share { num: low_rate.den - low_rate.num, den: low_rate.den });
    assert(out@ =~= seq![rest_of(error_rate), intent_coverage, rest_of(low_rate)]);
    out
}

/// The counts of an evaluation, its scores and what it enforces.
#[derive(Debug)]
pub struct EvaluationWorkspaceSnapshot {
    pub objectives_completed: usize,
    pub objectives_total: usize,
    pub completed_tasks: usize,
    pub total_tasks: usize,
    pub open_issues: usize,
    pub repeated_open_issues: usize,
    pub semantic_fn_total: usize,
    pub semantic_fn_with_any_error: usize,
    pub semantic_fn_intent_classified: usize,
    pub semantic_fn_low_confidence: usize,
    pub vector: EvaluationVector,
    pub diagnostics_repair_pressure: Share,
    pub semantic_fn_error_rate: Share,
    pub semantic_fn_intent_coverage: Share,
    pub semantic_fn_totalized: usize,
    pub semantic_fn_totalization_coverage: Share,
    pub semantic_fn_low_confidence_rate: Share,
    pub structural_invariant_coverage: StructuralInvariantCoverage,
    pub tlog_delta_signals: TlogDeltaSignals,
    pub eval_enforcement: EvalEnforcement,
    /// What violations take from the overall score.
    pub enforcement_penalty: Share,
}

/// The share of functions that have something, none where there are none.
pub open spec fn rate(total: usize, count: usize) -> Share {
    if total == 0 {
        nothing()
    } else {
        achieved(count as nat, total as nat)
    }
}

/// The share of functions that are covered, all where there are none.
pub open spec fn coverage(total: usize, count: usize) -> Share {
    if total == 0 {
        whole()
    } else {
        achieved(count as nat, total as nat)
    }
}

/// Safety with three tenths of the error rate taken from it: a clean build alone is
/// not wholly safe.
pub open spec fn folded_safety(safety: Share, error_rate: Share) -> Share {
    Share {
        num: (safety.num * (10 * error_rate.den - 3 * error_rate.num)) as u128,
        den: (safety.den * 10 * error_rate.den) as u128,
    }
}

fn fold_safety(safety: Share, error_rate: Share) -> (r: Share)
    requires
        safety.well_formed(),
        error_rate.well_formed(),
        safety.den <= 10,
        error_rate.den <= 0x1_0000_0000_0000_0000,
    ensures
        r == folded_safety(safety, error_rate),
        r.well_formed(),
{
    let keep: u128 = 10 * error_rate.den - 3 * error_rate.num;
    let all: u128 = 10 * error_rate.den;
    assert(safety.num * keep <= safety.den * all && safety.den * all <= 10 * all && safety.den
        * all > 0) by (nonlinear_arith)
        requires
            safety.num <= safety.den,
            0 < safety.den <= 10,
            keep <= all,
            all > 0,
    ;
    assert(safety.den * 10 * error_rate.den == safety.den * all) by (nonlinear_arith)
        requires
            all == 10 * error_rate.den,
    ;
    Share { num: safety.num * keep, den: safety.den * all }
}

/// What violations take from the overall score: three twentieths each, fifteen at
/// most.
pub open spec fn penalty_of(violations: nat) -> Share {
    Share {
        num: if violations < 5 {
            (3 * violations) as u128
        } else {
            15
        },
        den: 20,
    }
}

/// The snapshot is the evaluation of what was loaded.
pub open spec fn evaluates(input: EvalInput, r: EvaluationWorkspaceSnapshot) -> bool {
    &&& r.objectives_completed == input.objectives_completed
    &&& r.objectives_total == input.objectives_total
    &&& r.completed_tasks == input.completed_tasks
    &&& r.total_tasks == input.total_tasks
    &&& r.open_issues == input.open_issues
    &&& r.repeated_open_issues == input.repeated_open_issues
    &&& r.semantic_fn_total == input.semantic_fn_total
    &&& r.semantic_fn_with_any_error == input.semantic_fn_with_any_error
    &&& r.semantic_fn_intent_classified == input.semantic_fn_intent_classified
    &&& r.semantic_fn_low_confidence == input.semantic_fn_low_confidence
    &&& r.vector.objective_progress == objective_share(
        input.objectives_completed,
        input.objectives_total,
    )
    &&& r.vector.task_velocity == velocity_share(input.completed_tasks, input.total_tasks)
    &&& r.vector.semantic_contract@ == contract_shares(
        input.semantic_fn_total,
        input.semantic_fn_with_any_error,
        input.semantic_fn_intent_classified,
        input.semantic_fn_low_confidence,
    )
    &&& r.vector.issue_health == remaining(input.repeated_open_issues as nat, input.open_issues as nat)
    &&& r.vector.structural_invariant_coverage == clamped(
        covered_share(input.structural_invariant_coverage),
    )
    &&& r.vector.improvement_measurement == remaining(
        input.tlog_delta_signals.unmeasured_improvement_attempts as nat,
        input.tlog_delta_signals.improvement_attempts as nat,
    )
    &&& r.vector.improvement_validation == remaining(
        input.tlog_delta_signals.unvalidated_improvement_attempts as nat,
        input.tlog_delta_signals.improvement_attempts as nat,
    )
    &&& r.vector.improvement_effectiveness == remaining(
        input.tlog_delta_signals.regressed_improvement_attempts as nat,
        input.tlog_delta_signals.measured_improvement_attempts as nat,
    )
    &&& r.vector.recovery_effectiveness == recovery_share(input.tlog_delta_signals)
    &&& r.semantic_fn_totalized == totalized(input)
    &&& r.vector.safety == folded_safety(
        remaining(penalty_tenths(input.violations@), 10),
        rate(input.semantic_fn_total, input.semantic_fn_with_any_error),
    )
    &&& r.vector.canonical_delta_health@ == delta_health(input.tlog_delta_signals)
    &&& r.diagnostics_repair_pressure == felt_pressure(
        input.failures@,
        input.high_priority_open_issues,
    )
    &&& r.semantic_fn_error_rate == rate(input.semantic_fn_total, input.semantic_fn_with_any_error)
    &&& r.semantic_fn_intent_coverage == coverage(
        input.semantic_fn_total,
        input.semantic_fn_intent_classified,
    )
    &&& r.semantic_fn_totalization_coverage == coverage(
        input.semantic_fn_total,
        totalized(input) as usize,
    )
    &&& r.semantic_fn_low_confidence_rate == rate(
        input.semantic_fn_total,
        input.semantic_fn_low_confidence,
    )
    &&& r.structural_invariant_coverage.same_as(input.structural_invariant_coverage)
    &&& r.tlog_delta_signals == input.tlog_delta_signals
    &&& r.eval_enforcement.of(input)
    &&& r.enforcement_penalty == penalty_of(violation_texts(input).len())
}

/// Evaluates a workspace from what was loaded of it.
pub fn compute_eval(input: &EvalInput) -> (r: EvaluationWorkspaceSnapshot)
    ensures
        evaluates(*input, r),
{
    let totalized: usize = totalized_count(input);
    let error_rate = semantic_rate_from_counts(
        input.semantic_fn_total,
        input.semantic_fn_with_any_error,
    );
    let intent_coverage = semantic_coverage_from_counts(
        input.semantic_fn_total,
        input.semantic_fn_intent_classified,
    );
    let low_rate = semantic_rate_from_counts(
        input.semantic_fn_total,
        input.semantic_fn_low_confidence,
    );
    let mut vector = evaluate_repo_state(
        input.objectives_completed,
        input.objectives_total,
        &input.violations,
        input.completed_tasks,
        input.total_tasks,
        input.open_issues,
        input.repeated_open_issues,
        semantic_contract_shares(error_rate, intent_coverage, low_rate),
        input.structural_invariant_coverage.score(),
        canonical_delta_health_shares(&input.tlog_delta_signals),
        improvement_measurement_score(&input.tlog_delta_signals),
        improvement_validation_score(&input.tlog_delta_signals),
        improvement_effectiveness_score(&input.tlog_delta_signals),
        recovery_effectiveness_score(&input.tlog_delta_signals),
    );
    vector.safety = fold_safety(vector.safety, error_rate);
    let eval_enforcement = enforce_eval_thresholds(input);
    assert(text::texts(eval_enforcement.violations@).len() == eval_enforcement.violations@.len());
    let penalty: u128 = if eval_enforcement.violation_count < 5 {
        3 * (eval_enforcement.violation_count as u128)
    } else {
        15
    };
    EvaluationWorkspaceSnapshot {
        objectives_completed: input.objectives_completed,
        objectives_total: input.objectives_total,
        completed_tasks: input.completed_tasks,
        total_tasks: input.total_tasks,
        open_issues: input.open_issues,
        repeated_open_issues: input.repeated_open_issues,
        semantic_fn_total: input.semantic_fn_total,
        semantic_fn_with_any_error: input.semantic_fn_with_any_error,
        semantic_fn_intent_classified: input.semantic_fn_intent_classified,
        semantic_fn_low_confidence: input.semantic_fn_low_confidence,
        vector,
        diagnostics_repair_pressure: diagnostics_repair_pressure_with_issues(
            &input.failures,
            input.high_priority_open_issues,
        ),
        semantic_fn_error_rate: error_rate,
        semantic_fn_intent_coverage: intent_coverage,
        semantic_fn_totalized: totalized,
        semantic_fn_totalization_coverage: semantic_coverage_from_counts(
            input.semantic_fn_total,
            totalized,
        ),
        semantic_fn_low_confidence_rate: low_rate,
        structural_invariant_coverage: input.structural_invariant_coverage.copy(),
        tlog_delta_signals: input.tlog_delta_signals.copy(),
        eval_enforcement,
        enforcement_penalty: Share { num: penalty, den: 20 },
    }
}

/// An evaluation without semantic errors, with every function totalized and with
/// neither unsafe checkpoints nor unvalidated attempts passes, whatever it warns of.
pub proof fn law_warnings_do_not_fail_an_evaluation(input: EvalInput, e: EvalEnforcement)
    requires
        e.of(input),
        input.semantic_fn_with_any_error == 0,
        totalized(input) == input.semantic_fn_total,
        input.tlog_delta_signals.unsafe_checkpoint_attempts == 0,
        input.tlog_delta_signals.unvalidated_improvement_attempts == 0,
    ensures
        e.passed,
        e.violation_count == 0,
{
    assert(text::texts(e.violations@).len() == e.violations@.len());
}

/// A function with a semantic error keeps safety below everything, however clean the
/// build is.
pub proof fn law_semantic_errors_lower_safety(input: EvalInput, r: EvaluationWorkspaceSnapshot)
    requires
        evaluates(input, r),
        input.semantic_fn_total > 0,
        input.semantic_fn_with_any_error > 0,
    ensures
        r.vector.safety.num < r.vector.safety.den,
{
    let s = remaining(penalty_tenths(input.violations@), 10);
    let e = rate(input.semantic_fn_total, input.semantic_fn_with_any_error);
    let n = e.num as int;
    let d = e.den as int;
    let a = s.num as int;
    let b = s.den as int;
    assert(0 < n <= d <= 0x1_0000_0000_0000_0000);
    assert(0 <= a <= b && b == 10);
    assert(0 <= a * (10 * d - 3 * n) <= b * (10 * d - 3 * n)) by (nonlinear_arith)
        requires
            0 <= a <= b,
            0 < n <= d,
    ;
    assert(b * (10 * d - 3 * n) < b * 10 * d) by (nonlinear_arith)
        requires
            b == 10,
            0 < n <= d,
    ;
    assert(b * 10 * d <= 100 * 0x1_0000_0000_0000_0000) by (nonlinear_arith)
        requires
            b == 10,
            0 < d <= 0x1_0000_0000_0000_0000,
    ;
}

/// The scores that are given as one share, and those that follow from violations and
/// repeated issues, lie between nothing and everything.
pub proof fn law_scores_lie_between_nothing_and_everything(
    input: EvalInput,
    r: EvaluationWorkspaceSnapshot,
)
    requires
        evaluates(input, r),
    ensures
        r.vector.issue_health.well_formed(),
        r.vector.structural_invariant_coverage.well_formed(),
        r.vector.improvement_measurement.well_formed(),
        r.vector.improvement_validation.well_formed(),
        r.vector.improvement_effectiveness.well_formed(),
        r.vector.recovery_effectiveness.well_formed(),
        r.enforcement_penalty.well_formed(),
{
}

// ---------------------------------------------------------------------------
// A workspace
// ---------------------------------------------------------------------------

/// What is loaded of a workspace for its evaluation. A text is empty where its file is
/// absent.
#[derive(Debug)]
pub struct WorkspaceParts {
    pub objectives_completed: usize,
    pub objectives_total: usize,
    pub plan_text: String,
    pub issues: Vec<Issue>,
    /// How grave each violation is.
    pub violations: Vec<Severity>,
    /// The impact of each ranked failure.
    pub failures: Vec<Impact>,
    pub semantic_fn_total: usize,
    pub semantic_fn_with_any_error: usize,
    pub semantic_fn_intent_classified: usize,
    pub semantic_fn_low_confidence: usize,
    /// The coverage by meaningful intents is below three quarters.
    pub intent_coverage_low: bool,
    pub graph_text: String,
    pub invariant_text: String,
    /// The newest records of the transition log.
    pub records: Vec<TlogRecord>,
    pub texts: EvalTexts,
}

/// The tasks that are done and all of them are those of a plan's text.
pub open spec fn tasks_counted(plan: Seq<char>, done: usize, total: usize) -> bool {
    match json_text::read(plan) {
        Some(v) => {
            &&& done == tally::count_below(
                plan_tasks(v).len() as int,
                |i: int| task_done(plan_tasks(v)[i]),
            )
            &&& total == plan_tasks(v).len()
        },
        None => done == 0 && total == 0,
    }
}

/// The input of an evaluation is what the parts of a workspace show.
pub open spec fn gathers(parts: WorkspaceParts, input: EvalInput) -> bool {
    let fs = issues::findings(parts.issues@);
    let n = fs.len() as int;
    &&& input.objectives_completed == parts.objectives_completed
    &&& input.objectives_total == parts.objectives_total
    &&& tasks_counted(parts.plan_text@, input.completed_tasks, input.total_tasks)
    &&& input.open_issues == tally::count_below(n, |i: int| issues::open_issue(fs[i]))
    &&& input.repeated_open_issues == tally::count_below(n, |i: int| repeated(fs, i))
    &&& input.high_priority_open_issues == tally::count_below(n, |i: int| high_priority(fs, i))
    &&& input.violations == parts.violations
    &&& input.failures == parts.failures
    &&& input.semantic_fn_total == parts.semantic_fn_total
    &&& input.semantic_fn_with_any_error == parts.semantic_fn_with_any_error
    &&& input.semantic_fn_intent_classified == parts.semantic_fn_intent_classified
    &&& input.semantic_fn_low_confidence == parts.semantic_fn_low_confidence
    &&& input.intent_coverage_low == parts.intent_coverage_low
    &&& input.structural_invariant_coverage.of(
        text::lower_ascii(parts.graph_text@),
        text::lower_ascii(parts.invariant_text@),
    )
    &&& input.tlog_delta_signals.of(parts.records@)
    &&& input.texts == parts.texts
}

/// Gathers the input of an evaluation from the parts of a workspace.
pub fn gather_eval_input(parts: WorkspaceParts) -> (r: EvalInput)
    ensures
        gathers(parts, r),
{
    let (completed_tasks, total_tasks) = task_counts_in(parts.plan_text.as_str());
    let (open_issues, repeated_open_issues, high_priority_open_issues) = load_issue_counts(
        &parts.issues,
    );
    let structural_invariant_coverage = structural_invariant_coverage_from_text(
        parts.graph_text.as_str(),
        parts.invariant_text.as_str(),
    );
    let tlog_delta_signals = evaluate_tlog_delta_invariants(&parts.records);
    EvalInput {
        objectives_completed: parts.objectives_completed,
        objectives_total: parts.objectives_total,
        completed_tasks,
        total_tasks,
        open_issues,
        repeated_open_issues,
        high_priority_open_issues,
        violations: parts.violations,
        failures: parts.failures,
        semantic_fn_total: parts.semantic_fn_total,
        semantic_fn_with_any_error: parts.semantic_fn_with_any_error,
        semantic_fn_intent_classified: parts.semantic_fn_intent_classified,
        semantic_fn_low_confidence: parts.semantic_fn_low_confidence,
        intent_coverage_low: parts.intent_coverage_low,
        structural_invariant_coverage,
        tlog_delta_signals,
        texts: parts.texts,
    }
}

/// Evaluates a workspace from what was loaded of it.
pub fn evaluate_workspace(parts: WorkspaceParts) -> (r: EvaluationWorkspaceSnapshot)
    ensures
        exists|input: EvalInput| gathers(parts, input) && #[trigger] evaluates(input, r),
        r.structural_invariant_coverage.of(
            text::lower_ascii(parts.graph_text@),
            text::lower_ascii(parts.invariant_text@),
        ),
        r.tlog_delta_signals.of(parts.records@),
{
    let input = gather_eval_input(parts);
    let snapshot = compute_eval(&input);
    proof {
        assert(text::texts(snapshot.structural_invariant_coverage.missing@).len()
            == snapshot.structural_invariant_coverage.missing@.len());
        assert(text::texts(input.structural_invariant_coverage.missing@).len()
            == input.structural_invariant_coverage.missing@.len());
    }
    snapshot
}

} // verus!
