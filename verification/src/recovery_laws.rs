//! What the scores of recoveries promise, told by the records that follow them.

use crate::events::{ControlEvent, EffectEvent, Event, ScoreChange, TlogRecord};
use crate::text;
use crate::tlog_delta;
use crate::tlog_delta::TlogDeltaSignals;
use vstd::prelude::*;

verus! {

/// The record starts a recovery of `class`.
pub open spec fn starts_recovery(r: TlogRecord, class: Seq<char>) -> bool {
    r.event matches Event::Effect { event: EffectEvent::RecoveryTriggered { class: c, .. } } && c@
        == class
}

/// The record holds back a recovery of `class`.
pub open spec fn holds_recovery_back(r: TlogRecord, class: Seq<char>) -> bool {
    r.event matches Event::Effect { event: EffectEvent::RecoverySuppressed { class: c, .. } } && c@
        == class
}

/// The record says how a recovery of `class` ended.
pub open spec fn ends_recovery(r: TlogRecord, class: Seq<char>) -> bool {
    r.event matches Event::Effect { event: EffectEvent::RecoveryOutcomeRecorded { class: c, .. } }
        && c@ == class
}

/// The record shows that work goes on.
pub open spec fn moves_on(r: TlogRecord) -> bool {
    match r.event {
        Event::Effect { event: EffectEvent::ActionResultRecorded { ok: true, .. } } => true,
        Event::Effect { event: EffectEvent::WorkspaceArtifactWriteApplied { .. } } => true,
        Event::Effect { event: EffectEvent::ProjectionRefreshRecoveryRequested { .. } } => true,
        Event::Effect {
            event: EffectEvent::EvalScoreRecorded { promotion_eligible: true, .. },
        } => true,
        Event::Effect {
            event: EffectEvent::EvalScoreRecorded { delta: Some(ScoreChange::NonNegative), .. },
        } => true,
        Event::Control { event: ControlEvent::PlannerPendingSet { pending: true } } => true,
        Event::Control { event: ControlEvent::ScheduledPhaseSet { phase: Some(p) } } => p@
            == "planner"@,
        _ => false,
    }
}

/// The record may show a failure again: a violation, or a recovery that failed.
pub open spec fn may_fail_again(r: TlogRecord) -> bool {
    match r.event {
        Event::Effect { event: EffectEvent::InvariantViolation { .. } } => true,
        Event::Effect { event: EffectEvent::RecoveryOutcomeRecorded { success: false, .. } } => true,
        _ => false,
    }
}

/// The place `j` is one of the thirty-two behind `i`.
pub open spec fn soon_after(rs: Seq<TlogRecord>, i: int, j: int) -> bool {
    i < j <= i + 32 && 0 <= j < rs.len()
}

proof fn lemma_window(rs: Seq<TlogRecord>, i: int)
    requires
        0 <= i < rs.len(),
    ensures
        ({
            let w = tlog_delta::recovery_window(rs, i);
            &&& forall|k: int|
                0 <= k < w.len() ==> #[trigger] w[k] == rs[i + 1 + k] && soon_after(
                    rs,
                    i,
                    i + 1 + k,
                )
            &&& forall|j: int|
                #![trigger rs[j]]
                soon_after(rs, i, j) ==> 0 <= j - i - 1 < w.len() && w[j - i - 1] == rs[j]
        }),
{
    let w = tlog_delta::recovery_window(rs, i);
    assert forall|j: int|
        #![trigger rs[j]]
        soon_after(rs, i, j) implies 0 <= j - i - 1 < w.len() && w[j - i - 1] == rs[j] by {}
}

/// No recorded outcome, no first one.
proof fn lemma_no_outcome(w: Seq<TlogRecord>, class: Seq<char>)
    requires
        forall|k: int| 0 <= k < w.len() ==> !ends_recovery(#[trigger] w[k], class),
    ensures
        tlog_delta::first_outcome(w, class) is None,
    decreases w.len(),
{
    if w.len() > 0 {
        assert(!ends_recovery(w[0], class));
        assert forall|k: int| 0 <= k < w.drop_first().len() implies !ends_recovery(
            #[trigger] w.drop_first()[k],
            class,
        ) by {
            assert(w.drop_first()[k] == w[k + 1]);
        }
        lemma_no_outcome(w.drop_first(), class);
    }
}

/// The first recorded outcome is the one that counts.
proof fn lemma_first_outcome_at(w: Seq<TlogRecord>, class: Seq<char>, k: int)
    requires
        0 <= k < w.len(),
        ends_recovery(w[k], class),
        forall|m: int| 0 <= m < k ==> !ends_recovery(#[trigger] w[m], class),
    ensures
        tlog_delta::first_outcome(w, class) == tlog_delta::outcome_of(w[k].event, class),
        tlog_delta::first_outcome(w, class) is Some,
    decreases w.len(),
{
    if k > 0 {
        assert(!ends_recovery(w[0], class));
        let rest = w.drop_first();
        assert(rest[k - 1] == w[k]);
        assert forall|m: int| 0 <= m < k - 1 implies !ends_recovery(#[trigger] rest[m], class) by {
            assert(rest[m] == w[m + 1]);
        }
        lemma_first_outcome_at(rest, class, k - 1);
    }
}

/// A recovery of which no outcome is recorded soon succeeded only where work went on, and
/// surely did where it went on and nothing may have failed again.
pub proof fn law_a_recovery_succeeds_by_progress(rs: Seq<TlogRecord>, i: int, class: Seq<char>)
    requires
        0 <= i < rs.len(),
        starts_recovery(rs[i], class),
        forall|j: int| soon_after(rs, i, j) ==> !ends_recovery(#[trigger] rs[j], class),
    ensures
        tlog_delta::recovery_score(rs, i).scored,
        tlog_delta::recovery_score(rs, i).success ==> exists|j: int|
            soon_after(rs, i, j) && moves_on(#[trigger] rs[j]),
        (exists|j: int| soon_after(rs, i, j) && moves_on(#[trigger] rs[j])) && (forall|j: int|
            soon_after(rs, i, j) ==> !may_fail_again(#[trigger] rs[j]))
            ==> tlog_delta::recovery_score(rs, i).success,
        tlog_delta::recovery_score(rs, i).loop_break ==> tlog_delta::recovery_score(rs, i).success,
        rs[i].event matches Event::Effect {
            event: EffectEvent::RecoveryTriggered { support_count, .. },
        } ==> tlog_delta::recovery_score(rs, i).success ==> (tlog_delta::recovery_score(
            rs,
            i,
        ).loop_break <==> support_count > 0),
{
    let w = tlog_delta::recovery_window(rs, i);
    lemma_window(rs, i);
    assert forall|k: int| 0 <= k < w.len() implies !ends_recovery(#[trigger] w[k], class) by {
        assert(w[k] == rs[i + 1 + k]);
    }
    lemma_no_outcome(w, class);
    let score = tlog_delta::recovery_score(rs, i);
    if score.success {
        assert(tlog_delta::progresses(w));
        let k = choose|k: int| 0 <= k < w.len() && tlog_delta::shows_progress((#[trigger] w[k]).event);
        assert(w[k] == rs[i + 1 + k]);
        assert(moves_on(rs[i + 1 + k]));
    }
    if (exists|j: int| soon_after(rs, i, j) && moves_on(#[trigger] rs[j])) && (forall|j: int|
        soon_after(rs, i, j) ==> !may_fail_again(#[trigger] rs[j])) {
        let j = choose|j: int| soon_after(rs, i, j) && moves_on(#[trigger] rs[j]);
        assert(w[j - i - 1] == rs[j]);
        assert(tlog_delta::shows_progress(w[j - i - 1].event));
        assert(tlog_delta::progresses(w));
        assert(!tlog_delta::fails_again(w, class)) by {
            if tlog_delta::fails_again(w, class) {
                let k = choose|k: int|
                    0 <= k < w.len() && tlog_delta::shows_failure((#[trigger] w[k]).event, class);
                assert(w[k] == rs[i + 1 + k]);
                assert(may_fail_again(rs[i + 1 + k]));
            }
        }
    }
}

/// A violation of the executor that speaks of a missing target, a compiler, a timeout, a
/// schema or a step limit undoes a recovery of that class.
pub proof fn law_a_recovery_fails_where_its_failure_comes_back(
    rs: Seq<TlogRecord>,
    i: int,
    j: int,
    class: Seq<char>,
)
    requires
        0 <= i < rs.len(),
        starts_recovery(rs[i], class),
        forall|k: int| soon_after(rs, i, k) ==> !ends_recovery(#[trigger] rs[k], class),
        soon_after(rs, i, j),
        rs[j].event matches Event::Effect {
            event: EffectEvent::InvariantViolation { proposed_role, reason },
        } && proposed_role@ == "executor"@ && ({
            let t = text::lower_ascii(reason@);
            ||| class == "missing_target"@ && text::has_text(t, "does not exist"@)
            ||| class == "llm_timeout"@ && text::has_text(t, "timeout"@)
            ||| class == "compile_error"@ && (text::has_text(t, "cargo"@)
                || text::has_text(t, "compile"@))
            ||| class == "invalid_schema"@ && text::has_text(t, "schema"@)
            ||| class == "step_limit_exceeded"@ && (text::has_text(t, "step limit"@)
                || text::has_text(t, "step budget"@))
            ||| class == "verification_failed"@ && text::has_text(t, "verification"@)
            ||| class == "invalid_route"@ && text::has_text(t, "invalid_route"@)
            ||| class == "checkpoint_runtime_divergence"@ && text::has_text(t, "checkpoint"@)
            ||| class == "reaction_only"@ && text::has_text(t, "prose-only"@)
        }),
    ensures
        tlog_delta::recovery_score(rs, i).scored,
        !tlog_delta::recovery_score(rs, i).success,
        !tlog_delta::recovery_score(rs, i).loop_break,
{
    reveal_strlit("missing_target");
    reveal_strlit("invalid_route");
    reveal_strlit("llm_timeout");
    reveal_strlit("compile_error");
    reveal_strlit("verification_failed");
    reveal_strlit("projection_refresh_stalled");
    reveal_strlit("invalid_schema");
    reveal_strlit("step_limit_exceeded");
    reveal_strlit("checkpoint_runtime_divergence");
    reveal_strlit("reaction_only");
    assert("missing_target"@.len() == 14);
    assert("invalid_route"@.len() == 13);
    assert("llm_timeout"@.len() == 11);
    assert("compile_error"@.len() == 13);
    assert("verification_failed"@.len() == 19);
    assert("projection_refresh_stalled"@.len() == 26);
    assert("invalid_schema"@.len() == 14);
    assert("step_limit_exceeded"@.len() == 19);
    assert("checkpoint_runtime_divergence"@.len() == 29);
    assert("reaction_only"@.len() == 13);
    assert("missing_target"@[0] != "invalid_schema"@[0]);
    assert("invalid_route"@[0] != "compile_error"@[0]);
    assert("invalid_route"@[0] != "reaction_only"@[0]);
    assert("compile_error"@[0] != "reaction_only"@[0]);
    assert("verification_failed"@[0] != "step_limit_exceeded"@[0]);
    let w = tlog_delta::recovery_window(rs, i);
    lemma_window(rs, i);
    assert forall|k: int| 0 <= k < w.len() implies !ends_recovery(#[trigger] w[k], class) by {
        assert(w[k] == rs[i + 1 + k]);
    }
    lemma_no_outcome(w, class);
    assert(w[j - i - 1] == rs[j]);
    assert(tlog_delta::shows_failure(w[j - i - 1].event, class));
    assert(tlog_delta::fails_again(w, class));
}

/// The first outcome that is recorded soon after a recovery was started or held back says
/// whether it succeeded. It broke a loop where it succeeded and fewer failures or some
/// progress were seen.
pub proof fn law_a_recorded_outcome_decides(rs: Seq<TlogRecord>, i: int, j: int, class: Seq<char>)
    requires
        0 <= i < rs.len(),
        starts_recovery(rs[i], class) || holds_recovery_back(rs[i], class),
        soon_after(rs, i, j),
        ends_recovery(rs[j], class),
        forall|k: int| soon_after(rs, i, k) && k < j ==> !ends_recovery(#[trigger] rs[k], class),
    ensures
        tlog_delta::recovery_score(rs, i).scored,
        rs[j].event matches Event::Effect {
            event: EffectEvent::RecoveryOutcomeRecorded {
                success,
                failure_count_before,
                failure_count_after,
                progress_event_seen,
                ..
            },
        } ==> {
            &&& tlog_delta::recovery_score(rs, i).success == success
            &&& tlog_delta::recovery_score(rs, i).loop_break == (success && (failure_count_after
                < failure_count_before || progress_event_seen))
        },
{
    let w = tlog_delta::recovery_window(rs, i);
    lemma_window(rs, i);
    assert(w[j - i - 1] == rs[j]);
    assert forall|m: int| 0 <= m < j - i - 1 implies !ends_recovery(#[trigger] w[m], class) by {
        assert(w[m] == rs[i + 1 + m]);
    }
    lemma_first_outcome_at(w, class, j - i - 1);
}

/// A recovery that was held back is not scored unless an outcome is recorded soon; nor is
/// a record that has nothing to do with recoveries.
pub proof fn law_only_recoveries_are_scored(rs: Seq<TlogRecord>, i: int)
    requires
        0 <= i < rs.len(),
        forall|class: Seq<char>| !#[trigger] starts_recovery(rs[i], class),
        forall|j: int, class: Seq<char>|
            soon_after(rs, i, j) && holds_recovery_back(rs[i], class) ==> !(#[trigger] ends_recovery(
                rs[j],
                class,
            )),
    ensures
        !tlog_delta::recovery_score(rs, i).scored,
{
    match rs[i].event {
        Event::Effect { event: EffectEvent::RecoveryTriggered { class, .. } } => {
            assert(starts_recovery(rs[i], class@));
        },
        Event::Effect { event: EffectEvent::RecoverySuppressed { class, .. } } => {
            let w = tlog_delta::recovery_window(rs, i);
            lemma_window(rs, i);
            assert(holds_recovery_back(rs[i], class@));
            assert forall|k: int| 0 <= k < w.len() implies !ends_recovery(
                #[trigger] w[k],
                class@,
            ) by {
                assert(w[k] == rs[i + 1 + k]);
                assert(!ends_recovery(rs[i + 1 + k], class@));
            }
            lemma_no_outcome(w, class@);
        },
        _ => {},
    }
}

/// What comes later than thirty-two records behind a recovery does not change its score.
pub proof fn law_late_records_do_not_count(rs: Seq<TlogRecord>, more: Seq<TlogRecord>, i: int)
    requires
        0 <= i,
        i + 32 < rs.len(),
    ensures
        tlog_delta::recovery_score(rs + more, i) == tlog_delta::recovery_score(rs, i),
{
    assert(tlog_delta::recovery_window(rs + more, i) =~= tlog_delta::recovery_window(rs, i));
    assert((rs + more)[i] == rs[i]);
}

/// How many of the first `n` records are scored as said.
pub open spec fn scored_as(rs: Seq<TlogRecord>, n: int, success: bool) -> int
    decreases n,
{
    if n <= 0 {
        0
    } else {
        let s = tlog_delta::recovery_score(rs, n - 1);
        scored_as(rs, n - 1, success) + if s.scored && s.success == success {
            1int
        } else {
            0int
        }
    }
}

/// How many of the first `n` records start a recovery.
pub open spec fn started(rs: Seq<TlogRecord>, n: int) -> int
    decreases n,
{
    if n <= 0 {
        0
    } else {
        started(rs, n - 1) + if rs[n - 1].event matches Event::Effect {
            event: EffectEvent::RecoveryTriggered { .. },
        } {
            1int
        } else {
            0int
        }
    }
}

proof fn lemma_recoveries(rs: Seq<TlogRecord>, n: int)
    ensures
        tlog_delta::recoveries(rs, n).attempts == started(rs, n),
        tlog_delta::recoveries(rs, n).successes == scored_as(rs, n, true),
        tlog_delta::recoveries(rs, n).failures == scored_as(rs, n, false),
    decreases n,
{
    if n > 0 {
        lemma_recoveries(rs, n - 1);
    }
}

/// The attempts are the recoveries that were started; successes and failures are those
/// that were scored so, and a failed one is a regression.
pub proof fn law_recoveries_are_counted_by_their_scores(rs: Seq<TlogRecord>, s: TlogDeltaSignals)
    requires
        s.of(rs),
    ensures
        s.recovery_attempts == started(rs, rs.len() as int),
        s.recovery_successes == scored_as(rs, rs.len() as int, true),
        s.recovery_failures == scored_as(rs, rs.len() as int, false),
        s.recovery_regressions == s.recovery_failures,
        s.recovery_measurement_points == s.recovery_attempts,
        s.recovery_loop_breaks <= s.recovery_successes,
        s.recovery_attempts <= s.recovery_successes + s.recovery_failures,
{
    lemma_recoveries(rs, rs.len() as int);
    tlog_delta::law_recoveries_add_up(rs, rs.len() as int);
}

} // verus!
